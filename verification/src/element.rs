//! Typed access to the bytes of a buffer: device memory is little-endian,
//! and a buffer of elements is the concatenation of their encodings.

use vstd::prelude::*;
use vstd::slice::slice_subrange;

verus! {

/// A type of fixed width that can be read from the bytes of a buffer.
pub trait Element: Copy {
    /// The number of bytes of one element.
    spec fn width() -> nat;

    /// The element that `bytes` encode, for `bytes` of length `width()`.
    spec fn decode(bytes: Seq<u8>) -> Self;

    /// The number of bytes of one element; it is never zero.
    fn size() -> (size: usize)
        ensures
            size == Self::width(),
            size > 0,
    ;

    /// Decodes one element.
    fn from_bytes(bytes: &[u8]) -> (value: Self)
        requires
            bytes@.len() == Self::width(),
        ensures
            value == Self::decode(bytes@),
    ;
}

/// The number that `bytes` encode with the least significant byte first.
pub open spec fn le_value(bytes: Seq<u8>) -> nat
    decreases bytes.len(),
{
    if bytes.len() == 0 {
        0
    } else {
        bytes[0] as nat + 256 * le_value(bytes.drop_first())
    }
}

/// The value of a sequence of bytes is below 256 to the power of its
/// length, given here for the lengths of the elements.
pub proof fn lemma_le_value_bound(bytes: Seq<u8>)
    ensures
        bytes.len() == 0 ==> le_value(bytes) == 0,
        bytes.len() == 1 ==> le_value(bytes) == bytes[0],
        bytes.len() == 2 ==> le_value(bytes) <= u16::MAX,
        bytes.len() == 4 ==> le_value(bytes) <= u32::MAX,
        bytes.len() == 8 ==> le_value(bytes) <= u64::MAX,
{
    reveal_with_fuel(le_value, 9);
}

impl Element for u8 {
    open spec fn width() -> nat {
        1
    }

    open spec fn decode(bytes: Seq<u8>) -> u8 {
        le_value(bytes) as u8
    }

    fn size() -> (size: usize) {
        1
    }

    fn from_bytes(bytes: &[u8]) -> (value: u8) {
        proof {
            reveal_with_fuel(le_value, 2);
        }
        bytes[0]
    }
}

impl Element for u16 {
    open spec fn width() -> nat {
        2
    }

    open spec fn decode(bytes: Seq<u8>) -> u16 {
        le_value(bytes) as u16
    }

    fn size() -> (size: usize) {
        2
    }

    fn from_bytes(bytes: &[u8]) -> (value: u16) {
        proof {
            reveal_with_fuel(le_value, 3);
        }
        bytes[0] as u16 + 256 * (bytes[1] as u16)
    }
}

impl Element for u32 {
    open spec fn width() -> nat {
        4
    }

    open spec fn decode(bytes: Seq<u8>) -> u32 {
        le_value(bytes) as u32
    }

    fn size() -> (size: usize) {
        4
    }

    fn from_bytes(bytes: &[u8]) -> (value: u32) {
        proof {
            reveal_with_fuel(le_value, 5);
        }
        bytes[0] as u32 + 256 * (bytes[1] as u32 + 256 * (bytes[2] as u32 + 256 * (bytes[3]
            as u32)))
    }
}

impl Element for u64 {
    open spec fn width() -> nat {
        8
    }

    open spec fn decode(bytes: Seq<u8>) -> u64 {
        le_value(bytes) as u64
    }

    fn size() -> (size: usize) {
        8
    }

    fn from_bytes(bytes: &[u8]) -> (value: u64) {
        proof {
            reveal_with_fuel(le_value, 9);
        }
        bytes[0] as u64 + 256 * (bytes[1] as u64 + 256 * (bytes[2] as u64 + 256 * (bytes[3] as u64
            + 256 * (bytes[4] as u64 + 256 * (bytes[5] as u64 + 256 * (bytes[6] as u64 + 256 * (
        bytes[7] as u64)))))))
    }
}

/// The bytes of the `i`-th element of a buffer of elements of type `T`.
pub open spec fn chunk<T: Element>(bytes: Seq<u8>, i: int) -> Seq<u8> {
    bytes.subrange(i * T::width(), (i + 1) * T::width())
}

/// The elements that a buffer holds: as many as fit, each decoded from its
/// own bytes.
pub open spec fn decode_all<T: Element>(bytes: Seq<u8>) -> Seq<T> {
    Seq::new((bytes.len() / T::width()) as nat, |i: int| T::decode(chunk::<T>(bytes, i)))
}

/// Whether `bytes` is a whole number of elements of type `T`.
pub open spec fn fits<T: Element>(bytes: Seq<u8>) -> bool {
    bytes.len() % T::width() == 0
}

proof fn lemma_chunk_bounds(len: int, width: int, i: int)
    requires
        0 < width,
        0 <= i < len / width,
        0 <= len,
    ensures
        0 <= i * width,
        (i + 1) * width == i * width + width,
        i * width + width <= len,
{
    assert(0 <= i * width) by (nonlinear_arith)
        requires
            0 <= i,
            0 < width,
    ;
    assert((i + 1) * width == i * width + width) by (nonlinear_arith);
    assert((i + 1) * width <= len) by (nonlinear_arith)
        requires
            0 < width,
            i + 1 <= len / width,
            0 <= len,
    ;
}

/// Reads `bytes` as elements of type `T`. Bytes after the last whole
/// element are left out.
pub fn cast_slice<T: Element>(bytes: &[u8]) -> (values: Vec<T>)
    ensures
        values@ == decode_all::<T>(bytes@),
        values@.len() == bytes@.len() as int / T::width() as int,
{
    let size = T::size();
    let count = bytes.len() / size;
    let mut values: Vec<T> = Vec::new();
    let mut i: usize = 0;
    while i < count
        invariant
            i <= count,
            size == T::width(),
            size > 0,
            bytes@.len() <= usize::MAX,
            count == bytes@.len() as int / size as int,
            values@ == Seq::new(i as nat, |k: int| T::decode(chunk::<T>(bytes@, k))),
        decreases count - i,
    {
        proof {
            lemma_chunk_bounds(bytes@.len() as int, size as int, i as int);
        }
        let start = i * size;
        let end = start + size;
        let value = T::from_bytes(slice_subrange(bytes, start, end));
        values.push(value);
        proof {
            assert(values@ =~= Seq::new((i + 1) as nat, |k: int| T::decode(chunk::<T>(bytes@, k))));
        }
        i += 1;
    }
    proof {
        assert(values@ =~= decode_all::<T>(bytes@));
    }
    values
}

/// Reads the first element of `bytes`.
pub fn cast_first<T: Element>(bytes: &[u8]) -> (value: T)
    requires
        bytes@.len() >= T::width(),
    ensures
        decode_all::<T>(bytes@).len() > 0,
        value == decode_all::<T>(bytes@)[0],
{
    let size = T::size();
    proof {
        assert(bytes@.len() as int / size as int >= 1) by (nonlinear_arith)
            requires
                bytes@.len() >= size,
                size > 0,
        ;
        lemma_chunk_bounds(bytes@.len() as int, size as int, 0);
    }
    T::from_bytes(slice_subrange(bytes, 0, size))
}

} // verus!
