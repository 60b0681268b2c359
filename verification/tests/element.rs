use app_compute::{cast_first, cast_slice, Element};

#[test]
fn widths_of_the_elements() {
    assert_eq!(<u8 as Element>::size(), 1);
    assert_eq!(<u16 as Element>::size(), 2);
    assert_eq!(<u32 as Element>::size(), 4);
    assert_eq!(<u64 as Element>::size(), 8);
}

#[test]
fn bytes_are_read_as_themselves() {
    assert_eq!(cast_slice::<u8>(&[1, 2, 255]), vec![1u8, 2, 255]);
    assert_eq!(cast_slice::<u8>(&[]), Vec::<u8>::new());
}

#[test]
fn words_are_little_endian() {
    assert_eq!(cast_slice::<u32>(&[1, 0, 0, 0]), vec![1u32]);
    assert_eq!(cast_slice::<u32>(&[0x78, 0x56, 0x34, 0x12]), vec![0x1234_5678u32]);
    assert_eq!(
        cast_slice::<u32>(&[0, 0, 0, 0, 0xff, 0xff, 0xff, 0xff, 0, 1, 0, 0]),
        vec![0u32, u32::MAX, 256]
    );
    assert_eq!(cast_slice::<u16>(&[0x34, 0x12, 0xff, 0x00]), vec![0x1234u16, 0x00ff]);
    assert_eq!(
        cast_slice::<u64>(&[8, 7, 6, 5, 4, 3, 2, 1]),
        vec![0x0102_0304_0506_0708u64]
    );
}

#[test]
fn trailing_bytes_are_left_out() {
    assert_eq!(cast_slice::<u32>(&[1, 0, 0, 0, 9, 9]), vec![1u32]);
    assert_eq!(cast_slice::<u32>(&[1, 0, 0]), Vec::<u32>::new());
    assert_eq!(cast_slice::<u64>(&[]), Vec::<u64>::new());
}

#[test]
fn first_element_is_the_head_of_the_slice() {
    assert_eq!(cast_first::<u32>(&[2, 0, 0, 0, 3, 0, 0, 0]), 2u32);
    assert_eq!(cast_first::<u16>(&[2, 1]), 0x0102u16);
    assert_eq!(cast_first::<u8>(&[9]), 9u8);
    assert_eq!(cast_first::<u64>(&[1, 0, 0, 0, 0, 0, 0, 0, 7]), 1u64);
}

#[test]
fn floats_survive_the_round_trip_through_words() {
    let values = [0.0f32, 1.5, -2.25, f32::MAX];
    let mut bytes = Vec::new();
    for value in values {
        bytes.extend_from_slice(&value.to_le_bytes());
    }
    let words = cast_slice::<u32>(&bytes);
    let back: Vec<f32> = words.into_iter().map(f32::from_bits).collect();
    assert_eq!(back, values.to_vec());
}

#[test]
fn single_element_decoding_agrees_with_std() {
    assert_eq!(<u32 as Element>::from_bytes(&[0xef, 0xbe, 0xad, 0xde]), 0xdead_beefu32);
    assert_eq!(<u16 as Element>::from_bytes(&[0xef, 0xbe]), 0xbeefu16);
    assert_eq!(<u8 as Element>::from_bytes(&[0xef]), 0xefu8);
    assert_eq!(
        <u64 as Element>::from_bytes(&[1, 2, 3, 4, 5, 6, 7, 8]),
        u64::from_le_bytes([1, 2, 3, 4, 5, 6, 7, 8])
    );
}
