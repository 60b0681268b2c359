//! The resources a worker owns: device buffers and staging buffer pairs.

use vstd::prelude::*;

verus! {

/// A device-resident buffer: the handle by which the host knows it, and its
/// size in bytes.
#[derive(Clone, Copy, Debug, PartialEq, Eq, Structural)]
pub struct DeviceBuffer {
    pub id: usize,
    pub size: u64,
}

/// An entry of the pipeline table: where the pipeline cache keeps the
/// program, and the executable pipeline once it is resolved.
#[derive(Clone, Copy, Debug, PartialEq, Eq, Structural)]
pub struct PipelineEntry {
    pub cache_id: usize,
    pub pipeline: Option<usize>,
}

/// What a buffer may be used for.
#[derive(Clone, Copy, Debug, PartialEq, Eq, Structural)]
pub struct BufferUsage {
    pub map_read: bool,
    pub map_write: bool,
    pub copy_src: bool,
    pub copy_dst: bool,
}

/// A buffer that the host has to create on the device.
#[derive(Clone, Copy, Debug, PartialEq, Eq, Structural)]
pub struct BufferLayout {
    pub size: u64,
    pub usage: BufferUsage,
    pub mapped_at_creation: bool,
}

/// The pair of host-side buffers of one named resource: `read` receives
/// copies from the device buffer, `write` is the source of uploads to it.
#[derive(Clone, Debug, PartialEq, Eq)]
pub struct StagingBuffers {
    pub name: String,
    pub read: usize,
    pub read_mapped: bool,
    pub write: usize,
    pub write_mapped: bool,
    pub size: u64,
    pub data: Vec<u8>,
}

/// The mathematical value of a staging pair. `data` is what the host last
/// found in the mapped read buffer.
pub struct StagingView {
    pub read: usize,
    pub read_mapped: bool,
    pub write: usize,
    pub write_mapped: bool,
    pub size: u64,
    pub data: Seq<u8>,
}

impl StagingView {
    /// A pair that is not mapped and holds no data.
    pub open spec fn fresh(read: usize, write: usize, size: u64) -> StagingView {
        StagingView { read, read_mapped: false, write, write_mapped: false, size, data: Seq::empty() }
    }

    /// The pair once a map request is issued: the read buffer is mapped, and
    /// the write buffer too where a write was pending.
    pub open spec fn mapped(self, write_pending: bool) -> StagingView {
        StagingView {
            read_mapped: true,
            write_mapped: self.write_mapped || write_pending,
            ..self
        }
    }

    /// Whether the pair holds the whole contents of its read buffer.
    pub open spec fn loaded(self) -> bool {
        self.data.len() == self.size
    }

    /// The pair holds no data, or the whole contents of its read buffer.
    pub open spec fn consistent(self) -> bool {
        self.data.len() == 0 || self.loaded()
    }

    /// The pair once its mappings are released.
    pub open spec fn unmapped(self) -> StagingView {
        StagingView { read_mapped: false, write_mapped: false, data: Seq::empty(), ..self }
    }
}

impl View for StagingBuffers {
    type V = StagingView;

    open spec fn view(&self) -> StagingView {
        StagingView {
            read: self.read,
            read_mapped: self.read_mapped,
            write: self.write,
            write_mapped: self.write_mapped,
            size: self.size,
            data: self.data@,
        }
    }
}

impl StagingBuffers {
    /// The two buffers to create for a staging pair of `size` bytes: the read
    /// buffer is mappable for reading and a copy destination, the write
    /// buffer is a copy source and a copy destination.
    pub fn layout(size: u64) -> (pair: (BufferLayout, BufferLayout))
        ensures
            pair.0 == (BufferLayout {
                size,
                usage: BufferUsage { map_read: true, map_write: false, copy_src: false, copy_dst: true },
                mapped_at_creation: false,
            }),
            pair.1 == (BufferLayout {
                size,
                usage: BufferUsage { map_read: false, map_write: false, copy_src: true, copy_dst: true },
                mapped_at_creation: false,
            }),
    {
        (
            BufferLayout {
                size,
                usage: BufferUsage { map_read: true, map_write: false, copy_src: false, copy_dst: true },
                mapped_at_creation: false,
            },
            BufferLayout {
                size,
                usage: BufferUsage { map_read: false, map_write: false, copy_src: true, copy_dst: true },
                mapped_at_creation: false,
            },
        )
    }

    /// A staging pair over the two created buffers `read` and `write`, of
    /// `size` bytes each; nothing is mapped yet.
    pub fn new(name: &str, read: usize, write: usize, size: u64) -> (pair: StagingBuffers)
        ensures
            pair.name@ == name@,
            pair@ == StagingView::fresh(read, write, size),
    {
        StagingBuffers {
            name: name.to_owned(),
            read,
            read_mapped: false,
            write,
            write_mapped: false,
            size,
            data: Vec::new(),
        }
    }
}

} // verus!
