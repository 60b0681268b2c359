//! What the worker asks the host to do on the device.

use vstd::prelude::*;

verus! {

/// A command recorded into the command encoder.
#[derive(Clone, Debug, PartialEq, Eq)]
pub enum Command {
    /// Copy `size` bytes from the start of `source` to the start of
    /// `destination`.
    CopyBufferToBuffer { source: usize, destination: usize, size: u64 },
    /// Run `pipeline` over `workgroups`, with `bindings[i]` bound to slot `i`.
    Dispatch { pipeline: usize, bindings: Vec<usize>, workgroups: [u32; 3] },
}

/// The mathematical value of a `Command`.
pub enum CommandView {
    CopyBufferToBuffer { source: usize, destination: usize, size: u64 },
    Dispatch { pipeline: usize, bindings: Seq<usize>, workgroups: [u32; 3] },
}

impl View for Command {
    type V = CommandView;

    open spec fn view(&self) -> CommandView {
        match *self {
            Command::CopyBufferToBuffer { source, destination, size } => {
                CommandView::CopyBufferToBuffer { source, destination, size }
            },
            Command::Dispatch { pipeline, bindings, workgroups } => {
                CommandView::Dispatch { pipeline, bindings: bindings@, workgroups }
            },
        }
    }
}

/// The mathematical value of each command of a list.
pub open spec fn commands_view(commands: Seq<Command>) -> Seq<CommandView> {
    commands.map_values(|command: Command| command@)
}

/// How a staging buffer is mapped into host memory.
#[derive(Clone, Copy, Debug, PartialEq, Eq, Structural)]
pub enum MapMode {
    Read,
    Write,
}

/// A request to map the whole of a staging buffer.
#[derive(Clone, Debug, PartialEq, Eq)]
pub struct MapRequest {
    /// The name of the staging pair that the buffer belongs to.
    pub name: String,
    /// The buffer to map.
    pub buffer: usize,
    pub mode: MapMode,
}

/// The mathematical value of a `MapRequest`.
pub struct MapRequestView {
    pub name: Seq<char>,
    pub buffer: usize,
    pub mode: MapMode,
}

impl View for MapRequest {
    type V = MapRequestView;

    open spec fn view(&self) -> MapRequestView {
        MapRequestView { name: self.name@, buffer: self.buffer, mode: self.mode }
    }
}

/// The mathematical value of each map request of a list.
pub open spec fn requests_view(requests: Seq<MapRequest>) -> Seq<MapRequestView> {
    requests.map_values(|request: MapRequest| request@)
}

/// One batch handed to the device queue: the recorded commands, in order,
/// and the map requests to issue once the batch is submitted.
#[derive(Clone, Debug, PartialEq, Eq)]
pub struct Submission {
    pub commands: Vec<Command>,
    pub maps: Vec<MapRequest>,
}

/// The mathematical value of a `Submission`.
pub struct SubmissionView {
    pub commands: Seq<CommandView>,
    pub maps: Seq<MapRequestView>,
}

impl View for Submission {
    type V = SubmissionView;

    open spec fn view(&self) -> SubmissionView {
        SubmissionView {
            commands: commands_view(self.commands@),
            maps: requests_view(self.maps@),
        }
    }
}

/// The mathematical value of what a cycle submitted, if anything.
pub open spec fn submission_view(submission: Option<Submission>) -> Option<SubmissionView> {
    match submission {
        Some(batch) => Some(batch@),
        None => None,
    }
}

/// Bytes to upload to the start of a write-staging buffer through the device
/// queue.
#[derive(Clone, Debug, PartialEq, Eq)]
pub struct Upload {
    pub buffer: usize,
    pub data: Vec<u8>,
}

} // verus!
