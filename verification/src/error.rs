//! Errors of the worker.

use vstd::prelude::*;

verus! {

/// What can go wrong while a step is executed or a staging buffer is accessed.
#[derive(Debug, Clone, PartialEq, Eq)]
pub enum Error {
    /// No device buffer is registered under this name.
    BufferNotFound(String),
    /// No staging buffer pair is registered under this name.
    StagingBufferNotFound(String),
    /// The step at the given index is of another kind than the operation
    /// asked for; the payload describes the step.
    InvalidStep(String),
    /// The program of a compute pass is unknown to the pipeline table.
    PipelinesEmpty,
    /// The program of a compute pass is not resolved to a pipeline yet.
    PipelineNotReady,
    /// No command encoder is open to record into.
    EncoderMissing,
}

/// The mathematical value of an `Error`: its variant and the characters of
/// its payload.
pub enum ErrorView {
    BufferNotFound(Seq<char>),
    StagingBufferNotFound(Seq<char>),
    InvalidStep(Seq<char>),
    PipelinesEmpty,
    PipelineNotReady,
    EncoderMissing,
}

impl View for Error {
    type V = ErrorView;

    open spec fn view(&self) -> ErrorView {
        match *self {
            Error::BufferNotFound(name) => ErrorView::BufferNotFound(name@),
            Error::StagingBufferNotFound(name) => ErrorView::StagingBufferNotFound(name@),
            Error::InvalidStep(text) => ErrorView::InvalidStep(text@),
            Error::PipelinesEmpty => ErrorView::PipelinesEmpty,
            Error::PipelineNotReady => ErrorView::PipelineNotReady,
            Error::EncoderMissing => ErrorView::EncoderMissing,
        }
    }
}

/// Whether an operation did what `outcome` prescribes: on success it
/// returned `Ok` and left the state `next`; on failure it returned the error
/// and left the state as it was `before`.
pub open spec fn agrees<S>(
    outcome: Result<S, ErrorView>,
    before: S,
    result: Result<(), Error>,
    after: S,
) -> bool {
    match outcome {
        Ok(next) => result.is_ok() && after == next,
        Err(expected) => match result {
            Ok(_) => false,
            Err(error) => error@ == expected && after == before,
        },
    }
}

} // verus!
