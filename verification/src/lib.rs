//! Orchestration of GPU compute passes: a worker holds named device buffers,
//! staging buffer pairs and an ordered step graph, and decides on every cycle
//! which commands are recorded, submitted and mapped.
//!
//! The worker never touches a device. Each hook returns the commands that the
//! host has to perform and takes back what the device reported, so that every
//! decision is a verified function of the worker's state.

pub mod command;
pub mod element;
pub mod error;
pub mod laws;
pub mod model;
pub mod pipeline;
pub mod registry;
pub mod resource;
pub mod state;
pub mod step;
pub mod table;
pub mod worker;

pub use command::{Command, MapMode, MapRequest, Submission, Upload};
pub use error::Error;
pub use resource::{BufferLayout, BufferUsage, DeviceBuffer, PipelineEntry, StagingBuffers};
pub use step::{ComputePass, Step};
pub use pipeline::PipelineTable;
pub use registry::Registry;
pub use state::{RunMode, WorkerState};
pub use worker::AppComputeWorker;
pub use element::{cast_first, cast_slice, Element};
