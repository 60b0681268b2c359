//! The compute worker: the registry, the step graph and the pipeline table
//! of one compute job, and the state machine that runs it cycle by cycle.

use crate::command::{commands_view, submission_view, Command, MapRequest, Submission, Upload, requests_view};
use crate::element::{cast_first, cast_slice, decode_all, fits, Element};
use crate::error::{agrees, Error, ErrorView};
use crate::model::{first_unknown, WorkerView};
use crate::pipeline::PipelineTable;
use crate::registry::Registry;
use crate::resource::{DeviceBuffer, PipelineEntry, StagingBuffers};
use crate::state::{RunMode, WorkerState};
use crate::step::{describe, steps_view, Step};
use vstd::prelude::*;
use vstd::slice::slice_to_vec;

verus! {

/// Manages the data transfers from and to the device and the execution of
/// the step graph.
///
/// The host calls three hooks on every cycle, in this order:
/// `extract_pipelines`, then `run` followed by `complete`, then `unmap_all`.
/// The results of a run are handed over with `fill` and read before the
/// `unmap_all` of the cycle in which the run finished.
pub struct AppComputeWorker {
    state: WorkerState,
    pipelines: PipelineTable,
    resources: Registry,
    steps: Vec<Step>,
    command_encoder: Option<Vec<Command>>,
    write_requested: bool,
    run_mode: RunMode,
}

impl View for AppComputeWorker {
    type V = WorkerView;

    closed spec fn view(&self) -> WorkerView {
        WorkerView {
            state: self.state,
            run_mode: self.run_mode,
            write_requested: self.write_requested,
            resources: self.resources@,
            steps: steps_view(self.steps@),
            pipelines: self.pipelines@,
            encoder: match self.command_encoder {
                Some(commands) => Some(commands_view(commands@)),
                None => None,
            },
        }
    }
}

impl AppComputeWorker {
    /// The worker's parts are well-formed, and an encoder is open whenever
    /// no work is in flight.
    pub closed spec fn wf(&self) -> bool {
        &&& self.resources.wf()
        &&& self.pipelines.wf()
        &&& self.state != WorkerState::Working ==> self.command_encoder.is_some()
    }

    /// A well-formed worker has a value that meets `WorkerView::inv`.
    pub proof fn lemma_inv(&self)
        requires
            self.wf(),
        ensures
            self@.inv(),
    {
        self.resources.lemma_inv();
    }

    /// A worker over the given resources, pipelines and step graph. Its
    /// state is `Created`, no write is requested and an empty encoder is
    /// open.
    pub fn new(resources: Registry, pipelines: PipelineTable, steps: Vec<Step>, run_mode: RunMode) -> (worker:
        AppComputeWorker)
        requires
            resources.wf(),
            pipelines.wf(),
        ensures
            worker.wf(),
            worker@ == WorkerView::initial(resources@, pipelines@, steps_view(steps@), run_mode),
    {
        let worker = AppComputeWorker {
            state: WorkerState::Created,
            pipelines,
            resources,
            steps,
            command_encoder: Some(Vec::new()),
            write_requested: false,
            run_mode,
        };
        proof {
            assert(worker@.encoder.unwrap() =~= Seq::empty());
        }
        worker
    }

    /// Whether the results of the last run can be read.
    pub fn ready(&self) -> (ready: bool)
        ensures
            ready == self@.ready(),
    {
        self.state == WorkerState::FinishedWorking
    }

    /// Requests a run. A continuous worker runs anyway and stays as it is; a
    /// one-shot worker executes its step graph once, on the next cycle on
    /// which no work is in flight.
    pub fn execute(&mut self)
        requires
            old(self).wf(),
        ensures
            final(self).wf(),
            final(self)@ == old(self)@.execute(),
    {
        self.run_mode = self.run_mode.requested();
    }

    /// Whether the next cycle executes the step graph.
    pub fn ready_to_execute(&self) -> (ready: bool)
        ensures
            ready == self@.ready_to_execute(),
    {
        self.state != WorkerState::Working && self.run_mode.active()
    }

    /// The state of the worker.
    pub fn state(&self) -> (state: WorkerState)
        ensures
            state == self@.state,
    {
        self.state
    }

    /// The run mode of the worker.
    pub fn run_mode(&self) -> (mode: RunMode)
        ensures
            mode == self@.run_mode,
    {
        self.run_mode
    }

    /// Whether a write was requested since the last execution.
    pub fn write_requested(&self) -> (requested: bool)
        ensures
            requested == self@.write_requested,
    {
        self.write_requested
    }

    /// The device buffer that `name` resolves to at present.
    pub fn buffer(&self, name: &str) -> (found: Option<DeviceBuffer>)
        requires
            self.wf(),
        ensures
            found == (if self@.resources.buffers.contains_key(name@) {
                Some(self@.resources.buffers[name@])
            } else {
                None
            }),
    {
        self.resources.buffer(name)
    }

    /// The staging pair registered under `name`.
    pub fn staging(&self, name: &str) -> (found: Option<&StagingBuffers>)
        requires
            self.wf(),
        ensures
            match found {
                Some(pair) => self@.resources.staging.contains_key(name@) && pair.name@ == name@
                    && pair@ == self@.resources.staging[name@],
                None => !self@.resources.staging.contains_key(name@),
            },
    {
        self.resources.staging(name)
    }

    /// The pipeline table entry of `program`.
    pub fn pipeline(&self, program: u128) -> (found: Option<PipelineEntry>)
        requires
            self.wf(),
        ensures
            found == (if self@.pipelines.contains_key(program) {
                Some(self@.pipelines[program])
            } else {
                None
            }),
    {
        self.pipelines.get(program)
    }

    /// The step graph.
    pub fn steps(&self) -> (steps: &Vec<Step>)
        ensures
            steps_view(steps@) == self@.steps,
    {
        &self.steps
    }

    /// Records `command` into the open encoder, if there is one.
    fn record(&mut self, command: Command)
        requires
            old(self).wf(),
        ensures
            final(self).wf(),
            final(self)@ == old(self)@.record(seq![command@]),
    {
        match &mut self.command_encoder {
            Some(encoder) => {
                encoder.push(command);
            },
            None => {},
        }
        proof {
            match old(self)@.encoder {
                Some(recorded) => {
                    assert(self@.encoder.unwrap() =~= recorded + seq![command@]);
                },
                None => {},
            }
        }
    }

    /// Records the compute pass at `index`: its buffers are bound by
    /// position, and its pipeline is dispatched over its workgroups. Where a
    /// prerequisite is not met, the error says which, and nothing is
    /// recorded.
    pub fn dispatch(&mut self, index: usize) -> (result: Result<(), Error>)
        requires
            old(self).wf(),
            index < old(self)@.steps.len(),
        ensures
            final(self).wf(),
            agrees(old(self)@.dispatch_at(index as int), old(self)@, result, final(self)@),
    {
        let pass = match &self.steps[index] {
            Step::ComputePass(pass) => pass,
            Step::Swap(_, _) => {
                return Err(Error::InvalidStep(describe(&self.steps[index])));
            },
        };
        let ghost buffers = self@.resources.buffers;
        let mut bindings: Vec<usize> = Vec::new();
        let mut i: usize = 0;
        while i < pass.vars.len()
            invariant
                i <= pass.vars@.len(),
                *self == *old(self),
                self.wf(),
                index < self.steps@.len(),
                self.steps@[index as int] == Step::ComputePass(*pass),
                buffers == self@.resources.buffers,
                first_unknown(buffers, pass@.vars, 0) == first_unknown(buffers, pass@.vars, i as int),
                bindings@ == Seq::new(i as nat, |k: int| buffers[pass@.vars[k]].id),
            decreases pass.vars@.len() - i,
        {
            match self.resources.buffer(pass.vars[i].as_str()) {
                Some(buffer) => {
                    bindings.push(buffer.id);
                },
                None => {
                    return Err(Error::BufferNotFound(pass.vars[i].clone()));
                },
            }
            proof {
                assert(bindings@ =~= Seq::new((i + 1) as nat, |k: int| buffers[pass@.vars[k]].id));
            }
            i += 1;
        }
        let entry = match self.pipelines.get(pass.shader_uuid) {
            Some(entry) => entry,
            None => {
                return Err(Error::PipelinesEmpty);
            },
        };
        let pipeline = match entry.pipeline {
            Some(pipeline) => pipeline,
            None => {
                return Err(Error::PipelineNotReady);
            },
        };
        if self.command_encoder.is_none() {
            return Err(Error::EncoderMissing);
        }
        let command = Command::Dispatch { pipeline, bindings, workgroups: pass.workgroups };
        proof {
            assert(bindings@ =~= self@.bindings(pass@.vars));
        }
        self.record(command);
        Ok(())
    }

    /// Exchanges the device buffers named by the swap at `index`. Where one
    /// of the names resolves to no buffer, the first such name is reported
    /// and no name changes its buffer.
    pub fn swap(&mut self, index: usize) -> (result: Result<(), Error>)
        requires
            old(self).wf(),
            index < old(self)@.steps.len(),
        ensures
            final(self).wf(),
            agrees(old(self)@.swap_at(index as int), old(self)@, result, final(self)@),
    {
        match &self.steps[index] {
            Step::ComputePass(_) => Err(Error::InvalidStep(describe(&self.steps[index]))),
            Step::Swap(a, b) => self.resources.swap(a.as_str(), b.as_str()),
        }
    }

    /// Records `commands` after those of the open encoder. Without commands
    /// there is nothing to do; otherwise an encoder must be open.
    fn record_all(&mut self, commands: Vec<Command>) -> (result: Result<(), Error>)
        requires
            old(self).wf(),
        ensures
            final(self).wf(),
            agrees(
                old(self)@.record_copies(commands_view(commands@)),
                old(self)@,
                result,
                final(self)@,
            ),
    {
        let mut commands = commands;
        let ghost added = commands_view(commands@);
        match &mut self.command_encoder {
            Some(encoder) => {
                encoder.append(&mut commands);
            },
            None => {
                if commands.len() > 0 {
                    return Err(Error::EncoderMissing);
                }
            },
        }
        proof {
            match old(self)@.encoder {
                Some(recorded) => {
                    assert(self@.encoder.unwrap() =~= recorded + added);
                },
                None => {},
            }
        }
        Ok(())
    }

    /// Records, for every staging pair, the copy of its write buffer into
    /// the device buffer of the same name.
    pub fn write_staging_buffers(&mut self) -> (result: Result<(), Error>)
        requires
            old(self).wf(),
        ensures
            final(self).wf(),
            agrees(
                old(self)@.record_copies(old(self)@.resources.write_copies()),
                old(self)@,
                result,
                final(self)@,
            ),
    {
        let copies = self.resources.write_copies();
        self.record_all(copies)
    }

    /// Records, for every staging pair, the copy of the device buffer of the
    /// same name into its read buffer.
    pub fn read_staging_buffers(&mut self) -> (result: Result<(), Error>)
        requires
            old(self).wf(),
        ensures
            final(self).wf(),
            agrees(
                old(self)@.record_copies(old(self)@.resources.read_copies()),
                old(self)@,
                result,
                final(self)@,
            ),
    {
        let copies = self.resources.read_copies();
        self.record_all(copies)
    }

    /// Marks every read buffer as mapped, and every write buffer too where a
    /// write was pending in this cycle, and returns the map requests to
    /// issue: for each staging pair its read buffer, then its write buffer.
    pub fn map_staging_buffers(&mut self, write_pending: bool) -> (requests: Vec<MapRequest>)
        requires
            old(self).wf(),
        ensures
            final(self).wf(),
            final(self)@ == old(self)@.map_staging_buffers(write_pending),
            requests_view(requests@) == old(self)@.resources.map_requests(
                write_pending,
                old(self)@.resources.order.len(),
            ),
    {
        self.resources.map_all(write_pending)
    }

    /// Hands the recorded commands over for submission to the device queue:
    /// the encoder is closed and the worker is working.
    pub fn submit(&mut self) -> (commands: Vec<Command>)
        requires
            old(self).wf(),
            old(self)@.encoder.is_some(),
        ensures
            final(self).wf(),
            final(self)@ == old(self)@.submit(),
            old(self)@.encoder == Some(commands_view(commands@)),
    {
        let encoder = self.command_encoder.take();
        self.state = WorkerState::Working;
        match encoder {
            Some(commands) => commands,
            None => Vec::new(),
        }
    }

    /// The first half of a cycle. A worker that was just built, or whose
    /// work is done, becomes available. Then, if the worker is ready to
    /// execute, it records the pending uploads, every step in order and the
    /// downloads, closes the encoder and marks the staging buffers as
    /// mapped; the batch to submit is returned. A step whose prerequisites
    /// are not met is skipped, and the steps after it are still attempted.
    pub fn run(&mut self) -> (submission: Option<Submission>)
        requires
            old(self).wf(),
        ensures
            final(self).wf(),
            final(self)@ == old(self)@.run().0,
            submission_view(submission) == old(self)@.run().1,
    {
        if self.state == WorkerState::Created || self.state == WorkerState::FinishedWorking {
            self.state = WorkerState::Available;
        }
        if !self.ready_to_execute() {
            return None;
        }
        let ghost started = self@;
        let pending = self.write_requested;
        if pending {
            let _uploaded = self.write_staging_buffers();
            self.write_requested = false;
        }
        let ghost uploaded = self@;
        let mut i: usize = 0;
        while i < self.steps.len()
            invariant
                i <= self.steps@.len(),
                self.steps@.len() == uploaded.steps.len(),
                self.wf(),
                uploaded == started.upload(),
                uploaded.steps == started.steps,
                uploaded.encoder.is_some(),
                self@.steps == uploaded.steps,
                self@ == uploaded.after_steps(uploaded.steps, i as nat),
            decreases self.steps@.len() - i,
        {
            let is_pass = match &self.steps[i] {
                Step::ComputePass(_) => true,
                Step::Swap(_, _) => false,
            };
            proof {
                self@.lemma_after_step(self@.steps[i as int]);
            }
            if is_pass {
                let _attempt = self.dispatch(i);
            } else {
                let _attempt = self.swap(i);
            }
            proof {
                assert(self@.steps == uploaded.steps);
                assert(self@.steps.len() == self.steps@.len());
            }
            i += 1;
        }
        proof {
            uploaded.lemma_after_steps(uploaded.steps, uploaded.steps.len());
        }
        let _staged = self.read_staging_buffers();
        let commands = self.submit();
        let maps = self.map_staging_buffers(pending);
        Some(Submission { commands, maps })
    }

    /// Whether the host has to wait for the device in this cycle: always,
    /// but for a one-shot worker without a pending request.
    pub fn should_poll(&self) -> (poll: bool)
        ensures
            poll == self@.should_poll(),
    {
        self.run_mode.active()
    }

    /// The second half of a cycle, with what the device reported after the
    /// wait: whether its queue is empty. Where the worker was to wait and the
    /// queue is empty, the work is finished, a fresh encoder is open, and a
    /// one-shot request is used up. Otherwise nothing changes.
    pub fn complete(&mut self, queue_empty: bool)
        requires
            old(self).wf(),
        ensures
            final(self).wf(),
            final(self)@ == old(self)@.complete(queue_empty),
    {
        if self.run_mode.active() && queue_empty {
            self.state = WorkerState::FinishedWorking;
            self.command_encoder = Some(Vec::new());
            self.run_mode = self.run_mode.completed();
            proof {
                assert(self@.encoder.unwrap() =~= Seq::empty());
            }
        }
    }

    /// Releases the mappings, while the worker is not ready to execute:
    /// every buffer that is marked as mapped is to be unmapped, and is
    /// marked as unmapped. While the worker is ready to execute, nothing is
    /// released. What a run has produced is therefore read before the
    /// cleanup of the cycle in which the work finished.
    pub fn unmap_all(&mut self) -> (buffers: Vec<usize>)
        requires
            old(self).wf(),
        ensures
            final(self).wf(),
            final(self)@ == old(self)@.unmap_all().0,
            buffers@ == old(self)@.unmap_all().1,
    {
        if self.ready_to_execute() {
            return Vec::new();
        }
        self.resources.unmap_all()
    }

    /// Takes the answers of the pipeline cache: `cache[id]` is the pipeline
    /// that the cache has ready under `id`, if any. Every program that is
    /// not resolved yet takes the answer for its id; a resolved program
    /// keeps its pipeline.
    pub fn extract_pipelines(&mut self, cache: &Vec<Option<usize>>)
        requires
            old(self).wf(),
        ensures
            final(self).wf(),
            final(self)@ == old(self)@.extract_pipelines(cache@),
    {
        self.pipelines.extract(cache);
    }

    /// Requests the upload of `data` to the write buffer of the staging pair
    /// `target`, and notes that a write is pending. The upload is returned
    /// for the host to enqueue.
    pub fn write(&mut self, target: &str, data: Vec<u8>) -> (result: Result<Upload, Error>)
        requires
            old(self).wf(),
        ensures
            final(self).wf(),
            match result {
                Ok(upload) => {
                    &&& old(self)@.resources.staging.contains_key(target@)
                    &&& final(self)@ == old(self)@.written()
                    &&& upload.buffer == old(self)@.resources.staging[target@].write
                    &&& upload.data@ == data@
                },
                Err(error) => {
                    &&& !old(self)@.resources.staging.contains_key(target@)
                    &&& error@ == ErrorView::StagingBufferNotFound(target@)
                    &&& final(self)@ == old(self)@
                },
            },
    {
        let buffer = match self.resources.staging(target) {
            Some(pair) => pair.write,
            None => {
                return Err(Error::StagingBufferNotFound(target.to_owned()));
            },
        };
        self.write_requested = true;
        Ok(Upload { buffer, data })
    }

    /// Takes what the host found in the mapped read buffer of the staging
    /// pair `target`: the whole contents of that buffer.
    pub fn fill(&mut self, target: &str, data: Vec<u8>) -> (result: Result<(), Error>)
        requires
            old(self).wf(),
            old(self)@.fillable(target@, data@),
        ensures
            final(self).wf(),
            agrees(old(self)@.fill(target@, data@), old(self)@, result, final(self)@),
    {
        self.resources.fill(target, data)
    }

    /// Reads the mapped read buffer of the staging pair `target` as raw
    /// bytes.
    pub fn read_raw(&self, target: &str) -> (result: Result<Vec<u8>, Error>)
        requires
            self.wf(),
            self@.readable(target@),
        ensures
            match result {
                Ok(bytes) => {
                    &&& self@.resources.staging.contains_key(target@)
                    &&& bytes@ == self@.resources.staging[target@].data
                    &&& bytes@.len() == self@.resources.staging[target@].size
                },
                Err(error) => {
                    &&& !self@.resources.staging.contains_key(target@)
                    &&& error@ == ErrorView::StagingBufferNotFound(target@)
                },
            },
    {
        match self.resources.staging(target) {
            Some(pair) => Ok(slice_to_vec(pair.data.as_slice())),
            None => Err(Error::StagingBufferNotFound(target.to_owned())),
        }
    }

    /// Reads the mapped read buffer of the staging pair `target` as a
    /// sequence of elements. The buffer must hold a whole number of them.
    pub fn read<T: Element>(&self, target: &str) -> (result: Result<Vec<T>, Error>)
        requires
            self.wf(),
            self@.readable(target@),
            self@.resources.staging.contains_key(target@) ==> fits::<T>(
                self@.resources.staging[target@].data,
            ),
        ensures
            match result {
                Ok(values) => {
                    &&& self@.resources.staging.contains_key(target@)
                    &&& values@ == decode_all::<T>(self@.resources.staging[target@].data)
                    &&& values@.len() == self@.resources.staging[target@].size as int
                        / T::width() as int
                },
                Err(error) => {
                    &&& !self@.resources.staging.contains_key(target@)
                    &&& error@ == ErrorView::StagingBufferNotFound(target@)
                },
            },
    {
        match self.resources.staging(target) {
            Some(pair) => Ok(cast_slice(pair.data.as_slice())),
            None => Err(Error::StagingBufferNotFound(target.to_owned())),
        }
    }

    /// Reads the first element of the mapped read buffer of the staging pair
    /// `target`. The buffer must hold a whole number of elements, and at
    /// least one.
    pub fn read_one<T: Element>(&self, target: &str) -> (result: Result<T, Error>)
        requires
            self.wf(),
            self@.readable(target@),
            self@.resources.staging.contains_key(target@) ==> {
                &&& fits::<T>(self@.resources.staging[target@].data)
                &&& self@.resources.staging[target@].data.len() >= T::width()
            },
        ensures
            match result {
                Ok(value) => {
                    &&& self@.resources.staging.contains_key(target@)
                    &&& value == decode_all::<T>(self@.resources.staging[target@].data)[0]
                },
                Err(error) => {
                    &&& !self@.resources.staging.contains_key(target@)
                    &&& error@ == ErrorView::StagingBufferNotFound(target@)
                },
            },
    {
        match self.resources.staging(target) {
            Some(pair) => Ok(cast_first(pair.data.as_slice())),
            None => Err(Error::StagingBufferNotFound(target.to_owned())),
        }
    }
}

} // verus!
