//! The worker as a state machine over mathematical values: what each hook
//! does to the state, and which commands it hands to the host.

use crate::command::{CommandView, SubmissionView};
use crate::error::ErrorView;
use crate::pipeline::{extracted, CacheView};
use crate::registry::RegistryView;
use crate::resource::PipelineEntry;
use crate::state::{RunMode, WorkerState};
use crate::step::{step_text, ComputePassView, StepView};
use vstd::prelude::*;

verus! {

/// The mathematical value of a worker.
pub struct WorkerView {
    pub state: WorkerState,
    pub run_mode: RunMode,
    /// Whether a write was requested since the last execution.
    pub write_requested: bool,
    pub resources: RegistryView,
    pub steps: Seq<StepView>,
    pub pipelines: Map<u128, PipelineEntry>,
    /// The commands recorded into the open encoder; `None` while no encoder
    /// is open.
    pub encoder: Option<Seq<CommandView>>,
}

/// The first name of `vars`, from position `from` on, that `known` does not
/// hold.
pub open spec fn first_unknown<V>(known: Map<Seq<char>, V>, vars: Seq<Seq<char>>, from: int) -> Option<
    Seq<char>,
>
    decreases vars.len() - from,
{
    if from < 0 || from >= vars.len() {
        None
    } else if !known.contains_key(vars[from]) {
        Some(vars[from])
    } else {
        first_unknown(known, vars, from + 1)
    }
}

impl WorkerView {
    /// The worker right after construction.
    pub open spec fn initial(
        resources: RegistryView,
        pipelines: Map<u128, PipelineEntry>,
        steps: Seq<StepView>,
        run_mode: RunMode,
    ) -> WorkerView {
        WorkerView {
            state: WorkerState::Created,
            run_mode,
            write_requested: false,
            resources,
            steps,
            pipelines,
            encoder: Some(Seq::empty()),
        }
    }

    /// What holds of a worker at all times: its registry is consistent, and
    /// an encoder is open whenever no work is in flight.
    pub open spec fn inv(self) -> bool {
        &&& self.resources.inv()
        &&& self.state != WorkerState::Working ==> self.encoder.is_some()
    }

    /// Whether the results of the last run can be read.
    pub open spec fn ready(self) -> bool {
        self.state == WorkerState::FinishedWorking
    }

    /// Whether the next cycle executes the step graph: no work is in flight,
    /// and the run mode asks for a run.
    pub open spec fn ready_to_execute(self) -> bool {
        self.state != WorkerState::Working && self.run_mode.spec_active()
    }

    /// The worker once a run is requested.
    pub open spec fn execute(self) -> WorkerView {
        WorkerView { run_mode: self.run_mode.spec_requested(), ..self }
    }

    /// The worker with `commands` recorded after those of the open encoder.
    pub open spec fn record(self, commands: Seq<CommandView>) -> WorkerView {
        WorkerView {
            encoder: match self.encoder {
                Some(recorded) => Some(recorded + commands),
                None => None,
            },
            ..self
        }
    }

    /// The outcome of recording one copy per staging pair: without staging
    /// pairs there is nothing to record, and otherwise an encoder must be
    /// open.
    pub open spec fn record_copies(self, copies: Seq<CommandView>) -> Result<WorkerView, ErrorView> {
        if copies.len() > 0 && self.encoder.is_none() {
            Err(ErrorView::EncoderMissing)
        } else {
            Ok(self.record(copies))
        }
    }

    /// The buffers bound by a compute pass: slot `i` takes the buffer that
    /// the `i`-th name resolves to.
    pub open spec fn bindings(self, vars: Seq<Seq<char>>) -> Seq<usize> {
        Seq::new(vars.len(), |i: int| self.resources.buffers[vars[i]].id)
    }

    /// The command that dispatches `pass` with `pipeline`.
    pub open spec fn dispatch_command(self, pass: ComputePassView, pipeline: usize) -> CommandView {
        CommandView::Dispatch {
            pipeline,
            bindings: self.bindings(pass.vars),
            workgroups: pass.workgroups,
        }
    }

    /// The outcome of a compute pass. Its prerequisites are checked in this
    /// order: every bound name resolves to a buffer, the program is in the
    /// pipeline table, its pipeline is resolved, an encoder is open. Then the
    /// dispatch is recorded.
    pub open spec fn dispatch(self, pass: ComputePassView) -> Result<WorkerView, ErrorView> {
        match first_unknown(self.resources.buffers, pass.vars, 0) {
            Some(name) => Err(ErrorView::BufferNotFound(name)),
            None => {
                if !self.pipelines.contains_key(pass.shader_uuid) {
                    Err(ErrorView::PipelinesEmpty)
                } else {
                    match self.pipelines[pass.shader_uuid].pipeline {
                        None => Err(ErrorView::PipelineNotReady),
                        Some(pipeline) => {
                            if self.encoder.is_none() {
                                Err(ErrorView::EncoderMissing)
                            } else {
                                Ok(self.record(seq![self.dispatch_command(pass, pipeline)]))
                            }
                        },
                    }
                }
            },
        }
    }

    /// Whether `step` is a compute pass whose prerequisites, but for the
    /// open encoder, are met: every bound name resolves to a buffer, and the
    /// program is resolved to a pipeline.
    pub open spec fn pass_ready(self, step: StepView) -> bool {
        match step {
            StepView::ComputePass(pass) => {
                &&& forall|i: int|
                    0 <= i < pass.vars.len() ==> self.resources.buffers.contains_key(
                        #[trigger] pass.vars[i],
                    )
                &&& self.pipelines.contains_key(pass.shader_uuid)
                &&& self.pipelines[pass.shader_uuid].pipeline.is_some()
            },
            StepView::Swap(_, _) => false,
        }
    }

    /// The command that a compute pass records once its prerequisites are
    /// met.
    pub open spec fn pass_command(self, step: StepView) -> CommandView
        recommends
            self.pass_ready(step),
    {
        match step {
            StepView::ComputePass(pass) => self.dispatch_command(
                pass,
                self.pipelines[pass.shader_uuid].pipeline.unwrap(),
            ),
            StepView::Swap(_, _) => arbitrary(),
        }
    }

    /// The outcome of a swap of the buffers of `a` and `b`.
    pub open spec fn swap(self, a: Seq<char>, b: Seq<char>) -> Result<WorkerView, ErrorView> {
        match self.resources.swap(a, b) {
            Ok(resources) => Ok(WorkerView { resources, ..self }),
            Err(error) => Err(error),
        }
    }

    /// The outcome of dispatching the step at `index`, which has to be a
    /// compute pass.
    pub open spec fn dispatch_at(self, index: int) -> Result<WorkerView, ErrorView> {
        match self.steps[index] {
            StepView::ComputePass(pass) => self.dispatch(pass),
            StepView::Swap(_, _) => Err(ErrorView::InvalidStep(step_text(self.steps[index]))),
        }
    }

    /// The outcome of swapping at the step at `index`, which has to be a
    /// swap.
    pub open spec fn swap_at(self, index: int) -> Result<WorkerView, ErrorView> {
        match self.steps[index] {
            StepView::ComputePass(_) => Err(ErrorView::InvalidStep(step_text(self.steps[index]))),
            StepView::Swap(a, b) => self.swap(a, b),
        }
    }

    /// The outcome of one step.
    pub open spec fn step(self, step: StepView) -> Result<WorkerView, ErrorView> {
        match step {
            StepView::ComputePass(pass) => self.dispatch(pass),
            StepView::Swap(a, b) => self.swap(a, b),
        }
    }

    /// The worker after one step was attempted: a step that fails is skipped
    /// and leaves the worker as it was.
    pub open spec fn after_step(self, step: StepView) -> WorkerView {
        match self.step(step) {
            Ok(next) => next,
            Err(_) => self,
        }
    }

    /// The worker after the first `n` of `steps` were attempted in order.
    pub open spec fn after_steps(self, steps: Seq<StepView>, n: nat) -> WorkerView
        decreases n,
    {
        if n == 0 {
            self
        } else {
            self.after_steps(steps, (n - 1) as nat).after_step(steps[n - 1])
        }
    }

    /// A step, attempted, touches nothing but the encoder and the buffers
    /// that the names resolve to: the state, the run mode, the pending
    /// write, the step graph, the pipelines and the staging pairs stay as
    /// they are, an open encoder stays open, and the invariant is kept.
    pub proof fn lemma_after_step(self, step: StepView)
        ensures
            self.after_step(step).state == self.state,
            self.after_step(step).run_mode == self.run_mode,
            self.after_step(step).write_requested == self.write_requested,
            self.after_step(step).steps == self.steps,
            self.after_step(step).pipelines == self.pipelines,
            self.after_step(step).resources.staging == self.resources.staging,
            self.after_step(step).resources.order == self.resources.order,
            self.after_step(step).encoder.is_some() == self.encoder.is_some(),
            self.inv() ==> self.after_step(step).inv(),
    {
    }

    /// What `lemma_after_step` says of one step holds of any number of them.
    pub proof fn lemma_after_steps(self, steps: Seq<StepView>, n: nat)
        ensures
            self.after_steps(steps, n).state == self.state,
            self.after_steps(steps, n).run_mode == self.run_mode,
            self.after_steps(steps, n).write_requested == self.write_requested,
            self.after_steps(steps, n).steps == self.steps,
            self.after_steps(steps, n).pipelines == self.pipelines,
            self.after_steps(steps, n).resources.staging == self.resources.staging,
            self.after_steps(steps, n).resources.order == self.resources.order,
            self.after_steps(steps, n).encoder.is_some() == self.encoder.is_some(),
            self.inv() ==> self.after_steps(steps, n).inv(),
        decreases n,
    {
        if n > 0 {
            self.lemma_after_steps(steps, (n - 1) as nat);
            self.after_steps(steps, (n - 1) as nat).lemma_after_step(steps[n - 1]);
        }
    }

    /// The worker at the start of a cycle: a worker that was just built, or
    /// whose work is done, becomes available.
    pub open spec fn begin(self) -> WorkerView {
        if self.state == WorkerState::Created || self.state == WorkerState::FinishedWorking {
            WorkerView { state: WorkerState::Available, ..self }
        } else {
            self
        }
    }

    /// The worker once the pending writes are copied to the device buffers:
    /// nothing happens unless a write was requested.
    pub open spec fn upload(self) -> WorkerView {
        if self.write_requested {
            WorkerView { write_requested: false, ..self.record(self.resources.write_copies()) }
        } else {
            self
        }
    }

    /// The worker once the uploads, the whole step graph and the downloads
    /// are recorded.
    pub open spec fn recorded(self) -> WorkerView {
        let stepped = self.upload().after_steps(self.steps, self.steps.len());
        stepped.record(stepped.resources.read_copies())
    }

    /// The worker once the encoder is handed to the queue.
    pub open spec fn submit(self) -> WorkerView {
        WorkerView { state: WorkerState::Working, encoder: None, ..self }
    }

    /// The worker once the map requests are issued.
    pub open spec fn map_staging_buffers(self, write_pending: bool) -> WorkerView {
        WorkerView { resources: self.resources.mapped(write_pending), ..self }
    }

    /// The first half of a cycle: the new state and, where the step graph was
    /// executed, the batch submitted to the device.
    pub open spec fn run(self) -> (WorkerView, Option<SubmissionView>) {
        let started = self.begin();
        if !started.ready_to_execute() {
            (started, None)
        } else {
            let pending = started.write_requested;
            let recorded = started.recorded();
            let commands = match recorded.encoder {
                Some(commands) => commands,
                None => Seq::empty(),
            };
            (
                recorded.submit().map_staging_buffers(pending),
                Some(
                    SubmissionView {
                        commands,
                        maps: recorded.resources.map_requests(
                            pending,
                            recorded.resources.order.len(),
                        ),
                    },
                ),
            )
        }
    }

    /// Whether the host has to wait for the device in this cycle.
    pub open spec fn should_poll(self) -> bool {
        self.run_mode.spec_active()
    }

    /// The second half of a cycle: where the worker was waiting and the
    /// device reports its queue empty, the work is finished, a fresh encoder
    /// is open and a one-shot request is used up.
    pub open spec fn complete(self, queue_empty: bool) -> WorkerView {
        if self.should_poll() && queue_empty {
            WorkerView {
                state: WorkerState::FinishedWorking,
                run_mode: self.run_mode.spec_completed(),
                encoder: Some(Seq::empty()),
                ..self
            }
        } else {
            self
        }
    }

    /// A whole cycle: `run`, then `complete` with what the device reported.
    pub open spec fn cycle(self, queue_empty: bool) -> WorkerView {
        self.run().0.complete(queue_empty)
    }

    /// The worker after the first `n` cycles, where `polls[i]` is what the
    /// device reported in cycle `i`.
    pub open spec fn after_cycles(self, polls: Seq<bool>, n: nat) -> WorkerView
        decreases n,
    {
        if n == 0 {
            self
        } else {
            self.after_cycles(polls, (n - 1) as nat).cycle(polls[n - 1])
        }
    }

    /// The number of batches that the first `n` cycles submit.
    pub open spec fn submissions(self, polls: Seq<bool>, n: nat) -> nat
        decreases n,
    {
        if n == 0 {
            0
        } else {
            let before = self.submissions(polls, (n - 1) as nat);
            if self.after_cycles(polls, (n - 1) as nat).run().1.is_some() {
                before + 1
            } else {
                before
            }
        }
    }

    /// The cleanup of a cycle: the new state and the buffers to unmap.
    /// Mappings are released while the worker is not ready to execute: every
    /// buffer that is marked as mapped is unmapped, and no staging pair stays
    /// marked. While the worker is ready to execute, nothing is released.
    pub open spec fn unmap_all(self) -> (WorkerView, Seq<usize>) {
        if self.ready_to_execute() {
            (self, Seq::empty())
        } else {
            (
                WorkerView { resources: self.resources.unmapped(), ..self },
                self.resources.unmap_requests(self.resources.order.len()),
            )
        }
    }

    /// The worker once the pipeline cache was asked for every unresolved
    /// program.
    pub open spec fn extract_pipelines(self, cache: CacheView) -> WorkerView {
        WorkerView { pipelines: extracted(self.pipelines, cache), ..self }
    }

    /// The worker once a write to one of its staging pairs is requested.
    pub open spec fn written(self) -> WorkerView {
        WorkerView { write_requested: true, ..self }
    }

    /// The worker once the host has found `data` in the mapped read buffer of
    /// `name`.
    pub open spec fn fill(self, name: Seq<char>, data: Seq<u8>) -> Result<WorkerView, ErrorView> {
        if self.resources.staging.contains_key(name) {
            Ok(WorkerView { resources: self.resources.filled(name, data), ..self })
        } else {
            Err(ErrorView::StagingBufferNotFound(name))
        }
    }

    /// Whether the read buffer of `name` can be read: it is mapped, and the
    /// host has handed over what it holds.
    pub open spec fn readable(self, name: Seq<char>) -> bool {
        self.resources.staging.contains_key(name) ==> {
            &&& self.resources.staging[name].read_mapped
            &&& self.resources.staging[name].loaded()
        }
    }

    /// Whether `data` can be what the host found in the read buffer of
    /// `name`: it has the size of that buffer.
    pub open spec fn fillable(self, name: Seq<char>, data: Seq<u8>) -> bool {
        self.resources.fillable(name, data)
    }
}

} // verus!
