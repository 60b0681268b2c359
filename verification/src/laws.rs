//! What holds of the worker whatever the host does: laws of the state
//! machine, proved over the mathematical values of `model`.

use crate::command::CommandView;
use crate::error::ErrorView;
use crate::model::{first_unknown, WorkerView};
use crate::pipeline::{extracted, CacheView};
use crate::resource::PipelineEntry;
use crate::state::{RunMode, WorkerState};
use crate::step::{ComputePassView, StepView};
use vstd::prelude::*;

verus! {

/// Where every name of `vars` is known, none of them is reported unknown.
pub proof fn lemma_all_known<V>(known: Map<Seq<char>, V>, vars: Seq<Seq<char>>, from: int)
    requires
        0 <= from,
        forall|i: int| 0 <= i < vars.len() ==> known.contains_key(#[trigger] vars[i]),
    ensures
        first_unknown(known, vars, from).is_none(),
    decreases vars.len() - from,
{
    if from < vars.len() {
        lemma_all_known(known, vars, from + 1);
    }
}

/// Where a name is reported unknown, it is a name of `vars` that is not
/// known, and every name before it is known.
pub proof fn lemma_first_unknown<V>(known: Map<Seq<char>, V>, vars: Seq<Seq<char>>, from: int)
    requires
        0 <= from,
    ensures
        match first_unknown(known, vars, from) {
            Some(name) => exists|i: int|
                from <= i < vars.len() && vars[i] == name && !known.contains_key(name) && forall|
                    j: int,
                | from <= j < i ==> known.contains_key(#[trigger] vars[j]),
            None => forall|i: int| from <= i < vars.len() ==> known.contains_key(#[trigger] vars[i]),
        },
    decreases vars.len() - from,
{
    if from < vars.len() {
        if known.contains_key(vars[from]) {
            lemma_first_unknown(known, vars, from + 1);
            match first_unknown(known, vars, from + 1) {
                Some(name) => {
                    let i = choose|i: int|
                        from + 1 <= i < vars.len() && vars[i] == name && !known.contains_key(name)
                            && forall|j: int|
                            from + 1 <= j < i ==> known.contains_key(#[trigger] vars[j]);
                    assert(from <= i < vars.len() && vars[i] == name && !known.contains_key(name)
                        && forall|j: int| from <= j < i ==> known.contains_key(#[trigger] vars[j]));
                },
                None => {},
            }
        } else {
            assert(from <= from < vars.len() && vars[from] == vars[from] && forall|j: int|
                from <= j < from ==> known.contains_key(#[trigger] vars[j]));
        }
    }
}

/// After a swap of `a` and `b`, a compute pass that binds `a` at some slot
/// is dispatched with the buffer that `b` resolved to before the swap at
/// that slot, and one that binds `b` with the buffer that `a` resolved to.
pub proof fn law_swap_then_dispatch(
    worker: WorkerView,
    a: Seq<char>,
    b: Seq<char>,
    pass: ComputePassView,
    slot: int,
)
    requires
        worker.resources.buffers.contains_key(a),
        worker.resources.buffers.contains_key(b),
        0 <= slot < pass.vars.len(),
        pass.vars[slot] == a || pass.vars[slot] == b,
    ensures
        ({
            let swapped = worker.after_step(StepView::Swap(a, b));
            let other = if pass.vars[slot] == a {
                b
            } else {
                a
            };
            &&& swapped.bindings(pass.vars)[slot] == worker.resources.buffers[other].id
            &&& match swapped.dispatch(pass) {
                Ok(after) => after == swapped.after_step(StepView::ComputePass(pass))
                    && after.encoder.is_some() && after.encoder.unwrap().len() > 0 && (
                match after.encoder.unwrap().last() {
                    CommandView::Dispatch { bindings, .. } => bindings.len() == pass.vars.len()
                        && bindings[slot] == worker.resources.buffers[other].id,
                    _ => false,
                }),
                Err(_) => swapped.after_step(StepView::ComputePass(pass)) == swapped,
            }
        }),
{
}

/// A swap that names an unregistered buffer fails with `BufferNotFound`
/// for the first such name, and no name changes its buffer.
pub proof fn law_swap_unregistered(worker: WorkerView, a: Seq<char>, b: Seq<char>)
    requires
        !worker.resources.buffers.contains_key(a) || !worker.resources.buffers.contains_key(b),
    ensures
        worker.swap(a, b) == Err::<WorkerView, ErrorView>(
            ErrorView::BufferNotFound(
                if !worker.resources.buffers.contains_key(a) {
                    a
                } else {
                    b
                },
            ),
        ),
        worker.after_step(StepView::Swap(a, b)) == worker,
{
}

/// A swap exchanges: swapping twice gives every name its buffer back.
pub proof fn law_swap_twice(worker: WorkerView, a: Seq<char>, b: Seq<char>)
    requires
        worker.resources.buffers.contains_key(a),
        worker.resources.buffers.contains_key(b),
    ensures
        worker.after_step(StepView::Swap(a, b)).after_step(StepView::Swap(a, b)).resources.buffers
            =~= worker.resources.buffers,
{
}

/// One cycle keeps the invariant and the run mode's kind, submits exactly
/// when the worker is ready to execute at its start, and leaves the worker
/// working until the device reports its queue empty.
pub proof fn lemma_cycle(worker: WorkerView, queue_empty: bool)
    requires
        worker.inv(),
    ensures
        worker.run().0.inv(),
        worker.cycle(queue_empty).inv(),
        worker.run().1.is_some() == worker.begin().ready_to_execute(),
        worker.run().0.run_mode == worker.run_mode,
        worker.run().0.state == (if worker.begin().ready_to_execute() {
            WorkerState::Working
        } else {
            worker.begin().state
        }),
        worker.cycle(queue_empty).state == (if worker.should_poll() && queue_empty {
            WorkerState::FinishedWorking
        } else {
            worker.run().0.state
        }),
        worker.cycle(queue_empty).run_mode == (if worker.should_poll() && queue_empty {
            worker.run_mode.spec_completed()
        } else {
            worker.run_mode
        }),
{
    let started = worker.begin();
    if started.ready_to_execute() {
        let uploaded = started.upload();
        uploaded.lemma_after_steps(started.steps, started.steps.len());
        let stepped = uploaded.after_steps(started.steps, started.steps.len());
        let recorded = started.recorded();
        assert(recorded == stepped.record(stepped.resources.read_copies()));
        let mapped = recorded.submit().map_staging_buffers(started.write_requested);
        assert(mapped.resources.order == recorded.resources.order);
        assert(mapped.resources.buffers == recorded.resources.buffers);
        assert(mapped.resources.inv());
    }
}

/// A one-shot worker without a pending request submits nothing, however
/// many cycles pass, and no request appears by itself.
pub proof fn law_one_shot_idle(worker: WorkerView, polls: Seq<bool>, n: nat)
    requires
        worker.run_mode == RunMode::OneShot(false),
        n <= polls.len(),
    ensures
        worker.submissions(polls, n) == 0,
        worker.after_cycles(polls, n).run_mode == RunMode::OneShot(false),
        worker.after_cycles(polls, n).resources == worker.resources,
        worker.after_cycles(polls, n).encoder == worker.encoder,
        worker.after_cycles(polls, n).write_requested == worker.write_requested,
    decreases n,
{
    if n > 0 {
        law_one_shot_idle(worker, polls, (n - 1) as nat);
    }
}

/// A one-shot run, from the request to the results. The worker has no work
/// in flight when `execute` is called, and the device first reports its
/// queue empty in cycle `done`. Then exactly one batch is submitted, in the
/// first cycle; the worker is working after each cycle before `done`, and
/// ready after it, with the request used up; and whatever the device
/// reports in later cycles, no further batch is submitted.
pub proof fn law_one_shot_runs_once(worker: WorkerView, polls: Seq<bool>, done: nat, n: nat)
    requires
        worker.inv(),
        worker.state != WorkerState::Working,
        worker.run_mode != RunMode::Continuous,
        done < n <= polls.len(),
        forall|i: int| 0 <= i < done ==> !polls[i],
        polls[done as int],
    ensures
        worker.execute().submissions(polls, 1) == 1,
        forall|i: nat|
            1 <= i <= done ==> (#[trigger] worker.execute().after_cycles(polls, i)).state
                == WorkerState::Working,
        worker.execute().after_cycles(polls, (done + 1) as nat).ready(),
        worker.execute().after_cycles(polls, (done + 1) as nat).run_mode == RunMode::OneShot(false),
        worker.execute().submissions(polls, n) == 1,
{
    let requested = worker.execute();
    assert forall|i: nat| 1 <= i <= done implies (#[trigger] requested.after_cycles(polls, i)).state
        == WorkerState::Working by {
        lemma_one_shot_working(requested, polls, i);
    }
    lemma_one_shot_working(requested, polls, (done + 1) as nat);
    lemma_one_shot_finished(requested, polls, done, n);
    lemma_one_shot_working(requested, polls, 1);
}

/// While the device has not reported its queue empty, a requested one-shot
/// run is in flight: one batch was submitted, and the request is pending.
proof fn lemma_one_shot_working(requested: WorkerView, polls: Seq<bool>, i: nat)
    requires
        requested.inv(),
        requested.state != WorkerState::Working,
        requested.run_mode == RunMode::OneShot(true),
        1 <= i <= polls.len(),
        forall|j: int| 0 <= j < i - 1 ==> !polls[j],
    ensures
        requested.after_cycles(polls, i).inv(),
        requested.submissions(polls, i) == 1,
        !polls[i - 1] ==> requested.after_cycles(polls, i).state == WorkerState::Working
            && requested.after_cycles(polls, i).run_mode == RunMode::OneShot(true),
        polls[i - 1] ==> requested.after_cycles(polls, i).state == WorkerState::FinishedWorking
            && requested.after_cycles(polls, i).run_mode == RunMode::OneShot(false),
    decreases i,
{
    if i == 1 {
        assert(requested.after_cycles(polls, 0) == requested);
        assert(requested.submissions(polls, 0) == 0);
        lemma_cycle(requested, polls[0]);
    } else {
        lemma_one_shot_working(requested, polls, (i - 1) as nat);
        lemma_cycle(requested.after_cycles(polls, (i - 1) as nat), polls[i - 1]);
    }
}

/// Once a one-shot run is finished, later cycles submit nothing more.
proof fn lemma_one_shot_finished(requested: WorkerView, polls: Seq<bool>, done: nat, n: nat)
    requires
        requested.inv(),
        requested.state != WorkerState::Working,
        requested.run_mode == RunMode::OneShot(true),
        done < n <= polls.len(),
        forall|j: int| 0 <= j < done ==> !polls[j],
        polls[done as int],
    ensures
        requested.submissions(polls, n) == 1,
        requested.after_cycles(polls, n).run_mode == RunMode::OneShot(false),
    decreases n,
{
    if n == done + 1 {
        lemma_one_shot_working(requested, polls, n);
    } else {
        lemma_one_shot_finished(requested, polls, done, (n - 1) as nat);
    }
}

/// A continuous worker submits a batch in every cycle, as long as the
/// device reports its queue empty at the end of each; a call of `execute`
/// changes nothing about it.
pub proof fn law_continuous_submits_every_cycle(worker: WorkerView, polls: Seq<bool>, n: nat)
    requires
        worker.inv(),
        worker.state != WorkerState::Working,
        worker.run_mode == RunMode::Continuous,
        n <= polls.len(),
        forall|i: int| 0 <= i < n ==> polls[i],
    ensures
        worker.execute() == worker,
        worker.submissions(polls, n) == n,
        worker.after_cycles(polls, n).inv(),
        worker.after_cycles(polls, n).run_mode == RunMode::Continuous,
        worker.after_cycles(polls, n).state != WorkerState::Working,
    decreases n,
{
    if n > 0 {
        law_continuous_submits_every_cycle(worker, polls, (n - 1) as nat);
        lemma_cycle(worker.after_cycles(polls, (n - 1) as nat), polls[n - 1]);
    }
}

/// A graph of compute passes whose prerequisites are met records one
/// dispatch per pass, in the order of the graph, after what the encoder held
/// before, and changes nothing else.
pub proof fn law_ready_passes_are_dispatched_in_order(
    worker: WorkerView,
    steps: Seq<StepView>,
    n: nat,
)
    requires
        worker.encoder.is_some(),
        n <= steps.len(),
        forall|i: int| 0 <= i < n ==> worker.pass_ready(#[trigger] steps[i]),
    ensures
        worker.after_steps(steps, n) == worker.record(
            Seq::new(n, |i: int| worker.pass_command(steps[i])),
        ),
    decreases n,
{
    if n == 0 {
        assert(worker.encoder.unwrap() + Seq::new(0, |i: int| worker.pass_command(steps[i]))
            =~= worker.encoder.unwrap());
    } else {
        let before = (n - 1) as nat;
        law_ready_passes_are_dispatched_in_order(worker, steps, before);
        let previous = worker.after_steps(steps, before);
        assert(worker.pass_ready(steps[n - 1]));
        match steps[n - 1] {
            StepView::ComputePass(pass) => {
                lemma_all_known(previous.resources.buffers, pass.vars, 0);
                assert(previous.bindings(pass.vars) =~= worker.bindings(pass.vars));
            },
            StepView::Swap(_, _) => {},
        }
        assert(previous.encoder.unwrap() + seq![worker.pass_command(steps[n - 1])]
            =~= worker.encoder.unwrap() + Seq::new(n, |i: int| worker.pass_command(steps[i])));
    }
}

/// The batch of a cycle, for a worker that is ready to execute, has no
/// write pending, and whose graph holds only compute passes with met
/// prerequisites: what the encoder held, one dispatch per pass in order,
/// and one download per staging pair in order; one read request per staging
/// pair is issued with it.
pub proof fn law_batch_holds_the_whole_graph(worker: WorkerView)
    requires
        worker.inv(),
        worker.begin().ready_to_execute(),
        !worker.write_requested,
        forall|i: int| 0 <= i < worker.steps.len() ==> worker.pass_ready(#[trigger] worker.steps[i]),
    ensures
        worker.run().1.is_some(),
        worker.run().1.unwrap().commands == worker.encoder.unwrap() + Seq::new(
            worker.steps.len(),
            |i: int| worker.pass_command(worker.steps[i]),
        ) + worker.resources.read_copies(),
        worker.run().1.unwrap().maps == worker.resources.map_requests(
            false,
            worker.resources.order.len(),
        ),
{
    let started = worker.begin();
    assert forall|i: int| 0 <= i < started.steps.len() implies started.pass_ready(
        #[trigger] started.steps[i],
    ) by {
        assert(worker.pass_ready(worker.steps[i]));
    }
    law_ready_passes_are_dispatched_in_order(started, started.steps, started.steps.len());
    assert(Seq::new(started.steps.len(), |i: int| started.pass_command(started.steps[i]))
        =~= Seq::new(worker.steps.len(), |i: int| worker.pass_command(worker.steps[i])));
}

/// A compute pass whose program is in the pipeline table but not resolved
/// yet is skipped: it fails with `PipelineNotReady` and leaves the worker
/// as it was.
pub proof fn law_unresolved_pass_is_skipped(worker: WorkerView, pass: ComputePassView)
    requires
        forall|i: int|
            0 <= i < pass.vars.len() ==> worker.resources.buffers.contains_key(
                #[trigger] pass.vars[i],
            ),
        worker.pipelines.contains_key(pass.shader_uuid),
        worker.pipelines[pass.shader_uuid].pipeline.is_none(),
    ensures
        worker.dispatch(pass) == Err::<WorkerView, ErrorView>(ErrorView::PipelineNotReady),
        worker.after_step(StepView::ComputePass(pass)) == worker,
{
    lemma_all_known(worker.resources.buffers, pass.vars, 0);
}

/// Once the cache has the pipeline of a program ready, the pass of that
/// program is dispatched with it: the dispatch is the last command of the
/// encoder, after what was recorded before.
pub proof fn law_resolved_pass_is_dispatched(
    worker: WorkerView,
    cache: CacheView,
    pass: ComputePassView,
    pipeline: usize,
)
    requires
        forall|i: int|
            0 <= i < pass.vars.len() ==> worker.resources.buffers.contains_key(
                #[trigger] pass.vars[i],
            ),
        worker.pipelines.contains_key(pass.shader_uuid),
        worker.pipelines[pass.shader_uuid].pipeline.is_none(),
        worker.pipelines[pass.shader_uuid].cache_id < cache.len(),
        cache[worker.pipelines[pass.shader_uuid].cache_id as int] == Some(pipeline),
        worker.encoder.is_some(),
    ensures
        worker.extract_pipelines(cache).after_step(StepView::ComputePass(pass)).encoder == Some(
            worker.encoder.unwrap().push(worker.dispatch_command(pass, pipeline)),
        ),
{
    let resolved = worker.extract_pipelines(cache);
    lemma_all_known(resolved.resources.buffers, pass.vars, 0);
    assert(worker.encoder.unwrap() + seq![worker.dispatch_command(pass, pipeline)]
        =~= worker.encoder.unwrap().push(worker.dispatch_command(pass, pipeline)));
}

/// A pipeline table entry is filled at most once: whatever the cache
/// answers later, a resolved program keeps its pipeline.
pub proof fn law_resolved_is_permanent(
    pipelines: Map<u128, PipelineEntry>,
    first: CacheView,
    second: CacheView,
    program: u128,
)
    requires
        pipelines.contains_key(program),
        extracted(pipelines, first)[program].pipeline.is_some(),
    ensures
        extracted(extracted(pipelines, first), second)[program] == extracted(
            pipelines,
            first,
        )[program],
{
}

/// While the worker is ready to execute, the cleanup releases nothing.
pub proof fn law_cleanup_waits_while_ready(worker: WorkerView)
    requires
        worker.ready_to_execute(),
    ensures
        worker.unmap_all().0 == worker,
        worker.unmap_all().1.len() == 0,
{
}

/// While the worker is not ready to execute, the cleanup leaves no staging
/// pair marked as mapped, and touches nothing but the staging pairs.
pub proof fn law_cleanup_releases_every_mapping(worker: WorkerView, name: Seq<char>)
    requires
        !worker.ready_to_execute(),
        worker.resources.staging.contains_key(name),
    ensures
        worker.unmap_all().0.resources.staging.contains_key(name),
        !worker.unmap_all().0.resources.staging[name].read_mapped,
        !worker.unmap_all().0.resources.staging[name].write_mapped,
        worker.unmap_all().0.resources.buffers == worker.resources.buffers,
        worker.unmap_all().0.resources.order == worker.resources.order,
        worker.unmap_all().0.state == worker.state,
        worker.unmap_all().0.run_mode == worker.run_mode,
        worker.unmap_all().0.encoder == worker.encoder,
{
}

/// The cleanup returns a buffer exactly when it was marked as mapped: the
/// read buffer and the write buffer of each of the first `n` staging pairs.
pub proof fn law_cleanup_returns_the_mapped_buffers(worker: WorkerView, n: nat, buffer: usize)
    requires
        n <= worker.resources.order.len(),
    ensures
        worker.resources.unmap_requests(n).contains(buffer) <==> exists|i: int|
            0 <= i < n && {
                let pair = worker.resources.staging[#[trigger] worker.resources.order[i]];
                ||| pair.read_mapped && pair.read == buffer
                ||| pair.write_mapped && pair.write == buffer
            },
    decreases n,
{
    if n > 0 {
        let before = (n - 1) as nat;
        law_cleanup_returns_the_mapped_buffers(worker, before, buffer);
        let pair = worker.resources.staging[worker.resources.order[n - 1]];
        let earlier = worker.resources.unmap_requests(before);
        let read = if pair.read_mapped {
            earlier.push(pair.read)
        } else {
            earlier
        };
        if worker.resources.unmap_requests(n).contains(buffer) {
            if earlier.contains(buffer) {
            } else {
                assert(pair.read_mapped && pair.read == buffer || pair.write_mapped && pair.write
                    == buffer) by {
                    let k = choose|k: int|
                        0 <= k < worker.resources.unmap_requests(n).len()
                            && worker.resources.unmap_requests(n)[k] == buffer;
                    if k < earlier.len() {
                        assert(earlier[k] == buffer);
                    }
                }
                assert(worker.resources.order[n - 1] == worker.resources.order[n - 1]);
            }
        }
        if exists|i: int|
            0 <= i < n && {
                let pair = worker.resources.staging[#[trigger] worker.resources.order[i]];
                ||| pair.read_mapped && pair.read == buffer
                ||| pair.write_mapped && pair.write == buffer
            } {
            let i = choose|i: int|
                0 <= i < n && {
                    let pair = worker.resources.staging[#[trigger] worker.resources.order[i]];
                    ||| pair.read_mapped && pair.read == buffer
                    ||| pair.write_mapped && pair.write == buffer
                };
            if i < n - 1 {
                let k = choose|k: int| 0 <= k < earlier.len() && earlier[k] == buffer;
                assert(read[k] == buffer);
                assert(worker.resources.unmap_requests(n)[k] == buffer);
            } else if pair.read_mapped && pair.read == buffer {
                assert(read[earlier.len() as int] == buffer);
                assert(worker.resources.unmap_requests(n)[earlier.len() as int] == buffer);
            } else {
                assert(worker.resources.unmap_requests(n)[read.len() as int] == buffer);
            }
        }
    }
}

/// The results of a run can be read once the work is finished and the host
/// has handed over the contents of a read buffer: the worker is ready, the
/// buffer is mapped and holds exactly what was handed over, in the size of
/// the buffer. The cleanup of the same cycle, for a one-shot worker, then
/// releases the mapping.
pub proof fn law_finished_results_are_readable(worker: WorkerView, name: Seq<char>, data: Seq<u8>)
    requires
        worker.inv(),
        worker.begin().ready_to_execute(),
        worker.resources.staging.contains_key(name),
        data.len() == worker.resources.staging[name].size,
    ensures
        ({
            let finished = worker.cycle(true);
            &&& finished.ready()
            &&& finished.fillable(name, data)
            &&& match finished.fill(name, data) {
                Ok(filled) => {
                    &&& filled.ready()
                    &&& filled.readable(name)
                    &&& filled.resources.staging[name].data == data
                    &&& filled.resources.staging[name].size == worker.resources.staging[name].size
                    &&& (worker.run_mode != RunMode::Continuous ==> !filled.unmap_all().0.resources.staging[name].read_mapped)
                },
                Err(_) => false,
            }
        }),
{
    let started = worker.begin();
    let uploaded = started.upload();
    uploaded.lemma_after_steps(started.steps, started.steps.len());
    lemma_cycle(worker, true);
}

} // verus!
