use app_compute::{
    AppComputeWorker, Command, ComputePass, DeviceBuffer, Error, MapMode, MapRequest,
    PipelineEntry, PipelineTable, Registry, RunMode, Step, Submission, Upload, WorkerState,
};

const PROGRAM: u128 = 0x1234_5678_9abc_def0_1234_5678_9abc_def0;

fn pass(vars: &[&str]) -> Step {
    Step::ComputePass(ComputePass {
        workgroups: [4, 2, 1],
        vars: vars.iter().map(|name| name.to_string()).collect(),
        shader_uuid: PROGRAM,
    })
}

fn swap(a: &str, b: &str) -> Step {
    Step::Swap(a.to_string(), b.to_string())
}

fn resources() -> Registry {
    let mut registry = Registry::new();
    registry.add_buffer("a", 10, 64);
    registry.add_buffer("b", 11, 32);
    registry.add_staging("a", 30, 31, 64).unwrap();
    registry
}

fn worker(steps: Vec<Step>, run_mode: RunMode) -> AppComputeWorker {
    let mut pipelines = PipelineTable::new();
    pipelines.add(PROGRAM, 0);
    AppComputeWorker::new(resources(), pipelines, steps, run_mode)
}

fn resolved_worker(steps: Vec<Step>, run_mode: RunMode) -> AppComputeWorker {
    let mut worker = worker(steps, run_mode);
    worker.extract_pipelines(&vec![Some(77)]);
    worker
}

fn dispatch(bindings: &[usize]) -> Command {
    Command::Dispatch { pipeline: 77, bindings: bindings.to_vec(), workgroups: [4, 2, 1] }
}

fn download() -> Command {
    Command::CopyBufferToBuffer { source: 10, destination: 30, size: 64 }
}

fn read_request() -> MapRequest {
    MapRequest { name: "a".to_string(), buffer: 30, mode: MapMode::Read }
}

#[test]
fn new_worker_is_created_and_idle() {
    let worker = worker(vec![pass(&["a"])], RunMode::OneShot(false));
    assert_eq!(worker.state(), WorkerState::Created);
    assert_eq!(worker.run_mode(), RunMode::OneShot(false));
    assert!(!worker.write_requested());
    assert!(!worker.ready());
    assert!(!worker.ready_to_execute());
    assert!(!worker.should_poll());
    assert_eq!(worker.steps(), &vec![pass(&["a"])]);
    assert_eq!(worker.buffer("a"), Some(DeviceBuffer { id: 10, size: 64 }));
    assert_eq!(worker.pipeline(PROGRAM), Some(PipelineEntry { cache_id: 0, pipeline: None }));
    assert_eq!(worker.pipeline(1), None);
    assert!(worker.staging("a").is_some());
    assert!(worker.staging("b").is_none());
}

#[test]
fn execute_requests_a_one_shot_run() {
    let mut worker = worker(Vec::new(), RunMode::OneShot(false));
    worker.execute();
    assert_eq!(worker.run_mode(), RunMode::OneShot(true));
    assert!(worker.ready_to_execute());
    assert!(worker.should_poll());
    worker.execute();
    assert_eq!(worker.run_mode(), RunMode::OneShot(true));
}

#[test]
fn execute_leaves_a_continuous_worker_as_it_is() {
    let mut worker = worker(Vec::new(), RunMode::Continuous);
    assert!(worker.ready_to_execute());
    worker.execute();
    assert_eq!(worker.run_mode(), RunMode::Continuous);
    assert_eq!(worker.state(), WorkerState::Created);
    assert!(worker.ready_to_execute());
}

#[test]
fn run_mode_transitions() {
    assert_eq!(RunMode::Continuous.requested(), RunMode::Continuous);
    assert_eq!(RunMode::OneShot(false).requested(), RunMode::OneShot(true));
    assert_eq!(RunMode::OneShot(true).requested(), RunMode::OneShot(true));
    assert_eq!(RunMode::Continuous.completed(), RunMode::Continuous);
    assert_eq!(RunMode::OneShot(true).completed(), RunMode::OneShot(false));
    assert_eq!(RunMode::OneShot(false).completed(), RunMode::OneShot(false));
    assert!(RunMode::Continuous.active());
    assert!(RunMode::OneShot(true).active());
    assert!(!RunMode::OneShot(false).active());
}

#[test]
fn idle_one_shot_becomes_available_and_submits_nothing() {
    let mut worker = resolved_worker(vec![pass(&["a"])], RunMode::OneShot(false));
    for _ in 0..5 {
        assert_eq!(worker.run(), None);
        assert_eq!(worker.state(), WorkerState::Available);
        worker.complete(true);
        assert_eq!(worker.state(), WorkerState::Available);
        assert_eq!(worker.run_mode(), RunMode::OneShot(false));
        assert_eq!(worker.unmap_all(), Vec::<usize>::new());
    }
}

#[test]
fn one_shot_runs_exactly_once_per_request() {
    let mut worker = resolved_worker(vec![pass(&["a", "b"])], RunMode::OneShot(false));
    worker.execute();
    let mut submitted = Vec::new();
    let polls = [false, false, true];
    let mut cycles = 0;
    while !worker.ready() {
        if let Some(batch) = worker.run() {
            submitted.push(batch);
        }
        assert_eq!(worker.state(), WorkerState::Working);
        assert!(worker.should_poll());
        worker.complete(polls[cycles]);
        cycles += 1;
    }
    assert_eq!(cycles, 3);
    assert_eq!(
        submitted,
        vec![Submission {
            commands: vec![dispatch(&[10, 11]), download()],
            maps: vec![read_request()],
        }]
    );
    assert_eq!(worker.state(), WorkerState::FinishedWorking);
    assert_eq!(worker.run_mode(), RunMode::OneShot(false));
    for _ in 0..4 {
        assert_eq!(worker.run(), None);
        assert!(!worker.should_poll());
        worker.complete(true);
        assert_eq!(worker.run_mode(), RunMode::OneShot(false));
        assert_eq!(worker.state(), WorkerState::Available);
    }
}

#[test]
fn one_shot_runs_again_on_a_second_request() {
    let mut worker = resolved_worker(vec![pass(&["a"])], RunMode::OneShot(true));
    assert!(worker.run().is_some());
    worker.complete(true);
    assert!(worker.ready());
    assert_eq!(worker.run(), None);
    worker.complete(true);
    worker.execute();
    assert_eq!(
        worker.run(),
        Some(Submission {
            commands: vec![dispatch(&[10]), download()],
            maps: vec![read_request()],
        })
    );
    worker.complete(true);
    assert!(worker.ready());
    assert_eq!(worker.run_mode(), RunMode::OneShot(false));
}

#[test]
fn continuous_worker_submits_the_whole_graph_on_every_cycle() {
    let steps = vec![pass(&["a"]), swap("a", "b"), pass(&["a", "b"])];
    let mut worker = resolved_worker(steps, RunMode::Continuous);
    for cycle in 0..6 {
        if cycle == 3 {
            worker.execute();
        }
        let batch = worker.run().unwrap();
        let expected = if cycle % 2 == 0 {
            vec![
                dispatch(&[10]),
                dispatch(&[11, 10]),
                Command::CopyBufferToBuffer { source: 11, destination: 30, size: 64 },
            ]
        } else {
            vec![
                dispatch(&[11]),
                dispatch(&[10, 11]),
                Command::CopyBufferToBuffer { source: 10, destination: 30, size: 64 },
            ]
        };
        assert_eq!(batch.commands, expected);
        assert_eq!(batch.maps, vec![read_request()]);
        assert_eq!(worker.state(), WorkerState::Working);
        assert!(worker.should_poll());
        worker.complete(true);
        assert!(worker.ready());
        assert_eq!(worker.run_mode(), RunMode::Continuous);
        assert!(worker.ready_to_execute());
        assert_eq!(worker.unmap_all(), Vec::<usize>::new());
        assert!(worker.staging("a").unwrap().read_mapped);
    }
}

#[test]
fn working_worker_waits_for_the_device() {
    let mut worker = resolved_worker(vec![pass(&["a"])], RunMode::Continuous);
    assert!(worker.run().is_some());
    worker.complete(false);
    assert_eq!(worker.state(), WorkerState::Working);
    assert!(!worker.ready_to_execute());
    assert_eq!(worker.run(), None);
    assert_eq!(worker.unmap_all(), vec![30]);
    assert!(!worker.staging("a").unwrap().read_mapped);
    assert_eq!(worker.unmap_all(), Vec::<usize>::new());
    worker.complete(false);
    assert_eq!(worker.run(), None);
    worker.complete(true);
    assert_eq!(worker.state(), WorkerState::FinishedWorking);
    assert!(worker.run().is_some());
}

#[test]
fn swap_then_pass_binds_the_other_buffer() {
    let steps = vec![swap("a", "b"), pass(&["a"])];
    let mut worker = resolved_worker(steps, RunMode::OneShot(true));
    let batch = worker.run().unwrap();
    assert_eq!(batch.commands[0], dispatch(&[11]));
    assert_eq!(worker.buffer("a"), Some(DeviceBuffer { id: 11, size: 32 }));
    assert_eq!(worker.buffer("b"), Some(DeviceBuffer { id: 10, size: 64 }));
}

#[test]
fn swap_step_with_unregistered_name_fails_and_changes_nothing() {
    let steps = vec![swap("a", "missing"), swap("missing", "a"), pass(&["a", "b"])];
    let mut worker = resolved_worker(steps, RunMode::OneShot(true));
    assert_eq!(worker.swap(0), Err(Error::BufferNotFound("missing".to_string())));
    assert_eq!(worker.swap(1), Err(Error::BufferNotFound("missing".to_string())));
    assert_eq!(worker.buffer("a"), Some(DeviceBuffer { id: 10, size: 64 }));
    assert_eq!(worker.buffer("b"), Some(DeviceBuffer { id: 11, size: 32 }));
    assert_eq!(worker.buffer("missing"), None);
    let batch = worker.run().unwrap();
    assert_eq!(batch.commands, vec![dispatch(&[10, 11]), download()]);
}

#[test]
fn swap_step_exchanges_buffers() {
    let mut worker = resolved_worker(vec![swap("a", "b")], RunMode::Continuous);
    assert_eq!(worker.swap(0), Ok(()));
    assert_eq!(worker.buffer("a"), Some(DeviceBuffer { id: 11, size: 32 }));
    assert_eq!(worker.buffer("b"), Some(DeviceBuffer { id: 10, size: 64 }));
}

#[test]
fn dispatch_of_a_swap_step_is_invalid() {
    let mut worker = resolved_worker(vec![swap("a", "b"), pass(&["a"])], RunMode::Continuous);
    assert_eq!(
        worker.dispatch(0),
        Err(Error::InvalidStep(format!("{:?}", swap("a", "b"))))
    );
    assert_eq!(
        worker.dispatch(0),
        Err(Error::InvalidStep("Swap(\"a\", \"b\")".to_string()))
    );
    assert_eq!(worker.buffer("a"), Some(DeviceBuffer { id: 10, size: 64 }));
}

#[test]
fn swap_of_a_compute_pass_is_invalid() {
    let mut worker = resolved_worker(vec![swap("a", "b"), pass(&["a"])], RunMode::Continuous);
    assert_eq!(
        worker.swap(1),
        Err(Error::InvalidStep(format!("{:?}", pass(&["a"]))))
    );
    assert_eq!(worker.buffer("a"), Some(DeviceBuffer { id: 10, size: 64 }));
}

#[test]
fn dispatch_reports_the_first_unregistered_buffer() {
    let steps = vec![pass(&["a", "x", "b", "y"])];
    let mut worker = resolved_worker(steps, RunMode::OneShot(true));
    assert_eq!(worker.dispatch(0), Err(Error::BufferNotFound("x".to_string())));
    let batch = worker.run().unwrap();
    assert_eq!(batch.commands, vec![download()]);
}

#[test]
fn dispatch_of_an_unknown_program_finds_no_pipeline() {
    let mut worker = AppComputeWorker::new(
        resources(),
        PipelineTable::new(),
        vec![pass(&["a"])],
        RunMode::OneShot(true),
    );
    assert_eq!(worker.dispatch(0), Err(Error::PipelinesEmpty));
    let batch = worker.run().unwrap();
    assert_eq!(batch.commands, vec![download()]);
}

#[test]
fn unknown_buffer_is_reported_before_the_pipeline() {
    let mut worker = worker(vec![pass(&["x"])], RunMode::OneShot(true));
    assert_eq!(worker.dispatch(0), Err(Error::BufferNotFound("x".to_string())));
}

#[test]
fn unresolved_pass_is_skipped_until_its_pipeline_is_ready() {
    let steps = vec![pass(&["a"]), swap("a", "b")];
    let mut worker = worker(steps, RunMode::Continuous);
    assert_eq!(worker.dispatch(0), Err(Error::PipelineNotReady));
    assert_eq!(worker.state(), WorkerState::Created);

    worker.extract_pipelines(&vec![None]);
    let first = worker.run().unwrap();
    assert_eq!(
        first.commands,
        vec![Command::CopyBufferToBuffer { source: 11, destination: 30, size: 64 }]
    );
    assert_eq!(worker.buffer("a"), Some(DeviceBuffer { id: 11, size: 32 }));
    worker.complete(true);

    worker.extract_pipelines(&Vec::new());
    let second = worker.run().unwrap();
    assert_eq!(second.commands, vec![download()]);
    worker.complete(true);

    worker.extract_pipelines(&vec![Some(77)]);
    assert_eq!(worker.pipeline(PROGRAM), Some(PipelineEntry { cache_id: 0, pipeline: Some(77) }));
    let third = worker.run().unwrap();
    assert_eq!(
        third.commands,
        vec![
            dispatch(&[10]),
            Command::CopyBufferToBuffer { source: 11, destination: 30, size: 64 },
        ]
    );
    worker.complete(true);

    worker.extract_pipelines(&vec![Some(99)]);
    assert_eq!(worker.pipeline(PROGRAM), Some(PipelineEntry { cache_id: 0, pipeline: Some(77) }));
}

#[test]
fn dispatch_records_into_the_open_encoder() {
    let mut worker = resolved_worker(vec![pass(&["b", "a", "b"])], RunMode::OneShot(true));
    assert_eq!(worker.dispatch(0), Ok(()));
    let batch = worker.run().unwrap();
    assert_eq!(
        batch.commands,
        vec![dispatch(&[11, 10, 11]), dispatch(&[11, 10, 11]), download()]
    );
}

#[test]
fn nothing_is_recorded_without_an_encoder() {
    let mut worker = resolved_worker(vec![pass(&["a"])], RunMode::Continuous);
    assert!(worker.run().is_some());
    assert_eq!(worker.state(), WorkerState::Working);
    assert_eq!(worker.dispatch(0), Err(Error::EncoderMissing));
    assert_eq!(worker.write_staging_buffers(), Err(Error::EncoderMissing));
    assert_eq!(worker.read_staging_buffers(), Err(Error::EncoderMissing));
    worker.complete(true);
    assert_eq!(worker.dispatch(0), Ok(()));
}

#[test]
fn copies_without_staging_pairs_need_no_encoder() {
    let mut registry = Registry::new();
    registry.add_buffer("a", 10, 64);
    let mut worker =
        AppComputeWorker::new(registry, PipelineTable::new(), Vec::new(), RunMode::Continuous);
    assert_eq!(
        worker.run(),
        Some(Submission { commands: Vec::new(), maps: Vec::new() })
    );
    assert_eq!(worker.write_staging_buffers(), Ok(()));
    assert_eq!(worker.read_staging_buffers(), Ok(()));
}

#[test]
fn staging_copies_are_recorded_in_order() {
    let mut worker = resolved_worker(Vec::new(), RunMode::OneShot(false));
    assert_eq!(worker.write_staging_buffers(), Ok(()));
    assert_eq!(worker.read_staging_buffers(), Ok(()));
    assert_eq!(
        worker.submit(),
        vec![
            Command::CopyBufferToBuffer { source: 31, destination: 10, size: 64 },
            Command::CopyBufferToBuffer { source: 10, destination: 30, size: 64 },
        ]
    );
    assert_eq!(worker.state(), WorkerState::Working);
}

#[test]
fn write_to_an_unregistered_name_fails_and_requests_nothing() {
    let mut worker = resolved_worker(Vec::new(), RunMode::Continuous);
    assert_eq!(
        worker.write("b", vec![1, 2, 3, 4]),
        Err(Error::StagingBufferNotFound("b".to_string()))
    );
    assert!(!worker.write_requested());
    assert_eq!(
        worker.write("nothing", Vec::new()),
        Err(Error::StagingBufferNotFound("nothing".to_string()))
    );
    assert!(!worker.write_requested());
    let batch = worker.run().unwrap();
    assert_eq!(batch.commands, vec![download()]);
}

#[test]
fn failed_write_keeps_a_pending_request() {
    let mut worker = resolved_worker(Vec::new(), RunMode::Continuous);
    assert!(worker.write("a", vec![1]).is_ok());
    assert!(worker.write_requested());
    assert!(worker.write("b", vec![1]).is_err());
    assert!(worker.write_requested());
}

#[test]
fn write_uploads_to_the_write_buffer_and_is_copied_on_the_next_run() {
    let mut worker = resolved_worker(vec![pass(&["a"])], RunMode::Continuous);
    assert_eq!(
        worker.write("a", vec![1, 2, 3, 4]),
        Ok(Upload { buffer: 31, data: vec![1, 2, 3, 4] })
    );
    assert!(worker.write_requested());
    let batch = worker.run().unwrap();
    assert_eq!(
        batch.commands,
        vec![
            Command::CopyBufferToBuffer { source: 31, destination: 10, size: 64 },
            dispatch(&[10]),
            download(),
        ]
    );
    assert_eq!(
        batch.maps,
        vec![read_request(), MapRequest { name: "a".to_string(), buffer: 31, mode: MapMode::Write }]
    );
    assert!(!worker.write_requested());
    assert!(worker.staging("a").unwrap().read_mapped);
    assert!(worker.staging("a").unwrap().write_mapped);
    worker.complete(false);
    assert_eq!(worker.unmap_all(), vec![30, 31]);
    assert!(!worker.staging("a").unwrap().read_mapped);
    assert!(!worker.staging("a").unwrap().write_mapped);
    worker.complete(true);
    assert_eq!(worker.unmap_all(), Vec::<usize>::new());

    let next = worker.run().unwrap();
    assert_eq!(next.commands, vec![dispatch(&[10]), download()]);
    assert_eq!(next.maps, vec![read_request()]);
    assert!(!worker.staging("a").unwrap().write_mapped);
}

#[test]
fn map_requests_mark_the_buffers() {
    let mut worker = resolved_worker(Vec::new(), RunMode::Continuous);
    assert_eq!(worker.map_staging_buffers(false), vec![read_request()]);
    assert!(worker.staging("a").unwrap().read_mapped);
    assert!(!worker.staging("a").unwrap().write_mapped);
}

#[test]
fn results_of_a_one_shot_run_are_read_before_the_cleanup() {
    let mut worker = resolved_worker(vec![pass(&["a"])], RunMode::OneShot(true));
    assert!(worker.run().is_some());
    worker.complete(true);
    assert!(worker.ready());
    assert!(!worker.ready_to_execute());

    let mut contents = vec![7, 0, 0, 0, 9, 0, 0, 0];
    contents.resize(64, 0);
    assert_eq!(worker.fill("a", contents.clone()), Ok(()));
    assert_eq!(worker.read_raw("a"), Ok(contents));
    let mut words = vec![7u32, 9];
    words.resize(16, 0);
    assert_eq!(worker.read::<u32>("a"), Ok(words));
    assert_eq!(worker.read_one::<u32>("a"), Ok(7));
    let mut long_words = vec![0x0000_0009_0000_0007u64];
    long_words.resize(8, 0);
    assert_eq!(worker.read::<u64>("a"), Ok(long_words));
    assert_eq!(worker.read::<u8>("a").unwrap().len(), 64);

    assert_eq!(worker.unmap_all(), vec![30]);
    assert!(!worker.staging("a").unwrap().read_mapped);
    assert!(!worker.staging("a").unwrap().write_mapped);
    assert!(worker.staging("a").unwrap().data.is_empty());
    assert_eq!(worker.unmap_all(), Vec::<usize>::new());
}

#[test]
fn cleanup_waits_while_the_worker_is_ready_to_execute() {
    let mut worker = resolved_worker(vec![pass(&["a"])], RunMode::OneShot(true));
    assert!(worker.run().is_some());
    worker.complete(true);
    worker.execute();
    assert!(worker.ready_to_execute());
    assert_eq!(worker.unmap_all(), Vec::<usize>::new());
    assert!(worker.staging("a").unwrap().read_mapped);
}

#[test]
fn cleanup_releases_while_work_is_in_flight() {
    let mut worker = resolved_worker(vec![pass(&["a"])], RunMode::OneShot(true));
    assert!(worker.write("a", vec![1]).is_ok());
    assert!(worker.run().is_some());
    assert_eq!(worker.state(), WorkerState::Working);
    assert_eq!(worker.unmap_all(), vec![30, 31]);
    assert!(!worker.staging("a").unwrap().read_mapped);
    assert!(!worker.staging("a").unwrap().write_mapped);
}

#[test]
fn reads_of_an_unregistered_name_fail() {
    let worker = resolved_worker(Vec::new(), RunMode::Continuous);
    assert_eq!(worker.read_raw("b"), Err(Error::StagingBufferNotFound("b".to_string())));
    assert_eq!(worker.read::<u32>("b"), Err(Error::StagingBufferNotFound("b".to_string())));
    assert_eq!(worker.read_one::<u8>("zz"), Err(Error::StagingBufferNotFound("zz".to_string())));
}

#[test]
fn fill_of_an_unregistered_staging_pair_fails() {
    let mut worker = resolved_worker(Vec::new(), RunMode::Continuous);
    assert_eq!(
        worker.fill("b", vec![1]),
        Err(Error::StagingBufferNotFound("b".to_string()))
    );
}

#[test]
fn completion_opens_a_fresh_encoder() {
    let mut worker = resolved_worker(vec![pass(&["a"])], RunMode::Continuous);
    assert_eq!(worker.dispatch(0), Ok(()));
    worker.complete(true);
    assert_eq!(worker.state(), WorkerState::FinishedWorking);
    let batch = worker.run().unwrap();
    assert_eq!(batch.commands, vec![dispatch(&[10]), download()]);
}

#[test]
fn completion_is_ignored_by_an_idle_one_shot() {
    let mut worker = resolved_worker(vec![pass(&["a"])], RunMode::OneShot(false));
    worker.complete(true);
    assert_eq!(worker.state(), WorkerState::Created);
    assert!(!worker.ready());
}

#[test]
fn later_steps_run_after_a_failed_one() {
    let steps = vec![pass(&["missing"]), swap("a", "b"), swap("a", "nothing"), pass(&["a"])];
    let mut worker = resolved_worker(steps, RunMode::OneShot(true));
    let batch = worker.run().unwrap();
    assert_eq!(
        batch.commands,
        vec![
            dispatch(&[11]),
            Command::CopyBufferToBuffer { source: 11, destination: 30, size: 64 },
        ]
    );
}
