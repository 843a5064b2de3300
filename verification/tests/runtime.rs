//! Channels, pipelines and blueprints.
use std::collections::VecDeque;
use zerotrace_agent::error::Error;
use zerotrace_agent::runtime::blueprint::{PipelineBlueprint, Slot};
use zerotrace_agent::runtime::pipeline::{
    next_batch, shutdown_step, source_step, total_items, typed_source_step, BoxedProcessor,
    BoxedReporter, BoxedSource, JoinEvent, PipelineExecutor, PipelineMetrics, PipelinePlan,
    PipelineSpec, ProcessorAction, ProcessorChain, ReporterFanout, SourceAction, SourceEvent,
    TypedPipelineExecutor, TypedPipelinePlan,
};
use zerotrace_agent::runtime::queue::{BackpressurePolicy, BackpressureQueue, RecvStep, SendStep};

type Batch = Vec<u32>;
type Source = Vec<Batch>;
type Processor = fn(&mut Batch) -> bool;
type Collected = Vec<Batch>;

fn noop(_batch: &mut Batch) -> bool {
    true
}

fn message(error: Error) -> String {
    match error {
        Error::Pipeline { message, .. } => message,
    }
}

fn sent(queue: &mut BackpressureQueue<u32>, item: u32) {
    assert!(matches!(queue.send(item), SendStep::Done { .. }));
}

fn received(queue: &mut BackpressureQueue<u32>) -> Option<u32> {
    match queue.recv() {
        RecvStep::Item(item) => Some(item),
        RecvStep::Closed => None,
        RecvStep::Wait => panic!("nothing there"),
    }
}

/// Hands one batch to the processors; whether they all took it.
fn process<B>(processors: &mut [fn(&mut B) -> bool], batch: &mut B, typed: bool) -> bool {
    let (mut chain, mut action) = if typed {
        ProcessorChain::start_typed(processors.len())
    } else {
        ProcessorChain::start(processors.len())
    };
    loop {
        match action {
            ProcessorAction::Process(i) => action = chain.returned(processors[i](batch)),
            ProcessorAction::Forward => return true,
            ProcessorAction::Drop => return false,
        }
    }
}

fn report<T: Clone>(
    reporters: &mut [Vec<Vec<T>>],
    batch: &Vec<T>,
    metrics: &mut PipelineMetrics,
) {
    let mut fanout = ReporterFanout::start(reporters.len());
    while let Some(i) = fanout.next() {
        reporters[i].push(batch.clone());
        fanout.returned(true);
    }
    metrics.reported(batch.len() as u64, &fanout);
}

/// Moves one batch from the first channel to the reporters.
fn advance(
    queue: &mut BackpressureQueue<Batch>,
    plan: &mut PipelinePlan<Source, Processor, Collected>,
    metrics: &mut PipelineMetrics,
) -> bool {
    match queue.recv() {
        RecvStep::Item(mut batch) => {
            let forwarded = process(&mut plan.processors, &mut batch, false);
            metrics.processed(1, forwarded);
            if forwarded {
                report(&mut plan.reporters, &batch, metrics);
            }
            true
        }
        _ => false,
    }
}

/// Runs a pipeline to its end. Sources are faster than what follows them.
fn run(mut plan: PipelinePlan<Source, Processor, Collected>) -> (Vec<Collected>, PipelineMetrics) {
    let mut metrics = PipelineMetrics::default();
    let mut queue = BackpressureQueue::new(plan.capacity, plan.backpressure);
    let sources: Vec<Source> = plan.sources.drain(..).collect();
    for source in sources {
        for batch in source {
            let items = batch.len() as u64;
            let mut step = queue.send(batch);
            loop {
                match step {
                    SendStep::Done { .. } => break,
                    SendStep::Wait(batch) => {
                        assert!(advance(&mut queue, &mut plan, &mut metrics));
                        step = queue.resend(batch);
                    }
                    SendStep::Closed(_) => panic!("closed"),
                }
            }
            assert!(metrics.produced(items, true));
        }
    }
    assert!(queue.drop_sender());
    while advance(&mut queue, &mut plan, &mut metrics) {}
    (plan.reporters, metrics)
}

/// A value and its tags.
type Tagged = (u32, Vec<(&'static str, &'static str)>);
type TypedProcessor = fn(&mut Vec<Tagged>) -> bool;

fn tagged(values: std::ops::Range<u32>) -> Vec<Vec<Tagged>> {
    values.map(|i| vec![(i, Vec::new())]).collect()
}

fn run_typed(
    mut plan: TypedPipelinePlan<Vec<Vec<Tagged>>, TypedProcessor, Vec<Vec<Tagged>>>,
) -> Vec<Vec<Vec<Tagged>>> {
    let mut metrics = PipelineMetrics::default();
    for batch in plan.source {
        let mut batch = batch;
        if process(&mut plan.processors, &mut batch, true) {
            report(&mut plan.reporters, &batch, &mut metrics);
        }
    }
    plan.reporters
}

fn spec(name: &str) -> PipelineSpec {
    let mut spec = PipelineSpec::default();
    spec.name = name.to_string();
    spec
}

fn named(name: &str, sources: &[&str], reporters: &[&str]) -> PipelineSpec {
    let mut spec = spec(name);
    spec.source_ids = sources.iter().map(|s| s.to_string()).collect();
    spec.reporter_ids = reporters.iter().map(|s| s.to_string()).collect();
    spec
}

fn sources(list: Vec<(&str, Source)>) -> Vec<(String, Source)> {
    list.into_iter().map(|(id, s)| (id.to_string(), s)).collect()
}

fn blueprint() -> PipelineBlueprint<Source, Processor, Collected> {
    PipelineBlueprint::new()
}

#[test]
fn test_pipeline_end_to_end() {
    let mut spec = spec("test");
    spec.channel_capacity = 16;
    let plan = PipelineExecutor::spawn(
        &spec,
        sources(vec![("s1", vec![vec![]])]),
        vec![("p1".to_string(), noop as Processor)],
        vec![("r1".to_string(), Vec::new())],
    );
    let (reporters, _) = run(plan);
    assert_eq!(reporters[0].len(), 1);
}

#[test]
fn test_pipeline_multiple_batches() {
    let plan = PipelineExecutor::spawn(
        &spec("multi"),
        sources(vec![("s1", vec![vec![], vec![], vec![]])]),
        vec![("p1".to_string(), noop as Processor)],
        vec![("r1".to_string(), Vec::new())],
    );
    let (reporters, _) = run(plan);
    assert_eq!(reporters[0].len(), 3);
}

#[test]
fn test_pipeline_spec_filter_by_ids() {
    let mut spec = named("filtered", &["s1"], &["r1"]);
    spec.channel_capacity = 16;
    let plan = PipelineExecutor::spawn(
        &spec,
        sources(vec![("s1", vec![vec![]]), ("s2", vec![vec![]])]),
        Vec::new(),
        vec![("r1".to_string(), Vec::new())],
    );
    let (reporters, _) = run(plan);
    assert_eq!(reporters[0].len(), 1);
}

#[test]
fn test_backpressure_channel_block_mode() {
    let mut queue = BackpressureQueue::<u32>::new(2, BackpressurePolicy::Block);
    sent(&mut queue, 1);
    sent(&mut queue, 2);
    assert_eq!(queue.len(), 2);
    assert_eq!(received(&mut queue), Some(1));
    assert_eq!(received(&mut queue), Some(2));
}

#[test]
fn test_backpressure_channel_drop_newest() {
    let mut queue = BackpressureQueue::<u32>::new(2, BackpressurePolicy::DropNewest);
    sent(&mut queue, 1);
    sent(&mut queue, 2);
    sent(&mut queue, 3);
    assert_eq!(queue.len(), 2);
    assert_eq!(received(&mut queue), Some(1));
    assert_eq!(received(&mut queue), Some(2));
    queue.drop_sender();
    assert_eq!(received(&mut queue), None);
}

#[test]
fn test_backpressure_channel_drop_oldest() {
    let mut queue = BackpressureQueue::<u32>::new(2, BackpressurePolicy::DropOldest);
    sent(&mut queue, 1);
    sent(&mut queue, 2);
    sent(&mut queue, 3);
    assert_eq!(queue.len(), 2);
    assert_eq!(received(&mut queue), Some(2));
    assert_eq!(received(&mut queue), Some(3));
}

#[test]
fn test_backpressure_channel_try_recv() {
    let mut queue = BackpressureQueue::<u32>::new(4, BackpressurePolicy::Block);
    sent(&mut queue, 10);
    sent(&mut queue, 20);
    assert_eq!(queue.try_recv(), Some(10));
    assert_eq!(queue.try_recv(), Some(20));
    assert_eq!(queue.try_recv(), None);
}

#[test]
fn test_backpressure_channel_closed_on_drop() {
    let mut queue = BackpressureQueue::<u32>::new(4, BackpressurePolicy::Block);
    sent(&mut queue, 1);
    assert!(queue.drop_sender());
    assert_eq!(received(&mut queue), Some(1));
    assert_eq!(received(&mut queue), None);
}

#[test]
fn test_backpressure_channel_multi_sender() {
    let mut queue = BackpressureQueue::<u32>::new(4, BackpressurePolicy::Block);
    queue.add_sender();
    queue.add_sender();
    sent(&mut queue, 1);
    sent(&mut queue, 2);
    sent(&mut queue, 3);
    assert!(!queue.drop_sender());
    assert!(!queue.drop_sender());
    assert!(queue.drop_sender());
    let mut results = vec![];
    while let Some(v) = received(&mut queue) {
        results.push(v);
    }
    assert_eq!(results.len(), 3);
    assert_eq!(results, vec![1, 2, 3]);
}

#[test]
fn a_full_blocking_channel_makes_the_sender_wait() {
    let mut queue = BackpressureQueue::<u32>::new(1, BackpressurePolicy::Block);
    assert!(queue.is_empty());
    sent(&mut queue, 1);
    assert!(matches!(queue.send(2), SendStep::Wait(2)));
    assert!(matches!(queue.resend(2), SendStep::Wait(2)));
    assert_eq!(received(&mut queue), Some(1));
    assert!(matches!(queue.resend(2), SendStep::Done { wake_receiver: true }));
    assert_eq!(queue.len(), 1);
}

#[test]
fn a_waiting_sender_gets_its_item_back_from_a_closed_channel() {
    let mut queue = BackpressureQueue::<u32>::new(1, BackpressurePolicy::Block);
    sent(&mut queue, 1);
    queue.drop_sender();
    assert!(matches!(queue.resend(2), SendStep::Closed(2)));
    assert_eq!(queue.len(), 1);
}

#[test]
fn an_open_empty_channel_waits() {
    let mut queue = BackpressureQueue::<u32>::new(1, BackpressurePolicy::Block);
    assert!(matches!(queue.recv(), RecvStep::Wait));
    assert!(matches!(queue.send(1), SendStep::Done { wake_receiver: true }));
    let mut full = BackpressureQueue::<u32>::new(1, BackpressurePolicy::DropNewest);
    sent(&mut full, 1);
    assert!(matches!(full.send(2), SendStep::Done { wake_receiver: false }));
}

#[test]
fn dropping_channels_keep_the_first_or_the_last_items() {
    let mut newest = BackpressureQueue::<u32>::new(3, BackpressurePolicy::DropNewest);
    let mut oldest = BackpressureQueue::<u32>::new(3, BackpressurePolicy::DropOldest);
    for i in 0..10 {
        sent(&mut newest, i);
        sent(&mut oldest, i);
    }
    let mut first = vec![];
    let mut last = vec![];
    for _ in 0..3 {
        first.push(received(&mut newest).unwrap());
        last.push(received(&mut oldest).unwrap());
    }
    assert_eq!(first, vec![0, 1, 2]);
    assert_eq!(last, vec![7, 8, 9]);
}

#[test]
fn accepted_items_leave_in_the_order_in_which_they_came() {
    let mut queue = BackpressureQueue::<u32>::new(4, BackpressurePolicy::Block);
    let mut model = VecDeque::new();
    for i in 0..100u32 {
        if i % 3 == 2 {
            assert_eq!(queue.try_recv(), model.pop_front());
        } else if let SendStep::Done { .. } = queue.send(i) {
            model.push_back(i);
        }
        assert_eq!(queue.len(), model.len());
        assert!(queue.len() <= 4);
    }
}

#[test]
fn test_pipeline_drop_newest_backpressure() {
    let mut spec = spec("drop_newest");
    spec.channel_capacity = 2;
    spec.backpressure = BackpressurePolicy::DropNewest;
    let flood: Source = (0..30).map(|_| vec![]).collect();
    let plan = PipelineExecutor::spawn(
        &spec,
        sources(vec![("s1", flood)]),
        vec![("p1".to_string(), noop as Processor)],
        vec![("r1".to_string(), Vec::new())],
    );
    let (reporters, _) = run(plan);
    let received = reporters[0].len();
    assert!(received < 30, "DropNewest should drop some batches, got {received}/30");
    assert!(received > 0, "Should receive at least some batches");
}

#[test]
fn test_pipeline_drop_oldest_backpressure() {
    let mut spec = spec("drop_oldest");
    spec.channel_capacity = 2;
    spec.backpressure = BackpressurePolicy::DropOldest;
    let flood: Source = (0..30).map(|_| vec![]).collect();
    let plan = PipelineExecutor::spawn(
        &spec,
        sources(vec![("s1", flood)]),
        vec![("p1".to_string(), noop as Processor)],
        vec![("r1".to_string(), Vec::new())],
    );
    let (reporters, _) = run(plan);
    let received = reporters[0].len();
    assert!(received < 30, "DropOldest should evict some batches, got {received}/30");
    assert!(received > 0, "Should receive at least some batches");
}

#[test]
fn test_pipeline_heterogeneous_sources() {
    let repeated: Source = (0..2).map(|_| vec![]).collect();
    let plan = PipelineExecutor::spawn(
        &spec("hetero"),
        sources(vec![("s1", vec![vec![]]), ("s2", repeated)]),
        Vec::new(),
        vec![("r1".to_string(), Vec::new())],
    );
    let (reporters, _) = run(plan);
    assert_eq!(reporters[0].len(), 3);
}

#[test]
fn channels_have_room_for_sixteen_batches_at_least() {
    let mut spec = spec("small");
    spec.channel_capacity = 2;
    let plan: PipelinePlan<Source, Processor, Collected> =
        PipelineExecutor::spawn(&spec, Vec::new(), Vec::new(), Vec::new());
    assert_eq!(plan.capacity, 16);
    spec.channel_capacity = 17;
    let plan: PipelinePlan<Source, Processor, Collected> =
        PipelineExecutor::spawn(&spec, Vec::new(), Vec::new(), Vec::new());
    assert_eq!(plan.capacity, 17);
    assert_eq!(PipelineSpec::default().channel_capacity, 4096);
    assert!(PipelineSpec::default().enabled);
    assert_eq!(BackpressurePolicy::default(), BackpressurePolicy::Block);
}

#[test]
fn a_refused_batch_goes_no_further() {
    let refusing: Processor = |batch| {
        batch.push(9);
        batch.len() < 3
    };
    let plan = PipelineExecutor::spawn(
        &spec("refusing"),
        sources(vec![("s1", vec![vec![1], vec![1, 2]])]),
        vec![("p1".to_string(), refusing), ("p2".to_string(), noop as Processor)],
        vec![("r1".to_string(), Vec::new()), ("r2".to_string(), Vec::new())],
    );
    let (reporters, metrics) = run(plan);
    assert_eq!(reporters, vec![vec![vec![1, 9]], vec![vec![1, 9]]]);
    assert_eq!(metrics.batches_produced, 3);
    assert_eq!(metrics.batches_dropped, 1);
    assert_eq!(metrics.batches_consumed, 2);
    assert_eq!(metrics.total_latency_ns, 2);
    assert_eq!(metrics.reporter_errors, 0);
}

#[test]
fn batches_come_through_both_channels_once_and_in_order() {
    let odd: Processor = |batch| batch[0] % 2 == 1;
    let mark: Processor = |batch| {
        batch.push(0);
        true
    };
    let mut processors = vec![odd, mark];
    let mut first = BackpressureQueue::new(2, BackpressurePolicy::Block);
    let mut second = BackpressureQueue::new(1, BackpressurePolicy::Block);
    let mut waiting: Option<Batch> = None;
    let mut reporters: Vec<Collected> = vec![Vec::new(), Vec::new()];
    let mut metrics = PipelineMetrics::default();
    let mut unsent: Source = (1..10).rev().map(|i| vec![i]).collect();
    for round in 0..60 {
        if let Some(batch) = unsent.pop() {
            if let SendStep::Wait(batch) = first.send(batch) {
                unsent.push(batch);
            }
        }
        if waiting.is_none() {
            if let Some(mut batch) = first.try_recv() {
                if process(&mut processors, &mut batch, false) {
                    waiting = Some(batch);
                }
            }
        }
        if let Some(batch) = waiting.take() {
            if let SendStep::Wait(batch) = second.send(batch) {
                waiting = Some(batch);
            }
        }
        if round % 3 == 0 {
            if let Some(batch) = second.try_recv() {
                report(&mut reporters, &batch, &mut metrics);
            }
        }
    }
    let wanted: Collected = vec![vec![1, 0], vec![3, 0], vec![5, 0], vec![7, 0], vec![9, 0]];
    assert_eq!(reporters, vec![wanted.clone(), wanted]);
    assert_eq!(metrics.batches_consumed, 10);
}

#[test]
fn the_answers_decide_the_last_action() {
    let (mut chain, action) = ProcessorChain::start(3);
    assert_eq!(action, ProcessorAction::Process(0));
    assert_eq!(chain.returned(true), ProcessorAction::Process(1));
    assert_eq!(chain.returned(false), ProcessorAction::Drop);
    let (mut typed, _) = ProcessorChain::start_typed(2);
    assert_eq!(typed.returned(false), ProcessorAction::Process(1));
    assert_eq!(typed.returned(false), ProcessorAction::Forward);
    assert_eq!(ProcessorChain::start(0).1, ProcessorAction::Forward);
}

#[test]
fn a_batch_that_no_reporter_takes_is_not_consumed() {
    let mut metrics = PipelineMetrics::default();
    let mut fanout = ReporterFanout::start(2);
    fanout.returned(false);
    fanout.returned(false);
    assert_eq!(fanout.next(), None);
    metrics.reported(5, &fanout);
    assert_eq!(metrics.reporter_errors, 2);
    assert_eq!(metrics.batches_consumed, 0);
    let mut fanout = ReporterFanout::start(2);
    fanout.returned(false);
    assert_eq!(fanout.next(), Some(1));
    fanout.returned(true);
    metrics.reported(5, &fanout);
    assert_eq!(metrics.reporter_errors, 3);
    assert_eq!(metrics.batches_consumed, 5);
    assert!(!metrics.produced(4, false));
    assert_eq!(metrics.batches_produced, 0);
}

#[test]
fn typed_pipeline_end_to_end() {
    let tag: TypedProcessor = |batch| {
        batch.iter_mut().for_each(|item| item.1.push(("env", "test")));
        true
    };
    let plan = TypedPipelineExecutor::spawn(tagged(0..3), vec![tag], vec![Vec::new()], 32);
    assert_eq!(plan.capacity, 32);
    let reporters = run_typed(plan);
    assert_eq!(reporters[0].len(), 3);
    for batch in reporters[0].iter() {
        assert_eq!(batch.len(), 1);
        assert!(batch[0].1.iter().any(|(k, v)| *k == "env" && *v == "test"));
    }
}

#[test]
fn typed_pipeline_empty_graceful() {
    let plan = TypedPipelineExecutor::spawn(tagged(0..0), Vec::new(), vec![Vec::new()], 16);
    let reporters = run_typed(plan);
    assert!(reporters[0].is_empty());
}

#[test]
fn typed_pipeline_multiple_processors() {
    let first: TypedProcessor = |batch| {
        batch.iter_mut().for_each(|item| item.1.push(("p1", "a")));
        true
    };
    let second: TypedProcessor = |batch| {
        batch.iter_mut().for_each(|item| item.1.push(("p2", "b")));
        true
    };
    let processors = vec![first, second];
    let plan = TypedPipelineExecutor::spawn(tagged(0..1), processors, vec![Vec::new()], 32);
    let reporters = run_typed(plan);
    let tags = &reporters[0][0][0].1;
    assert!(tags.iter().any(|(k, _)| *k == "p1"));
    assert!(tags.iter().any(|(k, _)| *k == "p2"));
}

#[test]
fn a_typed_pipeline_sends_on_what_a_processor_refuses() {
    let refuse: TypedProcessor = |_| false;
    let plan = TypedPipelineExecutor::spawn(tagged(4..5), vec![refuse], vec![Vec::new()], 1);
    assert_eq!(plan.capacity, 16);
    assert_eq!(run_typed(plan), vec![tagged(4..5)]);
}

#[test]
fn sources_end_as_the_shutdown_signal_says() {
    assert_eq!(source_step(SourceEvent::Shutdown(true)), SourceAction::ShutDown);
    assert_eq!(source_step(SourceEvent::Shutdown(false)), SourceAction::Run);
    assert_eq!(source_step(SourceEvent::Returned(true)), SourceAction::End);
    assert_eq!(source_step(SourceEvent::Returned(false)), SourceAction::Warn);
    assert_eq!(typed_source_step(SourceEvent::Shutdown(true)), SourceAction::ShutDown);
    assert_eq!(typed_source_step(SourceEvent::Shutdown(false)), SourceAction::End);
    assert_eq!(typed_source_step(SourceEvent::Returned(false)), SourceAction::Warn);
    assert_eq!(next_batch(true, Some(3)), None);
    assert_eq!(next_batch(false, Some(3)), Some(3));
    assert_eq!(next_batch::<u32>(false, None), None);
}

#[test]
fn a_source_runs_once() {
    let mut source = BoxedSource::new("s", 1u8, 2u8);
    assert_eq!(source.run().unwrap(), 1);
    assert_eq!(message(source.run().unwrap_err()), "BoxedSource::run called more than once");
    assert_eq!(source.shutdown(), Some(2));
    assert_eq!(source.shutdown(), None);
    assert!(source.run().is_err());
    assert_eq!(source.shutdown(), None);
    let mut idle = BoxedSource::new("s", 1u8, 2u8);
    assert_eq!(idle.shutdown(), Some(2));
    assert_eq!(idle.run().unwrap(), 1);
    assert_eq!(idle.shutdown(), None);
}

#[test]
fn processors_and_reporters_are_used_many_times() {
    let mut processor = BoxedProcessor::new("p", 1u8);
    *processor.process().unwrap() += 1;
    *processor.process().unwrap() += 1;
    assert_eq!(*processor.process().unwrap(), 3);
    let mut reporter = BoxedReporter::new("r", 5u8);
    *reporter.submit().unwrap() += 1;
    assert_eq!(*reporter.submit().unwrap(), 6);
    assert_eq!(reporter.name, "r");
}

#[test]
fn shutdown_waits_for_all_tasks_or_the_deadline() {
    assert_eq!(shutdown_step(false, None, 2), None);
    assert_eq!(shutdown_step(false, Some(JoinEvent::Finished), 2), None);
    assert_eq!(shutdown_step(false, Some(JoinEvent::Panicked), 2), None);
    assert_eq!(shutdown_step(false, Some(JoinEvent::AllDone), 0), Some(Ok(())));
    assert_eq!(shutdown_step(false, Some(JoinEvent::Elapsed), 2), Some(Err(2)));
    assert_eq!(shutdown_step(true, None, 3), Some(Err(3)));
    assert_eq!(shutdown_step(true, None, 0), Some(Ok(())));
    assert_eq!(shutdown_step(false, Some(JoinEvent::Elapsed), 0), Some(Ok(())));
}

#[test]
fn collected_items_are_counted() {
    assert_eq!(total_items(&vec![]), 0);
    assert_eq!(total_items(&vec![3, 0, 4]), 7);
}

#[test]
fn test_blueprint_spawn_single_source() {
    let mut bp = blueprint();
    bp.add_source("s1".to_string(), vec![vec![]]);
    bp.add_reporter("r1".to_string(), Vec::new());
    let plan = bp.spawn(&named("test", &["s1"], &["r1"])).unwrap();
    assert_eq!(plan.sources.len(), 1);
    assert_eq!(plan.reporters.len(), 1);
    assert!(plan.processors.is_empty());
}

#[test]
fn test_blueprint_spawn_consumes_components() {
    let mut bp = blueprint();
    bp.add_source("s1".to_string(), vec![vec![]]);
    bp.add_reporter("r1".to_string(), Vec::new());
    assert!(bp.has_source("s1"));
    assert!(bp.has_reporter("r1"));
    let _plan = bp.spawn(&named("test", &["s1"], &["r1"])).unwrap();
    assert!(!bp.has_source("s1"));
    assert!(!bp.has_reporter("r1"));
    assert_eq!(bp.source_count(), 0);
    assert_eq!(bp.reporter_count(), 0);
}

#[test]
fn test_blueprint_double_spawn_error() {
    let mut bp = blueprint();
    bp.add_source("s1".to_string(), vec![]);
    bp.add_reporter("r1".to_string(), Vec::new());
    let spec = named("test", &["s1"], &["r1"]);
    assert!(bp.spawn(&spec).is_ok());
    let result = bp.spawn(&spec);
    assert!(result.is_err());
    let err_msg = message(result.err().unwrap());
    assert!(
        err_msg.contains("already consumed") || err_msg.contains("not registered"),
        "expected 'already consumed' error, got: {err_msg}"
    );
}

#[test]
fn test_blueprint_counters() {
    let mut bp = blueprint();
    assert_eq!(bp.source_count(), 0);
    bp.add_source("a".to_string(), vec![]);
    bp.add_source("b".to_string(), vec![]);
    assert_eq!(bp.source_count(), 2);
    bp.add_processor("p".to_string(), noop as Processor);
    assert_eq!(bp.processor_count(), 1);
    bp.add_reporter("r".to_string(), Vec::new());
    assert_eq!(bp.reporter_count(), 1);
}

#[test]
fn test_blueprint_missing_source_error() {
    let mut bp = blueprint();
    let result = bp.spawn(&named("missing", &["nonexistent"], &[]));
    assert!(result.is_err());
    let msg = message(result.err().unwrap());
    assert!(msg.contains("nonexistent"));
    assert!(msg.contains("source"));
}

#[test]
fn test_blueprint_has_queries() {
    let mut bp = blueprint();
    assert!(!bp.has_source("s1"));
    assert!(!bp.has_processor("p1"));
    assert!(!bp.has_reporter("r1"));
    bp.add_source("s1".to_string(), vec![]);
    bp.add_processor("p1".to_string(), noop as Processor);
    bp.add_reporter("r1".to_string(), Vec::new());
    assert!(bp.has_source("s1"));
    assert!(bp.has_processor("p1"));
    assert!(bp.has_reporter("r1"));
}

#[test]
fn test_shared_reporter_across_two_pipelines() {
    let mut bp = blueprint();
    bp.add_source("cpu".to_string(), vec![vec![]]);
    bp.add_source("mem".to_string(), vec![vec![]]);
    bp.add_reporter_shared("http".to_string(), Vec::new());
    let p1 = bp.spawn(&named("p1", &["cpu"], &["http"])).unwrap();
    let p2 = bp.spawn(&named("p2", &["mem"], &["http"])).unwrap();
    assert!(matches!(&p1.reporters[0], Slot::CloneOf(id) if id == "http"));
    assert!(matches!(&p2.reporters[0], Slot::CloneOf(id) if id == "http"));
    assert!(bp.has_reporter("http"));
    assert_eq!(bp.shared_reporter_count(), 1);
    assert_eq!(bp.reporter_count(), 0);
}

#[test]
fn test_shared_reporter_can_spawn_three_times() {
    let mut bp = blueprint();
    bp.add_source("s1".to_string(), vec![vec![]]);
    bp.add_source("s2".to_string(), vec![vec![]]);
    bp.add_source("s3".to_string(), vec![vec![]]);
    bp.add_reporter_shared("r".to_string(), Vec::new());
    assert!(bp.spawn(&named("p1", &["s1"], &["r"])).is_ok());
    assert!(bp.spawn(&named("p2", &["s2"], &["r"])).is_ok());
    assert!(bp.spawn(&named("p3", &["s3"], &["r"])).is_ok());
    assert!(bp.has_reporter("r"));
    assert_eq!(bp.shared_reporter_count(), 1);
    assert_eq!(bp.clone_count(), 3);
}

#[test]
fn test_shared_reporter_shows_in_has_query() {
    let mut bp = blueprint();
    assert!(!bp.has_reporter("http"));
    bp.add_reporter_shared("http".to_string(), Vec::new());
    assert!(bp.has_reporter("http"));
    assert_eq!(bp.shared_reporter_count(), 1);
}

#[test]
fn a_blueprint_without_names_gives_everything() {
    let mut bp = blueprint();
    bp.add_source("a".to_string(), vec![vec![1]]);
    bp.add_source("b".to_string(), vec![vec![2]]);
    bp.add_processor_shared("p".to_string(), noop as Processor);
    let plan = bp.spawn(&spec("all")).unwrap();
    assert_eq!(plan.sources.len(), 2);
    assert!(plan.processors.is_empty());
    assert!(bp.has_processor("p"));
    assert_eq!(bp.source_count(), 0);
}

#[test]
fn a_template_that_is_named_twice_is_cloned_twice() {
    let mut bp = blueprint();
    bp.add_source_shared("s".to_string(), vec![vec![5]]);
    let plan = bp.spawn(&named("twice", &["s", "s"], &[])).unwrap();
    assert_eq!(plan.sources.len(), 2);
    assert!(plan.sources.iter().all(|s| matches!(s, Slot::CloneOf(id) if id == "s")));
    assert_eq!(bp.source_template("s"), Some(&vec![vec![5]]));
    assert!(bp.processor_template("s").is_none());
    assert!(bp.reporter_template("s").is_none());
}

#[test]
fn what_is_registered_again_replaces_what_was() {
    let mut bp = blueprint();
    bp.add_source("s".to_string(), vec![vec![1]]);
    bp.add_source("s".to_string(), vec![vec![2]]);
    assert_eq!(bp.source_count(), 1);
    let plan = bp.spawn(&named("one", &["s"], &[])).unwrap();
    assert!(matches!(&plan.sources[0], Slot::Owned(s) if s == &vec![vec![2]]));
}

#[test]
fn missing_processors_and_reporters_are_refused_by_name() {
    let mut bp = blueprint();
    let mut spec = named("p", &[], &["r9"]);
    let error = message(bp.spawn(&spec).err().unwrap());
    assert_eq!(error, "reporter [r9] not registered in blueprint (already consumed or missing)");
    spec.processor_ids = vec!["p9".to_string()];
    let error = message(bp.spawn(&spec).err().unwrap());
    assert_eq!(error, "processor [p9] not registered in blueprint (already consumed or missing)");
}
