//! Pipelines: which components take part, and what each stage does with a batch.
use super::queue::BackpressurePolicy;
use crate::error::Error;
use crate::text::holds;
use vstd::prelude::*;

verus! {

use crate::text::texts;

/// What a pipeline is made of.
#[derive(Clone, Debug)]
pub struct PipelineSpec {
    pub name: String,
    pub source_ids: Vec<String>,
    pub processor_ids: Vec<String>,
    pub reporter_ids: Vec<String>,
    pub channel_capacity: usize,
    pub enabled: bool,
    /// What to do when a channel reaches capacity.
    pub backpressure: BackpressurePolicy,
}

impl Default for PipelineSpec {
    fn default() -> (r: Self)
        ensures
            r.name@.len() == 0,
            r.source_ids@.len() == 0,
            r.processor_ids@.len() == 0,
            r.reporter_ids@.len() == 0,
            r.channel_capacity == 4096,
            r.enabled,
            r.backpressure == BackpressurePolicy::Block,
    {
        PipelineSpec {
            name: String::new(),
            source_ids: Vec::new(),
            processor_ids: Vec::new(),
            reporter_ids: Vec::new(),
            channel_capacity: 4096,
            enabled: true,
            backpressure: BackpressurePolicy::Block,
        }
    }
}

/// The capacity that a channel gets: at least 16.
pub open spec fn effective_capacity(requested: usize) -> usize {
    if requested >= 16 {
        requested
    } else {
        16
    }
}

fn at_least_16(requested: usize) -> (r: usize)
    ensures
        r == effective_capacity(requested),
{
    if requested >= 16 {
        requested
    } else {
        16
    }
}

/// The components whose names a list holds, in their own order; all of them if the list is
/// empty.
pub open spec fn selected<T>(ids: Seq<Seq<char>>, components: Seq<(String, T)>) -> Seq<T>
    decreases components.len(),
{
    if components.len() == 0 {
        seq![]
    } else if ids.len() == 0 || ids.contains(components.last().0@) {
        selected(ids, components.drop_last()).push(components.last().1)
    } else {
        selected(ids, components.drop_last())
    }
}

fn select<T>(ids: &Vec<String>, components: Vec<(String, T)>) -> (r: Vec<T>)
    ensures
        r@ == selected(texts(ids@), components@),
{
    let mut r: Vec<T> = Vec::new();
    let ghost all = components@;
    let ghost mut n: int = 0;
    assert(all.take(0) =~= seq![]);
    for component in it: components
        invariant
            it.seq() == all,
            n == it.index(),
            r@ == selected(texts(ids@), all.take(n)),
    {
        proof {
            assert(all.take(n + 1).drop_last() =~= all.take(n));
            assert(all.take(n + 1).last() == component);
            n = n + 1;
        }
        let (id, value) = component;
        if ids.len() == 0 || holds(ids, id.as_str()) {
            r.push(value);
        }
    }
    assert(all.take(n) =~= all);
    r
}

/// A pipeline ready to run: its components, and the channels between its stages.
pub struct PipelinePlan<S, P, R> {
    /// The capacity of each channel.
    pub capacity: usize,
    pub backpressure: BackpressurePolicy,
    pub sources: Vec<S>,
    pub processors: Vec<P>,
    pub reporters: Vec<R>,
}

/// Builds pipelines.
pub struct PipelineExecutor;

impl PipelineExecutor {
    /// Wires up sources, processors and reporters: those that the description names, or all of
    /// a kind of which it names none.
    pub fn spawn<S, P, R>(
        spec: &PipelineSpec,
        sources: Vec<(String, S)>,
        processors: Vec<(String, P)>,
        reporters: Vec<(String, R)>,
    ) -> (r: PipelinePlan<S, P, R>)
        ensures
            r.capacity == effective_capacity(spec.channel_capacity),
            r.backpressure == spec.backpressure,
            r.sources@ == selected(texts(spec.source_ids@), sources@),
            r.processors@ == selected(texts(spec.processor_ids@), processors@),
            r.reporters@ == selected(texts(spec.reporter_ids@), reporters@),
    {
        PipelinePlan {
            capacity: at_least_16(spec.channel_capacity),
            backpressure: spec.backpressure,
            sources: select(&spec.source_ids, sources),
            processors: select(&spec.processor_ids, processors),
            reporters: select(&spec.reporter_ids, reporters),
        }
    }
}

/// A typed pipeline ready to run.
pub struct TypedPipelinePlan<S, P, R> {
    pub capacity: usize,
    pub source: S,
    pub processors: Vec<P>,
    pub reporters: Vec<R>,
}

/// Builds typed pipelines.
pub struct TypedPipelineExecutor;

impl TypedPipelineExecutor {
    /// Wires up one source, its processors and its reporters.
    pub fn spawn<S, P, R>(
        source: S,
        processors: Vec<P>,
        reporters: Vec<R>,
        channel_capacity: usize,
    ) -> (r: TypedPipelinePlan<S, P, R>)
        ensures
            r.capacity == effective_capacity(channel_capacity),
            r.source == source,
            r.processors == processors,
            r.reporters == reporters,
    {
        TypedPipelinePlan {
            capacity: at_least_16(channel_capacity),
            source,
            processors,
            reporters,
        }
    }
}

/// Taking all components of a kind keeps each of them, in order.
pub proof fn empty_selection_takes_all<T>(components: Seq<(String, T)>)
    ensures
        selected(seq![], components) == components.map_values(|c: (String, T)| c.1),
    decreases components.len(),
{
    if components.len() > 0 {
        empty_selection_takes_all(components.drop_last());
    }
    assert(selected(seq![], components) =~= components.map_values(|c: (String, T)| c.1));
}

/// A component takes part exactly when the list names it.
pub proof fn selection_goes_by_name<T>(
    ids: Seq<Seq<char>>,
    components: Seq<(String, T)>,
    value: T,
)
    requires
        ids.len() > 0,
    ensures
        selected(ids, components).contains(value) <==> exists|i: int|
            0 <= i < components.len() && ids.contains((#[trigger] components[i]).0@)
                && components[i].1 == value,
    decreases components.len(),
{
    if components.len() > 0 {
        let init = components.drop_last();
        let last = components.last();
        selection_goes_by_name(ids, init, value);
        let n = components.len() - 1;
        let s = selected(ids, components);
        if exists|i: int|
            0 <= i < components.len() && ids.contains((#[trigger] components[i]).0@)
                && components[i].1 == value {
            let i = choose|i: int|
                0 <= i < components.len() && ids.contains((#[trigger] components[i]).0@)
                    && components[i].1 == value;
            if i < n {
                assert(init[i] == components[i]);
                let k = choose|k: int| 0 <= k < selected(ids, init).len() && selected(ids, init)[k]
                    == value;
                assert(s[k] == value);
            } else {
                assert(s[s.len() - 1] == value);
            }
        }
        if s.contains(value) {
            let k = choose|k: int| 0 <= k < s.len() && s[k] == value;
            if k < selected(ids, init).len() {
                assert(selected(ids, init)[k] == value);
                let i = choose|i: int|
                    0 <= i < init.len() && ids.contains((#[trigger] init[i]).0@) && init[i].1
                        == value;
                assert(components[i] == init[i]);
            } else {
                assert(components[n] == last);
            }
        }
    }
}

/// What is asked of a source.
#[derive(Debug, Clone, Copy, PartialEq, Eq, Structural)]
pub enum SourceCall {
    Run,
    Shutdown,
}

/// A source that runs at most once and is told to stop at most once.
pub struct BoxedSource<F, G> {
    pub name: &'static str,
    run_fn: Option<F>,
    shutdown_fn: Option<G>,
}

impl<F, G> BoxedSource<F, G> {
    pub closed spec fn label(&self) -> &'static str {
        self.name
    }

    /// What `run` still has to give.
    pub closed spec fn pending_run(&self) -> Option<F> {
        self.run_fn
    }

    /// What `shutdown` still has to give.
    pub closed spec fn pending_shutdown(&self) -> Option<G> {
        self.shutdown_fn
    }

    /// Whether a call leaves the source in a state, and what stops the source is handed out as
    /// given.
    pub open spec fn called(self, call: SourceCall, given: Option<G>, after: Self) -> bool {
        &&& after.label() == self.label()
        &&& match call {
            SourceCall::Run => {
                &&& given is None
                &&& after.pending_run() is None
                &&& after.pending_shutdown() == self.pending_shutdown()
            },
            SourceCall::Shutdown => {
                &&& given == self.pending_shutdown()
                &&& after.pending_run() == self.pending_run()
                &&& after.pending_shutdown() is None
            },
        }
    }

    pub fn new(name: &'static str, run_fn: F, shutdown_fn: G) -> (r: Self)
        ensures
            r.label() == name,
            r.pending_run() == Some(run_fn),
            r.pending_shutdown() == Some(shutdown_fn),
    {
        BoxedSource { name, run_fn: Some(run_fn), shutdown_fn: Some(shutdown_fn) }
    }

    /// Hands out what runs the source, the first time; an error after that.
    pub fn run(&mut self) -> (r: Result<F, Error>)
        ensures
            match old(self).pending_run() {
                Some(f) => r == Ok::<F, Error>(f),
                None => r matches Err(e) && e.is_fatal() && e.text()
                    == "BoxedSource::run called more than once"@,
            },
            old(self).called(SourceCall::Run, None, *final(self)),
    {
        match self.run_fn.take() {
            Some(f) => Ok(f),
            None => Err(
                Error::Pipeline {
                    message: "BoxedSource::run called more than once".to_owned(),
                    fatal: true,
                },
            ),
        }
    }

    /// Hands out what stops the source, the first time; nothing after that.
    pub fn shutdown(&mut self) -> (r: Option<G>)
        ensures
            old(self).called(SourceCall::Shutdown, r, *final(self)),
    {
        self.shutdown_fn.take()
    }
}

/// Of any number of calls, the first shutdown hands out what stops the source, whether or not the
/// source was run before; every other call hands out nothing.
pub proof fn only_the_first_shutdown_has_an_effect<F, G>(
    states: Seq<BoxedSource<F, G>>,
    calls: Seq<SourceCall>,
    given: Seq<Option<G>>,
    stop: G,
    first: int,
)
    requires
        states.len() == calls.len() + 1,
        given.len() == calls.len(),
        states[0].pending_shutdown() == Some(stop),
        forall|i: int|
            0 <= i < calls.len() ==> (#[trigger] states[i]).called(
                calls[i],
                given[i],
                states[i + 1],
            ),
        0 <= first < calls.len(),
        calls[first] == SourceCall::Shutdown,
        forall|i: int| 0 <= i < first ==> #[trigger] calls[i] == SourceCall::Run,
    ensures
        given[first] == Some(stop),
        forall|i: int| 0 <= i < calls.len() && i != first ==> #[trigger] given[i] is None,
{
    assert forall|i: int| 0 <= i < calls.len() implies #[trigger] given[i] == (if i == first {
        Some(stop)
    } else {
        None::<G>
    }) by {
        lemma_pending_shutdown(states, calls, given, stop, first, i);
        assert(states[i].called(calls[i], given[i], states[i + 1]));
    }
}

proof fn lemma_pending_shutdown<F, G>(
    states: Seq<BoxedSource<F, G>>,
    calls: Seq<SourceCall>,
    given: Seq<Option<G>>,
    stop: G,
    first: int,
    k: int,
)
    requires
        states.len() == calls.len() + 1,
        given.len() == calls.len(),
        states[0].pending_shutdown() == Some(stop),
        forall|i: int|
            0 <= i < calls.len() ==> (#[trigger] states[i]).called(
                calls[i],
                given[i],
                states[i + 1],
            ),
        0 <= first < calls.len(),
        calls[first] == SourceCall::Shutdown,
        forall|i: int| 0 <= i < first ==> #[trigger] calls[i] == SourceCall::Run,
        0 <= k <= calls.len(),
    ensures
        states[k].pending_shutdown() == (if k <= first {
            Some(stop)
        } else {
            None
        }),
    decreases k,
{
    if k > 0 {
        lemma_pending_shutdown(states, calls, given, stop, first, k - 1);
        assert(states[k - 1].called(calls[k - 1], given[k - 1], states[k]));
    }
}

/// A processor of any kind: a name, and what processes a batch.
pub struct BoxedProcessor<F> {
    pub name: &'static str,
    process_fn: Option<F>,
}

impl<F> BoxedProcessor<F> {
    pub closed spec fn label(&self) -> &'static str {
        self.name
    }

    /// What takes the batches, unless it was given up.
    pub closed spec fn handler(&self) -> Option<F> {
        self.process_fn
    }

    pub fn new(name: &'static str, process_fn: F) -> (r: Self)
        ensures
            r.label() == name,
            r.handler() == Some(process_fn),
    {
        BoxedProcessor { name, process_fn: Some(process_fn) }
    }

    /// What a batch is handed to; an error if it was given up. It can be had many times.
    pub fn process(&mut self) -> (r: Result<&mut F, Error>)
        ensures
            final(self).label() == old(self).label(),
            match old(self).handler() {
                Some(f) => r is Ok && *r->Ok_0 == f && final(self).handler() == Some(
                    *final(r->Ok_0),
                ),
                None => r is Err && r->Err_0.is_fatal() && r->Err_0.text()
                    == "BoxedProcessor used after shutdown"@ && final(self).handler() is None,
            },
    {
        match &mut self.process_fn {
            Some(f) => Ok(f),
            None => Err(
                Error::Pipeline { message: "BoxedProcessor used after shutdown".to_owned(), fatal: true },
            ),
        }
    }
}

/// A reporter of any kind: a name, and what submits a batch.
pub struct BoxedReporter<F> {
    pub name: &'static str,
    submit_fn: Option<F>,
}

impl<F> BoxedReporter<F> {
    pub closed spec fn label(&self) -> &'static str {
        self.name
    }

    /// What takes the batches, unless it was given up.
    pub closed spec fn handler(&self) -> Option<F> {
        self.submit_fn
    }

    pub fn new(name: &'static str, submit_fn: F) -> (r: Self)
        ensures
            r.label() == name,
            r.handler() == Some(submit_fn),
    {
        BoxedReporter { name, submit_fn: Some(submit_fn) }
    }

    /// What a batch is handed to; an error if it was given up. It can be had many times.
    pub fn submit(&mut self) -> (r: Result<&mut F, Error>)
        ensures
            final(self).label() == old(self).label(),
            match old(self).handler() {
                Some(f) => r is Ok && *r->Ok_0 == f && final(self).handler() == Some(
                    *final(r->Ok_0),
                ),
                None => r is Err && r->Err_0.is_fatal() && r->Err_0.text()
                    == "BoxedReporter used after shutdown"@ && final(self).handler() is None,
            },
    {
        match &mut self.submit_fn {
            Some(f) => Ok(f),
            None => Err(
                Error::Pipeline { message: "BoxedReporter used after shutdown".to_owned(), fatal: true },
            ),
        }
    }
}

/// What a stage waits for: a change of the shutdown signal, which goes first, or a batch.
pub fn next_batch<B>(shutdown_changed: bool, received: Option<B>) -> (r: Option<B>)
    ensures
        r == (if shutdown_changed {
            None
        } else {
            received
        }),
{
    if shutdown_changed {
        None
    } else {
        received
    }
}

/// What a source task was woken by.
#[derive(Debug, Clone, Copy, PartialEq, Eq, Structural)]
pub enum SourceEvent {
    /// The shutdown signal changed to this value.
    Shutdown(bool),
    /// The source returned; whether without an error.
    Returned(bool),
}

/// What a source task does next.
#[derive(Debug, Clone, Copy, PartialEq, Eq, Structural)]
pub enum SourceAction {
    /// Tell the source to shut down, and end.
    ShutDown,
    /// Run the source again.
    Run,
    /// Log the source's error, and end.
    Warn,
    End,
}

/// What a source task does when it is woken.
pub fn source_step(event: SourceEvent) -> (r: SourceAction)
    ensures
        r == (match event {
            SourceEvent::Shutdown(true) => SourceAction::ShutDown,
            SourceEvent::Shutdown(false) => SourceAction::Run,
            SourceEvent::Returned(true) => SourceAction::End,
            SourceEvent::Returned(false) => SourceAction::Warn,
        }),
{
    match event {
        SourceEvent::Shutdown(stop) => if stop {
            SourceAction::ShutDown
        } else {
            SourceAction::Run
        },
        SourceEvent::Returned(ok) => if ok {
            SourceAction::End
        } else {
            SourceAction::Warn
        },
    }
}

/// What the task of a typed source does when it is woken: it ends in any case.
pub fn typed_source_step(event: SourceEvent) -> (r: SourceAction)
    ensures
        r == (match event {
            SourceEvent::Shutdown(true) => SourceAction::ShutDown,
            SourceEvent::Shutdown(false) => SourceAction::End,
            SourceEvent::Returned(true) => SourceAction::End,
            SourceEvent::Returned(false) => SourceAction::Warn,
        }),
{
    match source_step(event) {
        SourceAction::Run => SourceAction::End,
        other => other,
    }
}

/// What the processing stage does next with a batch.
#[derive(Debug, Clone, Copy, PartialEq, Eq, Structural)]
pub enum ProcessorAction {
    /// Hand the batch to the processor with this number.
    Process(usize),
    /// Send the batch on.
    Forward,
    /// Drop the batch.
    Drop,
}

/// The way of one batch through the processors.
pub struct ProcessorChain {
    next: usize,
    count: usize,
    keep_going: bool,
}

impl ProcessorChain {
    /// The processor that has the batch.
    pub closed spec fn current(&self) -> nat {
        self.next as nat
    }

    pub closed spec fn count(&self) -> nat {
        self.count as nat
    }

    /// Whether a processor's error leaves the batch in.
    pub closed spec fn tolerant(&self) -> bool {
        self.keep_going
    }

    /// Whether a processor has the batch.
    pub open spec fn running(&self) -> bool {
        self.current() < self.count()
    }

    /// What happens to a batch once `done` processors have had it.
    pub open spec fn at(done: nat, count: nat) -> ProcessorAction {
        if done < count {
            ProcessorAction::Process(done as usize)
        } else {
            ProcessorAction::Forward
        }
    }

    /// Whether the return of the processor that has the batch is followed by an action, and
    /// leaves the chain in a state.
    pub open spec fn answered(self, ok: bool, action: ProcessorAction, after: Self) -> bool {
        &&& after.count() == self.count()
        &&& after.tolerant() == self.tolerant()
        &&& if ok || self.tolerant() {
            &&& after.current() == self.current() + 1
            &&& action == Self::at(after.current(), after.count())
        } else {
            &&& after.current() == after.count()
            &&& action == ProcessorAction::Drop
        }
    }

    /// A batch that `count` processors are to see. The first error drops it.
    pub fn start(count: usize) -> (r: (Self, ProcessorAction))
        ensures
            r.0.current() == 0,
            r.0.count() == count,
            !r.0.tolerant(),
            r.1 == Self::at(0, count as nat),
    {
        let chain = ProcessorChain { next: 0, count, keep_going: false };
        (
            chain,
            if count > 0 {
                ProcessorAction::Process(0)
            } else {
                ProcessorAction::Forward
            },
        )
    }

    /// A typed batch that `count` processors are to see, whatever their errors.
    pub fn start_typed(count: usize) -> (r: (Self, ProcessorAction))
        ensures
            r.0.current() == 0,
            r.0.count() == count,
            r.0.tolerant(),
            r.1 == Self::at(0, count as nat),
    {
        let chain = ProcessorChain { next: 0, count, keep_going: true };
        (
            chain,
            if count > 0 {
                ProcessorAction::Process(0)
            } else {
                ProcessorAction::Forward
            },
        )
    }

    /// What follows when the processor that has the batch returns.
    pub fn returned(&mut self, ok: bool) -> (r: ProcessorAction)
        requires
            old(self).running(),
        ensures
            old(self).answered(ok, r, *final(self)),
    {
        if ok || self.keep_going {
            self.next = self.next + 1;
            if self.next < self.count {
                ProcessorAction::Process(self.next)
            } else {
                ProcessorAction::Forward
            }
        } else {
            self.next = self.count;
            ProcessorAction::Drop
        }
    }
}

/// What becomes of a batch whose processors answer with `outcomes`, in order, from processor
/// `done` on.
pub open spec fn chain_result(outcomes: Seq<bool>, done: nat, tolerant: bool) -> ProcessorAction
    decreases outcomes.len() - done,
{
    if done >= outcomes.len() {
        ProcessorAction::Forward
    } else if outcomes[done as int] || tolerant {
        chain_result(outcomes, done + 1, tolerant)
    } else {
        ProcessorAction::Drop
    }
}

/// Whatever the processors answer, the last action on a batch is the one that their answers call
/// for, and a batch is forwarded only once all processors have had it. `actions` begins with the
/// action with which the chain was started.
pub proof fn the_last_action_follows_from_the_answers(
    states: Seq<ProcessorChain>,
    outcomes: Seq<bool>,
    actions: Seq<ProcessorAction>,
)
    requires
        states.len() == outcomes.len() + 1,
        actions.len() == outcomes.len() + 1,
        states[0].current() == 0,
        actions[0] == ProcessorChain::at(0, states[0].count()),
        forall|i: int|
            0 <= i < outcomes.len() ==> (#[trigger] states[i]).running() && states[i].answered(
                outcomes[i],
                actions[i + 1],
                states[i + 1],
            ),
        !states.last().running(),
    ensures
        actions.last() == chain_result(outcomes, 0, states[0].tolerant()),
        actions.last() == ProcessorAction::Forward ==> outcomes.len() == states[0].count(),
{
    let n = outcomes.len() as int;
    lemma_chain_so_far(states, outcomes, actions, n);
    assert(n > 0 ==> states[n - 1].running());
    a_batch_is_forwarded_iff_all_accept(outcomes, 0, states[0].tolerant());
}

proof fn lemma_chain_so_far(
    states: Seq<ProcessorChain>,
    outcomes: Seq<bool>,
    actions: Seq<ProcessorAction>,
    k: int,
)
    requires
        states.len() == outcomes.len() + 1,
        actions.len() == outcomes.len() + 1,
        states[0].current() == 0,
        actions[0] == ProcessorChain::at(0, states[0].count()),
        forall|i: int|
            0 <= i < outcomes.len() ==> (#[trigger] states[i]).running() && states[i].answered(
                outcomes[i],
                actions[i + 1],
                states[i + 1],
            ),
        0 <= k <= outcomes.len(),
    ensures
        states[k].count() == states[0].count(),
        states[k].tolerant() == states[0].tolerant(),
        ({
            ||| {
                &&& states[k].current() == k
                &&& actions[k] == ProcessorChain::at(k as nat, states[0].count())
                &&& states[0].tolerant() || forall|i: int| 0 <= i < k ==> #[trigger] outcomes[i]
            }
            ||| {
                &&& k > 0
                &&& k == outcomes.len()
                &&& actions[k] == ProcessorAction::Drop
                &&& !outcomes[k - 1]
                &&& !states[0].tolerant()
            }
        }),
    decreases k,
{
    if k > 0 {
        lemma_chain_so_far(states, outcomes, actions, k - 1);
        assert(states[k - 1].running());
        assert(states[k - 1].answered(outcomes[k - 1], actions[k], states[k]));
        if k < outcomes.len() {
            assert(states[k].running());
        }
    }
}

/// A batch is forwarded exactly when every processor accepted it, and dropped otherwise; a
/// typed batch is always forwarded.
pub proof fn a_batch_is_forwarded_iff_all_accept(outcomes: Seq<bool>, done: nat, tolerant: bool)
    ensures
        chain_result(outcomes, done, tolerant) == (if tolerant || forall|i: int|
            done <= i < outcomes.len() ==> #[trigger] outcomes[i] {
            ProcessorAction::Forward
        } else {
            ProcessorAction::Drop
        }),
    decreases outcomes.len() - done,
{
    if done < outcomes.len() {
        a_batch_is_forwarded_iff_all_accept(outcomes, done + 1, tolerant);
    }
}

/// The way of one batch to the reporters: each of them gets it.
pub struct ReporterFanout {
    next: usize,
    count: usize,
    submitted: usize,
    failed: usize,
}

impl ReporterFanout {
    pub closed spec fn current(&self) -> nat {
        self.next as nat
    }

    pub closed spec fn count(&self) -> nat {
        self.count as nat
    }

    /// How many reporters have taken the batch.
    pub closed spec fn submitted(&self) -> nat {
        self.submitted as nat
    }

    /// How many reporters have failed on it.
    pub closed spec fn failed(&self) -> nat {
        self.failed as nat
    }

    pub open spec fn wf(&self) -> bool {
        &&& self.current() <= self.count() <= usize::MAX
        &&& self.submitted() + self.failed() == self.current()
    }

    /// Whether what becomes of the batch at one reporter leaves the fan-out in a state.
    pub open spec fn answered(self, ok: bool, after: Self) -> bool {
        &&& after.count() == self.count()
        &&& after.current() == self.current() + 1
        &&& after.submitted() == self.submitted() + (if ok {
            1nat
        } else {
            0nat
        })
        &&& after.failed() == self.failed() + (if ok {
            0nat
        } else {
            1nat
        })
    }

    pub fn start(count: usize) -> (r: Self)
        ensures
            r.wf(),
            r.count() == count,
            r.current() == 0,
            r.submitted() == 0,
            r.failed() == 0,
    {
        ReporterFanout { next: 0, count, submitted: 0, failed: 0 }
    }

    /// The reporter that is to get the batch next.
    pub fn next(&self) -> (r: Option<usize>)
        ensures
            r == (if self.current() < self.count() {
                Some(self.current() as usize)
            } else {
                None
            }),
    {
        if self.next < self.count {
            Some(self.next)
        } else {
            None
        }
    }

    /// Notes how the reporter fared; the next one follows in any case.
    pub fn returned(&mut self, ok: bool)
        requires
            old(self).wf(),
            old(self).current() < old(self).count(),
        ensures
            final(self).wf(),
            old(self).answered(ok, *final(self)),
    {
        self.next = self.next + 1;
        if ok {
            self.submitted = self.submitted + 1;
        } else {
            self.failed = self.failed + 1;
        }
    }
}

/// Counts of a running pipeline.
#[derive(Debug, Clone, Copy, PartialEq, Eq, Structural)]
pub struct PipelineMetrics {
    /// Total items emitted by sources.
    pub batches_produced: u64,
    /// Total items successfully submitted by reporters.
    pub batches_consumed: u64,
    /// Total batches dropped due to processor error.
    pub batches_dropped: u64,
    /// Cumulative source to processor latency in nanoseconds.
    pub total_latency_ns: u64,
    /// Total reporter errors.
    pub reporter_errors: u64,
}

impl Default for PipelineMetrics {
    fn default() -> (r: Self)
        ensures
            r == (PipelineMetrics {
                batches_produced: 0,
                batches_consumed: 0,
                batches_dropped: 0,
                total_latency_ns: 0,
                reporter_errors: 0,
            }),
    {
        PipelineMetrics {
            batches_produced: 0,
            batches_consumed: 0,
            batches_dropped: 0,
            total_latency_ns: 0,
            reporter_errors: 0,
        }
    }
}

impl PipelineMetrics {
    /// Notes that a source's batch of `items` items was handed to the first channel, which may
    /// have been closed. The result says whether the stage goes on.
    pub fn produced(&mut self, items: u64, accepted: bool) -> (go_on: bool)
        ensures
            go_on == accepted,
            *final(self) == (if accepted {
                PipelineMetrics {
                    batches_produced: old(self).batches_produced.wrapping_add(items),
                    ..*old(self)
                }
            } else {
                *old(self)
            }),
    {
        if accepted {
            self.batches_produced = self.batches_produced.wrapping_add(items);
        }
        accepted
    }

    /// Notes that the processors are done with a batch, which is forwarded or dropped.
    pub fn processed(&mut self, latency_ns: u64, forwarded: bool)
        ensures
            *final(self) == (PipelineMetrics {
                total_latency_ns: old(self).total_latency_ns.wrapping_add(latency_ns),
                batches_dropped: if forwarded {
                    old(self).batches_dropped
                } else {
                    old(self).batches_dropped.wrapping_add(1)
                },
                ..*old(self)
            }),
    {
        self.total_latency_ns = self.total_latency_ns.wrapping_add(latency_ns);
        if !forwarded {
            self.batches_dropped = self.batches_dropped.wrapping_add(1);
        }
    }

    /// Notes that the reporters are done with a batch of `items` items. Its items count as
    /// consumed if at least one reporter has submitted them.
    pub fn reported(&mut self, items: u64, fanout: &ReporterFanout)
        requires
            fanout.wf(),
        ensures
            *final(self) == (PipelineMetrics {
                reporter_errors: old(self).reporter_errors.wrapping_add(fanout.failed() as u64),
                batches_consumed: if fanout.submitted() > 0 {
                    old(self).batches_consumed.wrapping_add(items)
                } else {
                    old(self).batches_consumed
                },
                ..*old(self)
            }),
    {
        self.reporter_errors = self.reporter_errors.wrapping_add(fanout.failed as u64);
        if fanout.submitted > 0 {
            self.batches_consumed = self.batches_consumed.wrapping_add(items);
        }
    }
}

/// What came of waiting for one of a pipeline's tasks.
#[derive(Debug, Clone, Copy, PartialEq, Eq, Structural)]
pub enum JoinEvent {
    /// A task ended.
    Finished,
    /// A task panicked.
    Panicked,
    /// No task is left.
    AllDone,
    /// The deadline passed.
    Elapsed,
}

/// How a wait ends at the deadline: well if no task runs any more.
pub open spec fn at_deadline(running: usize) -> Result<(), usize> {
    if running == 0 {
        Ok(())
    } else {
        Err(running)
    }
}

/// Whether the wait for a pipeline's tasks is over, and how it ends: well once all have exited,
/// or at the deadline with the number of tasks that still run. `None` means that the next task is
/// waited for.
pub fn shutdown_step(past_deadline: bool, event: Option<JoinEvent>, running: usize) -> (r: Option<
    Result<(), usize>,
>)
    ensures
        r == (match event {
            Some(JoinEvent::AllDone) => Some(Ok::<(), usize>(())),
            Some(JoinEvent::Elapsed) => Some(at_deadline(running)),
            _ => if past_deadline {
                Some(at_deadline(running))
            } else {
                None
            },
        }),
        r matches Some(Err(n)) ==> n >= 1,
{
    match event {
        Some(JoinEvent::AllDone) => return Some(Ok(())),
        Some(JoinEvent::Elapsed) => {},
        _ => if !past_deadline {
            return None;
        },
    }
    if running == 0 {
        Some(Ok(()))
    } else {
        Some(Err(running))
    }
}

/// The sum of a list of numbers.
pub open spec fn sum(v: Seq<usize>) -> int
    decreases v.len(),
{
    if v.len() == 0 {
        0
    } else {
        sum(v.drop_last()) + v.last()
    }
}

proof fn lemma_sum_grows(v: Seq<usize>, k: int)
    requires
        0 <= k <= v.len(),
    ensures
        0 <= sum(v.take(k)) <= sum(v),
    decreases v.len(),
{
    if k < v.len() {
        lemma_sum_grows(v.drop_last(), k);
        assert(v.drop_last().take(k) =~= v.take(k));
    } else {
        assert(v.take(k) =~= v);
        if v.len() > 0 {
            lemma_sum_grows(v.drop_last(), k - 1);
            assert(v.drop_last().take(k - 1) =~= v.drop_last());
        }
    }
}

/// The number of items in batches of the given lengths.
pub fn total_items(lengths: &Vec<usize>) -> (r: usize)
    requires
        sum(lengths@) <= usize::MAX,
    ensures
        r == sum(lengths@),
{
    let mut total: usize = 0;
    let mut i: usize = 0;
    assert(lengths@.take(0) =~= seq![]);
    while i < lengths.len()
        invariant
            i <= lengths.len(),
            sum(lengths@) <= usize::MAX,
            total == sum(lengths@.take(i as int)),
        decreases lengths.len() - i,
    {
        proof {
            lemma_sum_grows(lengths@, i + 1);
            assert(lengths@.take(i + 1).drop_last() =~= lengths@.take(i as int));
        }
        total = total + lengths[i];
        i = i + 1;
    }
    assert(lengths@.take(i as int) =~= lengths@);
    total
}

/// How many answers are good.
pub open spec fn good_answers(outcomes: Seq<bool>) -> nat
    decreases outcomes.len(),
{
    if outcomes.len() == 0 {
        0
    } else if outcomes.last() {
        good_answers(outcomes.drop_last()) + 1
    } else {
        good_answers(outcomes.drop_last())
    }
}

/// Every reporter gets its turn, one after the other, whatever the others answer; those that take
/// the batch are counted as such, and the others as failures.
pub proof fn every_reporter_is_counted(states: Seq<ReporterFanout>, outcomes: Seq<bool>)
    requires
        states.len() == outcomes.len() + 1,
        states[0].current() == 0,
        states[0].submitted() == 0,
        states[0].failed() == 0,
        forall|i: int|
            0 <= i < outcomes.len() ==> (#[trigger] states[i]).answered(
                outcomes[i],
                states[i + 1],
            ),
    ensures
        states.last().current() == outcomes.len(),
        states.last().count() == states[0].count(),
        states.last().submitted() == good_answers(outcomes),
        states.last().failed() == outcomes.len() - good_answers(outcomes),
    decreases outcomes.len(),
{
    let n = outcomes.len() as int;
    if n > 0 {
        let s = states.drop_last();
        let o = outcomes.drop_last();
        assert forall|i: int| 0 <= i < o.len() implies (#[trigger] s[i]).answered(
            o[i],
            s[i + 1],
        ) by {
            assert(states[i].answered(outcomes[i], states[i + 1]));
        }
        every_reporter_is_counted(s, o);
        assert(states[n - 1].answered(outcomes[n - 1], states[n]));
    }
}

/// A wait that ends at the deadline ends well exactly when nothing runs any more, and else tells how
/// much does.
pub proof fn a_deadline_tells_what_still_runs(running: usize)
    ensures
        at_deadline(running) is Ok <==> running == 0,
        at_deadline(running) matches Err(n) ==> n == running,
{
}

} // verus!
