//! The way of batches through a whole pipeline: from the sources through a channel to the
//! processors, and through another one to the reporters.
use super::pipeline::{ProcessorAction, ProcessorChain, ReporterFanout};
use super::queue::{BackpressureQueue, ChannelEvent};
use vstd::prelude::*;

verus! {

use super::queue::takes;

/// A batch that the processors have.
pub struct Processing<B> {
    pub batch: B,
    pub chain: ProcessorChain,
    /// What is done with it next.
    pub action: ProcessorAction,
}

/// A batch that the reporters have.
pub struct Reporting<B> {
    pub batch: B,
    pub fanout: ReporterFanout,
}

/// Where the batches of a pipeline are.
pub struct Flow<B> {
    /// What the sources' channel has accepted.
    pub accepted: Seq<B>,
    pub first: BackpressureQueue<B>,
    /// How many batches have come to the processors.
    pub taken: nat,
    pub processing: Option<Processing<B>>,
    pub second: BackpressureQueue<B>,
    pub reporting: Option<Reporting<B>>,
    /// What each reporter has got.
    pub reported: Seq<Seq<B>>,
}

/// What happens in a pipeline.
pub enum FlowEvent<B> {
    /// A source sends a batch.
    Send(B),
    /// A batch comes to the processors.
    Take,
    /// The processor that has the batch returns.
    Return,
    /// The batch that all processors accepted is sent on.
    Forward,
    /// The batch that a processor refused is dropped.
    Drop,
    /// A batch comes to the reporters.
    Fetch,
    /// The next reporter gets the batch, and takes it or fails.
    Submit(bool),
    /// All reporters have had the batch.
    Finish,
}

/// What processors do: what the processor with a number makes of a batch, counted as it comes to
/// them, and whether it accepts it.
pub type Processors<B> = spec_fn(nat, nat, B) -> (B, bool);

/// What leaves the processors of a batch that `done` of them have had; nothing if one of them
/// refuses it.
pub open spec fn passed<B>(p: Processors<B>, number: nat, batch: B, done: nat, count: nat) -> Seq<B>
    decreases count - done,
{
    if done >= count {
        seq![batch]
    } else {
        let (next, ok) = p(number, done, batch);
        if ok {
            passed(p, number, next, done + 1, count)
        } else {
            seq![]
        }
    }
}

/// What leaves the processors of some batches, the first of which has the number `from`: each
/// that all of them accept, once and in order.
pub open spec fn all_passed<B>(p: Processors<B>, from: nat, batches: Seq<B>, count: nat) -> Seq<B>
    decreases batches.len(),
{
    if batches.len() == 0 {
        seq![]
    } else {
        all_passed(p, from, batches.drop_last(), count) + passed(
            p,
            (from + batches.len() - 1) as nat,
            batches.last(),
            0,
            count,
        )
    }
}

impl<B> Flow<B> {
    /// A pipeline in which nothing has happened, with a number of reporters.
    pub open spec fn is_new(self, reporters: usize) -> bool {
        &&& self.accepted == Seq::<B>::empty()
        &&& self.first.items() == Seq::<B>::empty()
        &&& self.first.policy() is Block
        &&& self.taken == 0
        &&& self.processing is None
        &&& self.second.items() == Seq::<B>::empty()
        &&& self.second.policy() is Block
        &&& self.reporting is None
        &&& self.reported == Seq::new(reporters as nat, |j: int| Seq::<B>::empty())
    }

    /// Whether an event leaves the pipeline in a state. A batch for which a channel has no space
    /// waits where it is.
    pub open spec fn moves(
        self,
        p: Processors<B>,
        processors: usize,
        reporters: usize,
        event: FlowEvent<B>,
        after: Self,
    ) -> bool {
        match event {
            FlowEvent::Send(batch) => {
                &&& self.first.does(ChannelEvent::Send(batch), None, after.first)
                &&& after == Flow {
                    accepted: if takes(
                        self.first.policy(),
                        self.first.capacity(),
                        self.first.items(),
                    ) {
                        self.accepted.push(batch)
                    } else {
                        self.accepted
                    },
                    first: after.first,
                    ..self
                }
            },
            FlowEvent::Take => {
                &&& self.processing is None
                &&& after.processing matches Some(now) && {
                    &&& self.first.does(ChannelEvent::Recv, Some(now.batch), after.first)
                    &&& now.chain.current() == 0
                    &&& now.chain.count() == processors
                    &&& !now.chain.tolerant()
                    &&& now.action == ProcessorChain::at(0, processors as nat)
                    &&& after == Flow {
                        first: after.first,
                        taken: self.taken + 1,
                        processing: after.processing,
                        ..self
                    }
                }
            },
            FlowEvent::Return => {
                &&& self.processing matches Some(before) && after.processing matches Some(now)
                    && before.action matches ProcessorAction::Process(i) && {
                    let (batch, ok) = p((self.taken - 1) as nat, i as nat, before.batch);
                    &&& now.batch == batch
                    &&& before.chain.answered(ok, now.action, now.chain)
                    &&& after == Flow { processing: after.processing, ..self }
                }
            },
            FlowEvent::Forward => {
                &&& self.processing matches Some(before) && before.action
                    == ProcessorAction::Forward && {
                    &&& self.second.does(ChannelEvent::Send(before.batch), None, after.second)
                    &&& after == Flow {
                        second: after.second,
                        processing: if takes(
                            self.second.policy(),
                            self.second.capacity(),
                            self.second.items(),
                        ) {
                            None
                        } else {
                            self.processing
                        },
                        ..self
                    }
                }
            },
            FlowEvent::Drop => {
                &&& self.processing matches Some(before) && before.action == ProcessorAction::Drop
                &&& after == Flow { processing: None, ..self }
            },
            FlowEvent::Fetch => {
                &&& self.reporting is None
                &&& after.reporting matches Some(now) && {
                    &&& self.second.does(ChannelEvent::Recv, Some(now.batch), after.second)
                    &&& now.fanout.current() == 0
                    &&& now.fanout.count() == reporters
                    &&& after == Flow { second: after.second, reporting: after.reporting, ..self }
                }
            },
            FlowEvent::Submit(ok) => {
                &&& self.reporting matches Some(before) && after.reporting matches Some(now) && {
                    let j = before.fanout.current() as int;
                    &&& before.fanout.current() < before.fanout.count()
                    &&& before.fanout.answered(ok, now.fanout)
                    &&& now.batch == before.batch
                    &&& after == Flow {
                        reporting: after.reporting,
                        reported: self.reported.update(j, self.reported[j].push(before.batch)),
                        ..self
                    }
                }
            },
            FlowEvent::Finish => {
                &&& self.reporting matches Some(before) && before.fanout.current()
                    == before.fanout.count()
                &&& after == Flow { reporting: None, ..self }
            },
        }
    }

    /// What the reporting stage still has for a reporter.
    pub open spec fn owed(self, j: int) -> Seq<B> {
        match self.reporting {
            Some(now) => if j < now.fanout.current() {
                seq![]
            } else {
                seq![now.batch]
            },
            None => seq![],
        }
    }

    /// What will leave the processors of the batch that they have.
    pub open spec fn in_work(self, p: Processors<B>, processors: usize) -> Seq<B> {
        match self.processing {
            Some(now) => match now.action {
                ProcessorAction::Process(i) => passed(
                    p,
                    (self.taken - 1) as nat,
                    now.batch,
                    i as nat,
                    processors as nat,
                ),
                ProcessorAction::Forward => seq![now.batch],
                ProcessorAction::Drop => seq![],
            },
            None => seq![],
        }
    }

    /// What is on its way to a reporter: first what the reporters have, last what the sources have
    /// sent.
    pub open spec fn on_its_way(self, p: Processors<B>, processors: usize, j: int) -> Seq<B> {
        self.owed(j) + self.second.items() + self.in_work(p, processors) + all_passed(
            p,
            self.taken,
            self.first.items(),
            processors as nat,
        )
    }

    /// Whether every reporter has got, or will get, what the processors accept.
    spec fn keeps(self, p: Processors<B>, processors: usize, reporters: usize) -> bool {
        &&& self.first.policy() is Block
        &&& self.second.policy() is Block
        &&& self.reported.len() == reporters
        &&& self.taken <= self.accepted.len()
        &&& self.accepted.skip(self.taken as int) == self.first.items()
        &&& self.processing matches Some(now) ==> {
            &&& self.taken > 0
            &&& now.chain.count() == processors
            &&& !now.chain.tolerant()
            &&& now.action matches ProcessorAction::Process(i) ==> i == now.chain.current()
                && now.chain.current() < processors
        }
        &&& self.reporting matches Some(now) ==> now.fanout.count() == reporters
            && now.fanout.current() <= reporters
        &&& forall|j: int|
            0 <= j < reporters ==> (#[trigger] self.reported[j]) + self.on_its_way(
                p,
                processors,
                j,
            ) == all_passed(p, 0, self.accepted, processors as nat)
    }
}

proof fn lemma_first_passed<B>(p: Processors<B>, from: nat, batches: Seq<B>, count: nat)
    requires
        batches.len() > 0,
    ensures
        all_passed(p, from, batches, count) == passed(p, from, batches[0], 0, count) + all_passed(
            p,
            from + 1,
            batches.drop_first(),
            count,
        ),
    decreases batches.len(),
{
    let init = batches.drop_last();
    let tail = batches.drop_first();
    if init.len() > 0 {
        lemma_first_passed(p, from, init, count);
        assert(tail.drop_last() =~= init.drop_first());
        assert(tail.last() == batches.last());
        assert(init[0] == batches[0]);
    } else {
        assert(all_passed(p, from, init, count) =~= seq![]);
        assert(all_passed(p, from + 1, tail, count) =~= seq![]);
        assert(batches.last() == batches[0]);
    }
    assert(all_passed(p, from, batches, count) =~= passed(p, from, batches[0], 0, count)
        + all_passed(p, from + 1, tail, count));
}

proof fn lemma_send_keeps<B>(
    before: Flow<B>,
    p: Processors<B>,
    processors: usize,
    reporters: usize,
    batch: B,
    after: Flow<B>,
)
    requires
        before.keeps(p, processors, reporters),
        before.moves(p, processors, reporters, FlowEvent::Send(batch), after),
    ensures
        after.keeps(p, processors, reporters),
{
    let n = processors as nat;
    let first = before.first.items();
    assert(before.accepted.len() == before.taken + first.len()) by {
        assert(before.accepted.skip(before.taken as int).len() == first.len());
    }
    if takes(before.first.policy(), before.first.capacity(), first) {
        let items = after.first.items();
        let new = passed(p, before.accepted.len(), batch, 0, n);
        assert(after.accepted.skip(before.taken as int) =~= items);
        assert(after.accepted.drop_last() =~= before.accepted);
        assert(items.drop_last() =~= first);
        assert(all_passed(p, 0, after.accepted, n) == all_passed(p, 0, before.accepted, n) + new);
        assert(all_passed(p, before.taken, items, n) == all_passed(p, before.taken, first, n)
            + new);
        assert forall|j: int| 0 <= j < reporters implies (#[trigger] after.reported[j])
            + after.on_its_way(p, processors, j) == all_passed(p, 0, after.accepted, n) by {
            assert(after.reported[j] + after.on_its_way(p, processors, j) =~= before.reported[j]
                + before.on_its_way(p, processors, j) + new);
        }
    } else {
        assert(after.first.items() == first);
        assert forall|j: int| 0 <= j < reporters implies (#[trigger] after.reported[j])
            + after.on_its_way(p, processors, j) == all_passed(p, 0, after.accepted, n) by {
            assert(after.on_its_way(p, processors, j) == before.on_its_way(p, processors, j));
            assert(after.reported[j] == before.reported[j]);
        }
    }
}

proof fn lemma_return_keeps<B>(
    before: Flow<B>,
    p: Processors<B>,
    processors: usize,
    reporters: usize,
    after: Flow<B>,
)
    requires
        before.keeps(p, processors, reporters),
        before.moves(p, processors, reporters, FlowEvent::Return, after),
    ensures
        after.keeps(p, processors, reporters),
{
    reveal_with_fuel(passed, 3);
    assert(after.in_work(p, processors) == before.in_work(p, processors));
    assert forall|j: int| 0 <= j < reporters implies (#[trigger] after.reported[j])
        + after.on_its_way(p, processors, j) == all_passed(
        p,
        0,
        after.accepted,
        processors as nat,
    ) by {
        assert(after.on_its_way(p, processors, j) == before.on_its_way(p, processors, j));
        assert(after.reported[j] == before.reported[j]);
    }
}

proof fn lemma_take_keeps<B>(
    before: Flow<B>,
    p: Processors<B>,
    processors: usize,
    reporters: usize,
    after: Flow<B>,
)
    requires
        before.keeps(p, processors, reporters),
        before.moves(p, processors, reporters, FlowEvent::Take, after),
    ensures
        after.keeps(p, processors, reporters),
{
    let first = before.first.items();
    lemma_first_passed(p, before.taken, first, processors as nat);
    assert(before.accepted.skip(before.taken as int).len() == first.len());
    assert(after.accepted.skip(after.taken as int) =~= before.accepted.skip(
        before.taken as int,
    ).drop_first());
    assert(after.in_work(p, processors) == passed(
        p,
        before.taken,
        first[0],
        0,
        processors as nat,
    ));
    assert forall|j: int| 0 <= j < reporters implies (#[trigger] after.reported[j])
        + after.on_its_way(p, processors, j) == all_passed(
        p,
        0,
        after.accepted,
        processors as nat,
    ) by {
        assert(before.reported[j] + before.on_its_way(p, processors, j) == all_passed(
            p,
            0,
            before.accepted,
            processors as nat,
        ));
        assert(after.reported[j] + after.on_its_way(p, processors, j) =~= before.reported[j]
            + before.on_its_way(p, processors, j));
    }
}

proof fn lemma_pass_keeps<B>(
    before: Flow<B>,
    p: Processors<B>,
    processors: usize,
    reporters: usize,
    event: FlowEvent<B>,
    after: Flow<B>,
)
    requires
        before.keeps(p, processors, reporters),
        before.moves(p, processors, reporters, event, after),
        event is Forward || event is Drop,
    ensures
        after.keeps(p, processors, reporters),
{
    assert forall|j: int| 0 <= j < reporters implies (#[trigger] after.reported[j])
        + after.on_its_way(p, processors, j) == all_passed(
        p,
        0,
        after.accepted,
        processors as nat,
    ) by {
        assert(before.reported[j] + before.on_its_way(p, processors, j) == all_passed(
            p,
            0,
            before.accepted,
            processors as nat,
        ));
        assert(after.reported[j] + after.on_its_way(p, processors, j) =~= before.reported[j]
            + before.on_its_way(p, processors, j));
    }
}

proof fn lemma_report_keeps<B>(
    before: Flow<B>,
    p: Processors<B>,
    processors: usize,
    reporters: usize,
    event: FlowEvent<B>,
    after: Flow<B>,
)
    requires
        before.keeps(p, processors, reporters),
        before.moves(p, processors, reporters, event, after),
        event is Fetch || event is Submit || event is Finish,
    ensures
        after.keeps(p, processors, reporters),
{
    assert(after.in_work(p, processors) == before.in_work(p, processors));
    assert forall|j: int| 0 <= j < reporters implies (#[trigger] after.reported[j])
        + after.on_its_way(p, processors, j) == all_passed(
        p,
        0,
        after.accepted,
        processors as nat,
    ) by {
        assert(before.reported[j] + before.on_its_way(p, processors, j) == all_passed(
            p,
            0,
            before.accepted,
            processors as nat,
        ));
        assert(after.reported[j] + after.on_its_way(p, processors, j) =~= before.reported[j]
            + before.on_its_way(p, processors, j));
    }
}

proof fn lemma_keeps<B>(
    before: Flow<B>,
    p: Processors<B>,
    processors: usize,
    reporters: usize,
    event: FlowEvent<B>,
    after: Flow<B>,
)
    requires
        before.keeps(p, processors, reporters),
        before.moves(p, processors, reporters, event, after),
    ensures
        after.keeps(p, processors, reporters),
{
    match event {
        FlowEvent::Send(batch) => {
            lemma_send_keeps(before, p, processors, reporters, batch, after);
        },
        FlowEvent::Take => {
            lemma_take_keeps(before, p, processors, reporters, after);
        },
        FlowEvent::Return => {
            lemma_return_keeps(before, p, processors, reporters, after);
        },
        FlowEvent::Forward | FlowEvent::Drop => {
            lemma_pass_keeps(before, p, processors, reporters, event, after);
        },
        _ => {
            lemma_report_keeps(before, p, processors, reporters, event, after);
        },
    }
}

/// Nothing is lost in a pipeline whose channels block, nothing comes twice, and nothing is
/// overtaken: what each reporter has got, followed by what is still on its way to it, is what the
/// processors make of the batches accepted at the sources, without those that one of them refuses.
/// Once nothing is on its way, each reporter has got just that.
pub proof fn every_accepted_batch_is_delivered_once_and_in_order<B>(
    states: Seq<Flow<B>>,
    events: Seq<FlowEvent<B>>,
    p: Processors<B>,
    processors: usize,
    reporters: usize,
    j: int,
)
    requires
        states.len() == events.len() + 1,
        states[0].is_new(reporters),
        forall|i: int|
            0 <= i < events.len() ==> (#[trigger] states[i]).moves(
                p,
                processors,
                reporters,
                events[i],
                states[i + 1],
            ),
        0 <= j < reporters,
    ensures
        ({
            let now = states.last();
            let wanted = all_passed(p, 0, now.accepted, processors as nat);
            &&& now.reported[j] + now.on_its_way(p, processors, j) == wanted
            &&& now.on_its_way(p, processors, j).len() == 0 ==> now.reported[j] == wanted
        }),
{
    lemma_run_keeps(states, events, p, processors, reporters);
    let now = states.last();
    assert(now.reported[j] + now.on_its_way(p, processors, j) == all_passed(
        p,
        0,
        now.accepted,
        processors as nat,
    ));
    if now.on_its_way(p, processors, j).len() == 0 {
        assert(now.reported[j] + now.on_its_way(p, processors, j) =~= now.reported[j]);
    }
}

proof fn lemma_run_keeps<B>(
    states: Seq<Flow<B>>,
    events: Seq<FlowEvent<B>>,
    p: Processors<B>,
    processors: usize,
    reporters: usize,
)
    requires
        states.len() == events.len() + 1,
        states[0].is_new(reporters),
        forall|i: int|
            0 <= i < events.len() ==> (#[trigger] states[i]).moves(
                p,
                processors,
                reporters,
                events[i],
                states[i + 1],
            ),
    ensures
        states.last().keeps(p, processors, reporters),
    decreases events.len(),
{
    let n = events.len() as int;
    if n > 0 {
        let s = states.drop_last();
        let e = events.drop_last();
        assert forall|i: int| 0 <= i < e.len() implies (#[trigger] s[i]).moves(
            p,
            processors,
            reporters,
            e[i],
            s[i + 1],
        ) by {
            assert(states[i].moves(p, processors, reporters, events[i], states[i + 1]));
        }
        lemma_run_keeps(s, e, p, processors, reporters);
        assert(states[n - 1].moves(p, processors, reporters, events[n - 1], states[n]));
        lemma_keeps(states[n - 1], p, processors, reporters, events[n - 1], states[n]);
    } else {
        let now = states[0];
        assert(now.accepted.skip(0) =~= now.first.items());
        assert forall|j: int| 0 <= j < reporters implies (#[trigger] now.reported[j])
            + now.on_its_way(p, processors, j) == all_passed(
            p,
            0,
            now.accepted,
            processors as nat,
        ) by {
            assert(now.reported[j] + now.on_its_way(p, processors, j) =~= all_passed(
                p,
                0,
                now.accepted,
                processors as nat,
            ));
        }
    }
}

/// Where every processor accepts every batch and leaves it as it is, all that was accepted at the
/// sources passes.
pub proof fn untouched_batches_all_pass<B>(p: Processors<B>, batches: Seq<B>, count: nat)
    requires
        forall|number: nat, i: nat, batch: B| #[trigger] p(number, i, batch) == (batch, true),
    ensures
        all_passed(p, 0, batches, count) == batches,
    decreases batches.len(),
{
    if batches.len() > 0 {
        untouched_batches_all_pass(p, batches.drop_last(), count);
        lemma_untouched(p, (batches.len() - 1) as nat, batches.last(), 0, count);
        assert(batches.drop_last() + seq![batches.last()] =~= batches);
    } else {
        assert(all_passed(p, 0, batches, count) =~= batches);
    }
}

proof fn lemma_untouched<B>(p: Processors<B>, number: nat, batch: B, done: nat, count: nat)
    requires
        forall|number: nat, i: nat, batch: B| #[trigger] p(number, i, batch) == (batch, true),
    ensures
        passed(p, number, batch, done, count) == seq![batch],
    decreases count - done,
{
    if done < count {
        assert(p(number, done, batch) == (batch, true));
        lemma_untouched(p, number, batch, done + 1, count);
    }
}

} // verus!
