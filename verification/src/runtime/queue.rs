//! A bounded queue between two pipeline stages, and what it does when it is full.
use std::collections::VecDeque;
use vstd::prelude::*;

verus! {

/// Controls what happens when a pipeline channel reaches capacity.
#[derive(Debug, Clone, Copy, PartialEq, Eq, Structural)]
pub enum BackpressurePolicy {
    /// The sender waits until space is available: nothing is lost.
    Block,
    /// The oldest item in the channel makes room.
    DropOldest,
    /// The incoming item is dropped.
    DropNewest,
}

impl Default for BackpressurePolicy {
    fn default() -> (r: Self)
        ensures
            r == BackpressurePolicy::Block,
    {
        BackpressurePolicy::Block
    }
}

/// Where a send has got to.
pub enum SendStep<T> {
    /// The item is dealt with; `wake_receiver` says whether one waiting receiver is woken.
    Done { wake_receiver: bool },
    /// There is no space: the item is offered again once space has been signalled.
    Wait(T),
    /// The channel was closed while the sender waited.
    Closed(T),
}

/// Where a receive has got to.
pub enum RecvStep<T> {
    /// An item, after which one waiting sender is woken.
    Item(T),
    /// Nothing is there yet.
    Wait,
    /// Nothing is there and nothing will come.
    Closed,
}

/// What the queue holds after an item was sent to it under a policy; with `Block`, where there
/// is space.
pub open spec fn sent<T>(
    policy: BackpressurePolicy,
    capacity: nat,
    items: Seq<T>,
    item: T,
) -> Seq<T> {
    match policy {
        BackpressurePolicy::Block => items.push(item),
        BackpressurePolicy::DropOldest => if items.len() >= capacity && items.len() > 0 {
            items.drop_first().push(item)
        } else {
            items.push(item)
        },
        BackpressurePolicy::DropNewest => if items.len() >= capacity {
            items
        } else {
            items.push(item)
        },
    }
}

/// Whether the queue takes an item that is sent to it now.
pub open spec fn takes<T>(policy: BackpressurePolicy, capacity: nat, items: Seq<T>) -> bool {
    policy is DropOldest || items.len() < capacity
}

/// What happens at the two ends of a channel.
pub enum ChannelEvent<T> {
    Send(T),
    Recv,
    /// Nothing moves: a sender comes or goes, or a closed channel hands an item back.
    Rest,
}

/// The state that the two ends of a channel share.
pub struct BackpressureQueue<T> {
    queue: VecDeque<T>,
    capacity: usize,
    policy: BackpressurePolicy,
    senders_alive: usize,
    closed: bool,
}

impl<T> BackpressureQueue<T> {
    /// The items in the order in which they come out.
    pub closed spec fn items(&self) -> Seq<T> {
        self.queue@
    }

    pub closed spec fn capacity(&self) -> nat {
        self.capacity as nat
    }

    pub closed spec fn policy(&self) -> BackpressurePolicy {
        self.policy
    }

    /// The number of live senders.
    pub closed spec fn senders(&self) -> nat {
        self.senders_alive as nat
    }

    /// Whether the last sender is gone.
    pub closed spec fn is_closed(&self) -> bool {
        self.closed
    }

    /// The queue never holds more than its capacity (one item under `DropOldest` with no
    /// capacity at all), and is closed exactly when no sender is left.
    pub open spec fn wf(&self) -> bool {
        &&& self.is_closed() <==> self.senders() == 0
        &&& self.items().len() <= self.capacity() || (self.policy() is DropOldest
            && self.capacity() == 0 && self.items().len() == 1)
    }

    /// Everything but the items.
    pub open spec fn same_ends(&self, other: &Self) -> bool {
        &&& self.capacity() == other.capacity()
        &&& self.policy() == other.policy()
        &&& self.senders() == other.senders()
        &&& self.is_closed() == other.is_closed()
    }

    /// Whether an event leaves the queue in a state, and an item comes out of it.
    pub open spec fn does(self, event: ChannelEvent<T>, out: Option<T>, after: Self) -> bool {
        &&& after.capacity() == self.capacity()
        &&& after.policy() == self.policy()
        &&& match event {
            ChannelEvent::Send(item) => {
                &&& out is None
                &&& after.items() == (if takes(self.policy(), self.capacity(), self.items()) {
                    sent(self.policy(), self.capacity(), self.items(), item)
                } else {
                    self.items()
                })
            },
            ChannelEvent::Recv => if self.items().len() > 0 {
                out == Some(self.items()[0]) && after.items() == self.items().drop_first()
            } else {
                out is None && after.items() == self.items()
            },
            ChannelEvent::Rest => out is None && after.items() == self.items(),
        }
    }

    /// An empty queue with one sender.
    pub fn new(capacity: usize, policy: BackpressurePolicy) -> (r: Self)
        ensures
            r.wf(),
            r.items() == Seq::<T>::empty(),
            r.capacity() == capacity,
            r.policy() == policy,
            r.senders() == 1,
            !r.is_closed(),
    {
        BackpressureQueue {
            queue: VecDeque::new(),
            capacity,
            policy,
            senders_alive: 1,
            closed: false,
        }
    }

    /// Counts one more sender.
    pub fn add_sender(&mut self)
        requires
            old(self).wf(),
            0 < old(self).senders() < usize::MAX,
        ensures
            final(self).wf(),
            old(self).does(ChannelEvent::Rest, None, *final(self)),
            final(self).senders() == old(self).senders() + 1,
            !final(self).is_closed(),
    {
        self.senders_alive = self.senders_alive + 1;
    }

    /// Counts one sender less. The last one closes the channel, upon which every waiting
    /// receiver is woken: then the result is true.
    pub fn drop_sender(&mut self) -> (wake_receivers: bool)
        requires
            old(self).wf(),
            old(self).senders() > 0,
        ensures
            final(self).wf(),
            old(self).does(ChannelEvent::Rest, None, *final(self)),
            final(self).senders() == old(self).senders() - 1,
            wake_receivers == final(self).is_closed(),
    {
        self.senders_alive = self.senders_alive - 1;
        if self.senders_alive == 0 {
            self.closed = true;
        }
        self.closed
    }

    /// Sends an item under the channel's policy. Only `Block` waits, and only when the queue is
    /// full.
    pub fn send(&mut self, item: T) -> (r: SendStep<T>)
        requires
            old(self).wf(),
        ensures
            final(self).wf(),
            final(self).same_ends(old(self)),
            old(self).does(ChannelEvent::Send(item), None, *final(self)),
            r == (if takes(old(self).policy(), old(self).capacity(), old(self).items()) {
                SendStep::Done { wake_receiver: true }
            } else if old(self).policy() is Block {
                SendStep::Wait(item)
            } else {
                SendStep::Done { wake_receiver: false }
            }),
    {
        match self.policy {
            BackpressurePolicy::Block => {
                if self.queue.len() < self.capacity {
                    self.queue.push_back(item);
                    SendStep::Done { wake_receiver: true }
                } else {
                    SendStep::Wait(item)
                }
            },
            BackpressurePolicy::DropOldest => {
                if self.queue.len() >= self.capacity {
                    let ghost before = self.queue@;
                    let _ = self.queue.pop_front();
                    assert(before.len() > 0 ==> self.queue@ =~= before.drop_first());
                }
                self.queue.push_back(item);
                SendStep::Done { wake_receiver: true }
            },
            BackpressurePolicy::DropNewest => {
                if self.queue.len() >= self.capacity {
                    return SendStep::Done { wake_receiver: false };
                }
                self.queue.push_back(item);
                SendStep::Done { wake_receiver: true }
            },
        }
    }

    /// Offers an item again after a wait: it comes back if the channel was closed meanwhile.
    pub fn resend(&mut self, item: T) -> (r: SendStep<T>)
        requires
            old(self).wf(),
            old(self).policy() is Block,
        ensures
            final(self).wf(),
            final(self).same_ends(old(self)),
            if old(self).is_closed() {
                &&& r == SendStep::Closed(item)
                &&& old(self).does(ChannelEvent::Rest, None, *final(self))
            } else {
                &&& r == (if takes(old(self).policy(), old(self).capacity(), old(self).items()) {
                    SendStep::Done { wake_receiver: true }
                } else {
                    SendStep::Wait(item)
                })
                &&& old(self).does(ChannelEvent::Send(item), None, *final(self))
            },
    {
        if self.closed {
            return SendStep::Closed(item);
        }
        self.send(item)
    }

    /// Receives the oldest item.
    pub fn recv(&mut self) -> (r: RecvStep<T>)
        requires
            old(self).wf(),
        ensures
            final(self).wf(),
            final(self).same_ends(old(self)),
            match r {
                RecvStep::Item(item) => old(self).does(
                    ChannelEvent::Recv,
                    Some(item),
                    *final(self),
                ),
                RecvStep::Wait => !old(self).is_closed() && old(self).does(
                    ChannelEvent::Recv,
                    None,
                    *final(self),
                ),
                RecvStep::Closed => old(self).is_closed() && old(self).does(
                    ChannelEvent::Recv,
                    None,
                    *final(self),
                ),
            },
    {
        let ghost before = self.queue@;
        match self.queue.pop_front() {
            Some(item) => {
                assert(self.queue@ =~= before.drop_first());
                RecvStep::Item(item)
            },
            None => {
                if self.closed {
                    RecvStep::Closed
                } else {
                    RecvStep::Wait
                }
            },
        }
    }

    /// Receives the oldest item if there is one; then one waiting sender is woken.
    pub fn try_recv(&mut self) -> (r: Option<T>)
        requires
            old(self).wf(),
        ensures
            final(self).wf(),
            final(self).same_ends(old(self)),
            old(self).does(ChannelEvent::Recv, r, *final(self)),
    {
        match self.recv() {
            RecvStep::Item(item) => Some(item),
            _ => None,
        }
    }

    /// The number of items in the channel.
    pub fn len(&self) -> (r: usize)
        ensures
            r == self.items().len(),
    {
        self.queue.len()
    }

    pub fn is_empty(&self) -> (r: bool)
        ensures
            r == (self.items().len() == 0),
    {
        self.len() == 0
    }
}

/// What a queue holds after all of `s` was sent to it under a dropping policy.
pub open spec fn all_sent<T>(
    policy: BackpressurePolicy,
    capacity: nat,
    items: Seq<T>,
    s: Seq<T>,
) -> Seq<T>
    decreases s.len(),
{
    if s.len() == 0 {
        items
    } else {
        sent(policy, capacity, all_sent(policy, capacity, items, s.drop_last()), s.last())
    }
}

/// `DropNewest` keeps the history complete from its start: an empty queue to which `s` is sent
/// holds the first items of `s`, as many as it has room for.
pub proof fn drop_newest_keeps_the_first<T>(capacity: nat, s: Seq<T>)
    ensures
        all_sent(BackpressurePolicy::DropNewest, capacity, seq![], s) == s.take(
            if s.len() <= capacity {
                s.len() as int
            } else {
                capacity as int
            },
        ),
    decreases s.len(),
{
    if s.len() > 0 {
        drop_newest_keeps_the_first(capacity, s.drop_last());
        let before = all_sent(BackpressurePolicy::DropNewest, capacity, seq![], s.drop_last());
        if s.len() <= capacity {
            assert(before =~= s.drop_last());
            assert(before.push(s.last()) =~= s.take(s.len() as int));
        } else {
            assert(before =~= s.take(capacity as int));
        }
    } else {
        assert(s.take(0) =~= seq![]);
    }
}

/// `DropOldest` keeps what is recent: an empty queue with room for at least one item to which
/// `s` is sent holds the last items of `s`, as many as it has room for.
pub proof fn drop_oldest_keeps_the_last<T>(capacity: nat, s: Seq<T>)
    requires
        capacity > 0,
    ensures
        all_sent(BackpressurePolicy::DropOldest, capacity, seq![], s) == s.skip(
            if s.len() <= capacity {
                0
            } else {
                s.len() - capacity
            },
        ),
    decreases s.len(),
{
    if s.len() > 0 {
        drop_oldest_keeps_the_last(capacity, s.drop_last());
        let before = all_sent(BackpressurePolicy::DropOldest, capacity, seq![], s.drop_last());
        if s.len() <= capacity {
            assert(before =~= s.drop_last());
            assert(before.push(s.last()) =~= s.skip(0));
        } else {
            assert(before =~= s.drop_last().skip(s.len() - 1 - capacity));
            assert(before.drop_first().push(s.last()) =~= s.skip(s.len() - capacity));
        }
    } else {
        assert(s.skip(0) =~= seq![]);
    }
}

/// What has come out of a channel, and what it still holds.
pub struct ChannelHistory<T> {
    pub accepted: Seq<T>,
    pub received: Seq<T>,
    pub items: Seq<T>,
}

/// One event. A blocking send to a full queue has no effect until it is offered again.
pub open spec fn channel_step<T>(
    policy: BackpressurePolicy,
    capacity: nat,
    h: ChannelHistory<T>,
    event: ChannelEvent<T>,
) -> ChannelHistory<T> {
    match event {
        ChannelEvent::Send(item) => if takes(policy, capacity, h.items) {
            ChannelHistory {
                accepted: h.accepted.push(item),
                received: h.received,
                items: sent(policy, capacity, h.items, item),
            }
        } else {
            h
        },
        ChannelEvent::Recv => if h.items.len() > 0 {
            ChannelHistory {
                accepted: h.accepted,
                received: h.received.push(h.items[0]),
                items: h.items.drop_first(),
            }
        } else {
            h
        },
        ChannelEvent::Rest => h,
    }
}

/// The items among what came out, one entry for each event.
pub open spec fn items_out<T>(outs: Seq<Option<T>>) -> Seq<T>
    decreases outs.len(),
{
    if outs.len() == 0 {
        seq![]
    } else {
        match outs.last() {
            Some(item) => items_out(outs.drop_last()).push(item),
            None => items_out(outs.drop_last()),
        }
    }
}

/// A new channel after a list of events.
pub open spec fn channel_history<T>(
    policy: BackpressurePolicy,
    capacity: nat,
    events: Seq<ChannelEvent<T>>,
) -> ChannelHistory<T>
    decreases events.len(),
{
    if events.len() == 0 {
        ChannelHistory { accepted: seq![], received: seq![], items: seq![] }
    } else {
        channel_step(
            policy,
            capacity,
            channel_history(policy, capacity, events.drop_last()),
            events.last(),
        )
    }
}

/// Whatever is done to a new channel, it holds what its history says, and what came out of it is
/// what its history says was received.
pub proof fn every_run_has_its_history<T>(
    states: Seq<BackpressureQueue<T>>,
    events: Seq<ChannelEvent<T>>,
    outs: Seq<Option<T>>,
)
    requires
        states.len() == events.len() + 1,
        outs.len() == events.len(),
        states[0].items() == Seq::<T>::empty(),
        forall|i: int|
            0 <= i < events.len() ==> (#[trigger] states[i]).does(
                events[i],
                outs[i],
                states[i + 1],
            ),
    ensures
        ({
            let h = channel_history(states[0].policy(), states[0].capacity(), events);
            &&& states.last().items() == h.items
            &&& items_out(outs) == h.received
            &&& states.last().policy() == states[0].policy()
            &&& states.last().capacity() == states[0].capacity()
        }),
    decreases events.len(),
{
    let n = events.len() as int;
    if n > 0 {
        let s = states.drop_last();
        let e = events.drop_last();
        let o = outs.drop_last();
        assert forall|i: int| 0 <= i < e.len() implies (#[trigger] s[i]).does(
            e[i],
            o[i],
            s[i + 1],
        ) by {
            assert(states[i].does(events[i], outs[i], states[i + 1]));
        }
        every_run_has_its_history(s, e, o);
        assert(states[n - 1].does(events[n - 1], outs[n - 1], states[n]));
    }
}

/// Under `Block` and `DropNewest` an accepted item is never lost, and items come out in the
/// order in which they went in: what was received, followed by what is still queued, is what
/// was accepted.
pub proof fn accepted_items_come_out_in_order<T>(
    policy: BackpressurePolicy,
    capacity: nat,
    events: Seq<ChannelEvent<T>>,
)
    requires
        policy !is DropOldest,
    ensures
        channel_history(policy, capacity, events).received + channel_history(
            policy,
            capacity,
            events,
        ).items == channel_history(policy, capacity, events).accepted,
        channel_history(policy, capacity, events).items.len() <= capacity,
    decreases events.len(),
{
    if events.len() > 0 {
        accepted_items_come_out_in_order(policy, capacity, events.drop_last());
        let before = channel_history(policy, capacity, events.drop_last());
        let after = channel_history(policy, capacity, events);
        assert(after.received + after.items =~= after.accepted);
    } else {
        let h = channel_history(policy, capacity, events);
        assert(h.received + h.items =~= h.accepted);
    }
}

/// Under every policy the queue holds the end of what was accepted: with `DropOldest` what goes
/// missing is always older than what stays.
pub proof fn the_queue_holds_the_latest<T>(
    policy: BackpressurePolicy,
    capacity: nat,
    events: Seq<ChannelEvent<T>>,
)
    ensures
        ({
            let h = channel_history(policy, capacity, events);
            &&& h.items.len() <= h.accepted.len()
            &&& h.items == h.accepted.skip(h.accepted.len() - h.items.len())
        }),
    decreases events.len(),
{
    if events.len() > 0 {
        the_queue_holds_the_latest(policy, capacity, events.drop_last());
        let b = channel_history(policy, capacity, events.drop_last());
        let h = channel_history(policy, capacity, events);
        assert(h.items =~= h.accepted.skip(h.accepted.len() - h.items.len()));
    } else {
        let h = channel_history(policy, capacity, events);
        assert(h.items =~= h.accepted.skip(0));
    }
}

} // verus!
