//! In which order the agent's parts are started and stopped, and which of them.
use super::components::{Part, RunFacts, Service, StartAction, StopAction};
use super::config::PacketCaptureType;
use super::state::RunningMode;
use vstd::prelude::*;

verus! {

use super::components::{
    dispatcher_services,
    start_head,
    start_managed,
    start_sequence,
    start_tail,
    stop_sequence,
};

/// Whether the items of a list come in the order of their ranks, all of them from `lo` on and
/// below `hi`; then none comes twice.
pub open spec fn in_turn<A>(s: Seq<A>, rank: spec_fn(A) -> int, lo: int, hi: int) -> bool {
    &&& forall|i: int| 0 <= i < s.len() ==> lo <= rank(#[trigger] s[i]) < hi
    &&& forall|i: int, j: int|
        0 <= i < j < s.len() ==> rank(#[trigger] s[i]) < rank(#[trigger] s[j])
}

proof fn lemma_then<A>(
    a: Seq<A>,
    b: Seq<A>,
    rank: spec_fn(A) -> int,
    lo: int,
    mid: int,
    hi: int,
)
    requires
        in_turn(a, rank, lo, mid),
        in_turn(b, rank, mid, hi),
        lo <= mid <= hi,
    ensures
        in_turn(a + b, rank, lo, hi),
        forall|y: A| #[trigger] (a + b).contains(y) <==> a.contains(y) || b.contains(y),
{
    let s = a + b;
    assert forall|i: int| 0 <= i < s.len() implies lo <= rank(#[trigger] s[i]) < hi by {
        if i < a.len() {
            assert(s[i] == a[i]);
        } else {
            assert(s[i] == b[i - a.len()]);
        }
    }
    assert forall|i: int, j: int| 0 <= i < j < s.len() implies rank(#[trigger] s[i]) < rank(
        #[trigger] s[j],
    ) by {
        if i < a.len() {
            assert(s[i] == a[i]);
        } else {
            assert(s[i] == b[i - a.len()]);
        }
        if j < a.len() {
            assert(s[j] == a[j]);
        } else {
            assert(s[j] == b[j - a.len()]);
        }
    }
    assert forall|y: A| #[trigger] s.contains(y) <==> a.contains(y) || b.contains(y) by {
        if s.contains(y) {
            let i = choose|i: int| 0 <= i < s.len() && s[i] == y;
            if i < a.len() {
                assert(a[i] == y);
            } else {
                assert(b[i - a.len()] == y);
            }
        }
        if a.contains(y) {
            let i = choose|i: int| 0 <= i < a.len() && a[i] == y;
            assert(s[i] == y);
        }
        if b.contains(y) {
            let i = choose|i: int| 0 <= i < b.len() && b[i] == y;
            assert(s[a.len() + i] == y);
        }
    }
}

proof fn lemma_0<A>(rank: spec_fn(A) -> int, lo: int, hi: int)
    requires
        lo <= hi,
    ensures
        in_turn(Seq::<A>::empty(), rank, lo, hi),
        forall|y: A| !(#[trigger] Seq::<A>::empty().contains(y)),
{
}

proof fn lemma_maybe<A>(s: Seq<A>, rank: spec_fn(A) -> int, lo: int, wanted: bool, x: A)
    requires
        rank(x) == lo,
        wanted ==> s == seq![x],
        !wanted ==> s.len() == 0,
    ensures
        in_turn(s, rank, lo, lo + 1),
        forall|y: A| #[trigger] s.contains(y) <==> wanted && y == x,
{
    if wanted {
        lemma_1(s, rank, lo, x);
    }
}

proof fn lemma_1<A>(s: Seq<A>, rank: spec_fn(A) -> int, lo: int, x0: A)
    requires
        s == seq![x0],
        rank(x0) == lo + 0,
    ensures
        in_turn(s, rank, lo, lo + 1),
        forall|y: A| #[trigger] s.contains(y) <==> y == x0,
{
    assert(s[0] == x0);
    assert forall|y: A| #[trigger] s.contains(y) <==> y == x0 by {
        if s.contains(y) {
            let i = choose|i: int| 0 <= i < s.len() && s[i] == y;
            assert(s[i] == y);
        }
    }
}

proof fn lemma_2<A>(s: Seq<A>, rank: spec_fn(A) -> int, lo: int, x0: A, x1: A)
    requires
        s == seq![x0, x1],
        rank(x0) == lo + 0,
        rank(x1) == lo + 1,
    ensures
        in_turn(s, rank, lo, lo + 2),
        forall|y: A| #[trigger] s.contains(y) <==> y == x0 || y == x1,
{
    assert(s[0] == x0);
    assert(s[1] == x1);
    assert forall|y: A| #[trigger] s.contains(y) <==> y == x0 || y == x1 by {
        if s.contains(y) {
            let i = choose|i: int| 0 <= i < s.len() && s[i] == y;
            assert(s[i] == y);
        }
    }
}

proof fn lemma_4<A>(s: Seq<A>, rank: spec_fn(A) -> int, lo: int, x0: A, x1: A, x2: A, x3: A)
    requires
        s == seq![x0, x1, x2, x3],
        rank(x0) == lo + 0,
        rank(x1) == lo + 1,
        rank(x2) == lo + 2,
        rank(x3) == lo + 3,
    ensures
        in_turn(s, rank, lo, lo + 4),
        forall|y: A| #[trigger] s.contains(y) <==> y == x0 || y == x1 || y == x2 || y == x3,
{
    assert(s[0] == x0);
    assert(s[1] == x1);
    assert(s[2] == x2);
    assert(s[3] == x3);
    assert forall|y: A| #[trigger] s.contains(y) <==> y == x0 || y == x1 || y == x2 || y == x3 by {
        if s.contains(y) {
            let i = choose|i: int| 0 <= i < s.len() && s[i] == y;
            assert(s[i] == y);
        }
    }
}

proof fn lemma_5<A>(s: Seq<A>, rank: spec_fn(A) -> int, lo: int, x0: A, x1: A, x2: A, x3: A, x4: A)
    requires
        s == seq![x0, x1, x2, x3, x4],
        rank(x0) == lo + 0,
        rank(x1) == lo + 1,
        rank(x2) == lo + 2,
        rank(x3) == lo + 3,
        rank(x4) == lo + 4,
    ensures
        in_turn(s, rank, lo, lo + 5),
        forall|y: A| #[trigger] s.contains(y) <==> y == x0 || y == x1 || y == x2 || y == x3 || y == x4,
{
    assert(s[0] == x0);
    assert(s[1] == x1);
    assert(s[2] == x2);
    assert(s[3] == x3);
    assert(s[4] == x4);
    assert forall|y: A| #[trigger] s.contains(y) <==> y == x0 || y == x1 || y == x2 || y == x3 || y == x4 by {
        if s.contains(y) {
            let i = choose|i: int| 0 <= i < s.len() && s[i] == y;
            assert(s[i] == y);
        }
    }
}

proof fn lemma_6<A>(s: Seq<A>, rank: spec_fn(A) -> int, lo: int, x0: A, x1: A, x2: A, x3: A, x4: A, x5: A)
    requires
        s == seq![x0, x1, x2, x3, x4, x5],
        rank(x0) == lo + 0,
        rank(x1) == lo + 1,
        rank(x2) == lo + 2,
        rank(x3) == lo + 3,
        rank(x4) == lo + 4,
        rank(x5) == lo + 5,
    ensures
        in_turn(s, rank, lo, lo + 6),
        forall|y: A| #[trigger] s.contains(y) <==> y == x0 || y == x1 || y == x2 || y == x3 || y == x4 || y == x5,
{
    assert(s[0] == x0);
    assert(s[1] == x1);
    assert(s[2] == x2);
    assert(s[3] == x3);
    assert(s[4] == x4);
    assert(s[5] == x5);
    assert forall|y: A| #[trigger] s.contains(y) <==> y == x0 || y == x1 || y == x2 || y == x3 || y == x4 || y == x5 by {
        if s.contains(y) {
            let i = choose|i: int| 0 <= i < s.len() && s[i] == y;
            assert(s[i] == y);
        }
    }
}

proof fn lemma_8<A>(s: Seq<A>, rank: spec_fn(A) -> int, lo: int, x0: A, x1: A, x2: A, x3: A, x4: A, x5: A, x6: A, x7: A)
    requires
        s == seq![x0, x1, x2, x3, x4, x5, x6, x7],
        rank(x0) == lo + 0,
        rank(x1) == lo + 1,
        rank(x2) == lo + 2,
        rank(x3) == lo + 3,
        rank(x4) == lo + 4,
        rank(x5) == lo + 5,
        rank(x6) == lo + 6,
        rank(x7) == lo + 7,
    ensures
        in_turn(s, rank, lo, lo + 8),
        forall|y: A| #[trigger] s.contains(y) <==> y == x0 || y == x1 || y == x2 || y == x3 || y == x4 || y == x5 || y == x6 || y == x7,
{
    assert(s[0] == x0);
    assert(s[1] == x1);
    assert(s[2] == x2);
    assert(s[3] == x3);
    assert(s[4] == x4);
    assert(s[5] == x5);
    assert(s[6] == x6);
    assert(s[7] == x7);
    assert forall|y: A| #[trigger] s.contains(y) <==> y == x0 || y == x1 || y == x2 || y == x3 || y == x4 || y == x5 || y == x6 || y == x7 by {
        if s.contains(y) {
            let i = choose|i: int| 0 <= i < s.len() && s[i] == y;
            assert(s[i] == y);
        }
    }
}

/// The place of a part among all that are started.
pub open spec fn start_place(part: Part) -> int {
    match part {
        Part::StatsCollector => 0,
        Part::SocketSynchronizer => 1,
        Part::KubernetesPoller => 2,
        Part::Debugger => 3,
        Part::MetricsSender => 4,
        Part::L7FlowSender => 5,
        Part::L4FlowSender => 6,
        Part::PacketSequenceSender => 7,
        Part::Dispatchers => 8,
        Part::EbpfDispatcher => 9,
        Part::OtelSender => 10,
        Part::CompressedOtelSender => 11,
        Part::PrometheusSender => 12,
        Part::TelegrafSender => 13,
        Part::ProfileSender => 14,
        Part::ProcEventSender => 15,
        Part::ApplicationLogSender => 16,
        Part::SkywalkingSender => 17,
        Part::DatadogSender => 18,
        Part::MetricsServer => 19,
        Part::PcapBatchSender => 20,
        Part::NpbBandwidthWatcher => 21,
        Part::NpbArpTable => 22,
        Part::Vector => 23,
        Part::ProcessListener => 24,
    }
}

/// Whether a part is started. What takes data for a controller is started only where there is one,
/// and what belongs to an edition or to a configuration only there.
pub open spec fn part_is_started(f: RunFacts, part: Part) -> bool {
    let managed = f.agent_mode == RunningMode::Managed;
    match part {
        Part::KubernetesPoller => f.is_pod_agent,
        Part::EbpfDispatcher => f.ebpf_present,
        Part::Vector => f.features.integration,
        Part::OtelSender
        | Part::CompressedOtelSender
        | Part::PrometheusSender
        | Part::TelegrafSender
        | Part::ProfileSender
        | Part::ApplicationLogSender
        | Part::DatadogSender
        | Part::PcapBatchSender => managed,
        Part::ProcEventSender => managed && f.features.libtrace,
        Part::SkywalkingSender => managed && f.features.integration,
        Part::MetricsServer => managed && f.metric_server_enabled,
        _ => true,
    }
}

/// Whether free memory is looked at before the dispatchers are started: neither an analyzer nor a
/// container nor control groups stand in for that.
pub open spec fn memory_is_looked_at(f: RunFacts) -> bool {
    f.capture_mode != PacketCaptureType::Analyzer && !f.in_container && !f.kernel_has_cgroups
}

/// The place of an action among all that start the agent.
pub open spec fn start_turn(a: StartAction) -> int {
    match a {
        StartAction::Start(part) => start_place(part),
        StartAction::StartDispatchersIfMemoryIsFree => start_place(Part::Dispatchers),
    }
}

/// Whether an action is among those that start the agent.
pub open spec fn starts(f: RunFacts, a: StartAction) -> bool {
    match a {
        StartAction::Start(Part::Dispatchers) => !memory_is_looked_at(f),
        StartAction::Start(part) => part_is_started(f, part),
        StartAction::StartDispatchersIfMemoryIsFree => memory_is_looked_at(f),
    }
}

proof fn lemma_head(f: RunFacts)
    ensures
        in_turn(start_head(f), |a: StartAction| start_turn(a), 0, 10),
        forall|a: StartAction|
            #[trigger] start_head(f).contains(a) <==> 0 <= start_turn(a) < 10 && starts(f, a),
{
    let rank = |a: StartAction| start_turn(a);
    let s0 = seq![StartAction::Start(Part::StatsCollector), StartAction::Start(Part::SocketSynchronizer)];
    lemma_2(s0, rank, 0, StartAction::Start(Part::StatsCollector), StartAction::Start(Part::SocketSynchronizer));
    let s1 = if f.is_pod_agent {
        seq![StartAction::Start(Part::KubernetesPoller)]
    } else {
        seq![]
    };
    lemma_maybe(s1, rank, 2, f.is_pod_agent, StartAction::Start(Part::KubernetesPoller));
    let s2 = seq![StartAction::Start(Part::Debugger), StartAction::Start(Part::MetricsSender), StartAction::Start(Part::L7FlowSender), StartAction::Start(Part::L4FlowSender), StartAction::Start(Part::PacketSequenceSender)];
    lemma_5(s2, rank, 3, StartAction::Start(Part::Debugger), StartAction::Start(Part::MetricsSender), StartAction::Start(Part::L7FlowSender), StartAction::Start(Part::L4FlowSender), StartAction::Start(Part::PacketSequenceSender));
    let d = if f.checks_memory() {
        StartAction::StartDispatchersIfMemoryIsFree
    } else {
        StartAction::Start(Part::Dispatchers)
    };
    let s3 = seq![d];
    lemma_1(s3, rank, 8, d);
    let s4 = if f.ebpf_present {
        seq![StartAction::Start(Part::EbpfDispatcher)]
    } else {
        seq![]
    };
    lemma_maybe(s4, rank, 9, f.ebpf_present, StartAction::Start(Part::EbpfDispatcher));
    lemma_then(s0, s1, rank, 0, 2, 3);
    lemma_then(s0 + s1, s2, rank, 0, 3, 8);
    lemma_then(s0 + s1 + s2, s3, rank, 0, 8, 9);
    lemma_then(s0 + s1 + s2 + s3, s4, rank, 0, 9, 10);
    assert(start_head(f) =~= s0 + s1 + s2 + s3 + s4);
}

proof fn lemma_managed(f: RunFacts)
    ensures
        in_turn(start_managed(f), |a: StartAction| start_turn(a), 10, 21),
        forall|a: StartAction|
            #[trigger] start_managed(f).contains(a) <==> 10 <= start_turn(a) < 21 && (f.agent_mode
                == RunningMode::Managed ==> starts(f, a)) && (f.agent_mode != RunningMode::Managed ==> starts(
                RunFacts { agent_mode: RunningMode::Managed, ..f },
                a,
            )),
{
    let rank = |a: StartAction| start_turn(a);
    let s0 = seq![StartAction::Start(Part::OtelSender), StartAction::Start(Part::CompressedOtelSender), StartAction::Start(Part::PrometheusSender), StartAction::Start(Part::TelegrafSender), StartAction::Start(Part::ProfileSender)];
    lemma_5(s0, rank, 10, StartAction::Start(Part::OtelSender), StartAction::Start(Part::CompressedOtelSender), StartAction::Start(Part::PrometheusSender), StartAction::Start(Part::TelegrafSender), StartAction::Start(Part::ProfileSender));
    let s1 = if f.features.libtrace {
        seq![StartAction::Start(Part::ProcEventSender)]
    } else {
        seq![]
    };
    lemma_maybe(s1, rank, 15, f.features.libtrace, StartAction::Start(Part::ProcEventSender));
    let s2 = seq![StartAction::Start(Part::ApplicationLogSender)];
    lemma_1(s2, rank, 16, StartAction::Start(Part::ApplicationLogSender));
    let s3 = if f.features.integration {
        seq![StartAction::Start(Part::SkywalkingSender)]
    } else {
        seq![]
    };
    lemma_maybe(s3, rank, 17, f.features.integration, StartAction::Start(Part::SkywalkingSender));
    let s4 = seq![StartAction::Start(Part::DatadogSender)];
    lemma_1(s4, rank, 18, StartAction::Start(Part::DatadogSender));
    let s5 = if f.metric_server_enabled {
        seq![StartAction::Start(Part::MetricsServer)]
    } else {
        seq![]
    };
    lemma_maybe(s5, rank, 19, f.metric_server_enabled, StartAction::Start(Part::MetricsServer));
    let s6 = seq![StartAction::Start(Part::PcapBatchSender)];
    lemma_1(s6, rank, 20, StartAction::Start(Part::PcapBatchSender));
    lemma_then(s0, s1, rank, 10, 15, 16);
    lemma_then(s0 + s1, s2, rank, 10, 16, 17);
    lemma_then(s0 + s1 + s2, s3, rank, 10, 17, 18);
    lemma_then(s0 + s1 + s2 + s3, s4, rank, 10, 18, 19);
    lemma_then(s0 + s1 + s2 + s3 + s4, s5, rank, 10, 19, 20);
    lemma_then(s0 + s1 + s2 + s3 + s4 + s5, s6, rank, 10, 20, 21);
    assert(start_managed(f) =~= s0 + s1 + s2 + s3 + s4 + s5 + s6);
}

proof fn lemma_tail(f: RunFacts)
    ensures
        in_turn(start_tail(f), |a: StartAction| start_turn(a), 21, 25),
        forall|a: StartAction|
            #[trigger] start_tail(f).contains(a) <==> 21 <= start_turn(a) < 25 && starts(f, a),
{
    let rank = |a: StartAction| start_turn(a);
    let s0 = seq![StartAction::Start(Part::NpbBandwidthWatcher), StartAction::Start(Part::NpbArpTable)];
    lemma_2(s0, rank, 21, StartAction::Start(Part::NpbBandwidthWatcher), StartAction::Start(Part::NpbArpTable));
    let s1 = if f.features.integration {
        seq![StartAction::Start(Part::Vector)]
    } else {
        seq![]
    };
    lemma_maybe(s1, rank, 23, f.features.integration, StartAction::Start(Part::Vector));
    let s2 = seq![StartAction::Start(Part::ProcessListener)];
    lemma_1(s2, rank, 24, StartAction::Start(Part::ProcessListener));
    lemma_then(s0, s1, rank, 21, 23, 24);
    lemma_then(s0 + s1, s2, rank, 21, 24, 25);
    assert(start_tail(f) =~= s0 + s1 + s2);
}

/// Starting the agent starts what belongs to it and nothing else, each part once and in its turn.
pub proof fn parts_are_started_in_turn(f: RunFacts, a: StartAction)
    ensures
        start_sequence(f).contains(a) <==> starts(f, a),
        in_turn(start_sequence(f), |a: StartAction| start_turn(a), 0, 25),
{
    let rank = |a: StartAction| start_turn(a);
    lemma_head(f);
    lemma_managed(f);
    lemma_tail(f);
    let m = if f.agent_mode == RunningMode::Managed {
        start_managed(f)
    } else {
        seq![]
    };
    lemma_0::<StartAction>(rank, 10, 21);
    lemma_then(start_head(f), m, rank, 0, 10, 21);
    lemma_then(start_head(f) + m, start_tail(f), rank, 0, 21, 25);
}

/// The place of a part among all that are stopped.
pub open spec fn stop_place(part: Part) -> int {
    match part {
        Part::Dispatchers => 1,
        Part::SocketSynchronizer => 2,
        Part::KubernetesPoller => 3,
        Part::L4FlowSender => 4,
        Part::MetricsSender => 5,
        Part::L7FlowSender => 6,
        Part::Debugger => 7,
        Part::EbpfDispatcher => 8,
        Part::MetricsServer => 9,
        Part::OtelSender => 10,
        Part::CompressedOtelSender => 11,
        Part::PrometheusSender => 12,
        Part::TelegrafSender => 13,
        Part::ProfileSender => 14,
        Part::ProcEventSender => 15,
        Part::PcapBatchSender => 16,
        Part::ApplicationLogSender => 17,
        Part::SkywalkingSender => 18,
        Part::DatadogSender => 19,
        Part::PacketSequenceSender => 20,
        Part::NpbBandwidthWatcher => 21,
        Part::NpbArpTable => 22,
        Part::StatsCollector => 23,
        Part::ProcessListener => 24,
        Part::Vector => 25,
    }
}

/// The place of an action among all that stop the agent.
pub open spec fn stop_turn(a: StopAction) -> int {
    match a {
        StopAction::ResetPolicyQueues => 0,
        StopAction::Stop(part) => stop_place(part),
        StopAction::NotifyStop(part) => stop_place(part),
        StopAction::JoinAll => 26,
    }
}

/// Whether a part is stopped at once rather than told to stop and waited for at the end.
pub open spec fn stops_at_once(part: Part) -> bool {
    part == Part::Dispatchers || part == Part::SocketSynchronizer || part == Part::KubernetesPoller
        || part == Part::Debugger || part == Part::EbpfDispatcher || part == Part::MetricsServer
}

/// Whether a part of the agent is there to be stopped.
pub open spec fn part_is_stopped(f: RunFacts, part: Part) -> bool {
    match part {
        Part::EbpfDispatcher => f.ebpf_present,
        Part::ProcEventSender => f.features.libtrace,
        Part::SkywalkingSender | Part::Vector => f.features.integration,
        _ => true,
    }
}

/// Whether an action is among those that stop the agent.
pub open spec fn stops(f: RunFacts, a: StopAction) -> bool {
    match a {
        StopAction::ResetPolicyQueues => true,
        StopAction::Stop(part) => stops_at_once(part) && part_is_stopped(f, part),
        StopAction::NotifyStop(part) => !stops_at_once(part) && part_is_stopped(f, part),
        StopAction::JoinAll => true,
    }
}

spec fn stop_first(f: RunFacts) -> Seq<StopAction> {
    seq![
        StopAction::ResetPolicyQueues,
        StopAction::Stop(Part::Dispatchers),
        StopAction::Stop(Part::SocketSynchronizer),
        StopAction::Stop(Part::KubernetesPoller),
        StopAction::NotifyStop(Part::L4FlowSender),
        StopAction::NotifyStop(Part::MetricsSender),
        StopAction::NotifyStop(Part::L7FlowSender),
        StopAction::Stop(Part::Debugger),
    ] + (if f.ebpf_present {
        seq![StopAction::Stop(Part::EbpfDispatcher)]
    } else {
        seq![]
    }) + seq![
        StopAction::Stop(Part::MetricsServer),
        StopAction::NotifyStop(Part::OtelSender),
        StopAction::NotifyStop(Part::CompressedOtelSender),
        StopAction::NotifyStop(Part::PrometheusSender),
        StopAction::NotifyStop(Part::TelegrafSender),
        StopAction::NotifyStop(Part::ProfileSender),
    ] + (if f.features.libtrace {
        seq![StopAction::NotifyStop(Part::ProcEventSender)]
    } else {
        seq![]
    })
}

proof fn lemma_stop_first(f: RunFacts)
    ensures
        in_turn(stop_first(f), |a: StopAction| stop_turn(a), 0, 16),
        forall|a: StopAction|
            #[trigger] stop_first(f).contains(a) <==> 0 <= stop_turn(a) < 16 && stops(f, a),
{
    let rank = |a: StopAction| stop_turn(a);
    let s0 = seq![
        StopAction::ResetPolicyQueues,
        StopAction::Stop(Part::Dispatchers),
        StopAction::Stop(Part::SocketSynchronizer),
        StopAction::Stop(Part::KubernetesPoller),
        StopAction::NotifyStop(Part::L4FlowSender),
        StopAction::NotifyStop(Part::MetricsSender),
        StopAction::NotifyStop(Part::L7FlowSender),
        StopAction::Stop(Part::Debugger),
    ];
    lemma_8(
        s0,
        rank,
        0,
        StopAction::ResetPolicyQueues,
        StopAction::Stop(Part::Dispatchers),
        StopAction::Stop(Part::SocketSynchronizer),
        StopAction::Stop(Part::KubernetesPoller),
        StopAction::NotifyStop(Part::L4FlowSender),
        StopAction::NotifyStop(Part::MetricsSender),
        StopAction::NotifyStop(Part::L7FlowSender),
        StopAction::Stop(Part::Debugger),
    );
    let s1 = if f.ebpf_present {
        seq![StopAction::Stop(Part::EbpfDispatcher)]
    } else {
        seq![]
    };
    lemma_maybe(s1, rank, 8, f.ebpf_present, StopAction::Stop(Part::EbpfDispatcher));
    let s2 = seq![
        StopAction::Stop(Part::MetricsServer),
        StopAction::NotifyStop(Part::OtelSender),
        StopAction::NotifyStop(Part::CompressedOtelSender),
        StopAction::NotifyStop(Part::PrometheusSender),
        StopAction::NotifyStop(Part::TelegrafSender),
        StopAction::NotifyStop(Part::ProfileSender),
    ];
    lemma_6(
        s2,
        rank,
        9,
        StopAction::Stop(Part::MetricsServer),
        StopAction::NotifyStop(Part::OtelSender),
        StopAction::NotifyStop(Part::CompressedOtelSender),
        StopAction::NotifyStop(Part::PrometheusSender),
        StopAction::NotifyStop(Part::TelegrafSender),
        StopAction::NotifyStop(Part::ProfileSender),
    );
    let s3 = if f.features.libtrace {
        seq![StopAction::NotifyStop(Part::ProcEventSender)]
    } else {
        seq![]
    };
    lemma_maybe(s3, rank, 15, f.features.libtrace, StopAction::NotifyStop(Part::ProcEventSender));
    lemma_then(s0, s1, rank, 0, 8, 9);
    lemma_then(s0 + s1, s2, rank, 0, 9, 15);
    lemma_then(s0 + s1 + s2, s3, rank, 0, 15, 16);
    assert(stop_first(f) =~= s0 + s1 + s2 + s3);
}

spec fn stop_second(f: RunFacts) -> Seq<StopAction> {
    seq![
        StopAction::NotifyStop(Part::PcapBatchSender),
        StopAction::NotifyStop(Part::ApplicationLogSender),
    ] + (if f.features.integration {
        seq![StopAction::NotifyStop(Part::SkywalkingSender)]
    } else {
        seq![]
    }) + seq![
        StopAction::NotifyStop(Part::DatadogSender),
        StopAction::NotifyStop(Part::PacketSequenceSender),
        StopAction::NotifyStop(Part::NpbBandwidthWatcher),
        StopAction::NotifyStop(Part::NpbArpTable),
        StopAction::NotifyStop(Part::StatsCollector),
        StopAction::NotifyStop(Part::ProcessListener),
    ] + (if f.features.integration {
        seq![StopAction::NotifyStop(Part::Vector)]
    } else {
        seq![]
    }) + seq![
        StopAction::JoinAll,
    ]
}

proof fn lemma_stop_second(f: RunFacts)
    ensures
        in_turn(stop_second(f), |a: StopAction| stop_turn(a), 16, 27),
        forall|a: StopAction|
            #[trigger] stop_second(f).contains(a) <==> 16 <= stop_turn(a) < 27 && stops(f, a),
{
    let rank = |a: StopAction| stop_turn(a);
    let s0 = seq![
        StopAction::NotifyStop(Part::PcapBatchSender),
        StopAction::NotifyStop(Part::ApplicationLogSender),
    ];
    lemma_2(
        s0,
        rank,
        16,
        StopAction::NotifyStop(Part::PcapBatchSender),
        StopAction::NotifyStop(Part::ApplicationLogSender),
    );
    let s1 = if f.features.integration {
        seq![StopAction::NotifyStop(Part::SkywalkingSender)]
    } else {
        seq![]
    };
    lemma_maybe(s1, rank, 18, f.features.integration, StopAction::NotifyStop(Part::SkywalkingSender));
    let s2 = seq![
        StopAction::NotifyStop(Part::DatadogSender),
        StopAction::NotifyStop(Part::PacketSequenceSender),
        StopAction::NotifyStop(Part::NpbBandwidthWatcher),
        StopAction::NotifyStop(Part::NpbArpTable),
        StopAction::NotifyStop(Part::StatsCollector),
        StopAction::NotifyStop(Part::ProcessListener),
    ];
    lemma_6(
        s2,
        rank,
        19,
        StopAction::NotifyStop(Part::DatadogSender),
        StopAction::NotifyStop(Part::PacketSequenceSender),
        StopAction::NotifyStop(Part::NpbBandwidthWatcher),
        StopAction::NotifyStop(Part::NpbArpTable),
        StopAction::NotifyStop(Part::StatsCollector),
        StopAction::NotifyStop(Part::ProcessListener),
    );
    let s3 = if f.features.integration {
        seq![StopAction::NotifyStop(Part::Vector)]
    } else {
        seq![]
    };
    lemma_maybe(s3, rank, 25, f.features.integration, StopAction::NotifyStop(Part::Vector));
    let s4 = seq![
        StopAction::JoinAll,
    ];
    lemma_1(
        s4,
        rank,
        26,
        StopAction::JoinAll,
    );
    lemma_then(s0, s1, rank, 16, 18, 19);
    lemma_then(s0 + s1, s2, rank, 16, 19, 25);
    lemma_then(s0 + s1 + s2, s3, rank, 16, 25, 26);
    lemma_then(s0 + s1 + s2 + s3, s4, rank, 16, 26, 27);
    assert(stop_second(f) =~= s0 + s1 + s2 + s3 + s4);
}

/// Stopping the agent stops every part that is there, each once and in its turn: the policy queues
/// go first, and what was told to stop is waited for at the end.
pub proof fn parts_are_stopped_in_turn(f: RunFacts, a: StopAction)
    ensures
        stop_sequence(f).contains(a) <==> stops(f, a),
        in_turn(stop_sequence(f), |a: StopAction| stop_turn(a), 0, 27),
{
    let rank = |a: StopAction| stop_turn(a);
    lemma_stop_first(f);
    lemma_stop_second(f);
    lemma_then(stop_first(f), stop_second(f), rank, 0, 16, 27);
    assert(stop_sequence(f) =~= stop_first(f) + stop_second(f));
}

/// A dispatcher has six services of its own, and then one for each of its packet handlers.
pub proof fn a_dispatcher_has_all_its_services(handlers: nat, i: int)
    requires
        0 <= i < handlers <= usize::MAX,
    ensures
        dispatcher_services(handlers).len() == 6 + handlers,
        dispatcher_services(handlers)[0] == Service::Dispatcher,
        dispatcher_services(handlers)[1] == Service::SessionAggregator,
        dispatcher_services(handlers)[2] == Service::Collector,
        dispatcher_services(handlers)[3] == Service::L7Collector,
        dispatcher_services(handlers)[4] == Service::PacketSequenceParser,
        dispatcher_services(handlers)[5] == Service::PcapAssembler,
        dispatcher_services(handlers)[6 + i] == Service::Handler(i as usize),
{
}

} // verus!
