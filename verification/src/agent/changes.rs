//! What a dispatcher is set up with, what a new configuration changes, and what the agent has.
use super::assembly::{AgentPlan, BuildContext, ComponentChange, DispatcherBuild};
use super::components::{AgentComponents, DispatcherComponent, QueuePlan};
use super::config::{DispatcherConfig, DpdkSource, ModuleConfig, PacketCaptureType};
use super::dispatcher::{
    DispatcherPlan, LocalChange, MirrorChange, Notice, PacketHandler, Reconciliation,
};
use super::domain::INTERVAL;
use super::link::{Link, NsFile};
use super::startup::{LaunchFacts, StaticConfig};
use super::state::{InnerState, RunningMode, State};
use vstd::prelude::*;

verus! {

use super::assembly::links_in;
use super::components::{flow_delay, queues_of, retained, senders_of};
use super::dispatcher::{missing_from, none_kept, same_types, sets_up, source_of};
use super::domain::{address_after, has_moved};
use super::interfaces::{
    checked_on_capture,
    checked_on_host,
    checks_of,
    packets_limited_to,
    planned_fanout,
    planned_inputs,
    policy_queues,
    runs_ebpf,
    InputView,
};
use super::link::{links_of, text_leq, LinkView, NsView};
use super::startup::hostname_of;
use crate::sort::{is_sorted, Sortable};

/// A dispatcher stands for its first interface. It opens all of its interfaces, unless DPDK serves
/// it off the host; it waits where there is a controller, and hands packets first to the capture
/// and then to the broker. Capture files are not assembled in the community edition.
pub proof fn a_dispatcher_is_set_up_for_its_interfaces(
    r: DispatcherPlan,
    id: usize,
    links: Seq<LinkView>,
    c: ModuleConfig,
    agent_mode: RunningMode,
    edition: Seq<char>,
    fanout_enabled: bool,
)
    requires
        sets_up(r, id, links, c, agent_mode, edition, fanout_enabled),
    ensures
        r.id == id,
        links.len() > 0 ==> r.src_link@ == links[0],
        links.len() == 0 ==> r.src_link@.name.len() == 0 && r.src_link@.if_index == 0
            && r.src_link@.mac_addr == 0,
        c.dispatcher.capture_mode == PacketCaptureType::Local ==> links_of(r.pcap_interfaces@)
            == links,
        c.user_config.dpdk_source == DpdkSource::Off ==> links_of(r.pcap_interfaces@) == links,
        c.dispatcher.capture_mode != PacketCaptureType::Local && c.user_config.dpdk_source
            != DpdkSource::Off ==> links_of(r.pcap_interfaces@).len() == 0,
        agent_mode == RunningMode::Managed <==> r.pause,
        c.dispatcher.capture_mode == PacketCaptureType::Local || fanout_enabled
            ==> r.src_interface@.len() == 0,
        c.dispatcher.capture_mode != PacketCaptureType::Local && !fanout_enabled
            ==> r.src_interface@ == r.src_link@.name,
        edition == "zerotrace-agent-ce"@ <==> !r.pcap_assembler_enabled,
        r.handlers@.len() == 2,
        r.handlers@[0] == PacketHandler::Pcap,
        r.handlers@[1] == PacketHandler::Npb,
        r.fanout_enabled == fanout_enabled,
{
}

/// Each thing that a dispatcher is told is told as it is.
pub proof fn a_dispatcher_is_told_the_truth(
    n: Notice,
    id: usize,
    links: Seq<LinkView>,
    config: DispatcherConfig,
    blacklist: Seq<u64>,
    vm_mac_addrs: Seq<u64>,
    gateway_vmac_addrs: Seq<u64>,
)
    requires
        n.tells(id, links, config, blacklist, vm_mac_addrs, gateway_vmac_addrs),
    ensures
        n.id == id,
        links_of(n.links@) == links,
        n.if_mac_source == config.if_mac_source,
        n.agent_type == config.agent_type,
        n.blacklist@ == blacklist,
        n.vm_mac_addrs@ == vm_mac_addrs,
        n.gateway_vmac_addrs@ == gateway_vmac_addrs,
{
}

/// Where inner interfaces are captured every dispatcher stays; else those stay that still have
/// interfaces. One is built exactly when none stays and there is something to capture, and it gets
/// the next number.
pub proof fn local_dispatchers_stay_with_their_interfaces(
    r: LocalChange,
    c: ModuleConfig,
    found: Seq<Vec<Link>>,
    root: Seq<Link>,
    last_id: usize,
    i: int,
)
    requires
        r.follows(c, found, root, last_id),
        last_id < usize::MAX,
        0 <= i < found.len(),
    ensures
        r.keep@.len() == found.len(),
        found[i]@.len() > 0 ==> r.keep@[i],
        c.dispatcher.inner_interface_capture_enabled ==> r.keep@[i],
        found[i]@.len() == 0 && !c.dispatcher.inner_interface_capture_enabled ==> !r.keep@[i],
        r.keep@[i] ==> r.build is None && r.last_id == last_id,
        r.build matches Some(id) ==> id == last_id + 1 && r.last_id == last_id + 1 && (root.len()
            > 0 || c.dispatcher.inner_interface_capture_enabled),
        r.build is None ==> r.last_id == last_id,
{
    if r.keep@[i] {
        assert(!none_kept(r.keep@));
    }
}

/// An agent without dispatchers builds one as soon as there is something to capture.
pub proof fn an_idle_local_agent_builds_a_dispatcher(
    r: LocalChange,
    c: ModuleConfig,
    found: Seq<Vec<Link>>,
    root: Seq<Link>,
    last_id: usize,
)
    requires
        r.follows(c, found, root, last_id),
        last_id < usize::MAX,
        forall|i: int| 0 <= i < found.len() ==> (#[trigger] found[i])@.len() == 0,
        !c.dispatcher.inner_interface_capture_enabled || found.len() == 0,
    ensures
        r.build is Some <==> root.len() > 0 || c.dispatcher.inner_interface_capture_enabled,
{
    assert forall|i: int| 0 <= i < r.keep@.len() implies !#[trigger] r.keep@[i] by {
        assert(found[i]@.len() == 0);
    }
    assert(none_kept(r.keep@));
}

/// Off the host a dispatcher stays exactly when its interface is still there, and one is built for
/// each interface that was not there before; their numbers follow the last one, and there is a
/// queue for every number given so far. Capture network types are taken over from a physical
/// mirror alone.
pub proof fn mirror_dispatchers_follow_the_interfaces(
    r: MirrorChange,
    c: ModuleConfig,
    dispatchers: Seq<DispatcherComponent>,
    current: Seq<LinkView>,
    tap: Seq<LinkView>,
    last_id: usize,
    plan: Reconciliation,
    i: int,
    x: LinkView,
)
    requires
        r.follows(c, dispatchers, current, tap, last_id),
        r.reconciliation == Some(plan),
        0 <= i < dispatchers.len(),
    ensures
        plan.keep@.len() == dispatchers.len(),
        plan.keep@[i] <==> current.contains(dispatchers[i].src_link@),
        links_of(plan.build@).contains(x) <==> current.contains(x) && !tap.contains(x),
        links_of(plan.tap_interfaces@).to_multiset() == current.to_multiset(),
        is_sorted(plan.tap_interfaces@),
        plan.last_id == last_id + plan.build@.len(),
        plan.queue_count == plan.last_id + 1,
        c.user_config.vhost_socket_path@.len() == 0,
        c.dispatcher.dpdk_source == DpdkSource::Off,
        r.parse_tap_types <==> c.dispatcher.capture_mode == PacketCaptureType::Analyzer,
{
    let now = links_of(plan.tap_interfaces@);
    now.to_multiset_ensures();
    current.to_multiset_ensures();
    let y = dispatchers[i].src_link@;
    assert(now.contains(y) <==> now.to_multiset().count(y) > 0);
    assert(current.contains(y) <==> current.to_multiset().count(y) > 0);
    assert(now.contains(x) <==> now.to_multiset().count(x) > 0);
    assert(current.contains(x) <==> current.to_multiset().count(x) > 0);
    lemma_missing(now, tap, x);
}

/// Interfaces of a user space switch or of DPDK are left alone.
pub proof fn special_sources_are_left_alone(
    r: MirrorChange,
    c: ModuleConfig,
    dispatchers: Seq<DispatcherComponent>,
    current: Seq<LinkView>,
    tap: Seq<LinkView>,
    last_id: usize,
)
    requires
        r.follows(c, dispatchers, current, tap, last_id),
        c.user_config.vhost_socket_path@.len() > 0 || c.dispatcher.dpdk_source != DpdkSource::Off,
    ensures
        r.reconciliation is None,
        r.parse_tap_types <==> c.dispatcher.capture_mode == PacketCaptureType::Analyzer,
{
}

/// Other interfaces than before are never overlooked.
pub proof fn new_interfaces_are_acted_on(
    r: MirrorChange,
    c: ModuleConfig,
    dispatchers: Seq<DispatcherComponent>,
    current: Seq<LinkView>,
    tap: Seq<LinkView>,
    last_id: usize,
)
    requires
        r.follows(c, dispatchers, current, tap, last_id),
        c.user_config.vhost_socket_path@.len() == 0,
        c.dispatcher.dpdk_source == DpdkSource::Off,
        current.to_multiset() != tap.to_multiset(),
    ensures
        r.reconciliation is Some,
{
}

proof fn lemma_missing(links: Seq<LinkView>, known: Seq<LinkView>, x: LinkView)
    ensures
        missing_from(links, known).contains(x) <==> links.contains(x) && !known.contains(x),
    decreases links.len(),
{
    let m = missing_from(links, known);
    if links.len() > 0 {
        let init = links.drop_last();
        let q = missing_from(init, known);
        lemma_missing(init, known, x);
        assert(links[links.len() - 1] == links.last());
        if links.contains(x) && x != links.last() {
            let i = choose|i: int| 0 <= i < links.len() && links[i] == x;
            assert(init[i] == x);
        }
        if init.contains(x) {
            let i = choose|i: int| 0 <= i < init.len() && init[i] == x;
            assert(links[i] == x);
        }
        if q.contains(x) {
            let i = choose|i: int| 0 <= i < q.len() && q[i] == x;
            assert(m[i] == x);
        }
        if m.contains(x) {
            let i = choose|i: int| 0 <= i < m.len() && m[i] == x;
            if i < q.len() {
                assert(q[i] == x);
            }
        }
        if x == links.last() && !known.contains(x) {
            assert(m[m.len() - 1] == x);
        }
    }
}

/// New interfaces are taken one by one and in order.
pub proof fn new_interfaces_come_in_order(
    a: Seq<LinkView>,
    b: Seq<LinkView>,
    known: Seq<LinkView>,
    x: LinkView,
)
    ensures
        missing_from(a + b, known) == missing_from(a, known) + missing_from(b, known),
        missing_from(seq![x], known) == (if known.contains(x) {
            seq![]
        } else {
            seq![x]
        }),
    decreases b.len(),
{
    reveal_with_fuel(missing_from, 2);
    assert(seq![x].drop_last() =~= seq![]);
    assert(missing_from(seq![x], known) =~= (if known.contains(x) {
        seq![]
    } else {
        seq![x]
    }));
    if b.len() > 0 {
        new_interfaces_come_in_order(a, b.drop_last(), known, x);
        assert((a + b).drop_last() =~= a + b.drop_last());
        assert((a + b).last() == b.last());
    } else {
        assert(a + b =~= a);
    }
    assert(missing_from(a + b, known) =~= missing_from(a, known) + missing_from(b, known));
}

/// What is retained are the items with their sign set, in order.
pub proof fn what_is_retained_keeps_its_order<T>(items: Seq<T>, keep: Seq<bool>, item: T, sign: bool)
    requires
        items.len() == keep.len(),
    ensures
        retained(items.push(item), keep.push(sign)) == (if sign {
            retained(items, keep).push(item)
        } else {
            retained(items, keep)
        }),
        items.len() == 0 ==> retained(items, keep) == Seq::<T>::empty(),
{
    assert(items.push(item).drop_last() =~= items);
    lemma_retained_prefix(items, keep, sign);
}

proof fn lemma_retained_prefix<T>(items: Seq<T>, keep: Seq<bool>, sign: bool)
    requires
        items.len() <= keep.len(),
    ensures
        retained(items, keep.push(sign)) == retained(items, keep),
    decreases items.len(),
{
    if items.len() > 0 {
        lemma_retained_prefix(items.drop_last(), keep, sign);
    }
}

/// After a change the dispatchers that stay are as they were, in their order, and those that were
/// built follow; the last number given is remembered, and where mirrored traffic is analysed the
/// interfaces are too. Nothing else changes.
pub proof fn a_change_takes_effect(
    change: ComponentChange,
    before: AgentComponents,
    after: AgentComponents,
    i: int,
)
    requires
        change.is_applied(before, after),
    ensures
        after.running == before.running,
        after.plan == before.plan,
        after.is_ce_version == before.is_ce_version,
        after.capture_mode == before.capture_mode,
        after.agent_mode == before.agent_mode,
        match change {
            ComponentChange::Local { change: c, build, .. } => {
                let stay = retained(before.dispatcher_components@, c.keep@);
                &&& after.dispatcher_components@.len() == stay.len() + build@.len()
                &&& 0 <= i < stay.len() ==> after.dispatcher_components@[i] == stay[i]
                &&& 0 <= i < build@.len() ==> is_component_of(
                    after.dispatcher_components@[stay.len() + i],
                    build@[i],
                )
                &&& after.last_dispatcher_component_id == c.last_id
                &&& after.tap_interfaces == before.tap_interfaces
            },
            ComponentChange::Mirror { change: c, build, .. } => match c.reconciliation {
                Some(plan) => {
                    let stay = retained(before.dispatcher_components@, plan.keep@);
                    &&& after.dispatcher_components@.len() == stay.len() + build@.len()
                    &&& 0 <= i < stay.len() ==> after.dispatcher_components@[i] == stay[i]
                    &&& 0 <= i < build@.len() ==> is_component_of(
                        after.dispatcher_components@[stay.len() + i],
                        build@[i],
                    )
                    &&& after.last_dispatcher_component_id == plan.last_id
                    &&& links_of(after.tap_interfaces@) == links_of(plan.tap_interfaces@)
                },
                None => after.dispatcher_components == before.dispatcher_components
                    && after.last_dispatcher_component_id == before.last_dispatcher_component_id
                    && after.tap_interfaces == before.tap_interfaces,
            },
        },
{
    let (keep, build) = match change {
        ComponentChange::Local { change: c, build, .. } => (c.keep@, build@),
        ComponentChange::Mirror { change: c, build, .. } => match c.reconciliation {
            Some(plan) => (plan.keep@, build@),
            None => (seq![], seq![]),
        },
    };
    let stay = retained(before.dispatcher_components@, keep);
    if 0 <= i < stay.len() && after.has_taken_over(before, keep, build) {
        assert(after.dispatcher_components@.take(stay.len() as int)[i] == stay[i]);
    }
    if 0 <= i < build.len() {
        assert(build[i] == build[i]);
    }
}

/// Whether a component is that of a dispatcher.
pub open spec fn is_component_of(d: DispatcherComponent, b: DispatcherBuild) -> bool {
    &&& d.id == b.plan.id
    &&& d.handlers == b.plan.handlers@.len()
    &&& d.src_link@ == b.plan.src_link@
    &&& d.netns@ == b.netns@
}

/// Those that a configuration change builds, and those that are told, are on the right interfaces
/// with the right numbers.
pub proof fn a_change_speaks_of_the_right_dispatchers(
    change: ComponentChange,
    c: BuildContext,
    before: AgentComponents,
    found: Seq<Vec<Link>>,
    root: Seq<Link>,
    blacklist: Seq<u64>,
    tap_types: Seq<Vec<u8>>,
    i: int,
)
    requires
        change.follows(c, before, found, root, blacklist, tap_types),
        before.last_dispatcher_component_id + root.len() + 1 <= usize::MAX,
        0 <= i < before.dispatcher_components@.len(),
    ensures
        change is Local <==> c.config.dispatcher.capture_mode == PacketCaptureType::Local,
        match change {
            ComponentChange::Local { change: l, told, build } => {
                &&& build@.len() <= 1
                &&& build@.len() == 1 ==> build@[0].plan.id == before.last_dispatcher_component_id
                    + 1 && build@[0].netns@ == NsView::Root && links_of(build@[0].told.links@)
                    == links_of(root)
                &&& i < found.len() ==> (told@[i] is Some <==> l.keep@[i])
                &&& i < found.len() ==> (told@[i] matches Some(n) ==> n.id
                    == before.dispatcher_components@[i].id && links_of(n.links@) == links_of(
                    found[i]@,
                ) && n.blacklist@ == blacklist && n.vm_mac_addrs@ == c.vm_mac_addrs@
                    && n.gateway_vmac_addrs@ == c.gateway_vmac_addrs@)
            },
            ComponentChange::Mirror { change: m, told, build, tap_types_updated } => {
                &&& match m.reconciliation {
                    Some(plan) => build@.len() == plan.build@.len() && forall|k: int|
                        0 <= k < build@.len() ==> (#[trigger] build@[k]).plan.src_link@
                            == plan.build@[k]@ && build@[k].netns@ == NsView::Root
                            && build@[k].plan.id == before.last_dispatcher_component_id + 1 + k,
                    None => build@.len() == 0,
                }
                &&& told@.len() == before.dispatcher_components@.len()
                &&& told@[i].id == before.dispatcher_components@[i].id
                &&& links_of(told@[i].links@) == links_of(root)
                &&& told@[i].blacklist@ == blacklist
                &&& told@[i].vm_mac_addrs@ == c.vm_mac_addrs@
                &&& told@[i].gateway_vmac_addrs@ == c.gateway_vmac_addrs@
                &&& tap_types_updated <==> c.config.dispatcher.capture_mode
                    == PacketCaptureType::Analyzer && !same_types(before.cur_tap_types@, tap_types)
            },
        },
{
    if let ComponentChange::Mirror { change: m, build, .. } = change {
        if let Some(plan) = m.reconciliation {
            let now = links_of(plan.tap_interfaces@);
            lemma_missing_is_no_longer(now, links_of(before.tap_interfaces@));
            now.to_multiset_ensures();
            links_of(root).to_multiset_ensures();
            assert(links_of(root).len() == root.len());
            assert(links_of(plan.build@).len() == plan.build@.len());
        }
    }
}

proof fn lemma_missing_is_no_longer(links: Seq<LinkView>, known: Seq<LinkView>)
    ensures
        missing_from(links, known).len() <= links.len(),
    decreases links.len(),
{
    if links.len() > 0 {
        lemma_missing_is_no_longer(links.drop_last(), known);
    }
}

/// Two lists of capture network types are the same when they hold the same, one by one.
pub proof fn capture_network_types_are_compared_one_by_one(
    a: Seq<Vec<u8>>,
    b: Seq<Vec<u8>>,
    i: int,
)
    requires
        0 <= i < a.len(),
        i < b.len(),
    ensures
        same_types(a, a),
        same_types(a, b) ==> a.len() == b.len() && a[i]@ == b[i]@,
        a[i]@ != b[i]@ ==> !same_types(a, b),
        a.len() != b.len() ==> !same_types(a, b),
{
}

/// A planned dispatcher has the interfaces and the namespace of its input, its own number, and
/// collectors of the same number; it begins with an empty blacklist.
pub proof fn a_planned_dispatcher_is_on_its_input(
    plan: AgentPlan,
    c: BuildContext,
    found: Seq<InputView>,
    root: Seq<LinkView>,
    i: int,
)
    requires
        plan.follows(c, found, root),
        planned_inputs(*c.config, found, root).len() < usize::MAX,
        0 <= i < plan.dispatchers@.len(),
    ensures
        ({
            let inputs = planned_inputs(*c.config, found, root);
            let d = plan.dispatchers@[i];
            &&& plan.dispatchers@.len() == inputs.len()
            &&& d.plan.id == i
            &&& d.netns@ == inputs[i].netns
            &&& d.plan.src_link@ == source_of(inputs[i].links)
            &&& links_of(d.told.links@) == inputs[i].links
            &&& d.told.id == i
            &&& d.told.blacklist@.len() == 0
            &&& d.told.vm_mac_addrs@ == c.vm_mac_addrs@
            &&& d.told.gateway_vmac_addrs@ == c.gateway_vmac_addrs@
            &&& d.collector.id == i
            &&& d.l7_collector.id == i
            &&& d.collector.second_collector is Some && d.collector.minute_collector is Some
            &&& d.l7_collector.second_collector is Some && d.l7_collector.minute_collector is Some
            &&& d.collector.aggregator_delay is Some
            &&& d.plan.fanout_enabled <==> planned_fanout(*c.config) > 1
            &&& d.queues@ == queues_of(c.config.user_config)
            &&& d.collector.second_delay == flow_delay(c.config.user_config, c.time_unit)
            &&& d.l7_collector.second_delay == d.collector.second_delay
        }),
{
}

/// What belongs to the agent besides its dispatchers follows from the configuration, the two
/// services after the dispatchers have the next numbers, and the interfaces captured on are those
/// of all dispatchers, sorted.
pub proof fn an_agent_is_planned_as_configured(
    plan: AgentPlan,
    c: BuildContext,
    found: Seq<InputView>,
    root: Seq<LinkView>,
)
    requires
        plan.follows(c, found, root),
        planned_inputs(*c.config, found, root).len() < usize::MAX,
    ensures
        ({
            let u = c.config.user_config;
            let n = planned_inputs(*c.config, found, root).len();
            &&& checks_of(plan.host_checks@) == checked_on_host(u.check_core_file_disabled)
            &&& checks_of(plan.capture_checks@) == checked_on_capture(
                *c.config,
                planned_inputs(*c.config, found, root),
            )
            &&& plan.policy_queues == policy_queues(c.config.dispatcher.capture_mode, n)
            &&& plan.receive_limit == packets_limited_to(c.config.dispatcher)
            &&& plan.senders@ == senders_of(*c.config, c.features)
            &&& plan.process_listener == u.process_listener_enabled
            &&& plan.toa_queue == (QueuePlan {
                module: "1-socket-sync-toa-info-queue",
                size: u.toa_queue_size,
            })
            &&& plan.toa_cache_buckets * 32 <= u.toa_cache_size < plan.toa_cache_buckets * 32 + 32
            &&& plan.dpdk_queues@.len() == (if c.features.libtrace {
                n
            } else {
                0
            })
            &&& forall|i: int|
                0 <= i < plan.dpdk_queues@.len() ==> (#[trigger] plan.dpdk_queues@[i]) == (
                QueuePlan { module: "0-ebpf-dpdk-to-dispatcher", size: u.dpdk_queue_size })
            &&& plan.ebpf is Some <==> c.features.libtrace && runs_ebpf(
                *c.config,
                c.kernel_ebpf_meltdown,
            )
            &&& plan.ebpf matches Some(s) ==> s.l7_collector.id == n && s.queues@.len() == 2
                && s.queues@[0] == (QueuePlan {
                module: "1-l7-stats-to-quadruple-generator",
                size: u.flow_generator_queue_size,
            }) && s.queues@[1] == (QueuePlan {
                module: "1-tagged-flow-to-app-protocol-logs",
                size: u.flow_generator_queue_size,
            })
            &&& plan.metrics_server.l7_collector.id == n + 1
            &&& plan.metrics_server.queues@.len() == 1
            &&& plan.metrics_server.queues@[0] == (QueuePlan {
                module: "1-l7-stats-to-quadruple-generator",
                size: u.flow_generator_queue_size,
            })
            &&& plan.last_id == n + 1
            &&& is_sorted(plan.tap_interfaces@)
            &&& links_of(plan.tap_interfaces@).to_multiset() == links_in(
                planned_inputs(*c.config, found, root),
            ).to_multiset()
        }),
{
}

/// The interfaces of all dispatchers are those of each, one after the other.
pub proof fn interfaces_are_gathered_in_order(a: Seq<InputView>, b: Seq<InputView>, one: InputView)
    ensures
        links_in(a + b) == links_in(a) + links_in(b),
        links_in(seq![one]) == one.links,
    decreases b.len(),
{
    reveal_with_fuel(links_in, 2);
    assert(seq![one].drop_last() =~= seq![]);
    assert(links_in(seq![one]) =~= one.links);
    if b.len() > 0 {
        interfaces_are_gathered_in_order(a, b.drop_last(), one);
        assert((a + b).drop_last() =~= a + b.drop_last());
        assert((a + b).last() == b.last());
    } else {
        assert(a + b =~= a);
    }
    assert(links_in(a + b) =~= links_in(a) + links_in(b));
}

/// Links are sorted by index, those with the same one by hardware address, and those with the same
/// of both by name; names by their first character that differs.
pub proof fn links_are_ordered_by_index_first(a: LinkView, b: LinkView, p: Seq<char>, x: char, y: char)
    ensures
        a.if_index < b.if_index ==> Link::leq(a, b) && !Link::leq(b, a),
        a.if_index == b.if_index && a.mac_addr < b.mac_addr ==> Link::leq(a, b) && !Link::leq(b, a),
        a.if_index == b.if_index && a.mac_addr == b.mac_addr ==> (Link::leq(a, b) <==> text_leq(
            a.name,
            b.name,
        )),
        x < y ==> text_leq(p.push(x) + a.name, p.push(y) + b.name) && !text_leq(
            p.push(y) + b.name,
            p.push(x) + a.name,
        ),
        text_leq(p, p + b.name),
    decreases p.len(),
{
    let s = p.push(x) + a.name;
    let t = p.push(y) + b.name;
    if p.len() > 0 {
        let q = p.drop_first();
        links_are_ordered_by_index_first(a, b, q, x, y);
        assert(s.drop_first() =~= q.push(x) + a.name);
        assert(t.drop_first() =~= q.push(y) + b.name);
        assert((p + b.name).drop_first() =~= q + b.name);
        assert(s[0] == p[0] && t[0] == p[0]);
        assert((p + b.name)[0] == p[0]);
    } else {
        assert(s[0] == x && t[0] == y);
    }
}

/// An address is kept as long as the name resolves to it; else the first new one is taken. A name
/// that does not resolve keeps its address.
pub proof fn an_address_follows_its_name(ip: Seq<char>, addresses: Seq<Seq<char>>)
    requires
        addresses.len() > 0,
    ensures
        address_after(ip, None) == ip,
        !has_moved(ip, None),
        addresses.contains(ip) ==> address_after(ip, Some(addresses)) == ip,
        !addresses.contains(ip) ==> address_after(ip, Some(addresses)) == addresses[0],
        addresses.contains(address_after(ip, Some(addresses))),
        has_moved(ip, Some(addresses)) <==> !addresses.contains(ip),
        !has_moved(address_after(ip, Some(addresses)), Some(addresses)),
{
    assert(addresses.contains(addresses[0]));
}

/// The agent runs exactly when it is enabled and not melted down.
pub proof fn the_agent_runs_when_nothing_speaks_against_it(s: InnerState)
    ensures
        s.state() == State::Running <==> s.enabled && !s.melted_down,
        s.state() == State::Disabled <==> !s.enabled || s.melted_down,
{
}

/// A configured name goes before that of the operating system; without either the host is unknown.
pub proof fn a_configured_hostname_goes_first(config: StaticConfig, facts: LaunchFacts)
    ensures
        config.override_os_hostname matches Some(name) ==> hostname_of(config, facts) == name@,
        config.override_os_hostname is None ==> (facts.os_hostname matches Some(name)
            ==> hostname_of(config, facts) == name@),
        config.override_os_hostname is None && facts.os_hostname is None ==> hostname_of(
            config,
            facts,
        ) == "Unknown"@,
{
}

/// Sorted links go up: by index, and by hardware address where the index is the same.
pub proof fn sorted_links_go_up(v: Seq<Link>, i: int, j: int)
    requires
        is_sorted(v),
        0 <= i < j < v.len(),
    ensures
        v[i].if_index <= v[j].if_index,
        v[i].if_index == v[j].if_index ==> v[i].mac_addr <= v[j].mac_addr,
        v[i].if_index == v[j].if_index && v[i].mac_addr == v[j].mac_addr ==> text_leq(
            v[i].name@,
            v[j].name@,
        ),
{
    assert(Link::leq(v[i].model(), v[j].model()));
}

/// Of sorted namespaces the host's comes first, then those with names, by name, and then those of
/// processes, by number.
pub proof fn sorted_namespaces_go_up(v: Seq<NsFile>, i: int, j: int)
    requires
        is_sorted(v),
        0 <= i < j < v.len(),
    ensures
        v[j] is Root ==> v[i] is Root,
        v[j] is Named ==> !(v[i] is Proc),
        v[i] matches NsFile::Named(a) ==> (v[j] matches NsFile::Named(b) ==> text_leq(a@, b@)),
        v[i] matches NsFile::Proc(a) ==> (v[j] matches NsFile::Proc(b) ==> a <= b),
{
    assert(NsFile::leq(v[i].model(), v[j].model()));
}

/// Names are looked up every five seconds.
pub proof fn names_are_looked_up_every_five_seconds()
    ensures
        INTERVAL == 5,
{
}

/// A new agent does not run. It has a component for each planned dispatcher, in order and with the
/// same number, captures on the planned interfaces, remembers the last number given, and knows no
/// capture network types yet.
pub proof fn a_new_agent_is_as_planned(
    a: AgentComponents,
    c: BuildContext,
    found: Seq<InputView>,
    root: Seq<LinkView>,
    i: int,
)
    requires
        a.is_new(c, found, root),
        planned_inputs(*c.config, found, root).len() < usize::MAX,
    ensures
        !a.running,
        a.dispatcher_components@.len() == planned_inputs(*c.config, found, root).len(),
        0 <= i < a.dispatcher_components@.len() ==> {
            let d = a.dispatcher_components@[i];
            let input = planned_inputs(*c.config, found, root)[i];
            &&& d.id == i
            &&& d.handlers == 2
            &&& d.src_link@ == source_of(input.links)
            &&& d.netns@ == input.netns
        },
        links_of(a.tap_interfaces@) == links_of(a.plan.tap_interfaces@),
        a.last_dispatcher_component_id == planned_inputs(*c.config, found, root).len() + 1,
        a.cur_tap_types@.len() == 0,
        a.is_ce_version <==> c.version.name@ == "zerotrace-agent-ce"@,
        a.capture_mode == c.config.dispatcher.capture_mode,
        a.agent_mode == c.agent_mode,
{
}

} // verus!
