//! What a configuration means for what is captured, collected and sent.
use super::components::{
    CollectorPlan, Features, QueuePlan, SenderPlan, SharedConnection,
};
use super::config::{DispatcherConfig, DpdkSource, ModuleConfig, PacketCaptureType, UserConfig};
use super::sender::SenderEncoder;
use vstd::prelude::*;

verus! {

use super::components::{collects, collects_l7, delays_fit, flow_delay, queues_of, senders_of};
use super::interfaces::{
    checked_on_capture,
    checked_on_host,
    first_names,
    kept,
    link_matches,
    ns_matches,
    packets_limited_to,
    planned_fanout,
    planned_inputs,
    policy_queues,
    populated,
    regex_matches,
    runs_ebpf,
    CheckView,
    InputView,
};
use super::link::{LinkView, NsView};

/// Whether packets are captured on interfaces of the kernel.
pub open spec fn captures_on_interfaces(c: ModuleConfig) -> bool {
    c.dispatcher.capture_mode == PacketCaptureType::Local || (c.user_config.vhost_socket_path@.len()
        == 0 && c.dispatcher.dpdk_source == DpdkSource::Off)
}

/// Whether further namespaces are captured in.
pub open spec fn searches_namespaces(c: ModuleConfig) -> bool {
    c.dispatcher.capture_mode == PacketCaptureType::Local && c.dispatcher.extra_netns_regex@.len()
        > 0
}

/// Whether no further namespace that is captured in has interfaces.
pub open spec fn only_the_host_has_interfaces(c: ModuleConfig, found: Seq<InputView>) -> bool {
    searches_namespaces(c) ==> forall|i: int|
        0 <= i < found.len() ==> (#[trigger] found[i]).links.len() == 0
}

proof fn lemma_none_populated(found: Seq<InputView>)
    requires
        forall|i: int| 0 <= i < found.len() ==> (#[trigger] found[i]).links.len() == 0,
    ensures
        populated(found).len() == 0,
    decreases found.len(),
{
    if found.len() > 0 {
        assert(found[found.len() - 1] == found.last());
        assert forall|i: int| 0 <= i < found.drop_last().len() implies (
        #[trigger] found.drop_last()[i]).links.len() == 0 by {
            assert(found.drop_last()[i] == found[i]);
        }
        lemma_none_populated(found.drop_last());
    }
}

/// The configured fan-out is built, on the host and off it: where it is more than one, that many
/// dispatchers share all of the host's interfaces.
pub proof fn the_configured_fan_out_is_built(
    c: ModuleConfig,
    found: Seq<InputView>,
    root: Seq<LinkView>,
    i: int,
)
    requires
        captures_on_interfaces(c),
        c.dispatcher.extra_netns_regex@.len() == 0,
        c.user_config.packet_fanout_count > 1,
        root.len() > 0 || c.dispatcher.inner_interface_capture_enabled,
        0 <= i < planned_inputs(c, found, root).len(),
    ensures
        planned_inputs(c, found, root).len() == c.user_config.packet_fanout_count,
        planned_fanout(c) == c.user_config.packet_fanout_count,
        planned_inputs(c, found, root)[i].links == root,
        planned_inputs(c, found, root)[i].netns == NsView::Root,
{
}

/// Where the configured fan-out is more than one, dispatchers are built for it.
pub proof fn a_fan_out_has_dispatchers(c: ModuleConfig, found: Seq<InputView>, root: Seq<LinkView>)
    requires
        captures_on_interfaces(c),
        c.dispatcher.extra_netns_regex@.len() == 0,
        c.user_config.packet_fanout_count > 1,
        root.len() > 0 || c.dispatcher.inner_interface_capture_enabled,
    ensures
        planned_inputs(c, found, root).len() == c.user_config.packet_fanout_count,
{
}

/// An agent that captures on its own host, and in no further namespace, captures on all of the
/// host's interfaces: as often as the fan-out says, and once where namespaces are searched.
pub proof fn a_local_agent_captures_on_its_host(
    c: ModuleConfig,
    found: Seq<InputView>,
    root: Seq<LinkView>,
    i: int,
)
    requires
        c.dispatcher.capture_mode == PacketCaptureType::Local,
        only_the_host_has_interfaces(c, found),
        root.len() > 0 || c.dispatcher.inner_interface_capture_enabled,
    ensures
        planned_inputs(c, found, root).len() == (if c.dispatcher.extra_netns_regex@.len() == 0 {
            c.user_config.packet_fanout_count as nat
        } else {
            1
        }),
        0 <= i < planned_inputs(c, found, root).len() ==> planned_inputs(c, found, root)[i].links
            == root && planned_inputs(c, found, root)[i].netns == NsView::Root,
        planned_fanout(c) == planned_inputs(c, found, root).len(),
{
    if searches_namespaces(c) {
        lemma_none_populated(found);
    }
}

/// Off the host without a fan-out each interface has a dispatcher of its own.
pub proof fn a_mirror_has_a_dispatcher_for_each_interface(
    c: ModuleConfig,
    found: Seq<InputView>,
    root: Seq<LinkView>,
    i: int,
)
    requires
        c.dispatcher.capture_mode != PacketCaptureType::Local,
        captures_on_interfaces(c),
        c.user_config.packet_fanout_count <= 1 || c.dispatcher.extra_netns_regex@.len() > 0,
    ensures
        planned_inputs(c, found, root).len() == root.len(),
        0 <= i < root.len() ==> planned_inputs(c, found, root)[i].links == seq![root[i]]
            && planned_inputs(c, found, root)[i].netns == NsView::Root,
{
    let p = planned_inputs(c, found, root);
    if 0 <= i < root.len() {
        assert(p[i].links =~= seq![root[i]]);
    }
}

/// Off the host a user space switch, and a dump of one, have one dispatcher; eBPF at the source of
/// DPDK has as many as the fan-out says. None of them is on an interface of the kernel.
pub proof fn special_sources_have_no_interfaces(
    c: ModuleConfig,
    found: Seq<InputView>,
    root: Seq<LinkView>,
    i: int,
)
    requires
        c.dispatcher.capture_mode != PacketCaptureType::Local,
        !captures_on_interfaces(c),
    ensures
        0 <= i < planned_inputs(c, found, root).len() ==> planned_inputs(
            c,
            found,
            root,
        )[i].links.len() == 0 && planned_inputs(c, found, root)[i].netns == NsView::Root,
        c.user_config.vhost_socket_path@.len() > 0 || c.dispatcher.dpdk_source == DpdkSource::PDump
            ==> planned_inputs(c, found, root).len() == 1 && planned_fanout(c) == 1,
        c.user_config.vhost_socket_path@.len() == 0 && c.dispatcher.dpdk_source == DpdkSource::Ebpf
            ==> planned_inputs(c, found, root).len() == planned_fanout(c) && planned_fanout(c) == (
        if c.dispatcher.extra_netns_regex@.len() == 0 {
            c.user_config.packet_fanout_count as int
        } else {
            1
        }),
{
}

/// Nothing is captured where there is nothing to capture on.
pub proof fn without_interfaces_nothing_is_captured(
    c: ModuleConfig,
    found: Seq<InputView>,
    root: Seq<LinkView>,
)
    requires
        captures_on_interfaces(c),
        only_the_host_has_interfaces(c, found),
        root.len() == 0,
        !c.dispatcher.inner_interface_capture_enabled,
    ensures
        planned_inputs(c, found, root).len() == 0,
{
    if searches_namespaces(c) {
        lemma_none_populated(found);
    }
}

/// Where namespaces are searched, those with interfaces are captured in, each on its own
/// interfaces and in order; the host is not captured on then.
pub proof fn namespaces_with_interfaces_are_captured_in(
    c: ModuleConfig,
    found: Seq<InputView>,
    root: Seq<LinkView>,
    k: int,
)
    requires
        searches_namespaces(c),
        0 <= k < found.len(),
        found[k].links.len() > 0,
    ensures
        planned_inputs(c, found, root) == populated(found),
        planned_inputs(c, found, root).contains(found[k]),
        planned_fanout(c) == 1,
{
    lemma_populated_contains(found, k);
}

proof fn lemma_populated_contains(found: Seq<InputView>, k: int)
    requires
        0 <= k < found.len(),
        found[k].links.len() > 0,
    ensures
        populated(found).contains(found[k]),
    decreases found.len(),
{
    let p = populated(found);
    if k == found.len() - 1 {
        assert(found.last() == found[k]);
        assert(p[p.len() - 1] == found[k]);
    } else {
        let init = found.drop_last();
        lemma_populated_contains(init, k);
        assert(init[k] == found[k]);
        let q = populated(init);
        let i = choose|i: int| 0 <= i < q.len() && q[i] == found[k];
        assert(p[i] == found[k]);
    }
}

/// Namespaces are looked at one by one and in order; those without interfaces are left out.
pub proof fn namespaces_are_taken_one_by_one(a: Seq<InputView>, b: Seq<InputView>, one: InputView)
    ensures
        populated(a + b) == populated(a) + populated(b),
        populated(seq![one]) == (if one.links.len() > 0 {
            seq![one]
        } else {
            seq![]
        }),
    decreases b.len(),
{
    reveal_with_fuel(populated, 2);
    assert(seq![one].drop_last() =~= seq![]);
    assert(populated(seq![one]) =~= (if one.links.len() > 0 {
        seq![one]
    } else {
        seq![]
    }));
    if b.len() > 0 {
        namespaces_are_taken_one_by_one(a, b.drop_last(), one);
        assert((a + b).drop_last() =~= a + b.drop_last());
        assert((a + b).last() == b.last());
    } else {
        assert(a + b =~= a);
    }
    assert(populated(a + b) =~= populated(a) + populated(b));
}

/// What a pattern matches is kept, in order, and nothing else.
pub proof fn matching_items_are_kept_in_order<T>(items: Seq<T>, matched: Seq<Option<bool>>, k: int)
    requires
        items.len() <= matched.len(),
        0 <= k <= items.len(),
    ensures
        kept(items, matched) == kept(items.take(k), matched) + kept(
            items.skip(k),
            matched.skip(k),
        ),
        items.len() == 1 ==> kept(items, matched) == (if matched[0] == Some(true) {
            items
        } else {
            seq![]
        }),
    decreases items.len() - k,
{
    if items.len() == 1 {
        assert(items.drop_last() =~= seq![]);
        assert(kept(items.drop_last(), matched) =~= seq![]);
        assert(kept(items, matched) =~= (if matched[0] == Some(true) {
            items
        } else {
            seq![]
        }));
    }
    let rest = items.skip(k);
    if rest.len() == 0 {
        assert(items.take(k) =~= items);
        assert(kept(rest, matched.skip(k)) =~= seq![]);
    } else {
        let init = items.drop_last();
        lemma_kept_prefix(items, matched, k);
        assert(init.take(k) =~= items.take(k));
        assert(init.skip(k) =~= rest.drop_last());
        assert(rest.last() == items.last());
        assert(matched.skip(k)[rest.len() - 1] == matched[items.len() - 1]);
    }
    assert(kept(items, matched) =~= kept(items.take(k), matched) + kept(
        items.skip(k),
        matched.skip(k),
    ));
}

proof fn lemma_kept_prefix<T>(items: Seq<T>, matched: Seq<Option<bool>>, k: int)
    requires
        items.len() <= matched.len(),
        0 <= k < items.len(),
    ensures
        kept(items.drop_last(), matched) == kept(items.take(k), matched) + kept(
            items.drop_last().skip(k),
            matched.skip(k),
        ),
    decreases items.len(),
{
    let init = items.drop_last();
    if k == init.len() {
        assert(init =~= items.take(k));
        assert(init.skip(k) =~= seq![]);
        assert(kept(init.skip(k), matched.skip(k)) =~= seq![]);
    } else {
        lemma_kept_prefix(init, matched, k);
        assert(init.take(k) =~= items.take(k));
        let rest = init.skip(k);
        assert(rest.drop_last() =~= init.drop_last().skip(k));
        assert(rest.last() == init.last());
        assert(matched.skip(k)[rest.len() - 1] == matched[init.len() - 1]);
    }
    assert(kept(init, matched) =~= kept(items.take(k), matched) + kept(
        init.skip(k),
        matched.skip(k),
    ));
}

/// Interfaces are asked for by their names, and namespaces by theirs if they have one.
pub proof fn patterns_are_asked_of_names(pattern: Seq<char>, links: Seq<LinkView>, i: int)
    requires
        0 <= i < links.len(),
    ensures
        link_matches(pattern, links).len() == links.len(),
        link_matches(pattern, links)[i] == regex_matches(pattern, links[i].name),
        ns_matches(pattern, NsView::Named(links[i].name)) == regex_matches(pattern, links[i].name),
        ns_matches(pattern, NsView::Root) is None,
{
}

/// The checks on the host come in order, and that for core files only where it is wanted.
pub proof fn the_host_is_checked(disabled: bool)
    ensures
        checked_on_host(disabled)[0] == CheckView::Processes,
        checked_on_host(disabled).len() == (if disabled {
            3int
        } else {
            4
        }),
        !disabled ==> checked_on_host(disabled)[1] == CheckView::CoreFiles,
        checked_on_host(disabled)[checked_on_host(disabled).len() - 2] == CheckView::ControllerIps,
        checked_on_host(disabled).last() == CheckView::FreeSpace,
{
}

/// The kernel is checked unless the agent captures locally, and then, for a physical mirror that
/// DPDK does not serve, the first interface of each dispatcher.
pub proof fn what_is_captured_is_checked(c: ModuleConfig, inputs: Seq<InputView>)
    ensures
        c.dispatcher.capture_mode == PacketCaptureType::Local ==> checked_on_capture(
            c,
            inputs,
        ).len() == 0,
        c.dispatcher.capture_mode != PacketCaptureType::Local ==> checked_on_capture(
            c,
            inputs,
        ).len() >= 1 && checked_on_capture(c, inputs)[0] == CheckView::Kernel,
        checked_on_capture(c, inputs).len() <= 2,
        checked_on_capture(c, inputs).len() == 2 <==> c.dispatcher.capture_mode
            == PacketCaptureType::Analyzer && c.user_config.dpdk_source == DpdkSource::Off,
        checked_on_capture(c, inputs).len() == 2 ==> checked_on_capture(c, inputs)[1]
            == CheckView::TapInterfaces(first_names(inputs)),
{
}

/// The first interface of each dispatcher that has one is named, in order.
pub proof fn first_interfaces_are_named_in_order(a: Seq<InputView>, b: Seq<InputView>, one: InputView)
    ensures
        first_names(a + b) == first_names(a) + first_names(b),
        first_names(seq![one]) == (if one.links.len() > 0 {
            seq![one.links[0].name]
        } else {
            seq![]
        }),
    decreases b.len(),
{
    reveal_with_fuel(first_names, 2);
    assert(seq![one].drop_last() =~= seq![]);
    assert(first_names(seq![one]) =~= (if one.links.len() > 0 {
        seq![one.links[0].name]
    } else {
        seq![]
    }));
    if b.len() > 0 {
        first_interfaces_are_named_in_order(a, b.drop_last(), one);
        assert((a + b).drop_last() =~= a + b.drop_last());
        assert((a + b).last() == b.last());
    } else {
        assert(a + b =~= a);
    }
    assert(first_names(a + b) =~= first_names(a) + first_names(b));
}

/// Off the host the policy module has a queue for each dispatcher, and always at least one.
pub proof fn every_dispatcher_has_a_policy_queue(mode: PacketCaptureType, dispatchers: nat)
    ensures
        policy_queues(mode, dispatchers) >= 1,
        mode != PacketCaptureType::Local ==> policy_queues(mode, dispatchers) >= dispatchers,
        mode != PacketCaptureType::Local && dispatchers >= 1 ==> policy_queues(mode, dispatchers)
            == dispatchers,
        mode == PacketCaptureType::Local ==> policy_queues(mode, dispatchers) == 1,
{
}

/// Only what a physical mirror gives is received without a limit.
pub proof fn packets_are_limited_but_from_a_physical_mirror(config: DispatcherConfig)
    ensures
        packets_limited_to(config) is None <==> config.capture_mode == PacketCaptureType::Analyzer,
        packets_limited_to(config) matches Some(limit) ==> limit == config.global_pps_threshold,
{
}

/// The eBPF collector runs unless it is switched off, the kernel does not bear it, or a physical
/// mirror is analysed without eBPF at its source.
pub proof fn the_ebpf_collector_runs_unless(c: ModuleConfig, meltdown: bool)
    ensures
        c.ebpf_disabled ==> !runs_ebpf(c, meltdown),
        meltdown ==> !runs_ebpf(c, meltdown),
        !c.ebpf_disabled && !meltdown && c.dispatcher.capture_mode != PacketCaptureType::Analyzer
            ==> runs_ebpf(c, meltdown),
        !c.ebpf_disabled && !meltdown && c.user_config.dpdk_source == DpdkSource::Ebpf
            ==> runs_ebpf(c, meltdown),
        c.dispatcher.capture_mode == PacketCaptureType::Analyzer && c.user_config.dpdk_source
            != DpdkSource::Ebpf ==> !runs_ebpf(c, meltdown),
{
}

/// The delay that the consumers of flows tolerate: that of packets, that of flows, one tick, twice
/// the flush interval, and five seconds.
pub proof fn flows_may_be_late_by_all_that_delays_them(config: UserConfig, time_unit: u64)
    ensures
        flow_delay(config, time_unit) == config.max_tolerable_packet_delay
            + config.extra_tolerable_flow_delay + time_unit + 2 * config.flow_flush_interval + 5,
        delays_fit(config, time_unit) <==> flow_delay(config, time_unit) + 65 <= u64::MAX,
{
}

/// Flows and requests are collected with the same delays: minutes a minute later than seconds,
/// and each collector five seconds after its window. Both have the number of their dispatcher.
pub proof fn flows_and_requests_line_up(
    flows: CollectorPlan,
    requests: CollectorPlan,
    id: usize,
    config: UserConfig,
    time_unit: u64,
    aggregated: bool,
)
    requires
        delays_fit(config, time_unit),
        collects(flows, id, config, time_unit, aggregated, true, true),
        collects_l7(requests, id, config, time_unit, true, true),
    ensures
        flows.id == id && requests.id == id,
        flows.second_delay == flow_delay(config, time_unit),
        requests.second_delay == flows.second_delay,
        flows.minute_delay == flows.second_delay + 60,
        requests.minute_delay == flows.minute_delay,
        flows.second_collector matches Some(d) && d == flows.second_delay + 5,
        flows.minute_collector matches Some(d) && d == flows.minute_delay + 5,
        requests.second_collector == flows.second_collector,
        requests.minute_collector == flows.minute_collector,
        aggregated <==> flows.aggregator_delay is Some,
        flows.aggregator_delay matches Some(d) ==> d == flows.second_delay,
        requests.aggregator_delay is None,
        flows.connection_lru_capacity == config.flow_map_hash_slots * 8,
        requests.connection_lru_capacity == 0,
        flows.possible_host_size == 262144 && requests.possible_host_size == 262144,
{
}

/// Collectors have a queue for seconds and one for minutes, and before them one for aggregation
/// where flows are aggregated.
pub proof fn collectors_have_a_queue_for_each_window(
    flows: CollectorPlan,
    requests: CollectorPlan,
    id: usize,
    config: UserConfig,
    time_unit: u64,
    aggregated: bool,
    second: bool,
    minute: bool,
)
    requires
        collects(flows, id, config, time_unit, aggregated, second, minute),
        collects_l7(requests, id, config, time_unit, second, minute),
    ensures
        ({
            let k: int = if aggregated {
                1
            } else {
                0
            };
            let q = flows.queues@;
            &&& q.len() == k + 2
            &&& aggregated ==> q[0] == (QueuePlan {
                module: "2-second-flow-to-minute-aggrer",
                size: config.flow_aggregator_queue_size,
            })
            &&& q[k] == (QueuePlan {
                module: "2-flow-with-meter-to-second-collector",
                size: config.quadruple_generator_queue_size,
            })
            &&& q[k + 1] == (QueuePlan {
                module: "2-flow-with-meter-to-minute-collector",
                size: config.quadruple_generator_queue_size,
            })
        }),
        requests.queues@.len() == 2,
        requests.queues@[0] == (QueuePlan {
            module: "2-flow-with-meter-to-l7-second-collector",
            size: config.quadruple_generator_queue_size,
        }),
        requests.queues@[1] == (QueuePlan {
            module: "2-flow-with-meter-to-l7-minute-collector",
            size: config.quadruple_generator_queue_size,
        }),
        second <==> flows.second_collector is Some,
        minute <==> flows.minute_collector is Some,
        second <==> requests.second_collector is Some,
        minute <==> requests.minute_collector is Some,
{
}

/// Each queue of a dispatcher has its own size.
pub proof fn dispatcher_queues_have_their_sizes(config: UserConfig)
    ensures
        queues_of(config).len() == 5,
        queues_of(config)[0] == (QueuePlan {
            module: "1-tagged-flow-to-quadruple-generator",
            size: config.flow_generator_queue_size,
        }),
        queues_of(config)[1] == (QueuePlan {
            module: "1-l7-stats-to-quadruple-generator",
            size: config.flow_generator_queue_size,
        }),
        queues_of(config)[2] == (QueuePlan {
            module: "1-tagged-flow-to-app-protocol-logs",
            size: config.flow_generator_queue_size,
        }),
        queues_of(config)[3] == (QueuePlan {
            module: "1-packet-sequence-block-to-parser",
            size: config.tcp_header_queue_size,
        }),
        queues_of(config)[4] == (QueuePlan {
            module: "1-mini-meta-packet-to-pcap-handler",
            size: config.pcap_receiver_queue_size,
        }),
{
}

/// Whether a sender is the one for a queue.
pub open spec fn sends(
    s: SenderPlan,
    module: &'static str,
    size: usize,
    compressed: bool,
    connection: SharedConnection,
) -> bool {
    &&& s.queue.module == module
    &&& s.queue.size == size
    &&& s.encoder == SenderEncoder::Zstd <==> compressed
    &&& s.connection == connection
}

/// Each sender has its own queue; it compresses what the configuration says is to be compressed,
/// and what is compressed already it sends as it is. Packet captures and packet sequences share a
/// connection, and so do Prometheus and Telegraf data.
pub proof fn each_sender_has_its_settings(c: ModuleConfig, features: Features)
    ensures
        ({
            let s = senders_of(c, features);
            let u = c.user_config;
            let m = c.metric_server;
            let own = SharedConnection::Own;
            let e: int = if features.libtrace {
                6
            } else {
                5
            };
            let k: int = if features.integration {
                e + 3
            } else {
                e + 2
            };
            &&& s.len() == k + 5
            &&& sends(
                s[0],
                "3-flowlog-to-collector-sender",
                u.flow_generator_queue_size,
                m.l4_flow_log_compressed,
                own,
            )
            &&& sends(s[1], "3-doc-to-collector-sender", u.metrics_queue_size, false, own)
            &&& sends(
                s[2],
                "2-protolog-to-collector-sender",
                u.collector_queue_size,
                m.l7_flow_log_compressed,
                own,
            )
            &&& sends(
                s[3],
                "2-pcap-batch-to-sender",
                u.pcap_queue_size,
                u.pcap_compressed,
                SharedConnection::Pcap,
            )
            &&& sends(
                s[4],
                "2-packet-sequence-block-to-sender",
                u.tcp_header_queue_size,
                false,
                SharedConnection::Pcap,
            )
            &&& features.libtrace ==> sends(
                s[5],
                "1-proc-event-to-sender",
                u.ebpf_queue_size,
                false,
                own,
            )
            &&& sends(s[e], "1-profile-to-sender", u.ebpf_queue_size, false, own)
            &&& sends(
                s[e + 1],
                "1-application-log-to-sender",
                u.flow_aggregator_queue_size,
                m.application_log_compressed,
                own,
            )
            &&& features.integration ==> sends(
                s[e + 2],
                "1-skywalking-to-sender",
                u.flow_aggregator_queue_size,
                m.compressed,
                own,
            )
            &&& sends(
                s[k],
                "1-datadog-to-sender",
                u.flow_aggregator_queue_size,
                m.compressed,
                own,
            )
            &&& sends(
                s[k + 1],
                "1-otel-to-sender",
                u.flow_aggregator_queue_size,
                m.compressed,
                own,
            )
            &&& sends(
                s[k + 2],
                "1-prometheus-to-sender",
                u.flow_aggregator_queue_size,
                false,
                SharedConnection::Prometheus,
            )
            &&& sends(
                s[k + 3],
                "1-telegraf-to-sender",
                u.flow_aggregator_queue_size,
                false,
                SharedConnection::Prometheus,
            )
            &&& sends(
                s[k + 4],
                "1-compressed-otel-to-sender",
                u.flow_aggregator_queue_size,
                false,
                own,
            )
        }),
{
}

} // verus!
