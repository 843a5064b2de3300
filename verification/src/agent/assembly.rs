//! How the agent is built: everything that follows from its configuration and from the
//! interfaces that were found.
use super::components::{
    dispatcher_queues, new_collector, new_l7_collector, plan_senders, toa_cache_buckets,
    AgentComponents, CollectorPlan, DispatcherComponent, Features, QueuePlan, SenderPlan,
    COMMON_DELAY, MINUTE, QG_PROCESS_MAX_DELAY,
};
use super::config::{ModuleConfig, PacketCaptureType, UserConfig};
use super::dispatcher::{
    change_local, change_mirror, parse_tap_type, plan_dispatcher, tell, DispatcherPlan,
    LocalChange, MirrorChange, Notice,
};
use super::identity::VersionInfo;
use super::interfaces::{
    capture_checks, collector_ids, ebpf_collector_runs, host_checks, plan_inputs,
    policy_queue_count, receive_limit, tap_interfaces, DispatcherInput, StartupCheck,
};
use super::link::{copy_links, Link, NsFile};
use super::state::RunningMode;
use vstd::prelude::*;

verus! {

use super::components::{collects, collects_l7, delays_fit, queue, queues_of, retained, senders_of};
use super::dispatcher::{missing_from, none_kept, same_types, sets_up};
use super::interfaces::{
    all_links,
    checked_on_capture,
    checked_on_host,
    checks_of,
    inputs_of,
    packets_limited_to,
    planned_fanout,
    planned_inputs,
    policy_queues,
    runs_ebpf,
    InputView,
};
use super::link::{links_of, sorted_links_are_unique, LinkView, NsView};
use crate::sort::is_sorted;

/// A dispatcher with all that belongs to it.
pub struct DispatcherBuild {
    pub plan: DispatcherPlan,
    pub netns: NsFile,
    pub queues: Vec<QueuePlan>,
    /// Collects the metrics of its flows.
    pub collector: CollectorPlan,
    /// Collects the metrics of its requests.
    pub l7_collector: CollectorPlan,
    /// What it is told before it starts.
    pub told: Notice,
}

/// What dispatchers are built from, besides their interfaces.
pub struct BuildContext<'a> {
    pub config: &'a ModuleConfig,
    pub version: &'a VersionInfo,
    pub agent_mode: RunningMode,
    pub features: Features,
    /// One tick of the flow map, in seconds.
    pub time_unit: u64,
    /// Whether the kernel does not bear eBPF.
    pub kernel_ebpf_meltdown: bool,
    /// The hardware addresses of virtual machines, and those of their gateways.
    pub vm_mac_addrs: &'a Vec<u64>,
    pub gateway_vmac_addrs: &'a Vec<u64>,
}

impl<'a> BuildContext<'a> {
    /// Whether all delays and capacities can be given.
    pub open spec fn fits(&self) -> bool {
        delays_fit(self.config.user_config, self.time_unit)
            && self.config.user_config.flow_map_hash_slots * 8 <= usize::MAX
    }

    /// Whether dispatchers can be built.
    pub fn can_build(&self) -> (r: bool)
        ensures
            r == self.fits(),
    {
        let config = &self.config.user_config;
        let delay: u128 = config.max_tolerable_packet_delay as u128 + self.time_unit as u128
            + config.flow_flush_interval as u128 + COMMON_DELAY as u128
            + config.extra_tolerable_flow_delay as u128 + config.flow_flush_interval as u128;
        delay + MINUTE as u128 + QG_PROCESS_MAX_DELAY as u128 <= u64::MAX as u128
            && config.flow_map_hash_slots as u64 * 8 <= usize::MAX as u64
    }

    /// Whether a dispatcher is the one with a number on these interfaces.
    pub open spec fn builds(
        &self,
        b: DispatcherBuild,
        id: usize,
        input: InputView,
        fanout_enabled: bool,
    ) -> bool {
        &&& sets_up(
            b.plan,
            id,
            input.links,
            *self.config,
            self.agent_mode,
            self.version.name@,
            fanout_enabled,
        )
        &&& b.netns@ == input.netns
        &&& b.queues@ == queues_of(self.config.user_config)
        &&& collects(
            b.collector,
            id,
            self.config.user_config,
            self.time_unit,
            true,
            true,
            true,
        )
        &&& collects_l7(
            b.l7_collector,
            id,
            self.config.user_config,
            self.time_unit,
            true,
            true,
        )
        &&& b.told.tells(
            id,
            input.links,
            self.config.dispatcher,
            seq![],
            self.vm_mac_addrs@,
            self.gateway_vmac_addrs@,
        )
    }

    /// Builds the dispatcher with a number. Its metrics are collected by the second and by the
    /// minute. It starts with an empty blacklist.
    pub fn build_dispatcher(&self, id: usize, input: DispatcherInput, fanout_enabled: bool) -> (r:
        DispatcherBuild)
        requires
            self.fits(),
        ensures
            self.builds(r, id, input@, fanout_enabled),
    {
        let plan = plan_dispatcher(
            id,
            &input.links,
            self.config,
            self.agent_mode,
            self.version,
            fanout_enabled,
        );
        let user_config = &self.config.user_config;
        let nothing: Vec<u64> = Vec::new();
        let told = tell(
            id,
            &input.links,
            &self.config.dispatcher,
            &nothing,
            self.vm_mac_addrs,
            self.gateway_vmac_addrs,
        );
        assert(nothing@ =~= seq![]);
        DispatcherBuild {
            plan,
            told,
            netns: input.netns,
            queues: dispatcher_queues(user_config),
            collector: new_collector(id, user_config, self.time_unit, true, true, true),
            l7_collector: new_l7_collector(id, user_config, self.time_unit, true, true),
        }
    }
}

/// A source of requests that is no dispatcher.
pub struct ServicePlan {
    pub queues: Vec<QueuePlan>,
    pub l7_collector: CollectorPlan,
}

/// What the agent is built from.
pub struct AgentPlan {
    /// What is checked before anything is built, in order.
    pub host_checks: Vec<StartupCheck>,
    pub capture_checks: Vec<StartupCheck>,
    pub policy_queues: usize,
    pub receive_limit: Option<u64>,
    /// Whether processes are listened to.
    pub process_listener: bool,
    /// The queue of original client addresses, and the buckets of their cache.
    pub toa_queue: QueuePlan,
    pub toa_cache_buckets: usize,
    pub senders: Vec<SenderPlan>,
    pub dispatchers: Vec<DispatcherBuild>,
    /// The queues from eBPF probes to the dispatchers, one for each.
    pub dpdk_queues: Vec<QueuePlan>,
    /// The interfaces that are captured on, sorted.
    pub tap_interfaces: Vec<Link>,
    pub ebpf: Option<ServicePlan>,
    pub metrics_server: ServicePlan,
    /// The last number that was given to a dispatcher or collector.
    pub last_id: usize,
}

/// Whether a service is the source of eBPF data.
pub open spec fn is_ebpf_service(s: ServicePlan, id: usize, config: UserConfig, time_unit: u64) -> bool {
    &&& s.queues@ == seq![
        queue("1-l7-stats-to-quadruple-generator", config.flow_generator_queue_size),
        queue("1-tagged-flow-to-app-protocol-logs", config.flow_generator_queue_size),
    ]
    &&& collects_l7(s.l7_collector, id, config, time_unit, true, true)
}

/// Whether a service is the server for external metrics.
pub open spec fn is_metrics_server(
    s: ServicePlan,
    id: usize,
    config: UserConfig,
    time_unit: u64,
) -> bool {
    &&& s.queues@ == seq![
        queue("1-l7-stats-to-quadruple-generator", config.flow_generator_queue_size),
    ]
    &&& collects_l7(s.l7_collector, id, config, time_unit, true, true)
}

impl AgentPlan {
    /// Whether this is what the agent is built from, where `found` are the interfaces in further
    /// namespaces and `root` those of the host.
    pub open spec fn follows(
        &self,
        c: BuildContext,
        found: Seq<InputView>,
        root: Seq<LinkView>,
    ) -> bool {
        let config = *c.config;
        let inputs = planned_inputs(config, found, root);
        let n = inputs.len();
        &&& checks_of(self.host_checks@) == checked_on_host(
            config.user_config.check_core_file_disabled,
        )
        &&& checks_of(self.capture_checks@) == checked_on_capture(config, inputs)
        &&& self.policy_queues == policy_queues(config.dispatcher.capture_mode, n)
        &&& self.receive_limit == packets_limited_to(config.dispatcher)
        &&& self.process_listener == config.user_config.process_listener_enabled
        &&& self.toa_queue == queue(
            "1-socket-sync-toa-info-queue",
            config.user_config.toa_queue_size,
        )
        &&& self.toa_cache_buckets == config.user_config.toa_cache_size / 32
        &&& self.senders@ == senders_of(config, c.features)
        &&& self.dispatchers@.len() == n
        &&& forall|i: int|
            0 <= i < n ==> c.builds(
                #[trigger] self.dispatchers@[i],
                i as usize,
                inputs[i],
                planned_fanout(config) > 1,
            )
        &&& self.dpdk_queues@ == Seq::new(
            if c.features.libtrace {
                n
            } else {
                0
            },
            |i: int| queue("0-ebpf-dpdk-to-dispatcher", config.user_config.dpdk_queue_size),
        )
        &&& is_sorted(self.tap_interfaces@)
        &&& links_of(self.tap_interfaces@).to_multiset() == links_in(inputs).to_multiset()
        &&& match self.ebpf {
            Some(s) => c.features.libtrace && runs_ebpf(config, c.kernel_ebpf_meltdown)
                && is_ebpf_service(s, n as usize, config.user_config, c.time_unit),
            None => !(c.features.libtrace && runs_ebpf(config, c.kernel_ebpf_meltdown)),
        }
        &&& is_metrics_server(
            self.metrics_server,
            (n + 1) as usize,
            config.user_config,
            c.time_unit,
        )
        &&& self.last_id == n + 1
    }
}

/// The interfaces of all dispatchers, one list after the other.
pub open spec fn links_in(inputs: Seq<InputView>) -> Seq<LinkView>
    decreases inputs.len(),
{
    if inputs.len() == 0 {
        seq![]
    } else {
        links_in(inputs.drop_last()) + inputs.last().links
    }
}

proof fn lemma_links_in(inputs: Seq<DispatcherInput>)
    ensures
        all_links(inputs) == links_in(inputs_of(inputs)),
    decreases inputs.len(),
{
    if inputs.len() > 0 {
        lemma_links_in(inputs.drop_last());
        assert(inputs_of(inputs).drop_last() =~= inputs_of(inputs.drop_last()));
    }
}

fn dpdk_queues(features: Features, config: &UserConfig, n: usize) -> (r: Vec<QueuePlan>)
    ensures
        r@ == Seq::new(
            if features.libtrace {
                n as nat
            } else {
                0
            },
            |i: int| queue("0-ebpf-dpdk-to-dispatcher", config.dpdk_queue_size),
        ),
{
    let count: usize = if features.libtrace {
        n
    } else {
        0
    };
    let mut r: Vec<QueuePlan> = Vec::new();
    let mut i: usize = 0;
    while i < count
        invariant
            i <= count,
            r@.len() == i,
            forall|j: int|
                0 <= j < i ==> #[trigger] r@[j] == queue(
                    "0-ebpf-dpdk-to-dispatcher",
                    config.dpdk_queue_size,
                ),
        decreases count - i,
    {
        r.push(QueuePlan { module: "0-ebpf-dpdk-to-dispatcher", size: config.dpdk_queue_size });
        i = i + 1;
    }
    r
}

fn l7_queue(config: &UserConfig) -> (r: QueuePlan)
    ensures
        r == queue("1-l7-stats-to-quadruple-generator", config.flow_generator_queue_size),
{
    QueuePlan {
        module: "1-l7-stats-to-quadruple-generator",
        size: config.flow_generator_queue_size,
    }
}

/// Plans the whole agent. Dispatchers are numbered from 0, the source of eBPF data comes after
/// them, and the server for external metrics after it.
pub fn plan_agent(c: &BuildContext, found: Vec<DispatcherInput>, root: &Vec<Link>) -> (r: AgentPlan)
    requires
        c.fits(),
        planned_inputs(*c.config, inputs_of(found@), links_of(root@)).len() < usize::MAX,
    ensures
        r.follows(*c, inputs_of(found@), links_of(root@)),
{
    let config = c.config;
    let user_config = &config.user_config;
    let host = host_checks(user_config.check_core_file_disabled);
    let (inputs, fanout) = plan_inputs(config, found, root);
    let ghost views = inputs_of(inputs@);
    let capture = capture_checks(config, &inputs);
    let taps = tap_interfaces(&inputs);
    proof {
        lemma_links_in(inputs@);
        assert(views.len() == inputs@.len());
    }
    let n: usize = inputs.len();
    let (ebpf_id, server_id) = collector_ids(n);
    let mut dispatchers: Vec<DispatcherBuild> = Vec::new();
    let ghost all = inputs@;
    let mut i: usize = 0;
    for input in it: inputs
        invariant
            it.seq() == all,
            i == it.index(),
            views == inputs_of(all),
            all.len() <= usize::MAX,
            c.fits(),
            dispatchers@.len() == i,
            forall|j: int|
                0 <= j < i ==> c.builds(
                    #[trigger] dispatchers@[j],
                    j as usize,
                    views[j],
                    fanout > 1,
                ),
    {
        assert(views[i as int] == input@);
        dispatchers.push(c.build_dispatcher(i, input, fanout > 1));
        i = i + 1;
    }
    let ebpf = if c.features.libtrace && ebpf_collector_runs(config, c.kernel_ebpf_meltdown) {
        let mut queues: Vec<QueuePlan> = Vec::new();
        queues.push(l7_queue(user_config));
        queues.push(
            QueuePlan {
                module: "1-tagged-flow-to-app-protocol-logs",
                size: user_config.flow_generator_queue_size,
            },
        );
        assert(queues@ =~= seq![
            queue("1-l7-stats-to-quadruple-generator", user_config.flow_generator_queue_size),
            queue("1-tagged-flow-to-app-protocol-logs", user_config.flow_generator_queue_size),
        ]);
        Some(
            ServicePlan {
                queues,
                l7_collector: new_l7_collector(ebpf_id, user_config, c.time_unit, true, true),
            },
        )
    } else {
        None
    };
    let mut queues: Vec<QueuePlan> = Vec::new();
    queues.push(l7_queue(user_config));
    assert(queues@ =~= seq![
        queue("1-l7-stats-to-quadruple-generator", user_config.flow_generator_queue_size),
    ]);
    AgentPlan {
        host_checks: host,
        capture_checks: capture,
        policy_queues: policy_queue_count(config.dispatcher.capture_mode, n),
        receive_limit: receive_limit(&config.dispatcher),
        process_listener: user_config.process_listener_enabled,
        toa_queue: QueuePlan {
            module: "1-socket-sync-toa-info-queue",
            size: user_config.toa_queue_size,
        },
        toa_cache_buckets: toa_cache_buckets(user_config.toa_cache_size),
        senders: plan_senders(config, c.features),
        dispatchers,
        dpdk_queues: dpdk_queues(c.features, user_config, n),
        tap_interfaces: taps,
        ebpf,
        metrics_server: ServicePlan {
            queues,
            l7_collector: new_l7_collector(server_id, user_config, c.time_unit, true, true),
        },
        last_id: server_id,
    }
}

/// No number is given twice: dispatchers, the source of eBPF data and the server for external
/// metrics have different numbers, all of them at most the last one given.
pub proof fn numbers_are_given_once(
    plan: AgentPlan,
    c: BuildContext,
    found: Seq<InputView>,
    root: Seq<LinkView>,
)
    requires
        plan.follows(c, found, root),
        planned_inputs(*c.config, found, root).len() < usize::MAX,
    ensures
        forall|i: int, j: int|
            0 <= i < j < plan.dispatchers@.len() ==> (#[trigger] plan.dispatchers@[i]).plan.id < (
            #[trigger] plan.dispatchers@[j]).plan.id,
        forall|i: int|
            0 <= i < plan.dispatchers@.len() ==> (#[trigger] plan.dispatchers@[i]).plan.id + 1
                < plan.metrics_server.l7_collector.id,
        plan.ebpf matches Some(s) ==> s.l7_collector.id + 1 == plan.metrics_server.l7_collector.id,
        plan.metrics_server.l7_collector.id == plan.last_id,
{
}

/// What a new configuration does to the dispatchers. Those that stay are told first; then those
/// that go are stopped, and new ones are built and started.
pub enum ComponentChange {
    Local {
        change: LocalChange,
        /// For each dispatcher what it is told, unless it goes.
        told: Vec<Option<Notice>>,
        build: Vec<DispatcherBuild>,
    },
    Mirror {
        change: MirrorChange,
        /// For each dispatcher what it is told.
        told: Vec<Notice>,
        build: Vec<DispatcherBuild>,
        /// Whether there are other capture network types than before.
        tap_types_updated: bool,
    },
}

/// A dispatcher on one of the host's interfaces.
pub open spec fn on_host(link: LinkView) -> InputView {
    InputView { links: seq![link], netns: NsView::Root }
}

impl ComponentChange {
    /// Whether this is what a configuration does to the dispatchers, where `found` holds for each
    /// dispatcher the interfaces in its namespace, `root` the host's, and the blacklist and the
    /// capture network types are those given with it.
    pub open spec fn follows(
        &self,
        c: BuildContext,
        before: AgentComponents,
        found: Seq<Vec<Link>>,
        root: Seq<Link>,
        blacklist: Seq<u64>,
        tap_types: Seq<Vec<u8>>,
    ) -> bool {
        let dispatchers = before.dispatcher_components@;
        match *self {
            ComponentChange::Local { change, told, build } => {
                &&& c.config.dispatcher.capture_mode == PacketCaptureType::Local
                &&& change.follows(
                    *c.config,
                    found,
                    root,
                    before.last_dispatcher_component_id,
                )
                &&& told@.len() == found.len()
                &&& forall|i: int|
                    0 <= i < found.len() ==> match #[trigger] told@[i] {
                        Some(n) => change.keep@[i] && n.tells(
                            dispatchers[i].id,
                            links_of(found[i]@),
                            c.config.dispatcher,
                            blacklist,
                            c.vm_mac_addrs@,
                            c.gateway_vmac_addrs@,
                        ),
                        None => !change.keep@[i],
                    }
                &&& match change.build {
                    Some(id) => build@.len() == 1 && c.builds(
                        build@[0],
                        id,
                        InputView { links: links_of(root), netns: NsView::Root },
                        false,
                    ),
                    None => build@.len() == 0,
                }
            },
            ComponentChange::Mirror { change, told, build, tap_types_updated } => {
                &&& c.config.dispatcher.capture_mode != PacketCaptureType::Local
                &&& change.follows(
                    *c.config,
                    dispatchers,
                    links_of(root),
                    links_of(before.tap_interfaces@),
                    before.last_dispatcher_component_id,
                )
                &&& told@.len() == dispatchers.len()
                &&& forall|i: int|
                    0 <= i < dispatchers.len() ==> (#[trigger] told@[i]).tells(
                        dispatchers[i].id,
                        links_of(root),
                        c.config.dispatcher,
                        blacklist,
                        c.vm_mac_addrs@,
                        c.gateway_vmac_addrs@,
                    )
                &&& tap_types_updated == (change.parse_tap_types && !same_types(
                    before.cur_tap_types@,
                    tap_types,
                ))
                &&& match change.reconciliation {
                    Some(plan) => {
                        &&& build@.len() == plan.build@.len()
                        &&& forall|i: int|
                            0 <= i < build@.len() ==> c.builds(
                                #[trigger] build@[i],
                                (before.last_dispatcher_component_id + 1 + i) as usize,
                                on_host(plan.build@[i]@),
                                false,
                            )
                    },
                    None => build@.len() == 0,
                }
            },
        }
    }

    /// Whether this says of each dispatcher whether it stays.
    pub open spec fn concerns(&self, components: AgentComponents) -> bool {
        let n = components.dispatcher_components@.len();
        match *self {
            ComponentChange::Local { change, .. } => change.keep@.len() == n,
            ComponentChange::Mirror { change, .. } => change.reconciliation matches Some(plan)
                ==> plan.keep@.len() == n,
        }
    }

    /// Whether the components are what this makes of others. The interfaces that are captured on
    /// are remembered where mirrored traffic is analysed.
    pub open spec fn is_applied(&self, before: AgentComponents, after: AgentComponents) -> bool {
        &&& after == (AgentComponents {
            dispatcher_components: after.dispatcher_components,
            last_dispatcher_component_id: after.last_dispatcher_component_id,
            tap_interfaces: after.tap_interfaces,
            cur_tap_types: after.cur_tap_types,
            ..before
        })
        &&& match *self {
            ComponentChange::Local { change, build, .. } => {
                &&& after.has_taken_over(before, change.keep@, build@)
                &&& after.last_dispatcher_component_id == change.last_id
                &&& after.tap_interfaces == before.tap_interfaces
            },
            ComponentChange::Mirror { change, build, .. } => match change.reconciliation {
                Some(plan) => {
                    &&& after.has_taken_over(before, plan.keep@, build@)
                    &&& after.last_dispatcher_component_id == plan.last_id
                    &&& links_of(after.tap_interfaces@) == links_of(plan.tap_interfaces@)
                },
                None => {
                    &&& after.dispatcher_components == before.dispatcher_components
                    &&& after.last_dispatcher_component_id == before.last_dispatcher_component_id
                    &&& after.tap_interfaces == before.tap_interfaces
                },
            },
        }
    }

    /// Whether no dispatcher is stopped and none is built.
    pub open spec fn leaves_all(&self) -> bool {
        match *self {
            ComponentChange::Local { change, build, .. } => {
                &&& forall|i: int| 0 <= i < change.keep@.len() ==> #[trigger] change.keep@[i]
                &&& build@.len() == 0
            },
            ComponentChange::Mirror { change, build, .. } => change.reconciliation is None
                && build@.len() == 0,
        }
    }
}

/// What each dispatcher that stays is told where each captures in its own namespace.
fn tell_kept(
    c: &BuildContext,
    dispatchers: &Vec<DispatcherComponent>,
    keep: &Vec<bool>,
    found: &Vec<Vec<Link>>,
    blacklist: &Vec<u64>,
) -> (r: Vec<Option<Notice>>)
    requires
        found.len() == dispatchers.len(),
        keep.len() == dispatchers.len(),
    ensures
        r@.len() == dispatchers@.len(),
        forall|i: int|
            0 <= i < r@.len() ==> match #[trigger] r@[i] {
                Some(n) => keep@[i] && n.tells(
                    dispatchers@[i].id,
                    links_of(found@[i]@),
                    c.config.dispatcher,
                    blacklist@,
                    c.vm_mac_addrs@,
                    c.gateway_vmac_addrs@,
                ),
                None => !keep@[i],
            },
{
    let mut r: Vec<Option<Notice>> = Vec::new();
    let mut i: usize = 0;
    while i < dispatchers.len()
        invariant
            i <= dispatchers.len(),
            found.len() == dispatchers.len(),
            keep.len() == dispatchers.len(),
            r@.len() == i,
            forall|j: int|
                0 <= j < i ==> match #[trigger] r@[j] {
                    Some(n) => keep@[j] && n.tells(
                        dispatchers@[j].id,
                        links_of(found@[j]@),
                        c.config.dispatcher,
                        blacklist@,
                        c.vm_mac_addrs@,
                        c.gateway_vmac_addrs@,
                    ),
                    None => !keep@[j],
                },
        decreases dispatchers.len() - i,
    {
        let notice = if keep[i] {
            Some(
                tell(
                    dispatchers[i].id,
                    &found[i],
                    &c.config.dispatcher,
                    blacklist,
                    c.vm_mac_addrs,
                    c.gateway_vmac_addrs,
                ),
            )
        } else {
            None
        };
        r.push(notice);
        i = i + 1;
    }
    r
}

/// What each dispatcher is told where all capture on the host's interfaces.
fn tell_all(
    c: &BuildContext,
    dispatchers: &Vec<DispatcherComponent>,
    root: &Vec<Link>,
    blacklist: &Vec<u64>,
) -> (r: Vec<Notice>)
    ensures
        r@.len() == dispatchers@.len(),
        forall|i: int|
            0 <= i < r@.len() ==> (#[trigger] r@[i]).tells(
                dispatchers@[i].id,
                links_of(root@),
                c.config.dispatcher,
                blacklist@,
                c.vm_mac_addrs@,
                c.gateway_vmac_addrs@,
            ),
{
    let mut r: Vec<Notice> = Vec::new();
    let mut i: usize = 0;
    while i < dispatchers.len()
        invariant
            i <= dispatchers.len(),
            r@.len() == i,
            forall|j: int|
                0 <= j < i ==> (#[trigger] r@[j]).tells(
                    dispatchers@[j].id,
                    links_of(root@),
                    c.config.dispatcher,
                    blacklist@,
                    c.vm_mac_addrs@,
                    c.gateway_vmac_addrs@,
                ),
        decreases dispatchers.len() - i,
    {
        r.push(
            tell(
                dispatchers[i].id,
                root,
                &c.config.dispatcher,
                blacklist,
                c.vm_mac_addrs,
                c.gateway_vmac_addrs,
            ),
        );
        i = i + 1;
    }
    r
}

fn build_each(c: &BuildContext, links: &Vec<Link>, last_id: usize) -> (r: Vec<DispatcherBuild>)
    requires
        c.fits(),
        last_id + links.len() <= usize::MAX,
    ensures
        r@.len() == links@.len(),
        forall|i: int|
            0 <= i < r@.len() ==> c.builds(
                #[trigger] r@[i],
                (last_id + 1 + i) as usize,
                on_host(links@[i]@),
                false,
            ),
{
    let mut r: Vec<DispatcherBuild> = Vec::new();
    let mut i: usize = 0;
    while i < links.len()
        invariant
            i <= links.len(),
            c.fits(),
            last_id + links.len() <= usize::MAX,
            r@.len() == i,
            forall|j: int|
                0 <= j < i ==> c.builds(
                    #[trigger] r@[j],
                    (last_id + 1 + j) as usize,
                    on_host(links@[j]@),
                    false,
                ),
        decreases links.len() - i,
    {
        let mut one: Vec<Link> = Vec::new();
        one.push(links[i].copy());
        let input = DispatcherInput { links: one, netns: NsFile::Root };
        assert(links_of(one@) =~= seq![links@[i as int]@]);
        assert(input@ == on_host(links@[i as int]@));
        r.push(c.build_dispatcher(last_id + 1 + i, input, false));
        i = i + 1;
    }
    r
}

/// Brings the components in line with a new configuration; the result says what is done for it.
/// The capture network types given with it are taken over where a physical mirror is analysed.
pub fn component_on_config_change(
    c: &BuildContext,
    components: &mut AgentComponents,
    found: &Vec<Vec<Link>>,
    root: &Vec<Link>,
    blacklist: &Vec<u64>,
    tap_types: &Vec<Vec<u8>>,
) -> (r: ComponentChange)
    requires
        c.fits(),
        old(components).last_dispatcher_component_id + root.len() + 1 <= usize::MAX,
        c.config.dispatcher.capture_mode == PacketCaptureType::Local ==> found.len() == old(
            components,
        ).dispatcher_components.len(),
    ensures
        r.follows(*c, *old(components), found@, root@, blacklist@, tap_types@),
        r.is_applied(*old(components), *final(components)),
        if c.config.dispatcher.capture_mode == PacketCaptureType::Analyzer {
            same_types(final(components).cur_tap_types@, tap_types@)
        } else {
            final(components).cur_tap_types@ == old(components).cur_tap_types@
        },
{
    let last_id: usize = components.last_dispatcher_component_id;
    let r = match c.config.dispatcher.capture_mode {
        PacketCaptureType::Local => {
            let change = change_local(c.config, found, root, last_id);
            let told = tell_kept(
                c,
                &components.dispatcher_components,
                &change.keep,
                found,
                blacklist,
            );
            let mut build: Vec<DispatcherBuild> = Vec::new();
            if let Some(id) = change.build {
                let input = DispatcherInput { links: copy_links(root), netns: NsFile::Root };
                build.push(c.build_dispatcher(id, input, false));
            }
            ComponentChange::Local { change, told, build }
        },
        _ => {
            let told = tell_all(c, &components.dispatcher_components, root, blacklist);
            let change = change_mirror(
                c.config,
                &components.dispatcher_components,
                root,
                &components.tap_interfaces,
                last_id,
            );
            let tap_types_updated = if change.parse_tap_types {
                parse_tap_type(&mut components.cur_tap_types, tap_types)
            } else {
                false
            };
            let build = match &change.reconciliation {
                Some(plan) => build_each(c, &plan.build, last_id),
                None => Vec::new(),
            };
            ComponentChange::Mirror { change, told, build, tap_types_updated }
        },
    };
    components.apply(&r);
    r
}

/// Dispatchers that a new configuration adds have numbers that were never given before, all
/// different, and the last of them is remembered as the last one given.
pub proof fn added_dispatchers_have_new_numbers(
    r: ComponentChange,
    c: BuildContext,
    before: AgentComponents,
    after: AgentComponents,
    found: Seq<Vec<Link>>,
    root: Seq<Link>,
    blacklist: Seq<u64>,
    tap_types: Seq<Vec<u8>>,
)
    requires
        r.follows(c, before, found, root, blacklist, tap_types),
        r.is_applied(before, after),
        before.last_dispatcher_component_id + root.len() + 1 <= usize::MAX,
    ensures
        ({
            let build = match r {
                ComponentChange::Local { build, .. } => build@,
                ComponentChange::Mirror { build, .. } => build@,
            };
            &&& after.last_dispatcher_component_id == before.last_dispatcher_component_id
                + build.len()
            &&& forall|i: int|
                0 <= i < build.len() ==> (#[trigger] build[i]).plan.id
                    == before.last_dispatcher_component_id + 1 + i
        }),
{
    if let ComponentChange::Mirror { change, build, .. } = r {
        if let Some(plan) = change.reconciliation {
            lemma_missing_is_shorter(
                links_of(plan.tap_interfaces@),
                links_of(before.tap_interfaces@),
            );
            assert(links_of(plan.build@).len() == plan.build@.len());
            links_of(plan.tap_interfaces@).to_multiset_ensures();
            links_of(root).to_multiset_ensures();
            assert(links_of(root).len() == root.len());
        }
    }
}

proof fn lemma_missing_is_shorter(links: Seq<LinkView>, known: Seq<LinkView>)
    ensures
        missing_from(links, known).len() <= links.len(),
    decreases links.len(),
{
    if links.len() > 0 {
        lemma_missing_is_shorter(links.drop_last(), known);
    }
}

proof fn lemma_retained_are_wanted<T>(
    items: Seq<T>,
    keep: Seq<bool>,
    wanted: spec_fn(T) -> bool,
)
    requires
        items.len() <= keep.len(),
        forall|i: int| 0 <= i < items.len() && keep[i] ==> wanted(#[trigger] items[i]),
    ensures
        forall|i: int|
            0 <= i < retained(items, keep).len() ==> wanted(#[trigger] retained(items, keep)[i]),
        retained(items, keep).len() == 0 ==> forall|i: int|
            0 <= i < items.len() ==> !#[trigger] keep[i],
    decreases items.len(),
{
    if items.len() > 0 {
        let init = items.drop_last();
        assert forall|i: int| 0 <= i < init.len() && keep[i] implies wanted(#[trigger] init[i]) by {
            assert(init[i] == items[i]);
        }
        lemma_retained_are_wanted(init, keep, wanted);
        assert(items[items.len() - 1] == items.last());
    }
}

/// What is found for the dispatchers after a change, where the interfaces are the same: in each
/// namespace what was found there before, and for a new dispatcher the host's.
pub open spec fn found_after(
    r: ComponentChange,
    found: Seq<Vec<Link>>,
    root: Seq<Link>,
) -> Seq<Seq<Link>> {
    let before = found.map_values(|v: Vec<Link>| v@);
    match r {
        ComponentChange::Local { change, build, .. } => retained(before, change.keep@) + Seq::new(
            build@.len(),
            |i: int| root,
        ),
        ComponentChange::Mirror { .. } => before,
    }
}

/// Once a configuration is in effect, the same one with the same interfaces stops no dispatcher
/// and builds none.
pub proof fn the_same_interfaces_change_nothing(
    c: BuildContext,
    root: Seq<Link>,
    before: AgentComponents,
    found: Seq<Vec<Link>>,
    blacklist: Seq<u64>,
    tap_types: Seq<Vec<u8>>,
    r: ComponentChange,
    after: AgentComponents,
    found_again: Seq<Vec<Link>>,
    blacklist_again: Seq<u64>,
    tap_types_again: Seq<Vec<u8>>,
    again: ComponentChange,
)
    requires
        before.last_dispatcher_component_id + root.len() + 1 <= usize::MAX,
        r.follows(c, before, found, root, blacklist, tap_types),
        r.is_applied(before, after),
        found_again.map_values(|v: Vec<Link>| v@) == found_after(r, found, root),
        again.follows(c, after, found_again, root, blacklist_again, tap_types_again),
    ensures
        again.leaves_all(),
{
    match (r, again) {
        (
            ComponentChange::Local { change, build, .. },
            ComponentChange::Local { change: next, .. },
        ) => {
            let inner = c.config.dispatcher.inner_interface_capture_enabled;
            let views = found.map_values(|v: Vec<Link>| v@);
            let again_views = found_again.map_values(|v: Vec<Link>| v@);
            let wanted = |l: Seq<Link>| l.len() > 0 || inner;
            assert forall|i: int| 0 <= i < views.len() && change.keep@[i] implies wanted(
                #[trigger] views[i],
            ) by {
                assert(views[i] == found[i]@);
            }
            lemma_retained_are_wanted(views, change.keep@, wanted);
            let stay = retained(views, change.keep@);
            assert forall|i: int| 0 <= i < next.keep@.len() implies #[trigger] next.keep@[i] by {
                assert(again_views[i] == found_again[i]@);
                if i < stay.len() {
                    assert(again_views[i] == stay[i]);
                    assert(wanted(stay[i]));
                } else {
                    let new = Seq::new(build@.len(), |k: int| root);
                    assert(again_views == stay + new);
                    assert(again_views.len() == next.keep@.len());
                    assert(again_views[i] == new[i - stay.len()]);
                }
            }
            if next.keep@.len() == 0 {
                assert(again_views.len() == 0);
                assert(stay.len() == 0 && build@.len() == 0);
                assert(none_kept(change.keep@));
            } else {
                assert(next.keep@[0]);
                assert(!none_kept(next.keep@));
            }
        },
        (
            ComponentChange::Mirror { change, .. },
            ComponentChange::Mirror { change: next, .. },
        ) => {
            if let Some(plan) = next.reconciliation {
                let now = match change.reconciliation {
                    Some(p) => p.tap_interfaces@,
                    None => choose|now: Seq<Link>|
                        is_sorted(now) && #[trigger] links_of(now).to_multiset() == links_of(
                            root,
                        ).to_multiset() && links_of(now) == links_of(before.tap_interfaces@),
                };
                sorted_links_are_unique(now, plan.tap_interfaces@);
            }
        },
        _ => {},
    }
}

} // verus!
