//! The agent's components: the queues and senders between them, and the order in which they are
//! started and stopped.
use super::assembly::{plan_agent, AgentPlan, BuildContext, ComponentChange, DispatcherBuild};
use super::config::{ModuleConfig, PacketCaptureType, UserConfig};
use super::interfaces::DispatcherInput;
use super::link::{copy_links, Link, NsFile};
use super::sender::SenderEncoder;
use super::state::RunningMode;
use vstd::prelude::*;

verus! {

use super::interfaces::{inputs_of, planned_inputs, InputView};
use super::link::{links_of, LinkView};

/// Potential delay from other steps of flow processing, in seconds.
pub const COMMON_DELAY: u64 = 5;

/// Potential delay from the generation of quadruples, in seconds.
pub const QG_PROCESS_MAX_DELAY: u64 = 5;

/// Seconds in a minute.
pub const MINUTE: u64 = 60;

/// How many hosts a quadruple generator is prepared for.
pub const POSSIBLE_HOST_SIZE: usize = 262144;

/// What the agent was built with.
#[derive(Debug, Clone, Copy, PartialEq, Eq, Structural)]
pub struct Features {
    /// Tracing with eBPF.
    pub libtrace: bool,
    /// The enterprise edition's integrations.
    pub integration: bool,
}

/// How far behind the flows that leave the flow map may be: the delay of packets and of flows,
/// one tick of the map, and the flush interval twice, since a full output buffer may advance the
/// window by one.
pub open spec fn flow_delay(config: UserConfig, time_unit: u64) -> int {
    config.max_tolerable_packet_delay + time_unit + config.flow_flush_interval + COMMON_DELAY
        + config.extra_tolerable_flow_delay + config.flow_flush_interval
}

/// The delay in seconds that the consumers of flows tolerate; `time_unit` is one tick of the
/// flow map.
pub fn get_flowgen_tolerable_delay(config: &UserConfig, time_unit: u64) -> (r: u64)
    requires
        flow_delay(*config, time_unit) <= u64::MAX,
    ensures
        r == flow_delay(*config, time_unit),
{
    config.max_tolerable_packet_delay + time_unit + config.flow_flush_interval + COMMON_DELAY
        + config.extra_tolerable_flow_delay + config.flow_flush_interval
}

/// A bounded queue between two components.
#[derive(Debug, Clone, Copy)]
pub struct QueuePlan {
    pub module: &'static str,
    pub size: usize,
}

pub open spec fn queue(module: &'static str, size: usize) -> QueuePlan {
    QueuePlan { module, size }
}

/// How the metrics of one dispatcher's flows are collected.
pub struct CollectorPlan {
    pub id: usize,
    pub queues: Vec<QueuePlan>,
    /// The delay of the aggregation to minutes, if there is one.
    pub aggregator_delay: Option<u64>,
    pub connection_lru_capacity: usize,
    pub possible_host_size: usize,
    pub second_delay: u64,
    pub minute_delay: u64,
    /// The delay of the collector for seconds, if there is one.
    pub second_collector: Option<u64>,
    /// The delay of the collector for minutes, if there is one.
    pub minute_collector: Option<u64>,
}

/// Whether all delays can be given in seconds.
pub open spec fn delays_fit(config: UserConfig, time_unit: u64) -> bool {
    flow_delay(config, time_unit) + MINUTE + QG_PROCESS_MAX_DELAY <= u64::MAX
}

/// The delays of the two windows and of the collectors behind them.
pub open spec fn has_delays(plan: CollectorPlan, delay: int, second: bool, minute: bool) -> bool {
    &&& plan.second_delay == delay
    &&& plan.minute_delay == delay + MINUTE
    &&& plan.second_collector == (if second {
        Some((delay + QG_PROCESS_MAX_DELAY) as u64)
    } else {
        None
    })
    &&& plan.minute_collector == (if minute {
        Some((delay + MINUTE + QG_PROCESS_MAX_DELAY) as u64)
    } else {
        None
    })
}

fn collector_delay(wanted: bool, delay: u64) -> (r: Option<u64>)
    requires
        delay + QG_PROCESS_MAX_DELAY <= u64::MAX,
    ensures
        r == (if wanted {
            Some((delay + QG_PROCESS_MAX_DELAY) as u64)
        } else {
            None
        }),
{
    if wanted {
        Some(delay + QG_PROCESS_MAX_DELAY)
    } else {
        None
    }
}

/// Whether a plan is the one for the metrics of a dispatcher's flows, in windows of seconds,
/// minutes or both. Flows are aggregated to minutes where something takes the result.
pub open spec fn collects(
    r: CollectorPlan,
    id: usize,
    config: UserConfig,
    time_unit: u64,
    aggregated: bool,
    second: bool,
    minute: bool,
) -> bool {
    &&& r.id == id
    &&& r.queues@ == (if aggregated {
        seq![queue("2-second-flow-to-minute-aggrer", config.flow_aggregator_queue_size)]
    } else {
        seq![]
    }) + seq![
        queue("2-flow-with-meter-to-second-collector", config.quadruple_generator_queue_size),
        queue("2-flow-with-meter-to-minute-collector", config.quadruple_generator_queue_size),
    ]
    &&& r.aggregator_delay == (if aggregated {
        Some(flow_delay(config, time_unit) as u64)
    } else {
        None
    })
    &&& r.connection_lru_capacity == config.flow_map_hash_slots * 8
    &&& r.possible_host_size == POSSIBLE_HOST_SIZE
    &&& has_delays(r, flow_delay(config, time_unit), second, minute)
}

/// How the metrics of a dispatcher's flows are collected.
pub fn new_collector(
    id: usize,
    config: &UserConfig,
    time_unit: u64,
    aggregated: bool,
    second: bool,
    minute: bool,
) -> (r: CollectorPlan)
    requires
        delays_fit(*config, time_unit),
        config.flow_map_hash_slots * 8 <= usize::MAX,
    ensures
        collects(r, id, *config, time_unit, aggregated, second, minute),
{
    let delay: u64 = get_flowgen_tolerable_delay(config, time_unit);
    let minute_delay: u64 = MINUTE + delay;
    let mut queues: Vec<QueuePlan> = Vec::new();
    if aggregated {
        queues.push(
            QueuePlan {
                module: "2-second-flow-to-minute-aggrer",
                size: config.flow_aggregator_queue_size,
            },
        );
    }
    queues.push(
        QueuePlan {
            module: "2-flow-with-meter-to-second-collector",
            size: config.quadruple_generator_queue_size,
        },
    );
    queues.push(
        QueuePlan {
            module: "2-flow-with-meter-to-minute-collector",
            size: config.quadruple_generator_queue_size,
        },
    );
    assert(queues@ =~= (if aggregated {
        seq![queue("2-second-flow-to-minute-aggrer", config.flow_aggregator_queue_size)]
    } else {
        seq![]
    }) + seq![
        queue("2-flow-with-meter-to-second-collector", config.quadruple_generator_queue_size),
        queue("2-flow-with-meter-to-minute-collector", config.quadruple_generator_queue_size),
    ]);
    CollectorPlan {
        id,
        queues,
        aggregator_delay: if aggregated {
            Some(delay)
        } else {
            None
        },
        connection_lru_capacity: config.flow_map_hash_slots as usize * 8,
        possible_host_size: POSSIBLE_HOST_SIZE,
        second_delay: delay,
        minute_delay,
        second_collector: collector_delay(second, delay),
        minute_collector: collector_delay(minute, minute_delay),
    }
}

/// Whether a plan is the one for the metrics of a dispatcher's requests. The delays are those of
/// the flows, so that the two line up.
pub open spec fn collects_l7(
    r: CollectorPlan,
    id: usize,
    config: UserConfig,
    time_unit: u64,
    second: bool,
    minute: bool,
) -> bool {
    &&& r.id == id
    &&& r.queues@ == seq![
        queue("2-flow-with-meter-to-l7-second-collector", config.quadruple_generator_queue_size),
        queue("2-flow-with-meter-to-l7-minute-collector", config.quadruple_generator_queue_size),
    ]
    &&& r.aggregator_delay is None
    &&& r.connection_lru_capacity == 0
    &&& r.possible_host_size == POSSIBLE_HOST_SIZE
    &&& has_delays(r, flow_delay(config, time_unit), second, minute)
}

/// How the metrics of a dispatcher's requests are collected.
pub fn new_l7_collector(
    id: usize,
    config: &UserConfig,
    time_unit: u64,
    second: bool,
    minute: bool,
) -> (r: CollectorPlan)
    requires
        delays_fit(*config, time_unit),
    ensures
        collects_l7(r, id, *config, time_unit, second, minute),
{
    let delay: u64 = get_flowgen_tolerable_delay(config, time_unit);
    let minute_delay: u64 = MINUTE + delay;
    let mut queues: Vec<QueuePlan> = Vec::new();
    queues.push(
        QueuePlan {
            module: "2-flow-with-meter-to-l7-second-collector",
            size: config.quadruple_generator_queue_size,
        },
    );
    queues.push(
        QueuePlan {
            module: "2-flow-with-meter-to-l7-minute-collector",
            size: config.quadruple_generator_queue_size,
        },
    );
    assert(queues@ =~= seq![
        queue("2-flow-with-meter-to-l7-second-collector", config.quadruple_generator_queue_size),
        queue("2-flow-with-meter-to-l7-minute-collector", config.quadruple_generator_queue_size),
    ]);
    CollectorPlan {
        id,
        queues,
        aggregator_delay: None,
        connection_lru_capacity: 0,
        possible_host_size: POSSIBLE_HOST_SIZE,
        second_delay: delay,
        minute_delay,
        second_collector: collector_delay(second, delay),
        minute_collector: collector_delay(minute, minute_delay),
    }
}

/// The queues of a dispatcher.
pub open spec fn queues_of(config: UserConfig) -> Seq<QueuePlan> {
    seq![
        queue("1-tagged-flow-to-quadruple-generator", config.flow_generator_queue_size),
        queue("1-l7-stats-to-quadruple-generator", config.flow_generator_queue_size),
        queue("1-tagged-flow-to-app-protocol-logs", config.flow_generator_queue_size),
        queue("1-packet-sequence-block-to-parser", config.tcp_header_queue_size),
        queue("1-mini-meta-packet-to-pcap-handler", config.pcap_receiver_queue_size),
    ]
}

/// The queues of a dispatcher, in the order in which they are made.
pub fn dispatcher_queues(config: &UserConfig) -> (r: Vec<QueuePlan>)
    ensures
        r@ == queues_of(*config),
{
    let mut r: Vec<QueuePlan> = Vec::new();
    r.push(
        QueuePlan {
            module: "1-tagged-flow-to-quadruple-generator",
            size: config.flow_generator_queue_size,
        },
    );
    r.push(
        QueuePlan {
            module: "1-l7-stats-to-quadruple-generator",
            size: config.flow_generator_queue_size,
        },
    );
    r.push(
        QueuePlan {
            module: "1-tagged-flow-to-app-protocol-logs",
            size: config.flow_generator_queue_size,
        },
    );
    r.push(
        QueuePlan {
            module: "1-packet-sequence-block-to-parser",
            size: config.tcp_header_queue_size,
        },
    );
    r.push(
        QueuePlan {
            module: "1-mini-meta-packet-to-pcap-handler",
            size: config.pcap_receiver_queue_size,
        },
    );
    r
}

/// Which connection a sender uses.
#[derive(Debug, Clone, Copy, PartialEq, Eq, Structural)]
pub enum SharedConnection {
    /// One of its own.
    Own,
    /// The one shared by packet captures and packet sequences.
    Pcap,
    /// The one shared by Prometheus and Telegraf data.
    Prometheus,
}

/// A thread that sends what is in its queue.
#[derive(Debug, Clone, Copy)]
pub struct SenderPlan {
    pub queue: QueuePlan,
    pub encoder: SenderEncoder,
    pub connection: SharedConnection,
}

pub open spec fn sender(
    module: &'static str,
    size: usize,
    compressed: bool,
    connection: SharedConnection,
) -> SenderPlan {
    SenderPlan {
        queue: QueuePlan { module, size },
        encoder: if compressed {
            SenderEncoder::Zstd
        } else {
            SenderEncoder::Raw
        },
        connection,
    }
}

fn plan_sender(
    module: &'static str,
    size: usize,
    compressed: bool,
    connection: SharedConnection,
) -> (r: SenderPlan)
    ensures
        r == sender(module, size, compressed, connection),
{
    SenderPlan {
        queue: QueuePlan { module, size },
        encoder: SenderEncoder::compressed_if(compressed),
        connection,
    }
}

/// All senders.
pub open spec fn senders_of(c: ModuleConfig, features: Features) -> Seq<SenderPlan> {
    seq![
        sender(
            "3-flowlog-to-collector-sender",
            c.user_config.flow_generator_queue_size,
            c.metric_server.l4_flow_log_compressed,
            SharedConnection::Own,
        ),
        sender(
            "3-doc-to-collector-sender",
            c.user_config.metrics_queue_size,
            false,
            SharedConnection::Own,
        ),
        sender(
            "2-protolog-to-collector-sender",
            c.user_config.collector_queue_size,
            c.metric_server.l7_flow_log_compressed,
            SharedConnection::Own,
        ),
        sender(
            "2-pcap-batch-to-sender",
            c.user_config.pcap_queue_size,
            c.user_config.pcap_compressed,
            SharedConnection::Pcap,
        ),
        sender(
            "2-packet-sequence-block-to-sender",
            c.user_config.tcp_header_queue_size,
            false,
            SharedConnection::Pcap,
        ),
    ] + (if features.libtrace {
        seq![
        sender(
            "1-proc-event-to-sender",
            c.user_config.ebpf_queue_size,
            false,
            SharedConnection::Own,
        ),
    ]
    } else {
        seq![]
    }) + seq![
        sender("1-profile-to-sender", c.user_config.ebpf_queue_size, false, SharedConnection::Own),
        sender(
            "1-application-log-to-sender",
            c.user_config.flow_aggregator_queue_size,
            c.metric_server.application_log_compressed,
            SharedConnection::Own,
        ),
    ] + (if features.integration {
        seq![
        sender(
            "1-skywalking-to-sender",
            c.user_config.flow_aggregator_queue_size,
            c.metric_server.compressed,
            SharedConnection::Own,
        ),
    ]
    } else {
        seq![]
    }) + seq![
        sender(
            "1-datadog-to-sender",
            c.user_config.flow_aggregator_queue_size,
            c.metric_server.compressed,
            SharedConnection::Own,
        ),
        sender(
            "1-otel-to-sender",
            c.user_config.flow_aggregator_queue_size,
            c.metric_server.compressed,
            SharedConnection::Own,
        ),
        sender(
            "1-prometheus-to-sender",
            c.user_config.flow_aggregator_queue_size,
            false,
            SharedConnection::Prometheus,
        ),
        sender(
            "1-telegraf-to-sender",
            c.user_config.flow_aggregator_queue_size,
            false,
            SharedConnection::Prometheus,
        ),
        sender(
            "1-compressed-otel-to-sender",
            c.user_config.flow_aggregator_queue_size,
            false,
            SharedConnection::Own,
        ),
    ]
}

/// The senders, in the order in which they are made.
pub fn plan_senders(config: &ModuleConfig, features: Features) -> (r: Vec<SenderPlan>)
    ensures
        r@ == senders_of(*config, features),
{
    let mut r: Vec<SenderPlan> = Vec::new();
    r.push(
        plan_sender(
            "3-flowlog-to-collector-sender",
            config.user_config.flow_generator_queue_size,
            config.metric_server.l4_flow_log_compressed,
            SharedConnection::Own,
        ),
    );
    r.push(
        plan_sender(
            "3-doc-to-collector-sender",
            config.user_config.metrics_queue_size,
            false,
            SharedConnection::Own,
        ),
    );
    r.push(
        plan_sender(
            "2-protolog-to-collector-sender",
            config.user_config.collector_queue_size,
            config.metric_server.l7_flow_log_compressed,
            SharedConnection::Own,
        ),
    );
    r.push(
        plan_sender(
            "2-pcap-batch-to-sender",
            config.user_config.pcap_queue_size,
            config.user_config.pcap_compressed,
            SharedConnection::Pcap,
        ),
    );
    r.push(
        plan_sender(
            "2-packet-sequence-block-to-sender",
            config.user_config.tcp_header_queue_size,
            false,
            SharedConnection::Pcap,
        ),
    );
    if features.libtrace {
        r.push(
            plan_sender(
                "1-proc-event-to-sender",
                config.user_config.ebpf_queue_size,
                false,
                SharedConnection::Own,
            ),
        );
    }
    r.push(
        plan_sender(
            "1-profile-to-sender",
            config.user_config.ebpf_queue_size,
            false,
            SharedConnection::Own,
        ),
    );
    r.push(
        plan_sender(
            "1-application-log-to-sender",
            config.user_config.flow_aggregator_queue_size,
            config.metric_server.application_log_compressed,
            SharedConnection::Own,
        ),
    );
    if features.integration {
        r.push(
            plan_sender(
                "1-skywalking-to-sender",
                config.user_config.flow_aggregator_queue_size,
                config.metric_server.compressed,
                SharedConnection::Own,
            ),
        );
    }
    r.push(
        plan_sender(
            "1-datadog-to-sender",
            config.user_config.flow_aggregator_queue_size,
            config.metric_server.compressed,
            SharedConnection::Own,
        ),
    );
    r.push(
        plan_sender(
            "1-otel-to-sender",
            config.user_config.flow_aggregator_queue_size,
            config.metric_server.compressed,
            SharedConnection::Own,
        ),
    );
    r.push(
        plan_sender(
            "1-prometheus-to-sender",
            config.user_config.flow_aggregator_queue_size,
            false,
            SharedConnection::Prometheus,
        ),
    );
    r.push(
        plan_sender(
            "1-telegraf-to-sender",
            config.user_config.flow_aggregator_queue_size,
            false,
            SharedConnection::Prometheus,
        ),
    );
    r.push(
        plan_sender(
            "1-compressed-otel-to-sender",
            config.user_config.flow_aggregator_queue_size,
            false,
            SharedConnection::Own,
        ),
    );
    assert(r@ =~= senders_of(*config, features));
    r
}

/// The number of buckets of the cache of original client addresses.
pub fn toa_cache_buckets(cache_size: usize) -> (r: usize)
    ensures
        r == cache_size / 32,
{
    cache_size / 32
}

/// A part of the agent that is started and stopped.
#[derive(Debug, Clone, Copy, PartialEq, Eq, Structural)]
pub enum Part {
    Dispatchers,
    SocketSynchronizer,
    KubernetesPoller,
    L4FlowSender,
    MetricsSender,
    L7FlowSender,
    Debugger,
    EbpfDispatcher,
    MetricsServer,
    OtelSender,
    CompressedOtelSender,
    PrometheusSender,
    TelegrafSender,
    ProfileSender,
    ProcEventSender,
    PcapBatchSender,
    ApplicationLogSender,
    SkywalkingSender,
    DatadogSender,
    PacketSequenceSender,
    NpbBandwidthWatcher,
    NpbArpTable,
    StatsCollector,
    ProcessListener,
    Vector,
}

/// What is done to start the agent.
#[derive(Debug, Clone, Copy, PartialEq, Eq, Structural)]
pub enum StartAction {
    Start(Part),
    /// The dispatchers are started if enough memory is free.
    StartDispatchersIfMemoryIsFree,
}

/// What is done to stop the agent.
#[derive(Debug, Clone, Copy, PartialEq, Eq, Structural)]
pub enum StopAction {
    /// The policy module is left without queues.
    ResetPolicyQueues,
    Stop(Part),
    /// The part is told to stop and waited for at the end.
    NotifyStop(Part),
    /// What was told to stop is waited for.
    JoinAll,
}

/// What starting and stopping depends on.
#[derive(Debug, Clone, Copy, PartialEq, Eq, Structural)]
pub struct RunFacts {
    pub agent_mode: RunningMode,
    pub capture_mode: PacketCaptureType,
    pub is_pod_agent: bool,
    pub in_container: bool,
    pub kernel_has_cgroups: bool,
    pub ebpf_present: bool,
    pub metric_server_enabled: bool,
    pub features: Features,
}

impl RunFacts {
    /// Free memory is looked at where nothing else limits the agent.
    pub open spec fn checks_memory(self) -> bool {
        self.capture_mode != PacketCaptureType::Analyzer && !self.in_container
            && !self.kernel_has_cgroups
    }

    fn memory_is_checked(&self) -> (r: bool)
        ensures
            r == self.checks_memory(),
    {
        self.capture_mode != PacketCaptureType::Analyzer && !self.in_container
            && !self.kernel_has_cgroups
    }
}

/// What is started first: the agent's own services, and what captures.
pub open spec fn start_head(f: RunFacts) -> Seq<StartAction> {
    seq![
        StartAction::Start(Part::StatsCollector),
        StartAction::Start(Part::SocketSynchronizer),
    ] + (if f.is_pod_agent {
        seq![StartAction::Start(Part::KubernetesPoller)]
    } else {
        seq![]
    }) + seq![
        StartAction::Start(Part::Debugger),
        StartAction::Start(Part::MetricsSender),
        StartAction::Start(Part::L7FlowSender),
        StartAction::Start(Part::L4FlowSender),
        StartAction::Start(Part::PacketSequenceSender),
    ] + seq![if f.checks_memory() {
        StartAction::StartDispatchersIfMemoryIsFree
    } else {
        StartAction::Start(Part::Dispatchers)
    }] + (if f.ebpf_present {
        seq![StartAction::Start(Part::EbpfDispatcher)]
    } else {
        seq![]
    })
}

/// What is started where a controller takes the data.
pub open spec fn start_managed(f: RunFacts) -> Seq<StartAction> {
    seq![
        StartAction::Start(Part::OtelSender),
        StartAction::Start(Part::CompressedOtelSender),
        StartAction::Start(Part::PrometheusSender),
        StartAction::Start(Part::TelegrafSender),
        StartAction::Start(Part::ProfileSender),
    ] + (if f.features.libtrace {
        seq![StartAction::Start(Part::ProcEventSender)]
    } else {
        seq![]
    }) + seq![StartAction::Start(Part::ApplicationLogSender)] + (if f.features.integration {
        seq![StartAction::Start(Part::SkywalkingSender)]
    } else {
        seq![]
    }) + seq![StartAction::Start(Part::DatadogSender)] + (if f.metric_server_enabled {
        seq![StartAction::Start(Part::MetricsServer)]
    } else {
        seq![]
    }) + seq![StartAction::Start(Part::PcapBatchSender)]
}

/// What is started last.
pub open spec fn start_tail(f: RunFacts) -> Seq<StartAction> {
    seq![
        StartAction::Start(Part::NpbBandwidthWatcher),
        StartAction::Start(Part::NpbArpTable),
    ] + (if f.features.integration {
        seq![StartAction::Start(Part::Vector)]
    } else {
        seq![]
    }) + seq![StartAction::Start(Part::ProcessListener)]
}

/// What is done to start the agent, in order.
pub open spec fn start_sequence(f: RunFacts) -> Seq<StartAction> {
    start_head(f) + (if f.agent_mode == RunningMode::Managed {
        start_managed(f)
    } else {
        seq![]
    }) + start_tail(f)
}

fn push_head(out: &mut Vec<StartAction>, f: &RunFacts)
    ensures
        final(out)@ == old(out)@ + start_head(*f),
{
    let ghost before = out@;
    out.push(StartAction::Start(Part::StatsCollector));
    out.push(StartAction::Start(Part::SocketSynchronizer));
    if f.is_pod_agent {
        out.push(StartAction::Start(Part::KubernetesPoller));
    }
    out.push(StartAction::Start(Part::Debugger));
    out.push(StartAction::Start(Part::MetricsSender));
    out.push(StartAction::Start(Part::L7FlowSender));
    out.push(StartAction::Start(Part::L4FlowSender));
    out.push(StartAction::Start(Part::PacketSequenceSender));
    if f.memory_is_checked() {
        out.push(StartAction::StartDispatchersIfMemoryIsFree);
    } else {
        out.push(StartAction::Start(Part::Dispatchers));
    }
    if f.ebpf_present {
        out.push(StartAction::Start(Part::EbpfDispatcher));
    }
    assert(out@ =~= before + start_head(*f));
}

fn push_managed(out: &mut Vec<StartAction>, f: &RunFacts)
    ensures
        final(out)@ == old(out)@ + start_managed(*f),
{
    let ghost before = out@;
    out.push(StartAction::Start(Part::OtelSender));
    out.push(StartAction::Start(Part::CompressedOtelSender));
    out.push(StartAction::Start(Part::PrometheusSender));
    out.push(StartAction::Start(Part::TelegrafSender));
    out.push(StartAction::Start(Part::ProfileSender));
    if f.features.libtrace {
        out.push(StartAction::Start(Part::ProcEventSender));
    }
    out.push(StartAction::Start(Part::ApplicationLogSender));
    if f.features.integration {
        out.push(StartAction::Start(Part::SkywalkingSender));
    }
    out.push(StartAction::Start(Part::DatadogSender));
    if f.metric_server_enabled {
        out.push(StartAction::Start(Part::MetricsServer));
    }
    out.push(StartAction::Start(Part::PcapBatchSender));
    assert(out@ =~= before + start_managed(*f));
}

fn push_tail(out: &mut Vec<StartAction>, f: &RunFacts)
    ensures
        final(out)@ == old(out)@ + start_tail(*f),
{
    let ghost before = out@;
    out.push(StartAction::Start(Part::NpbBandwidthWatcher));
    out.push(StartAction::Start(Part::NpbArpTable));
    if f.features.integration {
        out.push(StartAction::Start(Part::Vector));
    }
    out.push(StartAction::Start(Part::ProcessListener));
    assert(out@ =~= before + start_tail(*f));
}

/// What is done to stop the agent, in order.
pub open spec fn stop_sequence(f: RunFacts) -> Seq<StopAction> {
    seq![
        StopAction::ResetPolicyQueues,
        StopAction::Stop(Part::Dispatchers),
        StopAction::Stop(Part::SocketSynchronizer),
        StopAction::Stop(Part::KubernetesPoller),
        StopAction::NotifyStop(Part::L4FlowSender),
        StopAction::NotifyStop(Part::MetricsSender),
        StopAction::NotifyStop(Part::L7FlowSender),
        StopAction::Stop(Part::Debugger),
    ] + (if f.ebpf_present {
        seq![StopAction::Stop(Part::EbpfDispatcher)]
    } else {
        seq![]
    }) + seq![
        StopAction::Stop(Part::MetricsServer),
        StopAction::NotifyStop(Part::OtelSender),
        StopAction::NotifyStop(Part::CompressedOtelSender),
        StopAction::NotifyStop(Part::PrometheusSender),
        StopAction::NotifyStop(Part::TelegrafSender),
        StopAction::NotifyStop(Part::ProfileSender),
    ] + (if f.features.libtrace {
        seq![StopAction::NotifyStop(Part::ProcEventSender)]
    } else {
        seq![]
    }) + seq![
        StopAction::NotifyStop(Part::PcapBatchSender),
        StopAction::NotifyStop(Part::ApplicationLogSender),
    ] + (if f.features.integration {
        seq![StopAction::NotifyStop(Part::SkywalkingSender)]
    } else {
        seq![]
    }) + seq![
        StopAction::NotifyStop(Part::DatadogSender),
        StopAction::NotifyStop(Part::PacketSequenceSender),
        StopAction::NotifyStop(Part::NpbBandwidthWatcher),
        StopAction::NotifyStop(Part::NpbArpTable),
        StopAction::NotifyStop(Part::StatsCollector),
        StopAction::NotifyStop(Part::ProcessListener),
    ] + (if f.features.integration {
        seq![StopAction::NotifyStop(Part::Vector)]
    } else {
        seq![]
    }) + seq![StopAction::JoinAll]
}

/// The items of a list that are retained, in their order.
pub open spec fn retained<T>(items: Seq<T>, keep: Seq<bool>) -> Seq<T>
    decreases items.len(),
{
    if items.len() == 0 {
        seq![]
    } else if keep[items.len() - 1] {
        retained(items.drop_last(), keep).push(items.last())
    } else {
        retained(items.drop_last(), keep)
    }
}

/// All that the agent has.
pub struct AgentComponents {
    pub running: bool,
    /// What the components were built from.
    pub plan: AgentPlan,
    /// What captures, one component for each interface or namespace.
    pub dispatcher_components: Vec<DispatcherComponent>,
    /// The interfaces on which packets are captured, sorted.
    pub tap_interfaces: Vec<Link>,
    /// The last number that was given to a dispatcher or collector.
    pub last_dispatcher_component_id: usize,
    /// The capture network types in use, each in its wire form.
    pub cur_tap_types: Vec<Vec<u8>>,
    /// Whether this is the community edition.
    pub is_ce_version: bool,
    pub capture_mode: PacketCaptureType,
    pub agent_mode: RunningMode,
}

impl AgentComponents {
    /// Whether these are the components of an agent that was built and does not run yet, where
    /// `found` are the interfaces in further namespaces and `root` those of the host.
    pub open spec fn is_new(
        &self,
        c: BuildContext,
        found: Seq<InputView>,
        root: Seq<LinkView>,
    ) -> bool {
        &&& !self.running
        &&& self.plan.follows(c, found, root)
        &&& self.dispatcher_components@.len() == self.plan.dispatchers@.len()
        &&& forall|i: int|
            0 <= i < self.dispatcher_components@.len() ==> (
            #[trigger] self.dispatcher_components@[i]).is_built_from(self.plan.dispatchers@[i])
        &&& links_of(self.tap_interfaces@) == links_of(self.plan.tap_interfaces@)
        &&& self.last_dispatcher_component_id == self.plan.last_id
        &&& self.cur_tap_types@.len() == 0
        &&& self.is_ce_version == (c.version.name@ == "zerotrace-agent-ce"@)
        &&& self.capture_mode == c.config.dispatcher.capture_mode
        &&& self.agent_mode == c.agent_mode
    }

    /// Builds the components: a dispatcher for each of the planned inputs, in order, and the
    /// interfaces that they capture on. Nothing runs yet.
    pub fn new(c: &BuildContext, found: Vec<DispatcherInput>, root: &Vec<Link>) -> (r: Self)
        requires
            c.fits(),
            planned_inputs(*c.config, inputs_of(found@), links_of(root@)).len() < usize::MAX,
        ensures
            r.is_new(*c, inputs_of(found@), links_of(root@)),
    {
        let plan = plan_agent(c, found, root);
        let mut dispatcher_components: Vec<DispatcherComponent> = Vec::new();
        let mut i: usize = 0;
        while i < plan.dispatchers.len()
            invariant
                i <= plan.dispatchers.len(),
                dispatcher_components@.len() == i,
                forall|j: int|
                    0 <= j < i ==> (#[trigger] dispatcher_components@[j]).is_built_from(
                        plan.dispatchers@[j],
                    ),
            decreases plan.dispatchers.len() - i,
        {
            dispatcher_components.push(DispatcherComponent::new(&plan.dispatchers[i]));
            i = i + 1;
        }
        AgentComponents {
            running: false,
            dispatcher_components,
            tap_interfaces: copy_links(&plan.tap_interfaces),
            last_dispatcher_component_id: plan.last_id,
            cur_tap_types: Vec::new(),
            is_ce_version: c.version.is_ce_version(),
            capture_mode: c.config.dispatcher.capture_mode,
            agent_mode: c.agent_mode,
            plan,
        }
    }

    /// Whether these are the components after some dispatchers were stopped and others were built:
    /// those that stay are as they were and in their order, and the new ones follow.
    pub open spec fn has_taken_over(
        &self,
        before: AgentComponents,
        keep: Seq<bool>,
        build: Seq<DispatcherBuild>,
    ) -> bool {
        let stay = retained(before.dispatcher_components@, keep);
        &&& self.dispatcher_components@.len() == stay.len() + build.len()
        &&& self.dispatcher_components@.take(stay.len() as int) == stay
        &&& forall|i: int|
            0 <= i < build.len() ==> self.dispatcher_components@[stay.len() + i].is_built_from(
                #[trigger] build[i],
            )
    }

    fn take_over(&mut self, keep: &Vec<bool>, build: &Vec<DispatcherBuild>)
        requires
            keep@.len() == old(self).dispatcher_components@.len(),
        ensures
            final(self).has_taken_over(*old(self), keep@, build@),
            *final(self) == (AgentComponents {
                dispatcher_components: final(self).dispatcher_components,
                ..*old(self)
            }),
    {
        let ghost all = self.dispatcher_components@;
        let mut at: usize = 0;
        let mut k: usize = 0;
        assert(all.take(0) =~= seq![]);
        assert(retained(all.take(0), keep@) + all.skip(0) =~= all);
        while k < keep.len()
            invariant
                k <= keep.len(),
                keep@.len() == all.len(),
                at <= k,
                at == retained(all.take(k as int), keep@).len(),
                self.dispatcher_components@ == retained(all.take(k as int), keep@) + all.skip(
                    k as int,
                ),
                *self == (AgentComponents {
                    dispatcher_components: self.dispatcher_components,
                    ..*old(self)
                }),
            decreases keep.len() - k,
        {
            let ghost now = self.dispatcher_components@;
            let ghost stay = retained(all.take(k as int), keep@);
            proof {
                assert(all.take(k + 1).drop_last() =~= all.take(k as int));
                assert(all.take(k + 1).last() == all[k as int]);
                assert(now[at as int] == all[k as int]);
            }
            if keep[k] {
                assert(stay.push(all[k as int]) + all.skip(k + 1) =~= now);
                at = at + 1;
            } else {
                let _ = self.dispatcher_components.remove(at);
                assert(self.dispatcher_components@ =~= stay + all.skip(k + 1));
            }
            k = k + 1;
        }
        let ghost stay = retained(all, keep@);
        proof {
            assert(all.take(k as int) =~= all);
            assert(self.dispatcher_components@ =~= stay);
        }
        let mut i: usize = 0;
        while i < build.len()
            invariant
                i <= build.len(),
                self.dispatcher_components@.len() == stay.len() + i,
                self.dispatcher_components@.take(stay.len() as int) =~= stay,
                forall|j: int|
                    0 <= j < i ==> self.dispatcher_components@[stay.len() + j].is_built_from(
                        #[trigger] build@[j],
                    ),
                *self == (AgentComponents {
                    dispatcher_components: self.dispatcher_components,
                    ..*old(self)
                }),
            decreases build.len() - i,
        {
            self.dispatcher_components.push(DispatcherComponent::new(&build[i]));
            i = i + 1;
        }
    }

    /// Takes over what a new configuration does to the dispatchers.
    pub fn apply(&mut self, change: &ComponentChange)
        requires
            change.concerns(*old(self)),
        ensures
            change.is_applied(*old(self), *final(self)),
            final(self).cur_tap_types == old(self).cur_tap_types,
    {
        match change {
            ComponentChange::Local { change, build, .. } => {
                self.take_over(&change.keep, build);
                self.last_dispatcher_component_id = change.last_id;
            },
            ComponentChange::Mirror { change, build, .. } => {
                if let Some(plan) = &change.reconciliation {
                    self.take_over(&plan.keep, build);
                    self.last_dispatcher_component_id = plan.last_id;
                    self.tap_interfaces = copy_links(&plan.tap_interfaces);
                }
            },
        }
    }

    /// Leaves the agent without anything that captures. The services to stop are those of each
    /// component in turn.
    pub fn clear_dispatcher_components(&mut self) -> (r: Vec<Vec<Service>>)
        ensures
            r@.len() == old(self).dispatcher_components@.len(),
            forall|i: int|
                0 <= i < r@.len() ==> (#[trigger] r@[i])@ == dispatcher_services(
                    old(self).dispatcher_components@[i].handlers as nat,
                ),
            final(self).dispatcher_components@.len() == 0,
            final(self).tap_interfaces@.len() == 0,
            *final(self) == (AgentComponents {
                dispatcher_components: final(self).dispatcher_components,
                tap_interfaces: final(self).tap_interfaces,
                ..*old(self)
            }),
    {
        let mut r: Vec<Vec<Service>> = Vec::new();
        let mut i: usize = 0;
        while i < self.dispatcher_components.len()
            invariant
                i <= self.dispatcher_components.len(),
                *self == *old(self),
                r@.len() == i,
                forall|j: int|
                    0 <= j < i ==> (#[trigger] r@[j])@ == dispatcher_services(
                        self.dispatcher_components@[j].handlers as nat,
                    ),
            decreases self.dispatcher_components.len() - i,
        {
            r.push(self.dispatcher_components[i].stop());
            i = i + 1;
        }
        self.dispatcher_components.clear();
        self.tap_interfaces.clear();
        r
    }

    /// What is done to start the components: nothing if they run.
    pub fn start(&mut self, f: RunFacts) -> (r: Vec<StartAction>)
        ensures
            *final(self) == (AgentComponents { running: true, ..*old(self) }),
            r@ == (if old(self).running {
                seq![]
            } else {
                start_sequence(f)
            }),
    {
        let mut r: Vec<StartAction> = Vec::new();
        if self.running {
            return r;
        }
        self.running = true;
        push_head(&mut r, &f);
        if f.agent_mode == RunningMode::Managed {
            push_managed(&mut r, &f);
        }
        push_tail(&mut r, &f);
        assert(r@ =~= start_sequence(f));
        r
    }

    /// What is done to stop the components: nothing unless they run.
    pub fn stop(&mut self, f: RunFacts) -> (r: Vec<StopAction>)
        ensures
            *final(self) == (AgentComponents { running: false, ..*old(self) }),
            r@ == (if old(self).running {
                stop_sequence(f)
            } else {
                seq![]
            }),
    {
        let mut r: Vec<StopAction> = Vec::new();
        if !self.running {
            return r;
        }
        self.running = false;
        r.push(StopAction::ResetPolicyQueues);
        r.push(StopAction::Stop(Part::Dispatchers));
        r.push(StopAction::Stop(Part::SocketSynchronizer));
        r.push(StopAction::Stop(Part::KubernetesPoller));
        r.push(StopAction::NotifyStop(Part::L4FlowSender));
        r.push(StopAction::NotifyStop(Part::MetricsSender));
        r.push(StopAction::NotifyStop(Part::L7FlowSender));
        r.push(StopAction::Stop(Part::Debugger));
        if f.ebpf_present {
            r.push(StopAction::Stop(Part::EbpfDispatcher));
        }
        r.push(StopAction::Stop(Part::MetricsServer));
        r.push(StopAction::NotifyStop(Part::OtelSender));
        r.push(StopAction::NotifyStop(Part::CompressedOtelSender));
        r.push(StopAction::NotifyStop(Part::PrometheusSender));
        r.push(StopAction::NotifyStop(Part::TelegrafSender));
        r.push(StopAction::NotifyStop(Part::ProfileSender));
        if f.features.libtrace {
            r.push(StopAction::NotifyStop(Part::ProcEventSender));
        }
        r.push(StopAction::NotifyStop(Part::PcapBatchSender));
        r.push(StopAction::NotifyStop(Part::ApplicationLogSender));
        if f.features.integration {
            r.push(StopAction::NotifyStop(Part::SkywalkingSender));
        }
        r.push(StopAction::NotifyStop(Part::DatadogSender));
        r.push(StopAction::NotifyStop(Part::PacketSequenceSender));
        r.push(StopAction::NotifyStop(Part::NpbBandwidthWatcher));
        r.push(StopAction::NotifyStop(Part::NpbArpTable));
        r.push(StopAction::NotifyStop(Part::StatsCollector));
        r.push(StopAction::NotifyStop(Part::ProcessListener));
        if f.features.integration {
            r.push(StopAction::NotifyStop(Part::Vector));
        }
        r.push(StopAction::JoinAll);
        assert(r@ =~= stop_sequence(f));
        r
    }
}

/// The part that a start action starts.
pub open spec fn started(a: StartAction) -> Part {
    match a {
        StartAction::Start(part) => part,
        StartAction::StartDispatchersIfMemoryIsFree => Part::Dispatchers,
    }
}

/// Whatever is started is stopped again: each part that the start sequence starts is stopped or
/// told to stop by the stop sequence.
pub proof fn what_is_started_is_stopped(f: RunFacts, i: int)
    requires
        0 <= i < start_sequence(f).len(),
    ensures
        stop_sequence(f).contains(StopAction::Stop(started(start_sequence(f)[i])))
            || stop_sequence(f).contains(StopAction::NotifyStop(started(start_sequence(f)[i]))),
{
    let h = start_head(f);
    let m = if f.agent_mode == RunningMode::Managed {
        start_managed(f)
    } else {
        seq![]
    };
    let t = start_tail(f);
    lemma_head_parts(f);
    lemma_managed_parts(f);
    lemma_tail_parts(f);
    let a = start_sequence(f)[i];
    if i < h.len() {
        assert(a == h[i]);
    } else if i < h.len() + m.len() {
        assert(a == m[i - h.len()]);
    } else {
        assert(a == t[i - h.len() - m.len()]);
    }
    lemma_stopped(f, started(a));
}

/// Whether a part is there at all.
spec fn is_present(f: RunFacts, part: Part) -> bool {
    match part {
        Part::EbpfDispatcher => f.ebpf_present,
        Part::ProcEventSender => f.features.libtrace,
        Part::SkywalkingSender | Part::Vector => f.features.integration,
        _ => true,
    }
}

proof fn lemma_head_parts(f: RunFacts)
    ensures
        forall|i: int|
            0 <= i < start_head(f).len() ==> is_present(f, started(#[trigger] start_head(f)[i])),
{
}

proof fn lemma_managed_parts(f: RunFacts)
    ensures
        forall|i: int|
            0 <= i < start_managed(f).len() ==> is_present(
                f,
                started(#[trigger] start_managed(f)[i]),
            ),
{
}

proof fn lemma_tail_parts(f: RunFacts)
    ensures
        forall|i: int|
            0 <= i < start_tail(f).len() ==> is_present(f, started(#[trigger] start_tail(f)[i])),
{
}

/// The parts that are stopped, and the sort of action that does it.
spec fn stopping(part: Part) -> StopAction {
    match part {
        Part::Dispatchers | Part::SocketSynchronizer | Part::KubernetesPoller | Part::Debugger
        | Part::EbpfDispatcher | Part::MetricsServer => StopAction::Stop(part),
        _ => StopAction::NotifyStop(part),
    }
}

proof fn lemma_stopped(f: RunFacts, part: Part)
    requires
        is_present(f, part),
    ensures
        stop_sequence(f).contains(stopping(part)),
{
    let s = stop_sequence(f);
    let e: int = if f.ebpf_present {
        1
    } else {
        0
    };
    let l: int = if f.features.libtrace {
        1
    } else {
        0
    };
    let g: int = if f.features.integration {
        1
    } else {
        0
    };
    let at: int = match part {
        Part::Dispatchers => 1,
        Part::SocketSynchronizer => 2,
        Part::KubernetesPoller => 3,
        Part::L4FlowSender => 4,
        Part::MetricsSender => 5,
        Part::L7FlowSender => 6,
        Part::Debugger => 7,
        Part::EbpfDispatcher => 8,
        Part::MetricsServer => 8 + e,
        Part::OtelSender => 9 + e,
        Part::CompressedOtelSender => 10 + e,
        Part::PrometheusSender => 11 + e,
        Part::TelegrafSender => 12 + e,
        Part::ProfileSender => 13 + e,
        Part::ProcEventSender => 14 + e,
        Part::PcapBatchSender => 14 + e + l,
        Part::ApplicationLogSender => 15 + e + l,
        Part::SkywalkingSender => 16 + e + l,
        Part::DatadogSender => 16 + e + l + g,
        Part::PacketSequenceSender => 17 + e + l + g,
        Part::NpbBandwidthWatcher => 18 + e + l + g,
        Part::NpbArpTable => 19 + e + l + g,
        Part::StatsCollector => 20 + e + l + g,
        Part::ProcessListener => 21 + e + l + g,
        Part::Vector => 22 + e + l + g,
    };
    assert(s[at] == stopping(part));
}

/// A component whose parts are started and stopped together.
#[derive(Debug, Clone, Copy, PartialEq, Eq, Structural)]
pub enum Service {
    Dispatcher,
    SessionAggregator,
    Collector,
    L7Collector,
    PacketSequenceParser,
    PcapAssembler,
    /// The packet handler with this number.
    Handler(usize),
    EbpfCollector,
    ExternalMetricsServer,
}

/// Collects what eBPF probes see.
pub struct EbpfDispatcherComponent;

impl EbpfDispatcherComponent {
    /// The services to start, in order.
    pub fn start(&self) -> (r: Vec<Service>)
        ensures
            r@ == seq![Service::SessionAggregator, Service::L7Collector, Service::EbpfCollector],
    {
        vec![Service::SessionAggregator, Service::L7Collector, Service::EbpfCollector]
    }

    /// The services to stop, in order; the last one is only told to.
    pub fn stop(&self) -> (r: Vec<Service>)
        ensures
            r@ == seq![Service::SessionAggregator, Service::L7Collector, Service::EbpfCollector],
    {
        vec![Service::SessionAggregator, Service::L7Collector, Service::EbpfCollector]
    }
}

/// Takes in metrics from outside.
pub struct MetricsServerComponent;

impl MetricsServerComponent {
    /// The services to start, in order.
    pub fn start(&self) -> (r: Vec<Service>)
        ensures
            r@ == seq![Service::ExternalMetricsServer, Service::L7Collector],
    {
        vec![Service::ExternalMetricsServer, Service::L7Collector]
    }

    /// The services to stop, in order.
    pub fn stop(&self) -> (r: Vec<Service>)
        ensures
            r@ == seq![Service::ExternalMetricsServer, Service::L7Collector],
    {
        vec![Service::ExternalMetricsServer, Service::L7Collector]
    }
}

/// The services of a dispatcher with a number of packet handlers.
pub open spec fn dispatcher_services(handlers: nat) -> Seq<Service> {
    seq![
        Service::Dispatcher,
        Service::SessionAggregator,
        Service::Collector,
        Service::L7Collector,
        Service::PacketSequenceParser,
        Service::PcapAssembler,
    ] + Seq::new(handlers, |i: int| Service::Handler(i as usize))
}

/// Captures on an interface or in a namespace.
pub struct DispatcherComponent {
    pub id: usize,
    /// How many packet handlers it has.
    pub handlers: usize,
    /// The interface that it stands for.
    pub src_link: Link,
    /// The namespace that it captures in.
    pub netns: NsFile,
}

impl DispatcherComponent {
    /// Whether this is the component of a dispatcher that is built so.
    pub open spec fn is_built_from(&self, build: DispatcherBuild) -> bool {
        &&& self.id == build.plan.id
        &&& self.handlers == build.plan.handlers@.len()
        &&& self.src_link@ == build.plan.src_link@
        &&& self.netns@ == build.netns@
    }

    pub fn new(build: &DispatcherBuild) -> (r: Self)
        ensures
            r.is_built_from(*build),
    {
        DispatcherComponent {
            id: build.plan.id,
            handlers: build.plan.handlers.len(),
            src_link: build.plan.src_link.copy(),
            netns: build.netns.copy(),
        }
    }

    fn services(&self) -> (r: Vec<Service>)
        ensures
            r@ == dispatcher_services(self.handlers as nat),
    {
        let mut r = vec![
            Service::Dispatcher,
            Service::SessionAggregator,
            Service::Collector,
            Service::L7Collector,
            Service::PacketSequenceParser,
            Service::PcapAssembler,
        ];
        let ghost base = r@;
        let mut i: usize = 0;
        assert(base + Seq::new(0nat, |j: int| Service::Handler(j as usize)) =~= base);
        while i < self.handlers
            invariant
                i <= self.handlers,
                r@ == base + Seq::new(i as nat, |j: int| Service::Handler(j as usize)),
            decreases self.handlers - i,
        {
            r.push(Service::Handler(i));
            i = i + 1;
            assert(r@ =~= base + Seq::new(i as nat, |j: int| Service::Handler(j as usize)));
        }
        r
    }

    /// The services to start, in order.
    pub fn start(&self) -> (r: Vec<Service>)
        ensures
            r@ == dispatcher_services(self.handlers as nat),
    {
        self.services()
    }

    /// The services to stop, in order.
    pub fn stop(&self) -> (r: Vec<Service>)
        ensures
            r@ == dispatcher_services(self.handlers as nat),
    {
        self.services()
    }
}

/// Watches resources and does nothing else.
pub struct WatcherComponents {
    pub running: bool,
    pub capture_mode: PacketCaptureType,
    pub agent_mode: RunningMode,
}

impl WatcherComponents {
    pub fn new(capture_mode: PacketCaptureType, agent_mode: RunningMode) -> (r: Self)
        ensures
            !r.running,
            r.capture_mode == capture_mode,
            r.agent_mode == agent_mode,
    {
        WatcherComponents { running: false, capture_mode, agent_mode }
    }

    /// Starts to watch; whether that is new.
    pub fn start(&mut self) -> (fresh: bool)
        ensures
            *final(self) == (WatcherComponents { running: true, ..*old(self) }),
            fresh == !old(self).running,
    {
        let fresh = !self.running;
        self.running = true;
        fresh
    }

    /// Stops to watch; whether that is new.
    pub fn stop(&mut self) -> (fresh: bool)
        ensures
            *final(self) == (WatcherComponents { running: false, ..*old(self) }),
            fresh == old(self).running,
    {
        let fresh = self.running;
        self.running = false;
        fresh
    }
}

/// What is installed: all that the agent has, or only what watches resources.
pub enum Components {
    Agent(AgentComponents),
    Watcher(WatcherComponents),
    Other,
}

impl Components {
    /// What the environment asks for.
    pub fn new(
        only_watch: bool,
        c: &BuildContext,
        found: Vec<DispatcherInput>,
        root: &Vec<Link>,
    ) -> (r: Self)
        requires
            !only_watch ==> c.fits() && planned_inputs(
                *c.config,
                inputs_of(found@),
                links_of(root@),
            ).len() < usize::MAX,
        ensures
            if only_watch {
                r == Components::Watcher(
                    WatcherComponents {
                        running: false,
                        capture_mode: c.config.dispatcher.capture_mode,
                        agent_mode: c.agent_mode,
                    },
                )
            } else {
                r matches Components::Agent(a) && a.is_new(
                    *c,
                    inputs_of(found@),
                    links_of(root@),
                )
            },
    {
        if only_watch {
            Components::Watcher(
                WatcherComponents::new(c.config.dispatcher.capture_mode, c.agent_mode),
            )
        } else {
            Components::Agent(AgentComponents::new(c, found, root))
        }
    }

    /// Whether what is installed runs.
    pub open spec fn is_running(&self) -> bool {
        match self {
            Components::Agent(a) => a.running,
            Components::Watcher(w) => w.running,
            Components::Other => false,
        }
    }

    /// Whether this is what is installed, but for whether it runs.
    pub open spec fn is_like(&self, other: Components) -> bool {
        match (*self, other) {
            (Components::Agent(a), Components::Agent(b)) => a == (AgentComponents {
                running: a.running,
                ..b
            }),
            (Components::Watcher(a), Components::Watcher(b)) => a.capture_mode == b.capture_mode
                && a.agent_mode == b.agent_mode,
            (Components::Other, Components::Other) => true,
            _ => false,
        }
    }

    /// What is done to start what is installed.
    pub fn start(&mut self, f: RunFacts) -> (r: Vec<StartAction>)
        ensures
            r@ == (if *old(self) is Agent && !old(self).is_running() {
                start_sequence(f)
            } else {
                seq![]
            }),
            final(self).is_running() == (*old(self) !is Other),
            final(self).is_like(*old(self)),
    {
        match self {
            Components::Agent(a) => a.start(f),
            Components::Watcher(w) => {
                let _ = w.start();
                Vec::new()
            },
            Components::Other => Vec::new(),
        }
    }

    /// What is done to stop what is installed.
    pub fn stop(&mut self, f: RunFacts) -> (r: Vec<StopAction>)
        ensures
            r@ == (if *old(self) is Agent && old(self).is_running() {
                stop_sequence(f)
            } else {
                seq![]
            }),
            !final(self).is_running(),
            final(self).is_like(*old(self)),
    {
        match self {
            Components::Agent(a) => a.stop(f),
            Components::Watcher(w) => {
                let _ = w.stop();
                Vec::new()
            },
            Components::Other => Vec::new(),
        }
    }
}

} // verus!
