//! What the agent's logic reads of its configuration.
use vstd::prelude::*;

verus! {

/// Where captured packets come from when DPDK is used.
#[derive(Clone, Copy, PartialEq, Eq, Debug, Structural)]
pub enum DpdkSource {
    /// DPDK is not used.
    Off,
    PDump,
    Ebpf,
}

/// How the agent captures packets.
#[derive(Clone, Copy, PartialEq, Eq, Debug, Structural)]
pub enum PacketCaptureType {
    /// On the host's own interfaces.
    Local,
    /// From a virtual mirror.
    Mirror,
    /// From a physical mirror.
    Analyzer,
}

/// What the user configures.
#[derive(Clone, Debug, PartialEq, Eq)]
pub struct UserConfig {
    pub enabled: bool,
    /// Seconds.
    pub max_tolerable_packet_delay: u64,
    /// Seconds.
    pub extra_tolerable_flow_delay: u64,
    /// Seconds.
    pub flow_flush_interval: u64,
    pub flow_map_hash_slots: u32,
    pub flow_generator_queue_size: usize,
    pub flow_aggregator_queue_size: usize,
    pub quadruple_generator_queue_size: usize,
    pub metrics_queue_size: usize,
    pub collector_queue_size: usize,
    pub pcap_queue_size: usize,
    pub pcap_receiver_queue_size: usize,
    pub tcp_header_queue_size: usize,
    pub ebpf_queue_size: usize,
    /// The size of the queues from eBPF probes to dispatchers.
    pub dpdk_queue_size: usize,
    pub toa_queue_size: usize,
    pub toa_cache_size: usize,
    pub packet_fanout_count: usize,
    pub vhost_socket_path: String,
    /// The source as the user gave it.
    pub dpdk_source: DpdkSource,
    pub pcap_compressed: bool,
    pub check_core_file_disabled: bool,
    pub process_listener_enabled: bool,
}

/// What the dispatchers go by.
#[derive(Clone, Debug, PartialEq, Eq)]
pub struct DispatcherConfig {
    pub capture_mode: PacketCaptureType,
    pub tap_interface_regex: String,
    pub extra_netns_regex: String,
    pub inner_interface_capture_enabled: bool,
    /// The source in effect.
    pub dpdk_source: DpdkSource,
    pub global_pps_threshold: u64,
    /// The number of the way in which hardware addresses of interfaces are learnt.
    pub if_mac_source: u32,
    /// The number of the agent's type.
    pub agent_type: u32,
}

/// What the server for external metrics goes by.
#[derive(Clone, Copy, Debug, PartialEq, Eq, Structural)]
pub struct MetricServerConfig {
    pub enabled: bool,
    pub compressed: bool,
    pub application_log_compressed: bool,
    pub l4_flow_log_compressed: bool,
    pub l7_flow_log_compressed: bool,
}

/// The configuration in effect.
#[derive(Clone, Debug, PartialEq, Eq)]
pub struct ModuleConfig {
    pub user_config: UserConfig,
    pub dispatcher: DispatcherConfig,
    pub metric_server: MetricServerConfig,
    pub kubernetes_api_enabled: bool,
    /// Whether the agent is of a type that watches pods.
    pub is_pod_agent: bool,
    pub ebpf_disabled: bool,
}

} // verus!
