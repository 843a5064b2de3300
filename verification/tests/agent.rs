//! The agent's state, its components and what they are built from.
use std::io::Read;
use zerotrace_agent::agent::assembly::{
    component_on_config_change, plan_agent, BuildContext, ComponentChange,
};
use zerotrace_agent::agent::components::{
    dispatcher_queues, get_flowgen_tolerable_delay, new_collector, new_l7_collector, plan_senders,
    toa_cache_buckets, AgentComponents, Components, DispatcherComponent, EbpfDispatcherComponent,
    Features, MetricsServerComponent, Part, RunFacts, Service, SharedConnection, StartAction,
    StopAction, WatcherComponents,
};
use zerotrace_agent::agent::config::{
    DispatcherConfig, DpdkSource, MetricServerConfig, ModuleConfig, PacketCaptureType, UserConfig,
};
use zerotrace_agent::agent::dispatcher::{
    change_local, change_mirror, parse_tap_type, plan_dispatcher, tell, PacketHandler,
};
use zerotrace_agent::agent::domain::DomainNameListener;
use zerotrace_agent::agent::identity::{AgentId, IpMacPair, VersionInfo};
use zerotrace_agent::agent::interfaces::{
    analyzer_ip, capture_checks, collector_ids, ebpf_collector_runs, extra_namespaces,
    get_listener_links, host_checks, matching_links, plan_inputs, policy_queue_count,
    receive_limit, source_ip, tap_interfaces, DispatcherInput, StartupCheck,
};
use zerotrace_agent::agent::link::{Link, NsFile};
use zerotrace_agent::agent::main_loop::{
    identity_source, kernel_version_check, CgroupsChoice, IdentitySource, Installed, KernelAction,
    KernelFlags, LoopAction, MainLoop, SetupAction, SetupFacts,
};
use zerotrace_agent::agent::sender::SenderEncoder;
use zerotrace_agent::agent::startup::{
    choose_config, plan_launch, standalone_config, ConfigChoice, LaunchFacts, LoadOutcome,
};
use zerotrace_agent::agent::state::{AgentState, ChangedConfig, RunningMode, State};

fn user_config() -> UserConfig {
    UserConfig {
        enabled: true,
        max_tolerable_packet_delay: 1,
        extra_tolerable_flow_delay: 2,
        flow_flush_interval: 1,
        flow_map_hash_slots: 1000,
        flow_generator_queue_size: 11,
        flow_aggregator_queue_size: 12,
        quadruple_generator_queue_size: 13,
        metrics_queue_size: 14,
        collector_queue_size: 15,
        pcap_queue_size: 16,
        pcap_receiver_queue_size: 16,
        tcp_header_queue_size: 17,
        ebpf_queue_size: 18,
        dpdk_queue_size: 18,
        toa_queue_size: 19,
        toa_cache_size: 65536,
        packet_fanout_count: 1,
        vhost_socket_path: String::new(),
        dpdk_source: DpdkSource::Off,
        pcap_compressed: true,
        check_core_file_disabled: false,
        process_listener_enabled: false,
    }
}

fn config(capture_mode: PacketCaptureType) -> ModuleConfig {
    ModuleConfig {
        user_config: user_config(),
        dispatcher: DispatcherConfig {
            capture_mode,
            tap_interface_regex: "^eth[0-9]+$".to_string(),
            extra_netns_regex: String::new(),
            inner_interface_capture_enabled: false,
            dpdk_source: DpdkSource::Off,
            global_pps_threshold: 200,
            if_mac_source: 3,
            agent_type: 5,
        },
        metric_server: MetricServerConfig {
            enabled: true,
            compressed: true,
            application_log_compressed: false,
            l4_flow_log_compressed: true,
            l7_flow_log_compressed: false,
        },
        kubernetes_api_enabled: false,
        is_pod_agent: false,
        ebpf_disabled: false,
    }
}

fn link(if_index: u32, name: &str) -> Link {
    Link { if_index, mac_addr: if_index as u64, name: name.to_string() }
}

fn names(links: &[Link]) -> Vec<&str> {
    links.iter().map(|l| l.name.as_str()).collect()
}

fn changed(user_config: UserConfig) -> ChangedConfig {
    ChangedConfig {
        user_config,
        blacklist: vec![1],
        vm_mac_addrs: vec![2],
        gateway_vmac_addrs: vec![3],
        tap_types: vec![vec![4]],
    }
}

fn version(name: &'static str) -> VersionInfo {
    VersionInfo {
        name,
        branch: "main",
        commit_id: "abc",
        rev_count: "7",
        compiler: "rustc",
        compile_time: "now",
        revision: "main 7-abc",
    }
}

#[test]
fn the_agent_runs_when_it_is_enabled_and_not_melted_down() {
    let mut state = AgentState::default();
    assert_eq!(state.get(), State::Disabled);
    assert!(!state.enable());
    assert_eq!(state.get(), State::Disabled);
    assert!(state.recover());
    assert_eq!(state.get(), State::Running);
    assert!(!state.recover());
    assert!(state.melt_down());
    assert_eq!(state.get(), State::Disabled);
    assert!(state.recover());
    assert!(state.disable());
    assert_eq!(state.get(), State::Disabled);
    assert!(!state.melt_down());
}

#[test]
fn a_terminated_agent_only_wakes_its_loop() {
    let mut state = AgentState::default();
    state.terminated = true;
    assert!(state.enable());
    assert!(state.recover());
    assert!(state.update_config(changed(user_config())));
    assert!(state.update_partial_config(user_config()));
    assert_eq!(state.get(), State::Disabled);
    assert!(state.pending.is_none());
}

#[test]
fn a_partial_configuration_joins_the_one_that_waits() {
    let mut state = AgentState::default();
    let mut first = user_config();
    first.enabled = false;
    assert!(state.update_config(changed(first)));
    assert!(!state.state.enabled);
    let mut second = user_config();
    second.metrics_queue_size = 99;
    assert!(state.update_partial_config(second.clone()));
    assert!(state.state.enabled);
    let waiting = state.pending.take().unwrap();
    assert_eq!(waiting.user_config, second);
    assert_eq!(waiting.blacklist, vec![1]);
    assert_eq!(waiting.tap_types, vec![vec![4]]);
    state.update_partial_config(second);
    assert!(state.pending.unwrap().blacklist.is_empty());
}

#[test]
fn versions_and_identifiers_are_shown() {
    let ce = version("zerotrace-agent-ce");
    let ee = version("zerotrace-agent-ee");
    assert!(ce.known() && ce.is_ce_version());
    assert!(ee.known() && !ee.is_ce_version());
    assert!(!version("other").known());
    assert_eq!(ce.brief_tag(), "CE|main|abc");
    assert_eq!(ee.brief_tag(), "EE|main|abc");
    assert_eq!(
        ee.display(),
        "7-abc\nName: zerotrace-agent enterprise edition\nBranch: main\nCommitId: abc\nRevCount: 7\nCompiler: rustc\nCompileTime: now"
    );
    let mut id = AgentId {
        ipmac: IpMacPair { ip: "10.1.2.3".to_string(), mac: "00:00:00:00:00:01".to_string() },
        team_id: String::new(),
        group_id: String::new(),
    };
    assert_eq!(id.display(), "10.1.2.3/00:00:00:00:00:01");
    id.group_id = "g".to_string();
    assert_eq!(id.display(), "10.1.2.3/00:00:00:00:00:01/group=g");
    id.team_id = "t".to_string();
    assert_eq!(id.display(), "10.1.2.3/00:00:00:00:00:01/team=t/group=g");
    let message = id.message();
    assert_eq!(message.ip.as_deref(), Some("10.1.2.3"));
    assert_eq!(message.team_id.as_deref(), Some("t"));
}

#[test]
fn zstd_frames_hold_what_was_encoded() {
    let data: Vec<u8> = (0..10_000u32).map(|i| (i % 7) as u8).collect();
    let mut out = vec![9, 9];
    SenderEncoder::Zstd.encode(&data, &mut out).unwrap();
    assert_eq!(&out[..2], &[9, 9]);
    assert_eq!(&out[2..6], &[0x28, 0xb5, 0x2f, 0xfd]);
    assert!(out.len() < data.len());
    let mut back = Vec::new();
    let mut decoder = zstd::Decoder::new(&out[2..]).unwrap();
    decoder.read_to_end(&mut back).unwrap();
    assert_eq!(back, data);
}

#[test]
fn an_empty_buffer_is_encoded_as_an_empty_frame() {
    let mut out = Vec::new();
    SenderEncoder::Zstd.encode(&[], &mut out).unwrap();
    let mut back = Vec::new();
    zstd::Decoder::new(&out[..]).unwrap().read_to_end(&mut back).unwrap();
    assert!(!out.is_empty() && back.is_empty());
}

#[test]
fn a_dispatcher_is_told_what_is_around_it() {
    let conf = config(PacketCaptureType::Local).dispatcher;
    let notice = tell(8, &vec![link(1, "eth0")], &conf, &vec![1, 2], &vec![3], &vec![]);
    assert_eq!(notice.id, 8);
    assert_eq!(names(&notice.links), vec!["eth0"]);
    assert_eq!((notice.if_mac_source, notice.agent_type), (3, 5));
    assert_eq!(notice.blacklist, vec![1, 2]);
    assert_eq!(notice.vm_mac_addrs, vec![3]);
    assert!(notice.gateway_vmac_addrs.is_empty());
}

#[test]
fn raw_data_is_not_copied() {
    let mut out = vec![1];
    SenderEncoder::Raw.encode(&[5, 6], &mut out).unwrap();
    assert_eq!(out, vec![1]);
}

#[test]
fn encoders_have_numbers() {
    assert_eq!(u8::from(SenderEncoder::Raw), 0);
    assert_eq!(u8::from(SenderEncoder::Zstd), 3);
    assert_eq!(SenderEncoder::from(3), SenderEncoder::Zstd);
    assert_eq!(SenderEncoder::from(1), SenderEncoder::Raw);
    assert_eq!(SenderEncoder::default(), SenderEncoder::Raw);
    assert_eq!(SenderEncoder::compressed_if(true), SenderEncoder::Zstd);
}

#[test]
fn interfaces_are_selected_by_pattern() {
    let mut conf = config(PacketCaptureType::Local).dispatcher;
    let links = vec![link(1, "lo"), link(2, "eth0"), link(3, "veth1"), link(4, "eth12")];
    assert_eq!(names(&get_listener_links(&conf, &links)), vec!["eth0", "eth12"]);
    conf.tap_interface_regex = "eth".to_string();
    assert_eq!(names(&get_listener_links(&conf, &links)), vec!["eth0", "veth1", "eth12"]);
    conf.tap_interface_regex = String::new();
    assert!(get_listener_links(&conf, &links).is_empty());
    conf.tap_interface_regex = "(".to_string();
    assert!(get_listener_links(&conf, &links).is_empty());
    let picked = matching_links(&links, &vec![Some(true), None, Some(false), Some(true)]);
    assert_eq!(names(&picked), vec!["lo", "eth12"]);
}

#[test]
fn further_namespaces_are_selected_by_name() {
    let mut conf = config(PacketCaptureType::Local).dispatcher;
    let found = || {
        vec![
            NsFile::Named("pod-b".to_string()),
            NsFile::Proc(7),
            NsFile::Root,
            NsFile::Named("pod-a".to_string()),
            NsFile::Named("other".to_string()),
        ]
    };
    assert_eq!(extra_namespaces(&conf, found()), Some(vec![]));
    conf.extra_netns_regex = "^pod".to_string();
    assert_eq!(
        extra_namespaces(&conf, found()),
        Some(vec![NsFile::Named("pod-a".to_string()), NsFile::Named("pod-b".to_string())])
    );
    conf.extra_netns_regex = "[".to_string();
    assert_eq!(extra_namespaces(&conf, found()), None);
    conf.capture_mode = PacketCaptureType::Mirror;
    assert_eq!(extra_namespaces(&conf, found()), Some(vec![]));
}

#[test]
fn local_agents_share_the_interfaces_of_the_host() {
    let mut config = config(PacketCaptureType::Local);
    config.user_config.packet_fanout_count = 2;
    let root = vec![link(1, "eth0"), link(2, "eth1")];
    let (inputs, fanout) = plan_inputs(&config, vec![], &root);
    assert_eq!(fanout, 2);
    assert_eq!(inputs.len(), 2);
    assert_eq!(names(&inputs[1].links), vec!["eth0", "eth1"]);
    let (none, _) = plan_inputs(&config, vec![], &vec![]);
    assert!(none.is_empty());
    config.dispatcher.inner_interface_capture_enabled = true;
    let (inner, _) = plan_inputs(&config, vec![], &vec![]);
    assert_eq!(inner.len(), 2);
}

#[test]
fn namespaces_with_interfaces_come_before_the_host() {
    let mut config = config(PacketCaptureType::Local);
    config.user_config.packet_fanout_count = 4;
    config.dispatcher.extra_netns_regex = "pod".to_string();
    let found = vec![
        DispatcherInput { links: vec![], netns: NsFile::Named("pod-a".to_string()) },
        DispatcherInput { links: vec![link(5, "eth0")], netns: NsFile::Named("pod-b".to_string()) },
    ];
    let (inputs, fanout) = plan_inputs(&config, found, &vec![link(1, "eth9")]);
    assert_eq!(fanout, 1);
    assert_eq!(inputs.len(), 1);
    assert_eq!(inputs[0].netns, NsFile::Named("pod-b".to_string()));
    let (inputs, _) = plan_inputs(&config, vec![], &vec![link(1, "eth9")]);
    assert_eq!(inputs[0].netns, NsFile::Root);
}

#[test]
fn mirrors_have_one_dispatcher_for_each_interface() {
    let mut config = config(PacketCaptureType::Mirror);
    let root = vec![link(1, "eth0"), link(2, "eth1")];
    let (inputs, fanout) = plan_inputs(&config, vec![], &root);
    assert_eq!((inputs.len(), fanout), (2, 1));
    assert_eq!(names(&inputs[0].links), vec!["eth0"]);
    config.dispatcher.dpdk_source = DpdkSource::Ebpf;
    config.user_config.packet_fanout_count = 3;
    let (inputs, fanout) = plan_inputs(&config, vec![], &root);
    assert_eq!((inputs.len(), fanout), (3, 3));
    assert!(inputs[0].links.is_empty());
    config.dispatcher.dpdk_source = DpdkSource::PDump;
    let (inputs, fanout) = plan_inputs(&config, vec![], &root);
    assert_eq!((inputs.len(), fanout), (1, 1));
}

#[test]
fn captured_interfaces_are_sorted() {
    let inputs = vec![
        DispatcherInput { links: vec![link(3, "c"), link(1, "a")], netns: NsFile::Root },
        DispatcherInput { links: vec![link(2, "b")], netns: NsFile::Root },
    ];
    assert_eq!(names(&tap_interfaces(&inputs)), vec!["a", "b", "c"]);
}

#[test]
fn checks_depend_on_what_is_captured() {
    assert_eq!(host_checks(false).len(), 4);
    assert!(matches!(host_checks(false)[1], StartupCheck::CoreFiles));
    assert!(matches!(host_checks(true)[1], StartupCheck::ControllerIps));
    let inputs = vec![
        DispatcherInput { links: vec![], netns: NsFile::Root },
        DispatcherInput { links: vec![link(2, "eth1"), link(3, "eth2")], netns: NsFile::Root },
    ];
    assert!(capture_checks(&config(PacketCaptureType::Local), &inputs).is_empty());
    assert_eq!(capture_checks(&config(PacketCaptureType::Mirror), &inputs).len(), 1);
    let mut analyzer = config(PacketCaptureType::Analyzer);
    let checks = capture_checks(&analyzer, &inputs);
    assert!(matches!(&checks[1], StartupCheck::TapInterfaces(taps) if taps == &vec!["eth1".to_string()]));
    analyzer.user_config.dpdk_source = DpdkSource::Ebpf;
    assert_eq!(capture_checks(&analyzer, &inputs).len(), 1);
}

#[test]
fn small_choices_follow_the_configuration() {
    assert_eq!(policy_queue_count(PacketCaptureType::Local, 4), 1);
    assert_eq!(policy_queue_count(PacketCaptureType::Mirror, 4), 4);
    assert_eq!(policy_queue_count(PacketCaptureType::Mirror, 0), 1);
    assert_eq!(receive_limit(&config(PacketCaptureType::Local).dispatcher), Some(200));
    assert_eq!(receive_limit(&config(PacketCaptureType::Analyzer).dispatcher), None);
    assert!(ebpf_collector_runs(&config(PacketCaptureType::Local), false));
    assert!(!ebpf_collector_runs(&config(PacketCaptureType::Local), true));
    assert!(!ebpf_collector_runs(&config(PacketCaptureType::Analyzer), false));
    assert_eq!(collector_ids(3), (3, 4));
    assert_eq!(source_ip(Some("1.2.3.4".to_string()), true), "1.2.3.4");
    assert_eq!(source_ip(None, true), "::");
    assert_eq!(source_ip(None, false), "0.0.0.0");
    assert_eq!(analyzer_ip(None, vec!["5.6.7.8".to_string()]), "5.6.7.8");
    assert_eq!(analyzer_ip(Some("1.1.1.1".to_string()), vec![]), "1.1.1.1");
    assert_eq!(toa_cache_buckets(65536), 2048);
}

#[test]
fn a_dispatcher_is_set_up_for_its_interfaces() {
    let links = vec![link(2, "eth1"), link(3, "eth2")];
    let config = config(PacketCaptureType::Mirror);
    let plan = plan_dispatcher(5, &links, &config, RunningMode::Managed, &version("zerotrace-agent-ee"), false);
    assert_eq!(plan.id, 5);
    assert_eq!(plan.src_link, links[0]);
    assert_eq!(plan.pcap_interfaces, links);
    assert!(plan.pause);
    assert_eq!(plan.src_interface, "eth1");
    assert!(plan.pcap_assembler_enabled);
    assert_eq!(plan.handlers, vec![PacketHandler::Pcap, PacketHandler::Npb]);
    let shared = plan_dispatcher(0, &vec![], &config, RunningMode::Standalone, &version("zerotrace-agent-ce"), true);
    assert_eq!(shared.src_link, Link { if_index: 0, mac_addr: 0, name: String::new() });
    assert!(!shared.pause);
    assert_eq!(shared.src_interface, "");
    assert!(!shared.pcap_assembler_enabled);
    assert!(shared.fanout_enabled);
}

#[test]
fn local_dispatchers_go_with_their_interfaces() {
    let mut config = config(PacketCaptureType::Local);
    let root = vec![link(1, "eth0")];
    let change = change_local(&config, &vec![vec![], vec![link(1, "eth0")]], &root, 4);
    assert_eq!(change.keep, vec![false, true]);
    assert_eq!((change.build, change.last_id), (None, 4));
    let change = change_local(&config, &vec![vec![]], &root, 4);
    assert_eq!((change.build, change.last_id), (Some(5), 5));
    let change = change_local(&config, &vec![vec![]], &vec![], 4);
    assert_eq!((change.build, change.last_id), (None, 4));
    config.dispatcher.inner_interface_capture_enabled = true;
    let change = change_local(&config, &vec![vec![]], &vec![], 4);
    assert_eq!(change.keep, vec![true]);
}

#[test]
fn mirror_dispatchers_are_brought_in_line_with_the_interfaces() {
    let config = config(PacketCaptureType::Analyzer);
    let component = |id: usize, src_link: Link| DispatcherComponent {
        id,
        handlers: 2,
        src_link,
        netns: NsFile::Root,
    };
    let running = vec![component(0, link(1, "eth0")), component(1, link(2, "eth1"))];
    let taps = vec![link(1, "eth0"), link(2, "eth1")];
    let current = vec![link(3, "eth2"), link(2, "eth1")];
    let change = change_mirror(&config, &running, &current, &taps, 7);
    assert!(change.parse_tap_types);
    let plan = change.reconciliation.unwrap();
    assert_eq!(plan.keep, vec![false, true]);
    assert_eq!(names(&plan.build), vec!["eth2"]);
    assert_eq!(plan.last_id, 8);
    assert_eq!(plan.queue_count, 9);
    assert_eq!(names(&plan.tap_interfaces), vec!["eth1", "eth2"]);
    let same = vec![link(2, "eth1"), link(1, "eth0")];
    assert!(change_mirror(&config, &running, &same, &taps, 7).reconciliation.is_none());
}

#[test]
fn mirrors_without_the_kernel_are_left_alone() {
    let mut config = config(PacketCaptureType::Mirror);
    config.dispatcher.dpdk_source = DpdkSource::PDump;
    let change = change_mirror(&config, &vec![], &vec![link(1, "a")], &vec![], 0);
    assert!(!change.parse_tap_types);
    assert!(change.reconciliation.is_none());
}

#[test]
fn capture_network_types_are_taken_over_when_they_change() {
    let mut current = vec![vec![1u8]];
    assert!(!parse_tap_type(&mut current, &vec![vec![1]]));
    assert!(parse_tap_type(&mut current, &vec![vec![1], vec![2]]));
    assert_eq!(current, vec![vec![1], vec![2]]);
}

#[test]
fn delays_add_up() {
    let config = user_config();
    assert_eq!(get_flowgen_tolerable_delay(&config, 1), 11);
    let plan = new_collector(3, &config, 1, true, true, false);
    assert_eq!(plan.id, 3);
    assert_eq!(plan.queues.len(), 3);
    assert_eq!(plan.queues[0].module, "2-second-flow-to-minute-aggrer");
    assert_eq!(plan.queues[0].size, 12);
    assert_eq!(plan.queues[2].module, "2-flow-with-meter-to-minute-collector");
    assert_eq!(plan.aggregator_delay, Some(11));
    assert_eq!(plan.connection_lru_capacity, 8000);
    assert_eq!(plan.possible_host_size, 262144);
    assert_eq!((plan.second_delay, plan.minute_delay), (11, 71));
    assert_eq!((plan.second_collector, plan.minute_collector), (Some(16), None));
    let l7 = new_l7_collector(3, &config, 1, false, true);
    assert_eq!(l7.queues[0].module, "2-flow-with-meter-to-l7-second-collector");
    assert_eq!((l7.second_collector, l7.minute_collector), (None, Some(76)));
    assert_eq!(l7.aggregator_delay, None);
}

#[test]
fn queues_and_senders_have_their_names() {
    let queues = dispatcher_queues(&user_config());
    assert_eq!(queues[3].module, "1-packet-sequence-block-to-parser");
    assert_eq!(queues[3].size, 17);
    assert_eq!(queues[4].module, "1-mini-meta-packet-to-pcap-handler");
    let config = config(PacketCaptureType::Local);
    let all = plan_senders(&config, Features { libtrace: true, integration: true });
    assert_eq!(all.len(), 14);
    assert_eq!(all[0].queue.module, "3-flowlog-to-collector-sender");
    assert_eq!(all[0].encoder, SenderEncoder::Zstd);
    assert_eq!(all[2].encoder, SenderEncoder::Raw);
    assert_eq!(all[3].connection, SharedConnection::Pcap);
    assert_eq!(all[5].queue.module, "1-proc-event-to-sender");
    assert_eq!(all[11].connection, SharedConnection::Prometheus);
    let few = plan_senders(&config, Features { libtrace: false, integration: false });
    assert_eq!(few.len(), 12);
}

fn facts() -> RunFacts {
    RunFacts {
        agent_mode: RunningMode::Managed,
        capture_mode: PacketCaptureType::Local,
        is_pod_agent: true,
        in_container: false,
        kernel_has_cgroups: false,
        ebpf_present: true,
        metric_server_enabled: true,
        features: Features { libtrace: true, integration: true },
    }
}

fn context<'a>(config: &'a ModuleConfig, version: &'a VersionInfo) -> BuildContext<'a> {
    BuildContext {
        config,
        version,
        agent_mode: RunningMode::Managed,
        features: Features { libtrace: true, integration: false },
        time_unit: 1,
        kernel_ebpf_meltdown: false,
        vm_mac_addrs: Box::leak(Box::new(vec![20, 21])),
        gateway_vmac_addrs: Box::leak(Box::new(vec![30])),
    }
}

fn new_components(capture_mode: PacketCaptureType, root: &Vec<Link>) -> AgentComponents {
    let config = config(capture_mode);
    let version = version("zerotrace-agent-ee");
    AgentComponents::new(&context(&config, &version), vec![], root)
}

#[test]
fn a_new_agent_has_a_component_for_each_interface() {
    let root = vec![link(2, "eth1"), link(1, "eth0")];
    let components = new_components(PacketCaptureType::Mirror, &root);
    assert!(!components.running);
    let built: Vec<(usize, usize, &str)> = components
        .dispatcher_components
        .iter()
        .map(|d| (d.id, d.handlers, d.src_link.name.as_str()))
        .collect();
    assert_eq!(built, vec![(0, 2, "eth1"), (1, 2, "eth0")]);
    assert_eq!(names(&components.tap_interfaces), vec!["eth0", "eth1"]);
    assert_eq!(components.last_dispatcher_component_id, 3);
    assert!(components.cur_tap_types.is_empty());
    assert!(!components.is_ce_version);
    assert_eq!(components.capture_mode, PacketCaptureType::Mirror);
    assert_eq!(components.agent_mode, RunningMode::Managed);
    assert_eq!(components.plan.dispatchers.len(), 2);
    let idle = new_components(PacketCaptureType::Mirror, &vec![]);
    assert!(idle.dispatcher_components.is_empty());
    assert_eq!(idle.last_dispatcher_component_id, 1);
}

#[test]
fn whatever_is_started_is_stopped() {
    let mut components = new_components(PacketCaptureType::Local, &vec![link(1, "eth0")]);
    let started = components.start(facts());
    assert!(components.running);
    assert_eq!(started[0], StartAction::Start(Part::StatsCollector));
    assert!(started.contains(&StartAction::StartDispatchersIfMemoryIsFree));
    assert_eq!(started.last(), Some(&StartAction::Start(Part::ProcessListener)));
    assert!(components.start(facts()).is_empty());
    let stopped = components.stop(facts());
    assert_eq!(stopped[0], StopAction::ResetPolicyQueues);
    assert_eq!(stopped.last(), Some(&StopAction::JoinAll));
    for action in started {
        let part = match action {
            StartAction::Start(part) => part,
            StartAction::StartDispatchersIfMemoryIsFree => Part::Dispatchers,
        };
        assert!(
            stopped.contains(&StopAction::Stop(part)) || stopped.contains(&StopAction::NotifyStop(part))
        );
    }
    assert!(components.stop(facts()).is_empty());
}

#[test]
fn a_lone_agent_starts_no_senders_for_a_controller() {
    let mut components = new_components(PacketCaptureType::Local, &vec![link(1, "eth0")]);
    let mut facts = facts();
    facts.agent_mode = RunningMode::Standalone;
    facts.kernel_has_cgroups = true;
    let started = components.start(facts);
    assert!(!started.contains(&StartAction::Start(Part::OtelSender)));
    assert!(started.contains(&StartAction::Start(Part::Dispatchers)));
}

#[test]
fn cleared_dispatchers_are_stopped() {
    let mut components = new_components(PacketCaptureType::Local, &vec![link(1, "eth0")]);
    components.dispatcher_components.push(DispatcherComponent {
        id: 1,
        handlers: 0,
        src_link: link(2, "eth1"),
        netns: NsFile::Root,
    });
    let stopped = components.clear_dispatcher_components();
    assert_eq!(stopped.len(), 2);
    assert_eq!(stopped[0].len(), 8);
    assert_eq!(stopped[0][7], Service::Handler(1));
    assert_eq!(stopped[1].last(), Some(&Service::PcapAssembler));
    assert!(components.dispatcher_components.is_empty());
    assert!(components.tap_interfaces.is_empty());
    assert_eq!(components.last_dispatcher_component_id, 2);
}

#[test]
fn components_start_and_stop_their_services() {
    assert_eq!(
        EbpfDispatcherComponent.start(),
        vec![Service::SessionAggregator, Service::L7Collector, Service::EbpfCollector]
    );
    assert_eq!(EbpfDispatcherComponent.stop().len(), 3);
    assert_eq!(
        MetricsServerComponent.start(),
        vec![Service::ExternalMetricsServer, Service::L7Collector]
    );
    assert_eq!(MetricsServerComponent.stop().len(), 2);
    let dispatcher = DispatcherComponent {
        id: 1,
        handlers: 1,
        src_link: link(1, "eth0"),
        netns: NsFile::Root,
    };
    assert_eq!(dispatcher.start()[0], Service::Dispatcher);
    assert_eq!(dispatcher.stop()[6], Service::Handler(0));
}

#[test]
fn only_what_watches_can_be_installed_alone() {
    let config = config(PacketCaptureType::Local);
    let version = version("zerotrace-agent-ee");
    let context = context(&config, &version);
    let mut watcher = Components::new(true, &context, vec![], &vec![]);
    assert!(matches!(watcher, Components::Watcher(_)));
    assert!(watcher.start(facts()).is_empty());
    assert!(matches!(&watcher, Components::Watcher(w) if w.running));
    assert!(watcher.stop(facts()).is_empty());
    let mut agent = Components::new(false, &context, vec![], &vec![link(1, "eth0")]);
    assert!(matches!(&agent, Components::Agent(a) if a.dispatcher_components.len() == 1));
    assert!(!agent.start(facts()).is_empty());
    assert!(!agent.stop(facts()).is_empty());
    assert!(Components::Other.start(facts()).is_empty());
    let mut alone = WatcherComponents::new(PacketCaptureType::Local, RunningMode::Standalone);
    assert!(alone.start());
    assert!(!alone.start());
    assert!(alone.stop());
    assert!(!alone.stop());
}

#[test]
fn the_whole_agent_is_planned() {
    let mut config = config(PacketCaptureType::Mirror);
    config.user_config.process_listener_enabled = true;
    let version = version("zerotrace-agent-ee");
    let context = context(&config, &version);
    let root = vec![link(2, "eth1"), link(1, "eth0")];
    let plan = plan_agent(&context, vec![], &root);
    assert_eq!(plan.host_checks.len(), 4);
    assert!(matches!(plan.capture_checks[..], [StartupCheck::Kernel]));
    assert_eq!(plan.policy_queues, 2);
    assert_eq!(plan.receive_limit, Some(200));
    assert!(plan.process_listener);
    assert_eq!(plan.toa_queue.module, "1-socket-sync-toa-info-queue");
    assert_eq!(plan.toa_cache_buckets, 2048);
    assert_eq!(plan.senders.len(), 13);
    assert_eq!(plan.dispatchers.len(), 2);
    assert_eq!(plan.dispatchers[1].plan.id, 1);
    assert_eq!(plan.dispatchers[1].plan.src_interface, "eth0");
    assert!(!plan.dispatchers[1].plan.fanout_enabled);
    assert_eq!(plan.dispatchers[1].netns, NsFile::Root);
    assert_eq!(plan.dispatchers[1].queues.len(), 5);
    assert_eq!(plan.dispatchers[1].collector.aggregator_delay, Some(11));
    assert_eq!(plan.dispatchers[1].l7_collector.minute_collector, Some(76));
    assert_eq!(plan.dpdk_queues.len(), 2);
    assert_eq!(names(&plan.tap_interfaces), vec!["eth0", "eth1"]);
    assert_eq!(plan.ebpf.unwrap().l7_collector.id, 2);
    assert_eq!(plan.metrics_server.l7_collector.id, 3);
    assert_eq!(plan.last_id, 3);
}

#[test]
fn an_agent_without_tracing_has_no_ebpf_service() {
    let config = config(PacketCaptureType::Local);
    let version = version("zerotrace-agent-ce");
    let mut context = context(&config, &version);
    context.features.libtrace = false;
    let plan = plan_agent(&context, vec![], &vec![link(1, "eth0")]);
    assert!(context.can_build());
    assert!(plan.ebpf.is_none());
    assert!(plan.dpdk_queues.is_empty());
    assert!(!plan.dispatchers[0].plan.pcap_assembler_enabled);
    assert_eq!(plan.last_id, 2);
}

fn ids(components: &AgentComponents) -> Vec<(usize, &str)> {
    let dispatchers = &components.dispatcher_components;
    dispatchers.iter().map(|d| (d.id, d.src_link.name.as_str())).collect()
}

#[test]
fn a_new_configuration_adds_and_removes_dispatchers() {
    let mirror = config(PacketCaptureType::Analyzer);
    let version = version("zerotrace-agent-ee");
    let context = context(&mirror, &version);
    let mut state = AgentComponents::new(&context, vec![], &vec![link(1, "eth0"), link(2, "eth1")]);
    let root = vec![link(4, "eth3"), link(2, "eth1"), link(3, "eth2")];
    match component_on_config_change(&context, &mut state, &vec![], &root, &vec![9], &vec![vec![7]]) {
        ComponentChange::Mirror { change, told, build, tap_types_updated } => {
            assert!(tap_types_updated);
            let plan = change.reconciliation.unwrap();
            assert_eq!(plan.keep, vec![false, true]);
            assert_eq!(plan.queue_count, 6);
            assert_eq!(plan.last_id, 5);
            assert_eq!(build.len(), 2);
            assert_eq!((build[0].plan.id, build[1].plan.id), (4, 5));
            assert_eq!(build[0].plan.src_interface, "eth2");
            assert_eq!(build[0].told.id, 4);
            assert_eq!(names(&build[0].told.links), vec!["eth2"]);
            assert!(build[0].told.blacklist.is_empty());
            assert_eq!(build[0].told.vm_mac_addrs, vec![20, 21]);
            assert_eq!(told.len(), 2);
            assert_eq!(told[1].id, 1);
            assert_eq!(names(&told[1].links), vec!["eth3", "eth1", "eth2"]);
            assert_eq!((told[1].if_mac_source, told[1].agent_type), (3, 5));
            assert_eq!(told[1].blacklist, vec![9]);
            assert_eq!(told[1].vm_mac_addrs, vec![20, 21]);
            assert_eq!(told[1].gateway_vmac_addrs, vec![30]);
        }
        ComponentChange::Local { .. } => panic!("not local"),
    }
    assert_eq!(state.cur_tap_types, vec![vec![7]]);
    assert_eq!(ids(&state), vec![(1, "eth1"), (4, "eth2"), (5, "eth3")]);
    assert_eq!(names(&state.tap_interfaces), vec!["eth1", "eth2", "eth3"]);
    assert_eq!(state.last_dispatcher_component_id, 5);
}

#[test]
fn a_local_agent_goes_by_what_each_namespace_holds() {
    let mut local = config(PacketCaptureType::Local);
    local.dispatcher.extra_netns_regex = "^[xy]$".to_string();
    let version = version("zerotrace-agent-ee");
    let context = context(&local, &version);
    let found = vec![
        DispatcherInput { links: vec![link(1, "a")], netns: NsFile::Named("x".to_string()) },
        DispatcherInput { links: vec![link(2, "b")], netns: NsFile::Named("y".to_string()) },
    ];
    let root = vec![link(4, "eth3")];
    let mut state = AgentComponents::new(&context, found, &root);
    assert_eq!(state.dispatcher_components[1].netns, NsFile::Named("y".to_string()));
    let now = vec![vec![], vec![link(2, "b"), link(3, "c")]];
    match component_on_config_change(&context, &mut state, &now, &root, &vec![9], &vec![vec![7]]) {
        ComponentChange::Local { change, told, build } => {
            assert_eq!(change.keep, vec![false, true]);
            assert!(build.is_empty());
            assert!(told[0].is_none());
            let notice = told[1].as_ref().unwrap();
            assert_eq!(notice.id, 1);
            assert_eq!(names(&notice.links), vec!["b", "c"]);
            assert_eq!(notice.blacklist, vec![9]);
        }
        ComponentChange::Mirror { .. } => panic!("not a mirror"),
    }
    assert_eq!(ids(&state), vec![(1, "b")]);
    let gone = vec![vec![]];
    match component_on_config_change(&context, &mut state, &gone, &root, &vec![], &vec![vec![7]]) {
        ComponentChange::Local { change, build, .. } => {
            assert_eq!(change.keep, vec![false]);
            assert_eq!(build[0].plan.id, 4);
            assert_eq!(build[0].plan.pcap_interfaces, root);
        }
        ComponentChange::Mirror { .. } => panic!("not a mirror"),
    }
    assert_eq!(ids(&state), vec![(4, "eth3")]);
    assert_eq!(state.dispatcher_components[0].netns, NsFile::Root);
    assert!(state.cur_tap_types.is_empty());
}

#[test]
fn the_same_interfaces_leave_the_dispatchers_alone() {
    let version = version("zerotrace-agent-ee");
    let root = vec![link(4, "eth3"), link(2, "eth1")];
    let mirror = config(PacketCaptureType::Mirror);
    let mut state = AgentComponents::new(&context(&mirror, &version), vec![], &vec![link(1, "eth0")]);
    for round in 0..2 {
        let change = component_on_config_change(
            &context(&mirror, &version),
            &mut state,
            &vec![],
            &root,
            &vec![],
            &vec![],
        );
        match change {
            ComponentChange::Mirror { change, build, .. } => {
                assert_eq!(change.reconciliation.is_some(), round == 0);
                assert_eq!(build.is_empty(), round == 1);
            }
            ComponentChange::Local { .. } => panic!("not local"),
        }
        assert_eq!(ids(&state), vec![(3, "eth1"), (4, "eth3")]);
    }
    let local = config(PacketCaptureType::Local);
    let mut state = AgentComponents::new(&context(&local, &version), vec![], &root);
    let change = component_on_config_change(
        &context(&local, &version),
        &mut state,
        &vec![root.clone()],
        &root,
        &vec![],
        &vec![],
    );
    assert!(matches!(change, ComponentChange::Local { change, build, .. }
        if change.keep == vec![true] && build.is_empty()));
    assert_eq!(ids(&state), vec![(0, "eth3")]);
}

#[test]
fn the_loop_builds_once_and_guards_once() {
    let mut main_loop = MainLoop::new();
    let mut state = AgentState::default();
    state.recover();
    let (actions, config) = main_loop.wake(&mut state);
    assert!(actions.is_empty() && config.is_none());
    state.update_config(changed(user_config()));
    let (actions, config) = main_loop.wake(&mut state);
    assert!(config.is_some());
    assert_eq!(
        actions,
        vec![
            LoopAction::ApplyConfig { with_components: false, first_run: true },
            LoopAction::SyncApiWatcher,
            LoopAction::BuildComponents,
        ]
    );
    assert_eq!(
        main_loop.built(Installed::Agent, PacketCaptureType::Analyzer),
        vec![
            LoopAction::StartComponents,
            LoopAction::ParseTapTypes,
            LoopAction::RunCallbacks,
            LoopAction::StartGuard,
        ]
    );
    state.update_config(changed(user_config()));
    let (actions, _) = main_loop.wake(&mut state);
    assert_eq!(
        actions,
        vec![
            LoopAction::ApplyConfig { with_components: true, first_run: false },
            LoopAction::SyncApiWatcher,
            LoopAction::UpdateComponents,
            LoopAction::StartComponents,
            LoopAction::ChangeComponents,
            LoopAction::RunCallbacks,
            LoopAction::NotifyDispatchers,
        ]
    );
    state.melt_down();
    let (actions, _) = main_loop.wake(&mut state);
    assert_eq!(actions, vec![LoopAction::StopComponents]);
}

#[test]
fn termination_stops_what_is_installed() {
    let mut main_loop = MainLoop::new();
    assert_eq!(main_loop.terminate(true), vec![LoopAction::Exit]);
    main_loop.components = Installed::Watcher;
    let actions = main_loop.terminate(true);
    assert_eq!(actions.len(), 9);
    assert_eq!(actions[7], LoopAction::StopCgroups);
    assert_eq!(main_loop.terminate(false).len(), 8);
}

#[test]
fn the_set_up_depends_on_where_the_agent_runs() {
    let mut facts = SetupFacts {
        agent_mode: RunningMode::Managed,
        sidecar_mode: true,
        in_container: false,
        in_kubernetes: true,
        kernel_has_cgroups: true,
        cgroups_disabled: false,
    };
    assert_eq!(facts.cgroups_choice(), CgroupsChoice::Initialize);
    assert_eq!(facts.setup_actions().len(), 12);
    assert_eq!(facts.setup_actions()[0], SetupAction::FillKubernetesInfo);
    facts.agent_mode = RunningMode::Standalone;
    facts.cgroups_disabled = true;
    facts.sidecar_mode = false;
    assert_eq!(facts.cgroups_choice(), CgroupsChoice::Disabled);
    assert_eq!(facts.setup_actions().len(), 7);
    facts.kernel_has_cgroups = false;
    assert_eq!(facts.cgroups_choice(), CgroupsChoice::Unavailable);
    facts.in_container = true;
    assert_eq!(facts.cgroups_choice(), CgroupsChoice::InContainer);
    assert_eq!(identity_source(true), IdentitySource::ControllerAddress);
    assert_eq!(identity_source(false), IdentitySource::HostAddress);
}

#[test]
fn the_severest_action_on_the_kernel_counts() {
    let mut flags = KernelFlags {
        terminate: false,
        meltdown: false,
        ebpf_meltdown: false,
        ebpf_uprobe_meltdown: false,
    };
    assert_eq!(kernel_version_check(flags), KernelAction::Nothing);
    flags.ebpf_uprobe_meltdown = true;
    assert_eq!(kernel_version_check(flags), KernelAction::MeltDownUprobes);
    flags.ebpf_meltdown = true;
    assert_eq!(kernel_version_check(flags), KernelAction::MeltDownEbpf);
    flags.meltdown = true;
    assert_eq!(kernel_version_check(flags), KernelAction::MeltDown);
    flags.terminate = true;
    assert_eq!(kernel_version_check(flags), KernelAction::Terminate);
}

#[test]
fn a_configuration_that_is_no_yaml_leads_to_the_older_path() {
    assert_eq!(choose_config(LoadOutcome::Loaded, None), ConfigChoice::Given);
    assert_eq!(choose_config(LoadOutcome::Failed, None), ConfigChoice::Refused);
    assert_eq!(choose_config(LoadOutcome::InvalidYaml, None), ConfigChoice::TryFallback);
    assert_eq!(
        choose_config(LoadOutcome::InvalidYaml, Some(LoadOutcome::Loaded)),
        ConfigChoice::Fallback
    );
    assert_eq!(
        choose_config(LoadOutcome::InvalidYaml, Some(LoadOutcome::Failed)),
        ConfigChoice::Refused
    );
}

#[test]
fn a_lone_agent_watches_its_configuration() {
    let mut config = standalone_config("/var/log/a.log".to_string());
    assert_eq!(config.controller_ips, vec!["127.0.0.1".to_string()]);
    assert!(config.controller_domain_name.is_empty());
    let mut facts = LaunchFacts {
        agent_mode: RunningMode::Standalone,
        config_path: "/etc/a.yaml".to_string(),
        cgroups_disabled: true,
        os_hostname: None,
        log_dir_exists: true,
        log_dir_writable: None,
        log_dir_created: true,
        parent_pid: 1,
    };
    let plan = plan_launch(&config, &facts);
    assert!(!plan.pid_file && !plan.log_to_file && !plan.log_to_remote && !plan.log_to_stderr);
    assert_eq!(plan.hostname, "Unknown");
    assert!(plan.cgroups_disabled);
    assert_eq!(plan.watched_config.as_deref(), Some("/etc/a.yaml"));
    config.pid_file = "/run/a.pid".to_string();
    config.agent_mode = RunningMode::Managed;
    config.override_os_hostname = Some("h".to_string());
    facts.agent_mode = RunningMode::Managed;
    facts.log_dir_exists = false;
    facts.parent_pid = 7;
    let plan = plan_launch(&config, &facts);
    assert!(plan.pid_file && plan.log_to_file && plan.log_to_remote && plan.log_to_stderr);
    assert_eq!(plan.hostname, "h");
    assert_eq!(plan.watched_config, None);
}

#[test]
fn addresses_follow_the_names() {
    let list = |items: &[&str]| items.iter().map(|s| s.to_string()).collect::<Vec<String>>();
    let mut listener = DomainNameListener::new(list(&["a", "b"]), list(&["1.1.1.1", "2.2.2.2"]));
    assert!(listener.start());
    assert!(!listener.start());
    assert!(listener.goes_on());
    let same = vec![Some(list(&["9.9.9.9", "1.1.1.1"])), None];
    assert!(!listener.resolve(&same));
    assert_eq!(listener.ips, list(&["1.1.1.1", "2.2.2.2"]));
    let moved = vec![None, Some(list(&["3.3.3.3", "4.4.4.4"]))];
    assert!(listener.resolve(&moved));
    assert_eq!(listener.ips, list(&["1.1.1.1", "3.3.3.3"]));
    let first_moved = vec![Some(list(&["5.5.5.5"])), Some(list(&["4.4.4.4", "3.3.3.3"]))];
    assert!(listener.resolve(&first_moved));
    assert_eq!(listener.ips, list(&["5.5.5.5", "3.3.3.3"]));
    assert!(!listener.resolve(&first_moved));
    assert!(listener.stop());
    assert!(!listener.goes_on());
    assert!(!DomainNameListener::new(vec![], vec![]).start());
}
