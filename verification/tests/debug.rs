//! The debug protocol, from the agent's side.
use zerotrace_agent::agent::state::RunningMode;
use zerotrace_agent::debug::beacon::{
    beacon_hostname, complete, is_beacon, receive, Beacon, BeaconTimer, Received,
};
use zerotrace_agent::debug::debugger::{
    dispatch, listen_on, preface, receive_step, Command, Debugger, ListenOn, QueueMessage,
    ReceiveEvent, ReceiveStep, ServeThread, Request, Span,
};
use zerotrace_agent::debug::ebpf::{c_text, EbpfMessage, EbpfStream};
use zerotrace_agent::debug::metrics::{
    CpuMessage, DiskMessage, MemoryMessage, NetworkDebugger, NetworkMessage,
};
use zerotrace_agent::debug::module::{addressee, Message, Module};
use zerotrace_agent::debug::platform::{PlatformDebugger, PlatformMessage};
use zerotrace_agent::debug::policy::{
    describe_rule, Acl, Group, MonitorEvent, MonitorStep, PolicyDebugger, PolicyMessage,
};
use zerotrace_agent::debug::rpc::{
    config_of, ConfigResp, DebugError, RpcDebugger, RpcMessage, SyncResponse,
};
use zerotrace_agent::metric::network::NetDevStat;
use zerotrace_agent::registry::Registry;

fn beacon(agent_id: u16, hostname: &str) -> Beacon {
    Beacon { agent_id, hostname: hostname.to_string() }
}

fn text(s: &str) -> Option<String> {
    Some(s.to_string())
}

fn invalid(error: DebugError) -> String {
    match error {
        DebugError::InvalidMessage(text) => text,
        DebugError::NotFound(text) => text,
        DebugError::Rpc(text) => text,
        DebugError::FromUtf8(e) => e.to_string(),
    }
}

#[test]
fn a_beacon_has_its_bytes() {
    let frame = beacon(7, "ubuntu").to_frame().unwrap();
    assert_eq!(frame, b"zerotrace-agent\x07\x06ubuntu".to_vec());
    let frame = beacon(300, "h").to_frame().unwrap();
    assert_eq!(frame, b"zerotrace-agent\xfb\x2c\x01\x01h".to_vec());
    let long: String = (0..251).map(|_| 'x').collect();
    let frame = beacon(1, &long).to_frame().unwrap();
    assert_eq!(&frame[15..19], &[1, 0xfb, 0xfb, 0x00]);
}

#[test]
fn beacons_come_back() {
    for (id, name) in [(0u16, ""), (250, "a"), (251, "höst"), (u16::MAX, "ubuntu")] {
        let mut frame = beacon(id, name).to_frame().unwrap();
        frame.extend_from_slice(&[0; 20]);
        assert!(is_beacon(&frame));
        assert!(matches!(receive(&frame), Received::Beacon(b) if b == beacon(id, name)));
    }
}

#[test]
fn other_datagrams_are_told_apart() {
    assert!(matches!(receive(b"zerotrace"), Received::Other));
    assert!(matches!(receive(b"zerotrace-agenT\x07\x00"), Received::Other));
    assert!(matches!(receive(b"zerotrace-agent\x07\x06ubun"), Received::Truncated));
    assert!(matches!(receive(b"zerotrace-agent"), Received::Broken(_)));
    assert!(matches!(receive(b"zerotrace-agent\xfc\x01\x00\x00\x00\x00"), Received::Broken(_)));
    assert!(matches!(receive(b"zerotrace-agent\x07\x01\xff"), Received::Broken(_)));
    assert!(complete(b"\x07\x01\xff"));
    assert!(!complete(b"\x07\xfd\xff\xff\xff\xff\xff\xff\xff\xff"));
    assert!(matches!(receive(b"zerotrace-agent\xfb\x07\x00\x01h"), Received::Beacon(b) if b == beacon(7, "h")));
}

#[test]
fn beacons_are_sent_once_a_minute() {
    let mut timer = BeaconTimer::new();
    let due: Vec<usize> = (1..=180).filter(|_| timer.tick()).collect();
    assert_eq!(due, vec![60, 120, 180]);
    assert_eq!(beacon_hostname(&text("a"), text("b")), text("a"));
    assert_eq!(beacon_hostname(&None, text("b")), text("b"));
    assert_eq!(beacon_hostname(&None, None), None);
}

#[test]
fn the_first_byte_names_the_module() {
    assert_eq!(addressee(&[4, 0], true), Module::Queue);
    assert_eq!(addressee(&[10], true), Module::Network);
    assert_eq!(addressee(&[11], true), Module::Unknown);
    for code in 0..=10u8 {
        assert_eq!(Module::of_code(code, true).to_code(true), Some(code));
    }
    assert_eq!(Module::Ebpf.to_code(true), Some(6));
    assert_eq!(Module::Cpu.to_code(true), Some(7));
    assert_eq!(Module::default(), Module::Unknown);
    let message = Message::new(Module::Cpu, 5);
    assert_eq!(message.module, Module::Cpu);
    assert_eq!(message.into_inner(), 5);
}

#[test]
fn without_tracing_later_modules_move_up() {
    assert_eq!(Module::Ebpf.to_code(false), None);
    assert_eq!(Module::Policy.to_code(false), Some(5));
    assert_eq!(Module::Cpu.to_code(false), Some(6));
    assert_eq!(Module::Memory.to_code(false), Some(7));
    assert_eq!(Module::Disk.to_code(false), Some(8));
    assert_eq!(Module::Network.to_code(false), Some(9));
    for code in 0..=9u8 {
        assert_eq!(Module::of_code(code, false).to_code(false), Some(code));
    }
    assert_eq!(addressee(&[6, 0], false), Module::Cpu);
    assert_eq!(addressee(&[10], false), Module::Unknown);
}

#[test]
fn requests_lead_to_commands() {
    let command = |request: Request| dispatch(request).unwrap();
    assert!(matches!(command(Request::Platform(PlatformMessage::Version(None))), Command::PlatformVersion));
    assert!(matches!(
        command(Request::Platform(PlatformMessage::Watcher(b"nodes".to_vec()))),
        Command::Watcher(name) if name == "nodes"
    ));
    assert!(matches!(command(Request::Platform(PlatformMessage::MacMappings(None))), Command::MacMappings));
    assert!(matches!(command(Request::Rpc(RpcMessage::Acls(None))), Command::FlowAcls));
    assert!(matches!(command(Request::Rpc(RpcMessage::Cidr(None))), Command::Cidrs));
    assert!(matches!(command(Request::Rpc(RpcMessage::Config(None))), Command::BasicConfig));
    assert!(matches!(command(Request::Rpc(RpcMessage::Groups(None))), Command::IpGroups));
    assert!(matches!(command(Request::Rpc(RpcMessage::Segments(None))), Command::LocalSegments));
    assert!(matches!(command(Request::Rpc(RpcMessage::CaptureNetworkTypes(None))), Command::TapTypes));
    assert!(matches!(command(Request::Rpc(RpcMessage::Version(None))), Command::CurrentVersion));
    assert!(matches!(command(Request::Rpc(RpcMessage::PlatformData(None))), Command::PlatformData));
    assert!(matches!(command(Request::Queue(QueueMessage::Clear)), Command::TurnOffAllQueues));
    assert!(matches!(command(Request::Queue(QueueMessage::Names(None))), Command::QueueNames));
    assert!(matches!(
        command(Request::Queue(QueueMessage::On(("q".to_string(), Span { secs: 60, nanos: 0 })))),
        Command::TurnOnQueue(name, span) if name == "q" && span.secs == 60
    ));
    assert!(matches!(
        command(Request::Queue(QueueMessage::Off("q".to_string()))),
        Command::TurnOffQueue(name) if name == "q"
    ));
    assert!(matches!(command(Request::Policy(PolicyMessage::On)), Command::MonitorPolicies));
    assert!(matches!(command(Request::Policy(PolicyMessage::Off)), Command::StopPolicyMonitor));
    assert!(matches!(command(Request::Policy(PolicyMessage::Show)), Command::ShowPolicies));
    assert!(matches!(command(Request::Policy(PolicyMessage::Analyzing(3))), Command::AnalyzePolicy(3)));
    assert!(matches!(
        command(Request::Ebpf(EbpfMessage::DataDump((1, "n".to_string(), 2, 3)))),
        Command::DataDump(1, name, 2, 3) if name == "n"
    ));
    assert!(matches!(command(Request::Ebpf(EbpfMessage::Cpdbg(9))), Command::Cpdbg(9)));
    assert!(matches!(command(Request::Cpu(CpuMessage::Show)), Command::ShowCpu));
    assert!(matches!(command(Request::Memory(MemoryMessage::Show)), Command::ShowMemory));
    assert!(matches!(command(Request::Disk(DiskMessage::Show)), Command::ShowDisk));
    assert!(matches!(command(Request::Network(NetworkMessage::Show)), Command::ShowNetwork));
    assert!(matches!(command(Request::Other), Command::Skip));
}

#[test]
fn what_is_no_request_is_refused() {
    let refused = |request: Request| invalid(dispatch(request).err().unwrap());
    let s = || "x".to_string();
    assert_eq!(refused(Request::Cpu(CpuMessage::Context(s()))), "Invalid CpuMessage");
    assert_eq!(refused(Request::Memory(MemoryMessage::Error(s()))), "Invalid MemoryMessage");
    assert_eq!(refused(Request::Disk(DiskMessage::Error(s()))), "Invalid DiskMessage");
    assert_eq!(refused(Request::Network(NetworkMessage::Error(s()))), "Invalid NetworkMessage");
    assert!(matches!(
        dispatch(Request::Platform(PlatformMessage::Watcher(vec![0xff]))),
        Err(DebugError::FromUtf8(_))
    ));
    assert!(!Request::Rpc(RpcMessage::Fin).expected());
    assert!(!Request::Queue(QueueMessage::Continue).expected());
    assert!(!Request::Policy(PolicyMessage::Done).expected());
    assert!(!Request::Ebpf(EbpfMessage::Done).expected());
    assert!(!Request::Platform(PlatformMessage::Fin).expected());
    assert!(Request::Cpu(CpuMessage::Error(s())).expected());
}

#[test]
fn a_lone_agent_has_no_platform() {
    assert_eq!(preface(Module::Platform, RunningMode::Standalone), vec![PlatformMessage::Fin]);
    assert!(preface(Module::Platform, RunningMode::Managed).is_empty());
    assert!(preface(Module::Rpc, RunningMode::Standalone).is_empty());
}

#[test]
fn the_debugger_listens_where_it_can() {
    assert_eq!(listen_on(true, None), ListenOn::AnyV6);
    assert_eq!(listen_on(false, Some(true)), ListenOn::AnyV4);
    assert_eq!(listen_on(false, Some(false)), ListenOn::Nothing);
    assert_eq!(receive_step(ReceiveEvent::Datagram(0)), ReceiveStep::Ignore);
    assert_eq!(receive_step(ReceiveEvent::Datagram(3)), ReceiveStep::Dispatch);
    assert_eq!(receive_step(ReceiveEvent::WouldBlock), ReceiveStep::Ignore);
    assert_eq!(receive_step(ReceiveEvent::Failed), ReceiveStep::Warn);
    let mut debugger = Debugger::new();
    assert!(!debugger.notify_stop());
    assert!(debugger.start());
    assert!(!debugger.start());
    assert!(debugger.notify_stop());
    assert_eq!(debugger.thread, ServeThread::Ending);
    debugger.joined();
    assert_eq!(debugger.thread, ServeThread::Absent);
    let stopped = debugger;
    assert!(!debugger.notify_stop());
    debugger.joined();
    assert_eq!(debugger, stopped);
    assert!(debugger.start());
    assert_eq!(debugger.thread, ServeThread::Serving);
    debugger.stop();
    assert!(!debugger.running);
    assert_eq!(debugger.thread, ServeThread::Absent);
}

#[test]
fn data_is_dumped_as_asked() {
    let request = EbpfMessage::DataDump((u32::MAX, "nginx".to_string(), 20, 10));
    let config = request.dump_config().unwrap();
    assert_eq!((config.pid, config.protocol, config.timeout), (-1, 20, 10));
    assert_eq!(config.name, "nginx");
    assert_eq!(request.timeout(), Some(10));
    assert_eq!(EbpfMessage::Cpdbg(5).timeout(), Some(5));
    assert_eq!(EbpfMessage::Done.timeout(), None);
    assert!(EbpfMessage::Done.dump_config().is_none());
    assert!(c_text("nginx"));
    assert!(!c_text("a\0b"));
    let mut stream = EbpfStream::new(2);
    assert!(stream.goes_on(1));
    assert!(!stream.goes_on(2));
    assert_eq!(stream.received(None), None);
    assert_eq!(stream.received(Some(vec![1])), Some(EbpfMessage::Context((1, vec![1]))));
    assert_eq!(stream.received(Some(vec![2])), Some(EbpfMessage::Context((2, vec![2]))));
}

#[test]
fn network_messages_are_shown() {
    let mut stat = NetDevStat::default();
    stat.name = "eth0".to_string();
    let line = stat.display();
    let message = NetworkDebugger::new().show(Ok(vec![stat]));
    assert_eq!(message.display(), format!("{line}\n"));
    assert_eq!(NetworkDebugger::new().show(Err("no".to_string())).display(), "Error: no");
    assert_eq!(NetworkMessage::Show.display(), "");
}

#[test]
fn platform_questions_are_answered() {
    let mut watched = Registry::new();
    watched.insert("nodes".to_string(), vec![vec![1u8], vec![2, 3]]);
    let debugger = PlatformDebugger::new(
        text("v1.2"),
        watched,
        vec![(13, "b".to_string()), (12, "z".to_string()), (13, "a".to_string())],
    );
    assert_eq!(
        debugger.watcher("nodes"),
        vec![
            PlatformMessage::Watcher(vec![1]),
            PlatformMessage::Watcher(vec![2, 3]),
            PlatformMessage::Fin
        ]
    );
    assert_eq!(debugger.watcher("pods"), vec![PlatformMessage::NotFound]);
    assert_eq!(
        debugger.api_version(),
        vec![PlatformMessage::Version(text("v1.2")), PlatformMessage::Fin]
    );
    assert_eq!(
        debugger.mac_mapping(),
        vec![
            PlatformMessage::MacMappings(Some(vec![
                (12, "z".to_string()),
                (13, "a".to_string()),
                (13, "b".to_string())
            ])),
            PlatformMessage::Fin
        ]
    );
}

fn acl(id: u32, label: &str) -> Acl {
    Acl {
        id,
        text: label.to_string(),
        tap_type: "Cloud".to_string(),
        src_groups: vec![1, 65538, 9],
        dst_groups: vec![],
        proto: 6,
        src_port_ranges: vec!["1-2".to_string(), "5".to_string()],
        dst_port_ranges: vec![],
        npb_actions: vec!["a".to_string(), "b".to_string()],
    }
}

#[test]
fn rules_are_listed_by_their_numbers() {
    let messages = PolicyDebugger::new().show(vec![acl(3, "c"), acl(1, "a"), acl(3, "d"), acl(2, "b")], 5, 6);
    let mut expected = vec![PolicyMessage::Title("FirstPath Hits: 5, FastPath Hits: 6".to_string())];
    for label in ["a", "b", "c", "d"] {
        expected.push(PolicyMessage::Context(label.to_string()));
    }
    expected.push(PolicyMessage::Done);
    assert_eq!(messages, expected);
}

#[test]
fn a_rule_is_described_with_its_groups() {
    let groups = vec![
        Group { id: 1, epc_id: -2, ips: "10.0.0.0/8".to_string() },
        Group { id: 2, epc_id: 7, ips: "::1".to_string() },
    ];
    let expected = "Id: 4\nCaptureNetworkType: Cloud\nIP Src: \n\tEPC: -2 IP: 10.0.0.0/8\t\nEPC: 7 IP: ::1\nIP Dst: \n\t\nProtocol: 6\nPort Src: \"1-2, 5\"\nPort Dst: \"\"\nActions: a,b\n";
    let debugger = PolicyDebugger::new();
    assert_eq!(
        debugger.analyzing(&vec![acl(4, "")], &groups, 4),
        PolicyMessage::Context(expected.to_string())
    );
    assert_eq!(
        debugger.analyzing(&vec![acl(4, "")], &groups, 5),
        PolicyMessage::Context("Invalid acl id 5.".to_string())
    );
    assert_eq!(describe_rule(&acl(4, ""), &groups, "\"1-2, 5\"", "\"\""), expected);
}

#[test]
fn hits_are_passed_on_for_half_a_minute() {
    let mut debugger = PolicyDebugger::new();
    assert!(!debugger.goes_on(0));
    debugger.turn_on();
    assert!(debugger.goes_on(29));
    assert!(!debugger.goes_on(30));
    assert!(matches!(
        debugger.received(MonitorEvent::Hit("h".to_string())),
        MonitorStep::Send(PolicyMessage::Context(t)) if t == "h"
    ));
    assert!(matches!(debugger.received(MonitorEvent::Timeout), MonitorStep::Wait));
    assert_eq!(debugger.finish(), PolicyMessage::Done);
    assert!(!debugger.enabled);
    debugger.turn_on();
    assert!(matches!(
        debugger.received(MonitorEvent::Terminated),
        MonitorStep::End(PolicyMessage::Error(t)) if t == "policy monitor queue terminated."
    ));
    assert!(!debugger.enabled);
    debugger.turn_on();
    debugger.turn_off();
    assert!(!debugger.enabled);
}

fn reply() -> SyncResponse {
    SyncResponse {
        status: -1,
        user_config: text("a: \"b\"\n"),
        revision: None,
        self_update_url: text("http://x"),
        version_platform_data: 2,
        version_acls: 3,
        version_groups: 4,
        capture_network_types: vec!["t".to_string()],
        local_segments: vec!["s".to_string()],
    }
}

#[test]
fn the_configuration_is_quoted() {
    let messages = RpcDebugger.basic_config(Ok(reply())).unwrap();
    assert_eq!(
        messages[0],
        RpcMessage::Config(text(
            "ConfigResp { status: -1, version_platform_data: 2, version_acls: 3, version_groups: 4, revision: \"\", config: \"a: \\\"b\\\"\\n\", self_update_url: \"http://x\" }"
        ))
    );
    assert_eq!(messages[1], RpcMessage::Fin);
    let resp: ConfigResp = config_of(reply());
    assert_eq!(resp.revision, "");
    assert_eq!(
        resp.display_with("R", "C", "U"),
        "ConfigResp { status: -1, version_platform_data: 2, version_acls: 3, version_groups: 4, revision: R, config: C, self_update_url: U }"
    );
}

#[test]
fn rpc_questions_are_answered() {
    let list = vec!["1".to_string(), "2".to_string()];
    assert_eq!(
        RpcDebugger.tap_types(Ok(reply())).unwrap(),
        vec![RpcMessage::CaptureNetworkTypes(text("t")), RpcMessage::Fin]
    );
    assert_eq!(
        RpcDebugger.cidrs(Ok(reply()), &list).unwrap(),
        vec![RpcMessage::Cidr(text("1")), RpcMessage::Cidr(text("2")), RpcMessage::Fin]
    );
    assert_eq!(
        RpcDebugger.platform_data(Ok(reply()), &list, &vec!["p".to_string()]).unwrap(),
        vec![
            RpcMessage::PlatformData(text("1")),
            RpcMessage::PlatformData(text("2")),
            RpcMessage::PlatformData(text("p")),
            RpcMessage::Fin
        ]
    );
    assert_eq!(RpcDebugger.ip_groups(Ok(reply()), &list).unwrap().len(), 3);
    assert_eq!(RpcDebugger.flow_acls(Ok(reply()), &list).unwrap().len(), 3);
    assert_eq!(
        RpcDebugger.local_segments(Ok(reply())).unwrap(),
        vec![RpcMessage::Segments(text("s")), RpcMessage::Fin]
    );
    assert_eq!(
        RpcDebugger.current_version(1, 2, 3),
        vec![
            RpcMessage::Version(text("platformData version: 1\n groups version: 2\nflowAcls version: 3")),
            RpcMessage::Fin
        ]
    );
}

#[test]
fn rpc_questions_that_cannot_be_answered_say_why() {
    let mut empty = reply();
    empty.user_config = None;
    assert_eq!(invalid(RpcDebugger.basic_config(Ok(empty)).unwrap_err()), "sync response's config is empty");
    let mut empty = reply();
    empty.capture_network_types.clear();
    assert_eq!(
        invalid(RpcDebugger.tap_types(Ok(empty)).unwrap_err()),
        "sync response's capture_network_types is empty"
    );
    let unversioned = || {
        let mut resp = reply();
        resp.version_platform_data = 0;
        resp.version_acls = 0;
        resp.version_groups = 0;
        resp.local_segments.clear();
        resp
    };
    assert_eq!(invalid(RpcDebugger.cidrs(Ok(unversioned()), &vec![]).unwrap_err()), "cidrs data in preparation");
    assert_eq!(
        invalid(RpcDebugger.platform_data(Ok(unversioned()), &vec![], &vec![]).unwrap_err()),
        "platform data in preparation"
    );
    assert_eq!(invalid(RpcDebugger.ip_groups(Ok(unversioned()), &vec![]).unwrap_err()), "ip groups data in preparation");
    assert_eq!(invalid(RpcDebugger.flow_acls(Ok(unversioned()), &vec![]).unwrap_err()), "flow acls data in preparation");
    assert_eq!(
        invalid(RpcDebugger.local_segments(Ok(unversioned())).unwrap_err()),
        "local segments data is empty, maybe zerotrace-agent is not properly configured"
    );
    assert!(matches!(
        RpcDebugger.flow_acls(Err("down".to_string()), &vec![]),
        Err(DebugError::Rpc(t)) if t == "down"
    ));
}
