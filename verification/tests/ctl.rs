//! The debug protocol, from the controller's side, and the tools around it.
use std::io::Write;
use zerotrace_agent::ctl::client::{
    beacon_port, binds_v4, check_reply, client_address, required_port, Address, ERR_PORT_MSG,
};
use zerotrace_agent::ctl::entry::{entry_text, EntryDecoder, EntryError};
use zerotrace_agent::ctl::list::AgentTable;
use zerotrace_agent::ctl::session::{
    cpu_reply, disk_reply, ebpf_line, ebpf_reply, memory_reply, network_reply, platform_task,
    watch, watch_reply, Next, PlatformTask, PolicyTask, QueueCmd, QueueTask, Reaction, Resource,
    RpcData,
};
use zerotrace_agent::debug::beacon::Beacon;
use zerotrace_agent::debug::debugger::{dispatch, Command, QueueMessage, Request, Span};
use zerotrace_agent::debug::ebpf::EbpfMessage;
use zerotrace_agent::debug::metrics::{CpuMessage, DiskMessage, MemoryMessage, NetworkMessage};
use zerotrace_agent::debug::platform::{PlatformDebugger, PlatformMessage};
use zerotrace_agent::debug::policy::PolicyMessage;
use zerotrace_agent::debug::rpc::{RpcDebugger, RpcMessage};
use zerotrace_agent::metric::disk::DiskStat;
use zerotrace_agent::metric::network::NetDevStat;
use zerotrace_agent::pid_file::{close, open, process_to_look_for, Existing, Kept, OpenError};
use zerotrace_agent::registry::Registry;
use zerotrace_agent::sort::sort;
use zerotrace_agent::tasks::{commands, Task};
use zerotrace_agent::text::{
    decimal, join, lines, pad_left, pad_right, parse_u64, parse_up_to, signed_decimal, split_once,
    split_whitespace, trim,
};

fn compressed(text: &[u8]) -> Vec<u8> {
    let mut encoder = flate2::write::ZlibEncoder::new(Vec::new(), flate2::Compression::default());
    encoder.write_all(text).unwrap();
    encoder.finish().unwrap()
}

fn s(text: &str) -> String {
    text.to_string()
}

fn waits(r: &Reaction) -> bool {
    matches!(r.next, Next::Wait)
}

fn done(r: &Reaction) -> bool {
    matches!(r.next, Next::Done)
}

fn failure(r: Reaction) -> String {
    match r.next {
        Next::Fail(text) => text,
        _ => panic!("no failure"),
    }
}

#[test]
fn a_port_is_needed() {
    assert_eq!(required_port(Some(7)), Ok(7));
    assert_eq!(required_port(None), Err(s(ERR_PORT_MSG)));
    assert!(ERR_PORT_MSG.contains("\n    \t--port <PORT> required"));
    assert_eq!(beacon_port(None, 30035), 30035);
    assert_eq!(beacon_port(Some(1), 30035), 1);
    assert!(check_reply(1).is_ok());
    assert_eq!(check_reply(0), Err(s("receive zero byte")));
}

#[test]
fn mapped_addresses_are_taken_as_ipv4() {
    let v4 = Address::V4([127, 0, 0, 1]);
    assert_eq!(client_address(v4), v4);
    let zeros = [0u8; 16];
    let mut mapped = zeros;
    mapped[10..].copy_from_slice(&[255, 255, 1, 2, 3, 4]);
    assert_eq!(client_address(Address::V6(mapped)), Address::V4([1, 2, 3, 4]));
    let mut compatible = zeros;
    compatible[12..].copy_from_slice(&[1, 2, 3, 4]);
    assert_eq!(client_address(Address::V6(compatible)), Address::V4([1, 2, 3, 4]));
    let mut loopback = zeros;
    loopback[15] = 1;
    assert_eq!(client_address(Address::V6(loopback)), Address::V4([0, 0, 0, 1]));
    let mut link_local = loopback;
    link_local[0] = 0xfe;
    link_local[1] = 0x80;
    assert_eq!(client_address(Address::V6(link_local)), Address::V6(link_local));
    let mut near = mapped;
    near[10] = 254;
    assert_eq!(client_address(Address::V6(near)), Address::V6(near));
    assert!(binds_v4(v4));
    assert!(!binds_v4(Address::V6(near)));
}

#[test]
fn agents_are_listed_once() {
    let header = AgentTable::header(30035);
    assert_eq!(header[0], "zerotrace-agent-ctl listening udp port 30035 to find zerotrace-agent\n");
    assert_eq!(header[1], format!("{:-<100}", ""));
    assert_eq!(header[2], format!("{:<14} {:<28} {:45} {}", "VTAP ID", "HOSTNAME", "IP", "PORT"));
    assert_eq!(header[3], header[1]);
    let mut table = AgentTable::new();
    let beacon = Beacon { agent_id: 1, hostname: s("ubuntu") };
    assert_eq!(
        table.list(&beacon, "::ffff:127.0.0.1", 42700),
        Some(format!("{:<14} {:<28} {:<45} {}", 1, "ubuntu", "::ffff:127.0.0.1", 42700))
    );
    assert_eq!(table.list(&beacon, "::1", 1), None);
    let other = Beacon { agent_id: 2, hostname: s("ubuntu") };
    assert!(table.list(&other, "::1", 1).is_some());
}

#[test]
fn every_agent_is_listed() {
    let mut table = AgentTable::new();
    let ids = [3u16, 1, 3, 2, 1, 3];
    let listed: Vec<bool> = ids
        .iter()
        .map(|id| table.list(&Beacon { agent_id: *id, hostname: s("h") }, "::1", 1).is_some())
        .collect();
    assert_eq!(listed, vec![true, true, false, true, false, false]);
}

#[test]
fn what_is_asked_is_dispatched_and_what_is_answered_is_printed() {
    let what = RpcData::Segments;
    assert!(matches!(dispatch(Request::Rpc(what.request())), Ok(Command::LocalSegments)));
    let task = platform_task(Some(Resource::Deploy), false);
    let request = Request::Platform(task.request().unwrap());
    assert!(request.expected());
    assert!(matches!(dispatch(request), Ok(Command::Watcher(name)) if name == "deployments"));
    let debugger = PlatformDebugger::new(Some(s("v1")), Registry::new(), vec![(2, s("b")), (1, s("a"))]);
    let printed = |task: PlatformTask, messages: Vec<PlatformMessage>| {
        let mut lines = Vec::new();
        let last = messages.len() - 1;
        for (i, message) in messages.into_iter().enumerate() {
            let r = task.reply(Some(message));
            assert_eq!(done(&r), i == last);
            lines.extend(r.lines);
        }
        lines
    };
    assert_eq!(printed(PlatformTask::Version, debugger.api_version()), vec![s("v1")]);
    assert_eq!(printed(PlatformTask::MacMappings, debugger.mac_mapping()).len(), 2);
    let answer = RpcDebugger.reply(Err(s("down")));
    assert_eq!(answer.len(), 1);
    for message in answer {
        assert_eq!(failure(what.reply(Some(message))), "down");
    }
}

#[test]
fn rpc_replies_are_printed_until_the_end() {
    assert_eq!(RpcData::Acls.request(), RpcMessage::Acls(None));
    assert_eq!(RpcData::Platform.request(), RpcMessage::PlatformData(None));
    let r = RpcData::Acls.reply(Some(RpcMessage::Acls(Some(s("rule")))));
    assert_eq!(r.lines, vec![s("rule")]);
    assert!(waits(&r));
    assert!(waits(&RpcData::Acls.reply(None)));
    assert!(done(&RpcData::Acls.reply(Some(RpcMessage::Fin))));
    assert_eq!(failure(RpcData::Cidr.reply(Some(RpcMessage::Cidr(None)))), "Cidr data is empty");
    assert_eq!(
        failure(RpcData::CaptureNetworkTypes.reply(Some(RpcMessage::CaptureNetworkTypes(None)))),
        "CaptureNetworkTypes data is empty"
    );
    assert_eq!(failure(RpcData::Config.reply(Some(RpcMessage::Config(None)))), "Config is empty");
    assert_eq!(failure(RpcData::Version.reply(Some(RpcMessage::Version(None)))), "Version is empty");
    assert_eq!(failure(RpcData::Config.reply(Some(RpcMessage::Error(s("e"))))), "e");
}

fn queue_cmd() -> QueueCmd {
    QueueCmd { on: None, duration: None, off: None, show: false, clear: false }
}

#[test]
fn queue_commands_are_planned() {
    let mut both = queue_cmd();
    both.on = Some(s("a"));
    both.off = Some(s("b"));
    assert_eq!(both.plan().err().unwrap(), "error: --on and --off cannot set at the same time");
    let mut zero = queue_cmd();
    zero.on = Some(s("a"));
    zero.duration = Some(0);
    assert_eq!(zero.plan().err().unwrap(), "zero duration isn't allowed");
    let mut on = queue_cmd();
    on.on = Some(s("a"));
    on.duration = Some(60);
    let (task, message) = on.plan().unwrap();
    assert!(matches!(task, QueueTask::On));
    assert_eq!(message, Some(QueueMessage::On((s("a"), Span { secs: 60, nanos: 0 }))));
    let mut all = queue_cmd();
    all.off = Some(s("a"));
    all.clear = true;
    all.show = true;
    let (task, message) = all.plan().unwrap();
    assert!(matches!(task, QueueTask::Show));
    assert_eq!(task.opening(), Some("available queues: "));
    assert_eq!(message, Some(QueueMessage::Names(None)));
    let mut clear = queue_cmd();
    clear.off = Some(s("a"));
    clear.clear = true;
    assert!(matches!(clear.plan().unwrap(), (QueueTask::Clear, Some(QueueMessage::Clear))));
    let mut off = queue_cmd();
    off.off = Some(s("a"));
    let (task, message) = off.plan().unwrap();
    assert!(matches!(task, QueueTask::Off(_)));
    assert_eq!(message, Some(QueueMessage::Off(s("a"))));
    assert!(matches!(queue_cmd().plan().unwrap(), (QueueTask::Nothing, None)));
}

#[test]
fn queues_are_listed_and_turned_off() {
    let mut show = QueueTask::Show;
    let r = show.reply(Some(QueueMessage::Names(Some(vec![(s("q1"), true), (s("q2"), false)]))));
    assert_eq!(r.lines[0], format!("{:<5} {:<45} {}", 0, "q1", "enabled"));
    assert_eq!(r.lines[1], format!("{:<5} {:<45} {}", 1, "q2", "disabled"));
    assert!(waits(&r));
    assert!(waits(&show.reply(None)));
    assert_eq!(failure(show.reply(Some(QueueMessage::Names(None)))), "cannot get queue names");
    assert_eq!(failure(show.reply(Some(QueueMessage::Error(s("e"))))), "e");
    assert!(done(&show.reply(Some(QueueMessage::Fin))));
    assert!(matches!(show.reply(Some(QueueMessage::Clear)).next, Next::Unexpected));
    let mut clear = QueueTask::Clear;
    let r = clear.reply(Some(QueueMessage::Fin));
    assert_eq!(r.lines, vec![s("turn off all queues successful")]);
    assert!(done(&clear.reply(None)));
    let mut off = QueueTask::Off(s("q"));
    let r = off.reply(Some(QueueMessage::Fin));
    assert_eq!(r.lines, vec![s("turn off queue=q successful")]);
    assert!(done(&r));
}

#[test]
fn a_monitored_queue_numbers_its_items() {
    let mut task = QueueTask::On;
    assert!(done(&task.reply(None)));
    assert_eq!(failure(task.reply(Some(QueueMessage::Error(s("no"))))), "no");
    let r = task.reply(Some(QueueMessage::Fin));
    assert_eq!(r.lines, vec![s("loading queue item...")]);
    assert!(waits(&r));
    assert_eq!(task.reply(Some(QueueMessage::Send(s("x")))).lines, vec![s("MSG-0 x")]);
    assert_eq!(task.reply(Some(QueueMessage::Continue)).lines, vec![s("nothing received for 30s")]);
    assert_eq!(task.reply(Some(QueueMessage::Send(s("y")))).lines, vec![s("MSG-1 y")]);
    assert!(waits(&task.reply(None)));
    assert!(done(&task.reply(Some(QueueMessage::Fin))));
}

#[test]
fn platform_commands_are_planned() {
    assert_eq!(platform_task(Some(Resource::Pods), true), PlatformTask::MacMappings);
    assert_eq!(platform_task(Some(Resource::Version), false), PlatformTask::Version);
    assert_eq!(platform_task(Some(Resource::Po), false), PlatformTask::Watch(Resource::Po));
    assert_eq!(platform_task(None, false), PlatformTask::Nothing);
    assert_eq!(
        PlatformTask::Watch(Resource::Rc).request(),
        Some(PlatformMessage::Watcher(b"replicationcontrollers".to_vec()))
    );
    assert_eq!(PlatformTask::Nothing.request(), None);
    assert_eq!(PlatformTask::MacMappings.opening(), Some("Interface Index \t MAC address"));
    assert_eq!(PlatformTask::Version.opening(), None);
    assert_eq!(Resource::Svc.display(), "services");
    assert_eq!(Resource::Version.display(), "version");
}

#[test]
fn platform_replies_are_printed() {
    let task = PlatformTask::MacMappings;
    let r = task.reply(Some(PlatformMessage::MacMappings(Some(vec![(12, s("01:02:03:04:05:06"))]))));
    assert_eq!(r.lines, vec![format!("{:<15} \t {}", 12, "01:02:03:04:05:06")]);
    assert_eq!(failure(task.reply(Some(PlatformMessage::MacMappings(None)))), "mac mappings is empty");
    assert!(matches!(task.reply(Some(PlatformMessage::Version(None))).next, Next::Unexpected));
    assert!(done(&task.reply(Some(PlatformMessage::Fin))));
    let task = PlatformTask::Version;
    assert_eq!(task.reply(Some(PlatformMessage::Version(Some(s("v"))))).lines, vec![s("v")]);
    assert_eq!(failure(task.reply(Some(PlatformMessage::Version(None)))), "server version is empty");
}

#[test]
fn watched_entries_are_decompressed() {
    let mut decoder = EntryDecoder::new();
    for text in ["first entry", "", "zweiter Eintrag: ü"] {
        let r = watch(&mut decoder, Some(PlatformMessage::Watcher(compressed(text.as_bytes()))));
        assert_eq!(r.reaction.lines, vec![s(text)]);
        assert!(r.error.is_none());
    }
    let r = watch(&mut decoder, Some(PlatformMessage::Watcher(compressed(&[0xff, 0xfe]))));
    assert!(matches!(r.error, Some(EntryError::Text(_))));
    assert!(waits(&r.reaction));
    assert!(waits(&watch(&mut decoder, None).reaction));
    assert_eq!(failure(watch(&mut decoder, Some(PlatformMessage::NotFound)).reaction), "no data");
    assert!(done(&watch(&mut decoder, Some(PlatformMessage::Fin)).reaction));
    let r = watch_reply(Some(PlatformMessage::Watcher(vec![])), Some(Ok(s("e"))));
    assert_eq!(r.reaction.lines, vec![s("e")]);
}

/// The entry decoder does what one decompressor does that is kept from entry to entry.
#[test]
fn refused_entries_stay_in_the_way() {
    let good = compressed(b"good");
    let mut trailing = compressed(b"kept");
    trailing.extend_from_slice(b"!!");
    let mut corrupt = compressed(b"some longer text to corrupt");
    corrupt[4] ^= 0x55;
    let half = good[..good.len() / 2].to_vec();
    let sequences: Vec<Vec<Vec<u8>>> = vec![
        vec![trailing.clone(), good.clone(), vec![], good.clone()],
        vec![corrupt.clone(), good.clone(), vec![], good.clone()],
        vec![half.clone(), good.clone()],
        vec![vec![], good.clone()],
        vec![vec![0, 1, 2, 3], good.clone()],
    ];
    for entries in sequences {
        let mut kept = flate2::write::ZlibDecoder::new(Vec::new());
        let mut decoder = EntryDecoder::new();
        for entry in entries {
            let expected = kept.write_all(&entry).and_then(|()| kept.reset(Vec::new()));
            match (expected, decoder.decode_entry(&entry)) {
                (Ok(bytes), Ok(text)) => assert_eq!(bytes, text.into_bytes()),
                (Err(_), Err(EntryError::Compression(_))) => {}
                _ => panic!("the two differ"),
            }
        }
    }
    let mut decoder = EntryDecoder::new();
    assert!(decoder.decode_entry(&trailing).is_err());
    assert!(decoder.decode_entry(&good).is_err());
    assert_eq!(decoder.decode_entry(&[]).unwrap(), "kept");
    assert_eq!(decoder.decode_entry(&good).unwrap(), "good");
}

#[test]
fn decompressed_entries_are_text() {
    assert_eq!(entry_text(Ok(b"abc".to_vec())).unwrap(), "abc");
    assert!(matches!(entry_text(Ok(vec![0x80])), Err(EntryError::Text(_))));
    let error = std::io::Error::new(std::io::ErrorKind::Other, "x");
    assert!(matches!(entry_text(Err(error)), Err(EntryError::Compression(_))));
}

#[test]
fn policy_replies_are_numbered() {
    let mut show = PolicyTask::show();
    assert_eq!(show.request(), PolicyMessage::Show);
    assert_eq!(show.reply(Some(PolicyMessage::Title(s("t")))).lines, vec![s("t")]);
    assert_eq!(show.reply(Some(PolicyMessage::Context(s("a")))).lines, vec![s("\t1: a")]);
    assert_eq!(show.reply(Some(PolicyMessage::Context(s("b")))).lines, vec![s("\t2: b")]);
    assert!(waits(&show.reply(None)));
    assert!(done(&show.reply(Some(PolicyMessage::Done))));
    let r = show.reply(Some(PolicyMessage::Error(s("e"))));
    assert_eq!(r.lines, vec![s("e")]);
    assert!(done(&r));
    assert!(matches!(show.reply(Some(PolicyMessage::On)).next, Next::Unexpected));
    let mut monitor = PolicyTask::Monitor;
    assert_eq!(monitor.request(), PolicyMessage::On);
    assert_eq!(monitor.reply(Some(PolicyMessage::Context(s("h")))).lines, vec![s("h")]);
    let mut analyzing = PolicyTask::analyzing(None);
    assert_eq!(analyzing.request(), PolicyMessage::Analyzing(0));
    assert!(done(&analyzing.reply(Some(PolicyMessage::Context(s("c"))))));
    assert_eq!(PolicyTask::analyzing(Some(4)).request(), PolicyMessage::Analyzing(4));
}

#[test]
fn ebpf_data_is_shown_as_text() {
    assert_eq!(ebpf_line(3, "x"), "SEQ 3: x");
    let r = ebpf_reply(Some(EbpfMessage::Context((1, b"data".to_vec()))));
    assert_eq!(r.lines, vec![s("SEQ 1: data")]);
    let r = ebpf_reply(Some(EbpfMessage::Context((2, vec![b'a', 0xff, b'b']))));
    assert_eq!(r.lines, vec![s("SEQ 2: a\u{fffd}b")]);
    assert!(done(&ebpf_reply(Some(EbpfMessage::Done))));
    assert!(done(&ebpf_reply(Some(EbpfMessage::Error(s("e"))))));
    assert!(waits(&ebpf_reply(None)));
    assert!(matches!(ebpf_reply(Some(EbpfMessage::Cpdbg(1))).next, Next::Unexpected));
}

#[test]
fn metric_replies_are_printed() {
    assert_eq!(cpu_reply(Some(CpuMessage::Context(s("c")))).lines, vec![s("c")]);
    assert_eq!(cpu_reply(Some(CpuMessage::Error(s("e")))).lines, vec![s("e")]);
    assert!(done(&cpu_reply(None)));
    assert!(matches!(cpu_reply(Some(CpuMessage::Show)).next, Next::Unexpected));
    assert_eq!(memory_reply(Some(MemoryMessage::Context(s("m")))).lines, vec![s("m")]);
    let disk = DiskStat::default();
    let line = disk.display();
    assert_eq!(disk_reply(Some(DiskMessage::Context(vec![disk]))).lines, vec![line]);
    let device = NetDevStat::default();
    let line = device.display();
    assert_eq!(network_reply(Some(NetworkMessage::Context(vec![device]))).lines, vec![line]);
    assert!(matches!(network_reply(Some(NetworkMessage::Show)).next, Next::Unexpected));
    assert!(done(&disk_reply(None)));
}

#[test]
fn a_running_process_keeps_its_pid_file() {
    assert_eq!(process_to_look_for(&Existing::File(s(" 42\n"))), Some(42));
    assert_eq!(process_to_look_for(&Existing::File(s("4294967295"))), Some(-1));
    assert_eq!(process_to_look_for(&Existing::File(s("4294967296"))), None);
    assert_eq!(process_to_look_for(&Existing::File(s("none"))), None);
    assert_eq!(process_to_look_for(&Existing::Missing), None);
    assert!(matches!(open(Existing::File(s("42")), true, 7), Err(OpenError::AlreadyExists)));
    assert_eq!(open(Existing::File(s("42")), false, 7).unwrap(), "7\n");
    assert_eq!(open(Existing::File(s("none")), true, 7).unwrap(), "7\n");
    assert_eq!(open(Existing::Missing, false, 7).unwrap(), "7\n");
    let error = std::io::Error::new(std::io::ErrorKind::PermissionDenied, "x");
    assert!(matches!(open(Existing::Unreadable(error), false, 7), Err(OpenError::Io(_))));
    let written = open(Existing::Missing, false, 31).unwrap();
    assert_eq!(process_to_look_for(&Existing::File(written)), Some(31));
}

#[test]
fn the_first_pid_file_is_kept() {
    let mut kept = Kept::new();
    assert_eq!(close(&mut kept), None);
    assert_eq!(kept.keep(s("/run/a.pid")), None);
    assert_eq!(kept.keep(s("/run/b.pid")), Some(s("/run/b.pid")));
    assert_eq!(close(&mut kept), Some(s("/run/a.pid")));
    assert_eq!(close(&mut kept), None);
    assert_eq!(kept.keep(s("/run/c.pid")), Some(s("/run/c.pid")));
}

#[test]
fn chores_run_their_commands() {
    assert_eq!(
        commands(Task::Check { no_deny: false }, true),
        vec![
            "cargo fmt --all -- --check",
            "cargo clippy --workspace --all-targets --no-default-features -- -D warnings",
            "cargo nextest run --workspace --no-default-features",
            "cargo deny check"
        ]
    );
    assert_eq!(commands(Task::Check { no_deny: true }, false).len(), 3);
    assert_eq!(commands(Task::Test, false), vec!["cargo test --workspace --no-default-features"]);
    assert_eq!(commands(Task::Fmt { check: false }, false), vec!["cargo fmt --all"]);
    assert_eq!(commands(Task::HakariGen, false).len(), 3);
}

#[test]
fn text_is_cut_as_the_standard_library_cuts_it() {
    for text in ["", " a  b\tc \n", "one", "\u{3000}x\u{2003}y", "a\r\nb\n\nc", "a\rb", "\n", "x\r"] {
        assert_eq!(split_whitespace(text), text.split_whitespace().collect::<Vec<_>>());
        assert_eq!(lines(text), text.lines().collect::<Vec<_>>());
        assert_eq!(trim(text), text.trim());
    }
    for text in ["0", "+5", "-1", "", "+", "18446744073709551615", "18446744073709551616", "1a", " 1"] {
        assert_eq!(parse_u64(text), text.parse::<u64>().ok());
        assert_eq!(parse_up_to(text, 65535), text.parse::<u16>().ok().map(|n| n as u64));
    }
    assert_eq!(split_once("a:b:c", ':'), Some((s("a"), s("b:c"))));
    assert_eq!(split_once("abc", ':'), None);
}

#[test]
fn numbers_and_columns_are_written_as_format_writes_them() {
    for n in [0, 7, 10, 99, 100, u64::MAX] {
        assert_eq!(decimal(n), n.to_string());
    }
    for n in [0, -1, 17, i32::MIN, i32::MAX] {
        assert_eq!(signed_decimal(n), n.to_string());
    }
    assert_eq!(pad_left("ab", 5), format!("{:>5}", "ab"));
    assert_eq!(pad_right("ab", 5), format!("{:<5}", "ab"));
    assert_eq!(pad_right("abcdef", 5), "abcdef");
    assert_eq!(join(&vec![s("a"), s("b")], ", "), "a, b");
    assert_eq!(join(&vec![], ", "), "");
    assert_eq!(
        sort(vec![(2, s("a")), (1, s("b")), (1, s("a"))]),
        vec![(1, s("a")), (1, s("b")), (2, s("a"))]
    );
}
