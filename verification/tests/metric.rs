//! Host metrics: what is read from /proc, and what is reported of it.
use zerotrace_agent::metric::cpu::{parse_cpu_times, CpuState, CpuTimes};
use zerotrace_agent::metric::disk::{parse_diskstats, DiskStat};
use zerotrace_agent::metric::host_metric::{
    Counter, CounterType, CounterValue, CpuMetricCollector, DiskMetricCollector,
    MemoryMetricCollector, NetworkMetricCollector,
};
use zerotrace_agent::metric::memory::MemInfo;
use zerotrace_agent::metric::network::{parse_netdev, NetDevStat};
use zerotrace_agent::metric::ratio::Ratio;

const PROC_STAT: &str = "cpu  10132153 290696 3084719 46828483 16683 0 25195 0 0 0
cpu0 1393280 32966 572056 13343292 6130 0 17875 0 0 0
cpu1 1335498 26113 525820 13345612 3931 0 4960 0 0 0
cpu2 1364872 21498 496116 13370498 3023 0 1313 0 0 0
cpu3 1365925 21270 496483 13372498 2702 0 1047 0 0 0
intr 199292886 44 0 0 0 0 0 0 0 0
ctxt 490315963
btime 1677292882
processes 124319
procs_running 1
procs_blocked 0
softirq 50234534 2 10780769 26 784191 1209517 0 1498 12767672 0 24690859
";

const PROC_MEMINFO: &str = "MemTotal:       16384000 kB
MemFree:         8192000 kB
MemAvailable:   12288000 kB
Buffers:          512000 kB
Cached:          2048000 kB
SwapCached:            0 kB
Active:          4096000 kB
Inactive:        2048000 kB
Active(anon):    2048000 kB
Inactive(anon):   512000 kB
Active(file):    2048000 kB
Inactive(file):  1536000 kB
SwapTotal:       4096000 kB
SwapFree:        4096000 kB
Dirty:               128 kB
Writeback:             0 kB
AnonPages:       2048000 kB
Mapped:           512000 kB
Shmem:            256000 kB
KReclaimable:     256000 kB
Slab:             512000 kB
SReclaimable:     256000 kB
SUnreclaim:       256000 kB
KernelStack:       16384 kB
PageTables:        32768 kB
CommitLimit:     12288000 kB
Committed_AS:    8192000 kB
VmallocTotal:   34359738367 kB
VmallocUsed:       65536 kB
VmallocChunk:          0 kB
HugePages_Total:       0
HugePages_Free:        0
Hugepagesize:       2048 kB
";

const PROC_DISKSTATS: &str = "   8       0 sda 24572 1249 1532648 12804 48690 34642 1650984 124848 0 42568 137656 0 0 0 0 1234 5678
   8       1 sda1 180 0 8680 68 1 0 1 0 0 56 68 0 0 0 0 0 0
   8      16 sdb 5678 234 456780 3456 7890 5432 876540 9876 2 5432 13332
";

const PROC_NET_DEV: &str = "Inter-|   Receive                                                |  Transmit
 face |bytes    packets errs drop fifo frame compressed multicast|bytes    packets errs drop fifo colls carrier compressed
    lo: 1234567  12345    0    0    0     0          0         0  1234567  12345    0    0    0     0       0          0
  eth0: 98765432  654321   10    5    0     0          0       100 87654321  543210    2    1    0     0       0          0
";

fn percentage(ratio: Ratio) -> f64 {
    if ratio.whole == 0 {
        0.0
    } else {
        ratio.part as f64 / ratio.whole as f64 * 100.0
    }
}

fn shares(times: &CpuTimes) -> Vec<String> {
    CpuMetricCollector::compute_pct(times)
        .iter()
        .map(|share| format!("{:.2}", percentage(share.1)))
        .collect()
}

fn show(state: &CpuState) -> String {
    let cpus: Vec<String> = state.cpus.iter().map(|c| c.display(&shares(c))).collect();
    state.display(&state.total.display(&shares(&state.total)), &cpus)
}

fn names(counters: &[Counter]) -> Vec<&'static str> {
    counters.iter().map(|c| c.0).collect()
}

fn value(counters: &[Counter], name: &str) -> (CounterType, CounterValue) {
    let found = counters.iter().find(|c| c.0 == name).unwrap();
    (found.1, found.2)
}

fn failure() -> std::io::Error {
    std::io::Error::new(std::io::ErrorKind::Other, "unreadable")
}

#[test]
fn test_parse_cpu_state() {
    let state = CpuState::parse(PROC_STAT).unwrap();
    assert_eq!(state.cpus.len(), 4);
    assert_eq!(state.total.user, 10132153);
    assert_eq!(state.total.nice, 290696);
    assert_eq!(state.context_switches, 490315963);
    assert_eq!(state.boot_time, 1677292882);
    assert_eq!(state.processes, 124319);
    assert_eq!(state.procs_running, 1);
    assert_eq!(state.procs_blocked, 0);
}

#[test]
fn test_cpu_times_total() {
    let t = CpuTimes {
        user: 100,
        nice: 10,
        system: 50,
        idle: 800,
        iowait: 20,
        irq: 5,
        softirq: 3,
        steal: 2,
        guest: 0,
        guest_nice: 0,
    };
    assert_eq!(t.total(), 990);
    assert_eq!(t.active(), 170);
}

#[test]
fn test_cpu_times_sub() {
    let a = CpuTimes { user: 200, nice: 20, system: 100, idle: 1600, iowait: 40, irq: 10, softirq: 6, steal: 4, guest: 0, guest_nice: 0 };
    let b = CpuTimes { user: 100, nice: 10, system: 50, idle: 800, iowait: 20, irq: 5, softirq: 3, steal: 2, guest: 0, guest_nice: 0 };
    let delta = a - b;
    assert_eq!(delta.user, 100);
    assert_eq!(delta.idle, 800);
}

#[test]
fn cpu_test_display() {
    let state = CpuState::parse(PROC_STAT).unwrap();
    let s = show(&state);
    assert!(s.contains("CPU Total:"));
    assert!(s.contains("CPU     0:"));
    assert!(s.contains("Context Switches:"));
}

#[test]
fn differences_stop_at_zero() {
    let mut earlier = CpuTimes::default();
    let mut later = CpuTimes::default();
    earlier.user = 7;
    earlier.idle = 3;
    later.user = 5;
    later.idle = 10;
    let delta = later - earlier;
    assert_eq!(delta.user, 0);
    assert_eq!(delta.idle, 7);
    assert_eq!(delta.total(), 7);
    assert_eq!((later - later).total(), 0);
}

#[test]
fn totals_that_do_not_fit_are_told() {
    let mut times = CpuTimes::default();
    times.user = u64::MAX;
    assert_eq!(times.checked_total(), Some(u64::MAX));
    times.guest_nice = 1;
    assert_eq!(times.checked_total(), None);
}

#[test]
fn a_cpu_line_with_missing_and_broken_fields() {
    let words: Vec<String> = vec!["5".to_string(), "x".to_string(), "+7".to_string()];
    let times = parse_cpu_times(&words);
    assert_eq!(times.user, 5);
    assert_eq!(times.nice, 0);
    assert_eq!(times.system, 7);
    assert_eq!(times.idle, 0);
}

#[test]
fn a_cpu_snapshot_is_shown_line_by_line() {
    let state = CpuState::parse("cpu 1 0 0 3 0 0 0 0 0 0\ncpu0 0 0 0 0 0 0 0 0 0 0\nctxt 12\nbtime 34\nprocesses 5\nprocs_running 6\nprocs_blocked 7\n").unwrap();
    assert_eq!(
        show(&state),
        "CPU Total:  user=25.00% nice=0.00% system=0.00% idle=75.00% iowait=0.00% irq=0.00% softirq=0.00% steal=0.00% guest=0.00% guest_nice=0.00%\nCPU     0:  user=0.00% nice=0.00% system=0.00% idle=0.00% iowait=0.00% irq=0.00% softirq=0.00% steal=0.00% guest=0.00% guest_nice=0.00%\nContext Switches: 12\nBoot Time:        34\nProcesses:        5\nProcs Running:    6\nProcs Blocked:    7"
    );
}

#[test]
fn cpu_lines_without_all_ten_times_are_passed_over() {
    let state = CpuState::parse("cpu 1 2 3\ncpu0 1 2 3 4 5 6 7 8 9\n\nctxt\n").unwrap();
    assert_eq!(state.total, CpuTimes::default());
    assert!(state.cpus.is_empty());
    assert_eq!(state.context_switches, 0);
}

#[test]
fn test_parse_meminfo() {
    let info = MemInfo::parse(PROC_MEMINFO).unwrap();
    assert_eq!(info.mem_total, 16384000);
    assert_eq!(info.mem_free, 8192000);
    assert_eq!(info.mem_available, 12288000);
    assert_eq!(info.buffers, 512000);
    assert_eq!(info.cached, 2048000);
    assert_eq!(info.swap_total, 4096000);
    assert_eq!(info.swap_free, 4096000);
    assert_eq!(info.slab, 512000);
    assert_eq!(info.active_anon, 2048000);
    assert_eq!(info.hugepagesize, 2048);
}

#[test]
fn test_usage_pct() {
    let info = MemInfo::parse(PROC_MEMINFO).unwrap();
    assert_eq!(info.used_kb(), 16384000 - 12288000);
    let pct = percentage(info.usage_pct());
    assert!(pct > 24.0 && pct < 26.0);
}

#[test]
fn test_swap_usage_zero() {
    let info = MemInfo::parse(PROC_MEMINFO).unwrap();
    assert_eq!(info.swap_used_kb(), 0);
    assert_eq!(percentage(info.swap_usage_pct()), 0.0);
}

#[test]
fn memory_test_display() {
    let info = MemInfo::parse(PROC_MEMINFO).unwrap();
    let usage = format!("{:.1}", percentage(info.usage_pct()));
    let swap = format!("{:.1}", percentage(info.swap_usage_pct()));
    let s = info.display(&usage, &swap);
    assert!(s.contains("MemTotal:"));
    assert!(s.contains("MemUsed:"));
}

#[test]
fn figures_that_are_missing_are_zero() {
    let info = MemInfo::parse("MemTotal: 10 kB\nMemAvailable: 30 kB\nnonsense\nSwapTotal: x kB\n").unwrap();
    assert_eq!(info.mem_total, 10);
    assert_eq!(info.used_kb(), 0);
    assert_eq!(info.usage_pct(), Ratio { part: 0, whole: 10 });
    assert_eq!(info.swap_total, 0);
    assert_eq!(percentage(info.swap_usage_pct()), 0.0);
}

#[test]
fn test_parse_diskstats() {
    let stats = parse_diskstats(PROC_DISKSTATS).unwrap();
    assert_eq!(stats.len(), 3);

    let sda = &stats[0];
    assert_eq!(sda.name, "sda");
    assert_eq!(sda.major, 8);
    assert_eq!(sda.minor, 0);
    assert_eq!(sda.read_completed, 24572);
    assert_eq!(sda.write_completed, 48690);
    assert_eq!(sda.sectors_read, 1532648);
    assert_eq!(sda.io_time_ms, 42568);
    assert_eq!(sda.discard_completed, Some(0));
    assert_eq!(sda.discard_time_ms, Some(0));
}

#[test]
fn test_parse_basic_disk() {
    let stats = parse_diskstats(PROC_DISKSTATS).unwrap();
    let sdb = &stats[2];
    assert_eq!(sdb.name, "sdb");
    assert_eq!(sdb.read_completed, 5678);
    assert_eq!(sdb.write_completed, 7890);
    assert!(sdb.discard_completed.is_none());
    assert!(sdb.flush_completed.is_none());
}

#[test]
fn disk_test_display() {
    let stats = parse_diskstats(PROC_DISKSTATS).unwrap();
    let s = stats[0].display();
    assert!(s.contains("sda"));
    assert!(s.contains("reads="));
}

#[test]
fn short_disk_lines_are_passed_over() {
    let stats = parse_diskstats("8 0 sda 1 2 3\n\n8 1 sdb 1 2 3 4 5 6 7 8 9 10 11\n").unwrap();
    assert_eq!(stats.len(), 1);
    assert_eq!(stats[0].name, "sdb");
    assert_eq!(stats[0].weighted_io_time_ms, 11);
}

#[test]
fn an_interface_may_have_any_name() {
    let stats = parse_netdev("face0: 1 2 3 4 5 6 7 8 9 10 11 12 13 14 15 16\n").unwrap();
    assert_eq!(stats.len(), 1);
    assert_eq!(stats[0].name, "face0");
    assert_eq!(stats[0].rx_bytes, 1);
    let stats = parse_netdev(" Inter1: 1 2 3 4 5 6 7 8 9 10 11 12 13 14 15 16").unwrap();
    assert_eq!(stats[0].name, "Inter1");
    assert_eq!(stats[0].tx_compressed, 16);
}

#[test]
fn test_parse_netdev() {
    let stats = parse_netdev(PROC_NET_DEV).unwrap();
    assert_eq!(stats.len(), 2);

    let lo = &stats[0];
    assert_eq!(lo.name, "lo");
    assert_eq!(lo.rx_bytes, 1234567);
    assert_eq!(lo.rx_packets, 12345);
    assert_eq!(lo.tx_bytes, 1234567);

    let eth0 = &stats[1];
    assert_eq!(eth0.name, "eth0");
    assert_eq!(eth0.rx_bytes, 98765432);
    assert_eq!(eth0.rx_packets, 654321);
    assert_eq!(eth0.rx_errors, 10);
    assert_eq!(eth0.rx_dropped, 5);
    assert_eq!(eth0.rx_multicast, 100);
    assert_eq!(eth0.tx_bytes, 87654321);
    assert_eq!(eth0.tx_packets, 543210);
    assert_eq!(eth0.tx_errors, 2);
    assert_eq!(eth0.tx_dropped, 1);
}

#[test]
fn network_test_display() {
    let stats = parse_netdev(PROC_NET_DEV).unwrap();
    let s = stats[1].display();
    assert!(s.contains("eth0"));
    assert!(s.contains("rx_bytes="));
}

#[test]
fn test_cpu_metric_collector_first_collect() {
    let mut collector = CpuMetricCollector::new();
    let counters = collector.get_counters(CpuState::parse(PROC_STAT));
    assert!(!counters.is_empty());
    let names = names(&counters);
    assert!(names.contains(&"context_switches"));
    assert!(names.contains(&"boot_time"));
    assert!(names.contains(&"cpu_count"));
    assert!(!names.contains(&"cpu_user_pct"));
}

#[test]
fn test_cpu_metric_collector_second_collect() {
    let mut collector = CpuMetricCollector::new();
    let _ = collector.get_counters(CpuState::parse(PROC_STAT));
    let counters = collector.get_counters(CpuState::parse(PROC_STAT));
    let names = names(&counters);
    assert!(names.contains(&"cpu_user_pct"));
    assert!(names.contains(&"cpu_active_pct"));
    assert!(names.contains(&"context_switches_delta"));
}

#[test]
fn test_compute_pct_zero_total() {
    let delta = CpuTimes::default();
    let pcts = CpuMetricCollector::compute_pct(&delta);
    for (_, v) in &pcts {
        assert_eq!(percentage(*v), 0.0);
    }
}

#[test]
fn shares_are_parts_of_the_whole() {
    let state = CpuState::parse(PROC_STAT).unwrap();
    let shares = CpuMetricCollector::compute_pct(&state.total);
    let sum: u64 = shares.iter().map(|s| s.1.part).sum();
    assert_eq!(sum, state.total.total());
    assert!(shares.iter().all(|s| s.1.whole == sum && s.1.part <= sum));
    assert_eq!(state.total.active() + state.total.idle + state.total.iowait, sum);
}

#[test]
fn test_memory_metric_collector() {
    let collector = MemoryMetricCollector::new();
    let counters = collector.get_counters(MemInfo::parse(PROC_MEMINFO));
    assert!(!counters.is_empty());
    let names = names(&counters);
    assert!(names.contains(&"mem_total_kb"));
    assert!(names.contains(&"mem_free_kb"));
    assert!(names.contains(&"mem_usage_pct"));
    assert!(names.contains(&"mem_swap_total_kb"));
}

#[test]
fn test_disk_metric_collector() {
    let mut collector = DiskMetricCollector::new();
    let counters = collector.get_counters(parse_diskstats(PROC_DISKSTATS));
    assert!(!counters.is_empty());
    let names = names(&counters);
    assert!(names.contains(&"disk_read_completed") || names.contains(&"disk_read_bytes"));
}

#[test]
fn test_disk_metric_collector_delta() {
    let mut collector = DiskMetricCollector::new();
    let _ = collector.get_counters(parse_diskstats(PROC_DISKSTATS));
    let counters = collector.get_counters(parse_diskstats(PROC_DISKSTATS));
    assert!(!counters.is_empty());
    let names = names(&counters);
    assert!(names.contains(&"disk_read_bytes_delta"));
}

#[test]
fn test_network_metric_collector() {
    let mut collector = NetworkMetricCollector::new();
    let counters = collector.get_counters(parse_netdev(PROC_NET_DEV));
    assert!(!counters.is_empty());
    let names = names(&counters);
    assert!(names.contains(&"net_rx_bytes"));
    assert!(names.contains(&"net_tx_bytes"));
}

#[test]
fn test_network_metric_collector_delta() {
    let mut collector = NetworkMetricCollector::new();
    let _ = collector.get_counters(parse_netdev(PROC_NET_DEV));
    let counters = collector.get_counters(parse_netdev(PROC_NET_DEV));
    let names = names(&counters);
    assert!(names.contains(&"net_rx_bytes_delta"));
    assert!(names.contains(&"net_tx_bytes_delta"));
}

#[test]
fn cpu_counters_go_by_the_time_between_two_reports() {
    let first = CpuState::parse("cpu 10 0 0 90 0 0 0 0 0 0\ncpu0 10 0 0 90 0 0 0 0 0 0\nctxt 100\n");
    let second = CpuState::parse("cpu 40 0 0 150 10 0 0 0 0 0\ncpu0 40 0 0 150 10 0 0 0 0 0\nctxt 130\n");
    let mut collector = CpuMetricCollector::new();
    let _ = collector.get_counters(first);
    let snapshot = second.unwrap();
    assert!(collector.fits(&snapshot));
    let counters = collector.get_counters(Ok(snapshot));
    assert_eq!(
        value(&counters, "cpu_user_pct"),
        (CounterType::Gauged, CounterValue::Percent(Ratio { part: 30, whole: 100 }))
    );
    assert_eq!(
        value(&counters, "cpu_active_pct"),
        (CounterType::Gauged, CounterValue::Percent(Ratio { part: 30, whole: 100 }))
    );
    assert_eq!(
        value(&counters, "per_cpu_active_pct"),
        (CounterType::Gauged, CounterValue::Percent(Ratio { part: 30, whole: 100 }))
    );
    assert_eq!(
        value(&counters, "context_switches_delta"),
        (CounterType::Counted, CounterValue::Unsigned(30))
    );
    assert_eq!(value(&counters, "cpu_count"), (CounterType::Gauged, CounterValue::Unsigned(1)));
}

#[test]
fn a_failed_reading_keeps_the_last_one() {
    let read = |user: u64, switches: u64| {
        CpuState::parse(&format!("cpu {user} 0 0 90 0 0 0 0 0 0 0\nctxt {switches}\n"))
    };
    let mut collector = CpuMetricCollector::new();
    assert!(collector.get_counters(Err(failure())).is_empty());
    let first = collector.get_counters(read(10, 100));
    assert!(names(&first).contains(&"context_switches"));
    assert!(!names(&first).contains(&"cpu_user_pct"));
    assert!(collector.get_counters(Err(failure())).is_empty());
    let later = collector.get_counters(read(30, 130));
    assert!(names(&later).contains(&"cpu_user_pct"));
    assert_eq!(
        value(&later, "context_switches_delta"),
        (CounterType::Counted, CounterValue::Unsigned(30))
    );
    let backwards = collector.get_counters(read(30, 120));
    assert_eq!(
        value(&backwards, "context_switches_delta"),
        (CounterType::Counted, CounterValue::Unsigned(0))
    );
}

#[test]
fn nothing_is_reported_of_what_cannot_be_read() {
    assert!(CpuMetricCollector::new().get_counters(Err(failure())).is_empty());
    assert!(MemoryMetricCollector::new().get_counters(Err(failure())).is_empty());
    assert!(DiskMetricCollector::new().get_counters(Err(failure())).is_empty());
    assert!(NetworkMetricCollector::new().get_counters(Err(failure())).is_empty());
}

#[test]
fn a_failed_reading_keeps_the_last_snapshot() {
    let mut collector = CpuMetricCollector::new();
    let _ = collector.get_counters(CpuState::parse(PROC_STAT));
    let _ = collector.get_counters(Err(failure()));
    let counters = collector.get_counters(CpuState::parse(PROC_STAT));
    assert!(names(&counters).contains(&"cpu_user_pct"));
}

#[test]
fn disk_deltas_are_in_bytes() {
    let disk = |read: u64| {
        let mut stat = DiskStat::default();
        stat.name = "sda".to_string();
        stat.sectors_read = read;
        stat
    };
    let mut collector = DiskMetricCollector::new();
    let _ = collector.get_counters(Ok(vec![disk(3)]));
    assert!(DiskMetricCollector::fits(&vec![disk(7)]));
    let counters = collector.get_counters(Ok(vec![disk(7)]));
    assert_eq!(
        value(&counters, "disk_read_bytes"),
        (CounterType::Gauged, CounterValue::Unsigned(3584))
    );
    assert_eq!(
        value(&counters, "disk_read_bytes_delta"),
        (CounterType::Counted, CounterValue::Unsigned(2048))
    );
    assert!(!DiskMetricCollector::fits(&vec![disk(u64::MAX / 512 + 1)]));
}

#[test]
fn network_deltas_go_by_name() {
    let device = |name: &str, rx: u64| {
        let mut stat = NetDevStat::default();
        stat.name = name.to_string();
        stat.rx_bytes = rx;
        stat
    };
    let mut collector = NetworkMetricCollector::new();
    let _ = collector.get_counters(Ok(vec![device("eth1", 1), device("eth0", 10)]));
    let counters = collector.get_counters(Ok(vec![device("eth0", 25)]));
    assert_eq!(
        value(&counters, "net_rx_bytes_delta"),
        (CounterType::Counted, CounterValue::Unsigned(15))
    );
}

#[test]
fn collectors_stay_open() {
    assert!(!CpuMetricCollector::new().closed());
    assert!(!MemoryMetricCollector::new().closed());
    assert!(!DiskMetricCollector::new().closed());
    assert!(!NetworkMetricCollector::new().closed());
}
