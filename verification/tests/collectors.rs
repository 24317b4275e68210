//! Collector behaviour on synthetic kernel text: first-tick zero rates,
//! device discovery and disappearance, and rate arithmetic.

use monperf::cpu::{CpuCollector, CpuTimes, parse_cpu_line, calculate_utilization};
use monperf::disk::DiskCollector;
use monperf::memory::{MemoryCollector, count_oom_lines, parse_meminfo, parse_page_faults, read_cgroup_memory};
use monperf::network::NetworkCollector;
use monperf::process::{ProcessCollector, ProcessState, read_process_io, read_process_status};
use monperf::psi::read_psi_file;

const STAT_T1: &[u8] = b"cpu  100 0 100 800 0 0 0 0 0 0\ncpu0 50 0 50 400 0 0 0 0 0 0\ncpu1 50 0 50 400 0 0 0 0 0 0\nctxt 1000\nintr 500\n";
const STAT_T2: &[u8] = b"cpu  200 0 200 1600 0 0 0 0 0 0\ncpu0 100 0 100 800 0 0 0 0 0 0\ncpu1 100 0 100 800 0 0 0 0 0 0\nctxt 1500\nintr 800\n";
const LOADAVG: &[u8] = b"0.52 0.58 0.59 1/467 12345\n";

#[test]
fn cpu_first_collect_is_zero_rate() {
    let mut collector = CpuCollector::new();
    let m = collector.collect(STAT_T1, LOADAVG);
    assert_eq!(m.total_utilization, 0);
    assert_eq!(m.user_percent, 0);
    assert_eq!(m.per_core.len(), 2);
    assert_eq!(m.per_core[0].core_id, 0);
    assert_eq!(m.per_core[0].utilization_percent, 0);
    assert_eq!(m.context_switches, 1000);
    assert!(m.context_switches_delta.is_none());
    assert!(m.interrupts_delta.is_none());
    assert_eq!(m.load_avg_1, 52);
    assert_eq!(m.load_avg_5, 58);
    assert_eq!(m.load_avg_15, 59);
    assert_eq!(m.core_count, 2);
}

#[test]
fn cpu_second_collect_computes_deltas() {
    let mut collector = CpuCollector::new();
    collector.collect(STAT_T1, LOADAVG);
    let m = collector.collect(STAT_T2, LOADAVG);
    // Busy delta 200 of total delta 1000: 20 percent.
    assert_eq!(m.total_utilization, 2000);
    assert_eq!(m.user_percent, 1000);
    assert_eq!(m.system_percent, 1000);
    assert_eq!(m.iowait_percent, 0);
    assert_eq!(m.context_switches_delta, Some(500));
    assert_eq!(m.interrupts_delta, Some(300));
    assert_eq!(m.per_core.len(), 2);
    assert_eq!(m.per_core[0].utilization_percent, 2000);
}

#[test]
fn cpu_counter_reset_never_goes_negative() {
    let mut collector = CpuCollector::new();
    collector.collect(STAT_T2, LOADAVG);
    // Counters went backwards: every rate clamps to zero.
    let m = collector.collect(STAT_T1, LOADAVG);
    assert_eq!(m.total_utilization, 0);
    assert_eq!(m.context_switches_delta, Some(0));
}

#[test]
fn cpu_hot_unplugged_core_is_omitted() {
    let mut collector = CpuCollector::new();
    collector.collect(STAT_T1, LOADAVG);
    let one_core: &[u8] = b"cpu  200 0 200 1600 0 0 0 0 0 0\ncpu0 100 0 100 800 0 0 0 0 0 0\nctxt 1500\nintr 800\n";
    let m = collector.collect(one_core, LOADAVG);
    assert_eq!(m.per_core.len(), 1);
    assert_eq!(m.per_core[0].core_id, 0);
}

#[test]
fn cpu_line_parses_in_kernel_order() {
    let t = parse_cpu_line(b"cpu  1 2 3 4 5 6 7 8 9 10");
    assert_eq!(
        t,
        CpuTimes {
            user: 1,
            nice: 2,
            system: 3,
            idle: 4,
            iowait: 5,
            irq: 6,
            softirq: 7,
            steal: 8,
            guest: 9,
            guest_nice: 10,
        }
    );
    assert_eq!(t.total(), 36);
    assert_eq!(t.active(), 27);
}

#[test]
fn malformed_cpu_field_defaults_to_zero() {
    let t = parse_cpu_line(b"cpu  1 x 3");
    assert_eq!(t.user, 1);
    assert_eq!(t.nice, 0);
    assert_eq!(t.system, 3);
    assert_eq!(t.idle, 0);
}

#[test]
fn utilization_is_zero_when_no_time_elapsed() {
    let t = parse_cpu_line(b"cpu  1 2 3 4 5 6 7 8 9 10");
    assert_eq!(calculate_utilization(&t, &t), (0, 0, 0, 0));
}

#[test]
fn disk_device_appears_mid_run() {
    // Interval of one second, three ticks; sda appears at the second tick.
    let mut collector = DiskCollector::new();
    let t1: &[u8] = b"   8       16 sdb 100 0 1000 50 100 0 1000 50 0 100 100\n";
    let t2: &[u8] = b"   8       16 sdb 100 0 1000 50 100 0 1000 50 0 100 100\n   8        0 sda 10 0 100 5 10 0 100 5 0 10 10\n";
    let t3: &[u8] = b"   8       16 sdb 100 0 1000 50 100 0 1000 50 0 100 100\n   8        0 sda 20 0 1124 10 10 0 100 5 0 10 10\n";

    let m1 = collector.collect(t1, 1_000, None);
    assert_eq!(m1.disks.len(), 1);
    assert_eq!(m1.disks[0].device, b"sdb".to_vec());
    // First sight of any device is zero-rate.
    assert_eq!(m1.disks[0].read_bytes_per_sec, 0);

    let m2 = collector.collect(t2, 2_000, None);
    assert_eq!(m2.disks.len(), 2);
    assert_eq!(m2.disks[1].device, b"sda".to_vec());
    assert_eq!(m2.disks[1].read_bytes_per_sec, 0);
    assert_eq!(m2.disks[1].read_iops, 0);

    let m3 = collector.collect(t3, 3_000, None);
    // sda read 1024 more sectors over one second: 512 KiB/s, in hundredths.
    assert_eq!(m3.disks[1].device, b"sda".to_vec());
    assert_eq!(m3.disks[1].read_bytes_per_sec, 1024 * 512 * 100);
    assert_eq!(m3.disks[1].read_iops, 1000);
    // Ten more reads took five more milliseconds: half a millisecond each.
    assert_eq!(m3.disks[1].read_latency_ms, 500);
}

#[test]
fn disk_absent_device_leaves_no_entry() {
    let mut collector = DiskCollector::new();
    let both: &[u8] = b"   8        0 sda 10 0 100 5 10 0 100 5 0 10 10\n   8       16 sdb 1 0 1 1 1 0 1 1 0 1 1\n";
    let only_sdb: &[u8] = b"   8       16 sdb 1 0 1 1 1 0 1 1 0 1 1\n";
    collector.collect(both, 1_000, None);
    let m = collector.collect(only_sdb, 2_000, None);
    assert_eq!(m.disks.len(), 1);
    assert_eq!(m.disks[0].device, b"sdb".to_vec());
}

#[test]
fn disk_partitions_and_virtual_devices_are_skipped() {
    let mut collector = DiskCollector::new();
    let text: &[u8] = b"   8        0 sda 1 0 1 1 1 0 1 1 0 1 1\n   8        1 sda1 1 0 1 1 1 0 1 1 0 1 1\n   7        0 loop0 1 0 1 1 1 0 1 1 0 1 1\n   1        0 ram0 1 0 1 1 1 0 1 1 0 1 1\n 253        0 dm-0 1 0 1 1 1 0 1 1 0 1 1\n 259        0 nvme0n1 1 0 1 1 1 0 1 1 0 1 1\n 259        1 nvme0n1p1 1 0 1 1 1 0 1 1 0 1 1\n";
    let m = collector.collect(text, 1_000, None);
    let names: Vec<Vec<u8>> = m.disks.iter().map(|d| d.device.clone()).collect();
    assert_eq!(names, vec![b"sda".to_vec(), b"nvme0n1".to_vec()]);
}

#[test]
fn disk_utilization_caps_at_full() {
    let mut collector = DiskCollector::new();
    let t1: &[u8] = b"   8        0 sda 0 0 0 0 0 0 0 0 0 0 0\n";
    let t2: &[u8] = b"   8        0 sda 0 0 0 0 0 0 0 0 0 5000 0\n";
    collector.collect(t1, 1_000, None);
    let m = collector.collect(t2, 2_000, None);
    assert_eq!(m.disks[0].utilization_percent, 10000);
}

#[test]
fn memory_gauges_and_percentages() {
    let meminfo: &[u8] = b"MemTotal:       16384 kB\nMemFree:         8192 kB\nMemAvailable:   12288 kB\nBuffers:         1024 kB\nCached:          3072 kB\nDirty:             64 kB\nSwapTotal:       4096 kB\nSwapFree:        3072 kB\n";
    let vmstat: &[u8] = b"pgfault 1000\npgmajfault 10\n";
    let mut collector = MemoryCollector::new();
    let m = collector.collect(meminfo, vmstat, None, None);
    assert_eq!(m.total, 16384 * 1024);
    assert_eq!(m.used, (16384 - 8192 - 1024 - 3072) * 1024);
    assert_eq!(m.used_percent, 2500);
    assert_eq!(m.swap_used, 1024 * 1024);
    assert_eq!(m.swap_percent, 2500);
    assert_eq!(m.major_page_faults, 10);
    assert_eq!(m.minor_page_faults, 1000);
    assert!(m.major_faults_delta.is_none());

    let vmstat2: &[u8] = b"pgfault 1500\npgmajfault 12\n";
    let m2 = collector.collect(meminfo, vmstat2, None, None);
    assert_eq!(m2.major_faults_delta, Some(2));
    assert_eq!(m2.minor_faults_delta, Some(500));
}

#[test]
fn meminfo_parse_keeps_last_match() {
    let f = parse_meminfo(b"MemTotal: 1 kB\nMemTotal: 2 kB\n");
    assert_eq!(f.total, 2 * 1024);
}

#[test]
fn page_fault_parse_ignores_other_lines() {
    let r = parse_page_faults(b"nr_free_pages 100\npgfault 7\nnr_dirty 3\npgmajfault 2\n");
    assert_eq!(r, (2, 7));
}

#[test]
fn cgroup_prefers_newer_scheme() {
    // Both schemes present: the newer one wins.
    let r = read_cgroup_memory(
        Some(b"1073741824\n"),
        Some(b"536870912\n"),
        Some(b"999\n"),
        Some(b"888\n"),
    );
    assert_eq!(r, (Some(1073741824), Some(536870912)));

    // The word max means no limit configured.
    let r = read_cgroup_memory(Some(b"max\n"), Some(b"100\n"), None, None);
    assert_eq!(r, (None, Some(100)));

    // The newer scheme entirely absent: fall back to the older one.
    let r = read_cgroup_memory(None, None, Some(b"2048\n"), Some(b"1024\n"));
    assert_eq!(r, (Some(2048), Some(1024)));

    // An absurd older-scheme limit means unlimited.
    let r = read_cgroup_memory(None, None, Some(b"9223372036854771712\n"), Some(b"55\n"));
    assert_eq!(r, (None, Some(55)));
}

#[test]
fn cgroup_percentage_requires_both_figures() {
    let meminfo: &[u8] = b"MemTotal: 1024 kB\nMemFree: 512 kB\n";
    let mut collector = MemoryCollector::new();
    let m = collector.collect(meminfo, b"", Some(1000), Some(250));
    assert_eq!(m.cgroup_usage_percent, Some(2500));
    let m = collector.collect(meminfo, b"", None, Some(250));
    assert_eq!(m.cgroup_usage_percent, None);
    let m = collector.collect(meminfo, b"", Some(0), Some(250));
    assert_eq!(m.cgroup_usage_percent, None);
}

#[test]
fn oom_lines_are_counted() {
    let log: &[u8] = b"something fine\nOut of memory: killed process 1\nnoise\noom-kill constraint\n";
    assert_eq!(count_oom_lines(log), 2);
}

#[test]
fn network_interface_rates_and_totals() {
    let mut collector = NetworkCollector::new();
    let header = b"Inter-|   Receive                                                |  Transmit\n face |bytes    packets errs drop fifo frame compressed multicast|bytes    packets errs drop fifo colls carrier compressed\n";
    let mut t1 = header.to_vec();
    t1.extend_from_slice(b"  eth0: 1000 10 0 0 0 0 0 0 2000 20 0 0 0 0 0 0\n    lo: 999 9 0 0 0 0 0 0 999 9 0 0 0 0 0 0\n");
    let mut t2 = header.to_vec();
    t2.extend_from_slice(b"  eth0: 2024 20 1 2 0 0 0 0 4048 40 3 4 0 0 0 0\n    lo: 999 9 0 0 0 0 0 0 999 9 0 0 0 0 0 0\n");

    let m1 = collector.collect(&t1, 1_000, b"", b"", b"");
    assert_eq!(m1.interfaces.len(), 1);
    assert_eq!(m1.interfaces[0].interface, b"eth0".to_vec());
    assert_eq!(m1.interfaces[0].rx_bytes_per_sec, 0);

    let m2 = collector.collect(&t2, 2_000, b"", b"", b"");
    assert_eq!(m2.interfaces[0].rx_bytes_per_sec, 1024 * 100);
    assert_eq!(m2.interfaces[0].tx_bytes_per_sec, 2048 * 100);
    assert_eq!(m2.interfaces[0].rx_packets_per_sec, 1000);
    assert_eq!(m2.interfaces[0].rx_errors, 1);
    assert_eq!(m2.interfaces[0].tx_drops, 4);
    assert_eq!(m2.total_rx_bytes_per_sec, 1024 * 100);
    assert_eq!(m2.total_tx_bytes_per_sec, 2048 * 100);
}

#[test]
fn tcp_connections_and_retransmits() {
    let mut collector = NetworkCollector::new();
    let tcp: &[u8] = b"  sl  local_address rem_address   st\n   0: 0100007F:1F90 0100007F:01BB 01\n   1: 0100007F:1F90 0100007F:0050 01\n   2: 0100007F:1F90 0100007F:01BB 06\n";
    let tcp6: &[u8] = b"  sl  local_address rem_address st\n   0: 00000000000000000000000000000000:0016 00000000000000000000000000000000:01BB 01\n";
    let snmp: &[u8] = b"Tcp: RtoAlgorithm RtoMin RtoMax MaxConn ActiveOpens PassiveOpens AttemptFails EstabResets CurrEstab InSegs OutSegs RetransSegs InErrs\nTcp: 1 200 120000 -1 10 20 1 2 5 1000 900 77 0\n";
    let m = collector.collect(b"h\nh\n", 1_000, tcp, tcp6, snmp);
    // Three established rows, two of them to port 443 (0x01BB).
    assert_eq!(m.tcp.connections_established, 3);
    assert_eq!(m.tcp.https_connections, 2);
    assert_eq!(m.tcp.retransmits, 77);
    assert!(m.tcp.retransmits_delta.is_none());
    let m = collector.collect(b"h\nh\n", 2_000, tcp, tcp6, snmp);
    assert_eq!(m.tcp.retransmits_delta, Some(0));
}

#[test]
fn psi_parse_reads_some_and_full() {
    let text: &[u8] = b"some avg10=1.25 avg60=0.80 avg300=0.10 total=123456\nfull avg10=0.50 avg60=0.25 avg300=0.05 total=654\n";
    let m = read_psi_file(Some(text), true);
    assert_eq!(m.some_avg10, 125);
    assert_eq!(m.some_avg60, 80);
    assert_eq!(m.some_avg300, 10);
    assert_eq!(m.some_total, 123456);
    assert_eq!(m.full_avg10, Some(50));
    assert_eq!(m.full_total, Some(654));

    // The CPU file has no full row.
    let m = read_psi_file(Some(text), false);
    assert_eq!(m.full_avg10, None);

    // A missing file degrades to zeros, not an error.
    let m = read_psi_file(None, true);
    assert_eq!(m.some_avg10, 0);
    assert_eq!(m.full_avg10, None);
}

#[test]
fn process_collect_reads_stat_status_io() {
    let mut collector = ProcessCollector::new(1234, 100);
    let stat: &[u8] = b"1234 (my worker) S 1 1234 1234 0 -1 4194304 100 0 0 0 50 25 0 0 20 0 3 0 100 104857600 2560 18446744073709551615\n";
    let status: &[u8] = b"Name:\tmy worker\nVmPeak:\t  200000 kB\nRssAnon:\t  100000 kB\nRssFile:\t   50000 kB\nRssShmem:\t     128 kB\nVmSwap:\t       0 kB\n";
    let io: &[u8] = b"rchar: 1000\nwchar: 2000\nread_bytes: 4096\nwrite_bytes: 8192\ncancelled_write_bytes: 0\n";
    let cmdline: &[u8] = b"worker\0--flag\0";

    let m = collector
        .collect(stat, status, io, cmdline, 7, 4096, 1_000)
        .unwrap();
    assert_eq!(m.pid, 1234);
    assert_eq!(m.name, b"my worker".to_vec());
    assert!(matches!(m.state, ProcessState::Sleeping));
    assert_eq!(m.utime, 50);
    assert_eq!(m.stime, 25);
    assert_eq!(m.num_threads, 3);
    assert_eq!(m.vsize_bytes, 104857600);
    assert_eq!(m.rss_bytes, 2560 * 4096);
    assert_eq!(m.vm_peak, 200000 * 1024);
    assert_eq!(m.rss_anon, 100000 * 1024);
    assert_eq!(m.io_read_bytes, 4096);
    assert_eq!(m.io_wchar, 2000);
    assert_eq!(m.num_fds, 7);
    assert_eq!(m.cmdline, b"worker --flag".to_vec());
    // No prior sample: zero rates.
    assert_eq!(m.cpu_percent, 0);
    assert_eq!(m.io_read_bytes_per_sec, 0);

    // One second later, 25 more ticks at 100 ticks per second is 25%.
    let stat2: &[u8] = b"1234 (my worker) R 1 1234 1234 0 -1 4194304 100 0 0 0 70 30 0 0 20 0 3 0 100 104857600 2560 18446744073709551615\n";
    let io2: &[u8] = b"rchar: 1000\nwchar: 2000\nread_bytes: 8192\nwrite_bytes: 8192\ncancelled_write_bytes: 0\n";
    let m2 = collector
        .collect(stat2, status, io2, cmdline, 7, 4096, 2_000)
        .unwrap();
    assert_eq!(m2.cpu_percent, 2500);
    assert_eq!(m2.io_read_bytes_per_sec, 4096 * 100);
    assert!(matches!(m2.state, ProcessState::Running));
}

#[test]
fn torn_stat_text_reports_process_gone() {
    let mut collector = ProcessCollector::new(1, 100);
    assert!(collector.collect(b"no parens here", b"", b"", b"", 0, 4096, 1_000).is_err());
}

#[test]
fn status_and_io_parsers_pick_their_keys() {
    let r = read_process_status(b"VmPeak: 10 kB\nRssAnon: 20 kB\nRssFile: 30 kB\nRssShmem: 40 kB\nVmSwap: 50 kB\n");
    assert_eq!(r, (10 * 1024, 20 * 1024, 30 * 1024, 40 * 1024, 50 * 1024));
    let r = read_process_io(b"rchar: 1\nwchar: 2\nread_bytes: 3\nwrite_bytes: 4\ncancelled_write_bytes: 5\n");
    assert_eq!(r, (3, 4, 1, 2, 5));
}
