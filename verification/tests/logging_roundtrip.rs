//! The log sinks: header stability, rotation arithmetic, and the
//! round trip from a written row back through the column-name parser.

use monperf::cpu::{CoreUtilization, CpuMetrics};
use monperf::disk::{DiskMetrics, DiskStats};
use monperf::logfmt::{DetailedTextLogger, MetricsSample};
use monperf::memory::MemoryMetrics;
use monperf::network::{InterfaceStats, NetworkMetrics, TcpStats};
use monperf::plotload::{load_detailed_samples, load_samples, LoadError};
use monperf::process::{ProcessMetrics, ProcessState};
use monperf::psi::{PsiMetrics, PsiResourceMetrics};
use monperf::segments::{parse_control_message, segment_path, ControlAction, LogSegments};
use monperf::summary::SummaryAccumulator;
use monperf::textlog::TextLogger;

fn sample_with_sda(ts_ms: u64, read_rate_centi: u64) -> MetricsSample {
    MetricsSample {
        timestamp_ms: ts_ms,
        cpu: CpuMetrics {
            total_utilization: 4275,
            user_percent: 1200,
            system_percent: 800,
            iowait_percent: 325,
            per_core: vec![
                CoreUtilization {
                    core_id: 0,
                    utilization_percent: 5000,
                    user_percent: 2000,
                    system_percent: 1000,
                    iowait_percent: 100,
                },
                CoreUtilization {
                    core_id: 1,
                    utilization_percent: 3550,
                    user_percent: 1500,
                    system_percent: 900,
                    iowait_percent: 50,
                },
            ],
            load_avg_1: 152,
            load_avg_5: 98,
            load_avg_15: 75,
            context_switches: 100000,
            context_switches_delta: Some(1234),
            interrupts: 50000,
            interrupts_delta: Some(567),
            core_count: 2,
        },
        memory: MemoryMetrics {
            total: 16 << 30,
            used: 4 << 30,
            available: 12 << 30,
            buffers: 1 << 20,
            cached: 2 << 30,
            dirty: 4096,
            writeback: 0,
            active_file: 1 << 30,
            inactive_file: 1 << 30,
            swap_total: 4 << 30,
            swap_used: 0,
            cgroup_limit: Some(8 << 30),
            cgroup_current: Some(2 << 30),
            cgroup_usage_percent: Some(2500),
            major_page_faults: 10,
            minor_page_faults: 100000,
            major_faults_delta: Some(2),
            minor_faults_delta: Some(640),
            used_percent: 2500,
            swap_percent: 0,
        },
        disk: DiskMetrics {
            disks: vec![DiskStats {
                device: b"sda".to_vec(),
                read_bytes_per_sec: read_rate_centi,
                write_bytes_per_sec: 204800,
                read_iops: 1550,
                write_iops: 775,
                read_latency_ms: 1250,
                write_latency_ms: 775,
                utilization_percent: 4210,
                queue_depth: 125,
                reads_completed: 1000,
                writes_completed: 500,
                bytes_read: 1 << 30,
                bytes_written: 1 << 29,
                in_flight: 2,
            }],
            total_read_bytes_per_sec: read_rate_centi,
            total_write_bytes_per_sec: 204800,
            total_in_flight: 2,
            spill_dir_info: None,
        },
        network: NetworkMetrics {
            interfaces: vec![InterfaceStats {
                interface: b"eth0".to_vec(),
                rx_bytes_per_sec: 102400,
                tx_bytes_per_sec: 51200,
                rx_packets_per_sec: 1000,
                tx_packets_per_sec: 500,
                rx_errors: 0,
                tx_errors: 1,
                rx_drops: 0,
                tx_drops: 0,
                rx_bytes_total: 1 << 20,
                tx_bytes_total: 1 << 19,
            }],
            total_rx_bytes_per_sec: 102400,
            total_tx_bytes_per_sec: 51200,
            tcp: TcpStats {
                connections_established: 12,
                retransmits: 77,
                retransmits_delta: Some(3),
                https_connections: 4,
            },
        },
        process: Some(ProcessMetrics {
            pid: 4321,
            name: b"worker".to_vec(),
            state: ProcessState::Running,
            rss_bytes: 512 << 20,
            vsize_bytes: 1 << 30,
            vm_peak: 2 << 30,
            rss_anon: 256 << 20,
            rss_file: 128 << 20,
            rss_shmem: 1 << 20,
            vm_swap: 0,
            cpu_percent: 1234,
            utime: 100,
            stime: 50,
            num_threads: 8,
            num_fds: 64,
            cmdline: b"worker --run".to_vec(),
            io_read_bytes: 1 << 20,
            io_write_bytes: 1 << 19,
            io_rchar: 1 << 21,
            io_wchar: 1 << 20,
            io_cancelled_write_bytes: 0,
            io_read_bytes_per_sec: 409600,
            io_write_bytes_per_sec: 204800,
        }),
        psi: Some(PsiMetrics {
            cpu: PsiResourceMetrics {
                some_avg10: 125,
                some_avg60: 80,
                some_avg300: 10,
                some_total: 123456,
                full_avg10: None,
                full_avg60: None,
                full_avg300: None,
                full_total: None,
            },
            memory: PsiResourceMetrics {
                some_avg10: 50,
                some_avg60: 25,
                some_avg300: 5,
                some_total: 654,
                full_avg10: Some(10),
                full_avg60: Some(5),
                full_avg300: Some(1),
                full_total: Some(321),
            },
            io: PsiResourceMetrics {
                some_avg10: 75,
                some_avg60: 30,
                some_avg300: 8,
                some_total: 999,
                full_avg10: Some(20),
                full_avg60: Some(10),
                full_avg300: Some(2),
                full_total: Some(111),
            },
        }),
    }
}

#[test]
fn detailed_log_skips_unpopulated_first_sample() {
    let mut logger = DetailedTextLogger::new();
    let mut bare = sample_with_sda(1_000, 0);
    bare.disk.disks.clear();
    bare.network.interfaces.clear();
    let lines = logger.log(&bare);
    assert_eq!(lines.len(), 0);
    assert_eq!(logger.samples_written(), 0);
}

#[test]
fn detailed_log_header_is_stable_across_samples() {
    let mut logger = DetailedTextLogger::new();
    let first = sample_with_sda(1_000, 524288000);
    let lines = logger.log(&first);
    assert_eq!(lines.len(), 2);
    let header = String::from_utf8(lines[0].clone()).unwrap();
    assert!(header.starts_with("timestamp,cpu_total_pct,"));
    assert!(header.contains("disk_sda_read_bytes_per_sec"));
    assert!(header.contains("cpu_core0_pct,cpu_core1_pct"));
    assert!(header.contains("net_eth0_rx_bytes_per_sec"));
    let header_cols = header.split(',').count();
    let row_cols = lines[1].iter().filter(|b| **b == b',').count() + 1;
    assert_eq!(header_cols, row_cols);

    // A later sample with a new device keeps the established columns.
    let mut second = sample_with_sda(2_000, 102400);
    second.disk.disks.push(DiskStats {
        device: b"sdz".to_vec(),
        read_bytes_per_sec: 1,
        write_bytes_per_sec: 1,
        read_iops: 1,
        write_iops: 1,
        read_latency_ms: 1,
        write_latency_ms: 1,
        utilization_percent: 1,
        queue_depth: 1,
        reads_completed: 1,
        writes_completed: 1,
        bytes_read: 1,
        bytes_written: 1,
        in_flight: 1,
    });
    let lines2 = logger.log(&second);
    assert_eq!(lines2.len(), 1);
    let row2 = String::from_utf8(lines2[0].clone()).unwrap();
    assert!(!row2.contains("sdz"));
    assert_eq!(row2.split(',').count(), header_cols);

    // A sample missing the remembered device emits empty fields, not fewer.
    let mut third = sample_with_sda(3_000, 102400);
    third.disk.disks.clear();
    let lines3 = logger.log(&third);
    assert_eq!(lines3[0].iter().filter(|b| **b == b',').count() + 1, header_cols);
    assert_eq!(logger.samples_written(), 3);
}

#[test]
fn written_rows_reparse_to_the_same_values() {
    let mut logger = DetailedTextLogger::new();
    let s1 = sample_with_sda(1_700_000_000_000, 524288000);
    let s2 = sample_with_sda(1_700_000_001_000, 102400);
    let mut text = Vec::new();
    for line in logger.log(&s1) {
        text.extend_from_slice(&line);
        text.push(b'\n');
    }
    for line in logger.log(&s2) {
        text.extend_from_slice(&line);
        text.push(b'\n');
    }

    let parsed = load_detailed_samples(&text).unwrap();
    assert_eq!(parsed.len(), 2);
    let p = &parsed[0];
    assert_eq!(p.timestamp_ms, 1_700_000_000_000);
    assert_eq!(p.cpu_total, 4275);
    assert_eq!(p.cpu_user, 1200);
    assert_eq!(p.cpu_iowait, 325);
    assert_eq!(p.cpu_load_1m, 152);
    assert_eq!(p.per_core_pct, vec![5000, 3550]);
    assert_eq!(p.mem_total_bytes, 16 << 30);
    assert_eq!(p.mem_used_pct, 2500);
    assert_eq!(p.cgroup_limit_bytes, Some(8 << 30));
    assert_eq!(p.cgroup_usage_pct, Some(2500));
    assert_eq!(p.disk_devices, vec![b"sda".to_vec()]);
    assert_eq!(p.disk_read_bytes_per_sec, vec![524288000]);
    assert_eq!(p.disk_util_pct, vec![4210]);
    assert_eq!(p.disk_total_read, 524288000);
    assert_eq!(p.net_interfaces, vec![b"eth0".to_vec()]);
    assert_eq!(p.net_rx_bytes_per_sec, vec![102400]);
    assert_eq!(p.psi_cpu_some_avg10, 125);
    assert_eq!(p.psi_mem_full_avg10, Some(10));
    assert_eq!(p.proc_cpu_pct, Some(1234));
    assert_eq!(p.proc_rss_bytes, Some(512 << 20));
    assert_eq!(p.proc_io_read_bytes_per_sec, Some(409600));
    assert_eq!(parsed[1].disk_read_bytes_per_sec, vec![102400]);

    let overview = load_samples(&text).unwrap();
    assert_eq!(overview.len(), 2);
    assert_eq!(overview[0].cpu_total, 4275);
    assert_eq!(overview[0].disk_read_bytes_per_sec, 524288000);
}

#[test]
fn reparse_rejects_empty_input() {
    assert_eq!(load_detailed_samples(b"").unwrap_err(), LoadError::EmptyFile);
    assert_eq!(
        load_detailed_samples(b"timestamp,cpu_total_pct\n").unwrap_err(),
        LoadError::NoSamples
    );
}

#[test]
fn text_log_line_is_fixed_width() {
    let (mut logger, header) = TextLogger::new(0);
    assert_eq!(header.len(), 31);
    assert_eq!(header[0], b"# Performance Monitor Log".to_vec());
    let line = logger.log(&sample_with_sda(1_700_000_000_000, 524288000));
    let text = String::from_utf8(line).unwrap();
    // timestamp and 13 further columns; the two throughput figures carry
    // a unit word of their own.
    assert_eq!(text.split(' ').filter(|f| !f.is_empty()).count(), 16);
    assert!(text.contains(" 42.8")); // CPU% rounded to one decimal
    assert!(text.contains("  3.3")); // IOW%
    assert!(text.contains(" 25.0")); // Mem% and CG%
    assert_eq!(logger.samples_written(), 1);
}

#[test]
fn rotation_increments_by_exactly_one() {
    let mut segs = LogSegments::new(Some(b"/tmp/run.csv".to_vec()), Some(b"/tmp/run.txt".to_vec()));
    assert_eq!(segs.segment, 0);
    assert_eq!(segs.current_csv_path().unwrap(), b"/tmp/run.csv".to_vec());

    let (csv, text) = segs.rotate();
    assert_eq!(segs.segment, 1);
    assert_eq!(csv.unwrap(), b"/tmp/run_1.csv".to_vec());
    assert_eq!(text.unwrap(), b"/tmp/run_1.txt".to_vec());

    let (csv, _) = segs.rotate();
    assert_eq!(segs.segment, 2);
    assert_eq!(csv.unwrap(), b"/tmp/run_2.csv".to_vec());
}

#[test]
fn rename_is_followed_by_exactly_one_rotation() {
    let mut segs = LogSegments::new(Some(b"/tmp/run.csv".to_vec()), None);
    segs.rotate();
    let (renames, opened) = segs.rename_and_rotate(b"experiment");
    let (old_path, new_path) = renames.0.unwrap();
    assert_eq!(old_path, b"/tmp/run_1.csv".to_vec());
    assert_eq!(new_path, b"/tmp/experiment.csv".to_vec());
    assert!(renames.1.is_none());
    assert_eq!(segs.segment, 2);
    assert_eq!(opened.0.unwrap(), b"/tmp/run_2.csv".to_vec());
}

#[test]
fn segment_paths_insert_before_the_extension() {
    assert_eq!(segment_path(b"metrics.csv", 3), b"metrics_3.csv".to_vec());
    assert_eq!(segment_path(b"/var/log/m.csv", 1), b"/var/log/m_1.csv".to_vec());
    assert_eq!(segment_path(b"noext", 2), b"noext_2".to_vec());
    assert_eq!(segment_path(b"dir/", 1), b"dir/log_1".to_vec());
    assert_eq!(segment_path(b".hidden", 4), b".hidden_4".to_vec());
}

#[test]
fn control_messages_split_or_rename() {
    assert!(matches!(parse_control_message(b""), ControlAction::Rotate));
    assert!(matches!(parse_control_message(b"  split \n"), ControlAction::Rotate));
    assert!(matches!(parse_control_message(b"SPLIT"), ControlAction::Rotate));
    match parse_control_message(b" run-a \n") {
        ControlAction::RenameTo(name) => assert_eq!(name, b"run-a".to_vec()),
        ControlAction::Rotate => panic!("expected a rename"),
    }
}

#[test]
fn summary_condenses_a_segment() {
    let mut acc = SummaryAccumulator::new();
    assert!(acc.generate_summary().is_none());
    acc.add_sample(sample_with_sda(1_000, 100));
    let mut high = sample_with_sda(3_500, 300);
    high.cpu.total_utilization = 9990;
    high.memory.swap_used = 1;
    acc.add_sample(high);
    let m = acc.generate_summary().unwrap();
    assert_eq!(m.samples_count, 2);
    assert_eq!(m.duration_ms, 2_500);
    assert_eq!(m.cpu_max_utilization, 9990);
    assert_eq!(m.cpu_avg_utilization, (4275 + 9990) / 2);
    assert_eq!(m.disk_max_read_throughput, 300);
    assert_eq!(m.disk_max_utilization, 4210);
    assert_eq!(m.cgroup_max_usage_percent, Some(2500));
    assert_eq!(m.process_max_rss, Some(512 << 20));
    // Swap was touched: exactly one finding.
    assert_eq!(m.bottleneck_indicators.len(), 1);
    assert_eq!(
        m.bottleneck_indicators[0],
        b"Memory pressure: Swap usage detected".to_vec()
    );
    acc.clear();
    assert!(acc.generate_summary().is_none());
}

#[test]
fn absent_optionals_reparse_as_absent() {
    let mut logger = DetailedTextLogger::new();
    let mut s = sample_with_sda(1_700_000_000_000, 100);
    s.process = None;
    s.psi = None;
    s.memory.cgroup_limit = None;
    s.memory.cgroup_current = None;
    s.memory.cgroup_usage_percent = None;
    let mut text = Vec::new();
    for line in logger.log(&s) {
        text.extend_from_slice(&line);
        text.push(b'\n');
    }
    let parsed = load_detailed_samples(&text).unwrap();
    assert_eq!(parsed.len(), 1);
    assert_eq!(parsed[0].cgroup_usage_pct, None);
    assert_eq!(parsed[0].psi_mem_full_avg10, None);
    assert_eq!(parsed[0].proc_cpu_pct, None);
    assert_eq!(parsed[0].proc_rss_bytes, None);
}

#[test]
fn header_comes_from_first_populated_sample() {
    // The first sample has interfaces but no disks: it is populated, so it
    // fixes the columns with no per-device series.
    let mut logger = DetailedTextLogger::new();
    let mut first = sample_with_sda(1_000, 100);
    first.disk.disks.clear();
    let lines = logger.log(&first);
    assert_eq!(lines.len(), 2);
    let header = String::from_utf8(lines[0].clone()).unwrap();
    assert!(!header.contains("disk_sda_"));
    assert!(header.contains("net_eth0_rx_bytes_per_sec"));
}
