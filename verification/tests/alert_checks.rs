//! Alert checker behaviour: tier order, cooldown windows, per-device keys.

use monperf::alert::{AlertChecker, AlertThresholds, Severity};
use monperf::cpu::CpuMetrics;
use monperf::disk::{DiskMetrics, DiskStats};
use monperf::memory::MemoryMetrics;
use monperf::network::{NetworkMetrics, TcpStats};
use monperf::process::{ProcessMetrics, ProcessState};

fn cpu_at(total_centi: u64) -> CpuMetrics {
    CpuMetrics {
        total_utilization: total_centi,
        user_percent: 0,
        system_percent: 0,
        iowait_percent: 0,
        per_core: Vec::new(),
        load_avg_1: 0,
        load_avg_5: 0,
        load_avg_15: 0,
        context_switches: 0,
        context_switches_delta: None,
        interrupts: 0,
        interrupts_delta: None,
        core_count: 0,
    }
}

fn quiet_memory() -> MemoryMetrics {
    MemoryMetrics {
        total: 16 << 30,
        used: 1 << 30,
        available: 15 << 30,
        buffers: 0,
        cached: 0,
        dirty: 0,
        writeback: 0,
        active_file: 0,
        inactive_file: 0,
        swap_total: 0,
        swap_used: 0,
        cgroup_limit: None,
        cgroup_current: None,
        cgroup_usage_percent: None,
        major_page_faults: 0,
        minor_page_faults: 0,
        major_faults_delta: None,
        minor_faults_delta: None,
        used_percent: 625,
        swap_percent: 0,
    }
}

fn quiet_disk() -> DiskMetrics {
    DiskMetrics {
        disks: Vec::new(),
        total_read_bytes_per_sec: 0,
        total_write_bytes_per_sec: 0,
        total_in_flight: 0,
        spill_dir_info: None,
    }
}

fn quiet_network() -> NetworkMetrics {
    NetworkMetrics {
        interfaces: Vec::new(),
        total_rx_bytes_per_sec: 0,
        total_tx_bytes_per_sec: 0,
        tcp: TcpStats {
            connections_established: 0,
            retransmits: 0,
            retransmits_delta: None,
            https_connections: 0,
        },
    }
}

fn process_with_rss(rss: u64) -> ProcessMetrics {
    ProcessMetrics {
        pid: 42,
        name: b"worker".to_vec(),
        state: ProcessState::Running,
        rss_bytes: rss,
        vsize_bytes: 0,
        vm_peak: 0,
        rss_anon: 0,
        rss_file: 0,
        rss_shmem: 0,
        vm_swap: 0,
        cpu_percent: 0,
        utime: 0,
        stime: 0,
        num_threads: 1,
        num_fds: 3,
        cmdline: b"worker --run".to_vec(),
        io_read_bytes: 0,
        io_write_bytes: 0,
        io_rchar: 0,
        io_wchar: 0,
        io_cancelled_write_bytes: 0,
        io_read_bytes_per_sec: 0,
        io_write_bytes_per_sec: 0,
    }
}

#[test]
fn cpu_cooldown_suppresses_and_expires() {
    let mut checker = AlertChecker::new(AlertThresholds::default());
    let cpu = cpu_at(9600);
    let mem = quiet_memory();
    let disk = quiet_disk();
    let net = quiet_network();

    let first = checker.check(&cpu, &mem, &disk, &net, None, 1_000);
    assert_eq!(first.len(), 1);
    assert!(matches!(first[0].severity, Severity::Critical));
    assert_eq!(first[0].category, b"CPU".to_vec());
    assert_eq!(first[0].message, b"CPU critical: 96.0%".to_vec());

    // Five seconds later the same breach stays quiet.
    let second = checker.check(&cpu, &mem, &disk, &net, None, 6_000);
    assert_eq!(second.len(), 0);

    // Eleven seconds after the first firing it fires again.
    let third = checker.check(&cpu, &mem, &disk, &net, None, 12_000);
    assert_eq!(third.len(), 1);
    assert!(matches!(third[0].severity, Severity::Critical));
}

#[test]
fn critical_shadows_warning() {
    let mut checker = AlertChecker::new(AlertThresholds::default());
    let mem = quiet_memory();
    let disk = quiet_disk();
    let net = quiet_network();

    let warn_only = checker.check(&cpu_at(8500), &mem, &disk, &net, None, 1_000);
    assert_eq!(warn_only.len(), 1);
    assert!(matches!(warn_only[0].severity, Severity::Warning));
    assert_eq!(warn_only[0].message, b"CPU warning: 85.0%".to_vec());
}

#[test]
fn rss_warning_below_critical_cutoff() {
    let mut thresholds = AlertThresholds::default();
    thresholds.process_rss_warn = Some(500 * 1024 * 1024);
    thresholds.process_rss_crit = Some(1000 * 1024 * 1024);
    let mut checker = AlertChecker::new(thresholds);
    let mem = quiet_memory();
    let disk = quiet_disk();
    let net = quiet_network();

    let proc_600 = process_with_rss(600 * 1024 * 1024);
    let fired = checker.check(&cpu_at(0), &mem, &disk, &net, Some(&proc_600), 1_000);
    assert_eq!(fired.len(), 1);
    assert!(matches!(fired[0].severity, Severity::Warning));

    let proc_1500 = process_with_rss(1500 * 1024 * 1024);
    let fired = checker.check(&cpu_at(0), &mem, &disk, &net, Some(&proc_1500), 60_000);
    assert_eq!(fired.len(), 1);
    assert!(matches!(fired[0].severity, Severity::Critical));
}

#[test]
fn disk_alerts_use_per_device_keys() {
    let mut checker = AlertChecker::new(AlertThresholds::default());
    let mem = quiet_memory();
    let net = quiet_network();
    let disk = DiskMetrics {
        disks: vec![
            DiskStats {
                device: b"sda".to_vec(),
                read_bytes_per_sec: 0,
                write_bytes_per_sec: 0,
                read_iops: 0,
                write_iops: 0,
                read_latency_ms: 0,
                write_latency_ms: 0,
                utilization_percent: 9500,
                queue_depth: 0,
                reads_completed: 0,
                writes_completed: 0,
                bytes_read: 0,
                bytes_written: 0,
                in_flight: 0,
            },
            DiskStats {
                device: b"sdb".to_vec(),
                read_bytes_per_sec: 0,
                write_bytes_per_sec: 0,
                read_iops: 0,
                write_iops: 0,
                read_latency_ms: 0,
                write_latency_ms: 0,
                utilization_percent: 7500,
                queue_depth: 2500,
                reads_completed: 0,
                writes_completed: 0,
                bytes_read: 0,
                bytes_written: 0,
                in_flight: 0,
            },
        ],
        total_read_bytes_per_sec: 0,
        total_write_bytes_per_sec: 0,
        total_in_flight: 0,
        spill_dir_info: None,
    };

    let fired = checker.check(&cpu_at(0), &mem, &disk, &net, None, 1_000);
    assert_eq!(fired.len(), 3);
    assert_eq!(fired[0].message, b"Disk sda critical: 95.0%".to_vec());
    assert!(matches!(fired[0].severity, Severity::Critical));
    assert_eq!(fired[1].message, b"Disk sdb warning: 75.0%".to_vec());
    assert!(matches!(fired[1].severity, Severity::Warning));
    assert_eq!(fired[2].message, b"Disk sdb queue critical: 25.0".to_vec());
    assert!(matches!(fired[2].severity, Severity::Critical));
}

#[test]
fn swap_usage_warns_once_per_window() {
    let mut checker = AlertChecker::new(AlertThresholds::default());
    let mut mem = quiet_memory();
    mem.swap_total = 4 << 30;
    mem.swap_used = 1 << 30;
    mem.swap_percent = 2500;
    let disk = quiet_disk();
    let net = quiet_network();

    let fired = checker.check(&cpu_at(0), &mem, &disk, &net, None, 1_000);
    assert_eq!(fired.len(), 1);
    assert!(matches!(fired[0].severity, Severity::Warning));
    assert_eq!(
        fired[0].message,
        format!("Swap in use: 25.0% ({} bytes)", 1u64 << 30).into_bytes()
    );
}

#[test]
fn thresholds_are_replaceable() {
    let mut checker = AlertChecker::new(AlertThresholds::default());
    assert_eq!(checker.thresholds().cpu_crit, 9500);
    let mut tighter = AlertThresholds::default();
    tighter.cpu_crit = 5000;
    checker.set_thresholds(tighter);
    assert_eq!(checker.thresholds().cpu_crit, 5000);

    let fired = checker.check(
        &cpu_at(6000),
        &quiet_memory(),
        &quiet_disk(),
        &quiet_network(),
        None,
        1_000,
    );
    assert_eq!(fired.len(), 1);
    assert!(matches!(fired[0].severity, Severity::Critical));
}

#[test]
fn alert_messages_render_as_text() {
    let mut checker = AlertChecker::new(AlertThresholds::default());
    let fired = checker.check(
        &cpu_at(9600),
        &quiet_memory(),
        &quiet_disk(),
        &quiet_network(),
        None,
        1_000,
    );
    assert_eq!(
        monperf::display::alert_message_string(&fired[0]),
        "CPU critical: 96.0%"
    );
}
