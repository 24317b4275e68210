//! Number and text formatting, its parsing inverse, and the process-table
//! scan scoring.

use monperf::display::{format_bytes, format_bytes_short, format_throughput, truncate_str, CpuHistory, DiskHistory, MemoryHistory, NetworkHistory};
use monperf::numfmt::{fmt_fixed, fmt_u64, parse_fixed, parse_fixed_opt, parse_u64};
use monperf::process::{find_process_by_name, find_processes_by_pattern, ProcCandidate};

#[test]
fn fixed_point_round_trips_exactly() {
    for v in [0u64, 1, 9, 10, 99, 100, 12345, 9999999] {
        let two = fmt_fixed(v, 2);
        assert_eq!(parse_fixed(&two, 2), v);
        let three = fmt_fixed(v, 3);
        assert_eq!(parse_fixed(&three, 3), v);
        let plain = fmt_u64(v);
        assert_eq!(parse_u64(&plain), v);
    }
    assert_eq!(fmt_fixed(4275, 2), b"42.75".to_vec());
    assert_eq!(fmt_fixed(500, 3), b"0.500".to_vec());
    assert_eq!(fmt_fixed(7, 1), b"0.7".to_vec());
    assert_eq!(fmt_u64(0), b"0".to_vec());
    assert_eq!(fmt_u64(18446744073709551615), b"18446744073709551615".to_vec());
}

#[test]
fn tolerant_parsing_defaults_to_zero() {
    assert_eq!(parse_u64(b""), 0);
    assert_eq!(parse_u64(b"12x"), 0);
    assert_eq!(parse_u64(b"99999999999999999999999"), 0);
    assert_eq!(parse_fixed(b"", 2), 0);
    assert_eq!(parse_fixed(b"1.2.3", 2), 0);
    assert_eq!(parse_fixed(b"5", 2), 500);
    assert_eq!(parse_fixed_opt(b"", 2), None);
    assert_eq!(parse_fixed_opt(b"1.25", 2), Some(125));
    assert_eq!(parse_fixed_opt(b"bad", 2), None);
}

#[test]
fn byte_figures_use_matching_units() {
    assert_eq!(format_bytes(512), "512 B");
    assert_eq!(format_bytes(1536), "1.50 KB");
    assert_eq!(format_bytes(3 << 20), "3.00 MB");
    assert_eq!(format_bytes(5 << 30), "5.00 GB");
    assert_eq!(format_bytes(2 << 40), "2.00 TB");
    assert_eq!(format_bytes_short(512), "512B");
    assert_eq!(format_bytes_short(1536), "2K");
    assert_eq!(format_bytes_short(340 << 20), "340M");
    assert_eq!(format_bytes_short(3 << 29), "1.5G");
    // Throughputs carry hundredths of a byte per second.
    assert_eq!(format_throughput(512 * 100), "512 B/s");
    assert_eq!(format_throughput(2 * 1024 * 1024 * 100 + 41 * 1024 * 100), "2.04 MB/s");
}

#[test]
fn truncation_marks_the_cut() {
    assert_eq!(truncate_str("short", 10), "short");
    assert_eq!(truncate_str("a-much-longer-name", 8), "a-much..");
    assert_eq!(truncate_str("abcdef", 2), "ab");
    assert_eq!(truncate_str("abcdef", 6), "abcdef");
}

#[test]
fn histories_evict_the_oldest() {
    let mut h = CpuHistory::new(3);
    for v in [100u64, 200, 300, 400] {
        h.push(v * 100);
    }
    assert_eq!(h.values, vec![200, 300, 400]);

    let mut m = MemoryHistory::new(2);
    m.push(5000, Some(2500));
    m.push(6000, None);
    m.push(7000, Some(1000));
    assert_eq!(m.used_values, vec![60, 70]);
    assert_eq!(m.cgroup_values, vec![0, 10]);

    let mut d = DiskHistory::new(2);
    d.push(1024 * 100, 2048 * 100);
    assert_eq!(d.read_values, vec![1024]);
    assert_eq!(d.write_values, vec![2048]);

    let mut n = NetworkHistory::new(1);
    n.push(100, 200);
    n.push(300, 400);
    assert_eq!(n.rx_values, vec![3]);
    assert_eq!(n.tx_values, vec![4]);
}

fn cand(pid: u32, comm: &[u8], cmdline: &[u8]) -> ProcCandidate {
    ProcCandidate { pid, comm: comm.to_vec(), cmdline: cmdline.to_vec() }
}

#[test]
fn exact_short_name_match_wins_immediately() {
    let cands = vec![
        cand(10, b"other\n", b"other --x\0"),
        cand(20, b"worker\n", b"/usr/bin/worker\0"),
        cand(30, b"worker2\n", b"worker two\0"),
    ];
    assert_eq!(find_process_by_name(b"worker", 1, &cands), Some(20));
}

#[test]
fn scan_skips_itself_and_other_monitor_instances() {
    let cands = vec![
        cand(5, b"worker\n", b"worker\0"),
        cand(6, b"perf\n", b"perf-monitor --daemon\0"),
    ];
    // The exact match is the monitor's own id, so nothing binds it.
    assert_eq!(find_process_by_name(b"worker", 5, &cands), None);
    assert_eq!(find_process_by_name(b"perf-monitor", 1, &cands), None);
}

#[test]
fn shells_are_skipped_unless_the_pattern_names_one() {
    let cands = vec![cand(7, b"bash\n", b"bash run-batch.sh\0")];
    assert_eq!(find_process_by_name(b"run-batch", 1, &cands), None);
    assert_eq!(find_process_by_name(b"bash", 1, &cands), Some(7));
}

#[test]
fn best_score_wins_and_younger_id_breaks_ties() {
    let cands = vec![
        // Pattern only in an argument: low score.
        cand(100, b"python\n", b"/usr/bin/python train-batch.py\0"),
        // Pattern in the executable itself: high score.
        cand(50, b"batchd\n", b"/opt/bin/batch-server --port 1\0"),
        // Same low score as the first, younger id.
        cand(120, b"python3\n", b"/usr/bin/python3 eval-batch.py\0"),
    ];
    assert_eq!(find_process_by_name(b"batch", 1, &cands), Some(50));
    let low_only = vec![cands[0].clone(), cands[2].clone()];
    assert_eq!(find_process_by_name(b"batch", 1, &low_only), Some(120));
}

#[test]
fn script_patterns_prefer_their_interpreter() {
    let cands = vec![
        cand(10, b"tail\n", b"tail -f train.py.log\0"),
        cand(11, b"python\n", b"/usr/bin/python train.py\0"),
    ];
    assert_eq!(find_process_by_name(b"train.py", 1, &cands), Some(11));
}

#[test]
fn pattern_listing_keeps_table_order() {
    let cands = vec![
        cand(1, b"alpha\n", b"alpha\0"),
        cand(2, b"beta\n", b"runs alpha for a while\0"),
        cand(3, b"gamma\n", b"gamma\0"),
    ];
    assert_eq!(find_processes_by_pattern(b"alpha", &cands), vec![1, 2]);
    assert_eq!(find_processes_by_pattern(b"ALPHA", &cands), vec![1, 2]);
    assert_eq!(find_processes_by_pattern(b"nothing", &cands), Vec::<u32>::new());
}
