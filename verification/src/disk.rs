//! Disk metrics: per-device throughput, IOPS, latency, utilization and
//! queue depth from cumulative diskstats counters, with the device set
//! rediscovered on every tick.
//!
//! Rates and percentages are hundredths; latencies are thousandths of a
//! millisecond.

use vstd::prelude::*;
use crate::bytes::{ascii_bytes, contains_seq, contains_sub, ends_with, has_prefix, has_suffix, lines_of, split_lines, split_ws, starts_with, str_bytes, ws_tokens};
use crate::cpu::tok_u64;
use crate::numfmt::is_digit;
use crate::rates::{add_sat_spec, mul_sat, mul_sat_spec, pct_centi, pct_centi_spec, rate_centi, rate_centi_spec, ratio_centi, ratio_centi_spec, ratio_milli, ratio_milli_spec};
use crate::statemap::{lookup_seq, name_entries, upsert_name, upsert_seq, lemma_upsert_projects, lemma_lookup_projects};
use crate::{counter_delta, delta_u64};

verus! {

/// Raw cumulative counters for one device, in diskstats column order.
#[derive(Clone, Copy, Debug, PartialEq, Eq, Structural)]
pub struct RawDiskStats {
    pub reads_completed: u64,
    pub reads_merged: u64,
    pub sectors_read: u64,
    pub time_reading_ms: u64,
    pub writes_completed: u64,
    pub writes_merged: u64,
    pub sectors_written: u64,
    pub time_writing_ms: u64,
    pub ios_in_progress: u64,
    pub time_doing_ios_ms: u64,
    pub weighted_time_ms: u64,
}

/// Per-device metrics for one sampling interval.
#[derive(Clone, Debug)]
pub struct DiskStats {
    /// Device name.
    pub device: Vec<u8>,
    /// Read throughput, hundredths of a byte per second.
    pub read_bytes_per_sec: u64,
    /// Write throughput, hundredths of a byte per second.
    pub write_bytes_per_sec: u64,
    /// Read operations per second, hundredths.
    pub read_iops: u64,
    /// Write operations per second, hundredths.
    pub write_iops: u64,
    /// Average per-read latency, thousandths of a millisecond.
    pub read_latency_ms: u64,
    /// Average per-write latency, thousandths of a millisecond.
    pub write_latency_ms: u64,
    /// Utilization, hundredths of a percent, at most ten thousand.
    pub utilization_percent: u64,
    /// Average queue depth, hundredths.
    pub queue_depth: u64,
    /// Cumulative reads completed.
    pub reads_completed: u64,
    /// Cumulative writes completed.
    pub writes_completed: u64,
    /// Cumulative bytes read.
    pub bytes_read: u64,
    /// Cumulative bytes written.
    pub bytes_written: u64,
    /// I/O requests in flight right now.
    pub in_flight: u64,
}

/// Free-space figures for a watched spill directory.
#[derive(Clone, Debug)]
pub struct SpillDirInfo {
    /// The directory path as handed in.
    pub path: String,
    pub used_bytes: u64,
    pub available_bytes: u64,
    pub total_bytes: u64,
    /// Used share, hundredths of a percent.
    pub used_percent: u64,
}

impl SpillDirInfo {
    /// Derives the spill-directory figures from a filesystem-statistics
    /// query: block counts scaled by the fragment size, saturating.
    pub fn from_statvfs(
        path: String,
        block_size: u64,
        total_blocks: u64,
        available_blocks: u64,
        free_blocks: u64,
    ) -> (r: SpillDirInfo)
        ensures
            r.path == path,
            r.total_bytes == mul_sat_spec(total_blocks, block_size),
            r.available_bytes == mul_sat_spec(available_blocks, block_size),
            r.used_bytes == counter_delta(
                mul_sat_spec(total_blocks, block_size),
                mul_sat_spec(free_blocks, block_size),
            ),
            r.used_percent == pct_centi_spec(r.used_bytes, r.total_bytes),
    {
        let total_bytes = mul_sat(total_blocks, block_size);
        let available_bytes = mul_sat(available_blocks, block_size);
        let used_bytes = delta_u64(total_bytes, mul_sat(free_blocks, block_size));
        let used_percent = pct_centi(used_bytes, total_bytes);
        SpillDirInfo { path, used_bytes, available_bytes, total_bytes, used_percent }
    }
}

/// Aggregated disk metrics for one sampling interval.
#[derive(Clone, Debug)]
pub struct DiskMetrics {
    /// Per-device metrics, in the order the kernel listed the devices.
    pub disks: Vec<DiskStats>,
    /// Total read throughput, hundredths of a byte per second, saturating.
    pub total_read_bytes_per_sec: u64,
    /// Total write throughput, hundredths of a byte per second, saturating.
    pub total_write_bytes_per_sec: u64,
    /// I/O requests in flight across all devices, saturating.
    pub total_in_flight: u64,
    /// Spill-directory figures, when one is watched.
    pub spill_dir_info: Option<SpillDirInfo>,
}

/// Loopback, ram-backed and device-mapper entries are skipped, as are
/// partitions: a trailing digit marks one, except that an `nvme` name is a
/// partition only when a `p` separates it from the digit.
pub open spec fn is_excluded_device(name: Seq<u8>) -> bool {
    ||| has_prefix(name, ascii_bytes("loop"@))
    ||| has_prefix(name, ascii_bytes("ram"@))
    ||| has_prefix(name, ascii_bytes("dm-"@))
    ||| (if has_prefix(name, ascii_bytes("nvme"@)) {
        contains_seq(name, seq![112u8]) && name.len() > 0 && is_digit(name.last())
    } else {
        name.len() > 0 && is_digit(name.last())
    })
}

/// Tests whether a device entry is skipped.
pub fn excluded_device(name: &[u8]) -> (r: bool)
    ensures
        r == is_excluded_device(name@),
{
    proof {
        reveal_strlit("loop");
        reveal_strlit("ram");
        reveal_strlit("dm-");
        reveal_strlit("nvme");
    }
    let loop_pre = str_bytes("loop");
    let ram_pre = str_bytes("ram");
    let dm_pre = str_bytes("dm-");
    let nvme_pre = str_bytes("nvme");
    if starts_with(name, loop_pre.as_slice()) || starts_with(name, ram_pre.as_slice())
        || starts_with(name, dm_pre.as_slice()) {
        return true;
    }
    let last_digit = name.len() > 0 && {
        let b = name[name.len() - 1];
        48 <= b && b <= 57
    };
    if starts_with(name, nvme_pre.as_slice()) {
        let p: [u8; 1] = [112];
        let ps = p.as_slice();
        proof {
            assert(ps@ =~= seq![112u8]);
        }
        contains_sub(name, ps) && last_digit
    } else {
        last_digit
    }
}

/// What one diskstats line contributes: the device name and its counters,
/// or nothing when the line is short or the device is skipped.
pub open spec fn disk_line_spec(l: Seq<u8>) -> Option<(Seq<u8>, RawDiskStats)> {
    if ws_tokens(l).len() >= 14 && !is_excluded_device(ws_tokens(l)[2]) {
        Some(
            (
                ws_tokens(l)[2],
                RawDiskStats {
                    reads_completed: tok_u64(l, 3),
                    reads_merged: tok_u64(l, 4),
                    sectors_read: tok_u64(l, 5),
                    time_reading_ms: tok_u64(l, 6),
                    writes_completed: tok_u64(l, 7),
                    writes_merged: tok_u64(l, 8),
                    sectors_written: tok_u64(l, 9),
                    time_writing_ms: tok_u64(l, 10),
                    ios_in_progress: tok_u64(l, 11),
                    time_doing_ios_ms: tok_u64(l, 12),
                    weighted_time_ms: tok_u64(l, 13),
                },
            ),
        )
    } else {
        None
    }
}

/// The kept device entries of a diskstats read, in file order.
pub open spec fn disk_rows_of(ls: Seq<Seq<u8>>) -> Seq<(Seq<u8>, RawDiskStats)>
    decreases ls.len(),
{
    if ls.len() == 0 {
        Seq::empty()
    } else {
        match disk_line_spec(ls.last()) {
            Some(e) => disk_rows_of(ls.drop_last()).push(e),
            None => disk_rows_of(ls.drop_last()),
        }
    }
}

/// The prior-state image after a read: every kept device keyed by name, a
/// later duplicate overriding an earlier one.
pub open spec fn disk_state_of(rows: Seq<(Seq<u8>, RawDiskStats)>) -> Seq<(Seq<u8>, RawDiskStats)>
    decreases rows.len(),
{
    if rows.len() == 0 {
        Seq::empty()
    } else {
        upsert_seq(disk_state_of(rows.drop_last()), rows.last().0, rows.last().1)
    }
}

/// The metrics entry for one device is correct against the prior state: a
/// device with no prior entry, or a zero interval, reports zero rates; the
/// cumulative fields always carry over.
pub open spec fn disk_entry_ok(
    prev: Seq<(Seq<u8>, RawDiskStats)>,
    elapsed_ms: u64,
    sector_size: u64,
    name: Seq<u8>,
    cur: RawDiskStats,
    e: DiskStats,
) -> bool {
    &&& e.device@ == name
    &&& (match lookup_seq(prev, name) {
        Some(p) => {
            let reads_d = counter_delta(cur.reads_completed, p.reads_completed);
            let writes_d = counter_delta(cur.writes_completed, p.writes_completed);
            &&& e.read_bytes_per_sec == rate_centi_spec(
                mul_sat_spec(counter_delta(cur.sectors_read, p.sectors_read), sector_size),
                elapsed_ms,
            )
            &&& e.write_bytes_per_sec == rate_centi_spec(
                mul_sat_spec(counter_delta(cur.sectors_written, p.sectors_written), sector_size),
                elapsed_ms,
            )
            &&& e.read_iops == rate_centi_spec(reads_d, elapsed_ms)
            &&& e.write_iops == rate_centi_spec(writes_d, elapsed_ms)
            &&& e.read_latency_ms == ratio_milli_spec(
                counter_delta(cur.time_reading_ms, p.time_reading_ms),
                reads_d,
            )
            &&& e.write_latency_ms == ratio_milli_spec(
                counter_delta(cur.time_writing_ms, p.time_writing_ms),
                writes_d,
            )
            &&& e.utilization_percent == (if pct_centi_spec(
                counter_delta(cur.time_doing_ios_ms, p.time_doing_ios_ms),
                elapsed_ms,
            ) > 10000 {
                10000u64
            } else {
                pct_centi_spec(counter_delta(cur.time_doing_ios_ms, p.time_doing_ios_ms), elapsed_ms)
            })
            &&& e.queue_depth == ratio_centi_spec(
                counter_delta(cur.weighted_time_ms, p.weighted_time_ms),
                elapsed_ms,
            )
        },
        None => {
            &&& e.read_bytes_per_sec == 0
            &&& e.write_bytes_per_sec == 0
            &&& e.read_iops == 0
            &&& e.write_iops == 0
            &&& e.read_latency_ms == 0
            &&& e.write_latency_ms == 0
            &&& e.utilization_percent == 0
            &&& e.queue_depth == 0
        },
    })
    &&& e.reads_completed == cur.reads_completed
    &&& e.writes_completed == cur.writes_completed
    &&& e.bytes_read == mul_sat_spec(cur.sectors_read, sector_size)
    &&& e.bytes_written == mul_sat_spec(cur.sectors_written, sector_size)
    &&& e.in_flight == cur.ios_in_progress
}

/// The saturating totals of the per-device entries.
pub open spec fn disks_total_read(ds: Seq<DiskStats>) -> u64
    decreases ds.len(),
{
    if ds.len() == 0 {
        0u64
    } else {
        add_sat_spec(disks_total_read(ds.drop_last()), ds.last().read_bytes_per_sec)
    }
}

pub open spec fn disks_total_write(ds: Seq<DiskStats>) -> u64
    decreases ds.len(),
{
    if ds.len() == 0 {
        0u64
    } else {
        add_sat_spec(disks_total_write(ds.drop_last()), ds.last().write_bytes_per_sec)
    }
}

pub open spec fn disks_total_in_flight(ds: Seq<DiskStats>) -> u64
    decreases ds.len(),
{
    if ds.len() == 0 {
        0u64
    } else {
        add_sat_spec(disks_total_in_flight(ds.drop_last()), ds.last().in_flight)
    }
}

impl Default for DiskCollector {
    /// A fresh collector.
    fn default() -> (r: DiskCollector)
        ensures
            r.prev_stats@.len() == 0,
            r.prev_time_ms == 0,
            r.spill_dir is None,
            r.sector_size == 512,
    {
        DiskCollector::new()
    }
}

/// A first collection reports zero rates: with no prior state to diff
/// against, every entry of the tick is fresh, whatever the raw counters
/// hold.
pub proof fn lemma_first_collect_zero_rates(
    elapsed_ms: u64,
    sector_size: u64,
    name: Seq<u8>,
    cur: RawDiskStats,
    e: DiskStats,
)
    requires
        disk_entry_ok(Seq::empty(), elapsed_ms, sector_size, name, cur, e),
    ensures
        e.read_bytes_per_sec == 0,
        e.write_bytes_per_sec == 0,
        e.read_iops == 0,
        e.write_iops == 0,
        e.read_latency_ms == 0,
        e.write_latency_ms == 0,
        e.utilization_percent == 0,
        e.queue_depth == 0,
{
}

/// The prior state after a tick holds exactly the devices of that tick's
/// read: a device absent from the read leaves no state behind, so when it
/// reappears it is treated as fresh and reports zero rates for that tick.
pub proof fn lemma_state_tracks_current(rows: Seq<(Seq<u8>, RawDiskStats)>, n: Seq<u8>)
    ensures
        (lookup_seq(disk_state_of(rows), n) is Some) <==> (exists|i: int|
            0 <= i < rows.len() && rows[i].0 == n),
    decreases rows.len(),
{
    if rows.len() > 0 {
        lemma_state_tracks_current(rows.drop_last(), n);
        crate::statemap::lemma_upsert_seq_lookup(
            disk_state_of(rows.drop_last()),
            rows.last().0,
            rows.last().1,
            n,
        );
        if lookup_seq(disk_state_of(rows), n) is Some {
            if rows.last().0 == n {
                assert(rows[rows.len() - 1].0 == n);
            } else {
                let i = choose|i: int| 0 <= i < rows.drop_last().len() && rows.drop_last()[i].0 == n;
                assert(rows[i].0 == n);
            }
        } else {
            assert forall|i: int| 0 <= i < rows.len() implies rows[i].0 != n by {
                if i < rows.len() - 1 {
                    assert(rows.drop_last()[i].0 != n);
                }
            }
        }
    }
}

/// Disk metrics collector: owns the previous sample's per-device counters
/// and its timestamp.
pub struct DiskCollector {
    /// Per-device counters of the previous sample, keyed by device name.
    pub prev_stats: Vec<(Vec<u8>, RawDiskStats)>,
    /// Wall-clock milliseconds of the previous sample.
    pub prev_time_ms: u64,
    /// The watched spill directory, if any.
    pub spill_dir: Option<String>,
    /// Bytes per sector for throughput conversion.
    pub sector_size: u64,
}

impl DiskCollector {
    /// A fresh collector holds no prior state and the usual sector size.
    pub fn new() -> (r: DiskCollector)
        ensures
            r.prev_stats@.len() == 0,
            r.prev_time_ms == 0,
            r.spill_dir is None,
            r.sector_size == 512,
    {
        DiskCollector { prev_stats: Vec::new(), prev_time_ms: 0, spill_dir: None, sector_size: 512 }
    }

    /// Registers the spill directory to watch.
    pub fn set_spill_dir(&mut self, path: &str)
        ensures
            (final(self).spill_dir matches Some(p) && p@ == path@),
            final(self).prev_stats == old(self).prev_stats,
            final(self).prev_time_ms == old(self).prev_time_ms,
            final(self).sector_size == old(self).sector_size,
    {
        self.spill_dir = Some(path.to_owned());
    }

    /// Turns one read of the diskstats text into disk metrics, advancing
    /// the prior-sample state.
    ///
    /// Every kept device of this read yields one entry, in file order; a
    /// device seen for the first time, or a zero interval, yields zero
    /// rates.  A device absent from this read yields no entry and its prior
    /// state is dropped.
    pub fn collect(&mut self, diskstats: &[u8], now_ms: u64, spill_dir_info: Option<SpillDirInfo>) -> (r:
        DiskMetrics)
        ensures
            ({
                let rows = disk_rows_of(lines_of(diskstats@));
                let elapsed = counter_delta(now_ms, old(self).prev_time_ms);
                &&& r.disks@.len() == rows.len()
                &&& forall|i: int| 0 <= i < rows.len() ==> disk_entry_ok(
                    name_entries(old(self).prev_stats@),
                    elapsed,
                    old(self).sector_size,
                    rows[i].0,
                    rows[i].1,
                    #[trigger] r.disks@[i],
                )
                &&& r.total_read_bytes_per_sec == disks_total_read(r.disks@)
                &&& r.total_write_bytes_per_sec == disks_total_write(r.disks@)
                &&& r.total_in_flight == disks_total_in_flight(r.disks@)
                &&& r.spill_dir_info == spill_dir_info
                &&& name_entries(final(self).prev_stats@) == disk_state_of(rows)
                &&& final(self).prev_time_ms == now_ms
                &&& final(self).spill_dir == old(self).spill_dir
                &&& final(self).sector_size == old(self).sector_size
            }),
    {
        let ghost ls = lines_of(diskstats@);
        let lines = split_lines(diskstats);
        let elapsed = delta_u64(now_ms, self.prev_time_ms);
        let sector_size = self.sector_size;

        let mut cur: Vec<(Vec<u8>, RawDiskStats)> = Vec::new();
        let mut disks: Vec<DiskStats> = Vec::new();
        let ghost prev0 = name_entries(self.prev_stats@);
        let mut i: usize = 0;
        proof {
            assert(ls.take(0) =~= Seq::<Seq<u8>>::empty());
            assert(name_entries(cur@) =~= Seq::<(Seq<u8>, RawDiskStats)>::empty());
        }
        while i < lines.len()
            invariant
                i <= lines@.len(),
                lines@.map_values(|f: Vec<u8>| f@) == ls,
                elapsed == counter_delta(now_ms, self.prev_time_ms),
                sector_size == self.sector_size,
                prev0 == name_entries(self.prev_stats@),
                name_entries(cur@) == disk_state_of(disk_rows_of(ls.take(i as int))),
                disks@.len() == disk_rows_of(ls.take(i as int)).len(),
                forall|j: int| 0 <= j < disks@.len() ==> disk_entry_ok(
                    prev0,
                    elapsed,
                    sector_size,
                    disk_rows_of(ls.take(i as int))[j].0,
                    disk_rows_of(ls.take(i as int))[j].1,
                    #[trigger] disks@[j],
                ),
            decreases lines@.len() - i,
        {
            let line = &lines[i];
            proof {
                assert(line@ == ls[i as int]);
                assert(ls.take(i + 1 as int).drop_last() =~= ls.take(i as int));
                assert(ls.take(i + 1 as int).last() == ls[i as int]);
            }
            let toks = split_ws(line.as_slice());
            let ghost gt = ws_tokens(line@);
            let ghost rows_now = disk_rows_of(ls.take(i as int));
            let ghost rows_next = disk_rows_of(ls.take(i + 1 as int));
            if toks.len() >= 14 {
                proof {
                    assert forall|q: int| 0 <= q < 14 implies toks@[q]@ == gt[q] by {
                        assert(toks@.map_values(|f: Vec<u8>| f@)[q] == toks@[q]@);
                    }
                }
                if !excluded_device(toks[2].as_slice()) {
                    let device = toks[2].clone();
                    let raw = RawDiskStats {
                        reads_completed: crate::numfmt::parse_u64(toks[3].as_slice()),
                        reads_merged: crate::numfmt::parse_u64(toks[4].as_slice()),
                        sectors_read: crate::numfmt::parse_u64(toks[5].as_slice()),
                        time_reading_ms: crate::numfmt::parse_u64(toks[6].as_slice()),
                        writes_completed: crate::numfmt::parse_u64(toks[7].as_slice()),
                        writes_merged: crate::numfmt::parse_u64(toks[8].as_slice()),
                        sectors_written: crate::numfmt::parse_u64(toks[9].as_slice()),
                        time_writing_ms: crate::numfmt::parse_u64(toks[10].as_slice()),
                        ios_in_progress: crate::numfmt::parse_u64(toks[11].as_slice()),
                        time_doing_ios_ms: crate::numfmt::parse_u64(toks[12].as_slice()),
                        weighted_time_ms: crate::numfmt::parse_u64(toks[13].as_slice()),
                    };
                    proof {
                        assert(disk_line_spec(line@) == Some((gt[2], raw)));
                        assert(rows_next =~= rows_now.push((gt[2], raw)));
                        assert(rows_next.drop_last() =~= rows_now);
                    }
                    let entry = match crate::statemap::name_get(&self.prev_stats, device.as_slice()) {
                        Some(p) => {
                            proof {
                                lemma_lookup_projects(self.prev_stats@, device@);
                            }
                            let reads_d = delta_u64(raw.reads_completed, p.reads_completed);
                            let writes_d = delta_u64(raw.writes_completed, p.writes_completed);
                            DiskStats {
                                device: device.clone(),
                                read_bytes_per_sec: rate_centi(
                                    mul_sat(delta_u64(raw.sectors_read, p.sectors_read), sector_size),
                                    elapsed,
                                ),
                                write_bytes_per_sec: rate_centi(
                                    mul_sat(
                                        delta_u64(raw.sectors_written, p.sectors_written),
                                        sector_size,
                                    ),
                                    elapsed,
                                ),
                                read_iops: rate_centi(reads_d, elapsed),
                                write_iops: rate_centi(writes_d, elapsed),
                                read_latency_ms: ratio_milli(
                                    delta_u64(raw.time_reading_ms, p.time_reading_ms),
                                    reads_d,
                                ),
                                write_latency_ms: ratio_milli(
                                    delta_u64(raw.time_writing_ms, p.time_writing_ms),
                                    writes_d,
                                ),
                                utilization_percent: {
                                    let u = pct_centi(
                                        delta_u64(raw.time_doing_ios_ms, p.time_doing_ios_ms),
                                        elapsed,
                                    );
                                    if u > 10000 {
                                        10000
                                    } else {
                                        u
                                    }
                                },
                                queue_depth: ratio_centi(
                                    delta_u64(raw.weighted_time_ms, p.weighted_time_ms),
                                    elapsed,
                                ),
                                reads_completed: raw.reads_completed,
                                writes_completed: raw.writes_completed,
                                bytes_read: mul_sat(raw.sectors_read, sector_size),
                                bytes_written: mul_sat(raw.sectors_written, sector_size),
                                in_flight: raw.ios_in_progress,
                            }
                        },
                        None => {
                            proof {
                                lemma_lookup_projects(self.prev_stats@, device@);
                            }
                            DiskStats {
                                device: device.clone(),
                                read_bytes_per_sec: 0,
                                write_bytes_per_sec: 0,
                                read_iops: 0,
                                write_iops: 0,
                                read_latency_ms: 0,
                                write_latency_ms: 0,
                                utilization_percent: 0,
                                queue_depth: 0,
                                reads_completed: raw.reads_completed,
                                writes_completed: raw.writes_completed,
                                bytes_read: mul_sat(raw.sectors_read, sector_size),
                                bytes_written: mul_sat(raw.sectors_written, sector_size),
                                in_flight: raw.ios_in_progress,
                            }
                        },
                    };
                    disks.push(entry);
                    let ghost cur_before = cur@;
                    proof {
                        lemma_upsert_projects(cur_before, device, raw);
                    }
                    upsert_name(&mut cur, device, raw);
                } else {
                    proof {
                        assert(disk_line_spec(line@) is None);
                        assert(rows_next =~= rows_now);
                    }
                }
            } else {
                proof {
                    assert(disk_line_spec(line@) is None);
                    assert(rows_next =~= rows_now);
                }
            }
            i += 1;
        }
        proof {
            assert(ls.take(ls.len() as int) =~= ls);
        }

        let mut total_read: u64 = 0;
        let mut total_write: u64 = 0;
        let mut total_in_flight: u64 = 0;
        let mut j: usize = 0;
        proof {
            assert(disks@.take(0) =~= Seq::<DiskStats>::empty());
        }
        while j < disks.len()
            invariant
                j <= disks@.len(),
                total_read == disks_total_read(disks@.take(j as int)),
                total_write == disks_total_write(disks@.take(j as int)),
                total_in_flight == disks_total_in_flight(disks@.take(j as int)),
            decreases disks@.len() - j,
        {
            proof {
                assert(disks@.take(j + 1 as int).drop_last() =~= disks@.take(j as int));
                assert(disks@.take(j + 1 as int).last() == disks@[j as int]);
            }
            total_read = total_read.saturating_add(disks[j].read_bytes_per_sec);
            total_write = total_write.saturating_add(disks[j].write_bytes_per_sec);
            total_in_flight = total_in_flight.saturating_add(disks[j].in_flight);
            j += 1;
        }
        proof {
            assert(disks@.take(disks@.len() as int) =~= disks@);
        }

        self.prev_stats = cur;
        self.prev_time_ms = now_ms;

        DiskMetrics {
            disks,
            total_read_bytes_per_sec: total_read,
            total_write_bytes_per_sec: total_write,
            total_in_flight,
            spill_dir_info,
        }
    }
}

} // verus!
