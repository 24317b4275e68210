//! Memory metrics: instantaneous gauges from the meminfo read, the cgroup
//! limit fallback chain, page-fault deltas, and derived usage percentages.

use vstd::prelude::*;
use crate::bytes::{ascii_bytes, contains_seq, contains_sub, bytes_eq, lines_of, split_lines, split_ws, str_bytes, trim, trim_spec, ws_tokens};
use crate::numfmt::{digits_val, parse_digits, parse_u64_spec};
use crate::rates::{mul_sat, mul_sat_spec, pct_centi, pct_centi_spec};
use crate::cpu::tok_u64;
use crate::{counter_delta, delta_u64};

verus! {

/// The gauges read from the meminfo text, in bytes.
#[derive(Clone, Copy, Debug, PartialEq, Eq, Structural)]
pub struct MemInfoFields {
    pub total: u64,
    pub free: u64,
    pub available: u64,
    pub buffers: u64,
    pub cached: u64,
    pub dirty: u64,
    pub writeback: u64,
    pub active_file: u64,
    pub inactive_file: u64,
    pub swap_total: u64,
    pub swap_free: u64,
}

/// All-zero gauges, the value before any line matched.
pub open spec fn zero_meminfo() -> MemInfoFields {
    MemInfoFields {
        total: 0,
        free: 0,
        available: 0,
        buffers: 0,
        cached: 0,
        dirty: 0,
        writeback: 0,
        active_file: 0,
        inactive_file: 0,
        swap_total: 0,
        swap_free: 0,
    }
}

/// Whether a line's first token is `name` and a second token follows.
pub open spec fn keyed_line(l: Seq<u8>, name: Seq<u8>) -> bool {
    ws_tokens(l).len() >= 2 && ws_tokens(l)[0] == name
}

/// A meminfo line's value: the second token in kilobytes, scaled to bytes.
pub open spec fn meminfo_value(l: Seq<u8>) -> u64 {
    mul_sat_spec(tok_u64(l, 1), 1024)
}

/// Applies one meminfo line to the gauges: the first matching key is
/// updated, a later line with the same key overwrites an earlier one.
pub open spec fn meminfo_step(acc: MemInfoFields, l: Seq<u8>) -> MemInfoFields {
    if keyed_line(l, ascii_bytes("MemTotal:"@)) {
        MemInfoFields { total: meminfo_value(l), ..acc }
    } else if keyed_line(l, ascii_bytes("MemFree:"@)) {
        MemInfoFields { free: meminfo_value(l), ..acc }
    } else if keyed_line(l, ascii_bytes("MemAvailable:"@)) {
        MemInfoFields { available: meminfo_value(l), ..acc }
    } else if keyed_line(l, ascii_bytes("Buffers:"@)) {
        MemInfoFields { buffers: meminfo_value(l), ..acc }
    } else if keyed_line(l, ascii_bytes("Cached:"@)) {
        MemInfoFields { cached: meminfo_value(l), ..acc }
    } else if keyed_line(l, ascii_bytes("Dirty:"@)) {
        MemInfoFields { dirty: meminfo_value(l), ..acc }
    } else if keyed_line(l, ascii_bytes("Writeback:"@)) {
        MemInfoFields { writeback: meminfo_value(l), ..acc }
    } else if keyed_line(l, ascii_bytes("Active(file):"@)) {
        MemInfoFields { active_file: meminfo_value(l), ..acc }
    } else if keyed_line(l, ascii_bytes("Inactive(file):"@)) {
        MemInfoFields { inactive_file: meminfo_value(l), ..acc }
    } else if keyed_line(l, ascii_bytes("SwapTotal:"@)) {
        MemInfoFields { swap_total: meminfo_value(l), ..acc }
    } else if keyed_line(l, ascii_bytes("SwapFree:"@)) {
        MemInfoFields { swap_free: meminfo_value(l), ..acc }
    } else {
        acc
    }
}

/// The gauges after all lines of a meminfo read.
pub open spec fn meminfo_fold(ls: Seq<Seq<u8>>) -> MemInfoFields
    decreases ls.len(),
{
    if ls.len() == 0 {
        zero_meminfo()
    } else {
        meminfo_step(meminfo_fold(ls.drop_last()), ls.last())
    }
}

/// Parses the meminfo text into its gauges.
pub fn parse_meminfo(meminfo: &[u8]) -> (r: MemInfoFields)
    ensures
        r == meminfo_fold(lines_of(meminfo@)),
{
    let ghost ls = lines_of(meminfo@);
    let lines = split_lines(meminfo);
    proof {
        reveal_strlit("MemTotal:");
        reveal_strlit("MemFree:");
        reveal_strlit("MemAvailable:");
        reveal_strlit("Buffers:");
        reveal_strlit("Cached:");
        reveal_strlit("Dirty:");
        reveal_strlit("Writeback:");
        reveal_strlit("Active(file):");
        reveal_strlit("Inactive(file):");
        reveal_strlit("SwapTotal:");
        reveal_strlit("SwapFree:");
    }
    let names: Vec<Vec<u8>> = vec![
        str_bytes("MemTotal:"),
        str_bytes("MemFree:"),
        str_bytes("MemAvailable:"),
        str_bytes("Buffers:"),
        str_bytes("Cached:"),
        str_bytes("Dirty:"),
        str_bytes("Writeback:"),
        str_bytes("Active(file):"),
        str_bytes("Inactive(file):"),
        str_bytes("SwapTotal:"),
        str_bytes("SwapFree:"),
    ];
    let mut acc = MemInfoFields {
        total: 0,
        free: 0,
        available: 0,
        buffers: 0,
        cached: 0,
        dirty: 0,
        writeback: 0,
        active_file: 0,
        inactive_file: 0,
        swap_total: 0,
        swap_free: 0,
    };
    let mut i: usize = 0;
    proof {
        assert(ls.take(0) =~= Seq::<Seq<u8>>::empty());
    }
    while i < lines.len()
        invariant
            i <= lines@.len(),
            lines@.map_values(|f: Vec<u8>| f@) == ls,
            names@.len() == 11,
            names@[0]@ == ascii_bytes("MemTotal:"@),
            names@[1]@ == ascii_bytes("MemFree:"@),
            names@[2]@ == ascii_bytes("MemAvailable:"@),
            names@[3]@ == ascii_bytes("Buffers:"@),
            names@[4]@ == ascii_bytes("Cached:"@),
            names@[5]@ == ascii_bytes("Dirty:"@),
            names@[6]@ == ascii_bytes("Writeback:"@),
            names@[7]@ == ascii_bytes("Active(file):"@),
            names@[8]@ == ascii_bytes("Inactive(file):"@),
            names@[9]@ == ascii_bytes("SwapTotal:"@),
            names@[10]@ == ascii_bytes("SwapFree:"@),
            acc == meminfo_fold(ls.take(i as int)),
        decreases lines@.len() - i,
    {
        let line = &lines[i];
        proof {
            assert(line@ == ls[i as int]);
            assert(ls.take(i + 1 as int).drop_last() =~= ls.take(i as int));
            assert(ls.take(i + 1 as int).last() == ls[i as int]);
        }
        let toks = split_ws(line.as_slice());
        let ghost gt = ws_tokens(line@);
        if toks.len() >= 2 {
            proof {
                assert(toks@[0]@ == gt[0]);
                assert(toks@[1]@ == gt[1]);
            }
            let value = mul_sat(crate::numfmt::parse_u64(toks[1].as_slice()), 1024);
            let mut which: usize = names.len();
            let mut j: usize = 0;
            while j < names.len()
                invariant
                    j <= names@.len(),
                    toks@.len() >= 2,
                    toks@[0]@ == gt[0],
                    which == names@.len() || (which < j && toks@[0]@ == names@[
                        which as int
                    ]@ && forall|q: int| 0 <= q < which ==> gt[0] != names@[q]@),
                    which == names@.len() ==> forall|q: int| 0 <= q < j ==> gt[0] != names@[q]@,
                decreases names@.len() - j,
            {
                if which == names.len() && bytes_eq(toks[0].as_slice(), names[j].as_slice()) {
                    which = j;
                }
                j += 1;
            }
            if which == 0 {
                acc.total = value;
            } else if which == 1 {
                acc.free = value;
            } else if which == 2 {
                acc.available = value;
            } else if which == 3 {
                acc.buffers = value;
            } else if which == 4 {
                acc.cached = value;
            } else if which == 5 {
                acc.dirty = value;
            } else if which == 6 {
                acc.writeback = value;
            } else if which == 7 {
                acc.active_file = value;
            } else if which == 8 {
                acc.inactive_file = value;
            } else if which == 9 {
                acc.swap_total = value;
            } else if which == 10 {
                acc.swap_free = value;
            }
        }
        i += 1;
    }
    proof {
        assert(ls.take(ls.len() as int) =~= ls);
    }
    acc
}

/// Memory metrics for one sampling interval.  Sizes are bytes; percentages
/// are hundredths of a percent.
#[derive(Clone, Copy, Debug, PartialEq, Eq, Structural)]
pub struct MemoryMetrics {
    /// Total system RAM.
    pub total: u64,
    /// Used memory, excluding buffers and cache.
    pub used: u64,
    /// Available memory.
    pub available: u64,
    /// Buffer memory.
    pub buffers: u64,
    /// File-backed page cache.
    pub cached: u64,
    /// Pages modified but not yet written back.
    pub dirty: u64,
    /// Pages being written back.
    pub writeback: u64,
    /// Active file-backed pages.
    pub active_file: u64,
    /// Inactive file-backed pages.
    pub inactive_file: u64,
    /// Swap size.
    pub swap_total: u64,
    /// Swap in use.
    pub swap_used: u64,
    /// Cgroup memory limit, when one is configured.
    pub cgroup_limit: Option<u64>,
    /// Cgroup memory in use, when the accounting file is present.
    pub cgroup_current: Option<u64>,
    /// Cgroup usage share, when both limit and current are known.
    pub cgroup_usage_percent: Option<u64>,
    /// Cumulative major page faults.
    pub major_page_faults: u64,
    /// Cumulative minor page faults.
    pub minor_page_faults: u64,
    /// Major faults in this interval; absent before a second sample.
    pub major_faults_delta: Option<u64>,
    /// Minor faults in this interval; absent before a second sample.
    pub minor_faults_delta: Option<u64>,
    /// Used share of total memory.
    pub used_percent: u64,
    /// Used share of swap.
    pub swap_percent: u64,
}

/// What one optional accounting file parses to: its trimmed content as a
/// number, or nothing when the file is absent or not a number.
pub open spec fn cg_number(content: Option<Seq<u8>>) -> Option<u64> {
    match content {
        Some(s) => digits_val(trim_spec(s)),
        None => None,
    }
}

/// The v2 limit file: the word `max` means no limit.
pub open spec fn cg_v2_limit(content: Option<Seq<u8>>) -> Option<u64> {
    match content {
        Some(s) => if trim_spec(s) == ascii_bytes("max"@) {
            None
        } else {
            digits_val(trim_spec(s))
        },
        None => None,
    }
}

/// The v1 limit file: an absurdly large value means no limit.
pub open spec fn cg_v1_limit(content: Option<Seq<u8>>) -> Option<u64> {
    match cg_number(content) {
        Some(v) => if v > 1000000000000000 {
            None
        } else {
            Some(v)
        },
        None => None,
    }
}

/// The resolved cgroup limit and current usage: the newer accounting scheme
/// is preferred, the older one consulted only when the newer yields nothing.
pub open spec fn cgroup_memory_spec(
    v2_max: Option<Seq<u8>>,
    v2_current: Option<Seq<u8>>,
    v1_limit: Option<Seq<u8>>,
    v1_usage: Option<Seq<u8>>,
) -> (Option<u64>, Option<u64>) {
    let limit = cg_v2_limit(v2_max);
    let current = cg_number(v2_current);
    if limit is None && current is None {
        (cg_v1_limit(v1_limit), cg_number(v1_usage))
    } else {
        (limit, current)
    }
}

/// Resolves the cgroup memory limit and usage from the two on-disk schema
/// variants, preferring the newer one.
pub fn read_cgroup_memory(
    v2_max: Option<&[u8]>,
    v2_current: Option<&[u8]>,
    v1_limit: Option<&[u8]>,
    v1_usage: Option<&[u8]>,
) -> (r: (Option<u64>, Option<u64>))
    ensures
        r == cgroup_memory_spec(
            match v2_max {
                Some(s) => Some(s@),
                None => None,
            },
            match v2_current {
                Some(s) => Some(s@),
                None => None,
            },
            match v1_limit {
                Some(s) => Some(s@),
                None => None,
            },
            match v1_usage {
                Some(s) => Some(s@),
                None => None,
            },
        ),
{
    proof {
        reveal_strlit("max");
    }
    let max_word = str_bytes("max");
    let limit: Option<u64> = match v2_max {
        Some(s) => {
            let t = trim(s);
            if bytes_eq(t.as_slice(), max_word.as_slice()) {
                None
            } else {
                parse_digits(t.as_slice())
            }
        },
        None => None,
    };
    let current: Option<u64> = match v2_current {
        Some(s) => {
            let t = trim(s);
            parse_digits(t.as_slice())
        },
        None => None,
    };
    if limit.is_none() && current.is_none() {
        let limit_v1: Option<u64> = match v1_limit {
            Some(s) => {
                let t = trim(s);
                match parse_digits(t.as_slice()) {
                    Some(v) => if v > 1000000000000000 {
                        None
                    } else {
                        Some(v)
                    },
                    None => None,
                }
            },
            None => None,
        };
        let current_v1: Option<u64> = match v1_usage {
            Some(s) => {
                let t = trim(s);
                parse_digits(t.as_slice())
            },
            None => None,
        };
        (limit_v1, current_v1)
    } else {
        (limit, current)
    }
}

/// The cumulative major and minor fault counters of a vmstat read: the
/// second token of the last `pgmajfault` and `pgfault` lines.
pub open spec fn page_faults_spec(ls: Seq<Seq<u8>>) -> (u64, u64)
    decreases ls.len(),
{
    if ls.len() == 0 {
        (0u64, 0u64)
    } else {
        let rest = page_faults_spec(ls.drop_last());
        if keyed_line(ls.last(), ascii_bytes("pgmajfault"@)) {
            (tok_u64(ls.last(), 1), rest.1)
        } else if keyed_line(ls.last(), ascii_bytes("pgfault"@)) {
            (rest.0, tok_u64(ls.last(), 1))
        } else {
            rest
        }
    }
}

/// Parses the cumulative page-fault counters from the vmstat text.
pub fn parse_page_faults(vmstat: &[u8]) -> (r: (u64, u64))
    ensures
        r == page_faults_spec(lines_of(vmstat@)),
{
    let ghost ls = lines_of(vmstat@);
    let lines = split_lines(vmstat);
    proof {
        reveal_strlit("pgmajfault");
        reveal_strlit("pgfault");
    }
    let major_name = str_bytes("pgmajfault");
    let minor_name = str_bytes("pgfault");
    let mut major: u64 = 0;
    let mut minor: u64 = 0;
    let mut i: usize = 0;
    proof {
        assert(ls.take(0) =~= Seq::<Seq<u8>>::empty());
    }
    while i < lines.len()
        invariant
            i <= lines@.len(),
            lines@.map_values(|f: Vec<u8>| f@) == ls,
            major_name@ == ascii_bytes("pgmajfault"@),
            minor_name@ == ascii_bytes("pgfault"@),
            (major, minor) == page_faults_spec(ls.take(i as int)),
        decreases lines@.len() - i,
    {
        let line = &lines[i];
        proof {
            assert(line@ == ls[i as int]);
            assert(ls.take(i + 1 as int).drop_last() =~= ls.take(i as int));
            assert(ls.take(i + 1 as int).last() == ls[i as int]);
        }
        let toks = split_ws(line.as_slice());
        let ghost gt = ws_tokens(line@);
        if toks.len() >= 2 {
            proof {
                assert(toks@[0]@ == gt[0]);
                assert(toks@[1]@ == gt[1]);
            }
            let is_major = bytes_eq(toks[0].as_slice(), major_name.as_slice());
            let is_minor = bytes_eq(toks[0].as_slice(), minor_name.as_slice());
            if is_major {
                major = crate::numfmt::parse_u64(toks[1].as_slice());
            } else if is_minor {
                minor = crate::numfmt::parse_u64(toks[1].as_slice());
            }
        }
        i += 1;
    }
    proof {
        assert(ls.take(ls.len() as int) =~= ls);
    }
    (major, minor)
}

/// Counts the kernel-log lines that report an out-of-memory kill.
pub open spec fn oom_count_spec(ls: Seq<Seq<u8>>) -> int
    decreases ls.len(),
{
    if ls.len() == 0 {
        0
    } else {
        oom_count_spec(ls.drop_last()) + (if contains_seq(ls.last(), ascii_bytes("Out of memory"@))
            || contains_seq(ls.last(), ascii_bytes("oom-kill"@)) {
            1int
        } else {
            0int
        })
    }
}

/// Counts out-of-memory kill reports in a kernel-log text.
pub fn count_oom_lines(log: &[u8]) -> (r: u64)
    ensures
        r == oom_count_spec(lines_of(log@)),
{
    let ghost ls = lines_of(log@);
    let lines = split_lines(log);
    proof {
        reveal_strlit("Out of memory");
        reveal_strlit("oom-kill");
    }
    let pat_a = str_bytes("Out of memory");
    let pat_b = str_bytes("oom-kill");
    let mut count: u64 = 0;
    let mut i: usize = 0;
    proof {
        assert(ls.take(0) =~= Seq::<Seq<u8>>::empty());
    }
    while i < lines.len()
        invariant
            i <= lines@.len(),
            lines@.map_values(|f: Vec<u8>| f@) == ls,
            pat_a@ == ascii_bytes("Out of memory"@),
            pat_b@ == ascii_bytes("oom-kill"@),
            count == oom_count_spec(ls.take(i as int)),
            count <= i,
        decreases lines@.len() - i,
    {
        let line = &lines[i];
        proof {
            assert(line@ == ls[i as int]);
            assert(ls.take(i + 1 as int).drop_last() =~= ls.take(i as int));
            assert(ls.take(i + 1 as int).last() == ls[i as int]);
        }
        if contains_sub(line.as_slice(), pat_a.as_slice()) || contains_sub(
            line.as_slice(),
            pat_b.as_slice(),
        ) {
            count = count + 1;
        }
        i += 1;
    }
    proof {
        assert(ls.take(ls.len() as int) =~= ls);
    }
    count
}

/// Memory metrics collector: owns the page-fault counters of the previous
/// sample.
pub struct MemoryCollector {
    /// Cumulative major faults at the previous sample.
    pub prev_major_faults: Option<u64>,
    /// Cumulative minor faults at the previous sample.
    pub prev_minor_faults: Option<u64>,
}

impl Default for MemoryCollector {
    /// A fresh collector.
    fn default() -> (r: MemoryCollector)
        ensures
            r.prev_major_faults is None,
            r.prev_minor_faults is None,
    {
        MemoryCollector::new()
    }
}

/// The used-memory figure: total less free, buffers and cache, floored at
/// zero.
pub open spec fn used_spec(f: MemInfoFields) -> u64 {
    counter_delta(f.total, crate::cpu::clamp64(f.free + f.buffers + f.cached))
}

impl MemoryCollector {
    /// A fresh collector holds no prior state: the first collection reports
    /// no fault deltas.
    pub fn new() -> (r: MemoryCollector)
        ensures
            r.prev_major_faults is None,
            r.prev_minor_faults is None,
    {
        MemoryCollector { prev_major_faults: None, prev_minor_faults: None }
    }

    /// Turns one read of the meminfo and vmstat texts, with the resolved
    /// cgroup figures, into memory metrics, advancing the prior-sample
    /// state.
    pub fn collect(
        &mut self,
        meminfo: &[u8],
        vmstat: &[u8],
        cgroup_limit: Option<u64>,
        cgroup_current: Option<u64>,
    ) -> (r: MemoryMetrics)
        ensures
            ({
                let f = meminfo_fold(lines_of(meminfo@));
                let faults = page_faults_spec(lines_of(vmstat@));
                let used = used_spec(f);
                let swap_used = counter_delta(f.swap_total, f.swap_free);
                &&& r.total == f.total
                &&& r.used == used
                &&& r.available == f.available
                &&& r.buffers == f.buffers
                &&& r.cached == f.cached
                &&& r.dirty == f.dirty
                &&& r.writeback == f.writeback
                &&& r.active_file == f.active_file
                &&& r.inactive_file == f.inactive_file
                &&& r.swap_total == f.swap_total
                &&& r.swap_used == swap_used
                &&& r.cgroup_limit == cgroup_limit
                &&& r.cgroup_current == cgroup_current
                &&& r.cgroup_usage_percent == (match (cgroup_limit, cgroup_current) {
                    (Some(limit), Some(current)) => if limit > 0 {
                        Some(pct_centi_spec(current, limit))
                    } else {
                        None::<u64>
                    },
                    _ => None::<u64>,
                })
                &&& r.major_page_faults == faults.0
                &&& r.minor_page_faults == faults.1
                &&& r.major_faults_delta == (match old(self).prev_major_faults {
                    Some(p) => Some(counter_delta(faults.0, p)),
                    None => None::<u64>,
                })
                &&& r.minor_faults_delta == (match old(self).prev_minor_faults {
                    Some(p) => Some(counter_delta(faults.1, p)),
                    None => None::<u64>,
                })
                &&& r.used_percent == pct_centi_spec(used, f.total)
                &&& r.swap_percent == pct_centi_spec(swap_used, f.swap_total)
                &&& final(self).prev_major_faults == Some(faults.0)
                &&& final(self).prev_minor_faults == Some(faults.1)
            }),
    {
        let f = parse_meminfo(meminfo);
        let consumed = f.free.saturating_add(f.buffers).saturating_add(f.cached);
        let used = delta_u64(f.total, consumed);
        let swap_used = delta_u64(f.swap_total, f.swap_free);

        let cgroup_usage_percent = match (cgroup_limit, cgroup_current) {
            (Some(limit), Some(current)) => if limit > 0 {
                Some(pct_centi(current, limit))
            } else {
                None
            },
            _ => None,
        };

        let (major, minor) = parse_page_faults(vmstat);
        let major_delta = match self.prev_major_faults {
            Some(p) => Some(delta_u64(major, p)),
            None => None,
        };
        let minor_delta = match self.prev_minor_faults {
            Some(p) => Some(delta_u64(minor, p)),
            None => None,
        };
        self.prev_major_faults = Some(major);
        self.prev_minor_faults = Some(minor);

        let used_percent = pct_centi(used, f.total);
        let swap_percent = pct_centi(swap_used, f.swap_total);

        MemoryMetrics {
            total: f.total,
            used,
            available: f.available,
            buffers: f.buffers,
            cached: f.cached,
            dirty: f.dirty,
            writeback: f.writeback,
            active_file: f.active_file,
            inactive_file: f.inactive_file,
            swap_total: f.swap_total,
            swap_used,
            cgroup_limit,
            cgroup_current,
            cgroup_usage_percent,
            major_page_faults: major,
            minor_page_faults: minor,
            major_faults_delta: major_delta,
            minor_faults_delta: minor_delta,
            used_percent,
            swap_percent,
        }
    }
}

} // verus!
