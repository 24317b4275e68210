//! CPU metrics: utilization from cumulative tick counters, per-core state
//! tracking, context-switch and interrupt deltas, and load averages.
//!
//! All percentages are fixed-point values in hundredths of a percent and
//! load averages in hundredths, so that two decimal places survive.

use vstd::prelude::*;
use crate::bytes::{ascii_bytes, has_prefix, lines_of, split_lines, split_ws, starts_with, str_bytes, ws_tokens};
use crate::numfmt::{parse_fixed, parse_fixed_spec, parse_u64, parse_u64_spec};
use crate::rates::{pct_centi, pct_centi_spec};
use crate::statemap::{lookup_u64, sorted_insert, sorted_insert_spec, sorted_keys};
use crate::{counter_delta, delta_u64};

verus! {

/// Raw cumulative CPU time counters from one line of the kernel's stat file.
#[derive(Clone, Copy, Debug, PartialEq, Eq, Structural)]
pub struct CpuTimes {
    pub user: u64,
    pub nice: u64,
    pub system: u64,
    pub idle: u64,
    pub iowait: u64,
    pub irq: u64,
    pub softirq: u64,
    pub steal: u64,
    pub guest: u64,
    pub guest_nice: u64,
}

/// The exact sum of the eight accounted time fields.
pub open spec fn total_int(t: CpuTimes) -> int {
    t.user + t.nice + t.system + t.idle + t.iowait + t.irq + t.softirq + t.steal
}

/// Clamps an integer into `u64`.
pub open spec fn clamp64(x: int) -> u64 {
    if x > u64::MAX {
        u64::MAX
    } else if x < 0 {
        0u64
    } else {
        x as u64
    }
}

impl CpuTimes {
    /// Total accounted time: the eight time fields summed, saturating.
    pub fn total(&self) -> (r: u64)
        ensures
            r == clamp64(total_int(*self)),
    {
        self.user.saturating_add(self.nice).saturating_add(self.system).saturating_add(
            self.idle,
        ).saturating_add(self.iowait).saturating_add(self.irq).saturating_add(
            self.softirq,
        ).saturating_add(self.steal)
    }

    /// Time not spent idle or waiting on I/O, saturating at zero.
    pub fn active(&self) -> (r: u64)
        ensures
            r == clamp64(clamp64(total_int(*self)) - self.idle - self.iowait),
    {
        self.total().saturating_sub(self.idle).saturating_sub(self.iowait)
    }
}

/// The all-zero counter set, the state of a line that never appeared.
pub open spec fn zero_times() -> CpuTimes {
    CpuTimes {
        user: 0,
        nice: 0,
        system: 0,
        idle: 0,
        iowait: 0,
        irq: 0,
        softirq: 0,
        steal: 0,
        guest: 0,
        guest_nice: 0,
    }
}

/// Token `j` of a line parsed as a counter, zero when missing or malformed.
pub open spec fn tok_u64(line: Seq<u8>, j: int) -> u64 {
    if ws_tokens(line).len() > j {
        parse_u64_spec(ws_tokens(line)[j])
    } else {
        0u64
    }
}

/// The counters of one stat line: the first token names the line, the next
/// ten are the time fields in kernel order.
pub open spec fn cpu_line_spec(line: Seq<u8>) -> CpuTimes {
    CpuTimes {
        user: tok_u64(line, 1),
        nice: tok_u64(line, 2),
        system: tok_u64(line, 3),
        idle: tok_u64(line, 4),
        iowait: tok_u64(line, 5),
        irq: tok_u64(line, 6),
        softirq: tok_u64(line, 7),
        steal: tok_u64(line, 8),
        guest: tok_u64(line, 9),
        guest_nice: tok_u64(line, 10),
    }
}

/// Parses one `cpu`/`cpuN` stat line; a missing or malformed field is zero.
pub fn parse_cpu_line(line: &[u8]) -> (r: CpuTimes)
    ensures
        r == cpu_line_spec(line@),
{
    let toks = split_ws(line);
    let ghost gt = ws_tokens(line@);
    CpuTimes {
        user: tok_at(&toks, 1, Ghost(gt)),
        nice: tok_at(&toks, 2, Ghost(gt)),
        system: tok_at(&toks, 3, Ghost(gt)),
        idle: tok_at(&toks, 4, Ghost(gt)),
        iowait: tok_at(&toks, 5, Ghost(gt)),
        irq: tok_at(&toks, 6, Ghost(gt)),
        softirq: tok_at(&toks, 7, Ghost(gt)),
        steal: tok_at(&toks, 8, Ghost(gt)),
        guest: tok_at(&toks, 9, Ghost(gt)),
        guest_nice: tok_at(&toks, 10, Ghost(gt)),
    }
}

/// Parses token `j`, zero when missing.
fn tok_at(toks: &Vec<Vec<u8>>, j: usize, Ghost(gt): Ghost<Seq<Seq<u8>>>) -> (r: u64)
    requires
        toks@.map_values(|f: Vec<u8>| f@) == gt,
    ensures
        r == (if gt.len() > j {
            parse_u64_spec(gt[j as int])
        } else {
            0u64
        }),
{
    if toks.len() > j {
        proof {
            assert(toks@[j as int]@ == gt[j as int]);
        }
        parse_u64(toks[j].as_slice())
    } else {
        0
    }
}

/// Per-core utilization for one sampling interval, in hundredths of a
/// percent.
#[derive(Clone, Copy, Debug, PartialEq, Eq, Structural)]
pub struct CoreUtilization {
    pub core_id: u64,
    pub utilization_percent: u64,
    pub user_percent: u64,
    pub system_percent: u64,
    pub iowait_percent: u64,
}

/// Aggregated CPU metrics for one sampling interval.
#[derive(Clone, Debug)]
pub struct CpuMetrics {
    /// Overall utilization, hundredths of a percent.
    pub total_utilization: u64,
    /// User-space share, hundredths of a percent.
    pub user_percent: u64,
    /// Kernel share, hundredths of a percent.
    pub system_percent: u64,
    /// I/O-wait share, hundredths of a percent.
    pub iowait_percent: u64,
    /// Per-core utilization, ascending by core id.
    pub per_core: Vec<CoreUtilization>,
    /// Load average over 1 minute, in hundredths.
    pub load_avg_1: u64,
    /// Load average over 5 minutes, in hundredths.
    pub load_avg_5: u64,
    /// Load average over 15 minutes, in hundredths.
    pub load_avg_15: u64,
    /// Cumulative context switches.
    pub context_switches: u64,
    /// Context switches in this interval; absent before a second sample.
    pub context_switches_delta: Option<u64>,
    /// Cumulative interrupts.
    pub interrupts: u64,
    /// Interrupts in this interval; absent before a second sample.
    pub interrupts_delta: Option<u64>,
    /// Number of cores seen in this sample.
    pub core_count: usize,
}

/// Utilization percentages over one interval, from two counter readings:
/// overall, user, system and I/O wait, each in hundredths of a percent, all
/// zero when no total time elapsed.
pub open spec fn util_spec(prev: CpuTimes, curr: CpuTimes) -> (u64, u64, u64, u64) {
    let td = counter_delta(clamp64(total_int(curr)), clamp64(total_int(prev)));
    if td == 0 {
        (0u64, 0u64, 0u64, 0u64)
    } else {
        let idle_d = counter_delta(
            clamp64(curr.idle + curr.iowait),
            clamp64(prev.idle + prev.iowait),
        );
        (
            pct_centi_spec(counter_delta(td, idle_d), td),
            pct_centi_spec(counter_delta(curr.user, prev.user), td),
            pct_centi_spec(counter_delta(curr.system, prev.system), td),
            pct_centi_spec(counter_delta(curr.iowait, prev.iowait), td),
        )
    }
}

/// Computes interval utilization percentages from two counter readings.
pub fn calculate_utilization(prev: &CpuTimes, curr: &CpuTimes) -> (r: (u64, u64, u64, u64))
    ensures
        r == util_spec(*prev, *curr),
{
    let td = delta_u64(curr.total(), prev.total());
    if td == 0 {
        return (0, 0, 0, 0);
    }
    let ci = curr.idle.saturating_add(curr.iowait);
    let pi = prev.idle.saturating_add(prev.iowait);
    let idle_d = delta_u64(ci, pi);
    (
        pct_centi(delta_u64(td, idle_d), td),
        pct_centi(delta_u64(curr.user, prev.user), td),
        pct_centi(delta_u64(curr.system, prev.system), td),
        pct_centi(delta_u64(curr.iowait, prev.iowait), td),
    )
}

/// The aggregate `cpu ` line of a stat read: the last one present, or zeros.
pub open spec fn stat_total_of(ls: Seq<Seq<u8>>) -> CpuTimes
    decreases ls.len(),
{
    if ls.len() == 0 {
        zero_times()
    } else if has_prefix(ls.last(), ascii_bytes("cpu "@)) {
        cpu_line_spec(ls.last())
    } else {
        stat_total_of(ls.drop_last())
    }
}

/// Whether a line is a per-core `cpuN` line.
pub open spec fn is_core_line(l: Seq<u8>) -> bool {
    has_prefix(l, ascii_bytes("cpu"@)) && !has_prefix(l, ascii_bytes("cpu "@))
}

/// The core id of a `cpuN` line: the first token with `cpu` stripped.
pub open spec fn core_id_of(l: Seq<u8>) -> u64 {
    if ws_tokens(l).len() > 0 && ws_tokens(l)[0].len() >= 3 {
        parse_u64_spec(ws_tokens(l)[0].skip(3))
    } else {
        0u64
    }
}

/// The per-core counters of a stat read, keyed and ordered by core id; a
/// repeated id keeps the later line.
pub open spec fn stat_cores_of(ls: Seq<Seq<u8>>) -> Seq<(u64, CpuTimes)>
    decreases ls.len(),
{
    if ls.len() == 0 {
        Seq::empty()
    } else if is_core_line(ls.last()) {
        sorted_insert_spec(stat_cores_of(ls.drop_last()), core_id_of(ls.last()), cpu_line_spec(ls.last()))
    } else {
        stat_cores_of(ls.drop_last())
    }
}

/// The value of the second token of the last line starting with `name`, or
/// zero if no such line occurs.
pub open spec fn stat_counter_of(ls: Seq<Seq<u8>>, name: Seq<u8>) -> u64
    decreases ls.len(),
{
    if ls.len() == 0 {
        0u64
    } else if has_prefix(ls.last(), name) {
        tok_u64(ls.last(), 1)
    } else {
        stat_counter_of(ls.drop_last(), name)
    }
}

/// Load averages parsed from the loadavg read: the first three tokens as
/// two-decimal fixed-point values, zero when missing or malformed.
pub open spec fn load_avg_spec(s: Seq<u8>) -> (u64, u64, u64) {
    let toks = ws_tokens(s);
    (
        if toks.len() > 0 {
            parse_fixed_spec(toks[0], 2)
        } else {
            0u64
        },
        if toks.len() > 1 {
            parse_fixed_spec(toks[1], 2)
        } else {
            0u64
        },
        if toks.len() > 2 {
            parse_fixed_spec(toks[2], 2)
        } else {
            0u64
        },
    )
}

/// Parses the loadavg read.
pub fn parse_load_average(s: &[u8]) -> (r: (u64, u64, u64))
    ensures
        r == load_avg_spec(s@),
{
    let toks = split_ws(s);
    let a = if toks.len() > 0 {
        parse_fixed(toks[0].as_slice(), 2)
    } else {
        0
    };
    let b = if toks.len() > 1 {
        parse_fixed(toks[1].as_slice(), 2)
    } else {
        0
    };
    let c = if toks.len() > 2 {
        parse_fixed(toks[2].as_slice(), 2)
    } else {
        0
    };
    (a, b, c)
}

/// The utilization entry for one core, against the prior per-core state: a
/// core with no prior entry reports zero rates for this tick.
pub open spec fn core_util_spec(prev: Seq<(u64, CpuTimes)>, id: u64, times: CpuTimes) -> CoreUtilization {
    let u = match lookup_u64(prev, id) {
        Some(p) => util_spec(p, times),
        None => (0u64, 0u64, 0u64, 0u64),
    };
    CoreUtilization {
        core_id: id,
        utilization_percent: u.0,
        user_percent: u.1,
        system_percent: u.2,
        iowait_percent: u.3,
    }
}

/// The per-core state after a read holds exactly the cores of that read: a
/// hot-unplugged core leaves no entry, and a core first seen this tick has
/// no prior entry, so its utilization reports zero for this tick only.
pub proof fn lemma_cores_track_current(ls: Seq<Seq<u8>>, id: u64)
    ensures
        (lookup_u64(stat_cores_of(ls), id) is Some) <==> (exists|i: int|
            0 <= i < ls.len() && is_core_line(#[trigger] ls[i]) && core_id_of(ls[i]) == id),
    decreases ls.len(),
{
    if ls.len() > 0 {
        lemma_cores_track_current(ls.drop_last(), id);
        if is_core_line(ls.last()) {
            crate::statemap::lemma_sorted_insert_lookup(
                stat_cores_of(ls.drop_last()),
                core_id_of(ls.last()),
                cpu_line_spec(ls.last()),
                id,
            );
        }
        if lookup_u64(stat_cores_of(ls), id) is Some {
            if is_core_line(ls.last()) && core_id_of(ls.last()) == id {
                assert(is_core_line(ls[ls.len() - 1]));
            } else {
                let i = choose|i: int|
                    0 <= i < ls.drop_last().len() && is_core_line(#[trigger] ls.drop_last()[i])
                        && core_id_of(ls.drop_last()[i]) == id;
                assert(is_core_line(ls[i]) && core_id_of(ls[i]) == id);
            }
        } else {
            assert forall|i: int|
                0 <= i < ls.len() implies !(is_core_line(#[trigger] ls[i]) && core_id_of(ls[i])
                == id) by {
                if i < ls.len() - 1 {
                    assert(ls.drop_last()[i] == ls[i]);
                }
            }
        }
    }
}

impl Default for CpuCollector {
    /// A fresh collector.
    fn default() -> (r: CpuCollector)
        ensures
            r.wf(),
            r.prev_total_times is None,
            r.prev_core_times@.len() == 0,
            r.prev_context_switches is None,
            r.prev_interrupts is None,
    {
        CpuCollector::new()
    }
}

/// The stat line kinds are told apart by their first bytes, so at most one
/// classification applies to a line.
proof fn lemma_stat_prefixes(l: Seq<u8>)
    ensures
        !(has_prefix(l, ascii_bytes("cpu"@)) && has_prefix(l, ascii_bytes("ctxt "@))),
        !(has_prefix(l, ascii_bytes("cpu"@)) && has_prefix(l, ascii_bytes("intr "@))),
        !(has_prefix(l, ascii_bytes("cpu "@)) && has_prefix(l, ascii_bytes("ctxt "@))),
        !(has_prefix(l, ascii_bytes("cpu "@)) && has_prefix(l, ascii_bytes("intr "@))),
        !(has_prefix(l, ascii_bytes("ctxt "@)) && has_prefix(l, ascii_bytes("intr "@))),
{
    reveal_strlit("cpu ");
    reveal_strlit("cpu");
    reveal_strlit("ctxt ");
    reveal_strlit("intr ");
    if has_prefix(l, ascii_bytes("cpu"@)) {
        assert(l[1] == l.take(3)[1]);
        assert(l[1] == 112u8);
    }
    if has_prefix(l, ascii_bytes("cpu "@)) {
        assert(l[1] == l.take(4)[1]);
        assert(l[1] == 112u8);
    }
    if has_prefix(l, ascii_bytes("ctxt "@)) {
        assert(l[1] == l.take(5)[1]);
        assert(l[1] == 116u8);
    }
    if has_prefix(l, ascii_bytes("intr "@)) {
        assert(l[1] == l.take(5)[1]);
        assert(l[1] == 110u8);
    }
}

/// CPU metrics collector: owns the previous sample's counters.
pub struct CpuCollector {
    /// The aggregate counters of the previous sample.
    pub prev_total_times: Option<CpuTimes>,
    /// Per-core counters of the previous sample, ascending by core id.
    pub prev_core_times: Vec<(u64, CpuTimes)>,
    /// Cumulative context switches at the previous sample.
    pub prev_context_switches: Option<u64>,
    /// Cumulative interrupts at the previous sample.
    pub prev_interrupts: Option<u64>,
}

impl CpuCollector {
    /// Sorted per-core keys, the collector's only invariant.
    pub open spec fn wf(&self) -> bool {
        sorted_keys(self.prev_core_times@)
    }

    /// A fresh collector holds no prior state: the first collection reports
    /// zero rates.
    pub fn new() -> (r: CpuCollector)
        ensures
            r.wf(),
            r.prev_total_times is None,
            r.prev_core_times@.len() == 0,
            r.prev_context_switches is None,
            r.prev_interrupts is None,
    {
        CpuCollector {
            prev_total_times: None,
            prev_core_times: Vec::new(),
            prev_context_switches: None,
            prev_interrupts: None,
        }
    }

    /// Turns one read of the kernel stat and loadavg text into CPU metrics,
    /// advancing the prior-sample state.
    ///
    /// Utilization percentages cover the interval between the previous read
    /// and this one; the first call reports zeros.  A core absent from this
    /// read yields no entry; a core without a prior entry yields zeros.
    pub fn collect(&mut self, stat: &[u8], loadavg: &[u8]) -> (r: CpuMetrics)
        requires
            old(self).wf(),
        ensures
            final(self).wf(),
            ({
                let ls = lines_of(stat@);
                let cur_total = stat_total_of(ls);
                let cur_cores = stat_cores_of(ls);
                let ctxt = stat_counter_of(ls, ascii_bytes("ctxt "@));
                let intr = stat_counter_of(ls, ascii_bytes("intr "@));
                &&& final(self).prev_total_times == Some(cur_total)
                &&& final(self).prev_core_times@ == cur_cores
                &&& final(self).prev_context_switches == Some(ctxt)
                &&& final(self).prev_interrupts == Some(intr)
                &&& (r.total_utilization, r.user_percent, r.system_percent, r.iowait_percent)
                    == (match old(self).prev_total_times {
                    Some(p) => util_spec(p, cur_total),
                    None => (0u64, 0u64, 0u64, 0u64),
                })
                &&& r.per_core@ == Seq::new(
                    cur_cores.len(),
                    |i: int| core_util_spec(old(self).prev_core_times@, cur_cores[i].0, cur_cores[i].1),
                )
                &&& r.context_switches == ctxt
                &&& r.context_switches_delta == (match old(self).prev_context_switches {
                    Some(p) => Some(counter_delta(ctxt, p)),
                    None => None::<u64>,
                })
                &&& r.interrupts == intr
                &&& r.interrupts_delta == (match old(self).prev_interrupts {
                    Some(p) => Some(counter_delta(intr, p)),
                    None => None::<u64>,
                })
                &&& (r.load_avg_1, r.load_avg_5, r.load_avg_15) == load_avg_spec(loadavg@)
                &&& r.core_count == cur_cores.len()
            }),
    {
        let ghost ls = lines_of(stat@);
        let lines = split_lines(stat);
        proof {
            reveal_strlit("cpu ");
            reveal_strlit("cpu");
            reveal_strlit("ctxt ");
            reveal_strlit("intr ");
        }
        let cpu_sp = str_bytes("cpu ");
        let cpu_pre = str_bytes("cpu");
        let ctxt_pre = str_bytes("ctxt ");
        let intr_pre = str_bytes("intr ");

        let mut total_times = CpuTimes {
            user: 0,
            nice: 0,
            system: 0,
            idle: 0,
            iowait: 0,
            irq: 0,
            softirq: 0,
            steal: 0,
            guest: 0,
            guest_nice: 0,
        };
        let mut cores: Vec<(u64, CpuTimes)> = Vec::new();
        let mut ctxt: u64 = 0;
        let mut intr: u64 = 0;
        let mut i: usize = 0;
        proof {
            assert(ls.take(0) =~= Seq::<Seq<u8>>::empty());
        }
        while i < lines.len()
            invariant
                i <= lines@.len(),
                lines@.map_values(|f: Vec<u8>| f@) == ls,
                cpu_sp@ == ascii_bytes("cpu "@),
                cpu_pre@ == ascii_bytes("cpu"@),
                ctxt_pre@ == ascii_bytes("ctxt "@),
                intr_pre@ == ascii_bytes("intr "@),
                total_times == stat_total_of(ls.take(i as int)),
                cores@ == stat_cores_of(ls.take(i as int)),
                sorted_keys(cores@),
                ctxt == stat_counter_of(ls.take(i as int), ascii_bytes("ctxt "@)),
                intr == stat_counter_of(ls.take(i as int), ascii_bytes("intr "@)),
            decreases lines@.len() - i,
        {
            let line = &lines[i];
            proof {
                lemma_stat_prefixes(line@);
                assert(line@ == ls[i as int]);
                assert(ls.take(i + 1 as int).drop_last() =~= ls.take(i as int));
                assert(ls.take(i + 1 as int).last() == ls[i as int]);
            }
            if starts_with(line.as_slice(), cpu_sp.as_slice()) {
                total_times = parse_cpu_line(line.as_slice());
            } else if starts_with(line.as_slice(), cpu_pre.as_slice()) {
                let toks = split_ws(line.as_slice());
                let id: u64 = if toks.len() > 0 {
                    proof {
                        reveal_strlit("cpu");
                        assert(toks@[0]@ == ws_tokens(line@)[0]);
                        assert(ascii_bytes("cpu"@).len() == 3);
                    }
                    if toks[0].len() >= 3 {
                        let idb = crate::bytes::subrange_vec(toks[0].as_slice(), 3, toks[0].len());
                        proof {
                            assert(idb@ =~= ws_tokens(line@)[0].skip(3));
                        }
                        parse_u64(idb.as_slice())
                    } else {
                        0
                    }
                } else {
                    0
                };
                let times = parse_cpu_line(line.as_slice());
                sorted_insert(&mut cores, id, times);
            } else if starts_with(line.as_slice(), ctxt_pre.as_slice()) {
                let toks = split_ws(line.as_slice());
                ctxt = tok_at(&toks, 1, Ghost(ws_tokens(line@)));
            } else if starts_with(line.as_slice(), intr_pre.as_slice()) {
                let toks = split_ws(line.as_slice());
                intr = tok_at(&toks, 1, Ghost(ws_tokens(line@)));
            }
            i += 1;
        }
        proof {
            assert(ls.take(ls.len() as int) =~= ls);
        }

        let (total_util, user_pct, sys_pct, iowait_pct) = match &self.prev_total_times {
            Some(prev) => calculate_utilization(prev, &total_times),
            None => (0, 0, 0, 0),
        };

        let mut per_core: Vec<CoreUtilization> = Vec::new();
        let mut j: usize = 0;
        let ghost cur_cores = stat_cores_of(ls);
        while j < cores.len()
            invariant
                j <= cores@.len(),
                cores@ == cur_cores,
                per_core@ =~= Seq::new(
                    j as nat,
                    |i: int| core_util_spec(self.prev_core_times@, cur_cores[i].0, cur_cores[i].1),
                ),
            decreases cores@.len() - j,
        {
            let id = cores[j].0;
            let times = cores[j].1;
            let u = match crate::statemap::sorted_get(&self.prev_core_times, id) {
                Some(p) => calculate_utilization(p, &times),
                None => (0, 0, 0, 0),
            };
            per_core.push(
                CoreUtilization {
                    core_id: id,
                    utilization_percent: u.0,
                    user_percent: u.1,
                    system_percent: u.2,
                    iowait_percent: u.3,
                },
            );
            proof {
                assert(per_core@ =~= Seq::new(
                    (j + 1) as nat,
                    |i: int| core_util_spec(self.prev_core_times@, cur_cores[i].0, cur_cores[i].1),
                ));
            }
            j += 1;
        }

        let ctx_delta = match self.prev_context_switches {
            Some(prev) => Some(delta_u64(ctxt, prev)),
            None => None,
        };
        let intr_delta = match self.prev_interrupts {
            Some(prev) => Some(delta_u64(intr, prev)),
            None => None,
        };

        let load_avg = parse_load_average(loadavg);
        let (load_avg_1, load_avg_5, load_avg_15) = load_avg;
        let core_count = cores.len();

        self.prev_total_times = Some(total_times);
        self.prev_core_times = cores;
        self.prev_context_switches = Some(ctxt);
        self.prev_interrupts = Some(intr);

        CpuMetrics {
            total_utilization: total_util,
            user_percent: user_pct,
            system_percent: sys_pct,
            iowait_percent: iowait_pct,
            per_core,
            load_avg_1,
            load_avg_5,
            load_avg_15,
            context_switches: ctxt,
            context_switches_delta: ctx_delta,
            interrupts: intr,
            interrupts_delta: intr_delta,
            core_count,
        }
    }
}

} // verus!
