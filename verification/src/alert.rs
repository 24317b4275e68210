//! Threshold alerting: each metric family is held against its warning and
//! critical cutoffs, critical first, and a firing is suppressed while the
//! same alert key fired within the cooldown window.
//!
//! The cooldown is a sliding window, not a rising-edge detector: a
//! sustained breach fires again once the window has passed.

use vstd::prelude::*;
use crate::bytes::{ascii_bytes, str_bytes};
use crate::cpu::CpuMetrics;
use crate::disk::{DiskMetrics, DiskStats};
use crate::memory::MemoryMetrics;
use crate::network::NetworkMetrics;
use crate::numfmt::{dec_digits, fmt_fixed, fmt_fixed_spec, fmt_u64};
use crate::process::ProcessMetrics;
use crate::statemap::{lookup_seq, name_entries, upsert_name, upsert_seq, lemma_upsert_projects, lemma_lookup_projects};
use crate::counter_delta;

verus! {

/// Alert severity.
#[derive(Clone, Copy, Debug, PartialEq, Eq, Structural)]
pub enum Severity {
    Warning,
    Critical,
}

/// An alert: produced once, never mutated.
#[derive(Clone, Debug)]
pub struct Alert {
    /// Wall-clock milliseconds at which it fired.
    pub timestamp_ms: u64,
    /// Severity tier.
    pub severity: Severity,
    /// Metric family label.
    pub category: Vec<u8>,
    /// Human-readable message.
    pub message: Vec<u8>,
}

/// Alert cutoffs.  Percentages are hundredths of a percent; the queue
/// depths are hundredths; the process cutoffs are bytes.
#[derive(Clone, Copy, Debug, PartialEq, Eq)]
pub struct AlertThresholds {
    pub cpu_warn: u64,
    pub cpu_crit: u64,
    pub memory_warn: u64,
    pub memory_crit: u64,
    pub cgroup_warn: u64,
    pub cgroup_crit: u64,
    pub disk_util_warn: u64,
    pub disk_util_crit: u64,
    pub disk_queue_warn: u64,
    pub disk_queue_crit: u64,
    pub iowait_warn: u64,
    pub iowait_crit: u64,
    pub process_rss_warn: Option<u64>,
    pub process_rss_crit: Option<u64>,
}

impl Default for AlertThresholds {
    /// The stock cutoffs.
    fn default() -> (r: AlertThresholds)
        ensures
            r == default_thresholds(),
    {
        AlertThresholds {
            cpu_warn: 8000,
            cpu_crit: 9500,
            memory_warn: 8000,
            memory_crit: 9500,
            cgroup_warn: 8500,
            cgroup_crit: 9500,
            disk_util_warn: 7000,
            disk_util_crit: 9000,
            disk_queue_warn: 500,
            disk_queue_crit: 2000,
            iowait_warn: 3000,
            iowait_crit: 6000,
            process_rss_warn: None,
            process_rss_crit: None,
        }
    }
}

/// The stock cutoffs.
pub open spec fn default_thresholds() -> AlertThresholds {
    AlertThresholds {
        cpu_warn: 8000,
        cpu_crit: 9500,
        memory_warn: 8000,
        memory_crit: 9500,
        cgroup_warn: 8500,
        cgroup_crit: 9500,
        disk_util_warn: 7000,
        disk_util_crit: 9000,
        disk_queue_warn: 500,
        disk_queue_crit: 2000,
        iowait_warn: 3000,
        iowait_crit: 6000,
        process_rss_warn: None,
        process_rss_crit: None,
    }
}

/// A candidate firing before deduplication: key, severity, category label
/// and message.
pub struct Candidate {
    pub key: Vec<u8>,
    pub severity: Severity,
    pub category: Vec<u8>,
    pub message: Vec<u8>,
}

/// The ghost image of a candidate.
pub open spec fn cand_entry(c: Candidate) -> (Seq<u8>, Severity, Seq<u8>, Seq<u8>) {
    (c.key@, c.severity, c.category@, c.message@)
}

pub open spec fn cand_entries(cs: Seq<Candidate>) -> Seq<(Seq<u8>, Severity, Seq<u8>, Seq<u8>)> {
    cs.map_values(|c: Candidate| cand_entry(c))
}

/// A hundredths value rounded to tenths, as the messages quote one decimal
/// place.
pub open spec fn deci_round(c: u64) -> u64 {
    ((if c + 5 > u64::MAX {
        u64::MAX
    } else {
        (c + 5) as u64
    }) / 10) as u64
}

/// The message text for a percentage condition.
pub open spec fn pct_message(prefix: Seq<char>, value_centi: u64) -> Seq<u8> {
    ascii_bytes(prefix) + fmt_fixed_spec(deci_round(value_centi) as nat, 1) + ascii_bytes("%"@)
}

/// The message text for the swap condition.
pub open spec fn swap_message(pct_centi: u64, used: u64) -> Seq<u8> {
    ascii_bytes("Swap in use: "@) + fmt_fixed_spec(deci_round(pct_centi) as nat, 1) + ascii_bytes(
        "% ("@,
    ) + dec_digits(used as nat) + ascii_bytes(" bytes)"@)
}

/// The message text for a per-device percentage condition.
pub open spec fn disk_message(dev: Seq<u8>, tier: Seq<char>, value_centi: u64) -> Seq<u8> {
    ascii_bytes("Disk "@) + dev + ascii_bytes(tier) + fmt_fixed_spec(
        deci_round(value_centi) as nat,
        1,
    ) + ascii_bytes("%"@)
}

/// The message text for a per-device queue condition.
pub open spec fn queue_message(dev: Seq<u8>, tier: Seq<char>, value_centi: u64) -> Seq<u8> {
    ascii_bytes("Disk "@) + dev + ascii_bytes(tier) + fmt_fixed_spec(
        deci_round(value_centi) as nat,
        1,
    )
}

/// The message text for a process memory condition.
pub open spec fn rss_message(name: Seq<u8>, tier: Seq<char>, rss: u64) -> Seq<u8> {
    ascii_bytes("Process "@) + name + ascii_bytes(tier) + dec_digits(rss as nat) + ascii_bytes(
        " bytes"@,
    )
}

/// A per-device alert key: the family, the device name and the tier.
pub open spec fn disk_key(dev: Seq<u8>, suffix: Seq<char>) -> Seq<u8> {
    ascii_bytes("disk_"@) + dev + ascii_bytes(suffix)
}

/// The candidate firings of one tier pair: the critical cutoff is checked
/// first and shadows the warning.
pub open spec fn tier_cands(
    value: u64,
    warn: u64,
    crit: u64,
    key_crit: Seq<u8>,
    key_warn: Seq<u8>,
    sev_cat: Seq<u8>,
    msg_crit: Seq<u8>,
    msg_warn: Seq<u8>,
) -> Seq<(Seq<u8>, Severity, Seq<u8>, Seq<u8>)> {
    if value >= crit {
        seq![(key_crit, Severity::Critical, sev_cat, msg_crit)]
    } else if value >= warn {
        seq![(key_warn, Severity::Warning, sev_cat, msg_warn)]
    } else {
        Seq::empty()
    }
}

/// The candidate firings of one disk: utilization tier, then queue tier.
pub open spec fn disk_cands_one(th: AlertThresholds, d: DiskStats) -> Seq<
    (Seq<u8>, Severity, Seq<u8>, Seq<u8>),
> {
    tier_cands(
        d.utilization_percent,
        th.disk_util_warn,
        th.disk_util_crit,
        disk_key(d.device@, "_crit"@),
        disk_key(d.device@, "_warn"@),
        ascii_bytes("Disk"@),
        disk_message(d.device@, " critical: "@, d.utilization_percent),
        disk_message(d.device@, " warning: "@, d.utilization_percent),
    ) + tier_cands(
        d.queue_depth,
        th.disk_queue_warn,
        th.disk_queue_crit,
        disk_key(d.device@, "_queue_crit"@),
        disk_key(d.device@, "_queue_warn"@),
        ascii_bytes("Disk"@),
        queue_message(d.device@, " queue critical: "@, d.queue_depth),
        queue_message(d.device@, " queue warning: "@, d.queue_depth),
    )
}

/// The candidate firings of the disk list, in device order.
pub open spec fn disk_cands(th: AlertThresholds, ds: Seq<DiskStats>) -> Seq<
    (Seq<u8>, Severity, Seq<u8>, Seq<u8>),
>
    decreases ds.len(),
{
    if ds.len() == 0 {
        Seq::empty()
    } else {
        disk_cands(th, ds.drop_last()) + disk_cands_one(th, ds.last())
    }
}

/// The candidate firings of the process memory condition: the critical and
/// warning tiers are mutually exclusive, the warning firing only below a
/// configured critical cutoff.
pub open spec fn proc_cands(th: AlertThresholds, p: ProcessMetrics) -> Seq<
    (Seq<u8>, Severity, Seq<u8>, Seq<u8>),
> {
    let crit: Seq<(Seq<u8>, Severity, Seq<u8>, Seq<u8>)> = match th.process_rss_crit {
        Some(c) => if p.rss_bytes >= c {
            seq![
                (
                    ascii_bytes("process_rss_crit"@),
                    Severity::Critical,
                    ascii_bytes("Process"@),
                    rss_message(p.name@, " RSS critical: "@, p.rss_bytes),
                ),
            ]
        } else {
            Seq::empty()
        },
        None => Seq::empty(),
    };
    let warn: Seq<(Seq<u8>, Severity, Seq<u8>, Seq<u8>)> = match th.process_rss_warn {
        Some(w) => if p.rss_bytes >= w && (match th.process_rss_crit {
            Some(c) => p.rss_bytes < c,
            None => true,
        }) {
            seq![
                (
                    ascii_bytes("process_rss_warn"@),
                    Severity::Warning,
                    ascii_bytes("Process"@),
                    rss_message(p.name@, " RSS warning: "@, p.rss_bytes),
                ),
            ]
        } else {
            Seq::empty()
        },
        None => Seq::empty(),
    };
    crit + warn
}

/// Every candidate firing of one sample, in evaluation order: CPU
/// utilization, I/O wait, system memory, cgroup memory, swap, each disk,
/// then the process.
pub open spec fn candidates_spec(
    th: AlertThresholds,
    cpu: CpuMetrics,
    mem: MemoryMetrics,
    disk: DiskMetrics,
    proc: Option<ProcessMetrics>,
) -> Seq<(Seq<u8>, Severity, Seq<u8>, Seq<u8>)> {
    tier_cands(
        cpu.total_utilization,
        th.cpu_warn,
        th.cpu_crit,
        ascii_bytes("cpu_crit"@),
        ascii_bytes("cpu_warn"@),
        ascii_bytes("CPU"@),
        pct_message("CPU critical: "@, cpu.total_utilization),
        pct_message("CPU warning: "@, cpu.total_utilization),
    ) + tier_cands(
        cpu.iowait_percent,
        th.iowait_warn,
        th.iowait_crit,
        ascii_bytes("iowait_crit"@),
        ascii_bytes("iowait_warn"@),
        ascii_bytes("CPU"@),
        pct_message("IOWait critical: "@, cpu.iowait_percent),
        pct_message("IOWait warning: "@, cpu.iowait_percent),
    ) + tier_cands(
        mem.used_percent,
        th.memory_warn,
        th.memory_crit,
        ascii_bytes("memory_crit"@),
        ascii_bytes("memory_warn"@),
        ascii_bytes("Memory"@),
        pct_message("Memory critical: "@, mem.used_percent),
        pct_message("Memory warning: "@, mem.used_percent),
    ) + (match mem.cgroup_usage_percent {
        Some(p) => tier_cands(
            p,
            th.cgroup_warn,
            th.cgroup_crit,
            ascii_bytes("cgroup_crit"@),
            ascii_bytes("cgroup_warn"@),
            ascii_bytes("Memory"@),
            pct_message("Cgroup memory critical: "@, p),
            pct_message("Cgroup memory warning: "@, p),
        ),
        None => Seq::empty(),
    }) + (if mem.swap_used > 0 {
        seq![
            (
                ascii_bytes("swap"@),
                Severity::Warning,
                ascii_bytes("Memory"@),
                swap_message(mem.swap_percent, mem.swap_used),
            ),
        ]
    } else {
        Seq::empty()
    }) + disk_cands(th, disk.disks@) + (match proc {
        Some(p) => proc_cands(th, p),
        None => Seq::empty(),
    })
}

/// Whether a candidate with key `key` fires against the cooldown state: it
/// does unless the key fired within the last `cooldown_secs` seconds.
pub open spec fn fires(state: Seq<(Seq<u8>, u64)>, key: Seq<u8>, now_ms: u64, cooldown_secs: u64) -> bool {
    match lookup_seq(state, key) {
        None => true,
        Some(t) => counter_delta(now_ms, t) / 1000 >= cooldown_secs,
    }
}

/// The cooldown state after the first `i` candidates.
pub open spec fn state_upto(
    state0: Seq<(Seq<u8>, u64)>,
    cands: Seq<(Seq<u8>, Severity, Seq<u8>, Seq<u8>)>,
    now_ms: u64,
    cooldown_secs: u64,
    i: int,
) -> Seq<(Seq<u8>, u64)>
    decreases i,
{
    if i <= 0 {
        state0
    } else {
        let s = state_upto(state0, cands, now_ms, cooldown_secs, i - 1);
        if fires(s, cands[i - 1].0, now_ms, cooldown_secs) {
            upsert_seq(s, cands[i - 1].0, now_ms)
        } else {
            s
        }
    }
}

/// The candidates among the first `i` that fire, in order.
pub open spec fn fired_upto(
    state0: Seq<(Seq<u8>, u64)>,
    cands: Seq<(Seq<u8>, Severity, Seq<u8>, Seq<u8>)>,
    now_ms: u64,
    cooldown_secs: u64,
    i: int,
) -> Seq<(Seq<u8>, Severity, Seq<u8>, Seq<u8>)>
    decreases i,
{
    if i <= 0 {
        Seq::empty()
    } else {
        let f = fired_upto(state0, cands, now_ms, cooldown_secs, i - 1);
        let s = state_upto(state0, cands, now_ms, cooldown_secs, i - 1);
        if fires(s, cands[i - 1].0, now_ms, cooldown_secs) {
            f.push(cands[i - 1])
        } else {
            f
        }
    }
}

/// The alert produced for a fired candidate.
pub open spec fn alert_ok(a: Alert, c: (Seq<u8>, Severity, Seq<u8>, Seq<u8>), now_ms: u64) -> bool {
    &&& a.timestamp_ms == now_ms
    &&& a.severity == c.1
    &&& a.category@ == c.2
    &&& a.message@ == c.3
}

/// Alert checker: holds the cutoffs and, per alert key, the time it last
/// fired.  Entries are never pruned; the key space is bounded by the fixed
/// conditions plus one pair per observed device.
pub struct AlertChecker {
    /// The active cutoffs.
    pub thresholds: AlertThresholds,
    /// Seconds a key stays suppressed after firing.
    pub cooldown_secs: u64,
    /// When each alert key last fired, in wall-clock milliseconds.
    pub last_alert_time: Vec<(Vec<u8>, u64)>,
}

impl AlertChecker {
    /// The ghost image of the cooldown state.
    pub open spec fn state(&self) -> Seq<(Seq<u8>, u64)> {
        name_entries(self.last_alert_time@)
    }

    pub open spec fn spec_thresholds(&self) -> AlertThresholds {
        self.thresholds
    }

    pub open spec fn spec_cooldown_secs(&self) -> u64 {
        self.cooldown_secs
    }

    /// A fresh checker with the given cutoffs: a ten-second cooldown and no
    /// key yet on record, so every first breach fires.
    pub fn new(thresholds: AlertThresholds) -> (r: AlertChecker)
        ensures
            r.spec_thresholds() == thresholds,
            r.spec_cooldown_secs() == 10,
            r.state() =~= Seq::<(Seq<u8>, u64)>::empty(),
    {
        AlertChecker { thresholds, cooldown_secs: 10, last_alert_time: Vec::new() }
    }

    /// The current cutoffs.
    pub fn thresholds(&self) -> (r: &AlertThresholds)
        ensures
            *r == self.spec_thresholds(),
    {
        &self.thresholds
    }

    /// Replaces the cutoffs; the cooldown state is kept.
    pub fn set_thresholds(&mut self, thresholds: AlertThresholds)
        ensures
            final(self).spec_thresholds() == thresholds,
            final(self).spec_cooldown_secs() == old(self).spec_cooldown_secs(),
            final(self).state() == old(self).state(),
    {
        self.thresholds = thresholds;
    }

    /// Holds one sample against the cutoffs and returns the alerts that
    /// fire now, updating the per-key cooldown state.
    ///
    /// Conditions are evaluated in a fixed order with the critical tier
    /// shadowing the warning tier of the same family; a key that fired
    /// within the cooldown window is suppressed, and a key that fires has
    /// its timestamp set to `now_ms`.
    pub fn check(
        &mut self,
        cpu: &CpuMetrics,
        memory: &MemoryMetrics,
        disk: &DiskMetrics,
        network: &NetworkMetrics,
        process: Option<&ProcessMetrics>,
        now_ms: u64,
    ) -> (r: Vec<Alert>)
        ensures
            ({
                let cands = candidates_spec(
                    old(self).spec_thresholds(),
                    *cpu,
                    *memory,
                    *disk,
                    match process {
                        Some(p) => Some(*p),
                        None => None,
                    },
                );
                let cd = old(self).spec_cooldown_secs();
                let fired = fired_upto(old(self).state(), cands, now_ms, cd, cands.len() as int);
                &&& r@.len() == fired.len()
                &&& forall|i: int| 0 <= i < fired.len() ==> alert_ok(#[trigger] r@[i], fired[i], now_ms)
                &&& final(self).state() == state_upto(
                    old(self).state(),
                    cands,
                    now_ms,
                    cd,
                    cands.len() as int,
                )
                &&& final(self).spec_thresholds() == old(self).spec_thresholds()
                &&& final(self).spec_cooldown_secs() == cd
            }),
    {
        let cands = build_candidates(&self.thresholds, cpu, memory, disk, process);
        let ghost gcands = candidates_spec(
            self.thresholds,
            *cpu,
            *memory,
            *disk,
            match process {
                Some(p) => Some(*p),
                None => None,
            },
        );
        proof {
            assert(cand_entries(cands@) == gcands);
        }
        let ghost state0 = self.state();
        let cd = self.cooldown_secs;
        let now = now_ms;
        let mut alerts: Vec<Alert> = Vec::new();
        let mut i: usize = 0;
        while i < cands.len()
            invariant
                i <= cands@.len(),
                cand_entries(cands@) == gcands,
                cd == self.cooldown_secs,
                self.thresholds == old(self).thresholds,
                state0 == old(self).state(),
                self.state() == state_upto(state0, gcands, now, cd, i as int),
                alerts@.len() == fired_upto(state0, gcands, now, cd, i as int).len(),
                forall|j: int| 0 <= j < alerts@.len() ==> alert_ok(
                    #[trigger] alerts@[j],
                    fired_upto(state0, gcands, now, cd, i as int)[j],
                    now,
                ),
            decreases cands@.len() - i,
        {
            let c = &cands[i];
            let ghost gc = gcands[i as int];
            proof {
                assert(cand_entries(cands@)[i as int] == cand_entry(cands@[i as int]));
            }
            let should_fire = match crate::statemap::name_get(&self.last_alert_time, c.key.as_slice()) {
                Some(t) => {
                    proof {
                        lemma_lookup_projects(self.last_alert_time@, c.key@);
                    }
                    crate::delta_u64(now, *t) / 1000 >= cd
                },
                None => {
                    proof {
                        lemma_lookup_projects(self.last_alert_time@, c.key@);
                    }
                    true
                },
            };
            proof {
                assert(should_fire == fires(self.state(), gc.0, now, cd));
            }
            if should_fire {
                let key = c.key.clone();
                let ghost st_before = self.state();
                proof {
                    lemma_upsert_projects(self.last_alert_time@, key, now);
                }
                upsert_name(&mut self.last_alert_time, key, now);
                alerts.push(
                    Alert {
                        timestamp_ms: now,
                        severity: c.severity,
                        category: c.category.clone(),
                        message: c.message.clone(),
                    },
                );
                proof {
                    assert(self.state() == upsert_seq(st_before, gc.0, now));
                    assert(fired_upto(state0, gcands, now, cd, i + 1 as int) =~= fired_upto(
                        state0,
                        gcands,
                        now,
                        cd,
                        i as int,
                    ).push(gc));
                }
            }
            i += 1;
        }
        alerts
    }
}

/// Builds the candidate firings of one sample, in evaluation order.
fn build_candidates(
    th: &AlertThresholds,
    cpu: &CpuMetrics,
    memory: &MemoryMetrics,
    disk: &DiskMetrics,
    process: Option<&ProcessMetrics>,
) -> (r: Vec<Candidate>)
    ensures
        cand_entries(r@) == candidates_spec(
            *th,
            *cpu,
            *memory,
            *disk,
            match process {
                Some(p) => Some(*p),
                None => None,
            },
        ),
{
    let mut r: Vec<Candidate> = Vec::new();
    proof {
        reveal_strlit("cpu_crit");
        reveal_strlit("cpu_warn");
        reveal_strlit("CPU");
        reveal_strlit("CPU critical: ");
        reveal_strlit("CPU warning: ");
        reveal_strlit("iowait_crit");
        reveal_strlit("iowait_warn");
        reveal_strlit("IOWait critical: ");
        reveal_strlit("IOWait warning: ");
        reveal_strlit("memory_crit");
        reveal_strlit("memory_warn");
        reveal_strlit("Memory");
        reveal_strlit("Memory critical: ");
        reveal_strlit("Memory warning: ");
        reveal_strlit("cgroup_crit");
        reveal_strlit("cgroup_warn");
        reveal_strlit("Cgroup memory critical: ");
        reveal_strlit("Cgroup memory warning: ");
        reveal_strlit("_crit");
        reveal_strlit("_warn");
        reveal_strlit(" critical: ");
        reveal_strlit(" warning: ");
        reveal_strlit("_queue_crit");
        reveal_strlit("_queue_warn");
        reveal_strlit(" queue critical: ");
        reveal_strlit(" queue warning: ");
    }

    push_tier(
        &mut r,
        cpu.total_utilization,
        th.cpu_warn,
        th.cpu_crit,
        "cpu_crit",
        "cpu_warn",
        "CPU",
        "CPU critical: ",
        "CPU warning: ",
    );
    let ghost g1 = cand_entries(r@);
    push_tier(
        &mut r,
        cpu.iowait_percent,
        th.iowait_warn,
        th.iowait_crit,
        "iowait_crit",
        "iowait_warn",
        "CPU",
        "IOWait critical: ",
        "IOWait warning: ",
    );
    push_tier(
        &mut r,
        memory.used_percent,
        th.memory_warn,
        th.memory_crit,
        "memory_crit",
        "memory_warn",
        "Memory",
        "Memory critical: ",
        "Memory warning: ",
    );
    match memory.cgroup_usage_percent {
        Some(p) => {
            push_tier(
                &mut r,
                p,
                th.cgroup_warn,
                th.cgroup_crit,
                "cgroup_crit",
                "cgroup_warn",
                "Memory",
                "Cgroup memory critical: ",
                "Cgroup memory warning: ",
            );
        },
        None => {},
    }
    if memory.swap_used > 0 {
        proof {
            reveal_strlit("swap");
            reveal_strlit("Memory");
            reveal_strlit("Swap in use: ");
            reveal_strlit("% (");
            reveal_strlit(" bytes)");
        }
        let mut msg = str_bytes("Swap in use: ");
        let mut v = fmt_fixed(memory.swap_percent.saturating_add(5) / 10, 1);
        msg.append(&mut v);
        let mut mid = str_bytes("% (");
        msg.append(&mut mid);
        let mut num = fmt_u64(memory.swap_used);
        msg.append(&mut num);
        let mut tailb = str_bytes(" bytes)");
        msg.append(&mut tailb);
        proof {
            assert(msg@ =~= swap_message(memory.swap_percent, memory.swap_used));
        }
        let ghost before = cand_entries(r@);
        r.push(
            Candidate {
                key: str_bytes("swap"),
                severity: Severity::Warning,
                category: str_bytes("Memory"),
                message: msg,
            },
        );
        proof {
            assert(cand_entries(r@) =~= before.push(
                (
                    ascii_bytes("swap"@),
                    Severity::Warning,
                    ascii_bytes("Memory"@),
                    swap_message(memory.swap_percent, memory.swap_used),
                ),
            ));
        }
    }
    let ghost before_disks = cand_entries(r@);
    let mut d: usize = 0;
    proof {
        assert(disk.disks@.take(0) =~= Seq::<DiskStats>::empty());
        assert(before_disks + disk_cands(*th, disk.disks@.take(0)) =~= before_disks);
    }
    while d < disk.disks.len()
        invariant
            d <= disk.disks@.len(),
            cand_entries(r@) == before_disks + disk_cands(*th, disk.disks@.take(d as int)),
        decreases disk.disks@.len() - d,
    {
        let dev = &disk.disks[d];
        proof {
            reveal_strlit("_crit");
            reveal_strlit("_warn");
            reveal_strlit(" critical: ");
            reveal_strlit(" warning: ");
            reveal_strlit("_queue_crit");
            reveal_strlit("_queue_warn");
            reveal_strlit(" queue critical: ");
            reveal_strlit(" queue warning: ");
            assert(disk.disks@.take(d + 1 as int).drop_last() =~= disk.disks@.take(d as int));
            assert(disk.disks@.take(d + 1 as int).last() == disk.disks@[d as int]);
        }
        push_disk_tier(
            &mut r,
            &dev.device,
            dev.utilization_percent,
            th.disk_util_warn,
            th.disk_util_crit,
            "_crit",
            "_warn",
            " critical: ",
            " warning: ",
            true,
        );
        push_disk_tier(
            &mut r,
            &dev.device,
            dev.queue_depth,
            th.disk_queue_warn,
            th.disk_queue_crit,
            "_queue_crit",
            "_queue_warn",
            " queue critical: ",
            " queue warning: ",
            false,
        );
        proof {
            assert(cand_entries(r@) =~= before_disks + disk_cands(
                *th,
                disk.disks@.take(d + 1 as int),
            ));
        }
        d += 1;
    }
    proof {
        assert(disk.disks@.take(disk.disks@.len() as int) =~= disk.disks@);
    }

    match process {
        Some(p) => {
            let ghost before_proc = cand_entries(r@);
            proof {
                reveal_strlit("process_rss_crit");
                reveal_strlit("process_rss_warn");
                reveal_strlit("Process");
                reveal_strlit("Process ");
                reveal_strlit(" RSS critical: ");
                reveal_strlit(" RSS warning: ");
                reveal_strlit(" bytes");
            }
            let crit_fires = match th.process_rss_crit {
                Some(c) => p.rss_bytes >= c,
                None => false,
            };
            if crit_fires {
                let mut msg = str_bytes("Process ");
                let mut nm = p.name.clone();
                msg.append(&mut nm);
                let mut tier = str_bytes(" RSS critical: ");
                msg.append(&mut tier);
                let mut num = fmt_u64(p.rss_bytes);
                msg.append(&mut num);
                let mut tailb = str_bytes(" bytes");
                msg.append(&mut tailb);
                proof {
                    assert(msg@ =~= rss_message(p.name@, " RSS critical: "@, p.rss_bytes));
                }
                let ghost before = cand_entries(r@);
                r.push(
                    Candidate {
                        key: str_bytes("process_rss_crit"),
                        severity: Severity::Critical,
                        category: str_bytes("Process"),
                        message: msg,
                    },
                );
                proof {
                    assert(cand_entries(r@) =~= before.push(
                        (
                            ascii_bytes("process_rss_crit"@),
                            Severity::Critical,
                            ascii_bytes("Process"@),
                            rss_message(p.name@, " RSS critical: "@, p.rss_bytes),
                        ),
                    ));
                }
            }
            let warn_fires = match th.process_rss_warn {
                Some(w) => p.rss_bytes >= w && (match th.process_rss_crit {
                    Some(c) => p.rss_bytes < c,
                    None => true,
                }),
                None => false,
            };
            if warn_fires {
                let mut msg = str_bytes("Process ");
                let mut nm = p.name.clone();
                msg.append(&mut nm);
                let mut tier = str_bytes(" RSS warning: ");
                msg.append(&mut tier);
                let mut num = fmt_u64(p.rss_bytes);
                msg.append(&mut num);
                let mut tailb = str_bytes(" bytes");
                msg.append(&mut tailb);
                proof {
                    assert(msg@ =~= rss_message(p.name@, " RSS warning: "@, p.rss_bytes));
                }
                let ghost before = cand_entries(r@);
                r.push(
                    Candidate {
                        key: str_bytes("process_rss_warn"),
                        severity: Severity::Warning,
                        category: str_bytes("Process"),
                        message: msg,
                    },
                );
                proof {
                    assert(cand_entries(r@) =~= before.push(
                        (
                            ascii_bytes("process_rss_warn"@),
                            Severity::Warning,
                            ascii_bytes("Process"@),
                            rss_message(p.name@, " RSS warning: "@, p.rss_bytes),
                        ),
                    ));
                }
            }
            proof {
                assert(cand_entries(r@) =~= before_proc + proc_cands(*th, *p));
            }
        },
        None => {},
    }
    proof {
        assert(cand_entries(r@) =~= candidates_spec(
            *th,
            *cpu,
            *memory,
            *disk,
            match process {
                Some(p) => Some(*p),
                None => None,
            },
        ));
    }
    r
}

/// Pushes the candidate of one system-wide tier pair, critical first.
fn push_tier(
    r: &mut Vec<Candidate>,
    value: u64,
    warn: u64,
    crit: u64,
    key_crit: &str,
    key_warn: &str,
    category: &str,
    msg_crit: &str,
    msg_warn: &str,
)
    requires
        key_crit.is_ascii(),
        key_warn.is_ascii(),
        category.is_ascii(),
        msg_crit.is_ascii(),
        msg_warn.is_ascii(),
    ensures
        cand_entries(final(r)@) == cand_entries(old(r)@) + tier_cands(
            value,
            warn,
            crit,
            ascii_bytes(key_crit@),
            ascii_bytes(key_warn@),
            ascii_bytes(category@),
            pct_message(msg_crit@, value),
            pct_message(msg_warn@, value),
        ),
{
    if value >= crit {
        let mut msg = str_bytes(msg_crit);
        let mut v = fmt_fixed(value.saturating_add(5) / 10, 1);
        msg.append(&mut v);
        proof {
            reveal_strlit("%");
        }
        let mut pct = str_bytes("%");
        msg.append(&mut pct);
        proof {
            assert(msg@ =~= pct_message(msg_crit@, value));
        }
        let ghost before = cand_entries(r@);
        r.push(
            Candidate {
                key: str_bytes(key_crit),
                severity: Severity::Critical,
                category: str_bytes(category),
                message: msg,
            },
        );
        proof {
            assert(cand_entries(r@) =~= before.push(
                (
                    ascii_bytes(key_crit@),
                    Severity::Critical,
                    ascii_bytes(category@),
                    pct_message(msg_crit@, value),
                ),
            ));
            assert(cand_entries(r@) =~= cand_entries(old(r)@) + tier_cands(
                value,
                warn,
                crit,
                ascii_bytes(key_crit@),
                ascii_bytes(key_warn@),
                ascii_bytes(category@),
                pct_message(msg_crit@, value),
                pct_message(msg_warn@, value),
            ));
        }
    } else if value >= warn {
        let mut msg = str_bytes(msg_warn);
        let mut v = fmt_fixed(value.saturating_add(5) / 10, 1);
        msg.append(&mut v);
        proof {
            reveal_strlit("%");
        }
        let mut pct = str_bytes("%");
        msg.append(&mut pct);
        proof {
            assert(msg@ =~= pct_message(msg_warn@, value));
        }
        let ghost before = cand_entries(r@);
        r.push(
            Candidate {
                key: str_bytes(key_warn),
                severity: Severity::Warning,
                category: str_bytes(category),
                message: msg,
            },
        );
        proof {
            assert(cand_entries(r@) =~= before.push(
                (
                    ascii_bytes(key_warn@),
                    Severity::Warning,
                    ascii_bytes(category@),
                    pct_message(msg_warn@, value),
                ),
            ));
            assert(cand_entries(r@) =~= cand_entries(old(r)@) + tier_cands(
                value,
                warn,
                crit,
                ascii_bytes(key_crit@),
                ascii_bytes(key_warn@),
                ascii_bytes(category@),
                pct_message(msg_crit@, value),
                pct_message(msg_warn@, value),
            ));
        }
    } else {
        proof {
            assert(cand_entries(r@) =~= cand_entries(old(r)@) + tier_cands(
                value,
                warn,
                crit,
                ascii_bytes(key_crit@),
                ascii_bytes(key_warn@),
                ascii_bytes(category@),
                pct_message(msg_crit@, value),
                pct_message(msg_warn@, value),
            ));
        }
    }
}

/// Pushes the candidate of one per-device tier pair, critical first.
fn push_disk_tier(
    r: &mut Vec<Candidate>,
    device: &Vec<u8>,
    value: u64,
    warn: u64,
    crit: u64,
    key_crit_suffix: &str,
    key_warn_suffix: &str,
    tier_crit: &str,
    tier_warn: &str,
    percent_suffix: bool,
)
    requires
        key_crit_suffix.is_ascii(),
        key_warn_suffix.is_ascii(),
        tier_crit.is_ascii(),
        tier_warn.is_ascii(),
    ensures
        percent_suffix ==> cand_entries(final(r)@) == cand_entries(old(r)@) + tier_cands(
            value,
            warn,
            crit,
            disk_key(device@, key_crit_suffix@),
            disk_key(device@, key_warn_suffix@),
            ascii_bytes("Disk"@),
            disk_message(device@, tier_crit@, value),
            disk_message(device@, tier_warn@, value),
        ),
        !percent_suffix ==> cand_entries(final(r)@) == cand_entries(old(r)@) + tier_cands(
            value,
            warn,
            crit,
            disk_key(device@, key_crit_suffix@),
            disk_key(device@, key_warn_suffix@),
            ascii_bytes("Disk"@),
            queue_message(device@, tier_crit@, value),
            queue_message(device@, tier_warn@, value),
        ),
{
    proof {
        reveal_strlit("disk_");
        reveal_strlit("Disk ");
        reveal_strlit("Disk");
        reveal_strlit("%");
    }
    let (tier, key_suffix, sev) = if value >= crit {
        (tier_crit, key_crit_suffix, Severity::Critical)
    } else if value >= warn {
        (tier_warn, key_warn_suffix, Severity::Warning)
    } else {
        return;
    };
    let mut key = str_bytes("disk_");
    let mut devk = device.clone();
    key.append(&mut devk);
    let mut sfx = str_bytes(key_suffix);
    key.append(&mut sfx);
    proof {
        assert(key@ =~= disk_key(device@, key_suffix@));
    }
    let mut msg = str_bytes("Disk ");
    let mut devm = device.clone();
    msg.append(&mut devm);
    let mut tb = str_bytes(tier);
    msg.append(&mut tb);
    let mut v = fmt_fixed(value.saturating_add(5) / 10, 1);
    msg.append(&mut v);
    if percent_suffix {
        let mut pct = str_bytes("%");
        msg.append(&mut pct);
        proof {
            assert(msg@ =~= disk_message(device@, tier@, value));
        }
    } else {
        proof {
            assert(msg@ =~= queue_message(device@, tier@, value));
        }
    }
    let ghost before = cand_entries(r@);
    let ghost gmsg = msg@;
    r.push(Candidate { key, severity: sev, category: str_bytes("Disk"), message: msg });
    proof {
        assert(cand_entries(r@) =~= before.push(
            (disk_key(device@, key_suffix@), sev, ascii_bytes("Disk"@), gmsg),
        ));
    }
}

} // verus!
