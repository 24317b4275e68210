//! End-of-run summary statistics over the samples of one segment, with the
//! bottleneck analysis.

use vstd::prelude::*;
use crate::bytes::{ascii_bytes, str_bytes};
use crate::logfmt::MetricsSample;
use crate::rates::add_sat_spec;
use crate::counter_delta;

verus! {

/// Summary statistics for one segment.  Percentages and throughputs are
/// hundredths; sizes are bytes; the duration is milliseconds.
#[derive(Clone, Debug)]
pub struct MetricsSummary {
    /// Wall-clock span from the first to the last sample.
    pub duration_ms: u64,
    pub samples_count: u64,
    /// Mean overall CPU utilization, hundredths of a percent.
    pub cpu_avg_utilization: u64,
    pub cpu_max_utilization: u64,
    pub cpu_avg_iowait: u64,
    pub cpu_max_iowait: u64,
    pub memory_avg_used_percent: u64,
    pub memory_max_used_percent: u64,
    pub memory_max_used_bytes: u64,
    /// Highest cgroup usage, absent when no sample carried one.
    pub cgroup_max_usage_percent: Option<u64>,
    pub swap_max_used: u64,
    pub disk_max_read_throughput: u64,
    pub disk_max_write_throughput: u64,
    pub disk_max_utilization: u64,
    pub network_total_rx_bytes: u64,
    pub network_total_tx_bytes: u64,
    pub network_max_rx_throughput: u64,
    pub network_max_tx_throughput: u64,
    pub process_max_cpu: Option<u64>,
    pub process_max_rss: Option<u64>,
    pub process_max_fds: Option<u64>,
    /// The bottleneck findings, in analysis order.
    pub bottleneck_indicators: Vec<Vec<u8>>,
}

/// The sum of a projected series, exact over the integers.
pub open spec fn sum_of(ss: Seq<MetricsSample>, f: spec_fn(MetricsSample) -> u64) -> int
    decreases ss.len(),
{
    if ss.len() == 0 {
        0
    } else {
        sum_of(ss.drop_last(), f) + f(ss.last())
    }
}

/// The largest value of a projected series, zero when empty.
pub open spec fn max_of(ss: Seq<MetricsSample>, f: spec_fn(MetricsSample) -> u64) -> u64
    decreases ss.len(),
{
    if ss.len() == 0 {
        0u64
    } else {
        let rest = max_of(ss.drop_last(), f);
        if f(ss.last()) > rest {
            f(ss.last())
        } else {
            rest
        }
    }
}

/// The mean of a projected series, rounded down; zero when empty.
pub open spec fn avg_of(ss: Seq<MetricsSample>, f: spec_fn(MetricsSample) -> u64) -> u64
{
    if ss.len() == 0 {
        0u64
    } else {
        (sum_of(ss, f) / (ss.len() as int)) as u64
    }
}

/// The largest cgroup usage among the samples that carry one.
pub open spec fn cgroup_max_of(ss: Seq<MetricsSample>) -> Option<u64>
    decreases ss.len(),
{
    if ss.len() == 0 {
        None
    } else {
        let rest = cgroup_max_of(ss.drop_last());
        match ss.last().memory.cgroup_usage_percent {
            Some(v) => match rest {
                Some(m) => if v > m {
                    Some(v)
                } else {
                    Some(m)
                },
                None => Some(v),
            },
            None => rest,
        }
    }
}

/// The largest per-device utilization seen in any sample.
pub open spec fn disk_util_max_one(ds: Seq<crate::disk::DiskStats>) -> u64
    decreases ds.len(),
{
    if ds.len() == 0 {
        0u64
    } else {
        let rest = disk_util_max_one(ds.drop_last());
        if ds.last().utilization_percent > rest {
            ds.last().utilization_percent
        } else {
            rest
        }
    }
}

pub open spec fn disk_util_max_of(ss: Seq<MetricsSample>) -> u64
    decreases ss.len(),
{
    if ss.len() == 0 {
        0u64
    } else {
        let rest = disk_util_max_of(ss.drop_last());
        let here = disk_util_max_one(ss.last().disk.disks@);
        if here > rest {
            here
        } else {
            rest
        }
    }
}

/// The largest of an optionally-present process series.
pub open spec fn proc_max_of(ss: Seq<MetricsSample>, f: spec_fn(crate::process::ProcessMetrics) -> u64) -> Option<u64>
    decreases ss.len(),
{
    if ss.len() == 0 {
        None
    } else {
        let rest = proc_max_of(ss.drop_last(), f);
        match ss.last().process {
            Some(p) => match rest {
                Some(m) => if f(p) > m {
                    Some(f(p))
                } else {
                    Some(m)
                },
                None => Some(f(p)),
            },
            None => rest,
        }
    }
}

/// The saturating sum of the last sample's cumulative interface counters.
pub open spec fn iface_total_rx(es: Seq<crate::network::InterfaceStats>) -> u64
    decreases es.len(),
{
    if es.len() == 0 {
        0u64
    } else {
        add_sat_spec(iface_total_rx(es.drop_last()), es.last().rx_bytes_total)
    }
}

pub open spec fn iface_total_tx(es: Seq<crate::network::InterfaceStats>) -> u64
    decreases es.len(),
{
    if es.len() == 0 {
        0u64
    } else {
        add_sat_spec(iface_total_tx(es.drop_last()), es.last().tx_bytes_total)
    }
}

/// Accumulates the samples of the current segment.
pub struct SummaryAccumulator {
    /// The samples, in arrival order.
    pub samples: Vec<MetricsSample>,
    /// The first sample's timestamp.
    pub start_time: Option<u64>,
}

impl SummaryAccumulator {
    /// An empty accumulator.
    pub fn new() -> (r: SummaryAccumulator)
        ensures
            r.samples@.len() == 0,
            r.start_time is None,
    {
        SummaryAccumulator { samples: Vec::new(), start_time: None }
    }

    /// Appends one sample; the first one fixes the start time.
    pub fn add_sample(&mut self, sample: MetricsSample)
        ensures
            final(self).samples@ == old(self).samples@.push(sample),
            final(self).start_time == (if old(self).start_time is None {
                Some(sample.timestamp_ms)
            } else {
                old(self).start_time
            }),
    {
        if self.start_time.is_none() {
            self.start_time = Some(sample.timestamp_ms);
        }
        self.samples.push(sample);
    }

    /// Drops the accumulated samples, as a rotation starts a new segment.
    pub fn clear(&mut self)
        ensures
            final(self).samples@.len() == 0,
            final(self).start_time is None,
    {
        self.samples.clear();
        self.start_time = None;
    }

    /// Condenses the accumulated samples, or nothing when none arrived.
    /// Averages and maxima run over the whole segment; the bottleneck
    /// findings flag a sustained CPU load, heavy I/O wait, a cgroup near
    /// its limit, any swap use, and saturated disks.
    pub fn generate_summary(&self) -> (r: Option<MetricsSummary>)
        ensures
            (r is Some) == (self.samples@.len() > 0),
            r matches Some(m) ==> ({
                let ss = self.samples@;
                &&& m.duration_ms == counter_delta(ss.last().timestamp_ms, ss[0].timestamp_ms)
                &&& m.samples_count == ss.len()
                &&& m.cpu_avg_utilization == avg_of(ss, |s: MetricsSample| s.cpu.total_utilization)
                &&& m.cpu_max_utilization == max_of(ss, |s: MetricsSample| s.cpu.total_utilization)
                &&& m.cpu_avg_iowait == avg_of(ss, |s: MetricsSample| s.cpu.iowait_percent)
                &&& m.cpu_max_iowait == max_of(ss, |s: MetricsSample| s.cpu.iowait_percent)
                &&& m.memory_avg_used_percent == avg_of(ss, |s: MetricsSample| s.memory.used_percent)
                &&& m.memory_max_used_percent == max_of(ss, |s: MetricsSample| s.memory.used_percent)
                &&& m.memory_max_used_bytes == max_of(ss, |s: MetricsSample| s.memory.used)
                &&& m.cgroup_max_usage_percent == cgroup_max_of(ss)
                &&& m.swap_max_used == max_of(ss, |s: MetricsSample| s.memory.swap_used)
                &&& m.disk_max_read_throughput == max_of(
                    ss,
                    |s: MetricsSample| s.disk.total_read_bytes_per_sec,
                )
                &&& m.disk_max_write_throughput == max_of(
                    ss,
                    |s: MetricsSample| s.disk.total_write_bytes_per_sec,
                )
                &&& m.disk_max_utilization == disk_util_max_of(ss)
                &&& m.network_total_rx_bytes == iface_total_rx(ss.last().network.interfaces@)
                &&& m.network_total_tx_bytes == iface_total_tx(ss.last().network.interfaces@)
                &&& m.network_max_rx_throughput == max_of(
                    ss,
                    |s: MetricsSample| s.network.total_rx_bytes_per_sec,
                )
                &&& m.network_max_tx_throughput == max_of(
                    ss,
                    |s: MetricsSample| s.network.total_tx_bytes_per_sec,
                )
                &&& m.process_max_cpu == proc_max_of(
                    ss,
                    |p: crate::process::ProcessMetrics| p.cpu_percent,
                )
                &&& m.process_max_rss == proc_max_of(
                    ss,
                    |p: crate::process::ProcessMetrics| p.rss_bytes,
                )
                &&& m.process_max_fds == proc_max_of(
                    ss,
                    |p: crate::process::ProcessMetrics| p.num_fds,
                )
                &&& m.bottleneck_indicators@.len() == ((if m.cpu_avg_utilization > 9000 {
                    1int
                } else {
                    0int
                }) + (if m.cpu_max_iowait > 5000 {
                    1int
                } else {
                    0int
                }) + (match m.cgroup_max_usage_percent {
                    Some(c) => if c > 9000 {
                        1int
                    } else {
                        0int
                    },
                    None => 0int,
                }) + (if m.swap_max_used > 0 {
                    1int
                } else {
                    0int
                }) + (if m.disk_max_utilization > 8000 {
                    1int
                } else {
                    0int
                }))
            }),
    {
        if self.samples.len() == 0 {
            return None;
        }
        let ss = &self.samples;
        let n = ss.len();

        let duration_ms = crate::delta_u64(ss[n - 1].timestamp_ms, ss[0].timestamp_ms);

        let mut sum_cpu: u128 = 0;
        let mut max_cpu: u64 = 0;
        let mut sum_iow: u128 = 0;
        let mut max_iow: u64 = 0;
        let mut sum_mem: u128 = 0;
        let mut max_mem: u64 = 0;
        let mut max_mem_bytes: u64 = 0;
        let mut cgroup_max: Option<u64> = None;
        let mut swap_max: u64 = 0;
        let mut max_dread: u64 = 0;
        let mut max_dwrite: u64 = 0;
        let mut max_dutil: u64 = 0;
        let mut max_nrx: u64 = 0;
        let mut max_ntx: u64 = 0;
        let mut proc_cpu: Option<u64> = None;
        let mut proc_rss: Option<u64> = None;
        let mut proc_fds: Option<u64> = None;

        let ghost f_cpu = |s: MetricsSample| s.cpu.total_utilization;
        let ghost f_iow = |s: MetricsSample| s.cpu.iowait_percent;
        let ghost f_mem = |s: MetricsSample| s.memory.used_percent;
        let ghost f_memb = |s: MetricsSample| s.memory.used;
        let ghost f_swap = |s: MetricsSample| s.memory.swap_used;
        let ghost f_dr = |s: MetricsSample| s.disk.total_read_bytes_per_sec;
        let ghost f_dw = |s: MetricsSample| s.disk.total_write_bytes_per_sec;
        let ghost f_nrx = |s: MetricsSample| s.network.total_rx_bytes_per_sec;
        let ghost f_ntx = |s: MetricsSample| s.network.total_tx_bytes_per_sec;
        let ghost g_pcpu = |p: crate::process::ProcessMetrics| p.cpu_percent;
        let ghost g_prss = |p: crate::process::ProcessMetrics| p.rss_bytes;
        let ghost g_pfds = |p: crate::process::ProcessMetrics| p.num_fds;

        let mut i: usize = 0;
        proof {
            assert(ss@.take(0) =~= Seq::<MetricsSample>::empty());
        }
        while i < ss.len()
            invariant
                i <= ss@.len(),
                ss@.len() <= usize::MAX,
                sum_cpu == sum_of(ss@.take(i as int), f_cpu),
                sum_cpu <= (i as int) * (u64::MAX as int),
                max_cpu == max_of(ss@.take(i as int), f_cpu),
                sum_iow == sum_of(ss@.take(i as int), f_iow),
                sum_iow <= (i as int) * (u64::MAX as int),
                max_iow == max_of(ss@.take(i as int), f_iow),
                sum_mem == sum_of(ss@.take(i as int), f_mem),
                sum_mem <= (i as int) * (u64::MAX as int),
                max_mem == max_of(ss@.take(i as int), f_mem),
                max_mem_bytes == max_of(ss@.take(i as int), f_memb),
                cgroup_max == cgroup_max_of(ss@.take(i as int)),
                swap_max == max_of(ss@.take(i as int), f_swap),
                max_dread == max_of(ss@.take(i as int), f_dr),
                max_dwrite == max_of(ss@.take(i as int), f_dw),
                max_dutil == disk_util_max_of(ss@.take(i as int)),
                max_nrx == max_of(ss@.take(i as int), f_nrx),
                max_ntx == max_of(ss@.take(i as int), f_ntx),
                proc_cpu == proc_max_of(ss@.take(i as int), g_pcpu),
                proc_rss == proc_max_of(ss@.take(i as int), g_prss),
                proc_fds == proc_max_of(ss@.take(i as int), g_pfds),
                f_cpu == (|s: MetricsSample| s.cpu.total_utilization),
                f_iow == (|s: MetricsSample| s.cpu.iowait_percent),
                f_mem == (|s: MetricsSample| s.memory.used_percent),
                f_memb == (|s: MetricsSample| s.memory.used),
                f_swap == (|s: MetricsSample| s.memory.swap_used),
                f_dr == (|s: MetricsSample| s.disk.total_read_bytes_per_sec),
                f_dw == (|s: MetricsSample| s.disk.total_write_bytes_per_sec),
                f_nrx == (|s: MetricsSample| s.network.total_rx_bytes_per_sec),
                f_ntx == (|s: MetricsSample| s.network.total_tx_bytes_per_sec),
                g_pcpu == (|p: crate::process::ProcessMetrics| p.cpu_percent),
                g_prss == (|p: crate::process::ProcessMetrics| p.rss_bytes),
                g_pfds == (|p: crate::process::ProcessMetrics| p.num_fds),
            decreases ss@.len() - i,
        {
            let s = &ss[i];
            proof {
                assert(ss@.take(i + 1 as int).drop_last() =~= ss@.take(i as int));
                assert(ss@.take(i + 1 as int).last() == ss@[i as int]);
                assert((i + 1) as int * (u64::MAX as int) == (i as int) * (u64::MAX as int) + (
                u64::MAX as int));
            }
            sum_cpu = sum_cpu + s.cpu.total_utilization as u128;
            if s.cpu.total_utilization > max_cpu {
                max_cpu = s.cpu.total_utilization;
            }
            sum_iow = sum_iow + s.cpu.iowait_percent as u128;
            if s.cpu.iowait_percent > max_iow {
                max_iow = s.cpu.iowait_percent;
            }
            sum_mem = sum_mem + s.memory.used_percent as u128;
            if s.memory.used_percent > max_mem {
                max_mem = s.memory.used_percent;
            }
            if s.memory.used > max_mem_bytes {
                max_mem_bytes = s.memory.used;
            }
            match s.memory.cgroup_usage_percent {
                Some(v) => {
                    cgroup_max = match cgroup_max {
                        Some(m) => if v > m {
                            Some(v)
                        } else {
                            Some(m)
                        },
                        None => Some(v),
                    };
                },
                None => {},
            }
            if s.memory.swap_used > swap_max {
                swap_max = s.memory.swap_used;
            }
            if s.disk.total_read_bytes_per_sec > max_dread {
                max_dread = s.disk.total_read_bytes_per_sec;
            }
            if s.disk.total_write_bytes_per_sec > max_dwrite {
                max_dwrite = s.disk.total_write_bytes_per_sec;
            }
            let here_util = disk_util_max_exec(&s.disk.disks);
            if here_util > max_dutil {
                max_dutil = here_util;
            }
            if s.network.total_rx_bytes_per_sec > max_nrx {
                max_nrx = s.network.total_rx_bytes_per_sec;
            }
            if s.network.total_tx_bytes_per_sec > max_ntx {
                max_ntx = s.network.total_tx_bytes_per_sec;
            }
            match &s.process {
                Some(p) => {
                    proc_cpu = match proc_cpu {
                        Some(m) => if p.cpu_percent > m {
                            Some(p.cpu_percent)
                        } else {
                            Some(m)
                        },
                        None => Some(p.cpu_percent),
                    };
                    proc_rss = match proc_rss {
                        Some(m) => if p.rss_bytes > m {
                            Some(p.rss_bytes)
                        } else {
                            Some(m)
                        },
                        None => Some(p.rss_bytes),
                    };
                    proc_fds = match proc_fds {
                        Some(m) => if p.num_fds > m {
                            Some(p.num_fds)
                        } else {
                            Some(m)
                        },
                        None => Some(p.num_fds),
                    };
                },
                None => {},
            }
            i += 1;
        }
        proof {
            assert(ss@.take(ss@.len() as int) =~= ss@);
        }

        let nn = n as u128;
        let avg_cpu = (sum_cpu / nn) as u64;
        let avg_iow = (sum_iow / nn) as u64;
        let avg_mem = (sum_mem / nn) as u64;
        proof {
            lemma_div_bound(sum_cpu as int, n as int);
            lemma_div_bound(sum_iow as int, n as int);
            lemma_div_bound(sum_mem as int, n as int);
        }

        let last = &ss[n - 1];
        let mut net_rx: u64 = 0;
        let mut net_tx: u64 = 0;
        let mut j: usize = 0;
        proof {
            assert(last.network.interfaces@.take(0) =~= Seq::<
                crate::network::InterfaceStats,
            >::empty());
        }
        while j < last.network.interfaces.len()
            invariant
                j <= last.network.interfaces@.len(),
                net_rx == iface_total_rx(last.network.interfaces@.take(j as int)),
                net_tx == iface_total_tx(last.network.interfaces@.take(j as int)),
            decreases last.network.interfaces@.len() - j,
        {
            proof {
                assert(last.network.interfaces@.take(j + 1 as int).drop_last() =~= last.network
                    .interfaces@.take(j as int));
                assert(last.network.interfaces@.take(j + 1 as int).last() == last.network
                    .interfaces@[j as int]);
            }
            net_rx = net_rx.saturating_add(last.network.interfaces[j].rx_bytes_total);
            net_tx = net_tx.saturating_add(last.network.interfaces[j].tx_bytes_total);
            j += 1;
        }
        proof {
            assert(last.network.interfaces@.take(last.network.interfaces@.len() as int)
                =~= last.network.interfaces@);
        }

        proof {
            reveal_strlit("CPU-bound: High average CPU utilization (>90%)");
            reveal_strlit("I/O-bound: High CPU iowait observed (>50%)");
            reveal_strlit("Memory-bound: Cgroup memory near limit (>90%)");
            reveal_strlit("Memory pressure: Swap usage detected");
            reveal_strlit("Disk I/O-bound: High disk utilization (>80%)");
        }
        let mut bottlenecks: Vec<Vec<u8>> = Vec::new();
        if avg_cpu > 9000 {
            bottlenecks.push(str_bytes("CPU-bound: High average CPU utilization (>90%)"));
        }
        if max_iow > 5000 {
            bottlenecks.push(str_bytes("I/O-bound: High CPU iowait observed (>50%)"));
        }
        let cg_hit = match cgroup_max {
            Some(c) => c > 9000,
            None => false,
        };
        if cg_hit {
            bottlenecks.push(str_bytes("Memory-bound: Cgroup memory near limit (>90%)"));
        }
        if swap_max > 0 {
            bottlenecks.push(str_bytes("Memory pressure: Swap usage detected"));
        }
        if max_dutil > 8000 {
            bottlenecks.push(str_bytes("Disk I/O-bound: High disk utilization (>80%)"));
        }

        Some(
            MetricsSummary {
                duration_ms,
                samples_count: n as u64,
                cpu_avg_utilization: avg_cpu,
                cpu_max_utilization: max_cpu,
                cpu_avg_iowait: avg_iow,
                cpu_max_iowait: max_iow,
                memory_avg_used_percent: avg_mem,
                memory_max_used_percent: max_mem,
                memory_max_used_bytes: max_mem_bytes,
                cgroup_max_usage_percent: cgroup_max,
                swap_max_used: swap_max,
                disk_max_read_throughput: max_dread,
                disk_max_write_throughput: max_dwrite,
                disk_max_utilization: max_dutil,
                network_total_rx_bytes: net_rx,
                network_total_tx_bytes: net_tx,
                network_max_rx_throughput: max_nrx,
                network_max_tx_throughput: max_ntx,
                process_max_cpu: proc_cpu,
                process_max_rss: proc_rss,
                process_max_fds: proc_fds,
                bottleneck_indicators: bottlenecks,
            },
        )
    }
}

impl Default for SummaryAccumulator {
    /// An empty accumulator.
    fn default() -> (r: SummaryAccumulator)
        ensures
            r.samples@.len() == 0,
            r.start_time is None,
    {
        SummaryAccumulator::new()
    }
}

/// The quotient of non-negative integers never exceeds the dividend.
proof fn lemma_div_bound(a: int, b: int)
    requires
        a >= 0,
        b > 0,
    ensures
        0 <= a / b <= a,
{
    vstd::arithmetic::div_mod::lemma_div_nonincreasing(a, b);
    vstd::arithmetic::div_mod::lemma_div_pos_is_pos(a, b);
}

/// The largest per-device utilization of one sample.
fn disk_util_max_exec(ds: &Vec<crate::disk::DiskStats>) -> (r: u64)
    ensures
        r == disk_util_max_one(ds@),
{
    let mut m: u64 = 0;
    let mut i: usize = 0;
    proof {
        assert(ds@.take(0) =~= Seq::<crate::disk::DiskStats>::empty());
    }
    while i < ds.len()
        invariant
            i <= ds@.len(),
            m == disk_util_max_one(ds@.take(i as int)),
        decreases ds@.len() - i,
    {
        proof {
            assert(ds@.take(i + 1 as int).drop_last() =~= ds@.take(i as int));
            assert(ds@.take(i + 1 as int).last() == ds@[i as int]);
        }
        if ds[i].utilization_percent > m {
            m = ds[i].utilization_percent;
        }
        i += 1;
    }
    proof {
        assert(ds@.take(ds@.len() as int) =~= ds@);
    }
    m
}

} // verus!
