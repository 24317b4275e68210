//! The two durable log sinks' formatting: the detailed machine-readable
//! rows whose column set is fixed once from the first populated sample,
//! and the fixed-width human-readable summary lines.

use vstd::prelude::*;
use vstd::string::StrSliceExecFns;
use vstd::string::StringSliceAdditionalSpecFns;
use crate::alert::deci_round;
use crate::bytes::{ascii_bytes, bytes_eq, str_bytes};
use crate::cpu::{CoreUtilization, CpuMetrics};
use crate::disk::{DiskMetrics, DiskStats};
use crate::memory::MemoryMetrics;
use crate::network::{InterfaceStats, NetworkMetrics};
use crate::numfmt::{dec_digits, fmt_fixed, fmt_fixed_spec, fmt_u64, join_fields, join_seqs, lemma_join_push, pad_left, pad_left_spec};
use crate::process::{ProcessMetrics, state_label};
use crate::psi::PsiMetrics;
use crate::timefmt::{format_ts_row, ts_row_text};

verus! {

/// An immutable snapshot of one tick.
#[derive(Clone, Debug)]
pub struct MetricsSample {
    /// Wall-clock milliseconds of the tick.
    pub timestamp_ms: u64,
    pub cpu: CpuMetrics,
    pub memory: MemoryMetrics,
    pub disk: DiskMetrics,
    pub network: NetworkMetrics,
    /// Metrics of the tracked process, when one is bound and readable.
    pub process: Option<ProcessMetrics>,
    /// Pressure metrics, absent when their collection failed.
    pub psi: Option<PsiMetrics>,
}

/// The bytes of a character rendering.
pub open spec fn text_bytes(s: Seq<char>) -> Seq<u8> {
    vstd::utf8::encode_utf8(s)
}

/// A fixed-point field with two decimals.
pub open spec fn f2(v: u64) -> Seq<u8> {
    fmt_fixed_spec(v as nat, 2)
}

/// A fixed-point field with three decimals.
pub open spec fn f3(v: u64) -> Seq<u8> {
    fmt_fixed_spec(v as nat, 3)
}

/// A whole-number field.
pub open spec fn fu(v: u64) -> Seq<u8> {
    dec_digits(v as nat)
}

/// An optional whole-number field; absent values are empty, not sentinels.
pub open spec fn fu_opt(v: Option<u64>) -> Seq<u8> {
    match v {
        Some(x) => fu(x),
        None => Seq::empty(),
    }
}

/// An optional two-decimal field.
pub open spec fn f2_opt(v: Option<u64>) -> Seq<u8> {
    match v {
        Some(x) => f2(x),
        None => Seq::empty(),
    }
}

/// The per-core header columns, one per remembered core id.
pub open spec fn core_hdr_fields(ids: Seq<u64>) -> Seq<Seq<u8>>
    decreases ids.len(),
{
    if ids.len() == 0 {
        Seq::empty()
    } else {
        core_hdr_fields(ids.drop_last()).push(
            ascii_bytes("cpu_core"@) + dec_digits(ids.last() as nat) + ascii_bytes("_pct"@),
        )
    }
}

/// The first entry for a core id in this sample.
pub open spec fn find_core(cores: Seq<CoreUtilization>, id: u64) -> Option<CoreUtilization>
    decreases cores.len(),
{
    if cores.len() == 0 {
        None
    } else if cores[0].core_id == id {
        Some(cores[0])
    } else {
        find_core(cores.drop_first(), id)
    }
}

/// The per-core row values: a remembered core missing from this sample
/// reports zero.
pub open spec fn core_row_fields(ids: Seq<u64>, cores: Seq<CoreUtilization>) -> Seq<Seq<u8>>
    decreases ids.len(),
{
    if ids.len() == 0 {
        Seq::empty()
    } else {
        core_row_fields(ids.drop_last(), cores).push(
            f2(
                match find_core(cores, ids.last()) {
                    Some(c) => c.utilization_percent,
                    None => 0u64,
                },
            ),
        )
    }
}

/// The eight per-device header columns of one device.
pub open spec fn dev_hdr_one(dev: Seq<u8>) -> Seq<Seq<u8>> {
    seq![
        ascii_bytes("disk_"@) + dev + ascii_bytes("_read_bytes_per_sec"@),
        ascii_bytes("disk_"@) + dev + ascii_bytes("_write_bytes_per_sec"@),
        ascii_bytes("disk_"@) + dev + ascii_bytes("_read_iops"@),
        ascii_bytes("disk_"@) + dev + ascii_bytes("_write_iops"@),
        ascii_bytes("disk_"@) + dev + ascii_bytes("_read_latency_ms"@),
        ascii_bytes("disk_"@) + dev + ascii_bytes("_write_latency_ms"@),
        ascii_bytes("disk_"@) + dev + ascii_bytes("_util_pct"@),
        ascii_bytes("disk_"@) + dev + ascii_bytes("_in_flight"@),
    ]
}

pub open spec fn dev_hdr_fields(devs: Seq<Seq<u8>>) -> Seq<Seq<u8>>
    decreases devs.len(),
{
    if devs.len() == 0 {
        Seq::empty()
    } else {
        dev_hdr_fields(devs.drop_last()) + dev_hdr_one(devs.last())
    }
}

/// The first entry for a device name in this sample.
pub open spec fn find_disk(ds: Seq<DiskStats>, dev: Seq<u8>) -> Option<DiskStats>
    decreases ds.len(),
{
    if ds.len() == 0 {
        None
    } else if ds[0].device@ == dev {
        Some(ds[0])
    } else {
        find_disk(ds.drop_first(), dev)
    }
}

/// The eight per-device row values of one device: a device at header time
/// but missing from this sample emits empty fields for its columns.
pub open spec fn dev_row_one(ds: Seq<DiskStats>, dev: Seq<u8>) -> Seq<Seq<u8>> {
    match find_disk(ds, dev) {
        Some(d) => seq![
            f2(d.read_bytes_per_sec),
            f2(d.write_bytes_per_sec),
            f2(d.read_iops),
            f2(d.write_iops),
            f3(d.read_latency_ms),
            f3(d.write_latency_ms),
            f2(d.utilization_percent),
            fu(d.in_flight),
        ],
        None => seq![
            Seq::empty(),
            Seq::empty(),
            Seq::empty(),
            Seq::empty(),
            Seq::empty(),
            Seq::empty(),
            Seq::empty(),
            Seq::empty(),
        ],
    }
}

pub open spec fn dev_row_fields(devs: Seq<Seq<u8>>, ds: Seq<DiskStats>) -> Seq<Seq<u8>>
    decreases devs.len(),
{
    if devs.len() == 0 {
        Seq::empty()
    } else {
        dev_row_fields(devs.drop_last(), ds) + dev_row_one(ds, devs.last())
    }
}

/// The six per-interface header columns of one interface.
pub open spec fn iface_hdr_one(name: Seq<u8>) -> Seq<Seq<u8>> {
    seq![
        ascii_bytes("net_"@) + name + ascii_bytes("_rx_bytes_per_sec"@),
        ascii_bytes("net_"@) + name + ascii_bytes("_tx_bytes_per_sec"@),
        ascii_bytes("net_"@) + name + ascii_bytes("_rx_packets_per_sec"@),
        ascii_bytes("net_"@) + name + ascii_bytes("_tx_packets_per_sec"@),
        ascii_bytes("net_"@) + name + ascii_bytes("_rx_errors"@),
        ascii_bytes("net_"@) + name + ascii_bytes("_tx_errors"@),
    ]
}

pub open spec fn iface_hdr_fields(names: Seq<Seq<u8>>) -> Seq<Seq<u8>>
    decreases names.len(),
{
    if names.len() == 0 {
        Seq::empty()
    } else {
        iface_hdr_fields(names.drop_last()) + iface_hdr_one(names.last())
    }
}

/// The first entry for an interface name in this sample.
pub open spec fn find_iface(es: Seq<InterfaceStats>, name: Seq<u8>) -> Option<InterfaceStats>
    decreases es.len(),
{
    if es.len() == 0 {
        None
    } else if es[0].interface@ == name {
        Some(es[0])
    } else {
        find_iface(es.drop_first(), name)
    }
}

/// The six per-interface row values of one interface.
pub open spec fn iface_row_one(es: Seq<InterfaceStats>, name: Seq<u8>) -> Seq<Seq<u8>> {
    match find_iface(es, name) {
        Some(e) => seq![
            f2(e.rx_bytes_per_sec),
            f2(e.tx_bytes_per_sec),
            f2(e.rx_packets_per_sec),
            f2(e.tx_packets_per_sec),
            fu(e.rx_errors),
            fu(e.tx_errors),
        ],
        None => seq![
            Seq::empty(),
            Seq::empty(),
            Seq::empty(),
            Seq::empty(),
            Seq::empty(),
            Seq::empty(),
        ],
    }
}

pub open spec fn iface_row_fields(names: Seq<Seq<u8>>, es: Seq<InterfaceStats>) -> Seq<Seq<u8>>
    decreases names.len(),
{
    if names.len() == 0 {
        Seq::empty()
    } else {
        iface_row_fields(names.drop_last(), es) + iface_row_one(es, names.last())
    }
}

/// The ten aggregate CPU header columns.
pub open spec fn cpu_hdr_fields() -> Seq<Seq<u8>> {
    seq![
        ascii_bytes("timestamp"@),
        ascii_bytes("cpu_total_pct"@),
        ascii_bytes("cpu_user_pct"@),
        ascii_bytes("cpu_system_pct"@),
        ascii_bytes("cpu_iowait_pct"@),
        ascii_bytes("cpu_load_1m"@),
        ascii_bytes("cpu_load_5m"@),
        ascii_bytes("cpu_load_15m"@),
        ascii_bytes("cpu_context_switches"@),
        ascii_bytes("cpu_interrupts"@),
    ]
}

/// The eighteen memory header columns.
pub open spec fn mem_hdr_fields() -> Seq<Seq<u8>> {
    seq![
        ascii_bytes("mem_total_bytes"@),
        ascii_bytes("mem_used_bytes"@),
        ascii_bytes("mem_available_bytes"@),
        ascii_bytes("mem_used_pct"@),
        ascii_bytes("mem_buffers_bytes"@),
        ascii_bytes("mem_cached_bytes"@),
        ascii_bytes("mem_dirty_bytes"@),
        ascii_bytes("mem_writeback_bytes"@),
        ascii_bytes("mem_active_file_bytes"@),
        ascii_bytes("mem_inactive_file_bytes"@),
        ascii_bytes("mem_swap_total_bytes"@),
        ascii_bytes("mem_swap_used_bytes"@),
        ascii_bytes("mem_swap_pct"@),
        ascii_bytes("mem_major_faults"@),
        ascii_bytes("mem_minor_faults"@),
        ascii_bytes("cgroup_limit_bytes"@),
        ascii_bytes("cgroup_current_bytes"@),
        ascii_bytes("cgroup_usage_pct"@),
    ]
}

/// The disk and network aggregate header columns.
pub open spec fn disk_agg_hdr_fields() -> Seq<Seq<u8>> {
    seq![
        ascii_bytes("disk_total_read_bytes_per_sec"@),
        ascii_bytes("disk_total_write_bytes_per_sec"@),
        ascii_bytes("disk_total_in_flight"@),
    ]
}

pub open spec fn net_agg_hdr_fields() -> Seq<Seq<u8>> {
    seq![
        ascii_bytes("net_total_rx_bytes_per_sec"@),
        ascii_bytes("net_total_tx_bytes_per_sec"@),
        ascii_bytes("net_tcp_connections"@),
        ascii_bytes("net_tcp_retransmits"@),
    ]
}

/// The fifteen pressure header columns.
pub open spec fn psi_hdr_fields() -> Seq<Seq<u8>> {
    seq![
        ascii_bytes("psi_cpu_some_avg10"@),
        ascii_bytes("psi_cpu_some_avg60"@),
        ascii_bytes("psi_cpu_some_avg300"@),
        ascii_bytes("psi_mem_some_avg10"@),
        ascii_bytes("psi_mem_some_avg60"@),
        ascii_bytes("psi_mem_some_avg300"@),
        ascii_bytes("psi_mem_full_avg10"@),
        ascii_bytes("psi_mem_full_avg60"@),
        ascii_bytes("psi_mem_full_avg300"@),
        ascii_bytes("psi_io_some_avg10"@),
        ascii_bytes("psi_io_some_avg60"@),
        ascii_bytes("psi_io_some_avg300"@),
        ascii_bytes("psi_io_full_avg10"@),
        ascii_bytes("psi_io_full_avg60"@),
        ascii_bytes("psi_io_full_avg300"@),
    ]
}

/// The twenty process header columns.
pub open spec fn proc_hdr_fields() -> Seq<Seq<u8>> {
    seq![
        ascii_bytes("proc_pid"@),
        ascii_bytes("proc_name"@),
        ascii_bytes("proc_state"@),
        ascii_bytes("proc_cpu_pct"@),
        ascii_bytes("proc_threads"@),
        ascii_bytes("proc_fds"@),
        ascii_bytes("proc_rss_bytes"@),
        ascii_bytes("proc_vsize_bytes"@),
        ascii_bytes("proc_vm_peak_bytes"@),
        ascii_bytes("proc_rss_anon_bytes"@),
        ascii_bytes("proc_rss_file_bytes"@),
        ascii_bytes("proc_rss_shmem_bytes"@),
        ascii_bytes("proc_vm_swap_bytes"@),
        ascii_bytes("proc_io_read_bytes_per_sec"@),
        ascii_bytes("proc_io_write_bytes_per_sec"@),
        ascii_bytes("proc_io_read_bytes_total"@),
        ascii_bytes("proc_io_write_bytes_total"@),
        ascii_bytes("proc_io_rchar"@),
        ascii_bytes("proc_io_wchar"@),
        ascii_bytes("proc_io_cancelled_write_bytes"@),
    ]
}

/// The full header column list for a remembered column set.
pub open spec fn header_fields(ids: Seq<u64>, devs: Seq<Seq<u8>>, ifaces: Seq<Seq<u8>>) -> Seq<
    Seq<u8>,
> {
    cpu_hdr_fields() + core_hdr_fields(ids) + mem_hdr_fields() + disk_agg_hdr_fields()
        + dev_hdr_fields(devs) + net_agg_hdr_fields() + iface_hdr_fields(ifaces)
        + psi_hdr_fields() + proc_hdr_fields()
}

/// The ten aggregate CPU row values.
pub open spec fn cpu_row_fields(s: MetricsSample) -> Seq<Seq<u8>> {
    seq![
        text_bytes(ts_row_text(s.timestamp_ms)),
        f2(s.cpu.total_utilization),
        f2(s.cpu.user_percent),
        f2(s.cpu.system_percent),
        f2(s.cpu.iowait_percent),
        f2(s.cpu.load_avg_1),
        f2(s.cpu.load_avg_5),
        f2(s.cpu.load_avg_15),
        fu_opt(s.cpu.context_switches_delta),
        fu_opt(s.cpu.interrupts_delta),
    ]
}

/// The eighteen memory row values.
pub open spec fn mem_row_fields(s: MetricsSample) -> Seq<Seq<u8>> {
    seq![
        fu(s.memory.total),
        fu(s.memory.used),
        fu(s.memory.available),
        f2(s.memory.used_percent),
        fu(s.memory.buffers),
        fu(s.memory.cached),
        fu(s.memory.dirty),
        fu(s.memory.writeback),
        fu(s.memory.active_file),
        fu(s.memory.inactive_file),
        fu(s.memory.swap_total),
        fu(s.memory.swap_used),
        f2(s.memory.swap_percent),
        fu_opt(s.memory.major_faults_delta),
        fu_opt(s.memory.minor_faults_delta),
        fu_opt(s.memory.cgroup_limit),
        fu_opt(s.memory.cgroup_current),
        f2_opt(s.memory.cgroup_usage_percent),
    ]
}

pub open spec fn disk_agg_row_fields(s: MetricsSample) -> Seq<Seq<u8>> {
    seq![
        f2(s.disk.total_read_bytes_per_sec),
        f2(s.disk.total_write_bytes_per_sec),
        fu(s.disk.total_in_flight),
    ]
}

pub open spec fn net_agg_row_fields(s: MetricsSample) -> Seq<Seq<u8>> {
    seq![
        f2(s.network.total_rx_bytes_per_sec),
        f2(s.network.total_tx_bytes_per_sec),
        fu(s.network.tcp.connections_established),
        fu_opt(s.network.tcp.retransmits_delta),
    ]
}

/// The fifteen pressure row values; absent pressure data is all empty.
pub open spec fn psi_row_fields(psi: Option<PsiMetrics>) -> Seq<Seq<u8>> {
    match psi {
        Some(p) => seq![
            f2(p.cpu.some_avg10),
            f2(p.cpu.some_avg60),
            f2(p.cpu.some_avg300),
            f2(p.memory.some_avg10),
            f2(p.memory.some_avg60),
            f2(p.memory.some_avg300),
            f2_opt(p.memory.full_avg10),
            f2_opt(p.memory.full_avg60),
            f2_opt(p.memory.full_avg300),
            f2(p.io.some_avg10),
            f2(p.io.some_avg60),
            f2(p.io.some_avg300),
            f2_opt(p.io.full_avg10),
            f2_opt(p.io.full_avg60),
            f2_opt(p.io.full_avg300),
        ],
        None => Seq::new(15, |i: int| Seq::<u8>::empty()),
    }
}

/// A process name quoted for the row, inner quotes doubled.
pub open spec fn escape_quotes(s: Seq<u8>) -> Seq<u8>
    decreases s.len(),
{
    if s.len() == 0 {
        Seq::empty()
    } else if s.last() == 34 {
        escape_quotes(s.drop_last()) + seq![34u8, 34u8]
    } else {
        escape_quotes(s.drop_last()).push(s.last())
    }
}

pub open spec fn quoted_name(s: Seq<u8>) -> Seq<u8> {
    seq![34u8] + escape_quotes(s) + seq![34u8]
}

/// The twenty process row values; no tracked process is all empty.
pub open spec fn proc_row_fields(p: Option<ProcessMetrics>) -> Seq<Seq<u8>> {
    match p {
        Some(p) => seq![
            dec_digits(p.pid as nat),
            quoted_name(p.name@),
            text_bytes(state_label(p.state)),
            f2(p.cpu_percent),
            fu(p.num_threads),
            fu(p.num_fds),
            fu(p.rss_bytes),
            fu(p.vsize_bytes),
            fu(p.vm_peak),
            fu(p.rss_anon),
            fu(p.rss_file),
            fu(p.rss_shmem),
            fu(p.vm_swap),
            f2(p.io_read_bytes_per_sec),
            f2(p.io_write_bytes_per_sec),
            fu(p.io_read_bytes),
            fu(p.io_write_bytes),
            fu(p.io_rchar),
            fu(p.io_wchar),
            fu(p.io_cancelled_write_bytes),
        ],
        None => Seq::new(20, |i: int| Seq::<u8>::empty()),
    }
}

/// The full row value list for a remembered column set.
pub open spec fn row_fields(
    ids: Seq<u64>,
    devs: Seq<Seq<u8>>,
    ifaces: Seq<Seq<u8>>,
    s: MetricsSample,
) -> Seq<Seq<u8>> {
    cpu_row_fields(s) + core_row_fields(ids, s.cpu.per_core@) + mem_row_fields(s)
        + disk_agg_row_fields(s) + dev_row_fields(devs, s.disk.disks@) + net_agg_row_fields(s)
        + iface_row_fields(ifaces, s.network.interfaces@) + psi_row_fields(s.psi)
        + proc_row_fields(s.process)
}

/// Header and row always align positionally: the same column set yields
/// the same number of fields for any sample.
pub proof fn lemma_header_row_aligned(
    ids: Seq<u64>,
    devs: Seq<Seq<u8>>,
    ifaces: Seq<Seq<u8>>,
    s: MetricsSample,
)
    ensures
        header_fields(ids, devs, ifaces).len() == row_fields(ids, devs, ifaces, s).len(),
{
    lemma_core_lens(ids, s.cpu.per_core@);
    lemma_dev_lens(devs, s.disk.disks@);
    lemma_iface_lens(ifaces, s.network.interfaces@);
}

proof fn lemma_core_lens(ids: Seq<u64>, cores: Seq<CoreUtilization>)
    ensures
        core_hdr_fields(ids).len() == ids.len(),
        core_row_fields(ids, cores).len() == ids.len(),
    decreases ids.len(),
{
    if ids.len() > 0 {
        lemma_core_lens(ids.drop_last(), cores);
    }
}

proof fn lemma_dev_lens(devs: Seq<Seq<u8>>, ds: Seq<DiskStats>)
    ensures
        dev_hdr_fields(devs).len() == 8 * devs.len(),
        dev_row_fields(devs, ds).len() == 8 * devs.len(),
    decreases devs.len(),
{
    if devs.len() > 0 {
        lemma_dev_lens(devs.drop_last(), ds);
    }
}

proof fn lemma_iface_lens(ifaces: Seq<Seq<u8>>, es: Seq<InterfaceStats>)
    ensures
        iface_hdr_fields(ifaces).len() == 6 * ifaces.len(),
        iface_row_fields(ifaces, es).len() == 6 * ifaces.len(),
    decreases ifaces.len(),
{
    if ifaces.len() > 0 {
        lemma_iface_lens(ifaces.drop_last(), es);
    }
}

/// The detailed machine-readable sink's formatter: the column set is
/// captured from the first populated sample and held for the segment.
pub struct DetailedTextLogger {
    /// Rows written so far.
    pub samples_written: u64,
    /// Whether the header has been emitted.
    pub header_written: bool,
    /// The remembered core ids, fixed at header time.
    pub core_ids: Vec<u64>,
    /// The remembered device names, fixed at header time.
    pub disk_devices: Vec<Vec<u8>>,
    /// The remembered interface names, fixed at header time.
    pub interface_names: Vec<Vec<u8>>,
}

/// The ghost image of the remembered device names.
pub open spec fn names_of(v: Seq<Vec<u8>>) -> Seq<Seq<u8>> {
    v.map_values(|n: Vec<u8>| n@)
}

impl DetailedTextLogger {
    /// A fresh formatter: no header yet, no rows written.
    pub fn new() -> (r: DetailedTextLogger)
        ensures
            r.samples_written == 0,
            !r.header_written,
            r.core_ids@.len() == 0,
            r.disk_devices@.len() == 0,
            r.interface_names@.len() == 0,
    {
        DetailedTextLogger {
            samples_written: 0,
            header_written: false,
            core_ids: Vec::new(),
            disk_devices: Vec::new(),
            interface_names: Vec::new(),
        }
    }

    /// Rows written so far.
    pub fn samples_written(&self) -> (r: u64)
        ensures
            r == self.samples_written,
    {
        self.samples_written
    }

    /// Formats one sample: the lines to append to the sink, in order.
    ///
    /// Before the header, a sample with no per-device and no per-interface
    /// data is skipped entirely; the first populated sample fixes the
    /// column set and yields the header line and its row.  Afterwards every
    /// sample yields one row aligned to the fixed columns: the remembered
    /// column set never changes, a remembered device missing from the
    /// sample leaves its fields empty, and a new device is not represented.
    pub fn log(&mut self, sample: &MetricsSample) -> (r: Vec<Vec<u8>>)
        requires
            old(self).samples_written < u64::MAX,
        ensures
            ({
                let ids = final(self).core_ids@;
                let devs = names_of(final(self).disk_devices@);
                let ifaces = names_of(final(self).interface_names@);
                &&& (!old(self).header_written && sample.disk.disks@.len() == 0
                    && sample.network.interfaces@.len() == 0) ==> (r@.len() == 0 && *final(self)
                    == *old(self))
                &&& (!old(self).header_written && !(sample.disk.disks@.len() == 0
                    && sample.network.interfaces@.len() == 0)) ==> ({
                    &&& final(self).header_written
                    &&& ids == Seq::new(
                        sample.cpu.per_core@.len(),
                        |i: int| sample.cpu.per_core@[i].core_id,
                    )
                    &&& devs == Seq::new(
                        sample.disk.disks@.len(),
                        |i: int| sample.disk.disks@[i].device@,
                    )
                    &&& ifaces == Seq::new(
                        sample.network.interfaces@.len(),
                        |i: int| sample.network.interfaces@[i].interface@,
                    )
                    &&& r@.len() == 2
                    &&& r@[0]@ == join_seqs(header_fields(ids, devs, ifaces), 44)
                    &&& r@[1]@ == join_seqs(row_fields(ids, devs, ifaces, *sample), 44)
                    &&& final(self).samples_written == old(self).samples_written + 1
                })
                &&& old(self).header_written ==> ({
                    &&& final(self).header_written
                    &&& ids == old(self).core_ids@
                    &&& devs == names_of(old(self).disk_devices@)
                    &&& ifaces == names_of(old(self).interface_names@)
                    &&& r@.len() == 1
                    &&& r@[0]@ == join_seqs(row_fields(ids, devs, ifaces, *sample), 44)
                    &&& final(self).samples_written == old(self).samples_written + 1
                })
            }),
    {
        let mut out: Vec<Vec<u8>> = Vec::new();
        if !self.header_written {
            if sample.disk.disks.len() == 0 && sample.network.interfaces.len() == 0 {
                return out;
            }
            let mut ids: Vec<u64> = Vec::new();
            let mut k: usize = 0;
            while k < sample.cpu.per_core.len()
                invariant
                    k <= sample.cpu.per_core@.len(),
                    ids@ =~= Seq::new(k as nat, |i: int| sample.cpu.per_core@[i].core_id),
                decreases sample.cpu.per_core@.len() - k,
            {
                ids.push(sample.cpu.per_core[k].core_id);
                proof {
                    assert(ids@ =~= Seq::new(
                        (k + 1) as nat,
                        |i: int| sample.cpu.per_core@[i].core_id,
                    ));
                }
                k += 1;
            }
            let mut devs: Vec<Vec<u8>> = Vec::new();
            let mut k2: usize = 0;
            while k2 < sample.disk.disks.len()
                invariant
                    k2 <= sample.disk.disks@.len(),
                    names_of(devs@) =~= Seq::new(
                        k2 as nat,
                        |i: int| sample.disk.disks@[i].device@,
                    ),
                decreases sample.disk.disks@.len() - k2,
            {
                let ghost before = names_of(devs@);
                devs.push(sample.disk.disks[k2].device.clone());
                proof {
                    assert(names_of(devs@) =~= before.push(sample.disk.disks@[k2 as int].device@));
                    assert(names_of(devs@) =~= Seq::new(
                        (k2 + 1) as nat,
                        |i: int| sample.disk.disks@[i].device@,
                    ));
                }
                k2 += 1;
            }
            let mut ifs: Vec<Vec<u8>> = Vec::new();
            let mut k3: usize = 0;
            while k3 < sample.network.interfaces.len()
                invariant
                    k3 <= sample.network.interfaces@.len(),
                    names_of(ifs@) =~= Seq::new(
                        k3 as nat,
                        |i: int| sample.network.interfaces@[i].interface@,
                    ),
                decreases sample.network.interfaces@.len() - k3,
            {
                let ghost before = names_of(ifs@);
                ifs.push(sample.network.interfaces[k3].interface.clone());
                proof {
                    assert(names_of(ifs@) =~= before.push(
                        sample.network.interfaces@[k3 as int].interface@,
                    ));
                    assert(names_of(ifs@) =~= Seq::new(
                        (k3 + 1) as nat,
                        |i: int| sample.network.interfaces@[i].interface@,
                    ));
                }
                k3 += 1;
            }
            self.core_ids = ids;
            self.disk_devices = devs;
            self.interface_names = ifs;
            self.header_written = true;
            let header = self.build_header();
            out.push(header);
        }
        let row = self.build_row(sample);
        out.push(row);
        self.samples_written = self.samples_written + 1;
        out
    }

    /// Joins the header columns of the remembered column set.
    fn build_header(&self) -> (r: Vec<u8>)
        ensures
            r@ == join_seqs(
                header_fields(
                    self.core_ids@,
                    names_of(self.disk_devices@),
                    names_of(self.interface_names@),
                ),
                44,
            ),
    {
        let mut fields: Vec<Vec<u8>> = Vec::new();
        push_cpu_hdr(&mut fields);
        let ghost base1 = fields@.map_values(|f: Vec<u8>| f@);
        let mut k: usize = 0;
        proof {
            assert(self.core_ids@.take(0) =~= Seq::<u64>::empty());
            assert(base1 + core_hdr_fields(self.core_ids@.take(0)) =~= base1);
        }
        while k < self.core_ids.len()
            invariant
                k <= self.core_ids@.len(),
                fields@.map_values(|f: Vec<u8>| f@) == base1 + core_hdr_fields(
                    self.core_ids@.take(k as int),
                ),
            decreases self.core_ids@.len() - k,
        {
            proof {
                reveal_strlit("cpu_core");
                reveal_strlit("_pct");
                assert(self.core_ids@.take(k + 1 as int).drop_last() =~= self.core_ids@.take(
                    k as int,
                ));
                assert(self.core_ids@.take(k + 1 as int).last() == self.core_ids@[k as int]);
            }
            let mut name = str_bytes("cpu_core");
            let mut num = fmt_u64(self.core_ids[k]);
            name.append(&mut num);
            let mut sfx = str_bytes("_pct");
            name.append(&mut sfx);
            let ghost before = fields@.map_values(|f: Vec<u8>| f@);
            let ghost gname = name@;
            fields.push(name);
            proof {
                assert(fields@.map_values(|f: Vec<u8>| f@) =~= before.push(gname));
                assert(before.push(gname) =~= base1 + core_hdr_fields(
                    self.core_ids@.take(k + 1 as int),
                ));
            }
            k += 1;
        }
        proof {
            assert(self.core_ids@.take(self.core_ids@.len() as int) =~= self.core_ids@);
        }
        push_mem_hdr(&mut fields);
        push_disk_agg_hdr(&mut fields);
        let ghost base2 = fields@.map_values(|f: Vec<u8>| f@);
        let ghost gdevs = names_of(self.disk_devices@);
        let mut k2: usize = 0;
        proof {
            assert(gdevs.take(0) =~= Seq::<Seq<u8>>::empty());
            assert(base2 + dev_hdr_fields(gdevs.take(0)) =~= base2);
        }
        while k2 < self.disk_devices.len()
            invariant
                k2 <= self.disk_devices@.len(),
                gdevs == names_of(self.disk_devices@),
                fields@.map_values(|f: Vec<u8>| f@) == base2 + dev_hdr_fields(
                    gdevs.take(k2 as int),
                ),
            decreases self.disk_devices@.len() - k2,
        {
            proof {
                assert(gdevs.take(k2 + 1 as int).drop_last() =~= gdevs.take(k2 as int));
                assert(gdevs.take(k2 + 1 as int).last() == gdevs[k2 as int]);
            }
            push_dev_hdr(&mut fields, &self.disk_devices[k2]);
            proof {
                assert(fields@.map_values(|f: Vec<u8>| f@) =~= base2 + dev_hdr_fields(
                    gdevs.take(k2 + 1 as int),
                ));
            }
            k2 += 1;
        }
        proof {
            assert(gdevs.take(gdevs.len() as int) =~= gdevs);
        }
        push_net_agg_hdr(&mut fields);
        let ghost base3 = fields@.map_values(|f: Vec<u8>| f@);
        let ghost gifs = names_of(self.interface_names@);
        let mut k3: usize = 0;
        proof {
            assert(gifs.take(0) =~= Seq::<Seq<u8>>::empty());
            assert(base3 + iface_hdr_fields(gifs.take(0)) =~= base3);
        }
        while k3 < self.interface_names.len()
            invariant
                k3 <= self.interface_names@.len(),
                gifs == names_of(self.interface_names@),
                fields@.map_values(|f: Vec<u8>| f@) == base3 + iface_hdr_fields(
                    gifs.take(k3 as int),
                ),
            decreases self.interface_names@.len() - k3,
        {
            proof {
                assert(gifs.take(k3 + 1 as int).drop_last() =~= gifs.take(k3 as int));
                assert(gifs.take(k3 + 1 as int).last() == gifs[k3 as int]);
            }
            push_iface_hdr(&mut fields, &self.interface_names[k3]);
            proof {
                assert(fields@.map_values(|f: Vec<u8>| f@) =~= base3 + iface_hdr_fields(
                    gifs.take(k3 + 1 as int),
                ));
            }
            k3 += 1;
        }
        proof {
            assert(gifs.take(gifs.len() as int) =~= gifs);
        }
        push_psi_hdr(&mut fields);
        push_proc_hdr(&mut fields);
        proof {
            assert(fields@.map_values(|f: Vec<u8>| f@) =~= header_fields(
                self.core_ids@,
                names_of(self.disk_devices@),
                names_of(self.interface_names@),
            ));
        }
        join_fields(&fields, 44)
    }

    /// Joins the row values of one sample against the remembered columns.
    fn build_row(&self, sample: &MetricsSample) -> (r: Vec<u8>)
        ensures
            r@ == join_seqs(
                row_fields(
                    self.core_ids@,
                    names_of(self.disk_devices@),
                    names_of(self.interface_names@),
                    *sample,
                ),
                44,
            ),
    {
        let mut fields: Vec<Vec<u8>> = Vec::new();
        push_cpu_row(&mut fields, sample);
        let ghost base1 = fields@.map_values(|f: Vec<u8>| f@);
        let mut k: usize = 0;
        proof {
            assert(self.core_ids@.take(0) =~= Seq::<u64>::empty());
            assert(base1 + core_row_fields(self.core_ids@.take(0), sample.cpu.per_core@)
                =~= base1);
        }
        while k < self.core_ids.len()
            invariant
                k <= self.core_ids@.len(),
                fields@.map_values(|f: Vec<u8>| f@) == base1 + core_row_fields(
                    self.core_ids@.take(k as int),
                    sample.cpu.per_core@,
                ),
            decreases self.core_ids@.len() - k,
        {
            proof {
                assert(self.core_ids@.take(k + 1 as int).drop_last() =~= self.core_ids@.take(
                    k as int,
                ));
                assert(self.core_ids@.take(k + 1 as int).last() == self.core_ids@[k as int]);
            }
            let id = self.core_ids[k];
            let util = find_core_exec(&sample.cpu.per_core, id);
            let field = fmt_fixed(util, 2);
            let ghost before = fields@.map_values(|f: Vec<u8>| f@);
            let ghost gf = field@;
            fields.push(field);
            proof {
                assert(fields@.map_values(|f: Vec<u8>| f@) =~= before.push(gf));
                assert(before.push(gf) =~= base1 + core_row_fields(
                    self.core_ids@.take(k + 1 as int),
                    sample.cpu.per_core@,
                ));
            }
            k += 1;
        }
        proof {
            assert(self.core_ids@.take(self.core_ids@.len() as int) =~= self.core_ids@);
        }
        push_mem_row(&mut fields, sample);
        push_disk_agg_row(&mut fields, sample);
        let ghost base2 = fields@.map_values(|f: Vec<u8>| f@);
        let ghost gdevs = names_of(self.disk_devices@);
        let mut k2: usize = 0;
        proof {
            assert(gdevs.take(0) =~= Seq::<Seq<u8>>::empty());
            assert(base2 + dev_row_fields(gdevs.take(0), sample.disk.disks@) =~= base2);
        }
        while k2 < self.disk_devices.len()
            invariant
                k2 <= self.disk_devices@.len(),
                gdevs == names_of(self.disk_devices@),
                fields@.map_values(|f: Vec<u8>| f@) == base2 + dev_row_fields(
                    gdevs.take(k2 as int),
                    sample.disk.disks@,
                ),
            decreases self.disk_devices@.len() - k2,
        {
            proof {
                assert(gdevs.take(k2 + 1 as int).drop_last() =~= gdevs.take(k2 as int));
                assert(gdevs.take(k2 + 1 as int).last() == gdevs[k2 as int]);
            }
            push_dev_row(&mut fields, &sample.disk.disks, &self.disk_devices[k2]);
            proof {
                assert(fields@.map_values(|f: Vec<u8>| f@) =~= base2 + dev_row_fields(
                    gdevs.take(k2 + 1 as int),
                    sample.disk.disks@,
                ));
            }
            k2 += 1;
        }
        proof {
            assert(gdevs.take(gdevs.len() as int) =~= gdevs);
        }
        push_net_agg_row(&mut fields, sample);
        let ghost base3 = fields@.map_values(|f: Vec<u8>| f@);
        let ghost gifs = names_of(self.interface_names@);
        let mut k3: usize = 0;
        proof {
            assert(gifs.take(0) =~= Seq::<Seq<u8>>::empty());
            assert(base3 + iface_row_fields(gifs.take(0), sample.network.interfaces@) =~= base3);
        }
        while k3 < self.interface_names.len()
            invariant
                k3 <= self.interface_names@.len(),
                gifs == names_of(self.interface_names@),
                fields@.map_values(|f: Vec<u8>| f@) == base3 + iface_row_fields(
                    gifs.take(k3 as int),
                    sample.network.interfaces@,
                ),
            decreases self.interface_names@.len() - k3,
        {
            proof {
                assert(gifs.take(k3 + 1 as int).drop_last() =~= gifs.take(k3 as int));
                assert(gifs.take(k3 + 1 as int).last() == gifs[k3 as int]);
            }
            push_iface_row(&mut fields, &sample.network.interfaces, &self.interface_names[k3]);
            proof {
                assert(fields@.map_values(|f: Vec<u8>| f@) =~= base3 + iface_row_fields(
                    gifs.take(k3 + 1 as int),
                    sample.network.interfaces@,
                ));
            }
            k3 += 1;
        }
        proof {
            assert(gifs.take(gifs.len() as int) =~= gifs);
        }
        push_psi_row(&mut fields, sample);
        push_proc_row(&mut fields, sample);
        proof {
            assert(fields@.map_values(|f: Vec<u8>| f@) =~= row_fields(
                self.core_ids@,
                names_of(self.disk_devices@),
                names_of(self.interface_names@),
                *sample,
            ));
        }
        join_fields(&fields, 44)
    }
}

/// Looks up a remembered core's utilization in this sample, zero when the
/// core is absent.
fn find_core_exec(cores: &Vec<CoreUtilization>, id: u64) -> (r: u64)
    ensures
        r == (match find_core(cores@, id) {
            Some(c) => c.utilization_percent,
            None => 0u64,
        }),
{
    let mut i: usize = 0;
    proof {
        assert(cores@.skip(0) =~= cores@);
    }
    while i < cores.len()
        invariant
            i <= cores@.len(),
            find_core(cores@, id) == find_core(cores@.skip(i as int), id),
        decreases cores@.len() - i,
    {
        proof {
            assert(cores@.skip(i as int).drop_first() =~= cores@.skip(i + 1 as int));
        }
        if cores[i].core_id == id {
            return cores[i].utilization_percent;
        }
        i += 1;
    }
    0
}

/// Pushes a literal column name.
fn push_lit(fields: &mut Vec<Vec<u8>>, name: &str)
    requires
        name.is_ascii(),
    ensures
        final(fields)@.map_values(|f: Vec<u8>| f@) == old(fields)@.map_values(|f: Vec<u8>| f@)
            .push(ascii_bytes(name@)),
{
    let ghost before = fields@.map_values(|f: Vec<u8>| f@);
    fields.push(str_bytes(name));
    proof {
        assert(fields@.map_values(|f: Vec<u8>| f@) =~= before.push(ascii_bytes(name@)));
    }
}

/// Pushes an owned field.
fn push_field(fields: &mut Vec<Vec<u8>>, field: Vec<u8>)
    ensures
        final(fields)@.map_values(|f: Vec<u8>| f@) == old(fields)@.map_values(|f: Vec<u8>| f@)
            .push(field@),
{
    let ghost gf = field@;
    let ghost before = fields@.map_values(|f: Vec<u8>| f@);
    fields.push(field);
    proof {
        assert(fields@.map_values(|f: Vec<u8>| f@) =~= before.push(gf));
    }
}

/// Pushes an optional whole-number field, empty when absent.
fn push_opt_u64(fields: &mut Vec<Vec<u8>>, v: Option<u64>)
    ensures
        final(fields)@.map_values(|f: Vec<u8>| f@) == old(fields)@.map_values(|f: Vec<u8>| f@)
            .push(fu_opt(v)),
{
    match v {
        Some(x) => push_field(fields, fmt_u64(x)),
        None => {
            let e: Vec<u8> = Vec::new();
            proof {
                assert(e@ =~= fu_opt(v));
            }
            push_field(fields, e);
        },
    }
}

/// Pushes an optional two-decimal field, empty when absent.
fn push_opt_f2(fields: &mut Vec<Vec<u8>>, v: Option<u64>)
    ensures
        final(fields)@.map_values(|f: Vec<u8>| f@) == old(fields)@.map_values(|f: Vec<u8>| f@)
            .push(f2_opt(v)),
{
    match v {
        Some(x) => push_field(fields, fmt_fixed(x, 2)),
        None => {
            let e: Vec<u8> = Vec::new();
            proof {
                assert(e@ =~= f2_opt(v));
            }
            push_field(fields, e);
        },
    }
}

fn push_cpu_hdr(fields: &mut Vec<Vec<u8>>)
    ensures
        final(fields)@.map_values(|f: Vec<u8>| f@) == old(fields)@.map_values(|f: Vec<u8>| f@)
            + cpu_hdr_fields(),
{
    proof {
        reveal_strlit("timestamp");
        reveal_strlit("cpu_total_pct");
        reveal_strlit("cpu_user_pct");
        reveal_strlit("cpu_system_pct");
        reveal_strlit("cpu_iowait_pct");
        reveal_strlit("cpu_load_1m");
        reveal_strlit("cpu_load_5m");
        reveal_strlit("cpu_load_15m");
        reveal_strlit("cpu_context_switches");
        reveal_strlit("cpu_interrupts");
    }
    push_lit(fields, "timestamp");
    push_lit(fields, "cpu_total_pct");
    push_lit(fields, "cpu_user_pct");
    push_lit(fields, "cpu_system_pct");
    push_lit(fields, "cpu_iowait_pct");
    push_lit(fields, "cpu_load_1m");
    push_lit(fields, "cpu_load_5m");
    push_lit(fields, "cpu_load_15m");
    push_lit(fields, "cpu_context_switches");
    push_lit(fields, "cpu_interrupts");
    proof {
        assert(fields@.map_values(|f: Vec<u8>| f@) =~= old(fields)@.map_values(|f: Vec<u8>| f@)
            + cpu_hdr_fields());
    }
}

#[verifier::rlimit(60)]
fn push_mem_hdr(fields: &mut Vec<Vec<u8>>)
    ensures
        final(fields)@.map_values(|f: Vec<u8>| f@) == old(fields)@.map_values(|f: Vec<u8>| f@)
            + mem_hdr_fields(),
{
    proof {
        reveal_strlit("mem_total_bytes");
        reveal_strlit("mem_used_bytes");
        reveal_strlit("mem_available_bytes");
        reveal_strlit("mem_used_pct");
        reveal_strlit("mem_buffers_bytes");
        reveal_strlit("mem_cached_bytes");
        reveal_strlit("mem_dirty_bytes");
        reveal_strlit("mem_writeback_bytes");
        reveal_strlit("mem_active_file_bytes");
        reveal_strlit("mem_inactive_file_bytes");
        reveal_strlit("mem_swap_total_bytes");
        reveal_strlit("mem_swap_used_bytes");
        reveal_strlit("mem_swap_pct");
        reveal_strlit("mem_major_faults");
        reveal_strlit("mem_minor_faults");
        reveal_strlit("cgroup_limit_bytes");
        reveal_strlit("cgroup_current_bytes");
        reveal_strlit("cgroup_usage_pct");
    }
    push_lit(fields, "mem_total_bytes");
    push_lit(fields, "mem_used_bytes");
    push_lit(fields, "mem_available_bytes");
    push_lit(fields, "mem_used_pct");
    push_lit(fields, "mem_buffers_bytes");
    push_lit(fields, "mem_cached_bytes");
    push_lit(fields, "mem_dirty_bytes");
    push_lit(fields, "mem_writeback_bytes");
    push_lit(fields, "mem_active_file_bytes");
    push_lit(fields, "mem_inactive_file_bytes");
    push_lit(fields, "mem_swap_total_bytes");
    push_lit(fields, "mem_swap_used_bytes");
    push_lit(fields, "mem_swap_pct");
    push_lit(fields, "mem_major_faults");
    push_lit(fields, "mem_minor_faults");
    push_lit(fields, "cgroup_limit_bytes");
    push_lit(fields, "cgroup_current_bytes");
    push_lit(fields, "cgroup_usage_pct");
    proof {
        assert(fields@.map_values(|f: Vec<u8>| f@) =~= old(fields)@.map_values(|f: Vec<u8>| f@)
            + mem_hdr_fields());
    }
}

fn push_disk_agg_hdr(fields: &mut Vec<Vec<u8>>)
    ensures
        final(fields)@.map_values(|f: Vec<u8>| f@) == old(fields)@.map_values(|f: Vec<u8>| f@)
            + disk_agg_hdr_fields(),
{
    proof {
        reveal_strlit("disk_total_read_bytes_per_sec");
        reveal_strlit("disk_total_write_bytes_per_sec");
        reveal_strlit("disk_total_in_flight");
    }
    push_lit(fields, "disk_total_read_bytes_per_sec");
    push_lit(fields, "disk_total_write_bytes_per_sec");
    push_lit(fields, "disk_total_in_flight");
    proof {
        assert(fields@.map_values(|f: Vec<u8>| f@) =~= old(fields)@.map_values(|f: Vec<u8>| f@)
            + disk_agg_hdr_fields());
    }
}

fn push_net_agg_hdr(fields: &mut Vec<Vec<u8>>)
    ensures
        final(fields)@.map_values(|f: Vec<u8>| f@) == old(fields)@.map_values(|f: Vec<u8>| f@)
            + net_agg_hdr_fields(),
{
    proof {
        reveal_strlit("net_total_rx_bytes_per_sec");
        reveal_strlit("net_total_tx_bytes_per_sec");
        reveal_strlit("net_tcp_connections");
        reveal_strlit("net_tcp_retransmits");
    }
    push_lit(fields, "net_total_rx_bytes_per_sec");
    push_lit(fields, "net_total_tx_bytes_per_sec");
    push_lit(fields, "net_tcp_connections");
    push_lit(fields, "net_tcp_retransmits");
    proof {
        assert(fields@.map_values(|f: Vec<u8>| f@) =~= old(fields)@.map_values(|f: Vec<u8>| f@)
            + net_agg_hdr_fields());
    }
}

#[verifier::rlimit(60)]
fn push_psi_hdr(fields: &mut Vec<Vec<u8>>)
    ensures
        final(fields)@.map_values(|f: Vec<u8>| f@) == old(fields)@.map_values(|f: Vec<u8>| f@)
            + psi_hdr_fields(),
{
    proof {
        reveal_strlit("psi_cpu_some_avg10");
        reveal_strlit("psi_cpu_some_avg60");
        reveal_strlit("psi_cpu_some_avg300");
        reveal_strlit("psi_mem_some_avg10");
        reveal_strlit("psi_mem_some_avg60");
        reveal_strlit("psi_mem_some_avg300");
        reveal_strlit("psi_mem_full_avg10");
        reveal_strlit("psi_mem_full_avg60");
        reveal_strlit("psi_mem_full_avg300");
        reveal_strlit("psi_io_some_avg10");
        reveal_strlit("psi_io_some_avg60");
        reveal_strlit("psi_io_some_avg300");
        reveal_strlit("psi_io_full_avg10");
        reveal_strlit("psi_io_full_avg60");
        reveal_strlit("psi_io_full_avg300");
    }
    push_lit(fields, "psi_cpu_some_avg10");
    push_lit(fields, "psi_cpu_some_avg60");
    push_lit(fields, "psi_cpu_some_avg300");
    push_lit(fields, "psi_mem_some_avg10");
    push_lit(fields, "psi_mem_some_avg60");
    push_lit(fields, "psi_mem_some_avg300");
    push_lit(fields, "psi_mem_full_avg10");
    push_lit(fields, "psi_mem_full_avg60");
    push_lit(fields, "psi_mem_full_avg300");
    push_lit(fields, "psi_io_some_avg10");
    push_lit(fields, "psi_io_some_avg60");
    push_lit(fields, "psi_io_some_avg300");
    push_lit(fields, "psi_io_full_avg10");
    push_lit(fields, "psi_io_full_avg60");
    push_lit(fields, "psi_io_full_avg300");
    proof {
        assert(fields@.map_values(|f: Vec<u8>| f@) =~= old(fields)@.map_values(|f: Vec<u8>| f@)
            + psi_hdr_fields());
    }
}

#[verifier::rlimit(60)]
fn push_proc_hdr(fields: &mut Vec<Vec<u8>>)
    ensures
        final(fields)@.map_values(|f: Vec<u8>| f@) == old(fields)@.map_values(|f: Vec<u8>| f@)
            + proc_hdr_fields(),
{
    proof {
        reveal_strlit("proc_pid");
        reveal_strlit("proc_name");
        reveal_strlit("proc_state");
        reveal_strlit("proc_cpu_pct");
        reveal_strlit("proc_threads");
        reveal_strlit("proc_fds");
        reveal_strlit("proc_rss_bytes");
        reveal_strlit("proc_vsize_bytes");
        reveal_strlit("proc_vm_peak_bytes");
        reveal_strlit("proc_rss_anon_bytes");
        reveal_strlit("proc_rss_file_bytes");
        reveal_strlit("proc_rss_shmem_bytes");
        reveal_strlit("proc_vm_swap_bytes");
        reveal_strlit("proc_io_read_bytes_per_sec");
        reveal_strlit("proc_io_write_bytes_per_sec");
        reveal_strlit("proc_io_read_bytes_total");
        reveal_strlit("proc_io_write_bytes_total");
        reveal_strlit("proc_io_rchar");
        reveal_strlit("proc_io_wchar");
        reveal_strlit("proc_io_cancelled_write_bytes");
    }
    push_lit(fields, "proc_pid");
    push_lit(fields, "proc_name");
    push_lit(fields, "proc_state");
    push_lit(fields, "proc_cpu_pct");
    push_lit(fields, "proc_threads");
    push_lit(fields, "proc_fds");
    push_lit(fields, "proc_rss_bytes");
    push_lit(fields, "proc_vsize_bytes");
    push_lit(fields, "proc_vm_peak_bytes");
    push_lit(fields, "proc_rss_anon_bytes");
    push_lit(fields, "proc_rss_file_bytes");
    push_lit(fields, "proc_rss_shmem_bytes");
    push_lit(fields, "proc_vm_swap_bytes");
    push_lit(fields, "proc_io_read_bytes_per_sec");
    push_lit(fields, "proc_io_write_bytes_per_sec");
    push_lit(fields, "proc_io_read_bytes_total");
    push_lit(fields, "proc_io_write_bytes_total");
    push_lit(fields, "proc_io_rchar");
    push_lit(fields, "proc_io_wchar");
    push_lit(fields, "proc_io_cancelled_write_bytes");
    proof {
        assert(fields@.map_values(|f: Vec<u8>| f@) =~= old(fields)@.map_values(|f: Vec<u8>| f@)
            + proc_hdr_fields());
    }
}

/// Pushes the eight header columns of one device.
fn push_dev_hdr(fields: &mut Vec<Vec<u8>>, dev: &Vec<u8>)
    ensures
        final(fields)@.map_values(|f: Vec<u8>| f@) == old(fields)@.map_values(|f: Vec<u8>| f@)
            + dev_hdr_one(dev@),
{
    proof {
        reveal_strlit("disk_");
        reveal_strlit("_read_bytes_per_sec");
        reveal_strlit("_write_bytes_per_sec");
        reveal_strlit("_read_iops");
        reveal_strlit("_write_iops");
        reveal_strlit("_read_latency_ms");
        reveal_strlit("_write_latency_ms");
        reveal_strlit("_util_pct");
        reveal_strlit("_in_flight");
    }
    push_named(fields, "disk_", dev, "_read_bytes_per_sec");
    push_named(fields, "disk_", dev, "_write_bytes_per_sec");
    push_named(fields, "disk_", dev, "_read_iops");
    push_named(fields, "disk_", dev, "_write_iops");
    push_named(fields, "disk_", dev, "_read_latency_ms");
    push_named(fields, "disk_", dev, "_write_latency_ms");
    push_named(fields, "disk_", dev, "_util_pct");
    push_named(fields, "disk_", dev, "_in_flight");
    proof {
        assert(fields@.map_values(|f: Vec<u8>| f@) =~= old(fields)@.map_values(|f: Vec<u8>| f@)
            + dev_hdr_one(dev@));
    }
}

/// Pushes the six header columns of one interface.
fn push_iface_hdr(fields: &mut Vec<Vec<u8>>, name: &Vec<u8>)
    ensures
        final(fields)@.map_values(|f: Vec<u8>| f@) == old(fields)@.map_values(|f: Vec<u8>| f@)
            + iface_hdr_one(name@),
{
    proof {
        reveal_strlit("net_");
        reveal_strlit("_rx_bytes_per_sec");
        reveal_strlit("_tx_bytes_per_sec");
        reveal_strlit("_rx_packets_per_sec");
        reveal_strlit("_tx_packets_per_sec");
        reveal_strlit("_rx_errors");
        reveal_strlit("_tx_errors");
    }
    push_named(fields, "net_", name, "_rx_bytes_per_sec");
    push_named(fields, "net_", name, "_tx_bytes_per_sec");
    push_named(fields, "net_", name, "_rx_packets_per_sec");
    push_named(fields, "net_", name, "_tx_packets_per_sec");
    push_named(fields, "net_", name, "_rx_errors");
    push_named(fields, "net_", name, "_tx_errors");
    proof {
        assert(fields@.map_values(|f: Vec<u8>| f@) =~= old(fields)@.map_values(|f: Vec<u8>| f@)
            + iface_hdr_one(name@));
    }
}

/// Pushes a `prefix + name + suffix` column.
fn push_named(fields: &mut Vec<Vec<u8>>, prefix: &str, name: &Vec<u8>, suffix: &str)
    requires
        prefix.is_ascii(),
        suffix.is_ascii(),
    ensures
        final(fields)@.map_values(|f: Vec<u8>| f@) == old(fields)@.map_values(|f: Vec<u8>| f@)
            .push(ascii_bytes(prefix@) + name@ + ascii_bytes(suffix@)),
{
    let mut col = str_bytes(prefix);
    let mut nm = name.clone();
    col.append(&mut nm);
    let mut sfx = str_bytes(suffix);
    col.append(&mut sfx);
    proof {
        assert(col@ =~= ascii_bytes(prefix@) + name@ + ascii_bytes(suffix@));
    }
    push_field(fields, col);
}

fn push_cpu_row(fields: &mut Vec<Vec<u8>>, s: &MetricsSample)
    ensures
        final(fields)@.map_values(|f: Vec<u8>| f@) == old(fields)@.map_values(|f: Vec<u8>| f@)
            + cpu_row_fields(*s),
{
    let ts = format_ts_row(s.timestamp_ms);
    let tsb = vstd::slice::slice_to_vec(ts.as_str().as_bytes());
    proof {
        assert(tsb@ == text_bytes(ts_row_text(s.timestamp_ms)));
    }
    push_field(fields, tsb);
    push_field(fields, fmt_fixed(s.cpu.total_utilization, 2));
    push_field(fields, fmt_fixed(s.cpu.user_percent, 2));
    push_field(fields, fmt_fixed(s.cpu.system_percent, 2));
    push_field(fields, fmt_fixed(s.cpu.iowait_percent, 2));
    push_field(fields, fmt_fixed(s.cpu.load_avg_1, 2));
    push_field(fields, fmt_fixed(s.cpu.load_avg_5, 2));
    push_field(fields, fmt_fixed(s.cpu.load_avg_15, 2));
    push_opt_u64(fields, s.cpu.context_switches_delta);
    push_opt_u64(fields, s.cpu.interrupts_delta);
    proof {
        assert(fields@.map_values(|f: Vec<u8>| f@) =~= old(fields)@.map_values(|f: Vec<u8>| f@)
            + cpu_row_fields(*s));
    }
}

#[verifier::rlimit(60)]
fn push_mem_row(fields: &mut Vec<Vec<u8>>, s: &MetricsSample)
    ensures
        final(fields)@.map_values(|f: Vec<u8>| f@) == old(fields)@.map_values(|f: Vec<u8>| f@)
            + mem_row_fields(*s),
{
    push_field(fields, fmt_u64(s.memory.total));
    push_field(fields, fmt_u64(s.memory.used));
    push_field(fields, fmt_u64(s.memory.available));
    push_field(fields, fmt_fixed(s.memory.used_percent, 2));
    push_field(fields, fmt_u64(s.memory.buffers));
    push_field(fields, fmt_u64(s.memory.cached));
    push_field(fields, fmt_u64(s.memory.dirty));
    push_field(fields, fmt_u64(s.memory.writeback));
    push_field(fields, fmt_u64(s.memory.active_file));
    push_field(fields, fmt_u64(s.memory.inactive_file));
    push_field(fields, fmt_u64(s.memory.swap_total));
    push_field(fields, fmt_u64(s.memory.swap_used));
    push_field(fields, fmt_fixed(s.memory.swap_percent, 2));
    push_opt_u64(fields, s.memory.major_faults_delta);
    push_opt_u64(fields, s.memory.minor_faults_delta);
    push_opt_u64(fields, s.memory.cgroup_limit);
    push_opt_u64(fields, s.memory.cgroup_current);
    push_opt_f2(fields, s.memory.cgroup_usage_percent);
    proof {
        assert(fields@.map_values(|f: Vec<u8>| f@) =~= old(fields)@.map_values(|f: Vec<u8>| f@)
            + mem_row_fields(*s));
    }
}

fn push_disk_agg_row(fields: &mut Vec<Vec<u8>>, s: &MetricsSample)
    ensures
        final(fields)@.map_values(|f: Vec<u8>| f@) == old(fields)@.map_values(|f: Vec<u8>| f@)
            + disk_agg_row_fields(*s),
{
    push_field(fields, fmt_fixed(s.disk.total_read_bytes_per_sec, 2));
    push_field(fields, fmt_fixed(s.disk.total_write_bytes_per_sec, 2));
    push_field(fields, fmt_u64(s.disk.total_in_flight));
    proof {
        assert(fields@.map_values(|f: Vec<u8>| f@) =~= old(fields)@.map_values(|f: Vec<u8>| f@)
            + disk_agg_row_fields(*s));
    }
}

fn push_net_agg_row(fields: &mut Vec<Vec<u8>>, s: &MetricsSample)
    ensures
        final(fields)@.map_values(|f: Vec<u8>| f@) == old(fields)@.map_values(|f: Vec<u8>| f@)
            + net_agg_row_fields(*s),
{
    push_field(fields, fmt_fixed(s.network.total_rx_bytes_per_sec, 2));
    push_field(fields, fmt_fixed(s.network.total_tx_bytes_per_sec, 2));
    push_field(fields, fmt_u64(s.network.tcp.connections_established));
    push_opt_u64(fields, s.network.tcp.retransmits_delta);
    proof {
        assert(fields@.map_values(|f: Vec<u8>| f@) =~= old(fields)@.map_values(|f: Vec<u8>| f@)
            + net_agg_row_fields(*s));
    }
}

/// Pushes the eight row values of one remembered device, empty when the
/// device is missing from this sample.
fn push_dev_row(fields: &mut Vec<Vec<u8>>, ds: &Vec<DiskStats>, dev: &Vec<u8>)
    ensures
        final(fields)@.map_values(|f: Vec<u8>| f@) == old(fields)@.map_values(|f: Vec<u8>| f@)
            + dev_row_one(ds@, dev@),
{
    let mut i: usize = 0;
    proof {
        assert(ds@.skip(0) =~= ds@);
    }
    while i < ds.len()
        invariant
            i <= ds@.len(),
            fields@ == old(fields)@,
            find_disk(ds@, dev@) == find_disk(ds@.skip(i as int), dev@),
        decreases ds@.len() - i,
    {
        proof {
            assert(ds@.skip(i as int).drop_first() =~= ds@.skip(i + 1 as int));
        }
        if bytes_eq(ds[i].device.as_slice(), dev.as_slice()) {
            proof {
                assert(ds@.skip(i as int)[0] == ds@[i as int]);
                assert(find_disk(ds@, dev@) == Some(ds@[i as int]));
            }
            let d = &ds[i];
            push_field(fields, fmt_fixed(d.read_bytes_per_sec, 2));
            push_field(fields, fmt_fixed(d.write_bytes_per_sec, 2));
            push_field(fields, fmt_fixed(d.read_iops, 2));
            push_field(fields, fmt_fixed(d.write_iops, 2));
            push_field(fields, fmt_fixed(d.read_latency_ms, 3));
            push_field(fields, fmt_fixed(d.write_latency_ms, 3));
            push_field(fields, fmt_fixed(d.utilization_percent, 2));
            push_field(fields, fmt_u64(d.in_flight));
            proof {
                assert(fields@.map_values(|f: Vec<u8>| f@) =~= old(fields)@.map_values(
                    |f: Vec<u8>| f@,
                ) + dev_row_one(ds@, dev@));
            }
            return;
        }
        i += 1;
    }
    proof {
        assert(ds@.skip(ds@.len() as int) =~= Seq::<DiskStats>::empty());
        assert(fields@.map_values(|f: Vec<u8>| f@) + Seq::new(0, |i: int| Seq::<u8>::empty())
            =~= fields@.map_values(|f: Vec<u8>| f@));
    }
    let mut k: u64 = 0;
    while k < 8
        invariant
            k <= 8,
            find_disk(ds@, dev@) is None,
            fields@.map_values(|f: Vec<u8>| f@) =~= old(fields)@.map_values(|f: Vec<u8>| f@)
                + Seq::new(k as nat, |i: int| Seq::<u8>::empty()),
        decreases 8 - k,
    {
        let e: Vec<u8> = Vec::new();
        push_field(fields, e);
        proof {
            assert(old(fields)@.map_values(|f: Vec<u8>| f@) + Seq::new(
                (k + 1) as nat,
                |i: int| Seq::<u8>::empty(),
            ) =~= (old(fields)@.map_values(|f: Vec<u8>| f@) + Seq::new(
                k as nat,
                |i: int| Seq::<u8>::empty(),
            )).push(Seq::<u8>::empty()));
        }
        k += 1;
    }
    proof {
        assert(fields@.map_values(|f: Vec<u8>| f@) =~= old(fields)@.map_values(|f: Vec<u8>| f@)
            + dev_row_one(ds@, dev@));
    }
}

/// Pushes the six row values of one remembered interface, empty when the
/// interface is missing from this sample.
fn push_iface_row(fields: &mut Vec<Vec<u8>>, es: &Vec<InterfaceStats>, name: &Vec<u8>)
    ensures
        final(fields)@.map_values(|f: Vec<u8>| f@) == old(fields)@.map_values(|f: Vec<u8>| f@)
            + iface_row_one(es@, name@),
{
    let mut i: usize = 0;
    proof {
        assert(es@.skip(0) =~= es@);
    }
    while i < es.len()
        invariant
            i <= es@.len(),
            fields@ == old(fields)@,
            find_iface(es@, name@) == find_iface(es@.skip(i as int), name@),
        decreases es@.len() - i,
    {
        proof {
            assert(es@.skip(i as int).drop_first() =~= es@.skip(i + 1 as int));
        }
        if bytes_eq(es[i].interface.as_slice(), name.as_slice()) {
            proof {
                assert(es@.skip(i as int)[0] == es@[i as int]);
                assert(find_iface(es@, name@) == Some(es@[i as int]));
            }
            let e = &es[i];
            push_field(fields, fmt_fixed(e.rx_bytes_per_sec, 2));
            push_field(fields, fmt_fixed(e.tx_bytes_per_sec, 2));
            push_field(fields, fmt_fixed(e.rx_packets_per_sec, 2));
            push_field(fields, fmt_fixed(e.tx_packets_per_sec, 2));
            push_field(fields, fmt_u64(e.rx_errors));
            push_field(fields, fmt_u64(e.tx_errors));
            proof {
                assert(fields@.map_values(|f: Vec<u8>| f@) =~= old(fields)@.map_values(
                    |f: Vec<u8>| f@,
                ) + iface_row_one(es@, name@));
            }
            return;
        }
        i += 1;
    }
    proof {
        assert(es@.skip(es@.len() as int) =~= Seq::<InterfaceStats>::empty());
        assert(fields@.map_values(|f: Vec<u8>| f@) + Seq::new(0, |i: int| Seq::<u8>::empty())
            =~= fields@.map_values(|f: Vec<u8>| f@));
    }
    let mut k: u64 = 0;
    while k < 6
        invariant
            k <= 6,
            find_iface(es@, name@) is None,
            fields@.map_values(|f: Vec<u8>| f@) =~= old(fields)@.map_values(|f: Vec<u8>| f@)
                + Seq::new(k as nat, |i: int| Seq::<u8>::empty()),
        decreases 6 - k,
    {
        let e: Vec<u8> = Vec::new();
        push_field(fields, e);
        proof {
            assert(old(fields)@.map_values(|f: Vec<u8>| f@) + Seq::new(
                (k + 1) as nat,
                |i: int| Seq::<u8>::empty(),
            ) =~= (old(fields)@.map_values(|f: Vec<u8>| f@) + Seq::new(
                k as nat,
                |i: int| Seq::<u8>::empty(),
            )).push(Seq::<u8>::empty()));
        }
        k += 1;
    }
    proof {
        assert(fields@.map_values(|f: Vec<u8>| f@) =~= old(fields)@.map_values(|f: Vec<u8>| f@)
            + iface_row_one(es@, name@));
    }
}

#[verifier::rlimit(60)]
fn push_psi_row(fields: &mut Vec<Vec<u8>>, s: &MetricsSample)
    ensures
        final(fields)@.map_values(|f: Vec<u8>| f@) == old(fields)@.map_values(|f: Vec<u8>| f@)
            + psi_row_fields(s.psi),
{
    match &s.psi {
        Some(p) => {
            push_field(fields, fmt_fixed(p.cpu.some_avg10, 2));
            push_field(fields, fmt_fixed(p.cpu.some_avg60, 2));
            push_field(fields, fmt_fixed(p.cpu.some_avg300, 2));
            push_field(fields, fmt_fixed(p.memory.some_avg10, 2));
            push_field(fields, fmt_fixed(p.memory.some_avg60, 2));
            push_field(fields, fmt_fixed(p.memory.some_avg300, 2));
            push_opt_f2(fields, p.memory.full_avg10);
            push_opt_f2(fields, p.memory.full_avg60);
            push_opt_f2(fields, p.memory.full_avg300);
            push_field(fields, fmt_fixed(p.io.some_avg10, 2));
            push_field(fields, fmt_fixed(p.io.some_avg60, 2));
            push_field(fields, fmt_fixed(p.io.some_avg300, 2));
            push_opt_f2(fields, p.io.full_avg10);
            push_opt_f2(fields, p.io.full_avg60);
            push_opt_f2(fields, p.io.full_avg300);
            proof {
                assert(fields@.map_values(|f: Vec<u8>| f@) =~= old(fields)@.map_values(
                    |f: Vec<u8>| f@,
                ) + psi_row_fields(s.psi));
            }
        },
        None => {
            let mut k: u64 = 0;
            while k < 15
                invariant
                    k <= 15,
                    fields@.map_values(|f: Vec<u8>| f@) =~= old(fields)@.map_values(
                        |f: Vec<u8>| f@,
                    ) + Seq::new(k as nat, |i: int| Seq::<u8>::empty()),
                decreases 15 - k,
            {
                let e: Vec<u8> = Vec::new();
                push_field(fields, e);
                proof {
                    assert(old(fields)@.map_values(|f: Vec<u8>| f@) + Seq::new(
                        (k + 1) as nat,
                        |i: int| Seq::<u8>::empty(),
                    ) =~= (old(fields)@.map_values(|f: Vec<u8>| f@) + Seq::new(
                        k as nat,
                        |i: int| Seq::<u8>::empty(),
                    )).push(Seq::<u8>::empty()));
                }
                k += 1;
            }
            proof {
                assert(fields@.map_values(|f: Vec<u8>| f@) =~= old(fields)@.map_values(
                    |f: Vec<u8>| f@,
                ) + psi_row_fields(s.psi));
            }
        },
    }
}

/// Doubles the quotes in a process name.
fn escape_quotes_exec(s: &Vec<u8>) -> (r: Vec<u8>)
    ensures
        r@ == escape_quotes(s@),
{
    let mut r: Vec<u8> = Vec::new();
    let mut i: usize = 0;
    proof {
        assert(s@.take(0) =~= Seq::<u8>::empty());
    }
    while i < s.len()
        invariant
            i <= s@.len(),
            r@ == escape_quotes(s@.take(i as int)),
        decreases s@.len() - i,
    {
        proof {
            assert(s@.take(i + 1 as int).drop_last() =~= s@.take(i as int));
            assert(s@.take(i + 1 as int).last() == s@[i as int]);
        }
        let b = s[i];
        if b == 34 {
            r.push(34);
            r.push(34);
            proof {
                assert(r@ =~= escape_quotes(s@.take(i + 1 as int)));
            }
        } else {
            r.push(b);
            proof {
                assert(r@ =~= escape_quotes(s@.take(i + 1 as int)));
            }
        }
        i += 1;
    }
    proof {
        assert(s@.take(s@.len() as int) =~= s@);
    }
    r
}

/// The first ten process row values.
pub open spec fn proc_row_head(p: ProcessMetrics) -> Seq<Seq<u8>> {
    seq![
        dec_digits(p.pid as nat),
        quoted_name(p.name@),
        text_bytes(state_label(p.state)),
        f2(p.cpu_percent),
        fu(p.num_threads),
        fu(p.num_fds),
        fu(p.rss_bytes),
        fu(p.vsize_bytes),
        fu(p.vm_peak),
        fu(p.rss_anon),
    ]
}

/// The last ten process row values.
pub open spec fn proc_row_tail(p: ProcessMetrics) -> Seq<Seq<u8>> {
    seq![
        fu(p.rss_file),
        fu(p.rss_shmem),
        fu(p.vm_swap),
        f2(p.io_read_bytes_per_sec),
        f2(p.io_write_bytes_per_sec),
        fu(p.io_read_bytes),
        fu(p.io_write_bytes),
        fu(p.io_rchar),
        fu(p.io_wchar),
        fu(p.io_cancelled_write_bytes),
    ]
}

fn push_proc_head(fields: &mut Vec<Vec<u8>>, p: &ProcessMetrics)
    ensures
        final(fields)@.map_values(|f: Vec<u8>| f@) == old(fields)@.map_values(|f: Vec<u8>| f@)
            + proc_row_head(*p),
{
    push_field(fields, fmt_u64(p.pid as u64));
    let mut quoted: Vec<u8> = Vec::new();
    quoted.push(34);
    let mut esc = escape_quotes_exec(&p.name);
    quoted.append(&mut esc);
    quoted.push(34);
    proof {
        assert(quoted@ =~= quoted_name(p.name@));
    }
    push_field(fields, quoted);
    let label = p.state.label();
    let lb = vstd::slice::slice_to_vec(label.as_bytes());
    proof {
        assert(lb@ == text_bytes(state_label(p.state)));
    }
    push_field(fields, lb);
    push_field(fields, fmt_fixed(p.cpu_percent, 2));
    push_field(fields, fmt_u64(p.num_threads));
    push_field(fields, fmt_u64(p.num_fds));
    push_field(fields, fmt_u64(p.rss_bytes));
    push_field(fields, fmt_u64(p.vsize_bytes));
    push_field(fields, fmt_u64(p.vm_peak));
    push_field(fields, fmt_u64(p.rss_anon));
    proof {
        assert(dec_digits(p.pid as nat) == dec_digits((p.pid as u64) as nat));
        assert(fields@.map_values(|f: Vec<u8>| f@) =~= old(fields)@.map_values(|f: Vec<u8>| f@)
            + proc_row_head(*p));
    }
}

fn push_proc_tail(fields: &mut Vec<Vec<u8>>, p: &ProcessMetrics)
    ensures
        final(fields)@.map_values(|f: Vec<u8>| f@) == old(fields)@.map_values(|f: Vec<u8>| f@)
            + proc_row_tail(*p),
{
    push_field(fields, fmt_u64(p.rss_file));
    push_field(fields, fmt_u64(p.rss_shmem));
    push_field(fields, fmt_u64(p.vm_swap));
    push_field(fields, fmt_fixed(p.io_read_bytes_per_sec, 2));
    push_field(fields, fmt_fixed(p.io_write_bytes_per_sec, 2));
    push_field(fields, fmt_u64(p.io_read_bytes));
    push_field(fields, fmt_u64(p.io_write_bytes));
    push_field(fields, fmt_u64(p.io_rchar));
    push_field(fields, fmt_u64(p.io_wchar));
    push_field(fields, fmt_u64(p.io_cancelled_write_bytes));
    proof {
        assert(fields@.map_values(|f: Vec<u8>| f@) =~= old(fields)@.map_values(|f: Vec<u8>| f@)
            + proc_row_tail(*p));
    }
}

fn push_proc_row(fields: &mut Vec<Vec<u8>>, s: &MetricsSample)
    ensures
        final(fields)@.map_values(|f: Vec<u8>| f@) == old(fields)@.map_values(|f: Vec<u8>| f@)
            + proc_row_fields(s.process),
{
    match &s.process {
        Some(p) => {
            push_proc_head(fields, p);
            push_proc_tail(fields, p);
            proof {
                assert(proc_row_head(*p) + proc_row_tail(*p) =~= proc_row_fields(s.process));
                assert(fields@.map_values(|f: Vec<u8>| f@) =~= old(fields)@.map_values(
                    |f: Vec<u8>| f@,
                ) + proc_row_fields(s.process));
            }
        },
        None => {
            let mut k: u64 = 0;
            while k < 20
                invariant
                    k <= 20,
                    fields@.map_values(|f: Vec<u8>| f@) =~= old(fields)@.map_values(
                        |f: Vec<u8>| f@,
                    ) + Seq::new(k as nat, |i: int| Seq::<u8>::empty()),
                decreases 20 - k,
            {
                let e: Vec<u8> = Vec::new();
                push_field(fields, e);
                proof {
                    assert(old(fields)@.map_values(|f: Vec<u8>| f@) + Seq::new(
                        (k + 1) as nat,
                        |i: int| Seq::<u8>::empty(),
                    ) =~= (old(fields)@.map_values(|f: Vec<u8>| f@) + Seq::new(
                        k as nat,
                        |i: int| Seq::<u8>::empty(),
                    )).push(Seq::<u8>::empty()));
                }
                k += 1;
            }
            proof {
                assert(fields@.map_values(|f: Vec<u8>| f@) =~= old(fields)@.map_values(
                    |f: Vec<u8>| f@,
                ) + proc_row_fields(s.process));
            }
        },
    }
}

} // verus!
