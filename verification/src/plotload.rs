//! Re-reading the detailed machine-readable log: fields are found by
//! column name, the per-core, per-device and per-interface series are
//! discovered from the header, and numeric values come back at the
//! precision they were written with.

use vstd::prelude::*;
use crate::bytes::{ascii_bytes, bytes_eq, contains_seq, ends_with, has_prefix, has_suffix, lines_of, split_by, split_byte, split_lines, starts_with, str_bytes, subrange_vec, trim, trim_spec};
use crate::numfmt::{dec_digits, digits_val, fixed_opt_spec, parse_digits, parse_fixed, parse_fixed_spec, parse_fixed_opt, parse_u64, parse_u64_spec, fmt_u64};
use crate::timefmt::{parse_ts_row, ts_parse_of};

verus! {

/// One re-read row of the detailed log, at its written precision:
/// percentages, loads and throughputs in hundredths, sizes in bytes.
#[derive(Clone, Debug)]
pub struct DetailedPlotSample {
    /// Milliseconds since the epoch; zero when the field did not parse.
    pub timestamp_ms: u64,
    pub cpu_total: u64,
    pub cpu_user: u64,
    pub cpu_system: u64,
    pub cpu_iowait: u64,
    pub cpu_load_1m: u64,
    pub cpu_load_5m: u64,
    pub cpu_load_15m: u64,
    /// Per-core utilization, aligned with the discovered core ids.
    pub per_core_pct: Vec<u64>,
    pub mem_total_bytes: u64,
    pub mem_used_bytes: u64,
    pub mem_available_bytes: u64,
    pub mem_used_pct: u64,
    pub mem_buffers_bytes: u64,
    pub mem_cached_bytes: u64,
    pub mem_dirty_bytes: u64,
    pub mem_writeback_bytes: u64,
    pub mem_swap_total_bytes: u64,
    pub mem_swap_used_bytes: u64,
    pub cgroup_limit_bytes: Option<u64>,
    pub cgroup_current_bytes: Option<u64>,
    pub cgroup_usage_pct: Option<u64>,
    /// The discovered device names.
    pub disk_devices: Vec<Vec<u8>>,
    pub disk_read_bytes_per_sec: Vec<u64>,
    pub disk_write_bytes_per_sec: Vec<u64>,
    pub disk_util_pct: Vec<u64>,
    pub disk_total_read: u64,
    pub disk_total_write: u64,
    /// The discovered interface names.
    pub net_interfaces: Vec<Vec<u8>>,
    pub net_rx_bytes_per_sec: Vec<u64>,
    pub net_tx_bytes_per_sec: Vec<u64>,
    pub net_total_rx: u64,
    pub net_total_tx: u64,
    pub psi_cpu_some_avg10: u64,
    pub psi_mem_some_avg10: u64,
    pub psi_mem_full_avg10: Option<u64>,
    pub psi_io_some_avg10: u64,
    pub psi_io_full_avg10: Option<u64>,
    pub proc_cpu_pct: Option<u64>,
    pub proc_rss_bytes: Option<u64>,
    pub proc_io_read_bytes_per_sec: Option<u64>,
    pub proc_io_write_bytes_per_sec: Option<u64>,
}

/// The overview projection of a re-read row.
#[derive(Clone, Debug)]
pub struct PlotSample {
    pub timestamp_ms: u64,
    pub cpu_total: u64,
    pub cpu_user: u64,
    pub cpu_system: u64,
    pub cpu_iowait: u64,
    pub mem_used_pct: u64,
    pub cgroup_usage_pct: Option<u64>,
    pub disk_read_bytes_per_sec: u64,
    pub disk_write_bytes_per_sec: u64,
    pub net_rx_bytes_per_sec: u64,
    pub net_tx_bytes_per_sec: u64,
    pub proc_cpu_pct: Option<u64>,
    pub proc_rss_bytes: Option<u64>,
}

/// One overview row is correct against the header.
pub open spec fn overview_ok(headers: Seq<Seq<u8>>, line: Seq<u8>, p: PlotSample) -> bool {
    let fields = split_by(line, 44);
    &&& p.timestamp_ms == tsval(headers, fields)
    &&& p.cpu_total == fval2(headers, fields, ascii_bytes("cpu_total_pct"@))
    &&& p.cpu_user == fval2(headers, fields, ascii_bytes("cpu_user_pct"@))
    &&& p.cpu_system == fval2(headers, fields, ascii_bytes("cpu_system_pct"@))
    &&& p.cpu_iowait == fval2(headers, fields, ascii_bytes("cpu_iowait_pct"@))
    &&& p.mem_used_pct == fval2(headers, fields, ascii_bytes("mem_used_pct"@))
    &&& p.cgroup_usage_pct == oval2(headers, fields, ascii_bytes("cgroup_usage_pct"@))
    &&& p.disk_read_bytes_per_sec == fval2(
        headers,
        fields,
        ascii_bytes("disk_total_read_bytes_per_sec"@),
    )
    &&& p.disk_write_bytes_per_sec == fval2(
        headers,
        fields,
        ascii_bytes("disk_total_write_bytes_per_sec"@),
    )
    &&& p.net_rx_bytes_per_sec == fval2(headers, fields, ascii_bytes("net_total_rx_bytes_per_sec"@))
    &&& p.net_tx_bytes_per_sec == fval2(headers, fields, ascii_bytes("net_total_tx_bytes_per_sec"@))
    &&& p.proc_cpu_pct == oval2(headers, fields, ascii_bytes("proc_cpu_pct"@))
    &&& p.proc_rss_bytes == ovalu(headers, fields, ascii_bytes("proc_rss_bytes"@))
}

/// Re-reads a detailed log and keeps only the overview fields.
pub fn load_samples(content: &[u8]) -> (r: Result<Vec<PlotSample>, LoadError>)
    ensures
        (r is Ok) == (load_spec_ok(content@)),
        r matches Ok(v) ==> ({
            let ls = lines_of(content@);
            let headers = split_by(ls[0], 44);
            let rows = data_rows(ls);
            &&& v@.len() == rows.len()
            &&& forall|i: int| 0 <= i < rows.len() ==> overview_ok(headers, rows[i], #[trigger] v@[i])
        }),
{
    let detailed = load_detailed_samples(content)?;
    let ghost ls = lines_of(content@);
    let ghost headers = split_by(ls[0], 44);
    let ghost rows = data_rows(ls);
    let mut out: Vec<PlotSample> = Vec::new();
    let mut i: usize = 0;
    while i < detailed.len()
        invariant
            i <= detailed@.len(),
            out@.len() == i,
            detailed@.len() == rows.len(),
            forall|j: int| 0 <= j < rows.len() ==> row_parsed_ok(
                headers,
                core_ids_of(headers),
                devs_of(headers),
                ifaces_of(headers),
                rows[j],
                #[trigger] detailed@[j],
            ),
            forall|j: int| 0 <= j < i ==> overview_ok(headers, rows[j], #[trigger] out@[j]),
        decreases detailed@.len() - i,
    {
        let d = &detailed[i];
        out.push(
            PlotSample {
                timestamp_ms: d.timestamp_ms,
                cpu_total: d.cpu_total,
                cpu_user: d.cpu_user,
                cpu_system: d.cpu_system,
                cpu_iowait: d.cpu_iowait,
                mem_used_pct: d.mem_used_pct,
                cgroup_usage_pct: d.cgroup_usage_pct,
                disk_read_bytes_per_sec: d.disk_total_read,
                disk_write_bytes_per_sec: d.disk_total_write,
                net_rx_bytes_per_sec: d.net_total_rx,
                net_tx_bytes_per_sec: d.net_total_tx,
                proc_cpu_pct: d.proc_cpu_pct,
                proc_rss_bytes: d.proc_rss_bytes,
            },
        );
        i += 1;
    }
    Ok(out)
}

/// A log re-read succeeds exactly when it has a header and a data row.
pub open spec fn load_spec_ok(content: Seq<u8>) -> bool {
    lines_of(content).len() > 0 && data_rows(lines_of(content)).len() > 0
}

/// Why a log could not be re-read.
#[derive(Clone, Copy, Debug, PartialEq, Eq, Structural)]
pub enum LoadError {
    /// The file has no lines at all.
    EmptyFile,
    /// The file has a header but no data rows.
    NoSamples,
}

/// The index of the last column with this name, or -1: a repeated name is
/// read at its last position.
pub open spec fn col_idx(headers: Seq<Seq<u8>>, name: Seq<u8>) -> int
    decreases headers.len(),
{
    if headers.len() == 0 {
        -1
    } else if headers.last() == name {
        headers.len() - 1
    } else {
        col_idx(headers.drop_last(), name)
    }
}

/// The field under a column name, when the row reaches that column.
pub open spec fn get_field(headers: Seq<Seq<u8>>, fields: Seq<Seq<u8>>, name: Seq<u8>) -> Option<
    Seq<u8>,
> {
    let i = col_idx(headers, name);
    if 0 <= i < fields.len() {
        Some(fields[i])
    } else {
        None
    }
}

/// A two-decimal field by name, zero when missing or malformed.
pub open spec fn fval2(headers: Seq<Seq<u8>>, fields: Seq<Seq<u8>>, name: Seq<u8>) -> u64 {
    match get_field(headers, fields, name) {
        Some(f) => parse_fixed_spec(f, 2),
        None => 0u64,
    }
}

/// A whole-number field by name, zero when missing or malformed.
pub open spec fn uval(headers: Seq<Seq<u8>>, fields: Seq<Seq<u8>>, name: Seq<u8>) -> u64 {
    match get_field(headers, fields, name) {
        Some(f) => parse_u64_spec(f),
        None => 0u64,
    }
}

/// An optional two-decimal field: absent, empty or malformed is nothing.
pub open spec fn oval2(headers: Seq<Seq<u8>>, fields: Seq<Seq<u8>>, name: Seq<u8>) -> Option<u64> {
    match get_field(headers, fields, name) {
        Some(f) => fixed_opt_spec(trim_spec(f), 2),
        None => None,
    }
}

/// An optional whole-number field.
pub open spec fn ovalu(headers: Seq<Seq<u8>>, fields: Seq<Seq<u8>>, name: Seq<u8>) -> Option<u64> {
    match get_field(headers, fields, name) {
        Some(f) => digits_val(trim_spec(f)),
        None => None,
    }
}

/// The timestamp field, zero when missing or unparsable.
pub open spec fn tsval(headers: Seq<Seq<u8>>, fields: Seq<Seq<u8>>) -> u64 {
    match get_field(headers, fields, ascii_bytes("timestamp"@)) {
        Some(f) => match ts_parse_of(f) {
            Some(t) => t,
            None => 0u64,
        },
        None => 0u64,
    }
}

/// A per-core column name.
pub open spec fn core_col(id: u64) -> Seq<u8> {
    ascii_bytes("cpu_core"@) + dec_digits(id as nat) + ascii_bytes("_pct"@)
}

/// A per-device column name.
pub open spec fn dev_col(dev: Seq<u8>, suffix: Seq<char>) -> Seq<u8> {
    ascii_bytes("disk_"@) + dev + ascii_bytes(suffix)
}

/// A per-interface column name.
pub open spec fn iface_col(name: Seq<u8>, suffix: Seq<char>) -> Seq<u8> {
    ascii_bytes("net_"@) + name + ascii_bytes(suffix)
}

/// Whether a header names a per-core column, and its id.
pub open spec fn core_hdr_id(h: Seq<u8>) -> Option<u64> {
    if h.len() >= 12 && has_prefix(h, ascii_bytes("cpu_core"@)) && has_suffix(
        h,
        ascii_bytes("_pct"@),
    ) {
        digits_val(h.subrange(8, h.len() - 4))
    } else {
        None
    }
}

/// Core ids strictly ascending.
pub open spec fn ids_sorted(s: Seq<u64>) -> bool {
    forall|a: int, b: int| 0 <= a < b < s.len() ==> s[a] < s[b]
}

/// Sorted insertion of a core id, duplicates kept once.
pub open spec fn insert_id(s: Seq<u64>, v: u64) -> Seq<u64>
    decreases s.len(),
{
    if s.len() == 0 {
        seq![v]
    } else if v < s[0] {
        seq![v] + s
    } else if v == s[0] {
        s
    } else {
        seq![s[0]] + insert_id(s.drop_first(), v)
    }
}

/// The core ids discovered in the header, in ascending order.
pub open spec fn core_ids_of(headers: Seq<Seq<u8>>) -> Seq<u64>
    decreases headers.len(),
{
    if headers.len() == 0 {
        Seq::empty()
    } else {
        match core_hdr_id(headers.last()) {
            Some(id) => insert_id(core_ids_of(headers.drop_last()), id),
            None => core_ids_of(headers.drop_last()),
        }
    }
}

/// The device names discovered in the header, in header order.
pub open spec fn devs_of(headers: Seq<Seq<u8>>) -> Seq<Seq<u8>>
    decreases headers.len(),
{
    if headers.len() == 0 {
        Seq::empty()
    } else {
        let h = headers.last();
        let rest = devs_of(headers.drop_last());
        if h.len() >= 24 && has_prefix(h, ascii_bytes("disk_"@)) && has_suffix(
            h,
            ascii_bytes("_read_bytes_per_sec"@),
        ) && h != ascii_bytes("disk_total_read_bytes_per_sec"@) {
            rest.push(h.subrange(5, h.len() - 19))
        } else {
            rest
        }
    }
}

/// The interface names discovered in the header, in header order.
pub open spec fn ifaces_of(headers: Seq<Seq<u8>>) -> Seq<Seq<u8>>
    decreases headers.len(),
{
    if headers.len() == 0 {
        Seq::empty()
    } else {
        let h = headers.last();
        let rest = ifaces_of(headers.drop_last());
        if h.len() >= 21 && has_prefix(h, ascii_bytes("net_"@)) && has_suffix(
            h,
            ascii_bytes("_rx_bytes_per_sec"@),
        ) && h != ascii_bytes("net_total_rx_bytes_per_sec"@) {
            rest.push(h.subrange(4, h.len() - 17))
        } else {
            rest
        }
    }
}

/// The three discovered column families start with different bytes, so at
/// most one discovery applies to a header.
proof fn lemma_hdr_disjoint(h: Seq<u8>)
    ensures
        !(has_prefix(h, ascii_bytes("cpu_core"@)) && has_prefix(h, ascii_bytes("disk_"@))),
        !(has_prefix(h, ascii_bytes("cpu_core"@)) && has_prefix(h, ascii_bytes("net_"@))),
        !(has_prefix(h, ascii_bytes("disk_"@)) && has_prefix(h, ascii_bytes("net_"@))),
{
    reveal_strlit("cpu_core");
    reveal_strlit("disk_");
    reveal_strlit("net_");
    if has_prefix(h, ascii_bytes("cpu_core"@)) {
        assert(h[0] == h.take(8)[0]);
        assert(h[0] == 99u8);
    }
    if has_prefix(h, ascii_bytes("disk_"@)) {
        assert(h[0] == h.take(5)[0]);
        assert(h[0] == 100u8);
    }
    if has_prefix(h, ascii_bytes("net_"@)) {
        assert(h[0] == h.take(4)[0]);
        assert(h[0] == 110u8);
    }
}

/// The data rows: every line after the header whose trimmed content is
/// non-empty.
pub open spec fn data_rows(ls: Seq<Seq<u8>>) -> Seq<Seq<u8>>
    decreases ls.len(),
{
    if ls.len() <= 1 {
        Seq::empty()
    } else if trim_spec(ls.last()).len() > 0 {
        data_rows(ls.drop_last()).push(ls.last())
    } else {
        data_rows(ls.drop_last())
    }
}

/// One re-read row is correct against the header.
pub open spec fn row_parsed_ok(
    headers: Seq<Seq<u8>>,
    ids: Seq<u64>,
    devs: Seq<Seq<u8>>,
    ifaces: Seq<Seq<u8>>,
    line: Seq<u8>,
    p: DetailedPlotSample,
) -> bool {
    let fields = split_by(line, 44);
    &&& p.timestamp_ms == tsval(headers, fields)
    &&& p.cpu_total == fval2(headers, fields, ascii_bytes("cpu_total_pct"@))
    &&& p.cpu_user == fval2(headers, fields, ascii_bytes("cpu_user_pct"@))
    &&& p.cpu_system == fval2(headers, fields, ascii_bytes("cpu_system_pct"@))
    &&& p.cpu_iowait == fval2(headers, fields, ascii_bytes("cpu_iowait_pct"@))
    &&& p.cpu_load_1m == fval2(headers, fields, ascii_bytes("cpu_load_1m"@))
    &&& p.cpu_load_5m == fval2(headers, fields, ascii_bytes("cpu_load_5m"@))
    &&& p.cpu_load_15m == fval2(headers, fields, ascii_bytes("cpu_load_15m"@))
    &&& p.per_core_pct@ == Seq::new(ids.len(), |i: int| fval2(headers, fields, core_col(ids[i])))
    &&& p.mem_total_bytes == uval(headers, fields, ascii_bytes("mem_total_bytes"@))
    &&& p.mem_used_bytes == uval(headers, fields, ascii_bytes("mem_used_bytes"@))
    &&& p.mem_available_bytes == uval(headers, fields, ascii_bytes("mem_available_bytes"@))
    &&& p.mem_used_pct == fval2(headers, fields, ascii_bytes("mem_used_pct"@))
    &&& p.mem_buffers_bytes == uval(headers, fields, ascii_bytes("mem_buffers_bytes"@))
    &&& p.mem_cached_bytes == uval(headers, fields, ascii_bytes("mem_cached_bytes"@))
    &&& p.mem_dirty_bytes == uval(headers, fields, ascii_bytes("mem_dirty_bytes"@))
    &&& p.mem_writeback_bytes == uval(headers, fields, ascii_bytes("mem_writeback_bytes"@))
    &&& p.mem_swap_total_bytes == uval(headers, fields, ascii_bytes("mem_swap_total_bytes"@))
    &&& p.mem_swap_used_bytes == uval(headers, fields, ascii_bytes("mem_swap_used_bytes"@))
    &&& p.cgroup_limit_bytes == ovalu(headers, fields, ascii_bytes("cgroup_limit_bytes"@))
    &&& p.cgroup_current_bytes == ovalu(headers, fields, ascii_bytes("cgroup_current_bytes"@))
    &&& p.cgroup_usage_pct == oval2(headers, fields, ascii_bytes("cgroup_usage_pct"@))
    &&& p.disk_devices@.map_values(|d: Vec<u8>| d@) == devs
    &&& p.disk_read_bytes_per_sec@ == Seq::new(
        devs.len(),
        |i: int| fval2(headers, fields, dev_col(devs[i], "_read_bytes_per_sec"@)),
    )
    &&& p.disk_write_bytes_per_sec@ == Seq::new(
        devs.len(),
        |i: int| fval2(headers, fields, dev_col(devs[i], "_write_bytes_per_sec"@)),
    )
    &&& p.disk_util_pct@ == Seq::new(
        devs.len(),
        |i: int| fval2(headers, fields, dev_col(devs[i], "_util_pct"@)),
    )
    &&& p.disk_total_read == fval2(headers, fields, ascii_bytes("disk_total_read_bytes_per_sec"@))
    &&& p.disk_total_write == fval2(
        headers,
        fields,
        ascii_bytes("disk_total_write_bytes_per_sec"@),
    )
    &&& p.net_interfaces@.map_values(|d: Vec<u8>| d@) == ifaces
    &&& p.net_rx_bytes_per_sec@ == Seq::new(
        ifaces.len(),
        |i: int| fval2(headers, fields, iface_col(ifaces[i], "_rx_bytes_per_sec"@)),
    )
    &&& p.net_tx_bytes_per_sec@ == Seq::new(
        ifaces.len(),
        |i: int| fval2(headers, fields, iface_col(ifaces[i], "_tx_bytes_per_sec"@)),
    )
    &&& p.net_total_rx == fval2(headers, fields, ascii_bytes("net_total_rx_bytes_per_sec"@))
    &&& p.net_total_tx == fval2(headers, fields, ascii_bytes("net_total_tx_bytes_per_sec"@))
    &&& p.psi_cpu_some_avg10 == fval2(headers, fields, ascii_bytes("psi_cpu_some_avg10"@))
    &&& p.psi_mem_some_avg10 == fval2(headers, fields, ascii_bytes("psi_mem_some_avg10"@))
    &&& p.psi_mem_full_avg10 == oval2(headers, fields, ascii_bytes("psi_mem_full_avg10"@))
    &&& p.psi_io_some_avg10 == fval2(headers, fields, ascii_bytes("psi_io_some_avg10"@))
    &&& p.psi_io_full_avg10 == oval2(headers, fields, ascii_bytes("psi_io_full_avg10"@))
    &&& p.proc_cpu_pct == oval2(headers, fields, ascii_bytes("proc_cpu_pct"@))
    &&& p.proc_rss_bytes == ovalu(headers, fields, ascii_bytes("proc_rss_bytes"@))
    &&& p.proc_io_read_bytes_per_sec == oval2(
        headers,
        fields,
        ascii_bytes("proc_io_read_bytes_per_sec"@),
    )
    &&& p.proc_io_write_bytes_per_sec == oval2(
        headers,
        fields,
        ascii_bytes("proc_io_write_bytes_per_sec"@),
    )
}

/// Re-reads a detailed log from its text.
///
/// Fails with `EmptyFile` on a file without lines and with `NoSamples`
/// when no non-blank data row follows the header; otherwise every data
/// row, in order, yields one sample parsed by column name against the
/// header, the discovered core ids ascending and the device and interface
/// series in header order.
pub fn load_detailed_samples(content: &[u8]) -> (r: Result<Vec<DetailedPlotSample>, LoadError>)
    ensures
        ({
            let ls = lines_of(content@);
            let headers = split_by(ls[0], 44);
            let rows = data_rows(ls);
            &&& (r == Err::<Vec<DetailedPlotSample>, LoadError>(LoadError::EmptyFile)) <==> ls.len()
                == 0
            &&& (r == Err::<Vec<DetailedPlotSample>, LoadError>(LoadError::NoSamples)) <==> (ls.len()
                > 0 && rows.len() == 0)
            &&& (r matches Ok(v) ==> ({
                &&& v@.len() == rows.len()
                &&& forall|i: int| 0 <= i < rows.len() ==> row_parsed_ok(
                    headers,
                    core_ids_of(headers),
                    devs_of(headers),
                    ifaces_of(headers),
                    rows[i],
                    #[trigger] v@[i],
                )
            }))
        }),
{
    let ghost ls = lines_of(content@);
    let lines = split_lines(content);
    if lines.len() == 0 {
        return Err(LoadError::EmptyFile);
    }
    let headers = split_byte(lines[0].as_slice(), 44);
    let ghost gh = split_by(ls[0], 44);
    proof {
        assert(lines@[0]@ == ls[0]);
        assert(headers@.map_values(|f: Vec<u8>| f@) == gh);
    }

    // Discover the per-core, per-device and per-interface series.
    proof {
        reveal_strlit("cpu_core");
        reveal_strlit("_pct");
        reveal_strlit("disk_");
        reveal_strlit("_read_bytes_per_sec");
        reveal_strlit("disk_total_read_bytes_per_sec");
        reveal_strlit("net_");
        reveal_strlit("_rx_bytes_per_sec");
        reveal_strlit("net_total_rx_bytes_per_sec");
    }
    let core_pre = str_bytes("cpu_core");
    let pct_suf = str_bytes("_pct");
    let disk_pre = str_bytes("disk_");
    let read_suf = str_bytes("_read_bytes_per_sec");
    let disk_total = str_bytes("disk_total_read_bytes_per_sec");
    let net_pre = str_bytes("net_");
    let rx_suf = str_bytes("_rx_bytes_per_sec");
    let net_total = str_bytes("net_total_rx_bytes_per_sec");

    let mut ids: Vec<u64> = Vec::new();
    let mut devs: Vec<Vec<u8>> = Vec::new();
    let mut ifaces: Vec<Vec<u8>> = Vec::new();
    let mut h: usize = 0;
    proof {
        assert(gh.take(0) =~= Seq::<Seq<u8>>::empty());
    }
    while h < headers.len()
        invariant
            h <= headers@.len(),
            headers@.map_values(|f: Vec<u8>| f@) == gh,
            core_pre@ == ascii_bytes("cpu_core"@),
            pct_suf@ == ascii_bytes("_pct"@),
            disk_pre@ == ascii_bytes("disk_"@),
            read_suf@ == ascii_bytes("_read_bytes_per_sec"@),
            disk_total@ == ascii_bytes("disk_total_read_bytes_per_sec"@),
            net_pre@ == ascii_bytes("net_"@),
            rx_suf@ == ascii_bytes("_rx_bytes_per_sec"@),
            net_total@ == ascii_bytes("net_total_rx_bytes_per_sec"@),
            ids@ == core_ids_of(gh.take(h as int)),
            ids_sorted(ids@),
            devs@.map_values(|d: Vec<u8>| d@) == devs_of(gh.take(h as int)),
            ifaces@.map_values(|d: Vec<u8>| d@) == ifaces_of(gh.take(h as int)),
        decreases headers@.len() - h,
    {
        let hd = &headers[h];
        proof {
            lemma_hdr_disjoint(hd@);
            assert(hd@ == gh[h as int]);
            assert(gh.take(h + 1 as int).drop_last() =~= gh.take(h as int));
            assert(gh.take(h + 1 as int).last() == gh[h as int]);
        }
        if hd.len() >= 12 && starts_with(hd.as_slice(), core_pre.as_slice()) && ends_with(
            hd.as_slice(),
            pct_suf.as_slice(),
        ) {
            let mid = subrange_vec(hd.as_slice(), 8, hd.len() - 4);
            proof {
                assert(mid@ =~= gh[h as int].subrange(8, gh[h as int].len() - 4));
            }
            match parse_digits(mid.as_slice()) {
                Some(id) => {
                    insert_id_exec(&mut ids, id);
                },
                None => {},
            }
        } else if hd.len() >= 24 && starts_with(hd.as_slice(), disk_pre.as_slice()) && ends_with(
            hd.as_slice(),
            read_suf.as_slice(),
        ) && !bytes_eq(hd.as_slice(), disk_total.as_slice()) {
            let mid = subrange_vec(hd.as_slice(), 5, hd.len() - 19);
            proof {
                assert(mid@ =~= gh[h as int].subrange(5, gh[h as int].len() - 19));
            }
            let ghost before = devs@.map_values(|d: Vec<u8>| d@);
            let ghost gmid = mid@;
            devs.push(mid);
            proof {
                assert(devs@.map_values(|d: Vec<u8>| d@) =~= before.push(gmid));
            }
        } else if hd.len() >= 21 && starts_with(hd.as_slice(), net_pre.as_slice()) && ends_with(
            hd.as_slice(),
            rx_suf.as_slice(),
        ) && !bytes_eq(hd.as_slice(), net_total.as_slice()) {
            let mid = subrange_vec(hd.as_slice(), 4, hd.len() - 17);
            proof {
                assert(mid@ =~= gh[h as int].subrange(4, gh[h as int].len() - 17));
            }
            let ghost before = ifaces@.map_values(|d: Vec<u8>| d@);
            let ghost gmid = mid@;
            ifaces.push(mid);
            proof {
                assert(ifaces@.map_values(|d: Vec<u8>| d@) =~= before.push(gmid));
            }
        }
        h += 1;
    }
    proof {
        assert(gh.take(gh.len() as int) =~= gh);
    }
    let ghost gids = core_ids_of(gh);
    let ghost gdevs = devs_of(gh);
    let ghost gifaces = ifaces_of(gh);

    let mut samples: Vec<DetailedPlotSample> = Vec::new();
    let mut li: usize = 1;
    proof {
        assert(data_rows(ls.take(1)) =~= Seq::<Seq<u8>>::empty());
        if ls.len() >= 1 {
            assert(ls.take(1).len() == 1);
        }
    }
    while li < lines.len()
        invariant
            1 <= li,
            li <= lines@.len() || li == 1,
            ls == lines_of(content@),
            lines@.map_values(|f: Vec<u8>| f@) == ls,
            headers@.map_values(|f: Vec<u8>| f@) == gh,
            gh == split_by(ls[0], 44),
            gids == core_ids_of(gh),
            gdevs == devs_of(gh),
            gifaces == ifaces_of(gh),
            ids@ == gids,
            devs@.map_values(|d: Vec<u8>| d@) == gdevs,
            ifaces@.map_values(|d: Vec<u8>| d@) == gifaces,
            samples@.len() == data_rows(ls.take(li as int)).len(),
            forall|i: int| 0 <= i < samples@.len() ==> row_parsed_ok(
                gh,
                gids,
                gdevs,
                gifaces,
                data_rows(ls.take(li as int))[i],
                #[trigger] samples@[i],
            ),
        decreases lines@.len() - li,
    {
        let line = &lines[li];
        proof {
            assert(line@ == ls[li as int]);
            assert(ls.take(li + 1 as int).drop_last() =~= ls.take(li as int));
            assert(ls.take(li + 1 as int).last() == ls[li as int]);
            assert(ls.take(li + 1 as int).len() == li + 1);
        }
        let trimmed = trim(line.as_slice());
        if trimmed.len() > 0 {
            let sample = parse_row(&headers, &ids, &devs, &ifaces, line.as_slice(), Ghost(gh));
            let ghost rows_next = data_rows(ls.take(li + 1 as int));
            proof {
                assert(rows_next =~= data_rows(ls.take(li as int)).push(ls[li as int]));
            }
            samples.push(sample);
        }
        li += 1;
    }
    proof {
        assert(ls.take(ls.len() as int) =~= ls);
    }
    if samples.len() == 0 {
        return Err(LoadError::NoSamples);
    }
    Ok(samples)
}

/// Inserts a discovered core id in ascending position, once.
fn insert_id_exec(ids: &mut Vec<u64>, v: u64)
    requires
        ids_sorted(old(ids)@),
    ensures
        final(ids)@ == insert_id(old(ids)@, v),
        ids_sorted(final(ids)@),
{
    let mut i: usize = 0;
    while i < ids.len() && ids[i] < v
        invariant
            i <= ids@.len(),
            ids@ == old(ids)@,
            forall|j: int| 0 <= j < i ==> ids@[j] < v,
        decreases ids@.len() - i,
    {
        i += 1;
    }
    if i < ids.len() && ids[i] == v {
        proof {
            lemma_insert_id_at(old(ids)@, v, i as int);
        }
        return;
    }
    ids.insert(i, v);
    proof {
        lemma_insert_id_at(old(ids)@, v, i as int);
        assert(ids@ =~= old(ids)@.take(i as int) + seq![v] + old(ids)@.skip(i as int));
        lemma_insert_id_sorted(old(ids)@, v);
    }
}

proof fn lemma_insert_id_at(s: Seq<u64>, v: u64, i: int)
    requires
        0 <= i <= s.len(),
        forall|j: int| 0 <= j < i ==> s[j] < v,
        i == s.len() || s[i] >= v,
    ensures
        i < s.len() && s[i] == v ==> insert_id(s, v) == s,
        !(i < s.len() && s[i] == v) ==> insert_id(s, v) == s.take(i) + seq![v] + s.skip(i),
    decreases s.len(),
{
    if s.len() == 0 {
        assert(insert_id(s, v) =~= s.take(0) + seq![v] + s.skip(0));
    } else if i == 0 {
        if s[0] == v {
        } else {
            assert(insert_id(s, v) =~= s.take(0) + seq![v] + s.skip(0));
        }
    } else {
        assert(s[0] < v);
        assert(forall|j: int| 0 <= j < i - 1 ==> s.drop_first()[j] < v);
        lemma_insert_id_at(s.drop_first(), v, i - 1);
        if i < s.len() && s[i] == v {
            assert(insert_id(s, v) =~= seq![s[0]] + insert_id(s.drop_first(), v));
            assert(seq![s[0]] + s.drop_first() =~= s);
        } else {
            assert(seq![s[0]] + (s.drop_first().take(i - 1) + seq![v] + s.drop_first().skip(i - 1))
                =~= s.take(i) + seq![v] + s.skip(i));
        }
    }
}

proof fn lemma_insert_id_sorted(s: Seq<u64>, v: u64)
    requires
        ids_sorted(s),
    ensures
        ids_sorted(insert_id(s, v)),
    decreases s.len(),
{
    let r = insert_id(s, v);
    if s.len() == 0 {
    } else if v < s[0] {
        assert(r =~= seq![v] + s);
        assert forall|a: int, b: int| 0 <= a < b < r.len() implies r[a] < r[b] by {
            if a > 0 {
                assert(r[a] == s[a - 1]);
                assert(r[b] == s[b - 1]);
            } else {
                assert(r[b] == s[b - 1]);
            }
        }
    } else if v == s[0] {
    } else {
        assert(ids_sorted(s.drop_first())) by {
            assert(forall|a: int, b: int|
                0 <= a < b < s.len() - 1 ==> s.drop_first()[a] < s.drop_first()[b]);
        }
        lemma_insert_id_sorted(s.drop_first(), v);
        let rr = insert_id(s.drop_first(), v);
        assert(r =~= seq![s[0]] + rr);
        assert forall|a: int, b: int| 0 <= a < b < r.len() implies r[a] < r[b] by {
            if a > 0 {
                assert(rr[a - 1] < rr[b - 1]);
            } else {
                assert(r[b] == rr[b - 1]);
                lemma_insert_id_member(s.drop_first(), v, b - 1);
                let e = rr[b - 1];
                if e != v {
                    let j = choose|j: int| 0 <= j < s.drop_first().len() && s.drop_first()[j] == e;
                    assert(s[0] < s[j + 1]);
                }
            }
        }
    }
}

proof fn lemma_insert_id_member(s: Seq<u64>, v: u64, i: int)
    requires
        0 <= i < insert_id(s, v).len(),
    ensures
        insert_id(s, v)[i] == v || exists|j: int| 0 <= j < s.len() && s[j] == insert_id(s, v)[i],
    decreases s.len(),
{
    if s.len() == 0 {
    } else if v < s[0] {
        if i > 0 {
            assert(insert_id(s, v)[i] == s[i - 1]);
        }
    } else if v == s[0] {
    } else {
        if i > 0 {
            lemma_insert_id_member(s.drop_first(), v, i - 1);
            let e = insert_id(s.drop_first(), v)[i - 1];
            assert(insert_id(s, v)[i] == e);
            if e != v {
                let j = choose|j: int| 0 <= j < s.drop_first().len() && s.drop_first()[j] == e;
                assert(s[j + 1] == e);
            }
        }
    }
}

/// Finds a column's index: the last position of its name in the header.
fn col_idx_exec(headers: &Vec<Vec<u8>>, name: &[u8], Ghost(gh): Ghost<Seq<Seq<u8>>>) -> (r: Option<
    usize,
>)
    requires
        headers@.map_values(|f: Vec<u8>| f@) == gh,
    ensures
        match r {
            Some(i) => i == col_idx(gh, name@),
            None => col_idx(gh, name@) == -1,
        },
{
    let mut found: Option<usize> = None;
    let mut i: usize = 0;
    proof {
        assert(col_idx(gh.take(0), name@) == -1);
    }
    while i < headers.len()
        invariant
            i <= headers@.len(),
            headers@.map_values(|f: Vec<u8>| f@) == gh,
            match found {
                Some(f) => f as int == col_idx(gh.take(i as int), name@),
                None => col_idx(gh.take(i as int), name@) == -1,
            },
        decreases headers@.len() - i,
    {
        proof {
            assert(headers@[i as int]@ == gh[i as int]);
            assert(gh.take(i + 1 as int).drop_last() =~= gh.take(i as int));
            assert(gh.take(i + 1 as int).last() == gh[i as int]);
        }
        if bytes_eq(headers[i].as_slice(), name) {
            found = Some(i);
        }
        i += 1;
    }
    proof {
        assert(gh.take(gh.len() as int) =~= gh);
    }
    found
}

/// Reads one field by name; the row may be shorter than the header.
fn get_field_exec<'a>(
    headers: &Vec<Vec<u8>>,
    fields: &'a Vec<Vec<u8>>,
    name: &[u8],
    Ghost(gh): Ghost<Seq<Seq<u8>>>,
    Ghost(gf): Ghost<Seq<Seq<u8>>>,
) -> (r: Option<&'a Vec<u8>>)
    requires
        headers@.map_values(|f: Vec<u8>| f@) == gh,
        fields@.map_values(|f: Vec<u8>| f@) == gf,
    ensures
        match r {
            Some(f) => get_field(gh, gf, name@) == Some(f@),
            None => get_field(gh, gf, name@) is None,
        },
{
    match col_idx_exec(headers, name, Ghost(gh)) {
        Some(i) => {
            if i < fields.len() {
                proof {
                    assert(fields@[i as int]@ == gf[i as int]);
                }
                Some(&fields[i])
            } else {
                None
            }
        },
        None => None,
    }
}

/// A two-decimal field by name, zero when missing or malformed.
fn fval2_exec(
    headers: &Vec<Vec<u8>>,
    fields: &Vec<Vec<u8>>,
    name: &Vec<u8>,
    Ghost(gh): Ghost<Seq<Seq<u8>>>,
    Ghost(gf): Ghost<Seq<Seq<u8>>>,
) -> (r: u64)
    requires
        headers@.map_values(|f: Vec<u8>| f@) == gh,
        fields@.map_values(|f: Vec<u8>| f@) == gf,
    ensures
        r == fval2(gh, gf, name@),
{
    match get_field_exec(headers, fields, name.as_slice(), Ghost(gh), Ghost(gf)) {
        Some(f) => parse_fixed(f.as_slice(), 2),
        None => 0,
    }
}

/// A whole-number field by name, zero when missing or malformed.
fn uval_exec(
    headers: &Vec<Vec<u8>>,
    fields: &Vec<Vec<u8>>,
    name: &Vec<u8>,
    Ghost(gh): Ghost<Seq<Seq<u8>>>,
    Ghost(gf): Ghost<Seq<Seq<u8>>>,
) -> (r: u64)
    requires
        headers@.map_values(|f: Vec<u8>| f@) == gh,
        fields@.map_values(|f: Vec<u8>| f@) == gf,
    ensures
        r == uval(gh, gf, name@),
{
    match get_field_exec(headers, fields, name.as_slice(), Ghost(gh), Ghost(gf)) {
        Some(f) => parse_u64(f.as_slice()),
        None => 0,
    }
}

/// An optional two-decimal field by name.
fn oval2_exec(
    headers: &Vec<Vec<u8>>,
    fields: &Vec<Vec<u8>>,
    name: &Vec<u8>,
    Ghost(gh): Ghost<Seq<Seq<u8>>>,
    Ghost(gf): Ghost<Seq<Seq<u8>>>,
) -> (r: Option<u64>)
    requires
        headers@.map_values(|f: Vec<u8>| f@) == gh,
        fields@.map_values(|f: Vec<u8>| f@) == gf,
    ensures
        r == oval2(gh, gf, name@),
{
    match get_field_exec(headers, fields, name.as_slice(), Ghost(gh), Ghost(gf)) {
        Some(f) => {
            let t = trim(f.as_slice());
            parse_fixed_opt(t.as_slice(), 2)
        },
        None => None,
    }
}

/// An optional whole-number field by name.
fn ovalu_exec(
    headers: &Vec<Vec<u8>>,
    fields: &Vec<Vec<u8>>,
    name: &Vec<u8>,
    Ghost(gh): Ghost<Seq<Seq<u8>>>,
    Ghost(gf): Ghost<Seq<Seq<u8>>>,
) -> (r: Option<u64>)
    requires
        headers@.map_values(|f: Vec<u8>| f@) == gh,
        fields@.map_values(|f: Vec<u8>| f@) == gf,
    ensures
        r == ovalu(gh, gf, name@),
{
    match get_field_exec(headers, fields, name.as_slice(), Ghost(gh), Ghost(gf)) {
        Some(f) => {
            let t = trim(f.as_slice());
            parse_digits(t.as_slice())
        },
        None => None,
    }
}

/// The scalar timestamp, CPU and memory fields of one row.
struct RowScalarsA {
    timestamp_ms: u64,
    cpu_total: u64,
    cpu_user: u64,
    cpu_system: u64,
    cpu_iowait: u64,
    cpu_load_1m: u64,
    cpu_load_5m: u64,
    cpu_load_15m: u64,
    mem_total_bytes: u64,
    mem_used_bytes: u64,
    mem_available_bytes: u64,
    mem_used_pct: u64,
    mem_buffers_bytes: u64,
    mem_cached_bytes: u64,
    mem_dirty_bytes: u64,
    mem_writeback_bytes: u64,
    mem_swap_total_bytes: u64,
    mem_swap_used_bytes: u64,
}

#[verifier::rlimit(60)]
fn parse_scalars_a(
    headers: &Vec<Vec<u8>>,
    fields: &Vec<Vec<u8>>,
    Ghost(gh): Ghost<Seq<Seq<u8>>>,
    Ghost(gf): Ghost<Seq<Seq<u8>>>,
) -> (r: RowScalarsA)
    requires
        headers@.map_values(|f: Vec<u8>| f@) == gh,
        fields@.map_values(|f: Vec<u8>| f@) == gf,
    ensures
        r.timestamp_ms == tsval(gh, gf),
        r.cpu_total == fval2(gh, gf, ascii_bytes("cpu_total_pct"@)),
        r.cpu_user == fval2(gh, gf, ascii_bytes("cpu_user_pct"@)),
        r.cpu_system == fval2(gh, gf, ascii_bytes("cpu_system_pct"@)),
        r.cpu_iowait == fval2(gh, gf, ascii_bytes("cpu_iowait_pct"@)),
        r.cpu_load_1m == fval2(gh, gf, ascii_bytes("cpu_load_1m"@)),
        r.cpu_load_5m == fval2(gh, gf, ascii_bytes("cpu_load_5m"@)),
        r.cpu_load_15m == fval2(gh, gf, ascii_bytes("cpu_load_15m"@)),
        r.mem_total_bytes == uval(gh, gf, ascii_bytes("mem_total_bytes"@)),
        r.mem_used_bytes == uval(gh, gf, ascii_bytes("mem_used_bytes"@)),
        r.mem_available_bytes == uval(gh, gf, ascii_bytes("mem_available_bytes"@)),
        r.mem_used_pct == fval2(gh, gf, ascii_bytes("mem_used_pct"@)),
        r.mem_buffers_bytes == uval(gh, gf, ascii_bytes("mem_buffers_bytes"@)),
        r.mem_cached_bytes == uval(gh, gf, ascii_bytes("mem_cached_bytes"@)),
        r.mem_dirty_bytes == uval(gh, gf, ascii_bytes("mem_dirty_bytes"@)),
        r.mem_writeback_bytes == uval(gh, gf, ascii_bytes("mem_writeback_bytes"@)),
        r.mem_swap_total_bytes == uval(gh, gf, ascii_bytes("mem_swap_total_bytes"@)),
        r.mem_swap_used_bytes == uval(gh, gf, ascii_bytes("mem_swap_used_bytes"@)),
{
    proof {
        reveal_strlit("timestamp");
        reveal_strlit("cpu_total_pct");
        reveal_strlit("cpu_user_pct");
        reveal_strlit("cpu_system_pct");
        reveal_strlit("cpu_iowait_pct");
        reveal_strlit("cpu_load_1m");
        reveal_strlit("cpu_load_5m");
        reveal_strlit("cpu_load_15m");
        reveal_strlit("mem_total_bytes");
        reveal_strlit("mem_used_bytes");
        reveal_strlit("mem_available_bytes");
        reveal_strlit("mem_used_pct");
        reveal_strlit("mem_buffers_bytes");
        reveal_strlit("mem_cached_bytes");
        reveal_strlit("mem_dirty_bytes");
        reveal_strlit("mem_writeback_bytes");
        reveal_strlit("mem_swap_total_bytes");
        reveal_strlit("mem_swap_used_bytes");
    }
    let timestamp_ms = match get_field_exec(
        headers,
        fields,
        str_bytes("timestamp").as_slice(),
        Ghost(gh),
        Ghost(gf),
    ) {
        Some(f) => {
            match parse_ts_row(f.as_slice()) {
                Some(t) => t,
                None => 0,
            }
        },
        None => 0,
    };
    RowScalarsA {
        timestamp_ms,
        cpu_total: fval2_exec(headers, fields, &str_bytes("cpu_total_pct"), Ghost(gh), Ghost(gf)),
        cpu_user: fval2_exec(headers, fields, &str_bytes("cpu_user_pct"), Ghost(gh), Ghost(gf)),
        cpu_system: fval2_exec(headers, fields, &str_bytes("cpu_system_pct"), Ghost(gh), Ghost(gf)),
        cpu_iowait: fval2_exec(headers, fields, &str_bytes("cpu_iowait_pct"), Ghost(gh), Ghost(gf)),
        cpu_load_1m: fval2_exec(headers, fields, &str_bytes("cpu_load_1m"), Ghost(gh), Ghost(gf)),
        cpu_load_5m: fval2_exec(headers, fields, &str_bytes("cpu_load_5m"), Ghost(gh), Ghost(gf)),
        cpu_load_15m: fval2_exec(headers, fields, &str_bytes("cpu_load_15m"), Ghost(gh), Ghost(gf)),
        mem_total_bytes: uval_exec(headers, fields, &str_bytes("mem_total_bytes"), Ghost(gh), Ghost(gf)),
        mem_used_bytes: uval_exec(headers, fields, &str_bytes("mem_used_bytes"), Ghost(gh), Ghost(gf)),
        mem_available_bytes: uval_exec(
            headers,
            fields,
            &str_bytes("mem_available_bytes"),
            Ghost(gh),
            Ghost(gf),
        ),
        mem_used_pct: fval2_exec(headers, fields, &str_bytes("mem_used_pct"), Ghost(gh), Ghost(gf)),
        mem_buffers_bytes: uval_exec(
            headers,
            fields,
            &str_bytes("mem_buffers_bytes"),
            Ghost(gh),
            Ghost(gf),
        ),
        mem_cached_bytes: uval_exec(
            headers,
            fields,
            &str_bytes("mem_cached_bytes"),
            Ghost(gh),
            Ghost(gf),
        ),
        mem_dirty_bytes: uval_exec(
            headers,
            fields,
            &str_bytes("mem_dirty_bytes"),
            Ghost(gh),
            Ghost(gf),
        ),
        mem_writeback_bytes: uval_exec(
            headers,
            fields,
            &str_bytes("mem_writeback_bytes"),
            Ghost(gh),
            Ghost(gf),
        ),
        mem_swap_total_bytes: uval_exec(
            headers,
            fields,
            &str_bytes("mem_swap_total_bytes"),
            Ghost(gh),
            Ghost(gf),
        ),
        mem_swap_used_bytes: uval_exec(
            headers,
            fields,
            &str_bytes("mem_swap_used_bytes"),
            Ghost(gh),
            Ghost(gf),
        ),
    }
}

/// The scalar cgroup, aggregate, pressure and process fields of one row.
struct RowScalarsB {
    cgroup_limit_bytes: Option<u64>,
    cgroup_current_bytes: Option<u64>,
    cgroup_usage_pct: Option<u64>,
    disk_total_read: u64,
    disk_total_write: u64,
    net_total_rx: u64,
    net_total_tx: u64,
    psi_cpu_some_avg10: u64,
    psi_mem_some_avg10: u64,
    psi_mem_full_avg10: Option<u64>,
    psi_io_some_avg10: u64,
    psi_io_full_avg10: Option<u64>,
    proc_cpu_pct: Option<u64>,
    proc_rss_bytes: Option<u64>,
    proc_io_read_bytes_per_sec: Option<u64>,
    proc_io_write_bytes_per_sec: Option<u64>,
}

#[verifier::rlimit(60)]
fn parse_scalars_b(
    headers: &Vec<Vec<u8>>,
    fields: &Vec<Vec<u8>>,
    Ghost(gh): Ghost<Seq<Seq<u8>>>,
    Ghost(gf): Ghost<Seq<Seq<u8>>>,
) -> (r: RowScalarsB)
    requires
        headers@.map_values(|f: Vec<u8>| f@) == gh,
        fields@.map_values(|f: Vec<u8>| f@) == gf,
    ensures
        r.cgroup_limit_bytes == ovalu(gh, gf, ascii_bytes("cgroup_limit_bytes"@)),
        r.cgroup_current_bytes == ovalu(gh, gf, ascii_bytes("cgroup_current_bytes"@)),
        r.cgroup_usage_pct == oval2(gh, gf, ascii_bytes("cgroup_usage_pct"@)),
        r.disk_total_read == fval2(gh, gf, ascii_bytes("disk_total_read_bytes_per_sec"@)),
        r.disk_total_write == fval2(gh, gf, ascii_bytes("disk_total_write_bytes_per_sec"@)),
        r.net_total_rx == fval2(gh, gf, ascii_bytes("net_total_rx_bytes_per_sec"@)),
        r.net_total_tx == fval2(gh, gf, ascii_bytes("net_total_tx_bytes_per_sec"@)),
        r.psi_cpu_some_avg10 == fval2(gh, gf, ascii_bytes("psi_cpu_some_avg10"@)),
        r.psi_mem_some_avg10 == fval2(gh, gf, ascii_bytes("psi_mem_some_avg10"@)),
        r.psi_mem_full_avg10 == oval2(gh, gf, ascii_bytes("psi_mem_full_avg10"@)),
        r.psi_io_some_avg10 == fval2(gh, gf, ascii_bytes("psi_io_some_avg10"@)),
        r.psi_io_full_avg10 == oval2(gh, gf, ascii_bytes("psi_io_full_avg10"@)),
        r.proc_cpu_pct == oval2(gh, gf, ascii_bytes("proc_cpu_pct"@)),
        r.proc_rss_bytes == ovalu(gh, gf, ascii_bytes("proc_rss_bytes"@)),
        r.proc_io_read_bytes_per_sec == oval2(gh, gf, ascii_bytes("proc_io_read_bytes_per_sec"@)),
        r.proc_io_write_bytes_per_sec == oval2(gh, gf, ascii_bytes("proc_io_write_bytes_per_sec"@)),
{
    proof {
        reveal_strlit("cgroup_limit_bytes");
        reveal_strlit("cgroup_current_bytes");
        reveal_strlit("cgroup_usage_pct");
        reveal_strlit("disk_total_read_bytes_per_sec");
        reveal_strlit("disk_total_write_bytes_per_sec");
        reveal_strlit("net_total_rx_bytes_per_sec");
        reveal_strlit("net_total_tx_bytes_per_sec");
        reveal_strlit("psi_cpu_some_avg10");
        reveal_strlit("psi_mem_some_avg10");
        reveal_strlit("psi_mem_full_avg10");
        reveal_strlit("psi_io_some_avg10");
        reveal_strlit("psi_io_full_avg10");
        reveal_strlit("proc_cpu_pct");
        reveal_strlit("proc_rss_bytes");
        reveal_strlit("proc_io_read_bytes_per_sec");
        reveal_strlit("proc_io_write_bytes_per_sec");
    }
    RowScalarsB {
        cgroup_limit_bytes: ovalu_exec(
            headers,
            fields,
            &str_bytes("cgroup_limit_bytes"),
            Ghost(gh),
            Ghost(gf),
        ),
        cgroup_current_bytes: ovalu_exec(
            headers,
            fields,
            &str_bytes("cgroup_current_bytes"),
            Ghost(gh),
            Ghost(gf),
        ),
        cgroup_usage_pct: oval2_exec(
            headers,
            fields,
            &str_bytes("cgroup_usage_pct"),
            Ghost(gh),
            Ghost(gf),
        ),
        disk_total_read: fval2_exec(
            headers,
            fields,
            &str_bytes("disk_total_read_bytes_per_sec"),
            Ghost(gh),
            Ghost(gf),
        ),
        disk_total_write: fval2_exec(
            headers,
            fields,
            &str_bytes("disk_total_write_bytes_per_sec"),
            Ghost(gh),
            Ghost(gf),
        ),
        net_total_rx: fval2_exec(
            headers,
            fields,
            &str_bytes("net_total_rx_bytes_per_sec"),
            Ghost(gh),
            Ghost(gf),
        ),
        net_total_tx: fval2_exec(
            headers,
            fields,
            &str_bytes("net_total_tx_bytes_per_sec"),
            Ghost(gh),
            Ghost(gf),
        ),
        psi_cpu_some_avg10: fval2_exec(
            headers,
            fields,
            &str_bytes("psi_cpu_some_avg10"),
            Ghost(gh),
            Ghost(gf),
        ),
        psi_mem_some_avg10: fval2_exec(
            headers,
            fields,
            &str_bytes("psi_mem_some_avg10"),
            Ghost(gh),
            Ghost(gf),
        ),
        psi_mem_full_avg10: oval2_exec(
            headers,
            fields,
            &str_bytes("psi_mem_full_avg10"),
            Ghost(gh),
            Ghost(gf),
        ),
        psi_io_some_avg10: fval2_exec(
            headers,
            fields,
            &str_bytes("psi_io_some_avg10"),
            Ghost(gh),
            Ghost(gf),
        ),
        psi_io_full_avg10: oval2_exec(
            headers,
            fields,
            &str_bytes("psi_io_full_avg10"),
            Ghost(gh),
            Ghost(gf),
        ),
        proc_cpu_pct: oval2_exec(headers, fields, &str_bytes("proc_cpu_pct"), Ghost(gh), Ghost(gf)),
        proc_rss_bytes: ovalu_exec(
            headers,
            fields,
            &str_bytes("proc_rss_bytes"),
            Ghost(gh),
            Ghost(gf),
        ),
        proc_io_read_bytes_per_sec: oval2_exec(
            headers,
            fields,
            &str_bytes("proc_io_read_bytes_per_sec"),
            Ghost(gh),
            Ghost(gf),
        ),
        proc_io_write_bytes_per_sec: oval2_exec(
            headers,
            fields,
            &str_bytes("proc_io_write_bytes_per_sec"),
            Ghost(gh),
            Ghost(gf),
        ),
    }
}

/// Parses one data row against the header and the discovered series.
#[verifier::rlimit(100)]
fn parse_row(
    headers: &Vec<Vec<u8>>,
    ids: &Vec<u64>,
    devs: &Vec<Vec<u8>>,
    ifaces: &Vec<Vec<u8>>,
    line: &[u8],
    Ghost(gh): Ghost<Seq<Seq<u8>>>,
) -> (r: DetailedPlotSample)
    requires
        headers@.map_values(|f: Vec<u8>| f@) == gh,
    ensures
        row_parsed_ok(
            gh,
            ids@,
            devs@.map_values(|d: Vec<u8>| d@),
            ifaces@.map_values(|d: Vec<u8>| d@),
            line@,
            r,
        ),
{
    let fields = split_byte(line, 44);
    let ghost gf = split_by(line@, 44);
    proof {
        assert(fields@.map_values(|f: Vec<u8>| f@) == gf);
    }
    let a = parse_scalars_a(headers, &fields, Ghost(gh), Ghost(gf));
    let b = parse_scalars_b(headers, &fields, Ghost(gh), Ghost(gf));

    let mut per_core: Vec<u64> = Vec::new();
    let mut k: usize = 0;
    while k < ids.len()
        invariant
            k <= ids@.len(),
            headers@.map_values(|f: Vec<u8>| f@) == gh,
            fields@.map_values(|f: Vec<u8>| f@) == gf,
            per_core@ =~= Seq::new(k as nat, |i: int| fval2(gh, gf, core_col(ids@[i]))),
        decreases ids@.len() - k,
    {
        proof {
            reveal_strlit("cpu_core");
            reveal_strlit("_pct");
        }
        let mut col = str_bytes("cpu_core");
        let mut num = fmt_u64(ids[k]);
        col.append(&mut num);
        let mut suf = str_bytes("_pct");
        col.append(&mut suf);
        proof {
            assert(col@ =~= core_col(ids@[k as int]));
        }
        let v = fval2_exec(headers, &fields, &col, Ghost(gh), Ghost(gf));
        per_core.push(v);
        proof {
            assert(per_core@ =~= Seq::new((k + 1) as nat, |i: int| fval2(gh, gf, core_col(ids@[i]))));
        }
        k += 1;
    }

    let mut disk_read: Vec<u64> = Vec::new();
    let mut disk_write: Vec<u64> = Vec::new();
    let mut disk_util: Vec<u64> = Vec::new();
    let ghost gdevs = devs@.map_values(|d: Vec<u8>| d@);
    let mut k2: usize = 0;
    while k2 < devs.len()
        invariant
            k2 <= devs@.len(),
            headers@.map_values(|f: Vec<u8>| f@) == gh,
            fields@.map_values(|f: Vec<u8>| f@) == gf,
            gdevs == devs@.map_values(|d: Vec<u8>| d@),
            disk_read@ =~= Seq::new(
                k2 as nat,
                |i: int| fval2(gh, gf, dev_col(gdevs[i], "_read_bytes_per_sec"@)),
            ),
            disk_write@ =~= Seq::new(
                k2 as nat,
                |i: int| fval2(gh, gf, dev_col(gdevs[i], "_write_bytes_per_sec"@)),
            ),
            disk_util@ =~= Seq::new(k2 as nat, |i: int| fval2(gh, gf, dev_col(gdevs[i], "_util_pct"@))),
        decreases devs@.len() - k2,
    {
        proof {
            reveal_strlit("disk_");
            reveal_strlit("_read_bytes_per_sec");
            reveal_strlit("_write_bytes_per_sec");
            reveal_strlit("_util_pct");
            assert(devs@[k2 as int]@ == gdevs[k2 as int]);
        }
        let col_r = named_col("disk_", &devs[k2], "_read_bytes_per_sec");
        let col_w = named_col("disk_", &devs[k2], "_write_bytes_per_sec");
        let col_u = named_col("disk_", &devs[k2], "_util_pct");
        let vr = fval2_exec(headers, &fields, &col_r, Ghost(gh), Ghost(gf));
        let vw = fval2_exec(headers, &fields, &col_w, Ghost(gh), Ghost(gf));
        let vu = fval2_exec(headers, &fields, &col_u, Ghost(gh), Ghost(gf));
        disk_read.push(vr);
        disk_write.push(vw);
        disk_util.push(vu);
        proof {
            assert(disk_read@ =~= Seq::new(
                (k2 + 1) as nat,
                |i: int| fval2(gh, gf, dev_col(gdevs[i], "_read_bytes_per_sec"@)),
            ));
            assert(disk_write@ =~= Seq::new(
                (k2 + 1) as nat,
                |i: int| fval2(gh, gf, dev_col(gdevs[i], "_write_bytes_per_sec"@)),
            ));
            assert(disk_util@ =~= Seq::new(
                (k2 + 1) as nat,
                |i: int| fval2(gh, gf, dev_col(gdevs[i], "_util_pct"@)),
            ));
        }
        k2 += 1;
    }

    let mut net_rx: Vec<u64> = Vec::new();
    let mut net_tx: Vec<u64> = Vec::new();
    let ghost gifs = ifaces@.map_values(|d: Vec<u8>| d@);
    let mut k3: usize = 0;
    while k3 < ifaces.len()
        invariant
            k3 <= ifaces@.len(),
            headers@.map_values(|f: Vec<u8>| f@) == gh,
            fields@.map_values(|f: Vec<u8>| f@) == gf,
            gifs == ifaces@.map_values(|d: Vec<u8>| d@),
            net_rx@ =~= Seq::new(
                k3 as nat,
                |i: int| fval2(gh, gf, iface_col(gifs[i], "_rx_bytes_per_sec"@)),
            ),
            net_tx@ =~= Seq::new(
                k3 as nat,
                |i: int| fval2(gh, gf, iface_col(gifs[i], "_tx_bytes_per_sec"@)),
            ),
        decreases ifaces@.len() - k3,
    {
        proof {
            reveal_strlit("net_");
            reveal_strlit("_rx_bytes_per_sec");
            reveal_strlit("_tx_bytes_per_sec");
            assert(ifaces@[k3 as int]@ == gifs[k3 as int]);
        }
        let col_r = named_col("net_", &ifaces[k3], "_rx_bytes_per_sec");
        let col_t = named_col("net_", &ifaces[k3], "_tx_bytes_per_sec");
        let vr = fval2_exec(headers, &fields, &col_r, Ghost(gh), Ghost(gf));
        let vt = fval2_exec(headers, &fields, &col_t, Ghost(gh), Ghost(gf));
        net_rx.push(vr);
        net_tx.push(vt);
        proof {
            assert(net_rx@ =~= Seq::new(
                (k3 + 1) as nat,
                |i: int| fval2(gh, gf, iface_col(gifs[i], "_rx_bytes_per_sec"@)),
            ));
            assert(net_tx@ =~= Seq::new(
                (k3 + 1) as nat,
                |i: int| fval2(gh, gf, iface_col(gifs[i], "_tx_bytes_per_sec"@)),
            ));
        }
        k3 += 1;
    }

    DetailedPlotSample {
        timestamp_ms: a.timestamp_ms,
        cpu_total: a.cpu_total,
        cpu_user: a.cpu_user,
        cpu_system: a.cpu_system,
        cpu_iowait: a.cpu_iowait,
        cpu_load_1m: a.cpu_load_1m,
        cpu_load_5m: a.cpu_load_5m,
        cpu_load_15m: a.cpu_load_15m,
        per_core_pct: per_core,
        mem_total_bytes: a.mem_total_bytes,
        mem_used_bytes: a.mem_used_bytes,
        mem_available_bytes: a.mem_available_bytes,
        mem_used_pct: a.mem_used_pct,
        mem_buffers_bytes: a.mem_buffers_bytes,
        mem_cached_bytes: a.mem_cached_bytes,
        mem_dirty_bytes: a.mem_dirty_bytes,
        mem_writeback_bytes: a.mem_writeback_bytes,
        mem_swap_total_bytes: a.mem_swap_total_bytes,
        mem_swap_used_bytes: a.mem_swap_used_bytes,
        cgroup_limit_bytes: b.cgroup_limit_bytes,
        cgroup_current_bytes: b.cgroup_current_bytes,
        cgroup_usage_pct: b.cgroup_usage_pct,
        disk_devices: clone_names(devs),
        disk_read_bytes_per_sec: disk_read,
        disk_write_bytes_per_sec: disk_write,
        disk_util_pct: disk_util,
        disk_total_read: b.disk_total_read,
        disk_total_write: b.disk_total_write,
        net_interfaces: clone_names(ifaces),
        net_rx_bytes_per_sec: net_rx,
        net_tx_bytes_per_sec: net_tx,
        net_total_rx: b.net_total_rx,
        net_total_tx: b.net_total_tx,
        psi_cpu_some_avg10: b.psi_cpu_some_avg10,
        psi_mem_some_avg10: b.psi_mem_some_avg10,
        psi_mem_full_avg10: b.psi_mem_full_avg10,
        psi_io_some_avg10: b.psi_io_some_avg10,
        psi_io_full_avg10: b.psi_io_full_avg10,
        proc_cpu_pct: b.proc_cpu_pct,
        proc_rss_bytes: b.proc_rss_bytes,
        proc_io_read_bytes_per_sec: b.proc_io_read_bytes_per_sec,
        proc_io_write_bytes_per_sec: b.proc_io_write_bytes_per_sec,
    }
}

/// Copies a list of names.
fn clone_names(v: &Vec<Vec<u8>>) -> (r: Vec<Vec<u8>>)
    ensures
        r@.map_values(|d: Vec<u8>| d@) == v@.map_values(|d: Vec<u8>| d@),
{
    let mut r: Vec<Vec<u8>> = Vec::new();
    let mut i: usize = 0;
    while i < v.len()
        invariant
            i <= v@.len(),
            r@.map_values(|d: Vec<u8>| d@) =~= v@.map_values(|d: Vec<u8>| d@).take(i as int),
        decreases v@.len() - i,
    {
        let c = v[i].clone();
        let ghost gc = c@;
        let ghost before = r@.map_values(|d: Vec<u8>| d@);
        r.push(c);
        proof {
            assert(r@.map_values(|d: Vec<u8>| d@) =~= before.push(gc));
            assert(v@.map_values(|d: Vec<u8>| d@).take(i + 1 as int) =~= v@.map_values(
                |d: Vec<u8>| d@,
            ).take(i as int).push(v@[i as int]@));
        }
        i += 1;
    }
    proof {
        assert(v@.map_values(|d: Vec<u8>| d@).take(v@.len() as int) =~= v@.map_values(
            |d: Vec<u8>| d@,
        ));
    }
    r
}

/// Builds a `prefix + name + suffix` column name.
fn named_col(prefix: &str, name: &Vec<u8>, suffix: &str) -> (r: Vec<u8>)
    requires
        prefix.is_ascii(),
        suffix.is_ascii(),
    ensures
        r@ == ascii_bytes(prefix@) + name@ + ascii_bytes(suffix@),
{
    let mut col = str_bytes(prefix);
    let mut nm = name.clone();
    col.append(&mut nm);
    let mut sfx = str_bytes(suffix);
    col.append(&mut sfx);
    proof {
        assert(col@ =~= ascii_bytes(prefix@) + name@ + ascii_bytes(suffix@));
    }
    col
}

} // verus!
