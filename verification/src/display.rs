//! Presentation helpers: human-readable byte figures, string truncation,
//! and the fixed-capacity rolling histories behind the sparklines.

use vstd::prelude::*;
use vstd::string::StrSliceExecFns;
use vstd::string::StringSliceAdditionalSpecFns;
use crate::bytes::{ascii_bytes, str_bytes};
use crate::numfmt::{dec_digits, fmt_fixed_spec, fmt_u64, fmt_fixed, all_digits, lemma_dec_digits_wf, lemma_fixed_digits_wf};

verus! {

/// The characters an ASCII byte string spells.
pub open spec fn chars_of(s: Seq<u8>) -> Seq<char> {
    s.map_values(|b: u8| b as char)
}

/// Relies on `String::from_utf8_lossy`: on bytes below 128 it decodes one
/// character per byte, each the character with that code.
#[verifier::external_body]
fn ascii_string(b: &[u8]) -> (r: String)
    requires
        forall|i: int| 0 <= i < b@.len() ==> b@[i] < 128,
    ensures
        r@ == chars_of(b@),
{
    String::from_utf8_lossy(b).into_owned()
}

/// Every byte of an ASCII literal's byte image is below 128.
pub proof fn lemma_ascii_bytes_low(s: Seq<char>)
    requires
        vstd::utf8::is_ascii_chars(s),
    ensures
        forall|i: int| 0 <= i < s.len() ==> ascii_bytes(s)[i] < 128,
{
    assert forall|i: int| 0 <= i < s.len() implies ascii_bytes(s)[i] < 128 by {
        assert(s[i] <= '\u{7f}');
    }
}

/// Rounds `bytes * 100 / unit` to the nearest hundredth, ties upward.
pub open spec fn unit_centi(bytes: u64, unit: u64) -> u64
    recommends
        unit >= 1024,
{
    ((bytes * 100 + unit / 2) / (unit as int)) as u64
}

/// Rounds `bytes * 10 / unit` to the nearest tenth, ties upward.
pub open spec fn unit_deci(bytes: u64, unit: u64) -> u64
    recommends
        unit >= 1024,
{
    ((bytes * 10 + unit / 2) / (unit as int)) as u64
}

/// Rounds `bytes / unit` to the nearest whole, ties upward.
pub open spec fn unit_whole(bytes: u64, unit: u64) -> u64
    recommends
        unit >= 1024,
{
    ((bytes + unit / 2) / (unit as int)) as u64
}

/// Computes a scaled, rounded unit figure.
fn scale_round(bytes: u64, scale: u64, unit: u64) -> (r: u64)
    requires
        1 <= scale <= 100,
        1024 <= unit,
    ensures
        r == ((bytes * scale + unit / 2) / (unit as int)) as u64,
{
    proof {
        assert((bytes as u128) * (scale as u128) <= (u64::MAX as u128) * 100) by (nonlinear_arith)
            requires
                bytes <= u64::MAX,
                scale <= 100,
        {}
    }
    let wide: u128 = (bytes as u128) * (scale as u128) + ((unit / 2) as u128);
    let q: u128 = wide / (unit as u128);
    proof {
        assert(q <= u64::MAX as u128) by (nonlinear_arith)
            requires
                q == wide / (unit as u128),
                wide <= (u64::MAX as u128) * 100 + u64::MAX,
                unit >= 1024,
        {}
    }
    q as u64
}

/// The rendering of a byte count: two decimals of the matching power of
/// 1024 with its unit name, or the plain count below one kilobyte.
pub open spec fn format_bytes_spec(bytes: u64) -> Seq<u8> {
    if bytes >= 1099511627776 {
        fmt_fixed_spec(unit_centi(bytes, 1099511627776) as nat, 2) + ascii_bytes(" TB"@)
    } else if bytes >= 1073741824 {
        fmt_fixed_spec(unit_centi(bytes, 1073741824) as nat, 2) + ascii_bytes(" GB"@)
    } else if bytes >= 1048576 {
        fmt_fixed_spec(unit_centi(bytes, 1048576) as nat, 2) + ascii_bytes(" MB"@)
    } else if bytes >= 1024 {
        fmt_fixed_spec(unit_centi(bytes, 1024) as nat, 2) + ascii_bytes(" KB"@)
    } else {
        dec_digits(bytes as nat) + ascii_bytes(" B"@)
    }
}

/// Renders a byte count for people: `1.50 GB`, `512 B`.
pub fn format_bytes(bytes: u64) -> (r: String)
    ensures
        r@ == chars_of(format_bytes_spec(bytes)),
{
    proof {
        reveal_strlit(" TB");
        reveal_strlit(" GB");
        reveal_strlit(" MB");
        reveal_strlit(" KB");
        reveal_strlit(" B");
    }
    let mut out: Vec<u8>;
    if bytes >= 1099511627776 {
        out = fmt_fixed(scale_round(bytes, 100, 1099511627776), 2);
        let mut u = str_bytes(" TB");
        out.append(&mut u);
    } else if bytes >= 1073741824 {
        out = fmt_fixed(scale_round(bytes, 100, 1073741824), 2);
        let mut u = str_bytes(" GB");
        out.append(&mut u);
    } else if bytes >= 1048576 {
        out = fmt_fixed(scale_round(bytes, 100, 1048576), 2);
        let mut u = str_bytes(" MB");
        out.append(&mut u);
    } else if bytes >= 1024 {
        out = fmt_fixed(scale_round(bytes, 100, 1024), 2);
        let mut u = str_bytes(" KB");
        out.append(&mut u);
    } else {
        out = fmt_u64(bytes);
        let mut u = str_bytes(" B");
        out.append(&mut u);
    }
    proof {
        assert(out@ == format_bytes_spec(bytes));
        lemma_format_ascii(bytes);
    }
    ascii_string(out.as_slice())
}

/// Every byte of a rendered figure is ASCII.
proof fn lemma_format_ascii(bytes: u64)
    ensures
        forall|i: int| 0 <= i < format_bytes_spec(bytes).len() ==> format_bytes_spec(bytes)[i]
            < 128,
{
    reveal_strlit(" TB");
    reveal_strlit(" GB");
    reveal_strlit(" MB");
    reveal_strlit(" KB");
    reveal_strlit(" B");
    lemma_fmt_fixed_ascii(unit_centi(bytes, 1099511627776) as nat, 2);
    lemma_fmt_fixed_ascii(unit_centi(bytes, 1073741824) as nat, 2);
    lemma_fmt_fixed_ascii(unit_centi(bytes, 1048576) as nat, 2);
    lemma_fmt_fixed_ascii(unit_centi(bytes, 1024) as nat, 2);
    lemma_dec_digits_wf(bytes as nat);
    lemma_ascii_bytes_low(" TB"@);
    lemma_ascii_bytes_low(" GB"@);
    lemma_ascii_bytes_low(" MB"@);
    lemma_ascii_bytes_low(" KB"@);
    lemma_ascii_bytes_low(" B"@);
}

/// Every byte of a fixed-point rendering is ASCII.
pub proof fn lemma_fmt_fixed_ascii(v: nat, k: nat)
    ensures
        forall|i: int| 0 <= i < fmt_fixed_spec(v, k).len() ==> fmt_fixed_spec(v, k)[i] < 128,
{
    lemma_dec_digits_wf(v / crate::numfmt::pow10(k));
    lemma_fixed_digits_wf(v % crate::numfmt::pow10(k), k);
    assert forall|i: int| 0 <= i < fmt_fixed_spec(v, k).len() implies fmt_fixed_spec(v, k)[i]
        < 128 by {
        let s = fmt_fixed_spec(v, k);
        let ip = dec_digits(v / crate::numfmt::pow10(k));
        let fp = crate::numfmt::fixed_digits(v % crate::numfmt::pow10(k), k);
        if i < ip.len() {
            assert(crate::numfmt::is_digit(ip[i]));
        } else if i == ip.len() {
        } else {
            assert(crate::numfmt::is_digit(fp[i - ip.len() - 1]));
        }
    }
}

/// The compact rendering of a byte count: one decimal for terabytes and
/// gigabytes, whole numbers for megabytes and kilobytes, no space.
pub open spec fn format_bytes_short_spec(bytes: u64) -> Seq<u8> {
    if bytes >= 1099511627776 {
        fmt_fixed_spec(unit_deci(bytes, 1099511627776) as nat, 1) + ascii_bytes("T"@)
    } else if bytes >= 1073741824 {
        fmt_fixed_spec(unit_deci(bytes, 1073741824) as nat, 1) + ascii_bytes("G"@)
    } else if bytes >= 1048576 {
        dec_digits(unit_whole(bytes, 1048576) as nat) + ascii_bytes("M"@)
    } else if bytes >= 1024 {
        dec_digits(unit_whole(bytes, 1024) as nat) + ascii_bytes("K"@)
    } else {
        dec_digits(bytes as nat) + ascii_bytes("B"@)
    }
}

/// Renders a byte count compactly as raw bytes, for the log rows.
pub fn format_bytes_short_vec(bytes: u64) -> (r: Vec<u8>)
    ensures
        r@ == format_bytes_short_spec(bytes),
{
    proof {
        reveal_strlit("T");
        reveal_strlit("G");
        reveal_strlit("M");
        reveal_strlit("K");
        reveal_strlit("B");
    }
    let mut out: Vec<u8>;
    if bytes >= 1099511627776 {
        out = fmt_fixed(scale_round(bytes, 10, 1099511627776), 1);
        let mut u = str_bytes("T");
        out.append(&mut u);
    } else if bytes >= 1073741824 {
        out = fmt_fixed(scale_round(bytes, 10, 1073741824), 1);
        let mut u = str_bytes("G");
        out.append(&mut u);
    } else if bytes >= 1048576 {
        out = fmt_u64(scale_round(bytes, 1, 1048576));
        let mut u = str_bytes("M");
        out.append(&mut u);
    } else if bytes >= 1024 {
        out = fmt_u64(scale_round(bytes, 1, 1024));
        let mut u = str_bytes("K");
        out.append(&mut u);
    } else {
        out = fmt_u64(bytes);
        let mut u = str_bytes("B");
        out.append(&mut u);
    }
    out
}

/// Every byte of a compact rendering is ASCII.
pub proof fn lemma_format_short_ascii(bytes: u64)
    ensures
        forall|i: int| 0 <= i < format_bytes_short_spec(bytes).len() ==> format_bytes_short_spec(
            bytes,
        )[i] < 128,
{
    reveal_strlit("T");
    reveal_strlit("G");
    reveal_strlit("M");
    reveal_strlit("K");
    reveal_strlit("B");
    lemma_fmt_fixed_ascii(unit_deci(bytes, 1099511627776) as nat, 1);
    lemma_fmt_fixed_ascii(unit_deci(bytes, 1073741824) as nat, 1);
    lemma_dec_digits_wf(unit_whole(bytes, 1048576) as nat);
    lemma_dec_digits_wf(unit_whole(bytes, 1024) as nat);
    lemma_dec_digits_wf(bytes as nat);
    lemma_ascii_bytes_low("T"@);
    lemma_ascii_bytes_low("G"@);
    lemma_ascii_bytes_low("M"@);
    lemma_ascii_bytes_low("K"@);
    lemma_ascii_bytes_low("B"@);
}

/// Renders a byte count compactly: `1.5G`, `340M`, `512B`.
pub fn format_bytes_short(bytes: u64) -> (r: String)
    ensures
        r@ == chars_of(format_bytes_short_spec(bytes)),
{
    let out = format_bytes_short_vec(bytes);
    proof {
        lemma_format_short_ascii(bytes);
    }
    ascii_string(out.as_slice())
}

/// Rounds a hundredths-scaled throughput into hundredths of `unit` bytes
/// per second, ties upward.
pub open spec fn tp_round(centi: u64, unit: u64) -> u64
    recommends
        unit >= 1024,
{
    ((centi + unit / 2) / (unit as int)) as u64
}

/// The rendering of a throughput carried in hundredths of a byte per
/// second: two decimals of the matching power of 1024, or whole bytes.
pub open spec fn format_throughput_spec(centi: u64) -> Seq<u8> {
    if centi >= 107374182400 {
        fmt_fixed_spec(tp_round(centi, 1073741824) as nat, 2) + ascii_bytes(" GB/s"@)
    } else if centi >= 104857600 {
        fmt_fixed_spec(tp_round(centi, 1048576) as nat, 2) + ascii_bytes(" MB/s"@)
    } else if centi >= 102400 {
        fmt_fixed_spec(tp_round(centi, 1024) as nat, 2) + ascii_bytes(" KB/s"@)
    } else {
        dec_digits((((centi + 50) / 100) as u64) as nat) + ascii_bytes(" B/s"@)
    }
}

/// Renders a throughput as raw bytes, for the log rows.
pub fn format_throughput_vec(centi: u64) -> (r: Vec<u8>)
    ensures
        r@ == format_throughput_spec(centi),
{
    proof {
        reveal_strlit(" GB/s");
        reveal_strlit(" MB/s");
        reveal_strlit(" KB/s");
        reveal_strlit(" B/s");
    }
    let mut out: Vec<u8>;
    if centi >= 107374182400 {
        out = fmt_fixed(tp_div(centi, 1073741824), 2);
        let mut u = str_bytes(" GB/s");
        out.append(&mut u);
    } else if centi >= 104857600 {
        out = fmt_fixed(tp_div(centi, 1048576), 2);
        let mut u = str_bytes(" MB/s");
        out.append(&mut u);
    } else if centi >= 102400 {
        out = fmt_fixed(tp_div(centi, 1024), 2);
        let mut u = str_bytes(" KB/s");
        out.append(&mut u);
    } else {
        out = fmt_u64((centi + 50) / 100);
        let mut u = str_bytes(" B/s");
        out.append(&mut u);
    }
    out
}

/// Every byte of a throughput rendering is ASCII.
pub proof fn lemma_format_tp_ascii(centi: u64)
    ensures
        forall|i: int| 0 <= i < format_throughput_spec(centi).len() ==> format_throughput_spec(
            centi,
        )[i] < 128,
{
    reveal_strlit(" GB/s");
    reveal_strlit(" MB/s");
    reveal_strlit(" KB/s");
    reveal_strlit(" B/s");
    lemma_fmt_fixed_ascii(tp_round(centi, 1073741824) as nat, 2);
    lemma_fmt_fixed_ascii(tp_round(centi, 1048576) as nat, 2);
    lemma_fmt_fixed_ascii(tp_round(centi, 1024) as nat, 2);
    lemma_dec_digits_wf((((centi + 50) / 100) as u64) as nat);
    lemma_ascii_bytes_low(" GB/s"@);
    lemma_ascii_bytes_low(" MB/s"@);
    lemma_ascii_bytes_low(" KB/s"@);
    lemma_ascii_bytes_low(" B/s"@);
}

/// Renders a throughput for people: `2.41 MB/s`, `512 B/s`.
pub fn format_throughput(centi: u64) -> (r: String)
    ensures
        r@ == chars_of(format_throughput_spec(centi)),
{
    let out = format_throughput_vec(centi);
    proof {
        lemma_format_tp_ascii(centi);
    }
    ascii_string(out.as_slice())
}

/// Computes a rounded throughput figure.
fn tp_div(centi: u64, unit: u64) -> (r: u64)
    requires
        unit >= 1024,
    ensures
        r == tp_round(centi, unit),
{
    let wide: u128 = (centi as u128) + ((unit / 2) as u128);
    let q: u128 = wide / (unit as u128);
    proof {
        assert(q <= u64::MAX as u128) by (nonlinear_arith)
            requires
                q == wide / (unit as u128),
                wide <= (u64::MAX as u128) + u64::MAX,
                unit >= 1024,
        {}
    }
    q as u64
}

/// The truncation of an ASCII string to `max_len` characters: short
/// strings pass through, very narrow widths cut hard, anything else keeps
/// room for a two-dot ellipsis.
pub open spec fn truncate_spec(s: Seq<char>, max_len: int) -> Seq<char> {
    if s.len() <= max_len {
        s
    } else if max_len <= 2 {
        s.take(max_len)
    } else {
        s.take(max_len - 2) + ".."@
    }
}

/// Truncates a string for a fixed-width column, marking the cut with two
/// dots.  A string with bytes beyond ASCII is passed through whole.
pub fn truncate_str(s: &str, max_len: usize) -> (r: String)
    ensures
        s.is_ascii() ==> r@ == truncate_spec(s@, max_len as int),
        !s.is_ascii() ==> r@ == s@,
{
    if !s.is_ascii() {
        return s.to_owned();
    }
    let n = s.as_bytes().len();
    proof {
        broadcast use vstd::string::is_ascii_spec_bytes;

        assert(s.spec_bytes() =~= Seq::new(s@.len(), |i: int| s@.index(i) as u8));
        assert(n == s@.len());
    }
    if n <= max_len {
        return s.to_owned();
    }
    if max_len <= 2 {
        return s.substring_ascii(0, max_len).to_owned();
    }
    let head = s.substring_ascii(0, max_len - 2);
    let mut out = head.to_owned();
    proof {
        reveal_strlit("..");
    }
    out.append("..");
    out
}

/// A fixed-capacity rolling history: the newest sample is appended and the
/// oldest evicted once the capacity is reached.
pub open spec fn rolled(values: Seq<u64>, max: int, v: u64) -> Seq<u64> {
    if values.len() >= max && values.len() > 0 {
        values.drop_first().push(v)
    } else {
        values.push(v)
    }
}

/// Rolling overall-utilization history for the CPU sparkline, in whole
/// percents.
pub struct CpuHistory {
    /// Utilization samples, oldest first.
    pub values: Vec<u64>,
    /// Capacity.
    pub max_samples: usize,
}

impl CpuHistory {
    /// An empty history with the given capacity.
    pub fn new(max_samples: usize) -> (r: CpuHistory)
        ensures
            r.values@.len() == 0,
            r.max_samples == max_samples,
    {
        CpuHistory { values: Vec::new(), max_samples }
    }

    /// Appends a utilization sample (hundredths in, whole percents kept),
    /// evicting the oldest at capacity.
    pub fn push(&mut self, cpu_percent_centi: u64)
        ensures
            final(self).values@ == rolled(
                old(self).values@,
                old(self).max_samples as int,
                cpu_percent_centi / 100,
            ),
            final(self).max_samples == old(self).max_samples,
    {
        if self.values.len() >= self.max_samples && self.values.len() > 0 {
            self.values.remove(0);
            proof {
                assert(self.values@ =~= old(self).values@.drop_first());
            }
        }
        self.values.push(cpu_percent_centi / 100);
    }
}

impl Default for CpuHistory {
    /// The sparkline default: one minute of samples.
    fn default() -> (r: CpuHistory)
        ensures
            r.values@.len() == 0,
            r.max_samples == 60,
    {
        CpuHistory::new(60)
    }
}

/// Rolling memory history: system and cgroup usage, in whole percents.
pub struct MemoryHistory {
    pub used_values: Vec<u64>,
    pub cgroup_values: Vec<u64>,
    pub max_samples: usize,
}

impl MemoryHistory {
    /// An empty history with the given capacity.
    pub fn new(max_samples: usize) -> (r: MemoryHistory)
        ensures
            r.used_values@.len() == 0,
            r.cgroup_values@.len() == 0,
            r.max_samples == max_samples,
    {
        MemoryHistory { used_values: Vec::new(), cgroup_values: Vec::new(), max_samples }
    }

    /// Appends one sample of each series; an absent cgroup figure is kept
    /// as zero.
    pub fn push(&mut self, used_pct_centi: u64, cgroup_pct_centi: Option<u64>)
        ensures
            final(self).used_values@ == rolled(
                old(self).used_values@,
                old(self).max_samples as int,
                used_pct_centi / 100,
            ),
            final(self).cgroup_values@ == rolled(
                old(self).cgroup_values@,
                old(self).max_samples as int,
                (match cgroup_pct_centi {
                    Some(v) => v,
                    None => 0u64,
                }) / 100,
            ),
            final(self).max_samples == old(self).max_samples,
    {
        if self.used_values.len() >= self.max_samples && self.used_values.len() > 0 {
            self.used_values.remove(0);
            proof {
                assert(self.used_values@ =~= old(self).used_values@.drop_first());
            }
        }
        self.used_values.push(used_pct_centi / 100);
        if self.cgroup_values.len() >= self.max_samples && self.cgroup_values.len() > 0 {
            self.cgroup_values.remove(0);
            proof {
                assert(self.cgroup_values@ =~= old(self).cgroup_values@.drop_first());
            }
        }
        let cg = match cgroup_pct_centi {
            Some(v) => v,
            None => 0,
        };
        self.cgroup_values.push(cg / 100);
    }
}

impl Default for MemoryHistory {
    /// The sparkline default: one minute of samples.
    fn default() -> (r: MemoryHistory)
        ensures
            r.used_values@.len() == 0,
            r.cgroup_values@.len() == 0,
            r.max_samples == 60,
    {
        MemoryHistory::new(60)
    }
}

/// Rolling disk throughput history, whole bytes per second.
pub struct DiskHistory {
    pub read_values: Vec<u64>,
    pub write_values: Vec<u64>,
    pub max_samples: usize,
}

impl DiskHistory {
    /// An empty history with the given capacity.
    pub fn new(max_samples: usize) -> (r: DiskHistory)
        ensures
            r.read_values@.len() == 0,
            r.write_values@.len() == 0,
            r.max_samples == max_samples,
    {
        DiskHistory { read_values: Vec::new(), write_values: Vec::new(), max_samples }
    }

    /// Appends one read and one write throughput sample (hundredths in,
    /// whole bytes per second kept).
    pub fn push(&mut self, read_bytes_per_sec_centi: u64, write_bytes_per_sec_centi: u64)
        ensures
            final(self).read_values@ == rolled(
                old(self).read_values@,
                old(self).max_samples as int,
                read_bytes_per_sec_centi / 100,
            ),
            final(self).write_values@ == rolled(
                old(self).write_values@,
                old(self).max_samples as int,
                write_bytes_per_sec_centi / 100,
            ),
            final(self).max_samples == old(self).max_samples,
    {
        if self.read_values.len() >= self.max_samples && self.read_values.len() > 0 {
            self.read_values.remove(0);
            proof {
                assert(self.read_values@ =~= old(self).read_values@.drop_first());
            }
        }
        self.read_values.push(read_bytes_per_sec_centi / 100);
        if self.write_values.len() >= self.max_samples && self.write_values.len() > 0 {
            self.write_values.remove(0);
            proof {
                assert(self.write_values@ =~= old(self).write_values@.drop_first());
            }
        }
        self.write_values.push(write_bytes_per_sec_centi / 100);
    }
}

impl Default for DiskHistory {
    /// The sparkline default: one minute of samples.
    fn default() -> (r: DiskHistory)
        ensures
            r.read_values@.len() == 0,
            r.write_values@.len() == 0,
            r.max_samples == 60,
    {
        DiskHistory::new(60)
    }
}

/// Rolling network throughput history, whole bytes per second.
pub struct NetworkHistory {
    pub rx_values: Vec<u64>,
    pub tx_values: Vec<u64>,
    pub max_samples: usize,
}

impl NetworkHistory {
    /// An empty history with the given capacity.
    pub fn new(max_samples: usize) -> (r: NetworkHistory)
        ensures
            r.rx_values@.len() == 0,
            r.tx_values@.len() == 0,
            r.max_samples == max_samples,
    {
        NetworkHistory { rx_values: Vec::new(), tx_values: Vec::new(), max_samples }
    }

    /// Appends one receive and one transmit throughput sample (hundredths
    /// in, whole bytes per second kept).
    pub fn push(&mut self, rx_bytes_per_sec_centi: u64, tx_bytes_per_sec_centi: u64)
        ensures
            final(self).rx_values@ == rolled(
                old(self).rx_values@,
                old(self).max_samples as int,
                rx_bytes_per_sec_centi / 100,
            ),
            final(self).tx_values@ == rolled(
                old(self).tx_values@,
                old(self).max_samples as int,
                tx_bytes_per_sec_centi / 100,
            ),
            final(self).max_samples == old(self).max_samples,
    {
        if self.rx_values.len() >= self.max_samples && self.rx_values.len() > 0 {
            self.rx_values.remove(0);
            proof {
                assert(self.rx_values@ =~= old(self).rx_values@.drop_first());
            }
        }
        self.rx_values.push(rx_bytes_per_sec_centi / 100);
        if self.tx_values.len() >= self.max_samples && self.tx_values.len() > 0 {
            self.tx_values.remove(0);
            proof {
                assert(self.tx_values@ =~= old(self).tx_values@.drop_first());
            }
        }
        self.tx_values.push(tx_bytes_per_sec_centi / 100);
    }
}

impl Default for NetworkHistory {
    /// The sparkline default: one minute of samples.
    fn default() -> (r: NetworkHistory)
        ensures
            r.rx_values@.len() == 0,
            r.tx_values@.len() == 0,
            r.max_samples == 60,
    {
        NetworkHistory::new(60)
    }
}

/// Renders an alert's message for people; the message text is pinned
/// whenever it is ASCII, which it is unless a device or process name in it
/// carries bytes beyond ASCII.
pub fn alert_message_string(a: &crate::alert::Alert) -> (r: String)
    ensures
        (forall|i: int| 0 <= i < a.message@.len() ==> a.message@[i] < 128) ==> r@ == chars_of(
            a.message@,
        ),
{
    lossy_string(a.message.as_slice())
}

/// Relies on `String::from_utf8_lossy`: on bytes below 128 it decodes one
/// character per byte, each the character with that code.
#[verifier::external_body]
fn lossy_string(b: &[u8]) -> (r: String)
    ensures
        (forall|i: int| 0 <= i < b@.len() ==> b@[i] < 128) ==> r@ == chars_of(b@),
{
    String::from_utf8_lossy(b).into_owned()
}

} // verus!
