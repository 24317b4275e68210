//! Process metrics: scheduler statistics, memory breakdown and I/O
//! accounting for one tracked process, and the scan scoring that binds a
//! name pattern to a process id.

use vstd::prelude::*;
use crate::bytes::{ascii_bytes, bytes_eq, contains_seq, contains_sub, ends_with, has_prefix, has_suffix, lines_of, lower_byte, split_lines, split_ws, starts_with, str_bytes, subrange_vec, to_lower, trim, trim_spec, ws_tokens};
use crate::cpu::tok_u64;
use crate::memory::keyed_line;
use crate::numfmt::parse_u64_spec;
use crate::rates::{mul_sat, mul_sat_spec, rate_centi, rate_centi_spec};
use crate::{counter_delta, delta_u64};

verus! {

/// Scheduler state of a process.
#[derive(Clone, Copy, Debug, PartialEq, Eq, Structural)]
pub enum ProcessState {
    Running,
    Sleeping,
    DiskSleep,
    Stopped,
    Zombie,
    Dead,
    Unknown,
}

impl ProcessState {
    /// The state's display name.
    pub fn label(&self) -> (r: &'static str)
        ensures
            r@ == state_label(*self),
    {
        proof {
            reveal_strlit("Running");
            reveal_strlit("Sleeping");
            reveal_strlit("Disk Sleep");
            reveal_strlit("Stopped");
            reveal_strlit("Zombie");
            reveal_strlit("Dead");
            reveal_strlit("Unknown");
        }
        match self {
            ProcessState::Running => "Running",
            ProcessState::Sleeping => "Sleeping",
            ProcessState::DiskSleep => "Disk Sleep",
            ProcessState::Stopped => "Stopped",
            ProcessState::Zombie => "Zombie",
            ProcessState::Dead => "Dead",
            ProcessState::Unknown => "Unknown",
        }
    }
}

/// The display name of a state.
pub open spec fn state_label(s: ProcessState) -> Seq<char> {
    match s {
        ProcessState::Running => "Running"@,
        ProcessState::Sleeping => "Sleeping"@,
        ProcessState::DiskSleep => "Disk Sleep"@,
        ProcessState::Stopped => "Stopped"@,
        ProcessState::Zombie => "Zombie"@,
        ProcessState::Dead => "Dead"@,
        ProcessState::Unknown => "Unknown"@,
    }
}

/// The state a scheduler code letter stands for.
pub open spec fn state_of_byte(b: u8) -> ProcessState {
    if b == 82 {
        ProcessState::Running
    } else if b == 83 {
        ProcessState::Sleeping
    } else if b == 68 {
        ProcessState::DiskSleep
    } else if b == 84 {
        ProcessState::Stopped
    } else if b == 90 {
        ProcessState::Zombie
    } else if b == 88 {
        ProcessState::Dead
    } else {
        ProcessState::Unknown
    }
}

/// Why a process collection failed.
#[derive(Clone, Copy, Debug, PartialEq, Eq, Structural)]
pub enum CollectError {
    /// The scheduler-statistics text lacks the parenthesized command name:
    /// the process record is gone or torn.
    MalformedStat,
}

/// Process metrics for one sampling interval.  Sizes are bytes; the CPU
/// share is hundredths of a percent; I/O rates are hundredths of a byte
/// per second.
#[derive(Clone, Debug)]
pub struct ProcessMetrics {
    /// Process id.
    pub pid: u32,
    /// Command name, from between the parentheses of the stat text.
    pub name: Vec<u8>,
    /// Scheduler state.
    pub state: ProcessState,
    /// Resident set size.
    pub rss_bytes: u64,
    /// Virtual memory size.
    pub vsize_bytes: u64,
    /// Peak virtual memory size.
    pub vm_peak: u64,
    /// Anonymous resident memory.
    pub rss_anon: u64,
    /// File-backed resident memory.
    pub rss_file: u64,
    /// Shared resident memory.
    pub rss_shmem: u64,
    /// Swapped-out memory.
    pub vm_swap: u64,
    /// CPU share over the interval, hundredths of a percent.
    pub cpu_percent: u64,
    /// Cumulative user-mode ticks.
    pub utime: u64,
    /// Cumulative kernel-mode ticks.
    pub stime: u64,
    /// Thread count.
    pub num_threads: u64,
    /// Open file descriptors.
    pub num_fds: u64,
    /// Command line, NUL separators as spaces, trimmed.
    pub cmdline: Vec<u8>,
    /// Bytes actually read from storage.
    pub io_read_bytes: u64,
    /// Bytes actually written to storage.
    pub io_write_bytes: u64,
    /// Logical bytes read, cache hits included.
    pub io_rchar: u64,
    /// Logical bytes written, buffering included.
    pub io_wchar: u64,
    /// Cancelled write bytes.
    pub io_cancelled_write_bytes: u64,
    /// Storage read rate, hundredths of a byte per second.
    pub io_read_bytes_per_sec: u64,
    /// Storage write rate, hundredths of a byte per second.
    pub io_write_bytes_per_sec: u64,
}

/// Index of the last occurrence of `b`, or -1 if absent.
pub open spec fn rfind_byte(s: Seq<u8>, b: u8) -> int
    decreases s.len(),
{
    if s.len() == 0 {
        -1
    } else if s.last() == b {
        s.len() - 1
    } else {
        rfind_byte(s.drop_last(), b)
    }
}

pub proof fn lemma_rfind_byte(s: Seq<u8>, b: u8)
    ensures
        -1 <= rfind_byte(s, b) < s.len(),
        forall|j: int| rfind_byte(s, b) < j < s.len() ==> s[j] != b,
        rfind_byte(s, b) >= 0 ==> s[rfind_byte(s, b)] == b,
    decreases s.len(),
{
    if s.len() > 0 && s.last() != b {
        lemma_rfind_byte(s.drop_last(), b);
        assert forall|j: int| rfind_byte(s, b) < j < s.len() implies s[j] != b by {
            if j < s.len() - 1 {
                assert(s.drop_last()[j] != b);
            }
        }
        if rfind_byte(s, b) >= 0 {
            assert(s[rfind_byte(s, b)] == s.drop_last()[rfind_byte(s.drop_last(), b)]);
        }
    }
}

/// Finds the last occurrence of `b`.
pub fn rfind_byte_exec(s: &[u8], b: u8) -> (r: Option<usize>)
    ensures
        match r {
            Some(i) => i == rfind_byte(s@, b),
            None => rfind_byte(s@, b) == -1,
        },
{
    let mut i: usize = s.len();
    while i > 0
        invariant
            i <= s@.len(),
            forall|j: int| i <= j < s@.len() ==> s@[j] != b,
        decreases i,
    {
        i -= 1;
        if s[i] == b {
            proof {
                lemma_rfind_char(s@, b, i as int);
            }
            return Some(i);
        }
    }
    proof {
        lemma_rfind_none(s@, b);
    }
    None
}

proof fn lemma_rfind_char(s: Seq<u8>, b: u8, i: int)
    requires
        0 <= i < s.len(),
        s[i] == b,
        forall|j: int| i < j < s.len() ==> s[j] != b,
    ensures
        rfind_byte(s, b) == i,
    decreases s.len(),
{
    if i == s.len() - 1 {
    } else {
        assert(s.last() != b);
        assert(s.drop_last()[i] == b);
        assert(forall|j: int| i < j < s.len() - 1 ==> s.drop_last()[j] != b);
        lemma_rfind_char(s.drop_last(), b, i);
    }
}

proof fn lemma_rfind_none(s: Seq<u8>, b: u8)
    requires
        forall|j: int| 0 <= j < s.len() ==> s[j] != b,
    ensures
        rfind_byte(s, b) == -1,
    decreases s.len(),
{
    if s.len() > 0 {
        assert(forall|j: int| 0 <= j < s.len() - 1 ==> s.drop_last()[j] != b);
        lemma_rfind_none(s.drop_last(), b);
    }
}

/// The stat text is well formed when an opening parenthesis comes before
/// the last closing one.
pub open spec fn stat_wf(s: Seq<u8>) -> bool {
    &&& crate::bytes::find_byte(s, 40) < s.len()
    &&& rfind_byte(s, 41) >= 0
    &&& crate::bytes::find_byte(s, 40) < rfind_byte(s, 41)
}

/// The command name of a well-formed stat text.
pub open spec fn stat_name(s: Seq<u8>) -> Seq<u8> {
    s.subrange(crate::bytes::find_byte(s, 40) + 1, rfind_byte(s, 41))
}

/// The fields after the command name.
pub open spec fn stat_fields(s: Seq<u8>) -> Seq<Seq<u8>> {
    let after = rfind_byte(s, 41) + 2;
    if after >= s.len() {
        Seq::empty()
    } else {
        ws_tokens(s.skip(after))
    }
}

/// Field `j` of the stat tail parsed as a counter, zero when missing.
pub open spec fn stat_field_u64(s: Seq<u8>, j: int) -> u64 {
    if stat_fields(s).len() > j {
        parse_u64_spec(stat_fields(s)[j])
    } else {
        0u64
    }
}

/// The scheduler state letter of the stat text.
pub open spec fn stat_state(s: Seq<u8>) -> ProcessState {
    if stat_fields(s).len() > 0 {
        state_of_byte(stat_fields(s)[0][0])
    } else {
        ProcessState::Unknown
    }
}

/// The five memory-breakdown figures of a status read, in bytes.
pub open spec fn status_fields_spec(ls: Seq<Seq<u8>>) -> (u64, u64, u64, u64, u64)
    decreases ls.len(),
{
    if ls.len() == 0 {
        (0u64, 0u64, 0u64, 0u64, 0u64)
    } else {
        let rest = status_fields_spec(ls.drop_last());
        let l = ls.last();
        let v = mul_sat_spec(tok_u64(l, 1), 1024);
        if keyed_line(l, ascii_bytes("VmPeak:"@)) {
            (v, rest.1, rest.2, rest.3, rest.4)
        } else if keyed_line(l, ascii_bytes("RssAnon:"@)) {
            (rest.0, v, rest.2, rest.3, rest.4)
        } else if keyed_line(l, ascii_bytes("RssFile:"@)) {
            (rest.0, rest.1, v, rest.3, rest.4)
        } else if keyed_line(l, ascii_bytes("RssShmem:"@)) {
            (rest.0, rest.1, rest.2, v, rest.4)
        } else if keyed_line(l, ascii_bytes("VmSwap:"@)) {
            (rest.0, rest.1, rest.2, rest.3, v)
        } else {
            rest
        }
    }
}

/// Parses the memory breakdown from the status text: peak virtual size,
/// anonymous, file-backed and shared resident memory, and swapped memory.
pub fn read_process_status(status: &[u8]) -> (r: (u64, u64, u64, u64, u64))
    ensures
        r == status_fields_spec(lines_of(status@)),
{
    let ghost ls = lines_of(status@);
    let lines = split_lines(status);
    proof {
        reveal_strlit("VmPeak:");
        reveal_strlit("RssAnon:");
        reveal_strlit("RssFile:");
        reveal_strlit("RssShmem:");
        reveal_strlit("VmSwap:");
    }
    let k_peak = str_bytes("VmPeak:");
    let k_anon = str_bytes("RssAnon:");
    let k_file = str_bytes("RssFile:");
    let k_shmem = str_bytes("RssShmem:");
    let k_swap = str_bytes("VmSwap:");
    let mut vm_peak: u64 = 0;
    let mut rss_anon: u64 = 0;
    let mut rss_file: u64 = 0;
    let mut rss_shmem: u64 = 0;
    let mut vm_swap: u64 = 0;
    let mut i: usize = 0;
    proof {
        assert(ls.take(0) =~= Seq::<Seq<u8>>::empty());
    }
    while i < lines.len()
        invariant
            i <= lines@.len(),
            lines@.map_values(|f: Vec<u8>| f@) == ls,
            k_peak@ == ascii_bytes("VmPeak:"@),
            k_anon@ == ascii_bytes("RssAnon:"@),
            k_file@ == ascii_bytes("RssFile:"@),
            k_shmem@ == ascii_bytes("RssShmem:"@),
            k_swap@ == ascii_bytes("VmSwap:"@),
            (vm_peak, rss_anon, rss_file, rss_shmem, vm_swap) == status_fields_spec(
                ls.take(i as int),
            ),
        decreases lines@.len() - i,
    {
        let line = &lines[i];
        proof {
            assert(line@ == ls[i as int]);
            assert(ls.take(i + 1 as int).drop_last() =~= ls.take(i as int));
            assert(ls.take(i + 1 as int).last() == ls[i as int]);
        }
        let toks = split_ws(line.as_slice());
        if toks.len() >= 2 {
            proof {
                assert(toks@.map_values(|f: Vec<u8>| f@)[0] == toks@[0]@);
                assert(toks@.map_values(|f: Vec<u8>| f@)[1] == toks@[1]@);
            }
            let v = mul_sat(crate::numfmt::parse_u64(toks[1].as_slice()), 1024);
            let is_peak = bytes_eq(toks[0].as_slice(), k_peak.as_slice());
            let is_anon = bytes_eq(toks[0].as_slice(), k_anon.as_slice());
            let is_file = bytes_eq(toks[0].as_slice(), k_file.as_slice());
            let is_shmem = bytes_eq(toks[0].as_slice(), k_shmem.as_slice());
            let is_swap = bytes_eq(toks[0].as_slice(), k_swap.as_slice());
            if is_peak {
                vm_peak = v;
            } else if is_anon {
                rss_anon = v;
            } else if is_file {
                rss_file = v;
            } else if is_shmem {
                rss_shmem = v;
            } else if is_swap {
                vm_swap = v;
            }
        }
        i += 1;
    }
    proof {
        assert(ls.take(ls.len() as int) =~= ls);
    }
    (vm_peak, rss_anon, rss_file, rss_shmem, vm_swap)
}

/// The five I/O-accounting counters of an io read.
pub open spec fn io_fields_spec(ls: Seq<Seq<u8>>) -> (u64, u64, u64, u64, u64)
    decreases ls.len(),
{
    if ls.len() == 0 {
        (0u64, 0u64, 0u64, 0u64, 0u64)
    } else {
        let rest = io_fields_spec(ls.drop_last());
        let l = ls.last();
        let v = tok_u64(l, 1);
        if keyed_line(l, ascii_bytes("read_bytes:"@)) {
            (v, rest.1, rest.2, rest.3, rest.4)
        } else if keyed_line(l, ascii_bytes("write_bytes:"@)) {
            (rest.0, v, rest.2, rest.3, rest.4)
        } else if keyed_line(l, ascii_bytes("rchar:"@)) {
            (rest.0, rest.1, v, rest.3, rest.4)
        } else if keyed_line(l, ascii_bytes("wchar:"@)) {
            (rest.0, rest.1, rest.2, v, rest.4)
        } else if keyed_line(l, ascii_bytes("cancelled_write_bytes:"@)) {
            (rest.0, rest.1, rest.2, rest.3, v)
        } else {
            rest
        }
    }
}

/// Parses the I/O-accounting counters: storage bytes read and written,
/// logical bytes read and written, and cancelled write bytes.
pub fn read_process_io(io: &[u8]) -> (r: (u64, u64, u64, u64, u64))
    ensures
        r == io_fields_spec(lines_of(io@)),
{
    let ghost ls = lines_of(io@);
    let lines = split_lines(io);
    proof {
        reveal_strlit("read_bytes:");
        reveal_strlit("write_bytes:");
        reveal_strlit("rchar:");
        reveal_strlit("wchar:");
        reveal_strlit("cancelled_write_bytes:");
    }
    let k_read = str_bytes("read_bytes:");
    let k_write = str_bytes("write_bytes:");
    let k_rchar = str_bytes("rchar:");
    let k_wchar = str_bytes("wchar:");
    let k_cancel = str_bytes("cancelled_write_bytes:");
    let mut read_bytes: u64 = 0;
    let mut write_bytes: u64 = 0;
    let mut rchar: u64 = 0;
    let mut wchar: u64 = 0;
    let mut cancelled: u64 = 0;
    let mut i: usize = 0;
    proof {
        assert(ls.take(0) =~= Seq::<Seq<u8>>::empty());
    }
    while i < lines.len()
        invariant
            i <= lines@.len(),
            lines@.map_values(|f: Vec<u8>| f@) == ls,
            k_read@ == ascii_bytes("read_bytes:"@),
            k_write@ == ascii_bytes("write_bytes:"@),
            k_rchar@ == ascii_bytes("rchar:"@),
            k_wchar@ == ascii_bytes("wchar:"@),
            k_cancel@ == ascii_bytes("cancelled_write_bytes:"@),
            (read_bytes, write_bytes, rchar, wchar, cancelled) == io_fields_spec(ls.take(i as int)),
        decreases lines@.len() - i,
    {
        let line = &lines[i];
        proof {
            assert(line@ == ls[i as int]);
            assert(ls.take(i + 1 as int).drop_last() =~= ls.take(i as int));
            assert(ls.take(i + 1 as int).last() == ls[i as int]);
        }
        let toks = split_ws(line.as_slice());
        if toks.len() >= 2 {
            proof {
                assert(toks@.map_values(|f: Vec<u8>| f@)[0] == toks@[0]@);
                assert(toks@.map_values(|f: Vec<u8>| f@)[1] == toks@[1]@);
            }
            let v = crate::numfmt::parse_u64(toks[1].as_slice());
            let is_read = bytes_eq(toks[0].as_slice(), k_read.as_slice());
            let is_write = bytes_eq(toks[0].as_slice(), k_write.as_slice());
            let is_rchar = bytes_eq(toks[0].as_slice(), k_rchar.as_slice());
            let is_wchar = bytes_eq(toks[0].as_slice(), k_wchar.as_slice());
            let is_cancel = bytes_eq(toks[0].as_slice(), k_cancel.as_slice());
            if is_read {
                read_bytes = v;
            } else if is_write {
                write_bytes = v;
            } else if is_rchar {
                rchar = v;
            } else if is_wchar {
                wchar = v;
            } else if is_cancel {
                cancelled = v;
            }
        }
        i += 1;
    }
    proof {
        assert(ls.take(ls.len() as int) =~= ls);
    }
    (read_bytes, write_bytes, rchar, wchar, cancelled)
}

/// The command line with its NUL separators as spaces, trimmed.
pub open spec fn cmdline_spec(s: Seq<u8>) -> Seq<u8> {
    trim_spec(s.map_values(|b: u8| if b == 0 { 32u8 } else { b }))
}

/// Normalizes a raw command line.
pub fn clean_cmdline(s: &[u8]) -> (r: Vec<u8>)
    ensures
        r@ == cmdline_spec(s@),
{
    let mut spaced: Vec<u8> = Vec::new();
    let mut i: usize = 0;
    while i < s.len()
        invariant
            i <= s@.len(),
            spaced@ =~= s@.take(i as int).map_values(|b: u8| if b == 0 { 32u8 } else { b }),
        decreases s@.len() - i,
    {
        let b = s[i];
        if b == 0 {
            spaced.push(32);
        } else {
            spaced.push(b);
        }
        proof {
            assert(s@.take(i + 1 as int).map_values(|b: u8| if b == 0 { 32u8 } else { b }) =~= s@
                .take(i as int).map_values(|b: u8| if b == 0 { 32u8 } else { b }).push(
                if s@[i as int] == 0 { 32u8 } else { s@[i as int] },
            ));
        }
        i += 1;
    }
    proof {
        assert(s@.take(s@.len() as int) =~= s@);
    }
    trim(spaced.as_slice())
}

/// The CPU share of a process over one interval, in hundredths of a
/// percent: tick delta over elapsed wall time through the clock-tick rate.
pub open spec fn proc_cpu_centi(tick_delta: u64, ticks_per_sec: u64, elapsed_ms: u64) -> u64 {
    if ticks_per_sec == 0 || elapsed_ms == 0 {
        0u64
    } else if tick_delta * 10000000 / (ticks_per_sec * elapsed_ms) > u64::MAX {
        u64::MAX
    } else {
        (tick_delta * 10000000 / (ticks_per_sec * elapsed_ms)) as u64
    }
}

/// Computes the interval CPU share.
pub fn cpu_share_centi(tick_delta: u64, ticks_per_sec: u64, elapsed_ms: u64) -> (r: u64)
    ensures
        r == proc_cpu_centi(tick_delta, ticks_per_sec, elapsed_ms),
{
    if ticks_per_sec == 0 || elapsed_ms == 0 {
        return 0;
    }
    proof {
        assert((ticks_per_sec as u128) * (elapsed_ms as u128) <= u128::MAX && (ticks_per_sec
            as u128) * (elapsed_ms as u128) > 0) by (nonlinear_arith)
            requires
                0 < ticks_per_sec <= u64::MAX,
                0 < elapsed_ms <= u64::MAX,
        {}
        assert((tick_delta as u128) * 10000000u128 <= u128::MAX) by (nonlinear_arith)
            requires
                tick_delta <= u64::MAX,
        {}
    }
    let den: u128 = (ticks_per_sec as u128) * (elapsed_ms as u128);
    let q: u128 = (tick_delta as u128) * 10000000u128 / den;
    if q > u64::MAX as u128 {
        u64::MAX
    } else {
        q as u64
    }
}

/// Process metrics collector: bound to one process id, owning the tick and
/// I/O counters of the previous sample.
pub struct ProcessCollector {
    /// The bound process id.
    pub pid: u32,
    /// User-mode ticks at the previous sample.
    pub prev_utime: Option<u64>,
    /// Kernel-mode ticks at the previous sample.
    pub prev_stime: Option<u64>,
    /// Storage bytes read at the previous sample.
    pub prev_io_read_bytes: Option<u64>,
    /// Storage bytes written at the previous sample.
    pub prev_io_write_bytes: Option<u64>,
    /// Wall-clock milliseconds of the previous sample.
    pub prev_time_ms: u64,
    /// The platform's scheduler ticks per second.
    pub clock_ticks_per_sec: u64,
}

impl ProcessCollector {
    /// Binds a collector to a process.  The clock-tick rate is the
    /// platform figure the caller queried.
    pub fn new(pid: u32, clock_ticks_per_sec: u64) -> (r: ProcessCollector)
        ensures
            r.pid == pid,
            r.prev_utime is None,
            r.prev_stime is None,
            r.prev_io_read_bytes is None,
            r.prev_io_write_bytes is None,
            r.prev_time_ms == 0,
            r.clock_ticks_per_sec == clock_ticks_per_sec,
    {
        ProcessCollector {
            pid,
            prev_utime: None,
            prev_stime: None,
            prev_io_read_bytes: None,
            prev_io_write_bytes: None,
            prev_time_ms: 0,
            clock_ticks_per_sec,
        }
    }

    /// Turns one read of the process's stat, status, io and cmdline texts
    /// into process metrics, advancing the prior-sample state.
    ///
    /// Fails exactly when the stat text lacks its parenthesized command
    /// name; the caller treats that as the process being gone, not as a
    /// fatal error.  The first successful collection reports zero rates.
    pub fn collect(
        &mut self,
        stat: &[u8],
        status: &[u8],
        io: &[u8],
        cmdline: &[u8],
        num_fds: u64,
        page_size: u64,
        now_ms: u64,
    ) -> (r: Result<ProcessMetrics, CollectError>)
        ensures
            stat_wf(stat@) <==> r is Ok,
            !stat_wf(stat@) ==> *final(self) == *old(self),
            r matches Ok(m) ==> ({
                let elapsed = counter_delta(now_ms, old(self).prev_time_ms);
                let utime = stat_field_u64(stat@, 11);
                let stime = stat_field_u64(stat@, 12);
                let mem = status_fields_spec(lines_of(status@));
                let ioc = io_fields_spec(lines_of(io@));
                &&& m.pid == old(self).pid
                &&& m.name@ == stat_name(stat@)
                &&& m.state == stat_state(stat@)
                &&& m.utime == utime
                &&& m.stime == stime
                &&& m.num_threads == stat_field_u64(stat@, 17)
                &&& m.vsize_bytes == stat_field_u64(stat@, 20)
                &&& m.rss_bytes == mul_sat_spec(stat_field_u64(stat@, 21), page_size)
                &&& m.cpu_percent == (match (old(self).prev_utime, old(self).prev_stime) {
                    (Some(pu), Some(ps)) => proc_cpu_centi(
                        counter_delta(
                            crate::cpu::clamp64(utime + stime),
                            crate::cpu::clamp64(pu + ps),
                        ),
                        old(self).clock_ticks_per_sec,
                        elapsed,
                    ),
                    _ => 0u64,
                })
                &&& m.num_fds == num_fds
                &&& m.cmdline@ == cmdline_spec(cmdline@)
                &&& (m.vm_peak, m.rss_anon, m.rss_file, m.rss_shmem, m.vm_swap) == mem
                &&& (m.io_read_bytes, m.io_write_bytes, m.io_rchar, m.io_wchar,
                    m.io_cancelled_write_bytes) == ioc
                &&& m.io_read_bytes_per_sec == (match old(self).prev_io_read_bytes {
                    Some(p) => rate_centi_spec(counter_delta(ioc.0, p), elapsed),
                    None => 0u64,
                })
                &&& m.io_write_bytes_per_sec == (match old(self).prev_io_write_bytes {
                    Some(p) => rate_centi_spec(counter_delta(ioc.1, p), elapsed),
                    None => 0u64,
                })
                &&& final(self).pid == old(self).pid
                &&& final(self).prev_utime == Some(utime)
                &&& final(self).prev_stime == Some(stime)
                &&& final(self).prev_io_read_bytes == Some(ioc.0)
                &&& final(self).prev_io_write_bytes == Some(ioc.1)
                &&& final(self).prev_time_ms == now_ms
                &&& final(self).clock_ticks_per_sec == old(self).clock_ticks_per_sec
            }),
    {
        let comm_start = crate::bytes::find_byte_from(stat, 40, 0);
        proof {
            assert(stat@.skip(0) =~= stat@);
            crate::bytes::lemma_find_byte(stat@, 40);
        }
        let comm_end = match rfind_byte_exec(stat, 41) {
            Some(e) => e,
            None => {
                return Err(CollectError::MalformedStat);
            },
        };
        if comm_start >= comm_end {
            return Err(CollectError::MalformedStat);
        }
        proof {
            lemma_rfind_byte(stat@, 41);
        }
        let name = subrange_vec(stat, comm_start + 1, comm_end);
        proof {
            assert(name@ == stat_name(stat@));
        }

        let fields: Vec<Vec<u8>> = if stat.len() - comm_end > 2 {
            let tail = subrange_vec(stat, comm_end + 2, stat.len());
            proof {
                assert(tail@ =~= stat@.skip(comm_end + 2));
            }
            let toks = split_ws(tail.as_slice());
            proof {
                assert(toks@.map_values(|f: Vec<u8>| f@) == stat_fields(stat@));
            }
            toks
        } else {
            let toks: Vec<Vec<u8>> = Vec::new();
            proof {
                assert(toks@.map_values(|f: Vec<u8>| f@) =~= stat_fields(stat@));
            }
            toks
        };
        proof {
            assert(fields@.map_values(|f: Vec<u8>| f@) == stat_fields(stat@));
        }
        let ghost gf = stat_fields(stat@);

        let state = if fields.len() > 0 {
            proof {
                assert(fields@.map_values(|f: Vec<u8>| f@)[0] == fields@[0]@);
                crate::bytes::lemma_run_len(stat@.skip(rfind_byte(stat@, 41) + 2));
                lemma_tokens_nonempty(stat@.skip(rfind_byte(stat@, 41) + 2), 0);
            }
            let f0 = &fields[0];
            let b = f0[0];
            if b == 82 {
                ProcessState::Running
            } else if b == 83 {
                ProcessState::Sleeping
            } else if b == 68 {
                ProcessState::DiskSleep
            } else if b == 84 {
                ProcessState::Stopped
            } else if b == 90 {
                ProcessState::Zombie
            } else if b == 88 {
                ProcessState::Dead
            } else {
                ProcessState::Unknown
            }
        } else {
            ProcessState::Unknown
        };

        let utime = stat_tok(&fields, 11, Ghost(gf));
        let stime = stat_tok(&fields, 12, Ghost(gf));
        let num_threads = stat_tok(&fields, 17, Ghost(gf));
        let vsize_bytes = stat_tok(&fields, 20, Ghost(gf));
        let rss_pages = stat_tok(&fields, 21, Ghost(gf));
        let rss_bytes = mul_sat(rss_pages, page_size);

        let elapsed = delta_u64(now_ms, self.prev_time_ms);
        let cpu_percent = match (self.prev_utime, self.prev_stime) {
            (Some(pu), Some(ps)) => {
                let cur_sum = utime.saturating_add(stime);
                let prev_sum = pu.saturating_add(ps);
                cpu_share_centi(delta_u64(cur_sum, prev_sum), self.clock_ticks_per_sec, elapsed)
            },
            _ => 0,
        };

        let cmdline_clean = clean_cmdline(cmdline);
        let (vm_peak, rss_anon, rss_file, rss_shmem, vm_swap) = read_process_status(status);
        let (io_read_bytes, io_write_bytes, io_rchar, io_wchar, io_cancelled) = read_process_io(io);

        let io_read_rate = match self.prev_io_read_bytes {
            Some(p) => rate_centi(delta_u64(io_read_bytes, p), elapsed),
            None => 0,
        };
        let io_write_rate = match self.prev_io_write_bytes {
            Some(p) => rate_centi(delta_u64(io_write_bytes, p), elapsed),
            None => 0,
        };

        self.prev_utime = Some(utime);
        self.prev_stime = Some(stime);
        self.prev_io_read_bytes = Some(io_read_bytes);
        self.prev_io_write_bytes = Some(io_write_bytes);
        self.prev_time_ms = now_ms;

        Ok(
            ProcessMetrics {
                pid: self.pid,
                name,
                state,
                rss_bytes,
                vsize_bytes,
                vm_peak,
                rss_anon,
                rss_file,
                rss_shmem,
                vm_swap,
                cpu_percent,
                utime,
                stime,
                num_threads,
                num_fds,
                cmdline: cmdline_clean,
                io_read_bytes,
                io_write_bytes,
                io_rchar,
                io_wchar,
                io_cancelled_write_bytes: io_cancelled,
                io_read_bytes_per_sec: io_read_rate,
                io_write_bytes_per_sec: io_write_rate,
            },
        )
    }
}

/// Field `j` of the parsed stat tail, zero when missing.
fn stat_tok(fields: &Vec<Vec<u8>>, j: usize, Ghost(gf): Ghost<Seq<Seq<u8>>>) -> (r: u64)
    requires
        fields@.map_values(|f: Vec<u8>| f@) == gf,
    ensures
        r == (if gf.len() > j {
            parse_u64_spec(gf[j as int])
        } else {
            0u64
        }),
{
    if fields.len() > j {
        proof {
            assert(fields@.map_values(|f: Vec<u8>| f@)[j as int] == fields@[j as int]@);
        }
        crate::numfmt::parse_u64(fields[j].as_slice())
    } else {
        0
    }
}

/// One row of the process table, as the caller read it: the id, the short
/// command name, and the raw command line.
#[derive(Clone, Debug)]
pub struct ProcCandidate {
    pub pid: u32,
    pub comm: Vec<u8>,
    pub cmdline: Vec<u8>,
}

/// ASCII lower-casing of a byte string.
pub open spec fn lower_seq(s: Seq<u8>) -> Seq<u8> {
    s.map_values(|b: u8| lower_byte(b))
}

/// The candidate's short name, trimmed and lower-cased.
pub open spec fn comm_key(c: ProcCandidate) -> Seq<u8> {
    lower_seq(trim_spec(c.comm@))
}

/// The candidate's command line with NUL separators as spaces.
pub open spec fn cmd_clean(c: ProcCandidate) -> Seq<u8> {
    c.cmdline@.map_values(|b: u8| if b == 0 { 32u8 } else { b })
}

/// The candidate's command line, cleaned and lower-cased.
pub open spec fn cmd_key(c: ProcCandidate) -> Seq<u8> {
    lower_seq(cmd_clean(c))
}

/// The first argument of the command line (the executable or script), or
/// nothing.
pub open spec fn first_arg(c: ProcCandidate) -> Seq<u8> {
    if ws_tokens(cmd_clean(c)).len() > 0 {
        ws_tokens(cmd_clean(c))[0]
    } else {
        Seq::empty()
    }
}

/// A bare shell.
pub open spec fn is_shell_name(comm: Seq<u8>) -> bool {
    comm == ascii_bytes("bash"@) || comm == ascii_bytes("zsh"@) || comm == ascii_bytes("sh"@)
}

/// The pattern itself names a shell.
pub open spec fn pattern_names_shell(pl: Seq<u8>) -> bool {
    contains_seq(pl, ascii_bytes("bash"@)) || contains_seq(pl, ascii_bytes("zsh"@)) || contains_seq(
        pl,
        ascii_bytes("sh"@),
    )
}

/// A candidate the scan never binds: the monitor itself, another instance
/// of this tool, or a bare shell when the pattern does not ask for one.
pub open spec fn cand_skip(pl: Seq<u8>, my_pid: u32, c: ProcCandidate) -> bool {
    ||| c.pid == my_pid
    ||| contains_seq(cmd_key(c), ascii_bytes("perf-monitor"@))
    ||| (is_shell_name(comm_key(c)) && !pattern_names_shell(pl))
}

/// An exact short-name match, the highest priority: the scan stops at the
/// first one.
pub open spec fn cand_exact(pl: Seq<u8>, my_pid: u32, c: ProcCandidate) -> bool {
    !cand_skip(pl, my_pid, c) && comm_key(c) == pl
}

/// The score of a non-exact candidate whose command line contains the
/// pattern; candidates without the pattern score nothing.
pub open spec fn cand_score(pl: Seq<u8>, my_pid: u32, c: ProcCandidate) -> Option<int> {
    if cand_skip(pl, my_pid, c) || !contains_seq(cmd_key(c), pl) {
        None
    } else {
        Some(
            (if contains_seq(lower_seq(first_arg(c)), pl) {
                100int
            } else {
                0int
            }) + (if has_suffix(pl, ascii_bytes(".py"@)) && (comm_key(c) == ascii_bytes("python"@)
                || has_prefix(comm_key(c), ascii_bytes("python"@))) {
                50int
            } else {
                0int
            }) + (if !contains_seq(lower_seq(first_arg(c)), ascii_bytes("bash"@)) && !contains_seq(
                lower_seq(first_arg(c)),
                ascii_bytes("/sh"@),
            ) {
                10int
            } else {
                0int
            }),
        )
    }
}

/// The first exact match at or after position `i`.
pub open spec fn first_exact_from(pl: Seq<u8>, my_pid: u32, cs: Seq<ProcCandidate>, i: int) -> Option<
    u32,
>
    decreases cs.len() - i when 0 <= i
{
    if i < 0 || i >= cs.len() {
        None
    } else if cand_exact(pl, my_pid, cs[i]) {
        Some(cs[i].pid)
    } else {
        first_exact_from(pl, my_pid, cs, i + 1)
    }
}

/// Folds one candidate into the best scored so far: a higher score wins,
/// and on an equal score the higher (younger) id wins.
pub open spec fn best_step(pl: Seq<u8>, my_pid: u32, cur: Option<(u32, int)>, c: ProcCandidate) -> Option<
    (u32, int),
> {
    match cand_score(pl, my_pid, c) {
        None => cur,
        Some(s) => match cur {
            None => Some((c.pid, s)),
            Some(b) => if s > b.1 || (s == b.1 && c.pid >= b.0) {
                Some((c.pid, s))
            } else {
                Some(b)
            },
        },
    }
}

/// The best scored candidate among the first `i`.
pub open spec fn best_upto(pl: Seq<u8>, my_pid: u32, cs: Seq<ProcCandidate>, i: int) -> Option<
    (u32, int),
>
    decreases i,
{
    if i <= 0 {
        None
    } else {
        best_step(pl, my_pid, best_upto(pl, my_pid, cs, i - 1), cs[i - 1])
    }
}

/// What the scan binds: the first exact short-name match, else the best
/// scored command-line match, else nothing.
pub open spec fn select_spec(pattern: Seq<u8>, my_pid: u32, cs: Seq<ProcCandidate>) -> Option<u32> {
    let pl = lower_seq(pattern);
    match first_exact_from(pl, my_pid, cs, 0) {
        Some(p) => Some(p),
        None => match best_upto(pl, my_pid, cs, cs.len() as int) {
            Some(b) => Some(b.0),
            None => None,
        },
    }
}

/// Picks the process a name pattern binds to, given the process table the
/// caller scanned, in its order.  The monitor's own id and other instances
/// of this tool are never picked; bare shells only when the pattern names
/// one; an exact short-name match ends the scan at once; otherwise the
/// best-scored command-line match wins, youngest id first on ties.
pub fn find_process_by_name(pattern: &[u8], my_pid: u32, cands: &Vec<ProcCandidate>) -> (r: Option<
    u32,
>)
    ensures
        r == select_spec(pattern@, my_pid, cands@),
{
    proof {
        reveal_strlit("perf-monitor");
        reveal_strlit("bash");
        reveal_strlit("zsh");
        reveal_strlit("sh");
        reveal_strlit(".py");
        reveal_strlit("python");
        reveal_strlit("/sh");
    }
    let w_monitor = str_bytes("perf-monitor");
    let w_bash = str_bytes("bash");
    let w_zsh = str_bytes("zsh");
    let w_sh = str_bytes("sh");
    let w_py = str_bytes(".py");
    let w_python = str_bytes("python");
    let w_slash_sh = str_bytes("/sh");
    let pl = to_lower(pattern);
    let ghost gpl = lower_seq(pattern@);
    let pattern_shell = contains_sub(pl.as_slice(), w_bash.as_slice()) || contains_sub(
        pl.as_slice(),
        w_zsh.as_slice(),
    ) || contains_sub(pl.as_slice(), w_sh.as_slice());
    let pattern_py = crate::bytes::ends_with(pl.as_slice(), w_py.as_slice());

    let mut best: Option<(u32, u32)> = None;
    let ghost mut gbest: Option<(u32, int)> = None;
    let mut i: usize = 0;
    while i < cands.len()
        invariant
            i <= cands@.len(),
            gpl == lower_seq(pattern@),
            pl@ == gpl,
            w_monitor@ == ascii_bytes("perf-monitor"@),
            w_bash@ == ascii_bytes("bash"@),
            w_zsh@ == ascii_bytes("zsh"@),
            w_sh@ == ascii_bytes("sh"@),
            w_py@ == ascii_bytes(".py"@),
            w_python@ == ascii_bytes("python"@),
            w_slash_sh@ == ascii_bytes("/sh"@),
            pattern_shell == pattern_names_shell(gpl),
            pattern_py == has_suffix(gpl, ascii_bytes(".py"@)),
            first_exact_from(gpl, my_pid, cands@, 0) == first_exact_from(
                gpl,
                my_pid,
                cands@,
                i as int,
            ),
            gbest == best_upto(gpl, my_pid, cands@, i as int),
            (match gbest {
                Some(b) => best matches Some(e) && e.0 == b.0 && e.1 as int == b.1,
                None => best is None,
            }),
        decreases cands@.len() - i,
    {
        let c = &cands[i];
        let ghost gc = cands@[i as int];
        if c.pid != my_pid {
            let comm_trim = trim(c.comm.as_slice());
            let comm_low = to_lower(comm_trim.as_slice());
            let cmd_cleaned = clean_nul(c.cmdline.as_slice());
            let cmd_low = to_lower(cmd_cleaned.as_slice());
            proof {
                assert(comm_low@ == comm_key(gc));
                assert(cmd_low@ == cmd_key(gc));
            }
            if !contains_sub(cmd_low.as_slice(), w_monitor.as_slice()) {
                let comm_is_shell = bytes_eq(comm_low.as_slice(), w_bash.as_slice()) || bytes_eq(
                    comm_low.as_slice(),
                    w_zsh.as_slice(),
                ) || bytes_eq(comm_low.as_slice(), w_sh.as_slice());
                if !(comm_is_shell && !pattern_shell) {
                    proof {
                        assert(!cand_skip(gpl, my_pid, gc));
                    }
                    if bytes_eq(comm_low.as_slice(), pl.as_slice()) {
                        proof {
                            assert(cand_exact(gpl, my_pid, gc));
                            lemma_first_exact_here(gpl, my_pid, cands@, i as int);
                        }
                        return Some(c.pid);
                    }
                    if contains_sub(cmd_low.as_slice(), pl.as_slice()) {
                        let toks = split_ws(cmd_cleaned.as_slice());
                        let mut score: u32 = 0;
                        let first_low: Vec<u8> = if toks.len() > 0 {
                            proof {
                                assert(toks@.map_values(|f: Vec<u8>| f@)[0] == toks@[0]@);
                            }
                            to_lower(toks[0].as_slice())
                        } else {
                            let e: Vec<u8> = Vec::new();
                            proof {
                                assert(e@ =~= lower_seq(first_arg(gc)));
                            }
                            e
                        };
                        proof {
                            assert(first_low@ == lower_seq(first_arg(gc)));
                        }
                        if contains_sub(first_low.as_slice(), pl.as_slice()) {
                            score += 100;
                        }
                        if pattern_py && (bytes_eq(comm_low.as_slice(), w_python.as_slice())
                            || starts_with(comm_low.as_slice(), w_python.as_slice())) {
                            score += 50;
                        }
                        if !contains_sub(first_low.as_slice(), w_bash.as_slice()) && !contains_sub(
                            first_low.as_slice(),
                            w_slash_sh.as_slice(),
                        ) {
                            score += 10;
                        }
                        proof {
                            assert(cand_score(gpl, my_pid, gc) == Some(score as int));
                        }
                        let new_best = match best {
                            None => Some((c.pid, score)),
                            Some(b) => if score > b.1 || (score == b.1 && c.pid >= b.0) {
                                Some((c.pid, score))
                            } else {
                                Some(b)
                            },
                        };
                        best = new_best;
                        proof {
                            gbest = best_step(gpl, my_pid, gbest, gc);
                        }
                    } else {
                        proof {
                            assert(cand_score(gpl, my_pid, gc) is None);
                            gbest = best_step(gpl, my_pid, gbest, gc);
                        }
                    }
                } else {
                    proof {
                        assert(cand_skip(gpl, my_pid, gc));
                        gbest = best_step(gpl, my_pid, gbest, gc);
                    }
                }
            } else {
                proof {
                    assert(cand_skip(gpl, my_pid, gc));
                    gbest = best_step(gpl, my_pid, gbest, gc);
                }
            }
        } else {
            proof {
                assert(cand_skip(gpl, my_pid, gc));
                gbest = best_step(gpl, my_pid, gbest, gc);
            }
        }
        i += 1;
    }
    match best {
        Some(b) => Some(b.0),
        None => None,
    }
}

/// An exact match at `i`, none before: the scan's answer.
proof fn lemma_first_exact_here(pl: Seq<u8>, my_pid: u32, cs: Seq<ProcCandidate>, i: int)
    requires
        0 <= i < cs.len(),
        cand_exact(pl, my_pid, cs[i]),
        first_exact_from(pl, my_pid, cs, 0) == first_exact_from(pl, my_pid, cs, i),
    ensures
        first_exact_from(pl, my_pid, cs, 0) == Some(cs[i].pid),
{
}

/// Replaces NUL separators with spaces, without trimming.
fn clean_nul(s: &[u8]) -> (r: Vec<u8>)
    ensures
        r@ == s@.map_values(|b: u8| if b == 0 { 32u8 } else { b }),
{
    let mut out: Vec<u8> = Vec::new();
    let mut i: usize = 0;
    while i < s.len()
        invariant
            i <= s@.len(),
            out@ =~= s@.take(i as int).map_values(|b: u8| if b == 0 { 32u8 } else { b }),
        decreases s@.len() - i,
    {
        let b = s[i];
        if b == 0 {
            out.push(32);
        } else {
            out.push(b);
        }
        proof {
            assert(s@.take(i + 1 as int).map_values(|b: u8| if b == 0 { 32u8 } else { b }) =~= s@
                .take(i as int).map_values(|b: u8| if b == 0 { 32u8 } else { b }).push(
                if s@[i as int] == 0 { 32u8 } else { s@[i as int] },
            ));
        }
        i += 1;
    }
    proof {
        assert(s@.take(s@.len() as int) =~= s@);
    }
    out
}

/// Whether a candidate's short name or command line contains the pattern.
pub open spec fn cand_listed(pl: Seq<u8>, c: ProcCandidate) -> bool {
    contains_seq(lower_seq(trim_spec(c.comm@)), pl) || contains_seq(lower_seq(c.cmdline@), pl)
}

/// The ids matching a pattern, in table order.
pub open spec fn matching_pids(pl: Seq<u8>, cs: Seq<ProcCandidate>) -> Seq<u32>
    decreases cs.len(),
{
    if cs.len() == 0 {
        Seq::empty()
    } else if cand_listed(pl, cs.last()) {
        matching_pids(pl, cs.drop_last()).push(cs.last().pid)
    } else {
        matching_pids(pl, cs.drop_last())
    }
}

/// Lists every process whose short name or command line contains the
/// pattern, in the order the caller's table gives them.
pub fn find_processes_by_pattern(pattern: &[u8], cands: &Vec<ProcCandidate>) -> (r: Vec<u32>)
    ensures
        r@ == matching_pids(lower_seq(pattern@), cands@),
{
    let pl = to_lower(pattern);
    let ghost gpl = lower_seq(pattern@);
    let mut pids: Vec<u32> = Vec::new();
    let mut i: usize = 0;
    proof {
        assert(cands@.take(0) =~= Seq::<ProcCandidate>::empty());
    }
    while i < cands.len()
        invariant
            i <= cands@.len(),
            gpl == lower_seq(pattern@),
            pl@ == gpl,
            pids@ == matching_pids(gpl, cands@.take(i as int)),
        decreases cands@.len() - i,
    {
        let c = &cands[i];
        let ghost gc = cands@[i as int];
        proof {
            assert(cands@.take(i + 1 as int).drop_last() =~= cands@.take(i as int));
            assert(cands@.take(i + 1 as int).last() == gc);
        }
        let comm_trim = trim(c.comm.as_slice());
        let comm_low = to_lower(comm_trim.as_slice());
        let cmd_low = to_lower(c.cmdline.as_slice());
        if contains_sub(comm_low.as_slice(), pl.as_slice()) || contains_sub(
            cmd_low.as_slice(),
            pl.as_slice(),
        ) {
            pids.push(c.pid);
        }
        i += 1;
    }
    proof {
        assert(cands@.take(cands@.len() as int) =~= cands@);
    }
    pids
}

/// Every whitespace token is non-empty.
proof fn lemma_tokens_nonempty(s: Seq<u8>, i: int)
    requires
        0 <= i < ws_tokens(s).len(),
    ensures
        ws_tokens(s)[i].len() > 0,
    decreases s.len(),
{
    crate::bytes::lemma_run_len(s);
    if s.len() == 0 {
    } else if crate::bytes::is_ws_byte(s[0]) {
        lemma_tokens_nonempty(s.drop_first(), i);
    } else {
        if i > 0 {
            lemma_tokens_nonempty(s.skip(crate::bytes::run_len(s)), i - 1);
        }
    }
}

} // verus!
