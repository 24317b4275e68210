//! The human-readable summary sink: a header block that explains the
//! columns, then one fixed-width line per sample, meant to be tailed live.

use vstd::prelude::*;
use vstd::string::StrSliceExecFns;
use vstd::string::StringSliceAdditionalSpecFns;
use crate::bytes::{ascii_bytes, str_bytes};
use crate::display::{format_bytes_short_spec, format_bytes_short_vec, format_throughput_spec, format_throughput_vec};
use crate::logfmt::{MetricsSample, text_bytes};
use crate::numfmt::{dec_digits, fmt_fixed, fmt_fixed_spec, fmt_u64, join_fields, join_seqs, pad_left, pad_left_spec, pad_right, pad_right_spec};
use crate::alert::deci_round;
use crate::timefmt::{format_ts_started, format_ts_hms, ts_hms_text, ts_started_text};

verus! {

/// A hundredths value as a one-decimal column of width five.
pub open spec fn pct_col(centi: u64) -> Seq<u8> {
    pad_left_spec(fmt_fixed_spec(deci_round(centi) as nat, 1), 5)
}

/// A compact byte figure right-aligned to `w`.
pub open spec fn bytes_col(b: u64, w: nat) -> Seq<u8> {
    pad_left_spec(format_bytes_short_spec(b), w)
}

/// A throughput figure right-aligned to ten.
pub open spec fn tp_col(centi: u64) -> Seq<u8> {
    pad_left_spec(format_throughput_spec(centi), 10)
}

/// The fourteen columns of one summary line.
pub open spec fn text_row_cols(s: MetricsSample) -> Seq<Seq<u8>> {
    seq![
        pad_right_spec(text_bytes(ts_hms_text(s.timestamp_ms)), 8),
        pct_col(s.cpu.total_utilization),
        pct_col(s.cpu.iowait_percent),
        pct_col(s.memory.used_percent),
        match s.memory.cgroup_usage_percent {
            Some(p) => pct_col(p),
            None => ascii_bytes("  N/A"@),
        },
        bytes_col(s.memory.cached, 7),
        bytes_col(s.memory.dirty, 7),
        match s.process {
            Some(p) => bytes_col(p.rss_anon, 8),
            None => ascii_bytes("     N/A"@),
        },
        match s.process {
            Some(p) => bytes_col(p.rss_file, 8),
            None => ascii_bytes("     N/A"@),
        },
        match s.process {
            Some(p) => tp_col(p.io_read_bytes_per_sec),
            None => ascii_bytes("       N/A"@),
        },
        match s.process {
            Some(p) => tp_col(p.io_write_bytes_per_sec),
            None => ascii_bytes("       N/A"@),
        },
        pad_left_spec(dec_digits(s.disk.total_in_flight as nat), 5),
        match s.psi {
            Some(p) => pct_col(p.memory.some_avg10),
            None => pct_col(0),
        },
        match s.psi {
            Some(p) => pct_col(p.io.some_avg10),
            None => pct_col(0),
        },
    ]
}

/// One summary line: the columns joined by single spaces.
pub open spec fn text_row_spec(s: MetricsSample) -> Seq<u8> {
    join_seqs(text_row_cols(s), 32)
}

/// The human-readable summary sink's formatter.
pub struct TextLogger {
    /// Lines written so far, the header block not counted.
    pub samples_written: u64,
}

impl TextLogger {
    /// A fresh formatter together with its header block: the title with
    /// the start time, the column definitions, the column header and the
    /// rule beneath it.
    pub fn new(now_ms: u64) -> (r: (TextLogger, Vec<Vec<u8>>))
        ensures
            r.0.samples_written == 0,
            r.1@.len() == 31,
            r.1@[1]@ == ascii_bytes("# Started: "@) + text_bytes(ts_started_text(now_ms)),
    {
        let logger = TextLogger { samples_written: 0 };
        let mut lines: Vec<Vec<u8>> = Vec::new();
        proof {
            reveal_strlit("# Performance Monitor Log");
            reveal_strlit("# Started: ");
        }
        lines.push(str_bytes("# Performance Monitor Log"));
        let mut started = str_bytes("# Started: ");
        let ts = format_ts_started(now_ms);
        let mut tsb = vstd::slice::slice_to_vec(ts.as_str().as_bytes());
        proof {
            assert(tsb@ == text_bytes(ts_started_text(now_ms)));
        }
        started.append(&mut tsb);
        let ghost gstarted = started@;
        lines.push(started);
        proof {
            reveal_strlit("#");
            reveal_strlit("# Column Definitions:");
            reveal_strlit("# CPU Section:");
            reveal_strlit("#   Time     - Sample timestamp (HH:MM:SS)");
            reveal_strlit("#   CPU%     - Total CPU utilization");
            reveal_strlit("#   IOW%     - CPU time waiting for I/O");
            reveal_strlit("# Memory Section:");
            reveal_strlit("#   Mem%     - System memory used");
            reveal_strlit("#   CG%      - Cgroup memory used (container limit)");
            reveal_strlit("#   Cache    - File-backed page cache (mmap'd parquet files live here)");
            reveal_strlit("#   Dirty    - Pages modified but not yet written to disk");
            reveal_strlit("# Process Section (if monitored with -p or -n):");
            reveal_strlit("#   RssAnon  - Anonymous memory (heap, stack, allocations)");
            reveal_strlit("#   RssFile  - File-backed memory (mmap'd files in process space)");
            reveal_strlit("#   ProcRd   - Actual bytes read from disk by process");
            reveal_strlit("#   ProcWr   - Actual bytes written to disk by process");
            reveal_strlit("# Disk Section:");
            reveal_strlit("#   InFlt    - I/O requests currently in flight");
            reveal_strlit("# PSI (Pressure Stall Information):");
            reveal_strlit("#   MemPSI   - % time tasks stalled on memory (some avg10)");
            reveal_strlit("#   IoPSI    - % time tasks stalled on I/O (some avg10)");
            reveal_strlit(
                "Time      CPU%  IOW%  Mem%   CG%   Cache   Dirty  RssAnon  RssFile     ProcRd     ProcWr InFlt MemPS IoPSI",
            );
            reveal_strlit(
                "-------------------------------------------------------------------------------------------------------------------",
            );
        }
        lines.push(str_bytes("#"));
        lines.push(str_bytes("# Column Definitions:"));
        lines.push(str_bytes("#"));
        lines.push(str_bytes("# CPU Section:"));
        lines.push(str_bytes("#   Time     - Sample timestamp (HH:MM:SS)"));
        lines.push(str_bytes("#   CPU%     - Total CPU utilization"));
        lines.push(str_bytes("#   IOW%     - CPU time waiting for I/O"));
        lines.push(str_bytes("#"));
        lines.push(str_bytes("# Memory Section:"));
        lines.push(str_bytes("#   Mem%     - System memory used"));
        lines.push(str_bytes("#   CG%      - Cgroup memory used (container limit)"));
        lines.push(str_bytes("#   Cache    - File-backed page cache (mmap'd parquet files live here)"));
        lines.push(str_bytes("#   Dirty    - Pages modified but not yet written to disk"));
        lines.push(str_bytes("#"));
        lines.push(str_bytes("# Process Section (if monitored with -p or -n):"));
        lines.push(str_bytes("#   RssAnon  - Anonymous memory (heap, stack, allocations)"));
        lines.push(str_bytes("#   RssFile  - File-backed memory (mmap'd files in process space)"));
        lines.push(str_bytes("#   ProcRd   - Actual bytes read from disk by process"));
        lines.push(str_bytes("#   ProcWr   - Actual bytes written to disk by process"));
        lines.push(str_bytes("#"));
        lines.push(str_bytes("# Disk Section:"));
        lines.push(str_bytes("#   InFlt    - I/O requests currently in flight"));
        lines.push(str_bytes("#"));
        lines.push(str_bytes("# PSI (Pressure Stall Information):"));
        lines.push(str_bytes("#   MemPSI   - % time tasks stalled on memory (some avg10)"));
        lines.push(str_bytes("#   IoPSI    - % time tasks stalled on I/O (some avg10)"));
        lines.push(str_bytes("#"));
        lines.push(
            str_bytes(
                "Time      CPU%  IOW%  Mem%   CG%   Cache   Dirty  RssAnon  RssFile     ProcRd     ProcWr InFlt MemPS IoPSI",
            ),
        );
        lines.push(
            str_bytes(
                "-------------------------------------------------------------------------------------------------------------------",
            ),
        );
        proof {
            assert(lines@.len() == 31);
            assert(lines@[1]@ == gstarted);
        }
        (logger, lines)
    }

    /// Lines written so far.
    pub fn samples_written(&self) -> (r: u64)
        ensures
            r == self.samples_written,
    {
        self.samples_written
    }

    /// Formats one sample as its fixed-width line; the sink flushes every
    /// line, since its purpose is live tailing.
    pub fn log(&mut self, sample: &MetricsSample) -> (r: Vec<u8>)
        requires
            old(self).samples_written < u64::MAX,
        ensures
            r@ == text_row_spec(*sample),
            final(self).samples_written == old(self).samples_written + 1,
    {
        proof {
            reveal_strlit("  N/A");
            reveal_strlit("     N/A");
            reveal_strlit("       N/A");
        }
        let mut cols: Vec<Vec<u8>> = Vec::new();
        let ts = format_ts_hms(sample.timestamp_ms);
        let tsb = vstd::slice::slice_to_vec(ts.as_str().as_bytes());
        proof {
            assert(tsb@ == text_bytes(ts_hms_text(sample.timestamp_ms)));
        }
        push_col(&mut cols, pad_right(tsb, 8));
        push_col(&mut cols, pct_field(sample.cpu.total_utilization));
        push_col(&mut cols, pct_field(sample.cpu.iowait_percent));
        push_col(&mut cols, pct_field(sample.memory.used_percent));
        match sample.memory.cgroup_usage_percent {
            Some(p) => push_col(&mut cols, pct_field(p)),
            None => push_col(&mut cols, str_bytes("  N/A")),
        }
        push_col(&mut cols, pad_left(format_bytes_short_vec(sample.memory.cached), 7));
        push_col(&mut cols, pad_left(format_bytes_short_vec(sample.memory.dirty), 7));
        match &sample.process {
            Some(p) => {
                push_col(&mut cols, pad_left(format_bytes_short_vec(p.rss_anon), 8));
                push_col(&mut cols, pad_left(format_bytes_short_vec(p.rss_file), 8));
                push_col(&mut cols, pad_left(format_throughput_vec(p.io_read_bytes_per_sec), 10));
                push_col(&mut cols, pad_left(format_throughput_vec(p.io_write_bytes_per_sec), 10));
            },
            None => {
                push_col(&mut cols, str_bytes("     N/A"));
                push_col(&mut cols, str_bytes("     N/A"));
                push_col(&mut cols, str_bytes("       N/A"));
                push_col(&mut cols, str_bytes("       N/A"));
            },
        }
        push_col(&mut cols, pad_left(fmt_u64(sample.disk.total_in_flight), 5));
        match &sample.psi {
            Some(p) => {
                push_col(&mut cols, pct_field(p.memory.some_avg10));
                push_col(&mut cols, pct_field(p.io.some_avg10));
            },
            None => {
                push_col(&mut cols, pct_field(0));
                push_col(&mut cols, pct_field(0));
            },
        }
        proof {
            assert(cols@.map_values(|f: Vec<u8>| f@) =~= text_row_cols(*sample));
        }
        self.samples_written = self.samples_written + 1;
        join_fields(&cols, 32)
    }
}

/// Pushes one column.
fn push_col(cols: &mut Vec<Vec<u8>>, col: Vec<u8>)
    ensures
        final(cols)@.map_values(|f: Vec<u8>| f@) == old(cols)@.map_values(|f: Vec<u8>| f@).push(
            col@,
        ),
{
    let ghost gc = col@;
    let ghost before = cols@.map_values(|f: Vec<u8>| f@);
    cols.push(col);
    proof {
        assert(cols@.map_values(|f: Vec<u8>| f@) =~= before.push(gc));
    }
}

/// Formats a one-decimal percentage column of width five.
fn pct_field(centi: u64) -> (r: Vec<u8>)
    ensures
        r@ == pct_col(centi),
{
    pad_left(fmt_fixed(centi.saturating_add(5) / 10, 1), 5)
}

} // verus!
