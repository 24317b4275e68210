//! Pressure-stall metrics: three independent pseudo-files, each with
//! `some` and, for memory and I/O only, `full` rolling averages.
//!
//! A missing file degrades to all-zero metrics rather than failing the
//! sample.  Averages are hundredths of a percent.

use vstd::prelude::*;
use crate::bytes::{ascii_bytes, find_byte, lemma_find_byte, lines_of, split_lines, split_ws, str_bytes, subrange_vec, ws_tokens, bytes_eq};
use crate::numfmt::{parse_fixed, parse_fixed_spec, parse_u64, parse_u64_spec};

verus! {

/// Pressure metrics for one resource.
#[derive(Clone, Copy, Debug, PartialEq, Eq)]
pub struct PsiResourceMetrics {
    /// Share of the last 10 s at least one task was stalled, hundredths.
    pub some_avg10: u64,
    /// Share of the last 60 s, hundredths.
    pub some_avg60: u64,
    /// Share of the last 300 s, hundredths.
    pub some_avg300: u64,
    /// Cumulative stalled microseconds, at least one task.
    pub some_total: u64,
    /// Share of the last 10 s all tasks were stalled; absent for CPU.
    pub full_avg10: Option<u64>,
    /// Share of the last 60 s all tasks were stalled.
    pub full_avg60: Option<u64>,
    /// Share of the last 300 s all tasks were stalled.
    pub full_avg300: Option<u64>,
    /// Cumulative stalled microseconds, all tasks.
    pub full_total: Option<u64>,
}

/// The all-zero metrics of a missing pressure file.
pub open spec fn psi_default() -> PsiResourceMetrics {
    PsiResourceMetrics {
        some_avg10: 0,
        some_avg60: 0,
        some_avg300: 0,
        some_total: 0,
        full_avg10: None,
        full_avg60: None,
        full_avg300: None,
        full_total: None,
    }
}

/// Applies one `key=value` pair of a pressure line.
pub open spec fn psi_apply_kv(
    m: PsiResourceMetrics,
    is_full: bool,
    has_full: bool,
    key: Seq<u8>,
    value: Seq<u8>,
) -> PsiResourceMetrics {
    if !is_full && key == ascii_bytes("avg10"@) {
        PsiResourceMetrics { some_avg10: parse_fixed_spec(value, 2), ..m }
    } else if !is_full && key == ascii_bytes("avg60"@) {
        PsiResourceMetrics { some_avg60: parse_fixed_spec(value, 2), ..m }
    } else if !is_full && key == ascii_bytes("avg300"@) {
        PsiResourceMetrics { some_avg300: parse_fixed_spec(value, 2), ..m }
    } else if !is_full && key == ascii_bytes("total"@) {
        PsiResourceMetrics { some_total: parse_u64_spec(value), ..m }
    } else if is_full && has_full && key == ascii_bytes("avg10"@) {
        PsiResourceMetrics { full_avg10: Some(parse_fixed_spec(value, 2)), ..m }
    } else if is_full && has_full && key == ascii_bytes("avg60"@) {
        PsiResourceMetrics { full_avg60: Some(parse_fixed_spec(value, 2)), ..m }
    } else if is_full && has_full && key == ascii_bytes("avg300"@) {
        PsiResourceMetrics { full_avg300: Some(parse_fixed_spec(value, 2)), ..m }
    } else if is_full && has_full && key == ascii_bytes("total"@) {
        PsiResourceMetrics { full_total: Some(parse_u64_spec(value)), ..m }
    } else {
        m
    }
}

/// Applies one token of a pressure line: a token without `=` is ignored.
pub open spec fn psi_apply_tok(
    m: PsiResourceMetrics,
    is_full: bool,
    has_full: bool,
    t: Seq<u8>,
) -> PsiResourceMetrics {
    let i = find_byte(t, 61);
    if i < t.len() {
        psi_apply_kv(m, is_full, has_full, t.take(i), t.skip(i + 1))
    } else {
        m
    }
}

/// Applies the tokens of a pressure line from position `j` on.
pub open spec fn psi_line_fold(
    m: PsiResourceMetrics,
    is_full: bool,
    has_full: bool,
    toks: Seq<Seq<u8>>,
    j: int,
) -> PsiResourceMetrics
    decreases toks.len() - j when 0 <= j
{
    if j < 0 || j >= toks.len() {
        m
    } else {
        psi_line_fold(psi_apply_tok(m, is_full, has_full, toks[j]), is_full, has_full, toks, j + 1)
    }
}

/// Applies one pressure line: the first token says whether it is the
/// `some` or the `full` row.
pub open spec fn psi_line(m: PsiResourceMetrics, l: Seq<u8>, has_full: bool) -> PsiResourceMetrics {
    let toks = ws_tokens(l);
    if toks.len() == 0 {
        m
    } else if toks[0] == ascii_bytes("full"@) {
        psi_line_fold(m, true, has_full, toks, 1)
    } else if toks[0] == ascii_bytes("some"@) {
        psi_line_fold(m, false, has_full, toks, 1)
    } else {
        m
    }
}

/// The metrics after all lines of one pressure file.
pub open spec fn psi_fold(ls: Seq<Seq<u8>>, has_full: bool) -> PsiResourceMetrics
    decreases ls.len(),
{
    if ls.len() == 0 {
        psi_default()
    } else {
        psi_line(psi_fold(ls.drop_last(), has_full), ls.last(), has_full)
    }
}

/// What one pressure file yields: parsed metrics, or all zeros when the
/// file is missing.
pub open spec fn psi_file_spec(content: Option<Seq<u8>>, has_full: bool) -> PsiResourceMetrics {
    match content {
        Some(s) => psi_fold(lines_of(s), has_full),
        None => psi_default(),
    }
}

/// Parses one pressure file; a missing file yields all zeros.
pub fn read_psi_file(content: Option<&[u8]>, has_full: bool) -> (r: PsiResourceMetrics)
    ensures
        r == psi_file_spec(
            match content {
                Some(s) => Some(s@),
                None => None,
            },
            has_full,
        ),
{
    let s = match content {
        Some(s) => s,
        None => {
            return PsiResourceMetrics {
                some_avg10: 0,
                some_avg60: 0,
                some_avg300: 0,
                some_total: 0,
                full_avg10: None,
                full_avg60: None,
                full_avg300: None,
                full_total: None,
            };
        },
    };
    let ghost ls = lines_of(s@);
    let lines = split_lines(s);
    proof {
        reveal_strlit("full");
        reveal_strlit("some");
        reveal_strlit("avg10");
        reveal_strlit("avg60");
        reveal_strlit("avg300");
        reveal_strlit("total");
    }
    let full_tok = str_bytes("full");
    let some_tok = str_bytes("some");
    let avg10_tok = str_bytes("avg10");
    let avg60_tok = str_bytes("avg60");
    let avg300_tok = str_bytes("avg300");
    let total_tok = str_bytes("total");
    let mut m = PsiResourceMetrics {
        some_avg10: 0,
        some_avg60: 0,
        some_avg300: 0,
        some_total: 0,
        full_avg10: None,
        full_avg60: None,
        full_avg300: None,
        full_total: None,
    };
    let mut i: usize = 0;
    proof {
        assert(ls.take(0) =~= Seq::<Seq<u8>>::empty());
    }
    while i < lines.len()
        invariant
            i <= lines@.len(),
            lines@.map_values(|f: Vec<u8>| f@) == ls,
            full_tok@ == ascii_bytes("full"@),
            some_tok@ == ascii_bytes("some"@),
            avg10_tok@ == ascii_bytes("avg10"@),
            avg60_tok@ == ascii_bytes("avg60"@),
            avg300_tok@ == ascii_bytes("avg300"@),
            total_tok@ == ascii_bytes("total"@),
            m == psi_fold(ls.take(i as int), has_full),
        decreases lines@.len() - i,
    {
        let line = &lines[i];
        proof {
            assert(line@ == ls[i as int]);
            assert(ls.take(i + 1 as int).drop_last() =~= ls.take(i as int));
            assert(ls.take(i + 1 as int).last() == ls[i as int]);
        }
        let toks = split_ws(line.as_slice());
        let ghost gt = ws_tokens(line@);
        if toks.len() > 0 {
            proof {
                assert(toks@.map_values(|f: Vec<u8>| f@)[0] == toks@[0]@);
            }
            let is_full = bytes_eq(toks[0].as_slice(), full_tok.as_slice());
            let is_some_row = bytes_eq(toks[0].as_slice(), some_tok.as_slice());
            if is_full || is_some_row {
                let ghost m0 = m;
                let mut j: usize = 1;
                while j < toks.len()
                    invariant
                        1 <= j <= toks@.len(),
                        toks@.map_values(|f: Vec<u8>| f@) == gt,
                        avg10_tok@ == ascii_bytes("avg10"@),
                        avg60_tok@ == ascii_bytes("avg60"@),
                        avg300_tok@ == ascii_bytes("avg300"@),
                        total_tok@ == ascii_bytes("total"@),
                        psi_line_fold(m0, is_full, has_full, gt, 1) == psi_line_fold(
                            m,
                            is_full,
                            has_full,
                            gt,
                            j as int,
                        ),
                    decreases toks@.len() - j,
                {
                    proof {
                        assert(toks@.map_values(|f: Vec<u8>| f@)[j as int] == toks@[j as int]@);
                    }
                    let t = &toks[j];
                    let eq = crate::bytes::find_byte_from(t.as_slice(), 61, 0);
                    proof {
                        assert(t@.skip(0) =~= t@);
                        lemma_find_byte(t@, 61);
                    }
                    if eq < t.len() {
                        let key = subrange_vec(t.as_slice(), 0, eq);
                        let value = subrange_vec(t.as_slice(), eq + 1, t.len());
                        proof {
                            assert(key@ =~= t@.take(find_byte(t@, 61)));
                            assert(value@ =~= t@.skip(find_byte(t@, 61) + 1));
                        }
                        let ghost mbefore = m;
                        if bytes_eq(key.as_slice(), avg10_tok.as_slice()) {
                            let v = parse_fixed(value.as_slice(), 2);
                            if is_full {
                                if has_full {
                                    m.full_avg10 = Some(v);
                                }
                            } else {
                                m.some_avg10 = v;
                            }
                        } else if bytes_eq(key.as_slice(), avg60_tok.as_slice()) {
                            let v = parse_fixed(value.as_slice(), 2);
                            if is_full {
                                if has_full {
                                    m.full_avg60 = Some(v);
                                }
                            } else {
                                m.some_avg60 = v;
                            }
                        } else if bytes_eq(key.as_slice(), avg300_tok.as_slice()) {
                            let v = parse_fixed(value.as_slice(), 2);
                            if is_full {
                                if has_full {
                                    m.full_avg300 = Some(v);
                                }
                            } else {
                                m.some_avg300 = v;
                            }
                        } else if bytes_eq(key.as_slice(), total_tok.as_slice()) {
                            let v = parse_u64(value.as_slice());
                            if is_full {
                                if has_full {
                                    m.full_total = Some(v);
                                }
                            } else {
                                m.some_total = v;
                            }
                        }
                        proof {
                            assert(m == psi_apply_tok(mbefore, is_full, has_full, gt[j as int]));
                        }
                    } else {
                        proof {
                            assert(m == psi_apply_tok(m, is_full, has_full, gt[j as int]));
                        }
                    }
                    j += 1;
                }
                proof {
                    assert(psi_line_fold(m0, is_full, has_full, gt, 1) == m);
                    assert(psi_line(m0, line@, has_full) == m);
                }
            }
        }
        i += 1;
    }
    proof {
        assert(ls.take(ls.len() as int) =~= ls);
    }
    m
}

/// Pressure metrics for the three resources.
#[derive(Clone, Copy, Debug, PartialEq, Eq)]
pub struct PsiMetrics {
    /// CPU pressure.
    pub cpu: PsiResourceMetrics,
    /// Memory pressure.
    pub memory: PsiResourceMetrics,
    /// I/O pressure.
    pub io: PsiResourceMetrics,
}

/// Pressure metrics collector.  The pressure files expose rolling averages,
/// so no prior-sample state is kept.
pub struct PsiCollector {
}

impl Default for PsiCollector {
    /// A fresh collector.
    fn default() -> (r: PsiCollector) {
        PsiCollector::new()
    }
}

impl PsiCollector {
    /// A fresh collector.
    pub fn new() -> (r: PsiCollector) {
        PsiCollector {  }
    }

    /// Turns one read of the three pressure files into pressure metrics.
    /// The CPU file has no `full` row; for each resource a missing file
    /// yields zeros rather than failing the sample.
    pub fn collect(
        &mut self,
        cpu: Option<&[u8]>,
        memory: Option<&[u8]>,
        io: Option<&[u8]>,
    ) -> (r: PsiMetrics)
        ensures
            r.cpu == psi_file_spec(
                match cpu {
                    Some(s) => Some(s@),
                    None => None,
                },
                false,
            ),
            r.memory == psi_file_spec(
                match memory {
                    Some(s) => Some(s@),
                    None => None,
                },
                true,
            ),
            r.io == psi_file_spec(
                match io {
                    Some(s) => Some(s@),
                    None => None,
                },
                true,
            ),
    {
        PsiMetrics {
            cpu: read_psi_file(cpu, false),
            memory: read_psi_file(memory, true),
            io: read_psi_file(io, true),
        }
    }
}

} // verus!
