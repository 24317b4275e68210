//! Log segmentation and the control protocol: segment paths, rotation,
//! rename-then-rotate, and the interpretation of control messages.
//!
//! Segment numbering is monotonic for the process lifetime: zero is the
//! original unsuffixed path, and every rotation moves to the next number.

use vstd::prelude::*;
use crate::bytes::{ascii_bytes, bytes_eq, str_bytes, subrange_vec, to_lower, trim, trim_spec, lower_byte};
use crate::numfmt::dec_digits;
use crate::process::{rfind_byte, lemma_rfind_byte, rfind_byte_exec};

verus! {

/// The directory part of a path, up to and including the last slash;
/// empty when the path has none.
pub open spec fn path_dir(p: Seq<u8>) -> Seq<u8> {
    p.take(rfind_byte(p, 47) + 1)
}

/// The file-name part of a path, after the last slash.
pub open spec fn path_name(p: Seq<u8>) -> Seq<u8> {
    p.skip(rfind_byte(p, 47) + 1)
}

/// The stem of a file name: everything before the last dot, except that a
/// leading dot or no dot keeps the whole name, and an empty name falls
/// back to `log`.
pub open spec fn name_stem(n: Seq<u8>) -> Seq<u8> {
    if n.len() == 0 {
        ascii_bytes("log"@)
    } else {
        let d = rfind_byte(n, 46);
        if d > 0 {
            n.take(d)
        } else {
            n
        }
    }
}

/// The extension of a file name: everything after the last dot, when that
/// dot is not the first byte.
pub open spec fn name_ext(n: Seq<u8>) -> Seq<u8> {
    let d = rfind_byte(n, 46);
    if n.len() > 0 && d > 0 {
        n.skip(d + 1)
    } else {
        Seq::empty()
    }
}

/// The path of segment `seg`: the stem with `_seg` inserted before the
/// extension, in the same directory.
pub open spec fn segment_path_spec(base: Seq<u8>, seg: u32) -> Seq<u8> {
    let n = path_name(base);
    let withseg = name_stem(n) + ascii_bytes("_"@) + dec_digits(seg as nat);
    if name_ext(n).len() == 0 {
        path_dir(base) + withseg
    } else {
        path_dir(base) + withseg + ascii_bytes("."@) + name_ext(n)
    }
}

/// Derives the path of segment `seg` from a base path.
pub fn segment_path(base: &[u8], seg: u32) -> (r: Vec<u8>)
    ensures
        r@ == segment_path_spec(base@, seg),
{
    proof {
        reveal_strlit("log");
        reveal_strlit("_");
        reveal_strlit(".");
        lemma_rfind_byte(base@, 47);
    }
    let bl = base.len();
    let (dir, name) = match rfind_byte_exec(base, 47) {
        Some(i) => {
            proof {
                assert(i < bl);
            }
            let d = subrange_vec(base, 0, i + 1);
            let n = subrange_vec(base, i + 1, base.len());
            proof {
                assert(d@ =~= path_dir(base@));
                assert(n@ =~= path_name(base@));
            }
            (d, n)
        },
        None => {
            let d: Vec<u8> = Vec::new();
            let n = subrange_vec(base, 0, base.len());
            proof {
                assert(d@ =~= path_dir(base@));
                assert(n@ =~= path_name(base@));
            }
            (d, n)
        },
    };
    proof {
        lemma_rfind_byte(name@, 46);
    }
    let (stem, ext) = if name.len() == 0 {
        let st = str_bytes("log");
        let ex: Vec<u8> = Vec::new();
        proof {
            assert(st@ =~= name_stem(name@));
            assert(ex@ =~= name_ext(name@));
        }
        (st, ex)
    } else {
        match rfind_byte_exec(name.as_slice(), 46) {
            Some(d) if d > 0 => {
                let st = subrange_vec(name.as_slice(), 0, d);
                let ex = subrange_vec(name.as_slice(), d + 1, name.len());
                proof {
                    assert(st@ =~= name_stem(name@));
                    assert(ex@ =~= name_ext(name@));
                }
                (st, ex)
            },
            _ => {
                let st = name.clone();
                let ex: Vec<u8> = Vec::new();
                proof {
                    assert(st@ =~= name_stem(name@));
                    assert(ex@ =~= name_ext(name@));
                }
                (st, ex)
            },
        }
    };
    let mut r = dir;
    let mut st = stem;
    r.append(&mut st);
    let mut us = str_bytes("_");
    r.append(&mut us);
    let mut num = crate::numfmt::fmt_u64(seg as u64);
    r.append(&mut num);
    if ext.len() > 0 {
        let mut dot = str_bytes(".");
        r.append(&mut dot);
        let mut ex = ext;
        r.append(&mut ex);
        proof {
            assert(r@ =~= segment_path_spec(base@, seg));
        }
    } else {
        proof {
            assert(r@ =~= segment_path_spec(base@, seg));
        }
    }
    r
}

/// What a control message asks for: a plain rotation, or a rename of the
/// current segment followed by a rotation.
#[derive(Clone, Debug)]
pub enum ControlAction {
    /// Rotate to a fresh segment.
    Rotate,
    /// Rename the current segment's files to this base name, then rotate.
    RenameTo(Vec<u8>),
}

/// A control message trimmed of whitespace asks for a plain rotation when
/// it is empty or the word `split` in any case; anything else is a rename
/// target.
pub open spec fn is_rotate_msg(msg: Seq<u8>) -> bool {
    let t = trim_spec(msg);
    t.len() == 0 || t.map_values(|b: u8| lower_byte(b)) == ascii_bytes("split"@)
}

/// Interprets one control message.
pub fn parse_control_message(msg: &[u8]) -> (r: ControlAction)
    ensures
        (r is Rotate) == is_rotate_msg(msg@),
        r matches ControlAction::RenameTo(n) ==> n@ == trim_spec(msg@),
{
    proof {
        reveal_strlit("split");
    }
    let t = trim(msg);
    let split_word = str_bytes("split");
    let tl = to_lower(t.as_slice());
    if t.len() == 0 || bytes_eq(tl.as_slice(), split_word.as_slice()) {
        ControlAction::Rotate
    } else {
        ControlAction::RenameTo(t)
    }
}

/// The segmentation state: the counter and the configured base paths of
/// the two sinks.
pub struct LogSegments {
    /// The current segment number; zero is the original unsuffixed path.
    pub segment: u32,
    /// Base path of the detailed machine-readable sink, if configured.
    pub csv_base: Option<Vec<u8>>,
    /// Base path of the human-readable summary sink, if configured.
    pub text_base: Option<Vec<u8>>,
}

/// The path a sink writes to at segment `seg`: the base itself at zero,
/// the derived segment path afterwards.
pub open spec fn sink_path(base: Option<Vec<u8>>, seg: u32) -> Option<Seq<u8>> {
    match base {
        Some(b) => if seg == 0 {
            Some(b@)
        } else {
            Some(segment_path_spec(b@, seg))
        },
        None => None,
    }
}

impl LogSegments {
    /// A fresh state at segment zero.
    pub fn new(csv_base: Option<Vec<u8>>, text_base: Option<Vec<u8>>) -> (r: LogSegments)
        ensures
            r.segment == 0,
            r.csv_base == csv_base,
            r.text_base == text_base,
    {
        LogSegments { segment: 0, csv_base, text_base }
    }

    /// Whether any sink is configured; only then do rotations happen.
    pub fn any_sink(&self) -> (r: bool)
        ensures
            r == (self.csv_base is Some || self.text_base is Some),
    {
        self.csv_base.is_some() || self.text_base.is_some()
    }

    /// The current path of the machine-readable sink.
    pub fn current_csv_path(&self) -> (r: Option<Vec<u8>>)
        ensures
            (match r {
                Some(p) => sink_path(self.csv_base, self.segment) == Some(p@),
                None => sink_path(self.csv_base, self.segment) is None,
            }),
    {
        match &self.csv_base {
            Some(b) => {
                if self.segment == 0 {
                    Some(b.clone())
                } else {
                    Some(segment_path(b.as_slice(), self.segment))
                }
            },
            None => None,
        }
    }

    /// The current path of the human-readable sink.
    pub fn current_text_path(&self) -> (r: Option<Vec<u8>>)
        ensures
            (match r {
                Some(p) => sink_path(self.text_base, self.segment) == Some(p@),
                None => sink_path(self.text_base, self.segment) is None,
            }),
    {
        match &self.text_base {
            Some(b) => {
                if self.segment == 0 {
                    Some(b.clone())
                } else {
                    Some(segment_path(b.as_slice(), self.segment))
                }
            },
            None => None,
        }
    }

    /// Rotates to a fresh segment: the counter moves up by exactly one and
    /// the returned paths, where a sink is configured, are the ones every
    /// subsequent append goes to.
    pub fn rotate(&mut self) -> (r: (Option<Vec<u8>>, Option<Vec<u8>>))
        requires
            old(self).segment < u32::MAX,
        ensures
            final(self).segment == old(self).segment + 1,
            final(self).csv_base == old(self).csv_base,
            final(self).text_base == old(self).text_base,
            (match r.0 {
                Some(p) => sink_path(old(self).csv_base, (old(self).segment + 1) as u32) == Some(
                    p@,
                ),
                None => old(self).csv_base is None,
            }),
            (match r.1 {
                Some(p) => sink_path(old(self).text_base, (old(self).segment + 1) as u32) == Some(
                    p@,
                ),
                None => old(self).text_base is None,
            }),
    {
        self.segment = self.segment + 1;
        let csv = self.current_csv_path();
        let text = self.current_text_path();
        (csv, text)
    }

    /// The rename targets for the current segment: for each configured
    /// sink, its current path and the new name with the sink's extension,
    /// in the same directory.
    pub fn rename_targets(&self, new_name: &[u8]) -> (r: (
        Option<(Vec<u8>, Vec<u8>)>,
        Option<(Vec<u8>, Vec<u8>)>,
    ))
        ensures
            (match r.0 {
                Some(pair) => {
                    &&& sink_path(self.csv_base, self.segment) == Some(pair.0@)
                    &&& pair.1@ == path_dir(pair.0@) + new_name@ + ascii_bytes(".csv"@)
                },
                None => self.csv_base is None,
            }),
            (match r.1 {
                Some(pair) => {
                    &&& sink_path(self.text_base, self.segment) == Some(pair.0@)
                    &&& pair.1@ == path_dir(pair.0@) + new_name@ + ascii_bytes(".txt"@)
                },
                None => self.text_base is None,
            }),
    {
        proof {
            reveal_strlit(".csv");
            reveal_strlit(".txt");
        }
        let csv = match self.current_csv_path() {
            Some(cur) => {
                let tgt = renamed_path(cur.as_slice(), new_name, ".csv");
                Some((cur, tgt))
            },
            None => None,
        };
        let text = match self.current_text_path() {
            Some(cur) => {
                let tgt = renamed_path(cur.as_slice(), new_name, ".txt");
                Some((cur, tgt))
            },
            None => None,
        };
        (csv, text)
    }

    /// Renames then rotates: the rename targets are computed against the
    /// current segment, and the counter then moves up by exactly one, so a
    /// rename is always followed by exactly one rotation and logging
    /// resumes on fresh files.
    pub fn rename_and_rotate(&mut self, new_name: &[u8]) -> (r: (
        (Option<(Vec<u8>, Vec<u8>)>, Option<(Vec<u8>, Vec<u8>)>),
        (Option<Vec<u8>>, Option<Vec<u8>>),
    ))
        requires
            old(self).segment < u32::MAX,
        ensures
            final(self).segment == old(self).segment + 1,
            final(self).csv_base == old(self).csv_base,
            final(self).text_base == old(self).text_base,
            (match r.0.0 {
                Some(pair) => {
                    &&& sink_path(old(self).csv_base, old(self).segment) == Some(pair.0@)
                    &&& pair.1@ == path_dir(pair.0@) + new_name@ + ascii_bytes(".csv"@)
                },
                None => old(self).csv_base is None,
            }),
            (match r.0.1 {
                Some(pair) => {
                    &&& sink_path(old(self).text_base, old(self).segment) == Some(pair.0@)
                    &&& pair.1@ == path_dir(pair.0@) + new_name@ + ascii_bytes(".txt"@)
                },
                None => old(self).text_base is None,
            }),
            (match r.1.0 {
                Some(p) => sink_path(old(self).csv_base, (old(self).segment + 1) as u32) == Some(
                    p@,
                ),
                None => old(self).csv_base is None,
            }),
            (match r.1.1 {
                Some(p) => sink_path(old(self).text_base, (old(self).segment + 1) as u32) == Some(
                    p@,
                ),
                None => old(self).text_base is None,
            }),
    {
        let renames = self.rename_targets(new_name);
        let opened = self.rotate();
        (renames, opened)
    }
}

/// Joins a directory with a new base name and an extension.
fn renamed_path(cur: &[u8], new_name: &[u8], ext: &str) -> (r: Vec<u8>)
    requires
        ext.is_ascii(),
    ensures
        r@ == path_dir(cur@) + new_name@ + ascii_bytes(ext@),
{
    proof {
        lemma_rfind_byte(cur@, 47);
    }
    let cl = cur.len();
    let dir_end = match rfind_byte_exec(cur, 47) {
        Some(i) => {
            proof {
                assert(i < cl);
            }
            i + 1
        },
        None => 0,
    };
    let mut r = subrange_vec(cur, 0, dir_end);
    proof {
        assert(r@ =~= path_dir(cur@));
    }
    let mut nm = subrange_vec(new_name, 0, new_name.len());
    proof {
        assert(nm@ =~= new_name@);
    }
    r.append(&mut nm);
    let mut ex = str_bytes(ext);
    r.append(&mut ex);
    r
}

/// Whether this tick's process-liveness transition triggers an automatic
/// rotation: only when the feature is on, at least one tick has passed,
/// the liveness actually changed, and some sink is configured.
pub open spec fn auto_rotate_spec(
    split_on_process: bool,
    samples_collected: u64,
    prev_running: bool,
    cur_running: bool,
    any_sink: bool,
) -> bool {
    split_on_process && samples_collected > 0 && cur_running != prev_running && any_sink
}

/// Decides the automatic rotation on a liveness transition.
pub fn should_auto_rotate(
    split_on_process: bool,
    samples_collected: u64,
    prev_running: bool,
    cur_running: bool,
    any_sink: bool,
) -> (r: bool)
    ensures
        r == auto_rotate_spec(
            split_on_process,
            samples_collected,
            prev_running,
            cur_running,
            any_sink,
        ),
{
    split_on_process && samples_collected > 0 && cur_running != prev_running && any_sink
}

/// Whether this tick rescans the process table: only with a name pattern,
/// and then on the first tick, on the cadence, or whenever no process is
/// bound.
pub open spec fn rescan_spec(
    has_pattern: bool,
    samples_collected: u64,
    rescan_interval: u64,
    bound: bool,
) -> bool
    recommends
        rescan_interval > 0,
{
    has_pattern && (samples_collected == 0 || samples_collected % rescan_interval == 0 || !bound)
}

/// Decides the periodic process rescan.
pub fn should_rescan(
    has_pattern: bool,
    samples_collected: u64,
    rescan_interval: u64,
    bound: bool,
) -> (r: bool)
    requires
        rescan_interval > 0,
    ensures
        r == rescan_spec(has_pattern, samples_collected, rescan_interval, bound),
{
    has_pattern && (samples_collected == 0 || samples_collected % rescan_interval == 0 || !bound)
}

} // verus!
