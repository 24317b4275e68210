//! Byte-sequence utilities shared by the counter-file parsers: whitespace
//! tokenization, separator splitting, line splitting, substring search and
//! ASCII case folding.

use vstd::prelude::*;
use vstd::string::StringSliceAdditionalSpecFns;

verus! {

/// ASCII whitespace, as the kernel text files use it.
pub open spec fn is_ws_byte(b: u8) -> bool {
    b == 32 || b == 9 || b == 10 || b == 13 || b == 11 || b == 12
}

/// Index of the first occurrence of `b` in `s`, or `s.len()` if absent.
pub open spec fn find_byte(s: Seq<u8>, b: u8) -> int
    decreases s.len(),
{
    if s.len() == 0 {
        0
    } else if s[0] == b {
        0
    } else {
        1 + find_byte(s.drop_first(), b)
    }
}

pub proof fn lemma_find_byte(s: Seq<u8>, b: u8)
    ensures
        0 <= find_byte(s, b) <= s.len(),
        forall|j: int| 0 <= j < find_byte(s, b) ==> s[j] != b,
        find_byte(s, b) < s.len() ==> s[find_byte(s, b)] == b,
    decreases s.len(),
{
    if s.len() > 0 && s[0] != b {
        lemma_find_byte(s.drop_first(), b);
        assert forall|j: int| 0 <= j < find_byte(s, b) implies s[j] != b by {
            if j > 0 {
                assert(s.drop_first()[j - 1] != b);
            }
        }
    }
}

/// Splits `s` at every occurrence of `b`, keeping empty fields, as the
/// comma-separated rows of the detailed log are split.
pub open spec fn split_by(s: Seq<u8>, b: u8) -> Seq<Seq<u8>>
    decreases s.len(),
    via split_by_decreases
{
    let i = find_byte(s, b);
    if i >= s.len() {
        seq![s]
    } else {
        seq![s.take(i)] + split_by(s.skip(i + 1), b)
    }
}

#[via_fn]
proof fn split_by_decreases(s: Seq<u8>, b: u8) {
    lemma_find_byte(s, b);
}

pub proof fn lemma_split_by_len(s: Seq<u8>, b: u8)
    ensures
        split_by(s, b).len() >= 1,
    decreases s.len(),
{
    lemma_find_byte(s, b);
    let i = find_byte(s, b);
    if i < s.len() {
        lemma_split_by_len(s.skip(i + 1), b);
    }
}

/// Finds the first occurrence of `b` in `s` at or after `from`.
pub fn find_byte_from(s: &[u8], b: u8, from: usize) -> (r: usize)
    requires
        from <= s@.len(),
    ensures
        r == from + find_byte(s@.skip(from as int), b),
{
    proof {
        lemma_find_byte(s@.skip(from as int), b);
    }
    let mut i: usize = from;
    while i < s.len()
        invariant
            from <= i <= s@.len(),
            forall|j: int| from <= j < i ==> s@[j] != b,
        decreases s@.len() - i,
    {
        if s[i] == b {
            proof {
                lemma_find_byte_char(s@.skip(from as int), b, i - from);
            }
            return i;
        }
        i += 1;
    }
    proof {
        lemma_find_byte_char(s@.skip(from as int), b, i - from);
    }
    i
}

/// `find_byte` is pinned by the usual first-occurrence description.
pub proof fn lemma_find_byte_char(s: Seq<u8>, b: u8, j: int)
    requires
        0 <= j <= s.len(),
        forall|k: int| 0 <= k < j ==> s[k] != b,
        j == s.len() || s[j] == b,
    ensures
        find_byte(s, b) == j,
    decreases s.len(),
{
    if s.len() > 0 && s[0] != b {
        assert forall|k: int| 0 <= k < j - 1 implies s.drop_first()[k] != b by {
            assert(s[k + 1] != b);
        }
        lemma_find_byte_char(s.drop_first(), b, j - 1);
    }
}

/// Splits a byte string at every occurrence of `b`, keeping empty fields.
pub fn split_byte(s: &[u8], b: u8) -> (r: Vec<Vec<u8>>)
    ensures
        r@.map_values(|f: Vec<u8>| f@) == split_by(s@, b),
{
    let mut r: Vec<Vec<u8>> = Vec::new();
    let mut pos: usize = 0;
    proof {
        assert(s@.skip(0) =~= s@);
        assert(r@.map_values(|f: Vec<u8>| f@) + split_by(s@, b) =~= split_by(s@, b));
    }
    loop
        invariant
            pos <= s@.len(),
            split_by(s@, b) == r@.map_values(|f: Vec<u8>| f@) + split_by(
                s@.skip(pos as int),
                b,
            ),
        decreases s@.len() - pos,
    {
        let i = find_byte_from(s, b, pos);
        proof {
            lemma_find_byte(s@.skip(pos as int), b);
        }
        let mut field: Vec<u8> = Vec::new();
        let mut k: usize = pos;
        while k < i
            invariant
                pos <= k <= i,
                i <= s@.len(),
                field@ == s@.subrange(pos as int, k as int),
            decreases i - k,
        {
            field.push(s[k]);
            proof {
                assert(field@ =~= s@.subrange(pos as int, k + 1 as int));
            }
            k += 1;
        }
        if i == s.len() {
            proof {
                assert(field@ =~= s@.skip(pos as int));
                assert(r@.map_values(|f: Vec<u8>| f@).push(s@.skip(pos as int)) =~= r@.map_values(
                    |f: Vec<u8>| f@,
                ) + seq![s@.skip(pos as int)]);
                assert((r@.push(field)).map_values(|f: Vec<u8>| f@) =~= r@.map_values(
                    |f: Vec<u8>| f@,
                ).push(field@));
            }
            r.push(field);
            return r;
        }
        proof {
            let tail = s@.skip(pos as int);
            assert(field@ =~= tail.take(find_byte(tail, b)));
            assert(tail.skip(find_byte(tail, b) + 1) =~= s@.skip(i + 1 as int));
            assert((r@.push(field)).map_values(|f: Vec<u8>| f@) =~= r@.map_values(|f: Vec<u8>| f@)
                + seq![field@]);
            assert(r@.map_values(|f: Vec<u8>| f@) + split_by(tail, b) =~= (r@.push(
                field,
            )).map_values(|f: Vec<u8>| f@) + split_by(s@.skip(i + 1 as int), b));
        }
        r.push(field);
        pos = i + 1;
    }
}

/// A line's trailing carriage return is dropped, as `str::lines` drops it.
pub open spec fn strip_cr(l: Seq<u8>) -> Seq<u8> {
    if l.len() > 0 && l.last() == 13 {
        l.drop_last()
    } else {
        l
    }
}

/// The lines of a text file: split at each newline, no empty trailing line,
/// carriage returns stripped.
pub open spec fn lines_of(s: Seq<u8>) -> Seq<Seq<u8>> {
    if s.len() == 0 {
        Seq::empty()
    } else {
        let parts = split_by(s, 10);
        let kept = if s.last() == 10 {
            parts.drop_last()
        } else {
            parts
        };
        kept.map_values(|l: Seq<u8>| strip_cr(l))
    }
}

/// Splits a text file into lines.
pub fn split_lines(s: &[u8]) -> (r: Vec<Vec<u8>>)
    ensures
        r@.map_values(|f: Vec<u8>| f@) == lines_of(s@),
{
    if s.len() == 0 {
        let r: Vec<Vec<u8>> = Vec::new();
        proof {
            assert(r@.map_values(|f: Vec<u8>| f@) =~= lines_of(s@));
        }
        return r;
    }
    let mut parts = split_byte(s, 10);
    proof {
        lemma_split_by_len(s@, 10);
    }
    if s[s.len() - 1] == 10 {
        proof {
            assert((parts@.drop_last()).map_values(|f: Vec<u8>| f@) =~= parts@.map_values(
                |f: Vec<u8>| f@,
            ).drop_last());
        }
        parts.pop();
    }
    let ghost kept = parts@.map_values(|f: Vec<u8>| f@);
    let mut r: Vec<Vec<u8>> = Vec::new();
    let mut idx: usize = 0;
    while idx < parts.len()
        invariant
            idx <= parts@.len(),
            kept == parts@.map_values(|f: Vec<u8>| f@),
            r@.map_values(|f: Vec<u8>| f@) =~= kept.take(idx as int).map_values(
                |l: Seq<u8>| strip_cr(l),
            ),
        decreases parts@.len() - idx,
    {
        let line = &parts[idx];
        let mut stripped: Vec<u8> = line.clone();
        if stripped.len() > 0 && stripped[stripped.len() - 1] == 13 {
            stripped.pop();
        }
        proof {
            assert(stripped@ =~= strip_cr(kept[idx as int]));
            assert(kept.take(idx + 1 as int).map_values(|l: Seq<u8>| strip_cr(l)) =~= kept.take(
                idx as int,
            ).map_values(|l: Seq<u8>| strip_cr(l)).push(strip_cr(kept[idx as int])));
        }
        r.push(stripped);
        idx += 1;
    }
    proof {
        assert(kept.take(kept.len() as int) =~= kept);
        assert(r@.map_values(|f: Vec<u8>| f@) =~= kept.map_values(|l: Seq<u8>| strip_cr(l)));
    }
    r
}

/// Length of the leading run of non-whitespace bytes.
pub open spec fn run_len(s: Seq<u8>) -> int
    decreases s.len(),
{
    if s.len() == 0 {
        0
    } else if is_ws_byte(s[0]) {
        0
    } else {
        1 + run_len(s.drop_first())
    }
}

pub proof fn lemma_run_len(s: Seq<u8>)
    ensures
        0 <= run_len(s) <= s.len(),
        forall|j: int| 0 <= j < run_len(s) ==> !is_ws_byte(s[j]),
        run_len(s) < s.len() ==> is_ws_byte(s[run_len(s)]),
    decreases s.len(),
{
    if s.len() > 0 && !is_ws_byte(s[0]) {
        lemma_run_len(s.drop_first());
        assert forall|j: int| 0 <= j < run_len(s) implies !is_ws_byte(s[j]) by {
            if j > 0 {
                assert(!is_ws_byte(s.drop_first()[j - 1]));
            }
        }
    }
}

pub proof fn lemma_run_len_char(s: Seq<u8>, j: int)
    requires
        0 <= j <= s.len(),
        forall|k: int| 0 <= k < j ==> !is_ws_byte(s[k]),
        j == s.len() || is_ws_byte(s[j]),
    ensures
        run_len(s) == j,
    decreases s.len(),
{
    if s.len() > 0 && !is_ws_byte(s[0]) {
        assert forall|k: int| 0 <= k < j - 1 implies !is_ws_byte(s.drop_first()[k]) by {
            assert(!is_ws_byte(s[k + 1]));
        }
        lemma_run_len_char(s.drop_first(), j - 1);
    }
}

/// The whitespace-separated tokens of a line, in order, as
/// `str::split_whitespace` yields them.
pub open spec fn ws_tokens(s: Seq<u8>) -> Seq<Seq<u8>>
    decreases s.len(),
    via ws_tokens_decreases
{
    if s.len() == 0 {
        Seq::empty()
    } else if is_ws_byte(s[0]) {
        ws_tokens(s.drop_first())
    } else {
        seq![s.take(run_len(s))] + ws_tokens(s.skip(run_len(s)))
    }
}

#[via_fn]
proof fn ws_tokens_decreases(s: Seq<u8>) {
    lemma_run_len(s);
}

/// Splits a line into whitespace-separated tokens.
pub fn split_ws(s: &[u8]) -> (r: Vec<Vec<u8>>)
    ensures
        r@.map_values(|f: Vec<u8>| f@) == ws_tokens(s@),
{
    let mut r: Vec<Vec<u8>> = Vec::new();
    let mut pos: usize = 0;
    proof {
        assert(s@.skip(0) =~= s@);
        assert(r@.map_values(|f: Vec<u8>| f@) + ws_tokens(s@) =~= ws_tokens(s@));
    }
    loop
        invariant
            pos <= s@.len(),
            ws_tokens(s@) == r@.map_values(|f: Vec<u8>| f@) + ws_tokens(s@.skip(pos as int)),
        decreases s@.len() - pos,
    {
        let ghost pos0 = pos;
        // Skip the whitespace before the next token.
        while pos < s.len() && is_ws(s[pos])
            invariant
                pos0 <= pos <= s@.len(),
                ws_tokens(s@) == r@.map_values(|f: Vec<u8>| f@) + ws_tokens(s@.skip(pos as int)),
            decreases s@.len() - pos,
        {
            proof {
                assert(s@.skip(pos as int).drop_first() =~= s@.skip(pos + 1 as int));
            }
            pos += 1;
        }
        if pos == s.len() {
            proof {
                assert(r@.map_values(|f: Vec<u8>| f@) + ws_tokens(s@.skip(pos as int))
                    =~= r@.map_values(|f: Vec<u8>| f@));
            }
            return r;
        }
        let mut j: usize = pos;
        while j < s.len() && !is_ws(s[j])
            invariant
                pos <= j <= s@.len(),
                forall|k: int| pos <= k < j ==> !is_ws_byte(s@[k]),
            decreases s@.len() - j,
        {
            j += 1;
        }
        proof {
            lemma_run_len_char(s@.skip(pos as int), j - pos);
        }
        let mut tok: Vec<u8> = Vec::new();
        let mut k: usize = pos;
        while k < j
            invariant
                pos <= k <= j,
                j <= s@.len(),
                tok@ == s@.subrange(pos as int, k as int),
            decreases j - k,
        {
            tok.push(s[k]);
            proof {
                assert(tok@ =~= s@.subrange(pos as int, k + 1 as int));
            }
            k += 1;
        }
        proof {
            let tail = s@.skip(pos as int);
            assert(tok@ =~= tail.take(run_len(tail)));
            assert(tail.skip(run_len(tail)) =~= s@.skip(j as int));
            assert((r@.push(tok)).map_values(|f: Vec<u8>| f@) =~= r@.map_values(|f: Vec<u8>| f@)
                + seq![tok@]);
            assert(r@.map_values(|f: Vec<u8>| f@) + ws_tokens(tail) =~= (r@.push(tok)).map_values(
                |f: Vec<u8>| f@,
            ) + ws_tokens(s@.skip(j as int)));
            if j == pos {
                assert(is_ws_byte(s@[pos as int]));
            }
            assert(j > pos);
        }
        r.push(tok);
        pos = j;
    }
}

/// Tests a byte for ASCII whitespace.
pub fn is_ws(b: u8) -> (r: bool)
    ensures
        r == is_ws_byte(b),
{
    b == 32 || b == 9 || b == 10 || b == 13 || b == 11 || b == 12
}

/// `n` occurs in `h` starting at position `i`.
pub open spec fn is_sub_at(h: Seq<u8>, n: Seq<u8>, i: int) -> bool {
    0 <= i && i + n.len() <= h.len() && h.subrange(i, i + n.len()) == n
}

/// `n` occurs somewhere in `h`.
pub open spec fn contains_seq(h: Seq<u8>, n: Seq<u8>) -> bool {
    exists|i: int| is_sub_at(h, n, i)
}

/// Substring search.
pub fn contains_sub(h: &[u8], n: &[u8]) -> (r: bool)
    ensures
        r == contains_seq(h@, n@),
{
    if n.len() > h.len() {
        proof {
            assert forall|i: int| !is_sub_at(h@, n@, i) by {}
        }
        return false;
    }
    let hlen = h.len();
    let mut i: usize = 0;
    while i <= h.len() - n.len()
        invariant
            n@.len() <= h@.len(),
            i <= h@.len() - n@.len() + 1,
            forall|p: int| 0 <= p < i ==> !is_sub_at(h@, n@, p),
        decreases h@.len() - i,
    {
        let mut j: usize = 0;
        let mut matched = true;
        proof {
            assert(h@.subrange(i as int, i as int) =~= n@.take(0));
        }
        while j < n.len()
            invariant
                i + n@.len() <= h@.len(),
                h@.len() <= usize::MAX,
                j <= n@.len(),
                matched == (h@.subrange(i as int, i + j as int) == n@.take(j as int)),
            decreases n@.len() - j,
        {
            proof {
                assert(i + j < h@.len());
            }
            let same = h[i + j] == n[j];
            proof {
                assert(h@.subrange(i as int, i + j + 1 as int) =~= h@.subrange(
                    i as int,
                    i + j as int,
                ).push(h@[i + j]));
                assert(n@.take(j + 1 as int) =~= n@.take(j as int).push(n@[j as int]));
                if matched && !same {
                    assert(h@.subrange(i as int, i + j + 1 as int)[j as int] != n@.take(
                        j + 1 as int,
                    )[j as int]);
                }
                if !matched {
                    assert(h@.subrange(i as int, i + j as int) != n@.take(j as int));
                    if h@.subrange(i as int, i + j + 1 as int) == n@.take(j + 1 as int) {
                        assert(h@.subrange(i as int, i + j + 1 as int).take(j as int) =~= h@
                            .subrange(i as int, i + j as int));
                        assert(n@.take(j + 1 as int).take(j as int) =~= n@.take(j as int));
                    }
                }
            }
            matched = matched && same;
            j += 1;
        }
        if matched {
            proof {
                assert(n@.take(n@.len() as int) =~= n@);
                assert(is_sub_at(h@, n@, i as int));
            }
            return true;
        }
        proof {
            assert(n@.take(n@.len() as int) =~= n@);
        }
        i += 1;
    }
    proof {
        assert forall|p: int| !is_sub_at(h@, n@, p) by {
            if 0 <= p && p + n@.len() <= h@.len() {
                assert(!is_sub_at(h@, n@, p));
            }
        }
    }
    false
}

/// ASCII lower-casing of one byte.
pub open spec fn lower_byte(b: u8) -> u8 {
    if 65 <= b <= 90 {
        (b + 32) as u8
    } else {
        b
    }
}

/// ASCII lower-casing of a byte string; bytes outside `A`..`Z` are kept.
pub fn to_lower(s: &[u8]) -> (r: Vec<u8>)
    ensures
        r@ == s@.map_values(|b: u8| lower_byte(b)),
{
    let mut r: Vec<u8> = Vec::new();
    let mut i: usize = 0;
    while i < s.len()
        invariant
            i <= s@.len(),
            r@ =~= s@.take(i as int).map_values(|b: u8| lower_byte(b)),
        decreases s@.len() - i,
    {
        let b = s[i];
        if 65 <= b && b <= 90 {
            r.push(b + 32);
        } else {
            r.push(b);
        }
        proof {
            assert(s@.take(i + 1 as int).map_values(|b: u8| lower_byte(b)) =~= s@.take(
                i as int,
            ).map_values(|b: u8| lower_byte(b)).push(lower_byte(s@[i as int])));
        }
        i += 1;
    }
    proof {
        assert(s@.take(s@.len() as int) =~= s@);
    }
    r
}

/// The string with its leading and trailing ASCII whitespace removed.
pub open spec fn trim_spec(s: Seq<u8>) -> Seq<u8>
    decreases s.len(),
{
    if s.len() > 0 && is_ws_byte(s[0]) {
        trim_spec(s.drop_first())
    } else if s.len() > 0 && is_ws_byte(s.last()) {
        trim_spec(s.drop_last())
    } else {
        s
    }
}

proof fn lemma_trim_at(s: Seq<u8>, a: int, b: int)
    requires
        0 <= a <= b < s.len(),
        !is_ws_byte(s[a]),
        !is_ws_byte(s[b]),
        forall|j: int| 0 <= j < a ==> is_ws_byte(s[j]),
        forall|j: int| b < j < s.len() ==> is_ws_byte(s[j]),
    ensures
        trim_spec(s) == s.subrange(a, b + 1),
    decreases s.len(),
{
    if is_ws_byte(s[0]) {
        lemma_trim_at(s.drop_first(), a - 1, b - 1);
        assert(s.drop_first().subrange(a - 1, b) =~= s.subrange(a, b + 1));
    } else if is_ws_byte(s.last()) {
        lemma_trim_at(s.drop_last(), a, b);
        assert(s.drop_last().subrange(a, b + 1) =~= s.subrange(a, b + 1));
    } else {
        assert(s.subrange(0, s.len() as int) =~= s);
    }
}

/// Strips leading and trailing ASCII whitespace.
pub fn trim(s: &[u8]) -> (r: Vec<u8>)
    ensures
        r@ == trim_spec(s@),
{
    let mut a: usize = 0;
    while a < s.len() && is_ws(s[a])
        invariant
            a <= s@.len(),
            forall|j: int| 0 <= j < a ==> is_ws_byte(s@[j]),
        decreases s@.len() - a,
    {
        a += 1;
    }
    if a == s.len() {
        proof {
            lemma_trim_all_ws(s@);
        }
        return Vec::new();
    }
    let mut b: usize = s.len() - 1;
    while b > a && is_ws(s[b])
        invariant
            a <= b < s@.len(),
            forall|j: int| b < j < s@.len() ==> is_ws_byte(s@[j]),
        decreases b,
    {
        b -= 1;
    }
    proof {
        lemma_trim_at(s@, a as int, b as int);
    }
    subrange_vec(s, a, b + 1)
}

/// An all-whitespace string trims to nothing.
proof fn lemma_trim_all_ws(s: Seq<u8>)
    requires
        forall|j: int| 0 <= j < s.len() ==> is_ws_byte(s[j]),
    ensures
        trim_spec(s) == Seq::<u8>::empty(),
    decreases s.len(),
{
    if s.len() > 0 {
        lemma_trim_all_ws(s.drop_first());
        assert(trim_spec(s) =~= Seq::<u8>::empty());
    } else {
        assert(trim_spec(s) =~= Seq::<u8>::empty());
    }
}

/// The bytes of an ASCII character sequence.
pub open spec fn ascii_bytes(s: Seq<char>) -> Seq<u8> {
    s.map_values(|c: char| c as u8)
}

/// The bytes of an ASCII string literal.
pub fn str_bytes(s: &str) -> (r: Vec<u8>)
    requires
        s.is_ascii(),
    ensures
        r@ == ascii_bytes(s@),
{
    proof {
        broadcast use vstd::string::is_ascii_spec_bytes;

        assert(s.spec_bytes() =~= ascii_bytes(s@));
    }
    vstd::slice::slice_to_vec(s.as_bytes())
}

/// `p` is a prefix of `s`.
pub open spec fn has_prefix(s: Seq<u8>, p: Seq<u8>) -> bool {
    p.len() <= s.len() && s.take(p.len() as int) == p
}

/// `p` is a suffix of `s`.
pub open spec fn has_suffix(s: Seq<u8>, p: Seq<u8>) -> bool {
    p.len() <= s.len() && s.skip(s.len() - p.len()) == p
}

/// Prefix test.
pub fn starts_with(s: &[u8], p: &[u8]) -> (r: bool)
    ensures
        r == has_prefix(s@, p@),
{
    if p.len() > s.len() {
        return false;
    }
    let mut i: usize = 0;
    while i < p.len()
        invariant
            p@.len() <= s@.len(),
            i <= p@.len(),
            s@.take(i as int) =~= p@.take(i as int),
        decreases p@.len() - i,
    {
        if s[i] != p[i] {
            proof {
                assert(s@.take(p@.len() as int)[i as int] != p@[i as int]);
            }
            return false;
        }
        proof {
            assert(s@.take(i + 1 as int) =~= s@.take(i as int).push(s@[i as int]));
            assert(p@.take(i + 1 as int) =~= p@.take(i as int).push(p@[i as int]));
        }
        i += 1;
    }
    proof {
        assert(p@.take(p@.len() as int) =~= p@);
    }
    true
}

/// Suffix test.
pub fn ends_with(s: &[u8], p: &[u8]) -> (r: bool)
    ensures
        r == has_suffix(s@, p@),
{
    if p.len() > s.len() {
        return false;
    }
    let off = s.len() - p.len();
    let mut i: usize = 0;
    while i < p.len()
        invariant
            p@.len() <= s@.len(),
            s@.len() <= usize::MAX,
            off == s@.len() - p@.len(),
            i <= p@.len(),
            s@.skip(off as int).take(i as int) =~= p@.take(i as int),
        decreases p@.len() - i,
    {
        proof {
            assert(off + i < s@.len());
        }
        if s[off + i] != p[i] {
            proof {
                assert(s@.skip(off as int)[i as int] != p@[i as int]);
            }
            return false;
        }
        proof {
            assert(s@.skip(off as int).take(i + 1 as int) =~= s@.skip(off as int).take(
                i as int,
            ).push(s@.skip(off as int)[i as int]));
            assert(p@.take(i + 1 as int) =~= p@.take(i as int).push(p@[i as int]));
        }
        i += 1;
    }
    proof {
        assert(s@.skip(off as int).take(p@.len() as int) =~= s@.skip(off as int));
        assert(p@.take(p@.len() as int) =~= p@);
    }
    true
}

/// Copies the bytes of `s` between `from` and `to`.
pub fn subrange_vec(s: &[u8], from: usize, to: usize) -> (r: Vec<u8>)
    requires
        from <= to <= s@.len(),
    ensures
        r@ == s@.subrange(from as int, to as int),
{
    let mut r: Vec<u8> = Vec::new();
    let mut i: usize = from;
    while i < to
        invariant
            from <= i <= to <= s@.len(),
            r@ == s@.subrange(from as int, i as int),
        decreases to - i,
    {
        r.push(s[i]);
        proof {
            assert(s@.subrange(from as int, i + 1 as int) =~= s@.subrange(
                from as int,
                i as int,
            ).push(s@[i as int]));
        }
        i += 1;
    }
    r
}

/// Byte-string equality.
pub fn bytes_eq(a: &[u8], b: &[u8]) -> (r: bool)
    ensures
        r == (a@ == b@),
{
    if a.len() != b.len() {
        return false;
    }
    let mut i: usize = 0;
    while i < a.len()
        invariant
            a@.len() == b@.len(),
            i <= a@.len(),
            a@.take(i as int) =~= b@.take(i as int),
        decreases a@.len() - i,
    {
        if a[i] != b[i] {
            proof {
                assert(a@.take(a@.len() as int) =~= a@);
                assert(b@.take(b@.len() as int) =~= b@);
            }
            return false;
        }
        proof {
            assert(a@.take(i + 1 as int) =~= a@.take(i as int).push(a@[i as int]));
            assert(b@.take(i + 1 as int) =~= b@.take(i as int).push(b@[i as int]));
        }
        i += 1;
    }
    proof {
        assert(a@.take(a@.len() as int) =~= a@);
        assert(b@.take(b@.len() as int) =~= b@);
    }
    true
}

} // verus!
