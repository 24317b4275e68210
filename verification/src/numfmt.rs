//! Decimal formatting and tolerant parsing of the counter and rate fields.
//!
//! Rates and percentages are carried as fixed-point integers: a value scaled
//! by ten, a hundred or a thousand, printed with one, two or three decimal
//! places.  Formatting and parsing are exact inverses on such values, which
//! is what lets a detailed-log row be re-read without loss.

use vstd::prelude::*;
use vstd::arithmetic::div_mod::lemma_fundamental_div_mod;
use crate::bytes::find_byte;
use crate::bytes::lemma_find_byte_char;

verus! {

/// The decimal digits of `n`, most significant first.
pub open spec fn dec_digits(n: nat) -> Seq<u8>
    decreases n,
{
    if n < 10 {
        seq![(48 + n) as u8]
    } else {
        dec_digits(n / 10).push((48 + n % 10) as u8)
    }
}

pub open spec fn is_digit(b: u8) -> bool {
    48 <= b <= 57
}

pub open spec fn all_digits(s: Seq<u8>) -> bool {
    forall|i: int| 0 <= i < s.len() ==> is_digit(s[i])
}

/// The value of a digit string, most significant first.
pub open spec fn dec_val(s: Seq<u8>) -> int
    decreases s.len(),
{
    if s.len() == 0 {
        0
    } else {
        dec_val(s.drop_last()) * 10 + s.last() - 48
    }
}

pub proof fn lemma_dec_digits_wf(n: nat)
    ensures
        dec_digits(n).len() >= 1,
        all_digits(dec_digits(n)),
    decreases n,
{
    if n >= 10 {
        lemma_dec_digits_wf(n / 10);
        assert forall|i: int| 0 <= i < dec_digits(n).len() implies is_digit(dec_digits(n)[i]) by {
            if i < dec_digits(n).len() - 1 {
                assert(dec_digits(n)[i] == dec_digits(n / 10)[i]);
            }
        }
    }
}

/// Formatting then evaluating a number gives the number back.
pub proof fn lemma_dec_val_of_digits(n: nat)
    ensures
        dec_val(dec_digits(n)) == n,
    decreases n,
{
    if n < 10 {
        assert(dec_val(Seq::<u8>::empty()) == 0);
        assert(dec_digits(n).drop_last() =~= Seq::<u8>::empty());
        assert(dec_digits(n).last() == (48 + n) as u8);
    } else {
        lemma_dec_val_of_digits(n / 10);
        assert(dec_digits(n).drop_last() =~= dec_digits(n / 10));
        assert(dec_digits(n).last() == (48 + n % 10) as u8);
        lemma_fundamental_div_mod(n as int, 10);
        assert(dec_val(dec_digits(n)) == (n / 10) * 10 + n % 10);
    }
}

/// Writes `n` in decimal.
pub fn fmt_u64(n: u64) -> (r: Vec<u8>)
    ensures
        r@ == dec_digits(n as nat),
    decreases n,
{
    if n < 10 {
        let mut r: Vec<u8> = Vec::new();
        r.push(48 + n as u8);
        proof {
            assert(r@ =~= dec_digits(n as nat));
        }
        r
    } else {
        let mut r = fmt_u64(n / 10);
        r.push(48 + (n % 10) as u8);
        r
    }
}

/// Powers of ten.
pub open spec fn pow10(k: nat) -> nat
    decreases k,
{
    if k == 0 {
        1
    } else {
        10 * pow10((k - 1) as nat)
    }
}

/// `v` written with exactly `k` digits (leading zeros kept), for `v < pow10(k)`.
pub open spec fn fixed_digits(v: nat, k: nat) -> Seq<u8>
    decreases k,
{
    if k == 0 {
        Seq::empty()
    } else {
        fixed_digits(v / 10, (k - 1) as nat).push((48 + v % 10) as u8)
    }
}

pub proof fn lemma_fixed_digits_wf(v: nat, k: nat)
    ensures
        fixed_digits(v, k).len() == k,
        all_digits(fixed_digits(v, k)),
    decreases k,
{
    if k > 0 {
        lemma_fixed_digits_wf(v / 10, (k - 1) as nat);
        assert forall|i: int| 0 <= i < k implies is_digit(fixed_digits(v, k)[i]) by {
            if i < k - 1 {
                assert(fixed_digits(v, k)[i] == fixed_digits(v / 10, (k - 1) as nat)[i]);
            }
        }
    }
}

pub proof fn lemma_fixed_val_of_digits(v: nat, k: nat)
    requires
        v < pow10(k),
    ensures
        dec_val(fixed_digits(v, k)) == v,
    decreases k,
{
    if k > 0 {
        assert(pow10(k) == 10 * pow10((k - 1) as nat));
        lemma_fundamental_div_mod(v as int, 10);
        assert(v / 10 < pow10((k - 1) as nat)) by {
            if v / 10 >= pow10((k - 1) as nat) {
                assert(v >= (v / 10) * 10) by {
                    lemma_fundamental_div_mod(v as int, 10);
                }
                assert((v / 10) * 10 >= pow10((k - 1) as nat) * 10) by (nonlinear_arith)
                    requires
                        v / 10 >= pow10((k - 1) as nat),
                {}
            }
        }
        lemma_fixed_val_of_digits(v / 10, (k - 1) as nat);
        assert(fixed_digits(v, k).drop_last() =~= fixed_digits(v / 10, (k - 1) as nat));
    }
}

/// Writes `v` with exactly `k` digits, leading zeros kept.
pub fn fmt_fixed_digits(v: u64, k: u64) -> (r: Vec<u8>)
    ensures
        r@ == fixed_digits(v as nat, k as nat),
    decreases k,
{
    if k == 0 {
        let r: Vec<u8> = Vec::new();
        proof {
            assert(r@ =~= fixed_digits(v as nat, 0));
        }
        r
    } else {
        let mut r = fmt_fixed_digits(v / 10, k - 1);
        r.push(48 + (v % 10) as u8);
        r
    }
}

/// A fixed-point value `v` (scaled by `pow10(k)`) written with `k` decimal
/// places: integer part, a dot, then exactly `k` fraction digits.
pub open spec fn fmt_fixed_spec(v: nat, k: nat) -> Seq<u8> {
    dec_digits(v / pow10(k)) + seq![46u8] + fixed_digits(v % pow10(k), k)
}

/// Computes `pow10(k)` for the small scales in use.
pub fn pow10_u64(k: u64) -> (r: u64)
    requires
        k <= 3,
    ensures
        r == pow10(k as nat),
{
    proof {
        assert(pow10(1) == 10 * pow10(0));
        assert(pow10(2) == 10 * pow10(1));
        assert(pow10(3) == 10 * pow10(2));
    }
    if k == 0 {
        1
    } else if k == 1 {
        10
    } else if k == 2 {
        100
    } else {
        1000
    }
}

/// Writes a fixed-point value with `k` decimal places.
pub fn fmt_fixed(v: u64, k: u64) -> (r: Vec<u8>)
    requires
        1 <= k <= 3,
    ensures
        r@ == fmt_fixed_spec(v as nat, k as nat),
{
    let p = pow10_u64(k);
    proof {
        assert(pow10(k as nat) >= 10) by {
            assert(pow10(1) == 10 * pow10(0));
            assert(pow10(2) == 10 * pow10(1));
            assert(pow10(3) == 10 * pow10(2));
        }
    }
    let mut r = fmt_u64(v / p);
    r.push(46);
    let mut frac = fmt_fixed_digits(v % p, k);
    r.append(&mut frac);
    proof {
        assert(r@ =~= fmt_fixed_spec(v as nat, k as nat));
    }
    r
}

/// What tolerant parsing of a digit string yields: the value when the string
/// is non-empty, all digits, and in range; `None` otherwise.
pub open spec fn digits_val(s: Seq<u8>) -> Option<u64> {
    if s.len() > 0 && all_digits(s) && dec_val(s) <= u64::MAX {
        Some(dec_val(s) as u64)
    } else {
        None
    }
}

/// A longer digit string never has a smaller value.
pub proof fn lemma_dec_val_grows(s: Seq<u8>, i: int)
    requires
        all_digits(s),
        0 <= i <= s.len(),
    ensures
        dec_val(s) >= dec_val(s.take(i)),
        dec_val(s) >= 0,
    decreases s.len() - i,
{
    if i == s.len() {
        assert(s.take(i) =~= s);
        lemma_dec_val_nonneg(s);
    } else {
        lemma_dec_val_grows(s, i + 1);
        assert(s.take(i + 1).drop_last() =~= s.take(i));
        lemma_dec_val_nonneg(s.take(i));
    }
}

pub proof fn lemma_dec_val_nonneg(s: Seq<u8>)
    requires
        all_digits(s),
    ensures
        dec_val(s) >= 0,
    decreases s.len(),
{
    if s.len() > 0 {
        assert(all_digits(s.drop_last())) by {
            assert(forall|i: int| 0 <= i < s.len() - 1 ==> s.drop_last()[i] == s[i]);
        }
        lemma_dec_val_nonneg(s.drop_last());
    }
}

/// Parses a digit string, rejecting empty, non-digit, or out-of-range input.
pub fn parse_digits(s: &[u8]) -> (r: Option<u64>)
    ensures
        r == digits_val(s@),
{
    if s.len() == 0 {
        return None;
    }
    let mut acc: u64 = 0;
    let mut i: usize = 0;
    while i < s.len()
        invariant
            0 < s@.len() <= usize::MAX,
            i <= s@.len(),
            all_digits(s@.take(i as int)),
            acc == dec_val(s@.take(i as int)),
        decreases s@.len() - i,
    {
        let b = s[i];
        if b < 48 || b > 57 {
            proof {
                assert(!is_digit(s@[i as int]));
            }
            return None;
        }
        let d = (b - 48) as u64;
        proof {
            assert(s@.take(i + 1 as int).drop_last() =~= s@.take(i as int));
            assert(all_digits(s@.take(i + 1 as int)));
        }
        let m = match acc.checked_mul(10) {
            Some(m) => m,
            None => {
                proof {
                    lemma_dec_val_nonneg(s@.take(i as int));
                    assert(dec_val(s@.take(i + 1 as int)) > u64::MAX);
                    lemma_overflow_prefix(s@, i + 1 as int);
                }
                return None;
            },
        };
        let a = match m.checked_add(d) {
            Some(a) => a,
            None => {
                proof {
                    assert(dec_val(s@.take(i + 1 as int)) > u64::MAX);
                    lemma_overflow_prefix(s@, i + 1 as int);
                }
                return None;
            },
        };
        acc = a;
        i += 1;
    }
    proof {
        assert(s@.take(s@.len() as int) =~= s@);
    }
    Some(acc)
}

/// If a prefix of a digit string already exceeds `u64::MAX`, so does the
/// whole string, and if a byte is not a digit the string is not all digits;
/// either way tolerant parsing yields nothing.
proof fn lemma_overflow_prefix(s: Seq<u8>, i: int)
    requires
        0 <= i <= s.len(),
        all_digits(s.take(i)),
        dec_val(s.take(i)) > u64::MAX,
    ensures
        digits_val(s) is None,
{
    if all_digits(s) {
        lemma_dec_val_grows(s, i);
    }
}

/// Tolerant integer parsing: a malformed or out-of-range counter field
/// defaults to zero rather than failing the sample.
pub open spec fn parse_u64_spec(s: Seq<u8>) -> u64 {
    match digits_val(s) {
        Some(v) => v,
        None => 0,
    }
}

/// Parses a decimal counter field, defaulting to zero on malformed input.
pub fn parse_u64(s: &[u8]) -> (r: u64)
    ensures
        r == parse_u64_spec(s@),
{
    match parse_digits(s) {
        Some(v) => v,
        None => 0,
    }
}

/// What tolerant parsing of a fixed-point field with `k` decimal places
/// yields, scaled by `pow10(k)`.  A bare integer is accepted; a dotted form
/// must carry exactly `k` fraction digits; anything else is zero.
pub open spec fn parse_fixed_spec(s: Seq<u8>, k: nat) -> u64 {
    let i = find_byte(s, 46);
    if i >= s.len() {
        if digits_val(s) is Some && dec_val(s) * pow10(k) <= u64::MAX {
            (dec_val(s) * pow10(k)) as u64
        } else {
            0
        }
    } else {
        let ip = s.take(i);
        let fp = s.skip(i + 1);
        if digits_val(ip) is Some && fp.len() == k && all_digits(fp) && dec_val(ip) * pow10(k)
            + dec_val(fp) <= u64::MAX {
            (dec_val(ip) * pow10(k) + dec_val(fp)) as u64
        } else {
            0
        }
    }
}

/// Parses a fixed-point field with `k` decimal places, defaulting to zero.
pub fn parse_fixed(s: &[u8], k: u64) -> (r: u64)
    requires
        1 <= k <= 3,
    ensures
        r == parse_fixed_spec(s@, k as nat),
{
    let p = pow10_u64(k);
    let i = crate::bytes::find_byte_from(s, 46, 0);
    proof {
        assert(s@.skip(0) =~= s@);
        crate::bytes::lemma_find_byte(s@, 46);
    }
    if i == s.len() {
        match parse_digits(s) {
            Some(v) => {
                proof {
                    lemma_dec_val_nonneg(s@);
                }
                match v.checked_mul(p) {
                    Some(r) => r,
                    None => {
                        proof {
                            lemma_dec_val_nonneg(s@);
                        }
                        0
                    },
                }
            },
            None => 0,
        }
    } else {
        let ip = crate::bytes::subrange_vec(s, 0, i);
        let fp = crate::bytes::subrange_vec(s, i + 1, s.len());
        proof {
            assert(ip@ =~= s@.take(i as int));
            assert(fp@ =~= s@.skip(i + 1));
        }
        let iv = match parse_digits(ip.as_slice()) {
            Some(v) => v,
            None => {
                return 0;
            },
        };
        proof {
            lemma_dec_val_nonneg(ip@);
        }
        if fp.len() != k as usize {
            return 0;
        }
        let fv = match parse_digits(fp.as_slice()) {
            Some(v) => v,
            None => {
                // A fraction of at most three digits always parses unless a
                // byte is not a digit.
                proof {
                    if all_digits(fp@) {
                        lemma_dec_val_bound(fp@);
                        assert(pow10(1) == 10 * pow10(0));
                        assert(pow10(2) == 10 * pow10(1));
                        assert(pow10(3) == 10 * pow10(2));
                    }
                }
                return 0;
            },
        };
        proof {
            lemma_dec_val_nonneg(ip@);
            lemma_dec_val_nonneg(fp@);
        }
        let m = match iv.checked_mul(p) {
            Some(m) => m,
            None => {
                return 0;
            },
        };
        match m.checked_add(fv) {
            Some(r) => r,
            None => 0,
        }
    }
}

/// What strict parsing of a fixed-point field yields: the scaled value, or
/// nothing when the field is malformed or out of range.
pub open spec fn fixed_opt_spec(s: Seq<u8>, k: nat) -> Option<u64> {
    let i = find_byte(s, 46);
    if i >= s.len() {
        if digits_val(s) is Some && dec_val(s) * pow10(k) <= u64::MAX {
            Some((dec_val(s) * pow10(k)) as u64)
        } else {
            None
        }
    } else {
        let ip = s.take(i);
        let fp = s.skip(i + 1);
        if digits_val(ip) is Some && fp.len() == k && all_digits(fp) && dec_val(ip) * pow10(k)
            + dec_val(fp) <= u64::MAX {
            Some((dec_val(ip) * pow10(k) + dec_val(fp)) as u64)
        } else {
            None
        }
    }
}

/// Parses a fixed-point field strictly, rejecting malformed input.
pub fn parse_fixed_opt(s: &[u8], k: u64) -> (r: Option<u64>)
    requires
        1 <= k <= 3,
    ensures
        r == fixed_opt_spec(s@, k as nat),
{
    let p = pow10_u64(k);
    let i = crate::bytes::find_byte_from(s, 46, 0);
    proof {
        assert(s@.skip(0) =~= s@);
        crate::bytes::lemma_find_byte(s@, 46);
    }
    if i == s.len() {
        match parse_digits(s) {
            Some(v) => {
                proof {
                    lemma_dec_val_nonneg(s@);
                }
                v.checked_mul(p)
            },
            None => None,
        }
    } else {
        let ip = crate::bytes::subrange_vec(s, 0, i);
        let fp = crate::bytes::subrange_vec(s, i + 1, s.len());
        proof {
            assert(ip@ =~= s@.take(i as int));
            assert(fp@ =~= s@.skip(i + 1));
        }
        let iv = match parse_digits(ip.as_slice()) {
            Some(v) => v,
            None => {
                return None;
            },
        };
        proof {
            lemma_dec_val_nonneg(ip@);
        }
        if fp.len() != k as usize {
            return None;
        }
        let fv = match parse_digits(fp.as_slice()) {
            Some(v) => v,
            None => {
                proof {
                    if all_digits(fp@) {
                        lemma_dec_val_bound(fp@);
                        assert(pow10(1) == 10 * pow10(0));
                        assert(pow10(2) == 10 * pow10(1));
                        assert(pow10(3) == 10 * pow10(2));
                    }
                }
                return None;
            },
        };
        proof {
            lemma_dec_val_nonneg(fp@);
        }
        match iv.checked_mul(p) {
            Some(m) => m.checked_add(fv),
            None => None,
        }
    }
}

/// A digit string's value is below `pow10` of its length.
pub proof fn lemma_dec_val_bound(s: Seq<u8>)
    requires
        all_digits(s),
    ensures
        0 <= dec_val(s) < pow10(s.len()),
    decreases s.len(),
{
    if s.len() > 0 {
        assert(all_digits(s.drop_last())) by {
            assert(forall|i: int| 0 <= i < s.len() - 1 ==> s.drop_last()[i] == s[i]);
        }
        lemma_dec_val_bound(s.drop_last());
        assert(pow10(s.len()) == 10 * pow10((s.len() - 1) as nat));
        assert(dec_val(s.drop_last()) * 10 <= (pow10((s.len() - 1) as nat) - 1) * 10)
            by (nonlinear_arith)
            requires
                dec_val(s.drop_last()) <= pow10((s.len() - 1) as nat) - 1,
        {}
    }
}

/// Round trip: a fixed-point value written with `k` decimal places parses
/// back to exactly the same value.
pub proof fn lemma_fixed_round_trip(v: u64, k: nat)
    requires
        1 <= k <= 3,
    ensures
        parse_fixed_spec(fmt_fixed_spec(v as nat, k), k) == v,
{
    let p = pow10(k);
    assert(p >= 10 && p <= 1000) by {
        assert(pow10(1) == 10 * pow10(0));
        assert(pow10(2) == 10 * pow10(1));
        assert(pow10(3) == 10 * pow10(2));
    }
    let ip = dec_digits((v as nat) / p);
    let fp = fixed_digits((v as nat) % p, k);
    let s = fmt_fixed_spec(v as nat, k);
    lemma_dec_digits_wf((v as nat) / p);
    lemma_fixed_digits_wf((v as nat) % p, k);
    assert forall|j: int| 0 <= j < ip.len() implies s[j] != 46 by {
        assert(is_digit(ip[j]));
        assert(s[j] == ip[j]);
    }
    assert(s[ip.len() as int] == 46);
    lemma_find_byte_char(s, 46, ip.len() as int);
    assert(s.take(ip.len() as int) =~= ip);
    assert(s.skip(ip.len() as int + 1) =~= fp);
    lemma_dec_val_of_digits((v as nat) / p);
    lemma_mod_bound(v as nat, p);
    lemma_fixed_val_of_digits((v as nat) % p, k);
    lemma_fundamental_div_mod(v as int, p as int);
    assert(p * ((v as nat) / p) == ((v as nat) / p) * p) by (nonlinear_arith);
    assert(dec_val(ip) * p + dec_val(fp) == v);
}

/// The remainder of division by a positive number is below it.
proof fn lemma_mod_bound(n: nat, p: nat)
    requires
        p > 0,
    ensures
        n % p < p,
{
}

/// Round trip for whole counters: a decimal rendering parses back exactly.
pub proof fn lemma_u64_round_trip(v: u64)
    ensures
        parse_u64_spec(dec_digits(v as nat)) == v,
{
    lemma_dec_digits_wf(v as nat);
    lemma_dec_val_of_digits(v as nat);
}

/// Left-pads a field with spaces to `width`, as the fixed-width summary log
/// aligns its columns.
pub open spec fn pad_left_spec(s: Seq<u8>, width: nat) -> Seq<u8> {
    if s.len() >= width {
        s
    } else {
        Seq::new((width - s.len()) as nat, |i: int| 32u8) + s
    }
}

/// Left-pads a field with spaces to `width`.
pub fn pad_left(s: Vec<u8>, width: usize) -> (r: Vec<u8>)
    ensures
        r@ == pad_left_spec(s@, width as nat),
{
    if s.len() >= width {
        return s;
    }
    let mut r: Vec<u8> = Vec::new();
    let pad = width - s.len();
    let mut i: usize = 0;
    while i < pad
        invariant
            i <= pad,
            r@ =~= Seq::new(i as nat, |j: int| 32u8),
        decreases pad - i,
    {
        r.push(32);
        proof {
            assert(r@ =~= Seq::new((i + 1) as nat, |j: int| 32u8));
        }
        i += 1;
    }
    let mut tail = s;
    r.append(&mut tail);
    r
}

/// Right-pads a field with spaces to `width`, as left-aligned columns are
/// laid out.
pub open spec fn pad_right_spec(s: Seq<u8>, width: nat) -> Seq<u8> {
    if s.len() >= width {
        s
    } else {
        s + Seq::new((width - s.len()) as nat, |i: int| 32u8)
    }
}

/// Right-pads a field with spaces to `width`.
pub fn pad_right(s: Vec<u8>, width: usize) -> (r: Vec<u8>)
    ensures
        r@ == pad_right_spec(s@, width as nat),
{
    if s.len() >= width {
        return s;
    }
    let pad = width - s.len();
    let ghost base = s@;
    let mut r = s;
    let mut i: usize = 0;
    proof {
        assert(r@ =~= base + Seq::new(0, |j: int| 32u8));
    }
    while i < pad
        invariant
            i <= pad,
            base.len() + pad == width,
            r@ == base + Seq::new(i as nat, |j: int| 32u8),
        decreases pad - i,
    {
        r.push(32);
        proof {
            assert(base + Seq::new((i + 1) as nat, |j: int| 32u8) =~= (base + Seq::new(
                i as nat,
                |j: int| 32u8,
            )).push(32u8));
        }
        i += 1;
    }
    proof {
        assert(r@ =~= pad_right_spec(base, width as nat));
    }
    r
}

/// The fields of a separated row, joined with the separator.
pub open spec fn join_seqs(fs: Seq<Seq<u8>>, sep: u8) -> Seq<u8>
    decreases fs.len(),
{
    if fs.len() == 0 {
        Seq::empty()
    } else if fs.len() == 1 {
        fs[0]
    } else {
        fs[0] + seq![sep] + join_seqs(fs.drop_first(), sep)
    }
}

pub proof fn lemma_join_push(fs: Seq<Seq<u8>>, x: Seq<u8>, sep: u8)
    ensures
        fs.len() == 0 ==> join_seqs(fs.push(x), sep) == x,
        fs.len() > 0 ==> join_seqs(fs.push(x), sep) == join_seqs(fs, sep) + seq![sep] + x,
    decreases fs.len(),
{
    if fs.len() == 0 {
        assert(join_seqs(fs.push(x), sep) == fs.push(x)[0]);
        assert(fs.push(x)[0] == x);
    } else if fs.len() == 1 {
        assert(fs.push(x).drop_first() =~= seq![x]);
        assert(join_seqs(seq![x], sep) == x);
        assert(fs.push(x)[0] == fs[0]);
        assert(join_seqs(fs.push(x), sep) == fs[0] + seq![sep] + x);
    } else {
        lemma_join_push(fs.drop_first(), x, sep);
        assert(fs.push(x).drop_first() =~= fs.drop_first().push(x));
        assert(join_seqs(fs.push(x), sep) == fs[0] + seq![sep] + join_seqs(
            fs.drop_first().push(x),
            sep,
        ));
        assert(fs[0] + seq![sep] + (join_seqs(fs.drop_first(), sep) + seq![sep] + x) =~= (fs[0]
            + seq![sep] + join_seqs(fs.drop_first(), sep)) + seq![sep] + x);
    }
}

/// Round trip at the row level: a joined row whose fields are free of the
/// separator splits back into exactly those fields.
pub proof fn lemma_split_join(fs: Seq<Seq<u8>>, sep: u8)
    requires
        fs.len() >= 1,
        forall|i: int, j: int| 0 <= i < fs.len() && 0 <= j < fs[i].len() ==> fs[i][j] != sep,
    ensures
        crate::bytes::split_by(join_seqs(fs, sep), sep) == fs,
    decreases fs.len(),
{
    let s = join_seqs(fs, sep);
    if fs.len() == 1 {
        assert(s == fs[0]);
        assert(forall|j: int| 0 <= j < s.len() ==> s[j] != sep);
        lemma_find_byte_char(s, sep, s.len() as int);
        assert(crate::bytes::split_by(s, sep) =~= fs);
    } else {
        assert(forall|i: int, j: int|
            0 <= i < fs.drop_first().len() && 0 <= j < fs.drop_first()[i].len()
                ==> fs.drop_first()[i][j] != sep);
        lemma_split_join(fs.drop_first(), sep);
        let rest = join_seqs(fs.drop_first(), sep);
        assert(s == fs[0] + seq![sep] + rest);
        assert forall|j: int| 0 <= j < fs[0].len() implies s[j] != sep by {
            assert(s[j] == fs[0][j]);
        }
        assert(s[fs[0].len() as int] == sep);
        lemma_find_byte_char(s, sep, fs[0].len() as int);
        assert(s.take(fs[0].len() as int) =~= fs[0]);
        assert(s.skip(fs[0].len() as int + 1) =~= rest);
        assert(crate::bytes::split_by(s, sep) =~= seq![fs[0]] + fs.drop_first());
        assert(seq![fs[0]] + fs.drop_first() =~= fs);
    }
}

/// Joins fields with a separator byte.
pub fn join_fields(fs: &Vec<Vec<u8>>, sep: u8) -> (r: Vec<u8>)
    ensures
        r@ == join_seqs(fs@.map_values(|f: Vec<u8>| f@), sep),
{
    let ghost gfs = fs@.map_values(|f: Vec<u8>| f@);
    let mut r: Vec<u8> = Vec::new();
    let mut i: usize = 0;
    proof {
        assert(gfs.take(0) =~= Seq::<Seq<u8>>::empty());
        assert(r@ =~= join_seqs(gfs.take(0), sep));
    }
    while i < fs.len()
        invariant
            i <= fs@.len(),
            gfs == fs@.map_values(|f: Vec<u8>| f@),
            r@ == join_seqs(gfs.take(i as int), sep),
        decreases fs@.len() - i,
    {
        proof {
            lemma_join_push(gfs.take(i as int), gfs[i as int], sep);
            assert(gfs.take(i + 1 as int) =~= gfs.take(i as int).push(gfs[i as int]));
        }
        if i > 0 {
            r.push(sep);
        }
        let mut f = fs[i].clone();
        r.append(&mut f);
        proof {
            assert(r@ =~= join_seqs(gfs.take(i + 1 as int), sep));
        }
        i += 1;
    }
    proof {
        assert(gfs.take(gfs.len() as int) =~= gfs);
    }
    r
}

} // verus!
