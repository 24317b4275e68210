//! Fixed-point rate arithmetic over saturating counter deltas.
//!
//! A rate is a counter delta divided by the elapsed wall-clock time, scaled
//! by one hundred so that two decimal places survive in an integer.  Every
//! helper clamps: a zero interval yields a zero rate, and a result beyond
//! `u64::MAX` saturates.

use vstd::prelude::*;

verus! {

/// Units-per-second from a counter delta over `elapsed_ms`, scaled by 100.
pub open spec fn rate_centi_spec(delta: u64, elapsed_ms: u64) -> u64 {
    if elapsed_ms == 0 {
        0u64
    } else if delta * 100000 / (elapsed_ms as int) > u64::MAX {
        u64::MAX
    } else {
        (delta * 100000 / (elapsed_ms as int)) as u64
    }
}

/// Computes a per-second rate scaled by 100 from a delta and an interval.
pub fn rate_centi(delta: u64, elapsed_ms: u64) -> (r: u64)
    ensures
        r == rate_centi_spec(delta, elapsed_ms),
{
    if elapsed_ms == 0 {
        return 0;
    }
    let q: u128 = (delta as u128) * 100000u128 / (elapsed_ms as u128);
    if q > u64::MAX as u128 {
        u64::MAX
    } else {
        q as u64
    }
}

/// Percentage of `num` out of `den`, scaled by 100 (hundredths of a percent).
pub open spec fn pct_centi_spec(num: u64, den: u64) -> u64 {
    if den == 0 {
        0u64
    } else if num * 10000 / (den as int) > u64::MAX {
        u64::MAX
    } else {
        (num * 10000 / (den as int)) as u64
    }
}

/// Computes a percentage scaled by 100.
pub fn pct_centi(num: u64, den: u64) -> (r: u64)
    ensures
        r == pct_centi_spec(num, den),
{
    if den == 0 {
        return 0;
    }
    let q: u128 = (num as u128) * 10000u128 / (den as u128);
    if q > u64::MAX as u128 {
        u64::MAX
    } else {
        q as u64
    }
}

/// Ratio of `num` to `den`, scaled by 1000 (a per-operation latency in
/// thousandths of a millisecond); zero when `den` is zero.
pub open spec fn ratio_milli_spec(num: u64, den: u64) -> u64 {
    if den == 0 {
        0u64
    } else if num * 1000 / (den as int) > u64::MAX {
        u64::MAX
    } else {
        (num * 1000 / (den as int)) as u64
    }
}

/// Computes a per-operation ratio scaled by 1000.
pub fn ratio_milli(num: u64, den: u64) -> (r: u64)
    ensures
        r == ratio_milli_spec(num, den),
{
    if den == 0 {
        return 0;
    }
    let q: u128 = (num as u128) * 1000u128 / (den as u128);
    if q > u64::MAX as u128 {
        u64::MAX
    } else {
        q as u64
    }
}

/// Ratio of `num` to `den`, scaled by 100 (a dimensionless figure such as a
/// queue depth, kept to two decimal places); zero when `den` is zero.
pub open spec fn ratio_centi_spec(num: u64, den: u64) -> u64 {
    if den == 0 {
        0u64
    } else if num * 100 / (den as int) > u64::MAX {
        u64::MAX
    } else {
        (num * 100 / (den as int)) as u64
    }
}

/// Computes a dimensionless ratio scaled by 100.
pub fn ratio_centi(num: u64, den: u64) -> (r: u64)
    ensures
        r == ratio_centi_spec(num, den),
{
    if den == 0 {
        return 0;
    }
    let q: u128 = (num as u128) * 100u128 / (den as u128);
    if q > u64::MAX as u128 {
        u64::MAX
    } else {
        q as u64
    }
}

/// Saturating product.
pub open spec fn mul_sat_spec(a: u64, b: u64) -> u64 {
    if a * b > u64::MAX {
        u64::MAX
    } else {
        (a * b) as u64
    }
}

/// Multiplies, saturating at `u64::MAX`.
pub fn mul_sat(a: u64, b: u64) -> (r: u64)
    ensures
        r == mul_sat_spec(a, b),
{
    match a.checked_mul(b) {
        Some(r) => r,
        None => u64::MAX,
    }
}

/// Saturating sum.
pub open spec fn add_sat_spec(a: u64, b: u64) -> u64 {
    if a + b > u64::MAX {
        u64::MAX
    } else {
        (a + b) as u64
    }
}

/// No computed rate is ever negative: the saturating delta and the clamped
/// division keep every rate, percentage and ratio at or above zero, whatever
/// the raw counters did.
pub proof fn lemma_rates_nonnegative(delta: u64, elapsed_ms: u64, num: u64, den: u64)
    ensures
        rate_centi_spec(delta, elapsed_ms) >= 0,
        pct_centi_spec(num, den) >= 0,
        ratio_milli_spec(num, den) >= 0,
{
}

} // verus!
