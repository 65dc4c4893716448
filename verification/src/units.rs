//! Units and rounding.
//!
//! Every quantity is an exact integer. Energy is counted in millionths of a
//! kilowatt-hour, a price in millionths of a currency unit per kilowatt-hour,
//! and a cost, the product of the two, in million-millionths of a currency
//! unit. Efficiencies are per-mille factors. A division rounds to the nearest
//! integer, halves away from zero.

use vstd::prelude::*;

verus! {

/// Denominator of an efficiency: 1000 stands for a factor of 1.
pub const EFF_SCALE: i128 = 1000;

/// Cost units in one hundredth of a currency unit.
pub const CENT: i128 = 10_000_000_000;

/// The smallest residue of a charge, 0.05 kWh, that still gets a slot of its own.
pub const RESIDUE_MIN: i128 = 50_000;

/// The longest horizon, in quarters of an hour.
pub const MAX_QUARTERS: usize = 96;

/// The state of charge, in percent, below which the battery is never drained.
pub const MIN_SOC: u8 = 10;

/// The highest charge target above the reserve, in percent; targets step by `SOC_STEP`.
pub const MAX_TARGET: usize = 90;

/// Distance between two charge targets, in percent.
pub const SOC_STEP: usize = 5;

/// The largest magnitude, 2^120, that the rounding division takes.
pub const WIDE_MAX: i128 = 0x0100_0000_0000_0000_0000_0000_0000_0000;

/// Seconds in a quarter of an hour.
pub const QUARTER_SECS: i64 = 900;

/// Seconds in a day.
pub const DAY_SECS: i64 = 86_400;

/// `a / b` rounded to the nearest integer, halves away from zero.
pub open spec fn round_quotient(a: int, b: int) -> int
    recommends
        b > 0,
{
    if a >= 0 {
        (2 * a + b) / (2 * b)
    } else {
        -((2 * (-a) + b) / (2 * b))
    }
}

/// A cost rounded to whole hundredths of a currency unit, in cost units.
pub open spec fn round_to_cent(cost: int) -> int {
    round_quotient(cost, CENT as int) * CENT
}

/// A product is bounded by the product of the bounds of its factors.
pub proof fn lemma_mul_bounds(a: int, b: int, ma: int, mb: int)
    by (nonlinear_arith)
    requires
        -ma <= a <= ma,
        -mb <= b <= mb,
    ensures
        -(ma * mb) <= a * b <= ma * mb,
{
}

/// A product of two factors that are not negative is not negative, and bounded as they are.
pub proof fn lemma_mul_nonneg(a: int, b: int, ma: int, mb: int)
    by (nonlinear_arith)
    requires
        0 <= a <= ma,
        0 <= b <= mb,
    ensures
        0 <= a * b <= ma * mb,
{
}

/// Rounding keeps the sign and never leaves the interval between zero and the dividend.
pub proof fn lemma_round_quotient_bounds(a: int, b: int)
    requires
        b > 0,
    ensures
        a >= 0 ==> 0 <= round_quotient(a, b) <= a,
        a <= 0 ==> a <= round_quotient(a, b) <= 0,
        round_quotient(-a, b) == -round_quotient(a, b),
{
    lemma_round_nonneg(a, b);
    lemma_round_nonneg(-a, b);
}

/// The bounds of a rounded quotient for a dividend that is not negative.
proof fn lemma_round_nonneg(a: int, b: int)
    requires
        b > 0,
    ensures
        a >= 0 ==> 0 <= (2 * a + b) / (2 * b) <= a,
{
    if a >= 0 {
        let q = (2 * a + b) / (2 * b);
        assert(0 <= q <= a) by (nonlinear_arith)
            requires
                q == (2 * a + b) / (2 * b),
                a >= 0,
                b > 0,
        {
            assert((2 * a + b) == (2 * b) * q + (2 * a + b) % (2 * b));
            assert(0 <= (2 * a + b) % (2 * b) < 2 * b);
            if q > a {
                assert((2 * b) * q >= (2 * b) * (a + 1));
                assert((2 * b) * (a + 1) == 2 * b * a + 2 * b);
                assert(2 * b * a >= 2 * a);
            }
        }
    }
}

/// A rounded quotient times the divisor differs from the dividend by at
/// most half the divisor.
pub proof fn lemma_round_quotient_close(a: int, b: int)
    requires
        b > 0,
    ensures
        -b <= 2 * (round_quotient(a, b) * b - a) <= b,
{
    if a >= 0 {
        lemma_round_close_nonneg(a, b);
    } else {
        lemma_round_close_nonneg(-a, b);
        let q = (2 * (-a) + b) / (2 * b);
        assert((-q) * b == -(q * b)) by (nonlinear_arith);
    }
}

/// The distance of a rounded quotient for a dividend that is not negative.
proof fn lemma_round_close_nonneg(a: int, b: int)
    requires
        a >= 0,
        b > 0,
    ensures
        -b <= 2 * (((2 * a + b) / (2 * b)) * b - a) <= b,
{
    let n = 2 * a + b;
    let d = 2 * b;
    let q = n / d;
    assert(n == d * q + n % d && 0 <= n % d < d) by (nonlinear_arith)
        requires
            d > 0,
            q == n / d,
    ;
    assert(d * q == 2 * (q * b)) by (nonlinear_arith)
        requires
            d == 2 * b,
    ;
}

/// A cost and its rounded value differ by at most half a hundredth.
pub proof fn lemma_round_to_cent_close(cost: int)
    ensures
        -(CENT / 2) <= round_to_cent(cost) - cost <= CENT / 2,
{
    let c = CENT as int;
    if cost >= 0 {
        lemma_round_cent_nonneg(cost);
    } else {
        lemma_round_cent_nonneg(-cost);
    }
}

/// The distance of a rounded cost for a cost that is not negative.
proof fn lemma_round_cent_nonneg(a: int)
    requires
        a >= 0,
    ensures
        -(CENT / 2) <= ((2 * a + CENT) / (2 * CENT)) * CENT - a <= CENT / 2,
{
    let n = 2 * a + CENT;
    let d = 2 * CENT;
    let q = n / d;
    assert(n == d * q + n % d && 0 <= n % d < d) by (nonlinear_arith)
        requires
            d > 0,
            q == n / d,
    ;
    assert(d * q == 2 * (q * CENT)) by (nonlinear_arith)
        requires
            d == 2 * CENT,
    ;
}

/// Rounding is monotone in the dividend.
pub proof fn lemma_round_quotient_monotone(a1: int, a2: int, b: int)
    requires
        b > 0,
        a1 <= a2,
    ensures
        round_quotient(a1, b) <= round_quotient(a2, b),
{
    lemma_round_quotient_bounds(a1, b);
    lemma_round_quotient_bounds(a2, b);
    if a1 >= 0 {
        lemma_floor_monotone(2 * a1 + b, 2 * a2 + b, 2 * b);
    } else if a2 < 0 {
        lemma_floor_monotone(2 * (-a2) + b, 2 * (-a1) + b, 2 * b);
    }
}

/// The quotient of a division grows with the dividend.
proof fn lemma_floor_monotone(x: int, y: int, d: int)
    requires
        d > 0,
        x <= y,
    ensures
        x / d <= y / d,
{
    vstd::arithmetic::div_mod::lemma_div_is_ordered(x, y, d);
}

/// A quotient `q` with `|b * q - a| * 2 <= b` that leans away from zero on a half is the rounded one.
pub proof fn lemma_round_quotient_unique(a: int, b: int, q: int)
    requires
        b > 0,
        a >= 0,
        2 * b * q <= 2 * a + b < 2 * b * (q + 1),
    ensures
        round_quotient(a, b) == q,
{
    let n = 2 * a + b;
    let d = 2 * b;
    assert(n / d == q) by (nonlinear_arith)
        requires
            d > 0,
            d * q <= n < d * (q + 1),
    {
        let k = n / d;
        assert(n == d * k + n % d);
        assert(0 <= n % d < d);
        if k < q {
            assert(d * (k + 1) <= d * q);
        }
        if k > q {
            assert(d * k >= d * (q + 1));
        }
    }
}

/// Energy that is drawn through an efficiency of at most 1 and priced back
/// through the same efficiency is the energy that was asked for.
pub proof fn lemma_round_trip(e: int, eff: int)
    requires
        e >= 0,
        0 < eff <= EFF_SCALE,
    ensures
        round_quotient(round_quotient(e * EFF_SCALE, eff) * eff, EFF_SCALE as int) == e,
{
    let s = EFF_SCALE as int;
    let y = round_quotient(e * s, eff);
    lemma_round_quotient_bounds(e * s, eff);
    // 2 * eff * y <= 2 * e * s + eff < 2 * eff * (y + 1)
    assert(2 * eff * y <= 2 * (e * s) + eff < 2 * eff * (y + 1)) by (nonlinear_arith)
        requires
            eff > 0,
            e * s >= 0,
            y == (2 * (e * s) + eff) / (2 * eff),
    {
        let n = 2 * (e * s) + eff;
        let d = 2 * eff;
        assert(n == d * y + n % d);
        assert(0 <= n % d < d);
        assert(d * (y + 1) == d * y + d);
    }
    assert(y >= 0);
    assert(y * eff >= 0) by (nonlinear_arith)
        requires
            y >= 0,
            eff > 0,
    ;
    assert(2 * s * e <= 2 * (y * eff) + s < 2 * s * (e + 1)) by (nonlinear_arith)
        requires
            2 * eff * y <= 2 * (e * s) + eff < 2 * eff * (y + 1),
            0 < eff <= s,
            s == 1000,
    ;
    lemma_round_quotient_unique(y * eff, s, e);
}

/// A cost rounded to whole hundredths of a currency unit.
pub fn round_cost(cost: i128) -> (r: i128)
    requires
        -WIDE_MAX <= cost <= WIDE_MAX,
    ensures
        r == round_to_cent(cost as int),
        -(CENT / 2) <= r - cost <= CENT / 2,
{
    proof {
        lemma_round_to_cent_close(cost as int);
    }
    div_round(cost, CENT) * CENT
}

/// `a / b` rounded to the nearest integer, halves away from zero.
pub fn div_round(a: i128, b: i128) -> (r: i128)
    requires
        0 < b <= WIDE_MAX,
        -WIDE_MAX <= a <= WIDE_MAX,
    ensures
        r == round_quotient(a as int, b as int),
{
    if a >= 0 {
        (2 * a + b) / (2 * b)
    } else {
        -((2 * (-a) + b) / (2 * b))
    }
}

} // verus!
