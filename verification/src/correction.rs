//! Conversion-factor lookup, the high-lux correction polynomial, its
//! inverse, and the raw threshold computation built from them.

use vstd::prelude::*;

use crate::Gain;
use crate::IntegrationTime;

verus! {

use vstd::arithmetic::div_mod::lemma_div_is_ordered;

/// Multiplier contributed by a gain setting, exact.
pub open spec fn spec_gain_factor(gain: Gain) -> int {
    match gain {
        Gain::Two => 1,
        Gain::One => 2,
        Gain::OneQuarter => 8,
        Gain::OneEighth => 16,
    }
}

/// Multiplier contributed by an integration-time setting, in
/// ten-thousandths of a lux per raw count, exact.
pub open spec fn spec_it_factor_1e4(it: IntegrationTime) -> int {
    match it {
        IntegrationTime::_800ms => 36,
        IntegrationTime::_400ms => 72,
        IntegrationTime::_200ms => 144,
        IntegrationTime::_100ms => 288,
        IntegrationTime::_50ms => 576,
        IntegrationTime::_25ms => 1152,
    }
}

/// The conversion factor for a configuration, in ten-thousandths of a lux
/// per raw count: the product of the two per-setting multipliers.
pub open spec fn spec_conversion_factor_1e4(it: IntegrationTime, gain: Gain) -> int {
    spec_gain_factor(gain) * spec_it_factor_1e4(it)
}

/// Conversion factor relating raw counts to lux for the given
/// configuration, in ten-thousandths of a lux per raw count.
///
/// The result is exactly the product of the gain multiplier and the
/// integration-time multiplier, and is strictly positive for every one of
/// the 24 configurations.
pub fn get_lux_raw_conversion_factor(it: IntegrationTime, gain: Gain) -> (factor_1e4: u32)
    ensures
        factor_1e4 == spec_conversion_factor_1e4(it, gain),
        36 <= factor_1e4 <= 18432,
{
    let gain_factor: u32 = match gain {
        Gain::Two => 1,
        Gain::One => 2,
        Gain::OneQuarter => 8,
        Gain::OneEighth => 16,
    };
    let it_factor: u32 = match it {
        IntegrationTime::_800ms => 36,
        IntegrationTime::_400ms => 72,
        IntegrationTime::_200ms => 144,
        IntegrationTime::_100ms => 288,
        IntegrationTime::_50ms => 576,
        IntegrationTime::_25ms => 1152,
    };
    gain_factor * it_factor
}

/// Largest pre-correction lux value, in milli-lux, that the inverse
/// correction searches over (200 000 lx).
pub const LUX_MILLI_LIMIT: u64 = 200_000_000;

/// Largest corrected lux value, in milli-lux, that the inverse correction
/// accepts (200 000 000 lx).  The correction polynomial applied to
/// `LUX_MILLI_LIMIT` still exceeds it, so the bracketing search is total on
/// this range, and every raw threshold for a larger target saturates.
pub const CORRECTED_MILLI_LIMIT: u64 = 200_000_000_000;

/// The high-lux correction polynomial over milli-lux, scaled to a common
/// integer denominator of 10^29.
///
/// With `x = m / 1000` lux, the calibrated correction is
/// `6.0135e-13*x^4 - 9.3924e-9*x^3 + 8.1488e-5*x^2 + 1.0023*x`;
/// multiplying by 10^29 clears every denominator, so `poly_num(m)` equals
/// the corrected value in milli-lux times 10^26, exactly.
pub open spec fn poly_num(m: int) -> int {
    60135 * (m * m * m * m) - 939_240_000_000 * (m * m * m)
        + 8_148_800_000_000_000_000 * (m * m) + 100_230_000_000_000_000_000_000_000 * m
}

/// Denominator relating `poly_num` to milli-lux: `poly_num(m) / 10^26` is
/// the corrected value in milli-lux.
pub const POLY_DENOM: u128 = 100_000_000_000_000_000_000_000_000;

/// Whether correcting the pre-correction value `m` (milli-lux) stays at or
/// below the target `lux_milli` (milli-lux), compared exactly.
pub open spec fn poly_at_most(m: int, lux_milli: int) -> bool {
    poly_num(m) <= lux_milli * (POLY_DENOM as int)
}

/// The polynomial's scaled form never decreases from one milli-lux grid
/// point to the next: its derivative stays positive on the whole
/// non-negative axis, and this is the discrete counterpart.
proof fn lemma_poly_num_step(m: int)
    requires
        0 <= m,
    ensures
        poly_num(m) <= poly_num(m + 1),
{
    if m <= 5_900_000 {
        assert(60135 * ((m + 1) * (m + 1) * (m + 1) * (m + 1)) - 939_240_000_000 * ((m + 1) * (m
            + 1) * (m + 1)) + 8_148_800_000_000_000_000 * ((m + 1) * (m + 1))
            + 100_230_000_000_000_000_000_000_000 * (m + 1) >= 60135 * (m * m * m * m)
            - 939_240_000_000 * (m * m * m) + 8_148_800_000_000_000_000 * (m * m)
            + 100_230_000_000_000_000_000_000_000 * m) by (nonlinear_arith)
            requires
                0 <= m <= 5_900_000,
        ;
    } else if m <= 8_500_000 {
        assert(60135 * ((m + 1) * (m + 1) * (m + 1) * (m + 1)) - 939_240_000_000 * ((m + 1) * (m
            + 1) * (m + 1)) + 8_148_800_000_000_000_000 * ((m + 1) * (m + 1))
            + 100_230_000_000_000_000_000_000_000 * (m + 1) >= 60135 * (m * m * m * m)
            - 939_240_000_000 * (m * m * m) + 8_148_800_000_000_000_000 * (m * m)
            + 100_230_000_000_000_000_000_000_000 * m) by (nonlinear_arith)
            requires
                5_900_000 < m <= 8_500_000,
        ;
    } else if m <= 12_000_000 {
        assert(60135 * ((m + 1) * (m + 1) * (m + 1) * (m + 1)) - 939_240_000_000 * ((m + 1) * (m
            + 1) * (m + 1)) + 8_148_800_000_000_000_000 * ((m + 1) * (m + 1))
            + 100_230_000_000_000_000_000_000_000 * (m + 1) >= 60135 * (m * m * m * m)
            - 939_240_000_000 * (m * m * m) + 8_148_800_000_000_000_000 * (m * m)
            + 100_230_000_000_000_000_000_000_000 * m) by (nonlinear_arith)
            requires
                8_500_000 < m <= 12_000_000,
        ;
    } else {
        assert(60135 * ((m + 1) * (m + 1) * (m + 1) * (m + 1)) - 939_240_000_000 * ((m + 1) * (m
            + 1) * (m + 1)) + 8_148_800_000_000_000_000 * ((m + 1) * (m + 1))
            + 100_230_000_000_000_000_000_000_000 * (m + 1) >= 60135 * (m * m * m * m)
            - 939_240_000_000 * (m * m * m) + 8_148_800_000_000_000_000 * (m * m)
            + 100_230_000_000_000_000_000_000_000 * m) by (nonlinear_arith)
            requires
                12_000_000 < m,
        ;
    }
}

/// The scaled correction polynomial never goes negative on the
/// non-negative axis: the positive terms dominate the single negative one.
proof fn lemma_poly_num_nonneg(m: int)
    requires
        0 <= m,
    ensures
        poly_num(m) >= 0,
        939_240_000_000 * (m * m * m) <= 60135 * (m * m * m * m) + 8_148_800_000_000_000_000 * (m
            * m),
        poly_num(m) >= 100_230_000_000_000_000_000_000_000 * m,
{
    if m <= 8_600_000 {
        assert(939_240_000_000 * (m * m * m) <= 8_148_800_000_000_000_000 * (m * m))
            by (nonlinear_arith)
            requires
                0 <= m <= 8_600_000,
        ;
    } else if m <= 15_700_000 {
        assert(939_240_000_000 * (m * m * m) <= 60135 * (m * m * m * m)
            + 8_148_800_000_000_000_000 * (m * m)) by (nonlinear_arith)
            requires
                8_600_000 < m <= 15_700_000,
        ;
    } else {
        assert(939_240_000_000 * (m * m * m) <= 60135 * (m * m * m * m)) by (nonlinear_arith)
            requires
                15_700_000 < m,
        ;
    }
}

/// Bounds on the powers of a milli-lux value within the search range,
/// needed to keep the 128-bit evaluation of the polynomial from
/// overflowing.
proof fn lemma_pow_bounds(m: int)
    by (nonlinear_arith)
    requires
        0 <= m <= 200_000_000,
    ensures
        m * m <= 40_000_000_000_000_000,
        m * m * m <= 8_000_000_000_000_000_000_000_000,
        m * m * m * m <= 1_600_000_000_000_000_000_000_000_000_000_000,
{
}

/// Exact exec counterpart of `poly_at_most`, evaluated in 128-bit
/// arithmetic with the negative term moved to the other side.
fn poly_at_most_exec(m: u64, lux_milli: u64) -> (r: bool)
    requires
        m <= LUX_MILLI_LIMIT,
        lux_milli <= CORRECTED_MILLI_LIMIT,
    ensures
        r == poly_at_most(m as int, lux_milli as int),
{
    proof {
        lemma_pow_bounds(m as int);
    }
    let mw: u128 = m as u128;
    let m2: u128 = mw * mw;
    let m3: u128 = m2 * mw;
    let m4: u128 = m3 * mw;
    let lhs: u128 = 60135 * m4 + 8_148_800_000_000_000_000 * m2
        + 100_230_000_000_000_000_000_000_000 * mw;
    let rhs: u128 = (lux_milli as u128) * POLY_DENOM + 939_240_000_000 * m3;
    lhs <= rhs
}

/// The scaled correction polynomial is monotone over the whole
/// non-negative axis: the sensor's corrected response only grows with the
/// pre-correction value.
pub proof fn lemma_poly_num_monotone(a: int, b: int)
    requires
        0 <= a <= b,
    ensures
        poly_num(a) <= poly_num(b),
    decreases b - a,
{
    if a < b {
        lemma_poly_num_monotone(a, b - 1);
        lemma_poly_num_step(b - 1);
    }
}

/// Corrected value, in milli-lux, for a pre-correction value of `m`
/// milli-lux: the quartic correction evaluated exactly and rounded down to
/// the milli-lux grid.
pub open spec fn spec_correct_high_lux(m: int) -> int {
    poly_num(m) / (POLY_DENOM as int)
}

/// Forward high-lux correction.
///
/// Applies the calibrated quartic `6.0135e-13*x^4 - 9.3924e-9*x^3 +
/// 8.1488e-5*x^2 + 1.0023*x` to a lux value given in milli-lux, evaluating
/// the polynomial exactly over scaled integers and rounding the result
/// down to the milli-lux grid.  Intended for values at or above the linear
/// range (roughly 1000 lx), though it is defined on the whole input range.
pub fn correct_high_lux(lux_milli: u64) -> (corrected_milli: u64)
    requires
        lux_milli <= LUX_MILLI_LIMIT,
    ensures
        corrected_milli == spec_correct_high_lux(lux_milli as int),
{
    proof {
        lemma_pow_bounds(lux_milli as int);
        lemma_poly_num_nonneg(lux_milli as int);
    }
    let mw: u128 = lux_milli as u128;
    let m2: u128 = mw * mw;
    let m3: u128 = m2 * mw;
    let m4: u128 = m3 * mw;
    let pos: u128 = 60135 * m4 + 8_148_800_000_000_000_000 * m2
        + 100_230_000_000_000_000_000_000_000 * mw;
    let neg: u128 = 939_240_000_000 * m3;
    ((pos - neg) / POLY_DENOM) as u64
}

/// `m` is the pre-correction milli-lux value whose correction brackets the
/// target: correcting `m` stays at or below the target and correcting the
/// next grid point exceeds it.  Because the polynomial is monotone, at
/// most one `m` can do so.
pub open spec fn inverse_bracket(m: int, lux_milli: int) -> bool {
    0 <= m < LUX_MILLI_LIMIT && poly_at_most(m, lux_milli) && !poly_at_most(m + 1, lux_milli)
}

/// The pre-correction value, in milli-lux, whose correction brackets the
/// target `lux_milli`: the inverse of the quartic on its increasing
/// branch, rounded down to the milli-lux grid.
pub open spec fn spec_inverse_high_lux(lux_milli: int) -> int {
    choose|m: int| inverse_bracket(m, lux_milli)
}

/// The correction of `LUX_MILLI_LIMIT` exceeds every admissible target, so
/// the bracketing search always has an upper endpoint.
proof fn lemma_poly_exceeds_cap(lux_milli: int)
    requires
        lux_milli <= CORRECTED_MILLI_LIMIT,
    ensures
        !poly_at_most(200_000_000, lux_milli),
{
    assert(poly_num(200_000_000) == 89_048_078_000_000_000_000_000_000_000_000_000_000);
}

/// Two brackets for the same target coincide: the polynomial's
/// monotonicity leaves no room between them.
proof fn lemma_bracket_unique(a: int, b: int, lux_milli: int)
    requires
        inverse_bracket(a, lux_milli),
        inverse_bracket(b, lux_milli),
    ensures
        a == b,
{
    if a < b {
        lemma_poly_num_monotone(a + 1, b);
    }
    if b < a {
        lemma_poly_num_monotone(b + 1, a);
    }
}

/// Between a grid point whose correction stays at or below the target and
/// one whose correction exceeds it there is a crossing.
proof fn lemma_crossing(lo: int, hi: int, lux_milli: int)
    requires
        0 <= lo < hi <= LUX_MILLI_LIMIT,
        poly_at_most(lo, lux_milli),
        !poly_at_most(hi, lux_milli),
    ensures
        exists|m: int| inverse_bracket(m, lux_milli),
    decreases hi - lo,
{
    if poly_at_most(hi - 1, lux_milli) {
        assert(inverse_bracket(hi - 1, lux_milli));
    } else if lo < hi - 1 {
        lemma_crossing(lo, hi - 1, lux_milli);
    }
}

/// Every admissible target has a bracket, so `spec_inverse_high_lux`
/// denotes it.
pub proof fn lemma_bracket_exists(lux_milli: int)
    requires
        0 <= lux_milli <= CORRECTED_MILLI_LIMIT,
    ensures
        inverse_bracket(spec_inverse_high_lux(lux_milli), lux_milli),
{
    assert(poly_num(0) == 0);
    lemma_poly_exceeds_cap(lux_milli);
    lemma_crossing(0, 200_000_000, lux_milli);
}

/// Inverse high-lux correction.
///
/// Given a target corrected lux value above the linear range, recovers the
/// pre-correction lux value on the quartic's increasing branch by a
/// bracketing bisection over the milli-lux grid: correcting the result
/// stays at or below the target, and correcting the next grid point
/// exceeds it.  The closed enumeration of gains and integration times
/// keeps every raw threshold for targets beyond `CORRECTED_MILLI_LIMIT`
/// saturated, so that cap loses no precision downstream.
pub fn inverse_high_lux_correction(lux_milli: u64) -> (pre_milli: u64)
    requires
        1_000_000 < lux_milli <= CORRECTED_MILLI_LIMIT,
    ensures
        inverse_bracket(pre_milli as int, lux_milli as int),
        pre_milli == spec_inverse_high_lux(lux_milli as int),
        pre_milli < lux_milli,
{
    let mut lo: u64 = 0;
    let mut hi: u64 = LUX_MILLI_LIMIT;
    proof {
        assert(poly_num(0) == 0);
        lemma_poly_exceeds_cap(lux_milli as int);
    }
    while lo + 1 < hi
        invariant
            lo < hi <= LUX_MILLI_LIMIT,
            lux_milli <= CORRECTED_MILLI_LIMIT,
            poly_at_most(lo as int, lux_milli as int),
            !poly_at_most(hi as int, lux_milli as int),
        decreases hi - lo,
    {
        let mid: u64 = lo + (hi - lo) / 2;
        if poly_at_most_exec(mid, lux_milli) {
            lo = mid;
        } else {
            hi = mid;
        }
    }
    proof {
        assert(inverse_bracket(lo as int, lux_milli as int));
        lemma_bracket_exists(lux_milli as int);
        lemma_bracket_unique(lo as int, spec_inverse_high_lux(lux_milli as int), lux_milli as int);
        // The correction only amplifies (its linear coefficient exceeds
        // one), so the recovered value stays strictly below the target.
        lemma_poly_num_nonneg(lo as int);
    }
    lo
}

/// Clamp a raw-count computation into the sensor's unsigned 16-bit
/// register range.
pub open spec fn spec_saturate_raw(value: int) -> int {
    if value > 65535 {
        65535
    } else {
        value
    }
}

/// Whether the high-lux correction applies: one of the two
/// lowest-sensitivity gains together with a target strictly above 1000 lx.
pub open spec fn spec_needs_correction(gain: Gain, lux_milli: int) -> bool {
    (gain == Gain::OneQuarter || gain == Gain::OneEighth) && lux_milli > 1_000_000
}

/// The raw threshold value owed for a configuration and a milli-lux
/// target: invert the correction when it applies, divide by the
/// conversion factor, truncate, and saturate into the register range.
///
/// A corrected target beyond `CORRECTED_MILLI_LIMIT` yields the saturated
/// count directly: the inverse of the limit already exceeds the register
/// range after division by every low-sensitivity conversion factor.
pub open spec fn spec_raw_threshold(it: IntegrationTime, gain: Gain, lux_milli: int) -> int {
    let factor_1e4 = spec_conversion_factor_1e4(it, gain);
    if spec_needs_correction(gain, lux_milli) {
        if lux_milli <= CORRECTED_MILLI_LIMIT {
            spec_saturate_raw(spec_inverse_high_lux(lux_milli) * 10 / factor_1e4)
        } else {
            65535
        }
    } else {
        spec_saturate_raw(lux_milli * 10 / factor_1e4)
    }
}

/// Divide a milli-lux value by a conversion factor given in
/// ten-thousandths of a lux per count, truncating toward zero and
/// saturating at the register maximum.
fn saturating_div_to_raw(lux_milli: u64, factor_1e4: u32) -> (raw: u16)
    requires
        factor_1e4 >= 1,
    ensures
        raw == spec_saturate_raw(lux_milli * 10 / (factor_1e4 as int)),
{
    let quotient: u128 = (lux_milli as u128 * 10) / (factor_1e4 as u128);
    if quotient > 65535 {
        65535
    } else {
        quotient as u16
    }
}

/// Calculate the raw value for a threshold register, applying the inverse
/// high-lux compensation if necessary.
///
/// For targets higher than 1000 lx at 1/4 or 1/8 gain, the inverse of the
/// compensation polynomial is applied first; the (possibly replaced)
/// milli-lux value is then divided by the configuration's conversion
/// factor, truncated, and saturated into the 16-bit register range.
pub fn calculate_raw_threshold_value(it: IntegrationTime, gain: Gain, lux_milli: u64) -> (raw: u16)
    ensures
        raw == spec_raw_threshold(it, gain, lux_milli as int),
{
    let factor_1e4: u32 = get_lux_raw_conversion_factor(it, gain);
    if (gain == Gain::OneQuarter || gain == Gain::OneEighth) && lux_milli > 1_000_000 {
        if lux_milli > CORRECTED_MILLI_LIMIT {
            65535
        } else {
            let pre_milli: u64 = inverse_high_lux_correction(lux_milli);
            saturating_div_to_raw(pre_milli, factor_1e4)
        }
    } else {
        saturating_div_to_raw(lux_milli, factor_1e4)
    }
}

/// The conversion factor of every configuration lies between the product
/// of the two smallest multipliers and the product of the two largest.
proof fn lemma_factor_bounds(it: IntegrationTime, gain: Gain)
    ensures
        36 <= spec_conversion_factor_1e4(it, gain) <= 18432,
{
    let g = spec_gain_factor(gain);
    let i = spec_it_factor_1e4(it);
    assert(36 <= g * i <= 18432) by (nonlinear_arith)
        requires
            1 <= g <= 16,
            36 <= i <= 1152,
    ;
}

/// At `CORRECTED_MILLI_LIMIT` the raw threshold of every configuration
/// that corrects is already saturated, so capping larger targets at the
/// register maximum loses nothing: by the monotonicity lemmas, every
/// target beyond the limit is owed the same saturated count.
pub proof fn lemma_saturated_at_corrected_limit(it: IntegrationTime, gain: Gain)
    requires
        gain == Gain::OneQuarter || gain == Gain::OneEighth,
    ensures
        spec_raw_threshold(it, gain, CORRECTED_MILLI_LIMIT as int) == 65535,
{
    let limit = CORRECTED_MILLI_LIMIT as int;
    let f = spec_conversion_factor_1e4(it, gain);
    lemma_factor_bounds(it, gain);
    lemma_bracket_exists(limit);
    let x = spec_inverse_high_lux(limit);
    if x < 120_795_956 {
        lemma_poly_num_monotone(x + 1, 120_795_956);
        assert(poly_num(120_795_956) == 11_279_235_927_955_004_126_658_888_502_061_192_960);
        assert(false);
    }
    lemma_div_is_ordered(120_795_956int * 10, x * 10, f);
    vstd::arithmetic::div_mod::lemma_div_is_ordered_by_denominator(120_795_956int * 10, f, 18432);
    assert(1_207_959_560int / 18432 == 65536);
}

/// Round trip of the two corrections: applying the forward correction to
/// the inverse correction's result reproduces the target up to the
/// milli-lux grid, exactly bracketed between the corrections of the
/// result and of the next grid point.
pub proof fn lemma_high_lux_round_trip(lux_milli: int)
    requires
        1_000_000 < lux_milli <= CORRECTED_MILLI_LIMIT,
    ensures
        spec_correct_high_lux(spec_inverse_high_lux(lux_milli)) <= lux_milli,
        lux_milli <= spec_correct_high_lux(spec_inverse_high_lux(lux_milli) + 1),
{
    lemma_bracket_exists(lux_milli);
    let x = spec_inverse_high_lux(lux_milli);
    let d = POLY_DENOM as int;
    lemma_div_is_ordered(poly_num(x), lux_milli * d, d);
    vstd::arithmetic::div_mod::lemma_div_multiples_vanish(lux_milli, d);
    assert(lux_milli * d == d * lux_milli);
    lemma_div_is_ordered(lux_milli * d, poly_num(x + 1), d);
}

/// Monotonicity of the raw threshold while no correction applies: for a
/// fixed configuration, a larger lux target never yields a smaller raw
/// count.  With one of the two highest-sensitivity gains this covers the
/// whole input range; with a low-sensitivity gain it covers targets up to
/// the 1000 lx correction boundary.
pub proof fn lemma_threshold_monotone_uncorrected(
    it: IntegrationTime,
    gain: Gain,
    lux1_milli: int,
    lux2_milli: int,
)
    requires
        0 <= lux1_milli <= lux2_milli,
        !spec_needs_correction(gain, lux2_milli),
    ensures
        spec_raw_threshold(it, gain, lux1_milli) <= spec_raw_threshold(it, gain, lux2_milli),
{
    let f = spec_conversion_factor_1e4(it, gain);
    lemma_factor_bounds(it, gain);
    lemma_div_is_ordered(lux1_milli * 10, lux2_milli * 10, f);
}

/// Monotonicity of the raw threshold while the correction applies: for a
/// fixed low-sensitivity configuration and targets above the 1000 lx
/// boundary, a larger lux target never yields a smaller raw count.  The
/// correction's inverse is monotone because the polynomial is.
pub proof fn lemma_threshold_monotone_corrected(
    it: IntegrationTime,
    gain: Gain,
    lux1_milli: int,
    lux2_milli: int,
)
    requires
        spec_needs_correction(gain, lux1_milli),
        lux1_milli <= lux2_milli,
    ensures
        spec_raw_threshold(it, gain, lux1_milli) <= spec_raw_threshold(it, gain, lux2_milli),
{
    let f = spec_conversion_factor_1e4(it, gain);
    lemma_factor_bounds(it, gain);
    if lux2_milli <= CORRECTED_MILLI_LIMIT {
        lemma_bracket_exists(lux1_milli);
        lemma_bracket_exists(lux2_milli);
        let x1 = spec_inverse_high_lux(lux1_milli);
        let x2 = spec_inverse_high_lux(lux2_milli);
        if x1 > x2 {
            lemma_poly_num_monotone(x2 + 1, x1);
            assert(false);
        }
        lemma_div_is_ordered(x1 * 10, x2 * 10, f);
    }
}

} // verus!
