//! Fixed-point trigonometry over angles in millidegrees.
//!
//! `sin_s`/`cos_s` are scaled by `TRIG_ONE` and use a rational
//! approximation that is exact at every multiple of a quarter turn,
//! which the frame-invariance proofs of the pose estimator rely on.

use vstd::prelude::*;

use crate::num::tdiv;

verus! {

/// Millidegrees in one full turn.
pub const TURN_MDEG: i64 = 360_000;

/// Millidegrees in half a turn.
pub const HALF_TURN_MDEG: i64 = 180_000;

/// Millidegrees in a quarter turn.
pub const QUARTER_TURN_MDEG: i64 = 90_000;

/// Fixed-point scale of the trigonometric results: `sin_s` and `cos_s`
/// return values in `[-TRIG_ONE, TRIG_ONE]`.
pub const TRIG_ONE: i64 = 1_000_000;

/// Largest angle magnitude (in millidegrees) the executable
/// trigonometric functions accept; keeps every intermediate in `i64`.
pub const ANGLE_ABS_LIMIT: i64 = 4_000_000_000_000_000;

/// An angle reduced into `[0, TURN_MDEG)`.
pub open spec fn angle_mod_s(a: int) -> int {
    a % (TURN_MDEG as int)
}

/// Rational sine approximation on `[0, HALF_TURN_MDEG]`, scaled by
/// `TRIG_ONE`; exact at `0`, `QUARTER_TURN_MDEG` and `HALF_TURN_MDEG`.
pub open spec fn sin_half_s(x: int) -> int
    recommends
        0 <= x <= HALF_TURN_MDEG,
{
    let p = x * (HALF_TURN_MDEG - x);
    (4 * p * (TRIG_ONE as int)) / (40_500_000_000 - p)
}

/// Sine of an angle in millidegrees, scaled by `TRIG_ONE`.
pub open spec fn sin_s(a: int) -> int {
    let r = angle_mod_s(a);
    if r <= HALF_TURN_MDEG {
        sin_half_s(r)
    } else {
        -sin_half_s(r - HALF_TURN_MDEG)
    }
}

/// Cosine of an angle in millidegrees, scaled by `TRIG_ONE`.
pub open spec fn cos_s(a: int) -> int {
    sin_s(a + QUARTER_TURN_MDEG)
}

pub proof fn lemma_sin_half_bounds(x: int)
    requires
        0 <= x <= HALF_TURN_MDEG,
    ensures
        0 <= sin_half_s(x) <= TRIG_ONE,
{
    let p = x * (HALF_TURN_MDEG - x);
    assert(0 <= p <= 8_100_000_000) by (nonlinear_arith)
        requires
            0 <= x <= 180_000,
            p == x * (180_000 - x),
    {
    }
    let num = 4 * p * (TRIG_ONE as int);
    let den = 40_500_000_000 - p;
    assert(den >= 32_400_000_000);
    assert(num >= 0);
    assert(num <= (TRIG_ONE as int) * den) by (nonlinear_arith)
        requires
            0 <= p <= 8_100_000_000,
            num == 4 * p * 1_000_000,
            den == 40_500_000_000 - p,
    {
    }
    assert(num / den >= 0) by {
        vstd::arithmetic::div_mod::lemma_div_is_ordered(0, num, den);
    }
    assert(num / den <= TRIG_ONE) by {
        vstd::arithmetic::div_mod::lemma_div_is_ordered(num, (TRIG_ONE as int) * den, den);
        vstd::arithmetic::div_mod::lemma_div_by_multiple(TRIG_ONE as int, den);
    }
}

pub proof fn lemma_sin_bounds(a: int)
    ensures
        -TRIG_ONE <= sin_s(a) <= TRIG_ONE,
{
    vstd::arithmetic::div_mod::lemma_mod_bound(a, TURN_MDEG as int);
    let r = angle_mod_s(a);
    if r <= HALF_TURN_MDEG {
        lemma_sin_half_bounds(r);
    } else {
        lemma_sin_half_bounds(r - HALF_TURN_MDEG);
    }
}

pub proof fn lemma_cos_bounds(a: int)
    ensures
        -TRIG_ONE <= cos_s(a) <= TRIG_ONE,
{
    lemma_sin_bounds(a + QUARTER_TURN_MDEG);
}

/// A full turn leaves the sine unchanged.
pub proof fn lemma_sin_period(a: int)
    ensures
        sin_s(a + TURN_MDEG) == sin_s(a),
{
    vstd::arithmetic::div_mod::lemma_mod_add_multiples_vanish(a, TURN_MDEG as int);
}

/// The approximation vanishes at both ends of its half-turn domain.
pub proof fn lemma_sin_half_zero_ends()
    ensures
        sin_half_s(0) == 0,
        sin_half_s(HALF_TURN_MDEG as int) == 0,
{
    assert(0 * (180_000 - 0) == 0);
    assert(180_000 * (180_000 - 180_000) == 0);
    vstd::arithmetic::div_mod::lemma_div_of0(40_500_000_000int);
}

/// Half a turn negates the sine.
pub proof fn lemma_sin_half_turn(a: int)
    ensures
        sin_s(a + HALF_TURN_MDEG) == -sin_s(a),
{
    lemma_sin_half_zero_ends();
    let t = TURN_MDEG as int;
    let h = HALF_TURN_MDEG as int;
    vstd::arithmetic::div_mod::lemma_mod_bound(a, t);
    let r = angle_mod_s(a);
    assert(angle_mod_s(a + h) == (r + h) % t) by {
        vstd::arithmetic::div_mod::lemma_add_mod_noop(a, h, t);
        vstd::arithmetic::div_mod::lemma_small_mod(h as nat, t as nat);
    }
    if r < h {
        assert((r + h) % t == r + h) by {
            vstd::arithmetic::div_mod::lemma_small_mod((r + h) as nat, t as nat);
        }
    } else {
        assert((r + h) % t == r - h) by {
            vstd::arithmetic::div_mod::lemma_mod_sub_multiples_vanish(r + h, t);
            vstd::arithmetic::div_mod::lemma_small_mod((r - h) as nat, t as nat);
        }
        if r == h {
            assert(sin_half_s(0) == 0);
            assert(sin_half_s(h - h) == 0);
        }
    }
}

/// A quarter-turn shift turns cosine into negated sine.
pub proof fn lemma_cos_quarter_turn(a: int)
    ensures
        cos_s(a + QUARTER_TURN_MDEG) == -sin_s(a),
{
    lemma_sin_half_turn(a);
}

/// Exact values at the four quarter-turn points.
pub proof fn lemma_trig_exact_quarters()
    ensures
        sin_s(0) == 0,
        sin_s(QUARTER_TURN_MDEG as int) == TRIG_ONE,
        sin_s(HALF_TURN_MDEG as int) == 0,
        sin_s(270_000) == -TRIG_ONE,
        cos_s(0) == TRIG_ONE,
        cos_s(QUARTER_TURN_MDEG as int) == 0,
{
    let t = TURN_MDEG as int;
    vstd::arithmetic::div_mod::lemma_small_mod(0nat, t as nat);
    vstd::arithmetic::div_mod::lemma_small_mod(90_000nat, t as nat);
    vstd::arithmetic::div_mod::lemma_small_mod(180_000nat, t as nat);
    vstd::arithmetic::div_mod::lemma_small_mod(270_000nat, t as nat);
    assert(0 * (180_000 - 0) == 0);
    assert(180_000 * (180_000 - 180_000) == 0);
    assert(0int / 40_500_000_000int == 0) by {
        vstd::arithmetic::div_mod::lemma_div_of0(40_500_000_000int);
    }
    assert(sin_half_s(0) == 0);
    assert(sin_half_s(180_000) == 0);
    assert(90_000 * (180_000 - 90_000) == 8_100_000_000) by (nonlinear_arith);
    assert(4 * 8_100_000_000int * 1_000_000 == 32_400_000_000_000_000) by (nonlinear_arith);
    assert(32_400_000_000_000_000int == 1_000_000 * 32_400_000_000int) by (nonlinear_arith);
    assert(32_400_000_000_000_000int / 32_400_000_000int == 1_000_000) by {
        vstd::arithmetic::div_mod::lemma_div_by_multiple(1_000_000, 32_400_000_000int);
    }
    assert(sin_half_s(90_000) == 1_000_000);
}

/// Reduce an angle into `[0, TURN_MDEG)`.
pub fn angle_mod(a: i64) -> (r: i64)
    requires
        -ANGLE_ABS_LIMIT <= a <= ANGLE_ABS_LIMIT,
    ensures
        r == angle_mod_s(a as int),
        0 <= r < TURN_MDEG,
{
    proof {
        vstd::arithmetic::div_mod::lemma_mod_bound(a as int, TURN_MDEG as int);
    }
    let m: i64 = a % TURN_MDEG;
    if m < 0 {
        m + TURN_MDEG
    } else {
        m
    }
}

/// Sine of an angle in millidegrees, scaled by `TRIG_ONE`.
pub fn sin_mdeg(a: i64) -> (r: i64)
    requires
        -ANGLE_ABS_LIMIT <= a <= ANGLE_ABS_LIMIT,
    ensures
        r == sin_s(a as int),
        -TRIG_ONE <= r <= TRIG_ONE,
{
    proof {
        lemma_sin_bounds(a as int);
    }
    let m = angle_mod(a);
    if m <= HALF_TURN_MDEG {
        sin_half(m)
    } else {
        -sin_half(m - HALF_TURN_MDEG)
    }
}

/// Cosine of an angle in millidegrees, scaled by `TRIG_ONE`.
pub fn cos_mdeg(a: i64) -> (r: i64)
    requires
        -ANGLE_ABS_LIMIT <= a <= ANGLE_ABS_LIMIT,
    ensures
        r == cos_s(a as int),
        -TRIG_ONE <= r <= TRIG_ONE,
{
    proof {
        lemma_sin_period((a - 270_000) as int);
        assert(a + QUARTER_TURN_MDEG == (a - 270_000) + TURN_MDEG);
    }
    if a <= ANGLE_ABS_LIMIT - QUARTER_TURN_MDEG {
        sin_mdeg(a + QUARTER_TURN_MDEG)
    } else {
        sin_mdeg(a - 270_000)
    }
}

fn sin_half(x: i64) -> (r: i64)
    requires
        0 <= x <= HALF_TURN_MDEG,
    ensures
        r == sin_half_s(x as int),
        0 <= r <= TRIG_ONE,
{
    proof {
        lemma_sin_half_bounds(x as int);
        assert(0 <= x * (180_000 - x) <= 8_100_000_000) by (nonlinear_arith)
            requires
                0 <= x <= 180_000,
        {
        }
    }
    let p: i64 = x * (HALF_TURN_MDEG - x);
    let num: i64 = 4 * p * TRIG_ONE;
    let den: i64 = 40_500_000_000 - p;
    num / den
}

/// Move `target` by whole turns into the branch nearest `heading`: the
/// result is congruent to `target` modulo one turn and lies strictly
/// within a half turn below to exactly a half turn above `heading`.
pub open spec fn optimise_target_heading_s(heading: int, target: int) -> int {
    let d0 = (target - heading) % (TURN_MDEG as int);
    let d = if d0 > HALF_TURN_MDEG {
        d0 - TURN_MDEG
    } else {
        d0
    };
    heading + d
}

/// Shortest-rotation normalisation of a target heading.
pub fn optimise_target_heading(heading: i64, target: i64) -> (r: i64)
    requires
        -ANGLE_ABS_LIMIT <= heading <= ANGLE_ABS_LIMIT,
        -ANGLE_ABS_LIMIT <= target <= ANGLE_ABS_LIMIT,
    ensures
        r == optimise_target_heading_s(heading as int, target as int),
        -HALF_TURN_MDEG < r - heading <= HALF_TURN_MDEG,
        (r - target) % (TURN_MDEG as int) == 0,
{
    proof {
        vstd::arithmetic::div_mod::lemma_mod_bound((target - heading) as int, TURN_MDEG as int);
    }
    let diff: i64 = target - heading;
    let m: i64 = diff % TURN_MDEG;
    let d0: i64 = if m < 0 {
        m + TURN_MDEG
    } else {
        m
    };
    let d: i64 = if d0 > HALF_TURN_MDEG {
        d0 - TURN_MDEG
    } else {
        d0
    };
    proof {
        let t = TURN_MDEG as int;
        let delta = (target - heading) as int;
        vstd::arithmetic::div_mod::lemma_fundamental_div_mod(delta, t);
        let q = delta / t;
        assert((heading + d) - target == if d0 > HALF_TURN_MDEG { -(q + 1) * t } else { (-q) * t });
        assert((((heading + d) - target) as int) % t == 0) by {
            vstd::arithmetic::div_mod::lemma_mod_multiples_basic(
                if d0 > HALF_TURN_MDEG { -(q + 1) } else { -q },
                t,
            );
        }
    }
    heading + d
}

/// Truncating-division scaling by `TRIG_ONE`, the step that brings a
/// product with a trigonometric value back to plain units.
pub open spec fn trig_scale_s(n: int) -> int {
    tdiv(n, TRIG_ONE as int)
}

} // verus!
