//! A 2D integer vector, used for positions (millimetres), velocity
//! pairs and voltage pairs alike; callers track which frame applies.

use vstd::prelude::*;

use crate::num::{clamp, clamp_s, div_trunc, isqrt, isqrt_s, tdiv};
use crate::trig::{cos_mdeg, cos_s, sin_mdeg, sin_s, ANGLE_ABS_LIMIT, QUARTER_TURN_MDEG, TRIG_ONE};

verus! {

/// Largest component magnitude accepted by `dot`, `mag_sq`, `mag` and
/// `normalised`: squares and their sum still fit in an `i64`.
pub const MAG_ABS_LIMIT: i64 = 2_000_000_000;

/// Largest component magnitude accepted by `rotated`: a product with a
/// trigonometric value still fits in an `i64`.
pub const ROT_ABS_LIMIT: i64 = 4_000_000_000_000;

#[derive(Clone, Copy, Debug, PartialEq, Eq, Structural)]
pub struct Vec2 {
    pub x: i64,
    pub y: i64,
}

/// The mathematical value of a `Vec2`, free of machine bounds.
pub struct V2 {
    pub x: int,
    pub y: int,
}

impl View for Vec2 {
    type V = V2;

    open spec fn view(&self) -> V2 {
        V2 { x: self.x as int, y: self.y as int }
    }
}

pub open spec fn v2_add(a: V2, b: V2) -> V2 {
    V2 { x: a.x + b.x, y: a.y + b.y }
}

pub open spec fn v2_sub(a: V2, b: V2) -> V2 {
    V2 { x: a.x - b.x, y: a.y - b.y }
}

pub open spec fn v2_neg(a: V2) -> V2 {
    V2 { x: -a.x, y: -a.y }
}

pub open spec fn v2_dot(a: V2, b: V2) -> int {
    a.x * b.x + a.y * b.y
}

pub open spec fn v2_mag_sq(a: V2) -> int {
    a.x * a.x + a.y * a.y
}

pub open spec fn v2_mag(a: V2) -> int {
    isqrt_s(v2_mag_sq(a) as nat) as int
}

/// Clamp both components into `[-lim, lim]`.
pub open spec fn v2_clamp(a: V2, lim: int) -> V2 {
    V2 { x: clamp_s(a.x, -lim, lim), y: clamp_s(a.y, -lim, lim) }
}

/// Rotation by a quarter turn counterclockwise; exact.
pub open spec fn v2_rot90(a: V2) -> V2 {
    V2 { x: -a.y, y: a.x }
}

/// `k` quarter turns counterclockwise.
pub open spec fn v2_rot90_n(a: V2, k: nat) -> V2
    decreases k,
{
    if k == 0 {
        a
    } else {
        v2_rot90(v2_rot90_n(a, (k - 1) as nat))
    }
}

/// Fixed-point rotation by `angle` millidegrees counterclockwise.
pub open spec fn v2_rotate(a: V2, angle: int) -> V2 {
    let s = sin_s(angle);
    let c = cos_s(angle);
    V2 {
        x: tdiv(c * a.x - s * a.y, TRIG_ONE as int),
        y: tdiv(s * a.x + c * a.y, TRIG_ONE as int),
    }
}

/// Truncating division is odd-symmetric in its dividend.
pub proof fn lemma_tdiv_neg(n: int, d: int)
    requires
        d > 0,
    ensures
        tdiv(-n, d) == -tdiv(n, d),
{
}

/// Rotating a quarter turn further equals an exact quarter rotation of
/// the rotated vector: the fixed-point rounding commutes.
pub proof fn lemma_rotate_quarter(a: V2, angle: int)
    ensures
        v2_rotate(a, angle + QUARTER_TURN_MDEG) == v2_rot90(v2_rotate(a, angle)),
{
    let s = sin_s(angle);
    let c = cos_s(angle);
    let q = QUARTER_TURN_MDEG as int;
    let n1 = s * a.x + c * a.y;
    let n2 = c * a.x - s * a.y;
    assert(sin_s(angle + q) == c);
    assert(cos_s(angle + q) == -s) by {
        crate::trig::lemma_cos_quarter_turn(angle);
    }
    assert(cos_s(angle + q) * a.x - sin_s(angle + q) * a.y == -n1) by (nonlinear_arith)
        requires
            cos_s(angle + q) == -s,
            sin_s(angle + q) == c,
            n1 == s * a.x + c * a.y,
    {
    }
    assert(sin_s(angle + q) * a.x + cos_s(angle + q) * a.y == n2) by (nonlinear_arith)
        requires
            cos_s(angle + q) == -s,
            sin_s(angle + q) == c,
            n2 == c * a.x - s * a.y,
    {
    }
    lemma_tdiv_neg(n1, TRIG_ONE as int);
    assert(v2_rotate(a, angle + q).x == -tdiv(n1, TRIG_ONE as int));
    assert(v2_rotate(a, angle + q).y == tdiv(n2, TRIG_ONE as int));
    assert(v2_rot90(v2_rotate(a, angle)).x == -tdiv(n1, TRIG_ONE as int));
    assert(v2_rot90(v2_rotate(a, angle)).y == tdiv(n2, TRIG_ONE as int));
}

/// A quarter rotation distributes over vector addition.
pub proof fn lemma_rot90_add(a: V2, b: V2)
    ensures
        v2_rot90(v2_add(a, b)) == v2_add(v2_rot90(a), v2_rot90(b)),
{
}

/// A quarter rotation commutes with symmetric clamping.
pub proof fn lemma_rot90_clamp(a: V2, lim: int)
    requires
        lim >= 0,
    ensures
        v2_rot90(v2_clamp(a, lim)) == v2_clamp(v2_rot90(a), lim),
{
}

/// A quarter rotation preserves the squared magnitude.
pub proof fn lemma_rot90_mag_sq(a: V2)
    ensures
        v2_mag_sq(v2_rot90(a)) == v2_mag_sq(a),
{
    assert((-a.y) * (-a.y) == a.y * a.y) by (nonlinear_arith);
}

impl Vec2 {
    pub open spec fn in_mag_range(self) -> bool {
        -MAG_ABS_LIMIT <= self.x <= MAG_ABS_LIMIT && -MAG_ABS_LIMIT <= self.y <= MAG_ABS_LIMIT
    }

    pub fn new(x: i64, y: i64) -> (r: Vec2)
        ensures
            r == (Vec2 { x, y }),
    {
        Vec2 { x, y }
    }

    pub fn zero() -> (r: Vec2)
        ensures
            r == (Vec2 { x: 0, y: 0 }),
    {
        Vec2 { x: 0, y: 0 }
    }

    pub fn splat(v: i64) -> (r: Vec2)
        ensures
            r == (Vec2 { x: v, y: v }),
    {
        Vec2 { x: v, y: v }
    }

    pub fn add(self, rhs: Vec2) -> (r: Vec2)
        requires
            i64::MIN <= self.x + rhs.x <= i64::MAX,
            i64::MIN <= self.y + rhs.y <= i64::MAX,
        ensures
            r@ == v2_add(self@, rhs@),
    {
        Vec2 { x: self.x + rhs.x, y: self.y + rhs.y }
    }

    pub fn sub(self, rhs: Vec2) -> (r: Vec2)
        requires
            i64::MIN <= self.x - rhs.x <= i64::MAX,
            i64::MIN <= self.y - rhs.y <= i64::MAX,
        ensures
            r@ == v2_sub(self@, rhs@),
    {
        Vec2 { x: self.x - rhs.x, y: self.y - rhs.y }
    }

    pub fn neg(self) -> (r: Vec2)
        requires
            self.x > i64::MIN,
            self.y > i64::MIN,
        ensures
            r@ == v2_neg(self@),
    {
        Vec2 { x: -self.x, y: -self.y }
    }

    pub fn dot(self, rhs: Vec2) -> (r: i64)
        requires
            self.in_mag_range(),
            rhs.in_mag_range(),
        ensures
            r == v2_dot(self@, rhs@),
    {
        proof {
            assert(-4_000_000_000_000_000_000 <= self.x * rhs.x <= 4_000_000_000_000_000_000)
                by (nonlinear_arith)
                requires
                    -2_000_000_000 <= self.x <= 2_000_000_000,
                    -2_000_000_000 <= rhs.x <= 2_000_000_000,
            {
            }
            assert(-4_000_000_000_000_000_000 <= self.y * rhs.y <= 4_000_000_000_000_000_000)
                by (nonlinear_arith)
                requires
                    -2_000_000_000 <= self.y <= 2_000_000_000,
                    -2_000_000_000 <= rhs.y <= 2_000_000_000,
            {
            }
        }
        self.x * rhs.x + self.y * rhs.y
    }

    pub fn mag_sq(self) -> (r: i64)
        requires
            self.in_mag_range(),
        ensures
            r == v2_mag_sq(self@),
            r >= 0,
    {
        proof {
            assert(0 <= self.x * self.x <= 4_000_000_000_000_000_000) by (nonlinear_arith)
                requires
                    -2_000_000_000 <= self.x <= 2_000_000_000,
            {
            }
            assert(0 <= self.y * self.y <= 4_000_000_000_000_000_000) by (nonlinear_arith)
                requires
                    -2_000_000_000 <= self.y <= 2_000_000_000,
            {
            }
        }
        self.x * self.x + self.y * self.y
    }

    /// Euclidean length, rounded down.
    pub fn mag(self) -> (r: i64)
        requires
            self.in_mag_range(),
        ensures
            r == v2_mag(self@),
            0 <= r <= 3_100_000_000,
    {
        let sq = self.mag_sq();
        let root = isqrt(sq as u64);
        proof {
            crate::num::lemma_isqrt_bounds(sq as nat);
            if isqrt_s(sq as nat) > 3_100_000_000 {
                assert(isqrt_s(sq as nat) * isqrt_s(sq as nat) > 9_610_000_000_000_000_000)
                    by (nonlinear_arith)
                    requires
                        isqrt_s(sq as nat) > 3_100_000_000,
                {
                }
                assert(false);
            }
        }
        root as i64
    }

    /// Direction of `self`, scaled so its length is close to `TRIG_ONE`.
    pub fn normalised(self) -> (r: Vec2)
        requires
            self.in_mag_range(),
            v2_mag_sq(self@) > 0,
        ensures
            r@ == (V2 {
                x: tdiv(self@.x * TRIG_ONE as int, v2_mag(self@)),
                y: tdiv(self@.y * TRIG_ONE as int, v2_mag(self@)),
            }),
    {
        let m = self.mag();
        proof {
            let n = v2_mag_sq(self@) as nat;
            crate::num::lemma_isqrt_bounds(n);
            if m == 0 {
                assert(isqrt_s(n) == 0);
                assert((isqrt_s(n) + 1) * (isqrt_s(n) + 1) == 1) by (nonlinear_arith)
                    requires
                        isqrt_s(n) == 0,
                {
                }
                assert(n < 1);
                assert(false);
            }
        }
        Vec2 {
            x: div_trunc(self.x * TRIG_ONE, m),
            y: div_trunc(self.y * TRIG_ONE, m),
        }
    }

    /// Clamp both components into `[-lim, lim]`.
    pub fn clamped(self, lim: i64) -> (r: Vec2)
        requires
            lim >= 0,
        ensures
            r@ == v2_clamp(self@, lim as int),
    {
        Vec2 { x: clamp(self.x, -lim, lim), y: clamp(self.y, -lim, lim) }
    }

    /// Rotate counterclockwise by `angle` millidegrees.
    pub fn rotated(self, angle: i64) -> (r: Vec2)
        requires
            -ROT_ABS_LIMIT <= self.x <= ROT_ABS_LIMIT,
            -ROT_ABS_LIMIT <= self.y <= ROT_ABS_LIMIT,
            -ANGLE_ABS_LIMIT <= angle <= ANGLE_ABS_LIMIT,
        ensures
            r@ == v2_rotate(self@, angle as int),
            -ROT_ABS_LIMIT * 2 <= r.x <= ROT_ABS_LIMIT * 2,
            -ROT_ABS_LIMIT * 2 <= r.y <= ROT_ABS_LIMIT * 2,
    {
        let s = sin_mdeg(angle);
        let c = cos_mdeg(angle);
        proof {
            lemma_trig_product_bound(c as int, self.x as int);
            lemma_trig_product_bound(s as int, self.y as int);
            lemma_trig_product_bound(s as int, self.x as int);
            lemma_trig_product_bound(c as int, self.y as int);
            lemma_tdiv_scale_bound(c * self.x - s * self.y);
            lemma_tdiv_scale_bound(s * self.x + c * self.y);
        }
        Vec2 {
            x: div_trunc(c * self.x - s * self.y, TRIG_ONE),
            y: div_trunc(s * self.x + c * self.y, TRIG_ONE),
        }
    }
}

proof fn lemma_trig_product_bound(t: int, x: int)
    by (nonlinear_arith)
    requires
        -TRIG_ONE <= t <= TRIG_ONE,
        -ROT_ABS_LIMIT <= x <= ROT_ABS_LIMIT,
    ensures
        -4_000_000_000_000_000_000 <= t * x <= 4_000_000_000_000_000_000,
{
}

proof fn lemma_tdiv_scale_bound(n: int)
    requires
        -8_000_000_000_000_000_000 <= n <= 8_000_000_000_000_000_000,
    ensures
        -8_000_000_000_000 <= tdiv(n, TRIG_ONE as int) <= 8_000_000_000_000,
{
    if n >= 0 {
        vstd::arithmetic::div_mod::lemma_div_is_ordered(0, n, TRIG_ONE as int);
        vstd::arithmetic::div_mod::lemma_div_is_ordered(n, 8_000_000_000_000_000_000, TRIG_ONE as int);
        assert(8_000_000_000_000_000_000int / 1_000_000int == 8_000_000_000_000) by {
            vstd::arithmetic::div_mod::lemma_div_by_multiple(8_000_000_000_000, 1_000_000int);
        }
    } else {
        vstd::arithmetic::div_mod::lemma_div_is_ordered(0, -n, TRIG_ONE as int);
        vstd::arithmetic::div_mod::lemma_div_is_ordered(-n, 8_000_000_000_000_000_000, TRIG_ONE as int);
        assert(8_000_000_000_000_000_000int / 1_000_000int == 8_000_000_000_000) by {
            vstd::arithmetic::div_mod::lemma_div_by_multiple(8_000_000_000_000, 1_000_000int);
        }
    }
}

} // verus!
