//! Nonlinear trajectory-tracking controller in the Ramsete style:
//! pose error in the robot frame drives a (linear, angular) velocity
//! command. Gains are in thousandths; positions in millimetres,
//! headings in millidegrees.
//!
//! The `sin(e)/e` factor of the law is a literal division at nonzero
//! heading error; at exactly zero it is special-cased with its limit
//! value instead of dividing by zero, a deliberate, documented
//! deviation that keeps the command finite at the singular point.

use vstd::prelude::*;

use crate::num::{clamp, clamp_s, div_trunc, isqrt, isqrt_s, tdiv};
use crate::odometry::Odom;
use crate::trig::{cos_s, sin_s, TRIG_ONE};
use crate::vec2::{v2_add, Vec2, V2};

verus! {

/// Largest gain magnitude, in thousandths.
pub const RAMSETE_GAIN_LIMIT: i64 = 1_000_000;

/// Largest target coordinate or heading magnitude.
pub const RAMSETE_TARGET_ABS_LIMIT: i64 = 1_000_000_000;

/// Pose errors are clamped to this magnitude before use.
pub const RAMSETE_ERR_ABS_LIMIT: i64 = 1_000_000_000;

/// The aggregate gain `k` saturates here.
pub const RAMSETE_K_ABS_LIMIT: i64 = 1_000_000_000;

/// Intermediate factors of the heading-correction term saturate here.
pub const RAMSETE_T_ABS_LIMIT: i64 = 1_500_000_000;

/// The heading-correction quotient saturates here.
pub const RAMSETE_BASE_ABS_LIMIT: i64 = 1_000_000_000_000;

/// Millidegrees per radian, rounded: converts the divided-by-heading
/// quotient back to the dimensionless `sin(e)/e` scale.
pub const MDEG_PER_RAD: i64 = 57_296;

pub struct Ramsete {
    pub beta: i64,
    pub zeta: i64,
    pub target: (Vec2, i64),
}

/// The complete control law. Mirrors the executable computation step
/// for step so the output is pinned exactly.
pub open spec fn ramsete_output_s(
    beta: int,
    zeta: int,
    tpos: V2,
    thead: int,
    pos: V2,
    heading: int,
) -> V2 {
    let lim = RAMSETE_ERR_ABS_LIMIT as int;
    let one = TRIG_ONE as int;
    let ex = clamp_s(tpos.x - pos.x, -lim, lim);
    let ey = clamp_s(tpos.y - pos.y, -lim, lim);
    let s = sin_s(heading);
    let c = cos_s(heading);
    let lx = tdiv(ex * c + ey * s, one);
    let ly = tdiv(ey * c - ex * s, one);
    let eh = clamp_s(thead - heading, -lim, lim);
    let v = tdiv(lx, 100);
    let w = tdiv(eh, 100);
    let q = w * w + tdiv(beta * tdiv(v * v, 1000), 1000);
    let k = clamp_s(tdiv(2 * zeta * (isqrt_s(q as nat) as int), 1000), 0, RAMSETE_K_ABS_LIMIT as int);
    let lin = tdiv(v * cos_s(eh), one) + k * lx;
    let t1 = clamp_s(tdiv(beta * v, 1000), -RAMSETE_T_ABS_LIMIT as int, RAMSETE_T_ABS_LIMIT as int);
    let lyc = clamp_s(ly, -RAMSETE_T_ABS_LIMIT as int, RAMSETE_T_ABS_LIMIT as int);
    let t2 = clamp_s(
        tdiv(t1 * sin_s(eh), one),
        -RAMSETE_T_ABS_LIMIT as int,
        RAMSETE_T_ABS_LIMIT as int,
    );
    let correction = if eh != 0 {
        clamp_s(
            crate::num::tdiv_any(t2 * lyc, eh),
            -RAMSETE_BASE_ABS_LIMIT as int,
            RAMSETE_BASE_ABS_LIMIT as int,
        ) * (MDEG_PER_RAD as int)
    } else {
        t1 * lyc
    };
    let ang = w + k * eh + correction;
    V2 { x: lin, y: ang }
}

impl Ramsete {
    pub open spec fn wf(self) -> bool {
        &&& 0 <= self.beta <= RAMSETE_GAIN_LIMIT
        &&& 0 <= self.zeta <= RAMSETE_GAIN_LIMIT
        &&& -RAMSETE_TARGET_ABS_LIMIT <= self.target.0.x <= RAMSETE_TARGET_ABS_LIMIT
        &&& -RAMSETE_TARGET_ABS_LIMIT <= self.target.0.y <= RAMSETE_TARGET_ABS_LIMIT
        &&& -RAMSETE_TARGET_ABS_LIMIT <= self.target.1 <= RAMSETE_TARGET_ABS_LIMIT
    }

    pub fn new(beta: i64, zeta: i64) -> (r: Ramsete)
        requires
            0 <= beta <= RAMSETE_GAIN_LIMIT,
            0 <= zeta <= RAMSETE_GAIN_LIMIT,
        ensures
            r.wf(),
            r.beta == beta,
            r.zeta == zeta,
            r.target.0@ == (V2 { x: 0, y: 0 }),
            r.target.1 == 0,
    {
        Ramsete { beta, zeta, target: (Vec2::zero(), 0) }
    }

    pub fn set_target(&mut self, target: (Vec2, i64))
        requires
            old(self).wf(),
            -RAMSETE_TARGET_ABS_LIMIT <= target.0.x <= RAMSETE_TARGET_ABS_LIMIT,
            -RAMSETE_TARGET_ABS_LIMIT <= target.0.y <= RAMSETE_TARGET_ABS_LIMIT,
            -RAMSETE_TARGET_ABS_LIMIT <= target.1 <= RAMSETE_TARGET_ABS_LIMIT,
        ensures
            final(self).wf(),
            *final(self) == (Ramsete { target, ..*old(self) }),
    {
        self.target = target;
    }

    /// One control step: the (linear, angular) velocity command for the
    /// current estimated pose.
    pub fn output_linear_angular(&self, odom: &Odom) -> (r: Vec2)
        requires
            self.wf(),
            odom.wf(),
        ensures
            r@ == ramsete_output_s(
                self.beta as int,
                self.zeta as int,
                self.target.0@,
                self.target.1 as int,
                v2_add(odom.start_pos@, odom.rel_pos@),
                odom.heading_s(),
            ),
    {
        let pos = odom.pos();
        let heading = odom.heading();

        let ex = clamp(self.target.0.x - pos.x, -RAMSETE_ERR_ABS_LIMIT, RAMSETE_ERR_ABS_LIMIT);
        let ey = clamp(self.target.0.y - pos.y, -RAMSETE_ERR_ABS_LIMIT, RAMSETE_ERR_ABS_LIMIT);
        let s = crate::trig::sin_mdeg(heading);
        let c = crate::trig::cos_mdeg(heading);
        proof {
            crate::num::lemma_abs_mul_le(ex as int, c as int, RAMSETE_ERR_ABS_LIMIT as int, TRIG_ONE as int);
            crate::num::lemma_abs_mul_le(ey as int, s as int, RAMSETE_ERR_ABS_LIMIT as int, TRIG_ONE as int);
            crate::num::lemma_abs_mul_le(ey as int, c as int, RAMSETE_ERR_ABS_LIMIT as int, TRIG_ONE as int);
            crate::num::lemma_abs_mul_le(ex as int, s as int, RAMSETE_ERR_ABS_LIMIT as int, TRIG_ONE as int);
            crate::num::lemma_tdiv_abs_le(
                (ex * c + ey * s) as int,
                2_000_000_000_000_000,
                TRIG_ONE as int,
            );
            crate::num::lemma_tdiv_abs_le(
                (ey * c - ex * s) as int,
                2_000_000_000_000_000,
                TRIG_ONE as int,
            );
        }
        let lx = div_trunc(ex * c + ey * s, TRIG_ONE);
        let ly = div_trunc(ey * c - ex * s, TRIG_ONE);
        let eh = clamp(self.target.1 - heading, -RAMSETE_ERR_ABS_LIMIT, RAMSETE_ERR_ABS_LIMIT);

        proof {
            crate::num::lemma_tdiv_abs_le(lx as int, 2_000_000_000, 100);
            crate::num::lemma_tdiv_abs_le(eh as int, 1_000_000_000, 100);
        }
        let v = div_trunc(lx, 100);
        let w = div_trunc(eh, 100);

        proof {
            crate::num::lemma_abs_mul_le(v as int, v as int, 20_000_000, 20_000_000);
            assert(v as int * v as int >= 0) by (nonlinear_arith);
            crate::num::lemma_tdiv_abs_le(v as int * v as int, 400_000_000_000_000, 1000);
            vstd::arithmetic::div_mod::lemma_div_pos_is_pos(v as int * v as int, 1000);
            crate::num::lemma_abs_mul_le(
                self.beta as int,
                tdiv(v as int * v as int, 1000),
                RAMSETE_GAIN_LIMIT as int,
                400_000_000_000,
            );
            assert(self.beta as int * tdiv(v as int * v as int, 1000) >= 0) by (nonlinear_arith)
                requires
                    self.beta >= 0,
                    tdiv(v as int * v as int, 1000) >= 0,
            {
            }
            crate::num::lemma_tdiv_abs_le(
                self.beta as int * tdiv(v as int * v as int, 1000),
                400_000_000_000_000_000,
                1000,
            );
            vstd::arithmetic::div_mod::lemma_div_pos_is_pos(
                self.beta as int * tdiv(v as int * v as int, 1000),
                1000,
            );
            crate::num::lemma_abs_mul_le(w as int, w as int, 10_000_000, 10_000_000);
            assert(w as int * w as int >= 0) by (nonlinear_arith);
        }
        let q: i64 = w * w + div_trunc(self.beta * div_trunc(v * v, 1000), 1000);
        let root_u = isqrt(q as u64);
        proof {
            crate::num::lemma_isqrt_bounds(q as nat);
            if isqrt_s(q as nat) > 700_000_000 {
                assert(isqrt_s(q as nat) * isqrt_s(q as nat) > 490_000_000_000_000_000)
                    by (nonlinear_arith)
                    requires
                        isqrt_s(q as nat) > 700_000_000,
                {
                }
                assert(false);
            }
        }
        let root: i64 = root_u as i64;
        proof {
            crate::num::lemma_abs_mul_le(
                2 * self.zeta as int,
                root as int,
                2 * RAMSETE_GAIN_LIMIT as int,
                700_000_000,
            );
        }
        let k = clamp(div_trunc(2 * self.zeta * root, 1000), 0, RAMSETE_K_ABS_LIMIT);

        proof {
            crate::trig::lemma_sin_bounds(eh as int);
            crate::trig::lemma_cos_bounds(eh as int);
            crate::num::lemma_abs_mul_le(v as int, cos_s(eh as int), 20_000_000, TRIG_ONE as int);
            crate::num::lemma_tdiv_abs_le(
                v as int * cos_s(eh as int),
                20_000_000_000_000,
                TRIG_ONE as int,
            );
            crate::num::lemma_abs_mul_le(k as int, lx as int, RAMSETE_K_ABS_LIMIT as int, 2_000_000_000);
            crate::num::lemma_abs_mul_le(self.beta as int, v as int, RAMSETE_GAIN_LIMIT as int, 20_000_000);
            crate::num::lemma_tdiv_abs_le(
                (self.beta * v) as int,
                20_000_000_000_000,
                1000,
            );
        }
        let lin: i64 = div_trunc(v * crate::trig::cos_mdeg(eh), TRIG_ONE) + k * lx;

        let t1 = clamp(div_trunc(self.beta * v, 1000), -RAMSETE_T_ABS_LIMIT, RAMSETE_T_ABS_LIMIT);
        let lyc = clamp(ly, -RAMSETE_T_ABS_LIMIT, RAMSETE_T_ABS_LIMIT);
        proof {
            crate::num::lemma_abs_mul_le(
                t1 as int,
                sin_s(eh as int),
                RAMSETE_T_ABS_LIMIT as int,
                TRIG_ONE as int,
            );
            crate::num::lemma_tdiv_abs_le(
                t1 as int * sin_s(eh as int),
                1_500_000_000_000_000,
                TRIG_ONE as int,
            );
        }
        let t2 = clamp(
            div_trunc(t1 * crate::trig::sin_mdeg(eh), TRIG_ONE),
            -RAMSETE_T_ABS_LIMIT,
            RAMSETE_T_ABS_LIMIT,
        );
        let correction: i64 = if eh != 0 {
            proof {
                crate::num::lemma_abs_mul_le(
                    t2 as int,
                    lyc as int,
                    RAMSETE_T_ABS_LIMIT as int,
                    RAMSETE_T_ABS_LIMIT as int,
                );
                if eh > 0 {
                    crate::num::lemma_tdiv_abs_le(
                        (t2 * lyc) as int,
                        2_250_000_000_000_000_000,
                        eh as int,
                    );
                } else {
                    crate::num::lemma_tdiv_abs_le(
                        (t2 * lyc) as int,
                        2_250_000_000_000_000_000,
                        -eh as int,
                    );
                }
            }
            let base = if eh > 0 {
                div_trunc(t2 * lyc, eh)
            } else {
                -div_trunc(t2 * lyc, -eh)
            };
            clamp(base, -RAMSETE_BASE_ABS_LIMIT, RAMSETE_BASE_ABS_LIMIT) * MDEG_PER_RAD
        } else {
            proof {
                crate::num::lemma_abs_mul_le(
                    t1 as int,
                    lyc as int,
                    RAMSETE_T_ABS_LIMIT as int,
                    RAMSETE_T_ABS_LIMIT as int,
                );
            }
            t1 * lyc
        };
        proof {
            crate::num::lemma_abs_mul_le(k as int, eh as int, RAMSETE_K_ABS_LIMIT as int, RAMSETE_ERR_ABS_LIMIT as int);
        }
        let ang: i64 = w + k * eh + correction;
        Vec2 { x: lin, y: ang }
    }
}

} // verus!
