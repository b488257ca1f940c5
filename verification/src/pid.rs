//! Single-axis PID controller used for heading regulation.
//!
//! Gains are in thousandths (`kp = 550` means 0.55); the regulated
//! value and target share whatever unit the caller uses (millidegrees
//! for heading). The accumulator and each product are clamped so no
//! intermediate can overflow an `i64`.

use vstd::prelude::*;

use crate::num::{clamp, clamp_s, div_trunc, elapsed, elapsed_s, tdiv};

verus! {

/// Largest gain magnitude, in thousandths.
pub const GAIN_ABS_LIMIT: i64 = 1_000_000;

/// Largest target or input magnitude.
pub const PID_INPUT_ABS_LIMIT: i64 = 1_000_000_000_000_000;

/// Errors are clamped to this magnitude before use.
pub const PID_ERROR_ABS_LIMIT: i64 = 1_000_000_000;

/// The integral accumulator saturates at this magnitude.
pub const PID_INTEGRAL_ABS_LIMIT: i64 = 1_000_000_000_000;

/// A single polling step never integrates over more than this many
/// milliseconds, so a stalled loop cannot wind the accumulator up.
pub const PID_DT_CAP_MS: u64 = 1_000;

/// The controller output never exceeds this magnitude.
pub const PID_OUT_ABS_LIMIT: i64 = 4_200_000_000_000_000_000;

pub struct Pid {
    pub kp: i64,
    pub ki: i64,
    pub kd: i64,
    pub target: i64,
    pub integral: i64,
    pub prev_error: i64,
    pub prev_time: u64,
}

/// Milliseconds a polling step integrates over.
pub open spec fn pid_dt_s(prev: u64, now: u64) -> int {
    let e = elapsed_s(prev, now);
    if e > PID_DT_CAP_MS {
        PID_DT_CAP_MS as int
    } else {
        e
    }
}

/// The clamped control error.
pub open spec fn pid_error_s(target: int, current: int) -> int {
    clamp_s(target - current, -PID_ERROR_ABS_LIMIT as int, PID_ERROR_ABS_LIMIT as int)
}

/// The saturating integral update.
pub open spec fn pid_integral_s(integral: int, e: int, dt: int) -> int {
    clamp_s(
        integral + e * dt,
        -PID_INTEGRAL_ABS_LIMIT as int,
        PID_INTEGRAL_ABS_LIMIT as int,
    )
}

/// Error slope in units per second.
pub open spec fn pid_derivative_s(e: int, prev_e: int, dt: int) -> int {
    if dt > 0 {
        tdiv((e - prev_e) * 1000, dt)
    } else {
        0
    }
}

/// The combined controller output, in the error's unit scale.
pub open spec fn pid_output_s(kp: int, ki: int, kd: int, e: int, integral: int, d: int) -> int {
    tdiv(kp * e + tdiv(ki * integral, 1000) + kd * d, 1000)
}

impl Pid {
    pub open spec fn wf(self) -> bool {
        &&& -GAIN_ABS_LIMIT <= self.kp <= GAIN_ABS_LIMIT
        &&& -GAIN_ABS_LIMIT <= self.ki <= GAIN_ABS_LIMIT
        &&& -GAIN_ABS_LIMIT <= self.kd <= GAIN_ABS_LIMIT
        &&& -PID_INPUT_ABS_LIMIT <= self.target <= PID_INPUT_ABS_LIMIT
        &&& -PID_INTEGRAL_ABS_LIMIT <= self.integral <= PID_INTEGRAL_ABS_LIMIT
        &&& -PID_ERROR_ABS_LIMIT <= self.prev_error <= PID_ERROR_ABS_LIMIT
    }

    pub fn new(kp: i64, ki: i64, kd: i64) -> (r: Pid)
        requires
            -GAIN_ABS_LIMIT <= kp <= GAIN_ABS_LIMIT,
            -GAIN_ABS_LIMIT <= ki <= GAIN_ABS_LIMIT,
            -GAIN_ABS_LIMIT <= kd <= GAIN_ABS_LIMIT,
        ensures
            r.wf(),
            r.kp == kp && r.ki == ki && r.kd == kd,
            r.target == 0 && r.integral == 0 && r.prev_error == 0 && r.prev_time == 0,
    {
        Pid { kp, ki, kd, target: 0, integral: 0, prev_error: 0, prev_time: 0 }
    }

    /// Change the regulation target; accumulated state is kept, so a
    /// caller starting an unrelated task must also call `reset`.
    pub fn set_target(&mut self, target: i64)
        requires
            -PID_INPUT_ABS_LIMIT <= target <= PID_INPUT_ABS_LIMIT,
        ensures
            *final(self) == (Pid { target, ..*old(self) }),
    {
        self.target = target;
    }

    /// Clear the accumulator and the previous error.
    pub fn reset(&mut self)
        ensures
            *final(self) == (Pid { integral: 0, prev_error: 0, ..*old(self) }),
    {
        self.integral = 0;
        self.prev_error = 0;
    }

    /// One controller step at monotonic time `now`, regulating
    /// `current` toward the target.
    pub fn poll(&mut self, current: i64, now: u64) -> (r: i64)
        requires
            old(self).wf(),
            -PID_INPUT_ABS_LIMIT <= current <= PID_INPUT_ABS_LIMIT,
        ensures
            final(self).wf(),
            ({
                let dt = pid_dt_s(old(self).prev_time, now);
                let e = pid_error_s(old(self).target as int, current as int);
                let i = pid_integral_s(old(self).integral as int, e, dt);
                let d = pid_derivative_s(e, old(self).prev_error as int, dt);
                &&& *final(self) == (Pid {
                    integral: i as i64,
                    prev_error: e as i64,
                    prev_time: now,
                    ..*old(self)
                })
                &&& r == pid_output_s(
                    old(self).kp as int,
                    old(self).ki as int,
                    old(self).kd as int,
                    e,
                    i,
                    d,
                )
            }),
            -PID_OUT_ABS_LIMIT <= r <= PID_OUT_ABS_LIMIT,
    {
        let dt_raw = elapsed(self.prev_time, now);
        let dt: i64 = if dt_raw > PID_DT_CAP_MS {
            PID_DT_CAP_MS as i64
        } else {
            dt_raw as i64
        };
        let e = clamp(self.target - current, -PID_ERROR_ABS_LIMIT, PID_ERROR_ABS_LIMIT);
        proof {
            crate::num::lemma_abs_mul_le(e as int, dt as int, PID_ERROR_ABS_LIMIT as int, 1000);
        }
        let i = clamp(
            self.integral + e * dt,
            -PID_INTEGRAL_ABS_LIMIT,
            PID_INTEGRAL_ABS_LIMIT,
        );
        let d: i64 = if dt > 0 {
            div_trunc((e - self.prev_error) * 1000, dt)
        } else {
            0
        };
        proof {
            crate::num::lemma_abs_mul_le(self.kp as int, e as int, GAIN_ABS_LIMIT as int, PID_ERROR_ABS_LIMIT as int);
            crate::num::lemma_abs_mul_le(self.ki as int, i as int, GAIN_ABS_LIMIT as int, PID_INTEGRAL_ABS_LIMIT as int);
            crate::num::lemma_tdiv_abs_le(self.ki * i, 1_000_000_000_000_000_000, 1000);
            if dt > 0 {
                crate::num::lemma_abs_mul_le((e - self.prev_error) as int, 1000, 2_000_000_000, 1000);
                crate::num::lemma_tdiv_abs_le((e - self.prev_error) * 1000, 2_000_000_000_000, dt as int);
            }
            crate::num::lemma_abs_mul_le(self.kd as int, d as int, GAIN_ABS_LIMIT as int, 2_000_000_000_000);
        }
        let sum = self.kp * e + div_trunc(self.ki * i, 1000) + self.kd * d;
        proof {
            crate::num::lemma_tdiv_abs_le(sum as int, PID_OUT_ABS_LIMIT as int, 1000);
        }
        let out = div_trunc(sum, 1000);
        self.integral = i;
        self.prev_error = e;
        self.prev_time = now;
        out
    }
}

} // verus!
