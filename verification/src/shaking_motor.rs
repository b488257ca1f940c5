//! A motor that watches its own encoder and, when its stuck test
//! trips, rattles back and forth at full power for a short interval
//! instead of driving at the requested power.
//!
//! Encoder readings are milliradians, powers thousandths of full
//! scale, time milliseconds.

use vstd::prelude::*;

use crate::num::{elapsed, elapsed_s};
use crate::packet::{CmdPacket, EncoderReading, MotorCmd, SensorPacket, ENCODER_ABS_LIMIT, MOTOR_PORT_COUNT};

verus! {

/// Largest accepted encoder reading or threshold magnitude.
pub const SHAKING_READING_ABS_LIMIT: i64 = ENCODER_ABS_LIMIT;

/// Largest accepted power magnitude, in thousandths.
pub const SHAKING_POWER_ABS_LIMIT: i64 = 1_000_000;

pub struct ShakingMotor {
    pub update_time: u64,
    pub update_interval: u64,
    pub motor: usize,
    pub radians_a: i64,
    pub radians_b: i64,
    pub stuck_threshold: i64,
    pub power_a: i64,
    pub power_b: i64,
    pub shaking_time: u64,
    pub shaking_interval: u64,
    pub shaking_dir: bool,
    pub power: i64,
}

/// State after folding in one sensor snapshot: at most once per update
/// interval, and only when the encoder reported a reading.
pub open spec fn shaking_update_s(m: ShakingMotor, encoders: Seq<EncoderReading>, now: u64) -> ShakingMotor {
    if elapsed_s(m.update_time, now) >= m.update_interval {
        match encoders[m.motor - 1] {
            EncoderReading::Radians(r) => ShakingMotor {
                radians_a: r,
                radians_b: m.radians_a,
                update_time: now,
                ..m
            },
            EncoderReading::Missing => m,
        }
    } else {
        m
    }
}

/// The stuck test over the buffered readings and powers.
pub open spec fn shaking_stuck_s(m: ShakingMotor) -> bool {
    let dr = if m.radians_a >= m.radians_b {
        m.radians_a - m.radians_b
    } else {
        m.radians_b - m.radians_a
    };
    let ps = m.power_a + m.power_b;
    let pa = if ps >= 0 {
        ps
    } else {
        -ps
    };
    dr > m.stuck_threshold && pa > m.stuck_threshold
}

/// State and motor command of one power-writing tick: rattle while the
/// shaking interval runs, otherwise start shaking when stuck or drive
/// at the requested power.
pub open spec fn shaking_write_s(m: ShakingMotor, now: u64) -> (ShakingMotor, Option<MotorCmd>) {
    if elapsed_s(m.shaking_time, now) < m.shaking_interval {
        let cmd = if m.shaking_dir {
            MotorCmd::Voltage((-12_000) as i64)
        } else {
            MotorCmd::Voltage(12_000 as i64)
        };
        (ShakingMotor { shaking_dir: !m.shaking_dir, ..m }, Some(cmd))
    } else if shaking_stuck_s(m) {
        (ShakingMotor { shaking_time: now, ..m }, None)
    } else {
        (m, Some(MotorCmd::Voltage((12 * m.power) as i64)))
    }
}

impl ShakingMotor {
    pub open spec fn wf(self) -> bool {
        &&& 1 <= self.motor <= MOTOR_PORT_COUNT
        &&& -SHAKING_READING_ABS_LIMIT <= self.radians_a <= SHAKING_READING_ABS_LIMIT
        &&& -SHAKING_READING_ABS_LIMIT <= self.radians_b <= SHAKING_READING_ABS_LIMIT
        &&& 0 <= self.stuck_threshold <= SHAKING_READING_ABS_LIMIT
        &&& -SHAKING_POWER_ABS_LIMIT <= self.power_a <= SHAKING_POWER_ABS_LIMIT
        &&& -SHAKING_POWER_ABS_LIMIT <= self.power_b <= SHAKING_POWER_ABS_LIMIT
        &&& -SHAKING_POWER_ABS_LIMIT <= self.power <= SHAKING_POWER_ABS_LIMIT
    }

    pub fn new(
        motor: usize,
        update_interval: u64,
        stuck_threshold: i64,
        shaking_interval: u64,
        now: u64,
    ) -> (r: ShakingMotor)
        requires
            1 <= motor <= MOTOR_PORT_COUNT,
            0 <= stuck_threshold <= SHAKING_READING_ABS_LIMIT,
        ensures
            r.wf(),
            r == (ShakingMotor {
                update_time: now,
                update_interval,
                motor,
                radians_a: 0,
                radians_b: 0,
                stuck_threshold,
                power_a: 0,
                power_b: 0,
                shaking_time: now,
                shaking_interval,
                shaking_dir: false,
                power: 0,
            }),
    {
        ShakingMotor {
            update_time: now,
            update_interval,
            motor,
            radians_a: 0,
            radians_b: 0,
            stuck_threshold,
            power_a: 0,
            power_b: 0,
            shaking_time: now,
            shaking_interval,
            shaking_dir: false,
            power: 0,
        }
    }

    /// Fold in one sensor snapshot.
    pub fn update(&mut self, pkt: &SensorPacket, now: u64)
        requires
            old(self).wf(),
            pkt.wf(),
        ensures
            *final(self) == shaking_update_s(*old(self), pkt.encoders@, now),
            final(self).wf(),
    {
        if elapsed(self.update_time, now) >= self.update_interval {
            match pkt.encoders[self.motor - 1] {
                EncoderReading::Radians(r) => {
                    self.radians_b = self.radians_a;
                    self.radians_a = r;
                    self.update_time = now;
                }
                EncoderReading::Missing => {}
            }
        }
    }

    /// Whether the stuck test trips on the buffered state.
    pub fn is_stuck(&self) -> (r: bool)
        requires
            self.wf(),
        ensures
            r == shaking_stuck_s(*self),
    {
        let dr = if self.radians_a >= self.radians_b {
            self.radians_a - self.radians_b
        } else {
            self.radians_b - self.radians_a
        };
        let ps = self.power_a + self.power_b;
        let pa = if ps >= 0 {
            ps
        } else {
            -ps
        };
        dr > self.stuck_threshold && pa > self.stuck_threshold
    }

    /// Write this tick's motor command.
    pub fn write_powers(&mut self, pkt: &mut CmdPacket, now: u64)
        requires
            old(self).wf(),
            old(pkt).wf(),
        ensures
            final(self).wf(),
            final(pkt).wf(),
            ({
                let (m1, cmd) = shaking_write_s(*old(self), now);
                &&& *final(self) == m1
                &&& match cmd {
                    Some(c) => final(pkt).motors@ == old(pkt).motors@.update(
                        old(self).motor - 1,
                        c,
                    ),
                    None => final(pkt).motors@ == old(pkt).motors@,
                }
                &&& final(pkt).triports@ == old(pkt).triports@
            }),
    {
        if elapsed(self.shaking_time, now) < self.shaking_interval {
            let cmd = if self.shaking_dir {
                MotorCmd::Voltage(-12_000)
            } else {
                MotorCmd::Voltage(12_000)
            };
            pkt.set_motor(self.motor, cmd);
            self.shaking_dir = !self.shaking_dir;
        } else if self.is_stuck() {
            self.shaking_time = now;
        } else {
            pkt.set_motor(self.motor, MotorCmd::Voltage(12 * self.power));
        }
    }

    pub fn set_power(&mut self, power: i64)
        requires
            -SHAKING_POWER_ABS_LIMIT <= power <= SHAKING_POWER_ABS_LIMIT,
        ensures
            *final(self) == (ShakingMotor { power, ..*old(self) }),
    {
        self.power = power;
    }
}

} // verus!
