//! Actuator latches: a pneumatic (air) port held high or low, or a
//! motor briefly driven toward an end stop and then braked. A
//! `LatchAction` is the one-shot path segment that moves a latch and
//! finishes as soon as it has written its command once.

use vstd::prelude::*;

use crate::num::{elapsed, elapsed_s};
use crate::packet::{CmdPacket, MotorCmd, TriportCmd, MOTOR_PORT_COUNT, TRIPORT_COUNT};

verus! {

/// How long a motor latch keeps driving after its last change before
/// it falls back to braking, in milliseconds.
pub const LATCH_MOTOR_TIME_MS: u64 = 50;

/// Drive voltage of a motor latch, in millivolts.
pub const LATCH_VOLTAGE_MV: i64 = 3_000;

#[derive(Clone, Copy, Debug, PartialEq, Eq, Structural)]
pub enum Latch {
    Air { port: usize, active: bool, rev: bool },
    Motor { port: usize, last_change: u64, active: bool, rev: bool },
}

/// The latch state after `grab`.
pub open spec fn latch_grab_s(l: Latch, now: u64) -> Latch {
    match l {
        Latch::Air { port, active, rev } => Latch::Air { port, active: !rev, rev },
        Latch::Motor { port, last_change, active, rev } => Latch::Motor {
            port,
            last_change: now,
            active: !rev,
            rev,
        },
    }
}

/// The latch state after `release`.
pub open spec fn latch_release_s(l: Latch, now: u64) -> Latch {
    match l {
        Latch::Air { port, active, rev } => Latch::Air { port, active: rev, rev },
        Latch::Motor { port, last_change, active, rev } => Latch::Motor {
            port,
            last_change: now,
            active: rev,
            rev,
        },
    }
}

/// The latch state after `toggle`.
pub open spec fn latch_toggle_s(l: Latch, now: u64) -> Latch {
    match l {
        Latch::Air { port, active, rev } => Latch::Air { port, active: !active, rev },
        Latch::Motor { port, last_change, active, rev } => Latch::Motor {
            port,
            last_change: now,
            active: !active,
            rev,
        },
    }
}

/// The three-wire command an air latch writes.
pub open spec fn latch_triport_cmd_s(active: bool, rev: bool) -> TriportCmd {
    if active != rev {
        TriportCmd::DigitalHigh
    } else {
        TriportCmd::DigitalLow
    }
}

/// The motor command a motor latch writes at time `now`.
pub open spec fn latch_motor_cmd_s(last_change: u64, active: bool, rev: bool, now: u64) -> MotorCmd {
    if elapsed_s(last_change, now) > LATCH_MOTOR_TIME_MS {
        MotorCmd::BrakeBrake
    } else if active != rev {
        MotorCmd::Voltage(LATCH_VOLTAGE_MV)
    } else {
        MotorCmd::Voltage((-LATCH_VOLTAGE_MV) as i64)
    }
}

impl Latch {
    pub open spec fn wf(self) -> bool {
        match self {
            Latch::Air { port, .. } => 1 <= port <= TRIPORT_COUNT,
            Latch::Motor { port, .. } => 1 <= port <= MOTOR_PORT_COUNT,
        }
    }

    /// A released air latch on three-wire `port`.
    pub fn new_air(port: usize, rev: bool) -> (r: Latch)
        requires
            1 <= port <= TRIPORT_COUNT,
        ensures
            r == (Latch::Air { port, active: false, rev }),
            r.wf(),
    {
        Latch::Air { port, active: false, rev }
    }

    /// A released motor latch on motor `port`.
    pub fn new_motor(port: usize, rev: bool, now: u64) -> (r: Latch)
        requires
            1 <= port <= MOTOR_PORT_COUNT,
        ensures
            r == (Latch::Motor { port, last_change: now, active: false, rev }),
            r.wf(),
    {
        Latch::Motor { port, last_change: now, active: false, rev }
    }

    /// Engage the latch.
    pub fn grab(&mut self, now: u64)
        ensures
            *final(self) == latch_grab_s(*old(self), now),
    {
        match self {
            Latch::Air { active, rev, .. } => {
                *active = !*rev;
            }
            Latch::Motor { active, last_change, rev, .. } => {
                *active = !*rev;
                *last_change = now;
            }
        }
    }

    /// Disengage the latch.
    pub fn release(&mut self, now: u64)
        ensures
            *final(self) == latch_release_s(*old(self), now),
    {
        match self {
            Latch::Air { active, rev, .. } => {
                *active = *rev;
            }
            Latch::Motor { active, last_change, rev, .. } => {
                *active = *rev;
                *last_change = now;
            }
        }
    }

    /// Flip the latch.
    pub fn toggle(&mut self, now: u64)
        ensures
            *final(self) == latch_toggle_s(*old(self), now),
    {
        match self {
            Latch::Air { active, .. } => {
                *active = !*active;
            }
            Latch::Motor { active, last_change, .. } => {
                *active = !*active;
                *last_change = now;
            }
        }
    }

    /// Write this latch's command into the outbound packet.
    pub fn write_pkt(&self, pkt: &mut CmdPacket, now: u64)
        requires
            self.wf(),
            old(pkt).wf(),
        ensures
            final(pkt).wf(),
            match *self {
                Latch::Air { port, active, rev } => {
                    &&& final(pkt).triports@ == old(pkt).triports@.update(
                        port - 1,
                        latch_triport_cmd_s(active, rev),
                    )
                    &&& final(pkt).motors@ == old(pkt).motors@
                },
                Latch::Motor { port, last_change, active, rev } => {
                    &&& final(pkt).motors@ == old(pkt).motors@.update(
                        port - 1,
                        latch_motor_cmd_s(last_change, active, rev, now),
                    )
                    &&& final(pkt).triports@ == old(pkt).triports@
                },
            },
    {
        match self {
            Latch::Air { port, active, rev } => {
                let cmd = if *active != *rev {
                    TriportCmd::DigitalHigh
                } else {
                    TriportCmd::DigitalLow
                };
                pkt.set_triport(*port, cmd);
            }
            Latch::Motor { port, last_change, active, rev } => {
                let cmd = if elapsed(*last_change, now) > LATCH_MOTOR_TIME_MS {
                    MotorCmd::BrakeBrake
                } else if *active != *rev {
                    MotorCmd::Voltage(LATCH_VOLTAGE_MV)
                } else {
                    MotorCmd::Voltage(-LATCH_VOLTAGE_MV)
                };
                pkt.set_motor(*port, cmd);
            }
        }
    }
}

/// A one-shot segment that engages or releases a latch, writes the
/// command once, and then reports completion.
#[derive(Clone, Copy, Debug, PartialEq, Eq, Structural)]
pub struct LatchAction {
    pub latch: Latch,
    pub release: bool,
    pub wrote: bool,
}

/// The latch state after one `follow` tick of a `LatchAction`.
pub open spec fn latch_action_step_s(a: LatchAction, now: u64) -> Latch {
    if a.release {
        latch_release_s(a.latch, now)
    } else {
        latch_grab_s(a.latch, now)
    }
}

impl LatchAction {
    pub open spec fn wf(self) -> bool {
        self.latch.wf()
    }

    pub fn new(latch: Latch, release: bool) -> (r: LatchAction)
        ensures
            r == (LatchAction { latch, release, wrote: false }),
    {
        LatchAction { latch, release, wrote: false }
    }
}

} // verus!
