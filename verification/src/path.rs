//! The path-segment engine: the per-tick command type, the leaf motion
//! segments, the closed segment variant set, and the `Path` container
//! that sequences and drives segments one active segment at a time.
//!
//! The variant set is closed and every variant is primitive (ready to
//! run as-is; `finished_transform` answers true), so resolution is a
//! single activation; nesting is expressed through sub-paths and the
//! modifier wrappers rather than through expansion. Every tick the
//! active segment is first asked whether it has ended (`end_follow`);
//! a segment that ends is retired within the same tick and its
//! successor segments are spliced in front of the queue, so a
//! zero-duration segment never costs a tick of stale output. That
//! same-tick re-evaluation is a recursion whose termination is proved
//! (see `path_msize`), which is stronger than bounding it with a
//! re-entry counter.

use vstd::prelude::*;

use crate::latch::LatchAction;
use crate::modifier_path::{Nop, RepeatSegment, TimedSegment, WhileSegment};
use crate::num::elapsed_s;
use crate::odometry::Odom;
use crate::pid::Pid;
use crate::packet::{CmdPacket, MotorCmd, PktView, MOTOR_PORT_COUNT};
use crate::ramsete::{Ramsete, RAMSETE_TARGET_ABS_LIMIT};
use crate::shaking_motor::ShakingMotor;
use crate::trig::{cos_s, sin_s};
use crate::vec2::{v2_add, v2_clamp, v2_dot, v2_mag, v2_sub, Vec2, V2, MAG_ABS_LIMIT};

verus! {

broadcast use {
    vstd::seq::axiom_seq_index_decreases,
    vstd::std_specs::vec::axiom_vec_decreases_to_view,
    vstd::std_specs::vec::axiom_vec_index_decreases,
    vstd::seq::axiom_seq_subrange_decreases,
};

/// One tick's actuator command: a direct voltage pair, a (linear,
/// angular) velocity pair, or the signal that the autonomous sequence
/// has released control back to the driver.
#[derive(Clone, Copy, Debug, PartialEq, Eq, Structural)]
pub enum PathOutput {
    Voltages(Vec2),
    LinearAngularVelocity(Vec2),
    SwitchToDriver,
}

/// Open-loop constant-voltage drive for a fixed duration. Power is in
/// thousandths of full scale, the duration in milliseconds.
#[derive(Clone, Copy, Debug, PartialEq, Eq, Structural)]
pub struct Ram {
    pub pow: i64,
    pub dur: u64,
    pub start: u64,
}

impl Ram {
    pub fn new(pow: i64, dur: u64, now: u64) -> (r: Ram)
        ensures
            r == (Ram { pow, dur, start: now }),
    {
        Ram { pow, dur, start: now }
    }

    /// Whether the duration has elapsed at time `now`.
    pub open spec fn done_s(self, now: u64) -> bool {
        elapsed_s(self.start, now) >= self.dur
    }
}

/// Heading-seek segment: primes the shared heading PID with the
/// shortest-rotation image of its target and turns in place until the
/// heading has stayed within tolerance for a full debounce window.
#[derive(Clone, Copy, Debug, PartialEq, Eq, Structural)]
pub struct TurnTo {
    pub target_heading: i64,
    pub last_out_of_tol: u64,
}

/// Heading tolerance of `TurnTo`, in millidegrees (two degrees).
pub const TURN_TOL_MDEG: i64 = 2_000;

/// Debounce window of `TurnTo`: the heading must stay within tolerance
/// this long, in milliseconds, before the segment reports completion.
pub const TURN_DEBOUNCE_MS: u64 = 200;

/// Largest accepted `TurnTo` target magnitude, in millidegrees.
pub const TURNTO_TARGET_ABS_LIMIT: i64 = 4_000_000_000;

impl TurnTo {
    pub fn new(target_heading: i64) -> (r: TurnTo)
        ensures
            r == (TurnTo { target_heading, last_out_of_tol: 0 }),
    {
        TurnTo { target_heading, last_out_of_tol: 0 }
    }

    pub open spec fn wf(self) -> bool {
        -TURNTO_TARGET_ABS_LIMIT <= self.target_heading <= TURNTO_TARGET_ABS_LIMIT
    }

    /// Whether `heading` is outside the two-degree tolerance band.
    pub open spec fn out_of_tol_s(self, heading: int) -> bool {
        heading - self.target_heading > TURN_TOL_MDEG || self.target_heading - heading
            > TURN_TOL_MDEG
    }

    /// Whether the heading has stayed in tolerance for the whole
    /// debounce window ending at `now`.
    pub open spec fn done_s(self, now: u64) -> bool {
        elapsed_s(self.last_out_of_tol, now) > TURN_DEBOUNCE_MS
    }
}

/// One `follow` tick of a heading seek: poll the PID at the current
/// heading and restamp the out-of-tolerance time when the heading is
/// outside the band. Yields the new segment, the new PID state and the
/// polled output power.
pub open spec fn turnto_step_s(t: TurnTo, pid: Pid, heading: int, now: u64) -> (TurnTo, Pid, int) {
    let dt = crate::pid::pid_dt_s(pid.prev_time, now);
    let e = crate::pid::pid_error_s(pid.target as int, heading);
    let i = crate::pid::pid_integral_s(pid.integral as int, e, dt);
    let d = crate::pid::pid_derivative_s(e, pid.prev_error as int, dt);
    let pow = crate::pid::pid_output_s(pid.kp as int, pid.ki as int, pid.kd as int, e, i, d);
    let t1 = TurnTo {
        target_heading: t.target_heading,
        last_out_of_tol: if t.out_of_tol_s(heading) {
            now
        } else {
            t.last_out_of_tol
        },
    };
    let pid1 = Pid { integral: i as i64, prev_error: e as i64, prev_time: now, ..pid };
    (t1, pid1, pow)
}

impl TurnTo {
    /// Activation: normalise the target into the branch nearest the
    /// current heading and prime the shared PID with it.
    pub fn start_step(&mut self, odom: &Odom, pid: &mut Pid, now: u64)
        requires
            old(self).wf(),
            odom.wf(),
            old(pid).wf(),
        ensures
            final(self).wf(),
            final(pid).wf(),
            ({
                let tgt = crate::trig::optimise_target_heading_s(
                    odom.heading_s(),
                    old(self).target_heading as int,
                );
                &&& *final(self) == (TurnTo { target_heading: tgt as i64, last_out_of_tol: now })
                &&& *final(pid) == (Pid { target: tgt as i64, integral: 0, prev_error: 0, ..*old(pid) })
            }),
    {
        let heading = odom.heading();
        let tgt = crate::trig::optimise_target_heading(heading, self.target_heading);
        self.target_heading = tgt;
        self.last_out_of_tol = now;
        pid.set_target(tgt);
        pid.reset();
    }

    /// One control tick of the heading seek.
    pub fn follow_step(&mut self, odom: &Odom, pid: &mut Pid, now: u64) -> (out: PathOutput)
        requires
            old(self).wf(),
            odom.wf(),
            old(pid).wf(),
        ensures
            final(self).wf(),
            final(pid).wf(),
            ({
                let (t1, pid1, pow) = turnto_step_s(
                    *old(self),
                    *old(pid),
                    odom.heading_s(),
                    now,
                );
                &&& *final(self) == t1
                &&& *final(pid) == pid1
                &&& out == PathOutput::Voltages(Vec2 { x: (-pow) as i64, y: pow as i64 })
            }),
    {
        let heading = odom.heading();
        let pow = pid.poll(heading, now);
        let diff = heading - self.target_heading;
        if diff > TURN_TOL_MDEG || -diff > TURN_TOL_MDEG {
            self.last_out_of_tol = now;
        }
        PathOutput::Voltages(Vec2::new(-pow, pow))
    }
}

/// Drive toward one (position, heading) target under the trajectory
/// law; reached once the planar distance is under a fixed tolerance,
/// with the final heading left to the next segment.
pub struct RamsetePoint {
    pub target: (Vec2, i64),
    pub controller: Ramsete,
}

/// Distance tolerance of `RamsetePoint`, in millimetres.
pub const RAMSETE_POINT_TOL_MM: i64 = 50;

/// Whether `pos` is within `tol` of `tpos`, measured on the saturated
/// difference vector.
pub open spec fn within_distance_s(pos: V2, tpos: V2, tol: int) -> bool {
    v2_mag(v2_clamp(v2_sub(pos, tpos), MAG_ABS_LIMIT as int)) < tol
}

impl RamsetePoint {
    pub open spec fn wf(self) -> bool {
        &&& self.controller.wf()
        &&& -RAMSETE_TARGET_ABS_LIMIT <= self.target.0.x <= RAMSETE_TARGET_ABS_LIMIT
        &&& -RAMSETE_TARGET_ABS_LIMIT <= self.target.0.y <= RAMSETE_TARGET_ABS_LIMIT
        &&& -RAMSETE_TARGET_ABS_LIMIT <= self.target.1 <= RAMSETE_TARGET_ABS_LIMIT
    }

    pub fn new(target: (Vec2, i64), controller: Ramsete) -> (r: RamsetePoint)
        requires
            controller.wf(),
            -RAMSETE_TARGET_ABS_LIMIT <= target.0.x <= RAMSETE_TARGET_ABS_LIMIT,
            -RAMSETE_TARGET_ABS_LIMIT <= target.0.y <= RAMSETE_TARGET_ABS_LIMIT,
            -RAMSETE_TARGET_ABS_LIMIT <= target.1 <= RAMSETE_TARGET_ABS_LIMIT,
        ensures
            r.wf(),
            r.target == target,
            r.controller == controller,
    {
        RamsetePoint { target, controller }
    }

    pub open spec fn done_s(self, odom: Odom) -> bool {
        within_distance_s(
            v2_add(odom.start_pos@, odom.rel_pos@),
            self.target.0@,
            RAMSETE_POINT_TOL_MM as int,
        )
    }
}

/// Waypoint-passing test of `RamsetePath`: close in both distance and
/// heading, or already past the waypoint's target-heading line (the
/// error vector's projection on the heading direction is non-negative).
pub open spec fn waypoint_passed_s(t: (Vec2, i64), pos: V2, heading: int) -> bool {
    let diff = v2_clamp(v2_sub(pos, t.0@), MAG_ABS_LIMIT as int);
    let nor = V2 { x: cos_s(t.1 as int), y: sin_s(t.1 as int) };
    (v2_mag(diff) < RAMSETE_PATH_DIST_TOL_MM && {
        let dh = (t.1 as int) - heading;
        -RAMSETE_PATH_HEAD_TOL_MDEG < dh < RAMSETE_PATH_HEAD_TOL_MDEG
    }) || v2_dot(diff, nor) >= 0
}

/// Advance past every waypoint already passed at the current pose:
/// yields the remaining queue, the new current waypoint and the
/// controller target after the advance.
pub open spec fn rp_advance_s(
    targets: Seq<(Vec2, i64)>,
    current: Option<(Vec2, i64)>,
    ctrl_target: (Vec2, i64),
    pos: V2,
    heading: int,
) -> (Seq<(Vec2, i64)>, Option<(Vec2, i64)>, (Vec2, i64))
    decreases targets.len(),
{
    match current {
        Option::None => (targets, current, ctrl_target),
        Option::Some(t) => {
            if !waypoint_passed_s(t, pos, heading) {
                (targets, current, ctrl_target)
            } else if targets.len() == 0 {
                (targets, Option::None, ctrl_target)
            } else {
                rp_advance_s(
                    targets.drop_first(),
                    Option::Some(targets[0]),
                    targets[0],
                    pos,
                    heading,
                )
            }
        },
    }
}

/// The advance never grows the queue, and a path only runs out of a
/// current waypoint together with its queue.
pub proof fn lemma_rp_advance_consumes(
    targets: Seq<(Vec2, i64)>,
    current: Option<(Vec2, i64)>,
    ctrl_target: (Vec2, i64),
    pos: V2,
    heading: int,
)
    ensures
        ({
            let (ts, cur, c) = rp_advance_s(targets, current, ctrl_target, pos, heading);
            &&& ts.len() <= targets.len()
            &&& (cur is None && current is Some ==> ts.len() == 0)
            &&& (current is None ==> ts == targets && cur is None)
        }),
    decreases targets.len(),
{
    match current {
        Option::None => {},
        Option::Some(t) => {
            if waypoint_passed_s(t, pos, heading) && targets.len() > 0 {
                lemma_rp_advance_consumes(
                    targets.drop_first(),
                    Option::Some(targets[0]),
                    targets[0],
                    pos,
                    heading,
                );
            }
        },
    }
}

/// Multi-waypoint trajectory tracking: drives toward the current
/// waypoint and advances through the queue as waypoints are passed.
pub struct RamsetePath {
    pub targets: Vec<(Vec2, i64)>,
    pub current_target: Option<(Vec2, i64)>,
    pub controller: Ramsete,
}

/// Distance tolerance for passing a waypoint, in millimetres.
pub const RAMSETE_PATH_DIST_TOL_MM: i64 = 80;

/// Heading tolerance for passing a waypoint, in millidegrees.
pub const RAMSETE_PATH_HEAD_TOL_MDEG: i64 = 30_000;

pub open spec fn waypoint_in_range(t: (Vec2, i64)) -> bool {
    &&& -RAMSETE_TARGET_ABS_LIMIT <= t.0.x <= RAMSETE_TARGET_ABS_LIMIT
    &&& -RAMSETE_TARGET_ABS_LIMIT <= t.0.y <= RAMSETE_TARGET_ABS_LIMIT
    &&& -RAMSETE_TARGET_ABS_LIMIT <= t.1 <= RAMSETE_TARGET_ABS_LIMIT
}

impl RamsetePath {
    pub open spec fn wf(self) -> bool {
        &&& self.controller.wf()
        &&& forall|i: int| 0 <= i < self.targets@.len() ==> waypoint_in_range(#[trigger] self.targets@[i])
        &&& match self.current_target {
            Option::Some(t) => waypoint_in_range(t),
            Option::None => self.targets@.len() == 0,
        }
    }

    /// Builds the segment and primes the controller with the first
    /// waypoint, if any.
    pub fn new(targets: Vec<(Vec2, i64)>, controller: Ramsete) -> (r: RamsetePath)
        requires
            controller.wf(),
            forall|i: int| 0 <= i < targets@.len() ==> waypoint_in_range(#[trigger] targets@[i]),
        ensures
            r.wf(),
            targets@.len() == 0 ==> r.targets@ == targets@ && r.current_target is None
                && r.controller == controller,
            targets@.len() > 0 ==> r.targets@ == targets@.drop_first()
                && r.current_target == Option::Some(targets@[0])
                && r.controller == (Ramsete { target: targets@[0], ..controller }),
    {
        let mut targets = targets;
        let mut controller = controller;
        if targets.len() > 0 {
            let first = targets.remove(0);
            controller.set_target(first);
            RamsetePath { targets, current_target: Some(first), controller }
        } else {
            RamsetePath { targets, current_target: None, controller }
        }
    }

    pub open spec fn done_s(self) -> bool {
        self.current_target is None
    }

    /// One control tick: advance past every waypoint already passed,
    /// then command toward the current waypoint, or idle when the
    /// queue has been consumed.
    pub fn follow_step(&mut self, odom: &Odom) -> (out: PathOutput)
        requires
            old(self).wf(),
            odom.wf(),
        ensures
            final(self).wf(),
            ({
                let pos = v2_add(odom.start_pos@, odom.rel_pos@);
                let heading = odom.heading_s();
                let (ts, cur, ct) = rp_advance_s(
                    old(self).targets@,
                    old(self).current_target,
                    old(self).controller.target,
                    pos,
                    heading,
                );
                &&& final(self).targets@ == ts
                &&& final(self).current_target == cur
                &&& final(self).controller == (Ramsete { target: ct, ..old(self).controller })
                &&& match cur {
                    Option::Some(_) => out matches PathOutput::LinearAngularVelocity(v) && v@
                        == crate::ramsete::ramsete_output_s(
                        old(self).controller.beta as int,
                        old(self).controller.zeta as int,
                        ct.0@,
                        ct.1 as int,
                        pos,
                        heading,
                    ),
                    Option::None => out == PathOutput::Voltages(Vec2 { x: 0, y: 0 }),
                }
            }),
            final(self).targets@.len() <= old(self).targets@.len(),
    {
        let ghost pos = v2_add(odom.start_pos@, odom.rel_pos@);
        let ghost heading0 = odom.heading_s();
        proof {
            lemma_rp_advance_consumes(
                self.targets@,
                self.current_target,
                self.controller.target,
                pos,
                heading0,
            );
        }
        loop
            invariant
                self.wf(),
                odom.wf(),
                pos == v2_add(odom.start_pos@, odom.rel_pos@),
                heading0 == odom.heading_s(),
                rp_advance_s(self.targets@, self.current_target, self.controller.target, pos, heading0)
                    == rp_advance_s(
                    old(self).targets@,
                    old(self).current_target,
                    old(self).controller.target,
                    pos,
                    heading0,
                ),
                self.targets@.len() <= old(self).targets@.len(),
                self.controller.beta == old(self).controller.beta,
                self.controller.zeta == old(self).controller.zeta,
            ensures
                self.wf(),
                ({
                    let (ts, cur, ct) = rp_advance_s(
                        old(self).targets@,
                        old(self).current_target,
                        old(self).controller.target,
                        pos,
                        heading0,
                    );
                    &&& self.targets@ == ts
                    &&& self.current_target == cur
                    &&& self.controller == (Ramsete { target: ct, ..old(self).controller })
                    &&& !(cur matches Option::Some(t) && waypoint_passed_s(t, pos, heading0))
                }),
                self.targets@.len() <= old(self).targets@.len(),
            decreases self.targets@.len() + 1 + (if self.current_target is Some {
                1int
            } else {
                0int
            }),
        {
            let ghost pre_t = self.targets@;
            let ghost pre_c = self.current_target;
            let ghost pre_ct = self.controller.target;
            match self.current_target {
                Option::None => {
                    proof {
                        assert(rp_advance_s(pre_t, pre_c, pre_ct, pos, heading0) == (
                            pre_t,
                            pre_c,
                            pre_ct,
                        ));
                    }
                    break;
                },
                Option::Some(t) => {
                    let passed = waypoint_passed(t, odom);
                    if !passed {
                        proof {
                            assert(rp_advance_s(pre_t, pre_c, pre_ct, pos, heading0) == (
                                pre_t,
                                pre_c,
                                pre_ct,
                            ));
                        }
                        break;
                    }
                    if self.targets.len() == 0 {
                        self.current_target = None;
                        proof {
                            assert(rp_advance_s(pre_t, pre_c, pre_ct, pos, heading0)
                                == rp_advance_s(
                                self.targets@,
                                self.current_target,
                                self.controller.target,
                                pos,
                                heading0,
                            ));
                        }
                    } else {
                        let nt = self.targets.remove(0);
                        self.current_target = Some(nt);
                        self.controller.set_target(nt);
                        proof {
                            assert(self.targets@ == pre_t.drop_first());
                            assert(rp_advance_s(pre_t, pre_c, pre_ct, pos, heading0)
                                == rp_advance_s(
                                self.targets@,
                                self.current_target,
                                self.controller.target,
                                pos,
                                heading0,
                            ));
                        }
                    }
                },
            }
        }
        match self.current_target {
            Option::Some(_) => PathOutput::LinearAngularVelocity(
                self.controller.output_linear_angular(odom),
            ),
            Option::None => PathOutput::Voltages(Vec2::zero()),
        }
    }
}

/// Whether the robot at the estimated pose counts as past waypoint `t`.
fn waypoint_passed(t: (Vec2, i64), odom: &Odom) -> (r: bool)
    requires
        waypoint_in_range(t),
        odom.wf(),
    ensures
        r == waypoint_passed_s(
            t,
            v2_add(odom.start_pos@, odom.rel_pos@),
            odom.heading_s(),
        ),
{
    let pos = odom.pos();
    let heading = odom.heading();
    let diff = pos.sub(t.0).clamped(MAG_ABS_LIMIT);
    let nor = Vec2::new(crate::trig::cos_mdeg(t.1), crate::trig::sin_mdeg(t.1));
    proof {
        crate::trig::lemma_sin_bounds(t.1 as int);
        crate::trig::lemma_cos_bounds(t.1 as int);
    }
    let dh = t.1 - heading;
    (diff.mag() < RAMSETE_PATH_DIST_TOL_MM && -RAMSETE_PATH_HEAD_TOL_MDEG < dh && dh
        < RAMSETE_PATH_HEAD_TOL_MDEG) || diff.dot(nor) >= 0
}

/// A segment that writes a fixed command to a set of motors every tick
/// and never finishes on its own; it leaves the motors braking when
/// checked for completion or ended early.
pub struct PowerMotors {
    pub motors: Vec<usize>,
    pub pow: MotorCmd,
}

/// The motor slots after writing `cmd` to every 1-based port in
/// `motors`, in order.
pub open spec fn motors_written_s(motors: Seq<usize>, slots: Seq<MotorCmd>, cmd: MotorCmd) -> Seq<
    MotorCmd,
>
    decreases motors.len(),
{
    if motors.len() == 0 {
        slots
    } else {
        motors_written_s(motors.drop_first(), slots.update(motors[0] - 1, cmd), cmd)
    }
}

/// Writing preserves the number of slots.
pub proof fn lemma_motors_written_len(motors: Seq<usize>, slots: Seq<MotorCmd>, cmd: MotorCmd)
    requires
        forall|i: int| 0 <= i < motors.len() ==> 1 <= #[trigger] motors[i] <= slots.len(),
    ensures
        motors_written_s(motors, slots, cmd).len() == slots.len(),
    decreases motors.len(),
{
    if motors.len() > 0 {
        assert(forall|i: int| 0 <= i < motors.drop_first().len() ==> 1
            <= #[trigger] motors.drop_first()[i] <= slots.len());
        lemma_motors_written_len(motors.drop_first(), slots.update(motors[0] - 1, cmd), cmd);
    }
}

impl PowerMotors {
    pub open spec fn wf(self) -> bool {
        forall|i: int| 0 <= i < self.motors@.len() ==> 1 <= #[trigger] self.motors@[i]
            <= MOTOR_PORT_COUNT
    }

    pub fn new(motors: Vec<usize>, pow: MotorCmd) -> (r: PowerMotors)
        requires
            forall|i: int| 0 <= i < motors@.len() ==> 1 <= #[trigger] motors@[i] <= MOTOR_PORT_COUNT,
        ensures
            r.wf(),
            r.motors@ == motors@,
            r.pow == pow,
    {
        PowerMotors { motors, pow }
    }

    /// Write `cmd` to all configured motors.
    fn write_all(&self, pkt: &mut CmdPacket, cmd: MotorCmd)
        requires
            self.wf(),
            old(pkt).wf(),
        ensures
            final(pkt).wf(),
            final(pkt).motors@ == motors_written_s(self.motors@, old(pkt).motors@, cmd),
            final(pkt).triports@ == old(pkt).triports@,
    {
        proof {
            assert(self.motors@.subrange(0, self.motors@.len() as int) =~= self.motors@);
        }
        let mut i: usize = 0;
        while i < self.motors.len()
            invariant
                self.wf(),
                pkt.wf(),
                i <= self.motors@.len(),
                pkt.triports@ == old(pkt).triports@,
                motors_written_s(self.motors@.subrange(i as int, self.motors@.len() as int), pkt.motors@, cmd)
                    == motors_written_s(self.motors@, old(pkt).motors@, cmd),
            decreases self.motors@.len() - i,
        {
            let port = self.motors[i];
            proof {
                assert(self.motors@.subrange(i as int, self.motors@.len() as int).drop_first()
                    =~= self.motors@.subrange(i + 1, self.motors@.len() as int));
            }
            pkt.set_motor(port, cmd);
            i = i + 1;
        }
        proof {
            assert(self.motors@.subrange(
                self.motors@.len() as int,
                self.motors@.len() as int,
            ).len() == 0);
        }
    }
}

/// A primitive that hands control authority back to the driver: it
/// emits the switch signal every tick and never finishes on its own.
#[derive(Clone, Copy, Debug, PartialEq, Eq, Structural)]
pub struct SwitchController {}

/// The closed set of motion behaviors. Every segment here is primitive
/// (ready to run as-is): no variant expands into other segments, so
/// the container's resolution step is one activation.
pub enum Segment {
    Nop(Nop),
    Ram(Ram),
    TurnTo(TurnTo),
    RamsetePoint(RamsetePoint),
    RamsetePath(RamsetePath),
    PowerMotors(PowerMotors),
    SwitchController(SwitchController),
    LatchAction(LatchAction),
    Shaking(ShakingMotor),
    Timed(TimedSegment),
    Repeat(RepeatSegment),
    While(Box<WhileSegment>),
    Sub(Box<Path>),
}

/// An ordered, dynamically evolving sequence of segments, executed one
/// active segment at a time. `pending` is in run order: the segment at
/// index zero runs next. A `Path` is itself a segment, so paths nest.
pub struct Path {
    pub pending: Vec<Segment>,
    pub current: Option<Segment>,
}

/// Structural size of a segment, the termination measure of every
/// walk over a segment tree.
pub open spec fn seg_size(s: Segment) -> nat
    decreases s,
{
    match s {
        Segment::Timed(t) => 1 + seg_size(*t.seg),
        Segment::Repeat(rp) => 1 + seg_size(*rp.ref_seg) + seg_size(*rp.current_seg),
        Segment::While(w) => 1 + path_size(w.main) + path_size(w.secondary),
        Segment::Sub(p) => 1 + path_size(*p),
        _ => 1,
    }
}

pub open spec fn segs_size(s: Seq<Segment>) -> nat
    decreases s,
{
    if s.len() == 0 {
        0
    } else {
        seg_size(s[0]) + segs_size(s.drop_first())
    }
}

pub open spec fn opt_seg_size(o: Option<Segment>) -> nat
    decreases o,
{
    match o {
        Option::Some(s) => seg_size(s),
        Option::None => 0,
    }
}

pub open spec fn path_size(p: Path) -> nat
    decreases p,
{
    1 + segs_size(p.pending@) + opt_seg_size(p.current)
}

/// An element never outweighs its queue.
pub proof fn lemma_segs_size_index(s: Seq<Segment>, i: int)
    requires
        0 <= i < s.len(),
    ensures
        seg_size(s[i]) <= segs_size(s),
    decreases i,
{
    if i == 0 {
    } else {
        lemma_segs_size_index(s.drop_first(), i - 1);
    }
}

/// Size of the copy that `duplicate` yields: stable under duplication
/// and large enough to cover every later template refresh of the copy.
pub open spec fn seg_dsize(s: Segment) -> nat
    decreases s,
{
    match s {
        Segment::Timed(t) => 1 + seg_dsize(*t.seg),
        Segment::Repeat(r) => (2 + (r.max_count + 3) * seg_dsize(*r.ref_seg)) as nat,
        Segment::While(w) => 1 + path_dsize(w.main) + path_dsize(w.secondary),
        Segment::Sub(p) => 1 + path_dsize(*p),
        _ => 1,
    }
}

pub open spec fn segs_dsize(s: Seq<Segment>) -> nat
    decreases s,
{
    if s.len() == 0 {
        0
    } else {
        seg_dsize(s[0]) + segs_dsize(s.drop_first())
    }
}

pub open spec fn path_dsize(p: Path) -> nat
    decreases p,
{
    1 + segs_dsize(p.pending@) + (match p.current {
        Option::Some(c) => seg_dsize(c),
        Option::None => 0,
    })
}

/// Amortised measure of the per-tick driving recursion: each repeat
/// wrapper is charged ahead of time for every template refresh it may
/// still perform.
pub open spec fn seg_msize(s: Segment) -> nat
    decreases s,
{
    match s {
        Segment::Timed(t) => 1 + seg_msize(*t.seg),
        Segment::Repeat(r) => 2 + seg_msize(*r.current_seg) + (if r.count <= r.max_count {
            (r.max_count - r.count + 1) as nat
        } else {
            1nat
        }) * seg_dsize(*r.ref_seg),
        Segment::While(w) => 1 + path_msize(w.main) + path_msize(w.secondary),
        Segment::Sub(p) => 1 + path_msize(*p),
        _ => 1,
    }
}

/// Extra budget the one-time activation of a queued segment may add to
/// its measure (a repeat wrapper refreshes its running copy then).
pub open spec fn seg_sbudget(s: Segment) -> nat
    decreases s,
{
    match s {
        Segment::Timed(t) => seg_sbudget(*t.seg),
        Segment::Repeat(r) => seg_dsize(*r.ref_seg),
        _ => 0,
    }
}

pub open spec fn segs_msize(s: Seq<Segment>) -> nat
    decreases s,
{
    if s.len() == 0 {
        0
    } else {
        seg_msize(s[0]) + seg_sbudget(s[0]) + segs_msize(s.drop_first())
    }
}

pub open spec fn path_msize(p: Path) -> nat
    decreases p,
{
    1 + segs_msize(p.pending@) + (match p.current {
        Option::Some(c) => seg_msize(c),
        Option::None => 0,
    })
}

pub proof fn lemma_seg_msize_pos(s: Segment)
    ensures
        seg_msize(s) >= 1,
{
}

/// Size of a concatenation of weighted queues.
pub proof fn lemma_segs_msize_add(a: Seq<Segment>, b: Seq<Segment>)
    ensures
        segs_msize(a + b) == segs_msize(a) + segs_msize(b),
    decreases a.len(),
{
    if a.len() == 0 {
        assert(a + b =~= b);
    } else {
        assert((a + b).drop_first() =~= a.drop_first() + b);
        lemma_segs_msize_add(a.drop_first(), b);
    }
}

/// Well-formedness of a segment tree: every configured port, gain and
/// target is in range, recursively.
pub open spec fn seg_wf(s: Segment) -> bool
    decreases s,
{
    match s {
        Segment::Nop(_) => true,
        Segment::Ram(_) => true,
        Segment::TurnTo(t) => t.wf(),
        Segment::RamsetePoint(rp) => rp.wf(),
        Segment::RamsetePath(rp) => rp.wf(),
        Segment::PowerMotors(pm) => pm.wf(),
        Segment::SwitchController(_) => true,
        Segment::LatchAction(a) => a.wf(),
        Segment::Shaking(m) => m.wf(),
        Segment::Timed(t) => seg_wf(*t.seg),
        Segment::Repeat(r) => seg_wf(*r.ref_seg) && seg_wf(*r.current_seg) && seg_duplicable(
            *r.ref_seg,
        ) && r.count <= r.max_count,
        Segment::While(w) => path_wf(w.main) && path_wf(w.secondary),
        Segment::Sub(p) => path_wf(*p),
    }
}

pub open spec fn segs_wf(s: Seq<Segment>) -> bool
    decreases s,
{
    s.len() == 0 || (seg_wf(s[0]) && segs_wf(s.drop_first()))
}

pub open spec fn path_wf(p: Path) -> bool
    decreases p,
{
    segs_wf(p.pending@) && match p.current {
        Option::Some(s) => seg_wf(s),
        Option::None => true,
    }
}

/// Queue well-formedness is element well-formedness.
pub proof fn lemma_segs_wf_index(s: Seq<Segment>)
    ensures
        segs_wf(s) <==> (forall|i: int| 0 <= i < s.len() ==> seg_wf(#[trigger] s[i])),
    decreases s.len(),
{
    if s.len() > 0 {
        lemma_segs_wf_index(s.drop_first());
        assert(forall|i: int| 0 <= i < s.drop_first().len() ==> s.drop_first()[i] == s[i + 1]);
        if seg_wf(s[0]) && segs_wf(s.drop_first()) {
            assert(forall|i: int| 0 <= i < s.len() ==> seg_wf(#[trigger] s[i])) by {
                assert(forall|i: int| 1 <= i < s.len() ==> s[i] == s.drop_first()[i - 1]);
            }
        }
    }
}

/// Whether a segment may be duplicated; templates for repetition must
/// be. A segment holding one-shot state deliberately is not.
pub open spec fn seg_duplicable(s: Segment) -> bool
    decreases s,
{
    match s {
        Segment::Nop(_) => true,
        Segment::Ram(_) => true,
        Segment::Timed(t) => seg_duplicable(*t.seg),
        Segment::Repeat(r) => seg_duplicable(*r.ref_seg),
        Segment::Sub(p) => path_duplicable(*p),
        _ => false,
    }
}

pub open spec fn segs_duplicable(s: Seq<Segment>) -> bool
    decreases s,
{
    s.len() == 0 || (seg_duplicable(s[0]) && segs_duplicable(s.drop_first()))
}

pub open spec fn path_duplicable(p: Path) -> bool
    decreases p,
{
    segs_duplicable(p.pending@) && match p.current {
        Option::Some(s) => seg_duplicable(s),
        Option::None => true,
    }
}

/// What duplication yields: an exact copy, except that a repeat
/// wrapper starts its copy from a fresh instance of its template with
/// the repetition count reset.
pub open spec fn seg_dup_rel(s: Segment, r: Segment) -> bool
    decreases s,
{
    match s {
        Segment::Nop(x) => r == Segment::Nop(x),
        Segment::Ram(x) => r == Segment::Ram(x),
        Segment::Timed(t) => r matches Segment::Timed(t1) && t1.dur == t.dur && t1.start == t.start
            && seg_dup_rel(*t.seg, *t1.seg),
        Segment::Repeat(x) => r matches Segment::Repeat(y) && y.max_count == x.max_count && y.count
            == 0 && seg_dup_rel(*x.ref_seg, *y.ref_seg) && seg_dup_rel(*x.ref_seg, *y.current_seg),
        Segment::Sub(p) => r matches Segment::Sub(q) && path_dup_rel(*p, *q),
        _ => false,
    }
}

pub open spec fn segs_dup_rel(s: Seq<Segment>, r: Seq<Segment>) -> bool
    decreases s,
{
    r.len() == s.len() && (s.len() == 0 || (seg_dup_rel(s[0], r[0]) && segs_dup_rel(
        s.drop_first(),
        r.drop_first(),
    )))
}

pub open spec fn path_dup_rel(p: Path, q: Path) -> bool
    decreases p,
{
    segs_dup_rel(p.pending@, q.pending@) && match p.current {
        Option::Some(s) => q.current matches Option::Some(t) && seg_dup_rel(s, t),
        Option::None => q.current is None,
    }
}

/// Duplication preserves well-formedness and duplicability.
pub proof fn lemma_seg_dup_preserves(s: Segment, r: Segment)
    requires
        seg_dup_rel(s, r),
    ensures
        seg_wf(s) ==> seg_wf(r),
        seg_duplicable(s) ==> seg_duplicable(r),
    decreases s,
{
    match (s, r) {
        (Segment::Timed(t), Segment::Timed(t1)) => {
            lemma_seg_dup_preserves(*t.seg, *t1.seg);
        },
        (Segment::Repeat(x), Segment::Repeat(y)) => {
            lemma_seg_dup_preserves(*x.ref_seg, *y.ref_seg);
            lemma_seg_dup_preserves(*x.ref_seg, *y.current_seg);
        },
        (Segment::Sub(p), Segment::Sub(q)) => {
            lemma_path_dup_preserves(*p, *q);
        },
        _ => {},
    }
}

pub proof fn lemma_segs_dup_preserves(s: Seq<Segment>, r: Seq<Segment>)
    requires
        segs_dup_rel(s, r),
    ensures
        segs_wf(s) ==> segs_wf(r),
        segs_duplicable(s) ==> segs_duplicable(r),
    decreases s,
{
    if s.len() > 0 {
        lemma_seg_dup_preserves(s[0], r[0]);
        lemma_segs_dup_preserves(s.drop_first(), r.drop_first());
    }
}

pub proof fn lemma_path_dup_preserves(p: Path, q: Path)
    requires
        path_dup_rel(p, q),
    ensures
        path_wf(p) ==> path_wf(q),
        path_duplicable(p) ==> path_duplicable(q),
    decreases p,
{
    lemma_segs_dup_preserves(p.pending@, q.pending@);
    match (p.current, q.current) {
        (Option::Some(s), Option::Some(t)) => {
            lemma_seg_dup_preserves(s, t);
        },
        _ => {},
    }
}

/// Command buffers with the same contents.
pub open spec fn pkt_eq(a: PktView, b: PktView) -> bool {
    a.motors == b.motors && a.triports == b.triports
}

/// Number of active segments in a path: by construction never more
/// than one.
pub open spec fn path_active_count(p: Path) -> nat {
    match p.current {
        Option::Some(_) => 1,
        Option::None => 0,
    }
}

/// Whether a segment's completion check reports it finished at `now`.
pub open spec fn seg_done(s: Segment, odom: Odom, now: u64) -> bool
    decreases s,
{
    match s {
        Segment::Nop(_) => false,
        Segment::Ram(r) => r.done_s(now),
        Segment::TurnTo(t) => t.done_s(now),
        Segment::RamsetePoint(rp) => rp.done_s(odom),
        Segment::RamsetePath(rp) => rp.done_s(),
        Segment::PowerMotors(_) => false,
        Segment::SwitchController(_) => false,
        Segment::LatchAction(a) => a.wrote,
        Segment::Shaking(_) => false,
        Segment::Timed(t) => elapsed_s(t.start, now) >= t.dur || seg_done(*t.seg, odom, now),
        Segment::Repeat(r) => seg_done(*r.current_seg, odom, now) && r.count == r.max_count,
        Segment::While(w) => w.main.ended_s(),
        Segment::Sub(p) => p.ended_s(),
    }
}

/// Whether a completion check that answers "not finished" also leaves
/// the segment and the command buffer untouched. True of every segment
/// except one that commands actuators from its completion check.
pub open spec fn seg_end_quiet(s: Segment, odom: Odom, now: u64) -> bool
    decreases s,
{
    match s {
        Segment::PowerMotors(_) => false,
        Segment::Timed(t) => seg_end_quiet(*t.seg, odom, now),
        Segment::Repeat(r) => seg_end_quiet(*r.current_seg, odom, now) && !seg_done(
            *r.current_seg,
            odom,
            now,
        ),
        _ => true,
    }
}

/// What activation does: stamp start times, prime controllers, and
/// refresh a repeat wrapper's running copy from its template.
pub open spec fn seg_start_rel(
    s0: Segment,
    s1: Segment,
    odom: Odom,
    pid0: Pid,
    pid1: Pid,
    now: u64,
) -> bool
    decreases s0,
{
    match s0 {
        Segment::Ram(r) => s1 == Segment::Ram(Ram { start: now, ..r }) && pid1 == pid0,
        Segment::TurnTo(t) => ({
            let tgt = crate::trig::optimise_target_heading_s(
                odom.heading_s(),
                t.target_heading as int,
            );
            &&& s1 == Segment::TurnTo(TurnTo { target_heading: tgt as i64, last_out_of_tol: now })
            &&& pid1 == (Pid { target: tgt as i64, integral: 0, prev_error: 0, ..pid0 })
        }),
        Segment::RamsetePoint(rp) => s1 == Segment::RamsetePoint(
            RamsetePoint { target: rp.target, controller: Ramsete { target: rp.target, ..rp.controller } },
        ) && pid1 == pid0,
        Segment::Timed(t) => s1 matches Segment::Timed(t1) && t1.dur == t.dur && t1.start == now
            && seg_start_rel(*t.seg, *t1.seg, odom, pid0, pid1, now),
        Segment::Repeat(r) => s1 matches Segment::Repeat(r1) && r1.max_count == r.max_count
            && r1.count == r.count && r1.ref_seg == r.ref_seg && seg_dup_rel(
            *r.ref_seg,
            *r1.current_seg,
        ) && pid1 == pid0,
        _ => s1 == s0 && pid1 == pid0,
    }
}

/// What one `follow` tick does to a segment, the shared PID and the
/// command buffer, and which output it produces. For the concurrency
/// wrapper this recursive relation pins the wrapper's own fields and
/// the boundary cases; the full secondary-then-main chain of one tick,
/// with its intermediate controller and buffer states, is stated over
/// `path_tick_rel` on `Segment::follow` itself, where the existential
/// over the intermediate states can be discharged.
pub open spec fn seg_follow_rel(
    s0: Segment,
    s1: Segment,
    odom: Odom,
    pid0: Pid,
    pid1: Pid,
    pkt0: PktView,
    pkt1: PktView,
    now: u64,
    out: PathOutput,
) -> bool
    decreases s0,
{
    match s0 {
        Segment::Nop(_) => s1 == s0 && pid1 == pid0 && pkt_eq(pkt1, pkt0) && out
            == PathOutput::Voltages(Vec2 { x: 0, y: 0 }),
        Segment::Ram(r) => s1 == s0 && pid1 == pid0 && pkt_eq(pkt1, pkt0) && out
            == PathOutput::Voltages(Vec2 { x: r.pow, y: r.pow }),
        Segment::TurnTo(t) => ({
            let (t1, p1, pow) = turnto_step_s(t, pid0, odom.heading_s(), now);
            &&& s1 == Segment::TurnTo(t1)
            &&& pid1 == p1
            &&& pkt_eq(pkt1, pkt0)
            &&& out == PathOutput::Voltages(Vec2 { x: (-pow) as i64, y: pow as i64 })
        }),
        Segment::RamsetePoint(rp) => s1 == s0 && pid1 == pid0 && pkt_eq(pkt1, pkt0) && (out matches
            PathOutput::LinearAngularVelocity(v) && v@ == crate::ramsete::ramsete_output_s(
            rp.controller.beta as int,
            rp.controller.zeta as int,
            rp.controller.target.0@,
            rp.controller.target.1 as int,
            v2_add(odom.start_pos@, odom.rel_pos@),
            odom.heading_s(),
        )),
        Segment::RamsetePath(rp) => ({
            let pos = v2_add(odom.start_pos@, odom.rel_pos@);
            let heading = odom.heading_s();
            let (ts, cur, ct) = rp_advance_s(rp.targets@, rp.current_target, rp.controller.target, pos, heading);
            &&& s1 matches Segment::RamsetePath(rp1)
            &&& rp1.targets@ == ts
            &&& rp1.current_target == cur
            &&& rp1.controller == (Ramsete { target: ct, ..rp.controller })
            &&& pid1 == pid0
            &&& pkt_eq(pkt1, pkt0)
            &&& match cur {
                Option::Some(_) => out matches PathOutput::LinearAngularVelocity(v) && v@
                    == crate::ramsete::ramsete_output_s(
                    rp.controller.beta as int,
                    rp.controller.zeta as int,
                    ct.0@,
                    ct.1 as int,
                    pos,
                    heading,
                ),
                Option::None => out == PathOutput::Voltages(Vec2 { x: 0, y: 0 }),
            }
        }),
        Segment::PowerMotors(pm) => s1 matches Segment::PowerMotors(pm1) && pm1.motors@
            == pm.motors@ && pm1.pow == pm.pow && pid1 == pid0 && pkt1.motors == motors_written_s(
            pm.motors@,
            pkt0.motors,
            pm.pow,
        ) && pkt1.triports == pkt0.triports && out == PathOutput::Voltages(Vec2 { x: 0, y: 0 }),
        Segment::SwitchController(_) => s1 == s0 && pid1 == pid0 && pkt_eq(pkt1, pkt0) && out
            == PathOutput::SwitchToDriver,
        Segment::LatchAction(a) => ({
            let l1 = crate::latch::latch_action_step_s(a, now);
            &&& s1 == Segment::LatchAction(LatchAction { latch: l1, release: a.release, wrote: true })
            &&& pid1 == pid0
            &&& match l1 {
                crate::latch::Latch::Air { port, active, rev } => pkt1.triports
                    == pkt0.triports.update(
                    port - 1,
                    crate::latch::latch_triport_cmd_s(active, rev),
                ) && pkt1.motors == pkt0.motors,
                crate::latch::Latch::Motor { port, last_change, active, rev } => pkt1.motors
                    == pkt0.motors.update(
                    port - 1,
                    crate::latch::latch_motor_cmd_s(last_change, active, rev, now),
                ) && pkt1.triports == pkt0.triports,
            }
            &&& out == PathOutput::Voltages(Vec2 { x: 0, y: 0 })
        }),
        Segment::Shaking(m) => ({
            let m1 = match odom.last_pkt {
                Option::Some(p) => crate::shaking_motor::shaking_update_s(m, p.encoders@, now),
                Option::None => m,
            };
            let (m2, cmd) = crate::shaking_motor::shaking_write_s(m1, now);
            &&& s1 == Segment::Shaking(m2)
            &&& pid1 == pid0
            &&& match cmd {
                Option::Some(c) => pkt1.motors == pkt0.motors.update(m.motor - 1, c),
                Option::None => pkt1.motors == pkt0.motors,
            }
            &&& pkt1.triports == pkt0.triports
            &&& out == PathOutput::Voltages(Vec2 { x: 0, y: 0 })
        }),
        Segment::Timed(t) => s1 matches Segment::Timed(t1) && t1.dur == t.dur && t1.start == t.start
            && seg_follow_rel(*t.seg, *t1.seg, odom, pid0, pid1, pkt0, pkt1, now, out),
        Segment::Repeat(r) => s1 matches Segment::Repeat(r1) && r1.max_count == r.max_count
            && r1.count == r.count && r1.ref_seg == r.ref_seg && seg_follow_rel(
            *r.current_seg,
            *r1.current_seg,
            odom,
            pid0,
            pid1,
            pkt0,
            pkt1,
            now,
            out,
        ),
        Segment::While(w) => s1 matches Segment::While(w1) && w1.end_secondary == w.end_secondary
            && (w.secondary.ended_s() ==> w1.secondary.pending@ == w.secondary.pending@
            && w1.secondary.current is None) && (w.main.ended_s() ==> w1.main.pending@
            == w.main.pending@ && w1.main.current is None && out == PathOutput::Voltages(
            Vec2 { x: 0, y: 0 },
        )) && (w.main.ended_s() && w.secondary.ended_s() ==> pid1 == pid0 && pkt_eq(pkt1, pkt0)),
        Segment::Sub(p) => s1 matches Segment::Sub(p1) && path_follow_rel(
            *p,
            *p1,
            odom,
            pid0,
            pid1,
            pkt0,
            pkt1,
            now,
            out,
        ),
    }
}

/// What one `follow` tick of a whole path guarantees seen from
/// outside: an exhausted path idles unchanged, and a path whose active
/// segment is not finished and has a quiet completion check drives
/// that segment. `Path::follow` itself promises more.
pub open spec fn path_follow_rel(
    p0: Path,
    p1: Path,
    odom: Odom,
    pid0: Pid,
    pid1: Pid,
    pkt0: PktView,
    pkt1: PktView,
    now: u64,
    out: PathOutput,
) -> bool
    decreases p0,
{
    &&& (p0.ended_s() ==> p1.pending@ == p0.pending@ && p1.current is None && pid1 == pid0
        && pkt_eq(pkt1, pkt0) && out == PathOutput::Voltages(Vec2 { x: 0, y: 0 }))
    &&& (match p0.current {
        Option::Some(seg) => (!seg_done(seg, odom, now) && seg_end_quiet(seg, odom, now))
            ==> p1.pending@ == p0.pending@ && (p1.current matches Option::Some(s1)
            && seg_follow_rel(seg, s1, odom, pid0, pid1, pkt0, pkt1, now, out)),
        Option::None => true,
    })
}

/// The command buffer after a forced early termination:
/// actuator-owning segments leave their actuators in a safe state;
/// the segments themselves are untouched.
pub open spec fn seg_abrupt_pkt(s: Segment, pkt: PktView, now: u64) -> PktView
    decreases s,
{
    match s {
        Segment::PowerMotors(pm) => PktView {
            motors: motors_written_s(pm.motors@, pkt.motors, MotorCmd::BrakeCoast),
            triports: pkt.triports,
        },
        Segment::Shaking(m) => PktView {
            motors: pkt.motors.update(m.motor - 1, MotorCmd::BrakeCoast),
            triports: pkt.triports,
        },
        Segment::While(w) => path_abrupt_pkt(
            w.secondary,
            path_abrupt_pkt(w.main, pkt, now),
            now,
        ),
        Segment::Sub(p) => path_abrupt_pkt(*p, pkt, now),
        _ => pkt,
    }
}

pub open spec fn path_abrupt_pkt(p: Path, pkt: PktView, now: u64) -> PktView
    decreases p,
{
    match p.current {
        Option::Some(c) => seg_abrupt_pkt(c, pkt, now),
        Option::None => pkt,
    }
}

/// The command buffer after one completion check: the check itself
/// refreshes some actuator commands, deterministically in the state.
pub open spec fn seg_end_pkt(s: Segment, odom: Odom, pkt: PktView, now: u64) -> PktView
    decreases s,
{
    match s {
        Segment::PowerMotors(pm) => PktView {
            motors: motors_written_s(pm.motors@, pkt.motors, MotorCmd::BrakeCoast),
            triports: pkt.triports,
        },
        Segment::Timed(t) => if elapsed_s(t.start, now) >= t.dur {
            seg_abrupt_pkt(*t.seg, pkt, now)
        } else {
            seg_end_pkt(*t.seg, odom, pkt, now)
        },
        Segment::Repeat(r) => seg_end_pkt(*r.current_seg, odom, pkt, now),
        Segment::While(w) => if w.main.ended_s() && w.end_secondary && !w.secondary.ended_s() {
            path_abrupt_pkt(w.secondary, pkt, now)
        } else {
            pkt
        },
        _ => pkt,
    }
}

/// How one completion check changes the segment itself: only wrappers
/// change, a repeat wrapper by refreshing its finished running copy
/// from the template and counting the repetition.
pub open spec fn seg_end_state_rel(s0: Segment, s1: Segment, odom: Odom, now: u64) -> bool
    decreases s0,
{
    match s0 {
        Segment::Timed(t) => (if elapsed_s(t.start, now) >= t.dur {
            s1 == s0
        } else {
            s1 matches Segment::Timed(t1) && t1.dur == t.dur && t1.start == t.start
                && seg_end_state_rel(*t.seg, *t1.seg, odom, now)
        }),
        Segment::Repeat(r) => s1 matches Segment::Repeat(r1) && r1.max_count == r.max_count
            && r1.ref_seg == r.ref_seg && (if !seg_done(*r.current_seg, odom, now) {
            r1.count == r.count && seg_end_state_rel(*r.current_seg, *r1.current_seg, odom, now)
        } else if r.count != r.max_count {
            &&& r1.count == r.count + 1
            &&& seg_dup_rel(*r.ref_seg, *r1.current_seg)
        } else {
            r1.count == r.count && seg_end_state_rel(*r.current_seg, *r1.current_seg, odom, now)
        }),
        _ => s1 == s0,
    }
}

/// What the completion check does to the segment and the command
/// buffer, whether it reports completion or not.
pub open spec fn seg_end_rel(
    s0: Segment,
    s1: Segment,
    odom: Odom,
    pkt0: PktView,
    pkt1: PktView,
    now: u64,
) -> bool {
    seg_end_state_rel(s0, s1, odom, now) && pkt1 == seg_end_pkt(s0, odom, pkt0, now)
}

/// Activation of the head of the queue and the same-tick drive that
/// follows: the started segment is completion-checked and either
/// driven (yielding the tick's output) or, already finished and the
/// last queued segment, retired, leaving the path ended with the safe
/// idle output.
pub open spec fn path_resolve_rel(
    pending: Seq<Segment>,
    p1: Path,
    odom: Odom,
    pid_a: Pid,
    pid1: Pid,
    pkt_a: PktView,
    pkt1: PktView,
    now: u64,
    out: PathOutput,
) -> bool {
    exists|s_st: Segment, pid_m: Pid|
        seg_start_rel(pending[0], s_st, odom, pid_a, pid_m, now) && {
            &&& (!seg_done(s_st, odom, now) ==> p1.pending@ == pending.drop_first() && (
            p1.current matches Option::Some(s1) && (exists|seg_e: Segment|
                seg_end_state_rel(s_st, seg_e, odom, now) && seg_follow_rel(
                    seg_e,
                    s1,
                    odom,
                    pid_m,
                    pid1,
                    seg_end_pkt(s_st, odom, pkt_a, now),
                    pkt1,
                    now,
                    out,
                ))))
            &&& ((seg_done(s_st, odom, now) && pending.len() == 1) ==> p1.ended_s()
                && p1.pending@ == pending.drop_first() && pid1 == pid_m && pkt_eq(
                pkt1,
                seg_end_pkt(s_st, odom, pkt_a, now),
            ) && out == PathOutput::Voltages(Vec2 { x: 0, y: 0 }))
        }
}

/// Everything one engine tick guarantees, per the container algorithm:
/// an exhausted path idles unchanged; an unfinished active segment is
/// completion-checked and driven; a finished active segment is retired
/// (its empty successor list spliced onto the queue) and the tick
/// re-evaluates from the queue within the same call, pinned one
/// retirement deep.
pub open spec fn path_tick_rel(
    p0: Path,
    p1: Path,
    odom: Odom,
    pid0: Pid,
    pid1: Pid,
    pkt0: PktView,
    pkt1: PktView,
    now: u64,
    out: PathOutput,
) -> bool {
    &&& (p0.ended_s() ==> p1.pending@ == p0.pending@ && p1.current is None && pid1 == pid0
        && pkt_eq(pkt1, pkt0) && out == PathOutput::Voltages(Vec2 { x: 0, y: 0 }))
    &&& (match p0.current {
        Option::Some(seg) => {
            &&& (!seg_done(seg, odom, now) ==> p1.pending@ == p0.pending@ && (p1.current matches
            Option::Some(s1) && (exists|seg_e: Segment|
                seg_end_state_rel(seg, seg_e, odom, now) && seg_follow_rel(
                    seg_e,
                    s1,
                    odom,
                    pid0,
                    pid1,
                    seg_end_pkt(seg, odom, pkt0, now),
                    pkt1,
                    now,
                    out,
                ))))
            &&& ((seg_done(seg, odom, now) && p0.pending@.len() == 0) ==> p1.ended_s()
                && p1.pending@ == p0.pending@ && pid1 == pid0 && pkt_eq(
                pkt1,
                seg_end_pkt(seg, odom, pkt0, now),
            ) && out == PathOutput::Voltages(Vec2 { x: 0, y: 0 }))
            &&& ((seg_done(seg, odom, now) && p0.pending@.len() > 0) ==> path_resolve_rel(
                p0.pending@,
                p1,
                odom,
                pid0,
                pid1,
                seg_end_pkt(seg, odom, pkt0, now),
                pkt1,
                now,
                out,
            ))
        },
        Option::None => p0.pending@.len() > 0 ==> path_resolve_rel(
            p0.pending@,
            p1,
            odom,
            pid0,
            pid1,
            pkt0,
            pkt1,
            now,
            out,
        ),
    })
}

/// Duplication never exceeds the duplication size, which itself is
/// stable under duplication.
pub proof fn lemma_dup_msize(s: Segment, r: Segment)
    requires
        seg_dup_rel(s, r),
    ensures
        seg_msize(r) + seg_sbudget(r) <= seg_dsize(s),
        seg_dsize(r) == seg_dsize(s),
    decreases s,
{
    match (s, r) {
        (Segment::Timed(t), Segment::Timed(t1)) => {
            lemma_dup_msize(*t.seg, *t1.seg);
        },
        (Segment::Repeat(x), Segment::Repeat(y)) => {
            lemma_dup_msize(*x.ref_seg, *y.ref_seg);
            lemma_dup_msize(*x.ref_seg, *y.current_seg);
            let d = seg_dsize(*x.ref_seg);
            assert((y.max_count + 1) * d + 2 * d == (y.max_count + 3) * d) by (nonlinear_arith);
        },
        (Segment::Sub(p), Segment::Sub(q)) => {
            lemma_dup_msize_path(*p, *q);
        },
        _ => {},
    }
}

pub proof fn lemma_dup_msize_segs(s: Seq<Segment>, r: Seq<Segment>)
    requires
        segs_dup_rel(s, r),
    ensures
        segs_msize(r) <= segs_dsize(s),
        segs_dsize(r) == segs_dsize(s),
    decreases s,
{
    if s.len() > 0 {
        lemma_dup_msize(s[0], r[0]);
        lemma_dup_msize_segs(s.drop_first(), r.drop_first());
    }
}

pub proof fn lemma_dup_msize_path(p: Path, q: Path)
    requires
        path_dup_rel(p, q),
    ensures
        path_msize(q) <= path_dsize(p),
        path_dsize(q) == path_dsize(p),
    decreases p,
{
    lemma_dup_msize_segs(p.pending@, q.pending@);
    match (p.current, q.current) {
        (Option::Some(c), Option::Some(c1)) => {
            lemma_dup_msize(c, c1);
        },
        _ => {},
    }
}

/// Activation adds at most the start budget to the measure.
pub proof fn lemma_start_msize(s0: Segment, s1: Segment, odom: Odom, pid0: Pid, pid1: Pid, now: u64)
    requires
        seg_start_rel(s0, s1, odom, pid0, pid1, now),
    ensures
        seg_msize(s1) <= seg_msize(s0) + seg_sbudget(s0),
    decreases s0,
{
    match (s0, s1) {
        (Segment::Timed(t), Segment::Timed(t1)) => {
            lemma_start_msize(*t.seg, *t1.seg, odom, pid0, pid1, now);
        },
        (Segment::Repeat(x), Segment::Repeat(y)) => {
            lemma_dup_msize(*x.ref_seg, *y.current_seg);
        },
        _ => {},
    }
}

/// The completion check never grows the measure: a repeat wrapper's
/// template refresh is paid for by its remaining-count potential.
pub proof fn lemma_end_msize(s0: Segment, s1: Segment, odom: Odom, now: u64)
    requires
        seg_end_state_rel(s0, s1, odom, now),
        seg_wf(s0),
    ensures
        seg_msize(s1) <= seg_msize(s0),
    decreases s0,
{
    match (s0, s1) {
        (Segment::Timed(t), Segment::Timed(t1)) => {
            if elapsed_s(t.start, now) < t.dur {
                lemma_end_msize(*t.seg, *t1.seg, odom, now);
            }
        },
        (Segment::Repeat(x), Segment::Repeat(y)) => {
            if !seg_done(*x.current_seg, odom, now) {
                lemma_end_msize(*x.current_seg, *y.current_seg, odom, now);
            } else if x.count != x.max_count {
                lemma_dup_msize(*x.ref_seg, *y.current_seg);
                let d = seg_dsize(*x.ref_seg);
                assert(((x.max_count - x.count) as nat) * d + d == ((x.max_count - x.count + 1) as nat)
                    * d) by (nonlinear_arith)
                    requires
                        x.count < x.max_count,
                {
                }
                lemma_seg_msize_pos(*x.current_seg);
            } else {
                lemma_end_msize(*x.current_seg, *y.current_seg, odom, now);
            }
        },
        _ => {},
    }
}

/// A completion check that answers "not finished" on a quiet segment
/// changes neither the segment nor the command buffer.
pub proof fn lemma_end_quiet(s0: Segment, s1: Segment, odom: Odom, pkt0: PktView, now: u64)
    requires
        seg_end_state_rel(s0, s1, odom, now),
        seg_end_quiet(s0, odom, now),
        !seg_done(s0, odom, now),
    ensures
        s1 == s0,
        seg_end_pkt(s0, odom, pkt0, now) == pkt0,
    decreases s0,
{
    match (s0, s1) {
        (Segment::Timed(t), Segment::Timed(t1)) => {
            lemma_end_quiet(*t.seg, *t1.seg, odom, pkt0, now);
        },
        (Segment::Repeat(x), Segment::Repeat(y)) => {
            lemma_end_quiet(*x.current_seg, *y.current_seg, odom, pkt0, now);
        },
        _ => {},
    }
}


/// A deadline wrapper signals completion no later than its duration
/// has elapsed since activation, whatever its inner segment does.
pub proof fn lemma_timed_upper_bound(t: TimedSegment, odom: Odom, now: u64)
    requires
        elapsed_s(t.start, now) >= t.dur,
    ensures
        seg_done(Segment::Timed(t), odom, now),
{
}

/// Debounce: a heading observed outside tolerance at time `tick`
/// restamps the out-of-tolerance time, so the seek does not report
/// completion at any time up to a full debounce window later.
pub proof fn lemma_turnto_debounce(t: TurnTo, pid: Pid, heading: int, tick: u64, now: u64)
    requires
        t.out_of_tol_s(heading),
        now <= tick + TURN_DEBOUNCE_MS,
    ensures
        ({
            let (t1, pid1, pow) = turnto_step_s(t, pid, heading, tick);
            !t1.done_s(now)
        }),
{
}

/// A waypoint path reports completion only with its whole queue
/// consumed.
pub proof fn lemma_ramsete_path_consumes_all(rp: RamsetePath)
    requires
        rp.wf(),
        rp.done_s(),
    ensures
        rp.targets@.len() == 0,
{
}


impl Segment {
    /// Every variant of this closed set is ready to run as-is; no
    /// variant needs expansion before activation.
    pub fn finished_transform(&self) -> (r: bool)
        ensures
            r,
    {
        true
    }

    /// One-time initialisation when the segment becomes active.
    pub fn start(&mut self, odom: &Odom, pid: &mut Pid, now: u64)
        requires
            seg_wf(*old(self)),
            odom.wf(),
            old(pid).wf(),
        ensures
            seg_wf(*final(self)),
            final(pid).wf(),
            seg_start_rel(*old(self), *final(self), *odom, *old(pid), *final(pid), now),
        decreases seg_size(*old(self)),
    {
        match self {
            Segment::Ram(r) => {
                r.start = now;
            },
            Segment::TurnTo(t) => {
                t.start_step(odom, pid, now);
            },
            Segment::RamsetePoint(rp) => {
                let t = rp.target;
                rp.controller.set_target(t);
            },
            Segment::Timed(t) => {
                t.start = now;
                t.seg.start(odom, pid, now);
            },
            Segment::Repeat(r) => {
                let copy = r.ref_seg.duplicate();
                *r.current_seg = copy;
                proof {
                    lemma_seg_dup_preserves(*r.ref_seg, *r.current_seg);
                }
            },
            _ => {},
        }
    }

    /// Produce this tick's actuator command.
    #[verifier::rlimit(100)]
    #[verifier::spinoff_prover]
    pub fn follow(&mut self, odom: &Odom, pid: &mut Pid, pkt: &mut CmdPacket, now: u64) -> (out:
        PathOutput)
        requires
            seg_wf(*old(self)),
            odom.wf(),
            old(pid).wf(),
            old(pkt).wf(),
        ensures
            seg_wf(*final(self)),
            final(pid).wf(),
            final(pkt).wf(),
            seg_follow_rel(
                *old(self),
                *final(self),
                *odom,
                *old(pid),
                *final(pid),
                old(pkt)@,
                final(pkt)@,
                now,
                out,
            ),
            (match *old(self) {
                Segment::While(w0) => (*final(self)) matches Segment::While(w1) && (exists|
                    pid_m: Pid,
                    pkt_m: PktView,
                    out2: PathOutput,
                |
                    path_tick_rel(
                        w0.secondary,
                        w1.secondary,
                        *odom,
                        *old(pid),
                        pid_m,
                        old(pkt)@,
                        pkt_m,
                        now,
                        out2,
                    ) && path_tick_rel(
                        w0.main,
                        w1.main,
                        *odom,
                        pid_m,
                        *final(pid),
                        pkt_m,
                        final(pkt)@,
                        now,
                        out,
                    )),
                Segment::Sub(p0) => (*final(self)) matches Segment::Sub(p1) && path_tick_rel(
                    *p0,
                    *p1,
                    *odom,
                    *old(pid),
                    *final(pid),
                    old(pkt)@,
                    final(pkt)@,
                    now,
                    out,
                ),
                _ => true,
            }),
        decreases seg_msize(*old(self)),
    {
        match self {
            Segment::Nop(_) => {
                let out = PathOutput::Voltages(Vec2::zero());
                proof {
                    assert(seg_follow_rel(*old(self), *self, *odom, *old(pid), *pid, old(pkt)@, pkt@, now, out));
                }
                out
            },
            Segment::Ram(r) => {
                let out = PathOutput::Voltages(Vec2::splat(r.pow));
                proof {
                    assert(seg_follow_rel(*old(self), *self, *odom, *old(pid), *pid, old(pkt)@, pkt@, now, out));
                }
                out
            },
            Segment::TurnTo(t) => {
                let out = t.follow_step(odom, pid, now);
                proof {
                    assert(seg_follow_rel(*old(self), *self, *odom, *old(pid), *pid, old(pkt)@, pkt@, now, out));
                }
                out
            },
            Segment::RamsetePoint(rp) => {
                let out = PathOutput::LinearAngularVelocity(
                    rp.controller.output_linear_angular(odom),
                );
                proof {
                    assert(seg_follow_rel(*old(self), *self, *odom, *old(pid), *pid, old(pkt)@, pkt@, now, out));
                }
                out
            },
            Segment::RamsetePath(rp) => {
                let out = rp.follow_step(odom);
                proof {
                    assert(seg_follow_rel(*old(self), *self, *odom, *old(pid), *pid, old(pkt)@, pkt@, now, out));
                }
                out
            },
            Segment::PowerMotors(pm) => {
                let cmd = pm.pow;
                pm.write_all(pkt, cmd);
                let out = PathOutput::Voltages(Vec2::zero());
                proof {
                    assert(seg_follow_rel(*old(self), *self, *odom, *old(pid), *pid, old(pkt)@, pkt@, now, out));
                }
                out
            },
            Segment::SwitchController(_) => {
                let out = PathOutput::SwitchToDriver;
                proof {
                    assert(seg_follow_rel(*old(self), *self, *odom, *old(pid), *pid, old(pkt)@, pkt@, now, out));
                }
                out
            },
            Segment::LatchAction(a) => {
                if a.release {
                    a.latch.release(now);
                } else {
                    a.latch.grab(now);
                }
                a.latch.write_pkt(pkt, now);
                a.wrote = true;
                let out = PathOutput::Voltages(Vec2::zero());
                proof {
                    assert(seg_follow_rel(*old(self), *self, *odom, *old(pid), *pid, old(pkt)@, pkt@, now, out));
                }
                out
            },
            Segment::Shaking(m) => {
                match odom.last_pkt() {
                    Option::Some(p) => m.update(p, now),
                    Option::None => {},
                }
                m.write_powers(pkt, now);
                let out = PathOutput::Voltages(Vec2::zero());
                proof {
                    assert(seg_follow_rel(*old(self), *self, *odom, *old(pid), *pid, old(pkt)@, pkt@, now, out));
                }
                out
            },
            Segment::Timed(t) => {
                let out = t.seg.follow(odom, pid, pkt, now);
                proof {
                    assert(seg_follow_rel(*old(self), *self, *odom, *old(pid), *pid, old(pkt)@, pkt@, now, out));
                }
                out
            },
            Segment::Repeat(r) => {
                let out = r.current_seg.follow(odom, pid, pkt, now);
                proof {
                    assert(seg_follow_rel(*old(self), *self, *odom, *old(pid), *pid, old(pkt)@, pkt@, now, out));
                }
                out
            },
            Segment::While(w) => {
                let out2 = w.secondary.follow(odom, pid, pkt, now);
                let ghost pid_m = *pid;
                let ghost pkt_m = pkt@;
                let out = w.main.follow(odom, pid, pkt, now);
                proof {
                    assert(path_follow_rel(
                        old(self)->While_0.secondary,
                        w.secondary,
                        *odom,
                        *old(pid),
                        pid_m,
                        old(pkt)@,
                        pkt_m,
                        now,
                        out2,
                    ));
                    assert(path_follow_rel(
                        old(self)->While_0.main,
                        w.main,
                        *odom,
                        pid_m,
                        *pid,
                        pkt_m,
                        pkt@,
                        now,
                        out,
                    ));
                    assert(path_tick_rel(
                        old(self)->While_0.secondary,
                        w.secondary,
                        *odom,
                        *old(pid),
                        pid_m,
                        old(pkt)@,
                        pkt_m,
                        now,
                        out2,
                    ));
                    assert(path_tick_rel(
                        old(self)->While_0.main,
                        w.main,
                        *odom,
                        pid_m,
                        *pid,
                        pkt_m,
                        pkt@,
                        now,
                        out,
                    ));
                    assert(seg_follow_rel(*old(self), *self, *odom, *old(pid), *pid, old(pkt)@, pkt@, now, out));
                }
                out
            },
            Segment::Sub(p) => {
                let out = p.follow(odom, pid, pkt, now);
                proof {
                    assert(seg_follow_rel(*old(self), *self, *odom, *old(pid), *pid, old(pkt)@, pkt@, now, out));
                }
                out
            },
        }
    }

    /// Check for completion; answers a (for this variant set always
    /// empty) successor list when the segment is finished. Some
    /// variants also refresh actuator commands from here.
    #[verifier::rlimit(100)]
    #[verifier::spinoff_prover]
    pub fn end_follow(&mut self, odom: &Odom, pkt: &mut CmdPacket, now: u64) -> (r: Option<
        Vec<Segment>,
    >)
        requires
            seg_wf(*old(self)),
            odom.wf(),
            old(pkt).wf(),
        ensures
            seg_wf(*final(self)),
            final(pkt).wf(),
            r is Some <==> seg_done(*old(self), *odom, now),
            (r matches Option::Some(l) ==> l@.len() == 0),
            seg_end_rel(*old(self), *final(self), *odom, old(pkt)@, final(pkt)@, now),
        decreases seg_size(*old(self)),
    {
        match self {
            Segment::Nop(_) => {
                proof {
                    assert(seg_end_rel(*old(self), *self, *odom, old(pkt)@, pkt@, now));
                }
                Option::None
            },
            Segment::Ram(r) => {
                let res = if crate::num::elapsed(r.start, now) >= r.dur {
                    Option::Some(Vec::new())
                } else {
                    Option::None
                };
                proof {
                    assert(seg_end_rel(*old(self), *self, *odom, old(pkt)@, pkt@, now));
                }
                res
            },
            Segment::TurnTo(t) => {
                let res = if crate::num::elapsed(t.last_out_of_tol, now) > TURN_DEBOUNCE_MS {
                    Option::Some(Vec::new())
                } else {
                    Option::None
                };
                proof {
                    assert(seg_end_rel(*old(self), *self, *odom, old(pkt)@, pkt@, now));
                }
                res
            },
            Segment::RamsetePoint(rp) => {
                let pos = odom.pos();
                let diff = pos.sub(rp.target.0).clamped(MAG_ABS_LIMIT);
                let res = if diff.mag() < RAMSETE_POINT_TOL_MM {
                    Option::Some(Vec::new())
                } else {
                    Option::None
                };
                proof {
                    assert(seg_end_rel(*old(self), *self, *odom, old(pkt)@, pkt@, now));
                }
                res
            },
            Segment::RamsetePath(rp) => {
                let res = if rp.current_target.is_none() {
                    Option::Some(Vec::new())
                } else {
                    Option::None
                };
                proof {
                    assert(seg_end_rel(*old(self), *self, *odom, old(pkt)@, pkt@, now));
                }
                res
            },
            Segment::PowerMotors(pm) => {
                pm.write_all(pkt, MotorCmd::BrakeCoast);
                proof {
                    assert(seg_end_rel(*old(self), *self, *odom, old(pkt)@, pkt@, now));
                }
                Option::None
            },
            Segment::SwitchController(_) => {
                proof {
                    assert(seg_end_rel(*old(self), *self, *odom, old(pkt)@, pkt@, now));
                }
                Option::None
            },
            Segment::LatchAction(a) => {
                let res = if a.wrote {
                    Option::Some(Vec::new())
                } else {
                    Option::None
                };
                proof {
                    assert(seg_end_rel(*old(self), *self, *odom, old(pkt)@, pkt@, now));
                }
                res
            },
            Segment::Shaking(_) => {
                proof {
                    assert(seg_end_rel(*old(self), *self, *odom, old(pkt)@, pkt@, now));
                }
                Option::None
            },
            Segment::Timed(t) => {
                let res = if crate::num::elapsed(t.start, now) >= t.dur {
                    t.seg.abrupt_end(odom, pkt, now);
                    Option::Some(Vec::new())
                } else {
                    t.seg.end_follow(odom, pkt, now)
                };
                proof {
                    assert(seg_end_rel(*old(self), *self, *odom, old(pkt)@, pkt@, now));
                }
                res
            },
            Segment::Repeat(r) => {
                let inner = r.current_seg.end_follow(odom, pkt, now);
                let res = match inner {
                    Option::None => Option::None,
                    Option::Some(ret) => {
                        if ret.len() == 0 && r.count != r.max_count {
                            r.count = r.count + 1;
                            let copy = r.ref_seg.duplicate();
                            *r.current_seg = copy;
                            proof {
                                lemma_seg_dup_preserves(*r.ref_seg, *r.current_seg);
                            }
                            Option::None
                        } else {
                            Option::Some(ret)
                        }
                    },
                };
                proof {
                    assert(seg_end_rel(*old(self), *self, *odom, old(pkt)@, pkt@, now));
                }
                res
            },
            Segment::While(w) => {
                let res = match w.main.end_follow() {
                    Option::Some(t) => {
                        if w.end_secondary && !w.secondary.ended() {
                            w.secondary.abrupt_end(odom, pkt, now);
                        }
                        Option::Some(t)
                    },
                    Option::None => Option::None,
                };
                proof {
                    assert(seg_end_rel(*old(self), *self, *odom, old(pkt)@, pkt@, now));
                }
                res
            },
            Segment::Sub(p) => {
                let res = p.end_follow();
                proof {
                    assert(seg_end_rel(*old(self), *self, *odom, old(pkt)@, pkt@, now));
                }
                res
            },
        }
    }

    /// Forced early termination: leave owned actuators in a safe state.
    pub fn abrupt_end(&mut self, odom: &Odom, pkt: &mut CmdPacket, now: u64)
        requires
            seg_wf(*old(self)),
            odom.wf(),
            old(pkt).wf(),
        ensures
            *final(self) == *old(self),
            seg_wf(*final(self)),
            final(pkt).wf(),
            final(pkt)@ == seg_abrupt_pkt(*old(self), old(pkt)@, now),
        decreases seg_size(*old(self)),
    {
        match self {
            Segment::PowerMotors(pm) => {
                pm.write_all(pkt, MotorCmd::BrakeCoast);
            },
            Segment::Shaking(m) => {
                pkt.set_motor(m.motor, MotorCmd::BrakeCoast);
            },
            Segment::While(w) => {
                w.main.abrupt_end(odom, pkt, now);
                w.secondary.abrupt_end(odom, pkt, now);
            },
            Segment::Sub(p) => {
                p.abrupt_end(odom, pkt, now);
            },
            _ => {},
        }
    }

    /// An owned copy of a duplicable segment; a repeat wrapper's copy
    /// restarts from its template.
    pub fn duplicate(&self) -> (r: Segment)
        requires
            seg_duplicable(*self),
        ensures
            seg_dup_rel(*self, r),
        decreases seg_size(*self),
    {
        match self {
            Segment::Nop(x) => Segment::Nop(*x),
            Segment::Ram(x) => Segment::Ram(*x),
            Segment::Timed(t) => Segment::Timed(
                TimedSegment { seg: Box::new(t.seg.duplicate()), dur: t.dur, start: t.start },
            ),
            Segment::Repeat(x) => {
                let ref_copy = x.ref_seg.duplicate();
                let current_copy = x.ref_seg.duplicate();
                Segment::Repeat(
                    RepeatSegment {
                        max_count: x.max_count,
                        count: 0,
                        ref_seg: Box::new(ref_copy),
                        current_seg: Box::new(current_copy),
                    },
                )
            },
            Segment::Sub(p) => Segment::Sub(Box::new(p.duplicate())),
            _ => {
                proof {
                    assert(false);
                }
                Segment::Nop(Nop {})
            },
        }
    }
}

impl Path {
    pub open spec fn ended_s(self) -> bool {
        self.current is None && self.pending@.len() == 0
    }

    /// Build a path from segments listed in run order: the first
    /// element runs first.
    pub fn new(segments: Vec<Segment>) -> (r: Path)
        ensures
            r.pending@ == segments@,
            r.current is None,
    {
        Path { pending: segments, current: None }
    }

    /// Append a segment to run after everything already queued.
    pub fn extend(&mut self, v: Segment)
        ensures
            final(self).pending@ == old(self).pending@.push(v),
            final(self).current == old(self).current,
    {
        self.pending.push(v);
    }

    /// Queue a segment to run next, before everything already queued.
    pub fn extend_front(&mut self, v: Segment)
        ensures
            final(self).pending@ == seq![v] + old(self).pending@,
            final(self).current == old(self).current,
    {
        self.pending.insert(0, v);
        proof {
            assert(self.pending@ =~= seq![v] + old(self).pending@);
        }
    }

    /// Whether the path has nothing left to run.
    pub fn ended(&self) -> (r: bool)
        ensures
            r == self.ended_s(),
    {
        self.current.is_none() && self.pending.len() == 0
    }

    /// As a segment inside another path, a path reports completion
    /// exactly when it has nothing left to run; the check itself
    /// changes nothing.
    pub fn end_follow(&self) -> (r: Option<Vec<Segment>>)
        ensures
            r is Some <==> self.ended_s(),
            (r matches Option::Some(l) ==> l@.len() == 0),
    {
        if self.current.is_none() && self.pending.len() == 0 {
            Option::Some(Vec::new())
        } else {
            Option::None
        }
    }

    /// Forced early termination of whatever is currently active.
    pub fn abrupt_end(&mut self, odom: &Odom, pkt: &mut CmdPacket, now: u64)
        requires
            path_wf(*old(self)),
            odom.wf(),
            old(pkt).wf(),
        ensures
            *final(self) == *old(self),
            path_wf(*final(self)),
            final(pkt).wf(),
            final(pkt)@ == path_abrupt_pkt(*old(self), old(pkt)@, now),
        decreases path_size(*old(self)),
    {
        match &mut self.current {
            Option::Some(c) => {
                c.abrupt_end(odom, pkt, now);
            },
            Option::None => {},
        }
    }

    /// Splice successor segments onto the front of the queue,
    /// preserving their order.
    fn splice_front(&mut self, list: Vec<Segment>)
        ensures
            final(self).pending@ == list@ + old(self).pending@,
            final(self).current == old(self).current,
    {
        let mut list = list;
        list.append(&mut self.pending);
        self.pending = list;
    }

    /// One engine tick, per the container algorithm: activate the next
    /// queued segment if none is active; idle on an exhausted path;
    /// retire a finished active segment, splice its successors in
    /// front, and re-evaluate within the same tick; otherwise drive
    /// the active segment and report its output. `path_tick_rel` pins
    /// each of these cases.
    pub fn follow(&mut self, odom: &Odom, pid: &mut Pid, pkt: &mut CmdPacket, now: u64) -> (out:
        PathOutput)
        requires
            path_wf(*old(self)),
            odom.wf(),
            old(pid).wf(),
            old(pkt).wf(),
        ensures
            path_wf(*final(self)),
            final(pid).wf(),
            final(pkt).wf(),
            path_active_count(*final(self)) <= 1,
            path_follow_rel(
                *old(self),
                *final(self),
                *odom,
                *old(pid),
                *final(pid),
                old(pkt)@,
                final(pkt)@,
                now,
                out,
            ),
            path_tick_rel(
                *old(self),
                *final(self),
                *odom,
                *old(pid),
                *final(pid),
                old(pkt)@,
                final(pkt)@,
                now,
                out,
            ),
        decreases path_msize(*old(self)),
    {
        let ghost s_st_g: Segment;
        let ghost pid_m_g: Pid;
        if self.current.is_none() {
            if self.pending.len() == 0 {
                let out = PathOutput::Voltages(Vec2::zero());
                proof {
                    assert(path_tick_rel(
                        *old(self),
                        *self,
                        *odom,
                        *old(pid),
                        *pid,
                        old(pkt)@,
                        pkt@,
                        now,
                        out,
                    ));
                }
                return out;
            }
            proof {
                lemma_segs_wf_index(self.pending@);
            }
            let mut seg = self.pending.remove(0);
            seg.start(odom, pid, now);
            proof {
                s_st_g = seg;
                pid_m_g = *pid;
                lemma_start_msize(old(self).pending@[0], seg, *odom, *old(pid), *pid, now);
            }
            self.current = Some(seg);
            proof {
                assert(self.pending@ == old(self).pending@.drop_first());
                lemma_segs_wf_index(old(self).pending@);
                lemma_segs_wf_index(self.pending@);
                assert(forall|i: int| 0 <= i < self.pending@.len() ==> self.pending@[i] == old(
                    self,
                ).pending@[i + 1]);
                assert(path_msize(*self) <= path_msize(*old(self)));
            }
        } else {
            proof {
                s_st_g = old(self).current->Some_0;
                pid_m_g = *old(pid);
            }
        }
        let ghost mid = *self;
        let mut seg = match self.current.take() {
            Option::Some(s) => s,
            Option::None => {
                proof {
                    assert(false);
                }
                return PathOutput::Voltages(Vec2::zero());
            },
        };
        let ghost seg0 = seg;
        proof {
            assert(seg_msize(seg0) + 1 + segs_msize(self.pending@) == path_msize(mid));
        }
        let ended = seg.end_follow(odom, pkt, now);
        let ghost seg_e = seg;
        proof {
            lemma_end_msize(seg0, seg_e, *odom, now);
        }
        match ended {
            Option::Some(list) => {
                proof {
                    lemma_segs_msize_add(list@, self.pending@);
                    assert(list@.len() == 0);
                    assert(list@ + self.pending@ =~= self.pending@);
                }
                self.splice_front(list);
                proof {
                    lemma_seg_msize_pos(seg0);
                    lemma_segs_wf_index(self.pending@);
                    assert(path_msize(*self) < path_msize(*old(self)));
                }
                let ghost mid2 = *self;
                let ghost pid_r = *pid;
                let ghost pkt_r = pkt@;
                let out = self.follow(odom, pid, pkt, now);
                proof {
                    assert(pkt_r == seg_end_pkt(seg0, *odom, old(pkt)@, now));
                    if old(self).current is Some {
                        // a finished active segment was retired; the tick
                        // continued from the unchanged queue
                        assert(mid2.pending@ == old(self).pending@);
                        if old(self).pending@.len() == 0 {
                            assert(mid2.ended_s());
                        } else {
                            assert(path_resolve_rel(
                                old(self).pending@,
                                *self,
                                *odom,
                                *old(pid),
                                *pid,
                                seg_end_pkt(seg0, *odom, old(pkt)@, now),
                                pkt@,
                                now,
                                out,
                            ));
                        }
                    } else {
                        // the freshly activated head segment was already
                        // finished and was retired in the same tick
                        assert(mid2.pending@ == old(self).pending@.drop_first());
                        assert(seg_start_rel(
                            old(self).pending@[0],
                            s_st_g,
                            *odom,
                            *old(pid),
                            pid_m_g,
                            now,
                        ));
                        if old(self).pending@.len() == 1 {
                            assert(mid2.pending@.len() == 0);
                            assert(mid2.ended_s());
                        }
                        assert(path_resolve_rel(
                            old(self).pending@,
                            *self,
                            *odom,
                            *old(pid),
                            *pid,
                            old(pkt)@,
                            pkt@,
                            now,
                            out,
                        ));
                    }
                    assert(path_tick_rel(
                        *old(self),
                        *self,
                        *odom,
                        *old(pid),
                        *pid,
                        old(pkt)@,
                        pkt@,
                        now,
                        out,
                    ));
                }
                out
            },
            Option::None => {
                proof {
                    assert(seg_msize(seg_e) < path_msize(*old(self)));
                    if seg_end_quiet(seg0, *odom, now) {
                        lemma_end_quiet(seg0, seg_e, *odom, old(pkt)@, now);
                    }
                }
                let out = seg.follow(odom, pid, pkt, now);
                self.current = Some(seg);
                proof {
                    if old(self).current is None {
                        assert(seg_start_rel(
                            old(self).pending@[0],
                            s_st_g,
                            *odom,
                            *old(pid),
                            pid_m_g,
                            now,
                        ));
                        assert(seg_end_state_rel(s_st_g, seg_e, *odom, now));
                        assert(path_resolve_rel(
                            old(self).pending@,
                            *self,
                            *odom,
                            *old(pid),
                            *pid,
                            old(pkt)@,
                            pkt@,
                            now,
                            out,
                        ));
                    }
                    assert(path_tick_rel(
                        *old(self),
                        *self,
                        *odom,
                        *old(pid),
                        *pid,
                        old(pkt)@,
                        pkt@,
                        now,
                        out,
                    ));
                }
                out
            },
        }
    }
    /// An owned copy of a duplicable path.
    pub fn duplicate(&self) -> (r: Path)
        requires
            path_duplicable(*self),
        ensures
            path_dup_rel(*self, r),
        decreases path_size(*self),
    {
        let mut pending: Vec<Segment> = Vec::new();
        let mut i: usize = 0;
        proof {
            lemma_segs_dup_sub_empty(self.pending@);
        }
        while i < self.pending.len()
            invariant
                path_duplicable(*self),
                i <= self.pending@.len(),
                pending@.len() == i,
                segs_dup_rel(self.pending@.subrange(0, i as int), pending@),
            decreases self.pending@.len() - i,
        {
            proof {
                lemma_segs_duplicable_index(self.pending@, i as int);
                lemma_segs_size_index(self.pending@, i as int);
            }
            let ghost prev = pending@;
            let copy = self.pending[i].duplicate();
            pending.push(copy);
            proof {
                lemma_segs_dup_snoc(
                    self.pending@.subrange(0, i as int),
                    prev,
                    self.pending@[i as int],
                    copy,
                );
                assert(self.pending@.subrange(0, i as int).push(self.pending@[i as int])
                    =~= self.pending@.subrange(0, i + 1));
            }
            i = i + 1;
        }
        proof {
            assert(self.pending@.subrange(0, self.pending@.len() as int) =~= self.pending@);
        }
        let current: Option<Segment> = match &self.current {
            Option::Some(s) => Option::Some(s.duplicate()),
            Option::None => Option::None,
        };
        Path { pending, current }
    }
}

/// Duplication of an empty prefix.
proof fn lemma_segs_dup_sub_empty(s: Seq<Segment>)
    ensures
        segs_dup_rel(s.subrange(0, 0), Seq::<Segment>::empty()),
{
    assert(s.subrange(0, 0).len() == 0);
}

/// Each element of a duplicable queue is duplicable.
proof fn lemma_segs_duplicable_index(s: Seq<Segment>, i: int)
    requires
        segs_duplicable(s),
        0 <= i < s.len(),
    ensures
        seg_duplicable(s[i]),
    decreases i,
{
    if i > 0 {
        lemma_segs_duplicable_index(s.drop_first(), i - 1);
    }
}

/// Extending two related queues by related elements keeps them related.
proof fn lemma_segs_dup_snoc(s: Seq<Segment>, r: Seq<Segment>, x: Segment, y: Segment)
    requires
        segs_dup_rel(s, r),
        seg_dup_rel(x, y),
    ensures
        segs_dup_rel(s.push(x), r.push(y)),
    decreases s.len(),
{
    if s.len() == 0 {
        assert(s.push(x)[0] == x);
        assert(r.push(y)[0] == y);
        assert(s.push(x).drop_first() =~= s);
        assert(r.push(y).drop_first() =~= r);
    } else {
        assert(s.push(x).drop_first() =~= s.drop_first().push(x));
        assert(r.push(y).drop_first() =~= r.drop_first().push(y));
        assert(s.push(x)[0] == s[0]);
        assert(r.push(y)[0] == r[0]);
        lemma_segs_dup_snoc(s.drop_first(), r.drop_first(), x, y);
    }
}

} // verus!
