//! Pose estimator: fuses per-side travel distances and a gyroscope
//! heading into a 2D pose by dead reckoning, at a bounded update rate.
//!
//! Distances are millimetres, headings millidegrees, time milliseconds.
//! Each interval is integrated as a straight segment or a circular arc
//! and rotated into the global frame with the average interval heading.

use vstd::prelude::*;

use crate::num::{clamp_s, div_trunc, elapsed, elapsed_s, isqrt_s, tdiv};
use crate::packet::SensorPacket;
use crate::trig::{cos_s, sin_s, TRIG_ONE};
use crate::vec2::{v2_add, v2_clamp, v2_mag, v2_rot90, v2_rotate, Vec2, V2};

verus! {

/// Minimum interval between integrations, in milliseconds.
pub const UPDATE_RATE_MS: u64 = 10;

/// Below this heading change (millidegrees) an interval counts as
/// straight.
pub const STRAIGHT_THRESHOLD_MDEG: i64 = 500;

/// The same threshold in microradians, used to scale the side-distance
/// test by the wheel track.
pub const STRAIGHT_THRESHOLD_URAD: i64 = 8_727;

/// Largest accepted side-distance reading magnitude (millimetres).
pub const ODOM_DIST_ABS_LIMIT: i64 = 10_000_000;

/// Largest accepted heading reading or start-heading magnitude.
pub const ODOM_ANGLE_ABS_LIMIT: i64 = 1_000_000_000;

/// Largest accepted start-position component magnitude.
pub const ODOM_START_ABS_LIMIT: i64 = 1_000_000_000;

/// Bounds on the configured wheel half-track (millimetres).
pub const ODOM_RADIUS_MIN: i64 = 1;

pub const ODOM_RADIUS_MAX: i64 = 100_000;

/// A single interval's displacement saturates here (millimetres).
pub const ODOM_DELTA_ABS_LIMIT: i64 = 2_000_000_000;

/// The accumulated relative position saturates here.
pub const ODOM_POS_ABS_LIMIT: i64 = 1_000_000_000_000_000;

/// Largest representable speed (millimetres per second).
pub const ODOM_VEL_ABS_LIMIT: i64 = 4_000_000_000_000;

/// Largest accepted monotonic timestamp (milliseconds).
pub const ODOM_TIME_LIMIT: u64 = 4_000_000_000_000_000;

pub struct Odom {
    pub start_pos: Vec2,
    pub start_heading: i64,
    pub rel_pos: Vec2,
    pub heading: i64,
    pub heading_base: i64,
    pub last_update: u64,
    pub last_distances: Vec2,
    pub velocity: i64,
    pub radius: i64,
    pub last_pkt: Option<SensorPacket>,
}

/// Local displacement of one interval: straight for small heading
/// change or side difference, a circular arc otherwise.
pub open spec fn odom_local_s(dl: int, dr: int, dtheta: int, radius: int) -> V2 {
    let side_diff = dr - dl;
    let side_threshold = tdiv(2 * radius * STRAIGHT_THRESHOLD_URAD, 1_000_000);
    if dtheta < STRAIGHT_THRESHOLD_MDEG || side_diff < side_threshold || side_diff == 0 {
        V2 { x: tdiv(dl + dr, 2), y: 0 }
    } else {
        let rt = tdiv(radius * (dl + dr), side_diff);
        V2 {
            x: tdiv(rt * sin_s(dtheta), TRIG_ONE as int),
            y: tdiv(rt * ((TRIG_ONE as int) - cos_s(dtheta)), TRIG_ONE as int),
        }
    }
}

/// Average heading of the interval: trapezoidal, not the endpoint.
pub open spec fn odom_avg_heading_s(start_heading: int, theta: int, dtheta: int) -> int {
    start_heading + theta - tdiv(dtheta, 2)
}

/// Global displacement of one interval over plain values, saturated
/// per component.
pub open spec fn odom_global_raw_s(
    start_heading: int,
    prev_heading: int,
    last: V2,
    radius: int,
    heading: int,
    lr: V2,
) -> V2 {
    let dl = lr.x - last.x;
    let dr = lr.y - last.y;
    let dtheta = heading - prev_heading;
    let local = v2_clamp(
        odom_local_s(dl, dr, dtheta, radius),
        crate::vec2::ROT_ABS_LIMIT as int,
    );
    let avg = odom_avg_heading_s(start_heading, heading, dtheta);
    v2_clamp(v2_rotate(local, avg), ODOM_DELTA_ABS_LIMIT as int)
}

/// Global displacement of one interval of an estimator state. The
/// raw heading reading taken at creation is the zero baseline, so the
/// session frame is anchored at `start_heading` exactly.
pub open spec fn odom_global_s(o: Odom, heading: int, lr: V2) -> V2 {
    odom_global_raw_s(
        o.start_heading - o.heading_base,
        o.heading as int,
        o.last_distances@,
        o.radius as int,
        heading,
        lr,
    )
}

/// Straight-line idempotence: an interval whose side distances and
/// heading both match the stored baseline integrates a zero
/// displacement, so `update` leaves the estimated position unchanged.
pub proof fn lemma_straight_line_idempotence(o: Odom)
    requires
        o.wf(),
    ensures
        odom_global_s(o, o.heading as int, o.last_distances@) == (V2 { x: 0, y: 0 }),
        v2_clamp(
            v2_add(o.rel_pos@, odom_global_s(o, o.heading as int, o.last_distances@)),
            ODOM_POS_ABS_LIMIT as int,
        ) == o.rel_pos@,
{
    let dtheta = 0int;
    vstd::arithmetic::div_mod::lemma_div_of0(2);
    let local = odom_local_s(0, 0, dtheta, o.radius as int);
    assert(local == (V2 { x: 0, y: 0 }));
    let avg = odom_avg_heading_s(o.start_heading - o.heading_base, o.heading as int, dtheta);
    let s = sin_s(avg);
    let c = cos_s(avg);
    assert(c * 0 - s * 0 == 0) by (nonlinear_arith);
    assert(s * 0 + c * 0 == 0) by (nonlinear_arith);
    vstd::arithmetic::div_mod::lemma_div_of0(TRIG_ONE as int);
    assert(v2_rotate(V2 { x: 0, y: 0 }, avg) == (V2 { x: 0, y: 0 }));
    assert(v2_add(o.rel_pos@, V2 { x: 0, y: 0 }) == o.rel_pos@);
}

/// Frame invariance, one step: turning the start heading a quarter
/// turn further turns the integrated displacement of any interval by
/// exactly the same quarter turn.
pub proof fn lemma_frame_invariance_quarter_raw(
    start_heading: int,
    prev_heading: int,
    last: V2,
    radius: int,
    heading: int,
    lr: V2,
)
    ensures
        odom_global_raw_s(
            start_heading + crate::trig::QUARTER_TURN_MDEG,
            prev_heading,
            last,
            radius,
            heading,
            lr,
        ) == v2_rot90(odom_global_raw_s(start_heading, prev_heading, last, radius, heading, lr)),
{
    let dl = lr.x - last.x;
    let dr = lr.y - last.y;
    let dtheta = heading - prev_heading;
    let local = v2_clamp(
        odom_local_s(dl, dr, dtheta, radius),
        crate::vec2::ROT_ABS_LIMIT as int,
    );
    let avg1 = odom_avg_heading_s(start_heading, heading, dtheta);
    crate::vec2::lemma_rotate_quarter(local, avg1);
    crate::vec2::lemma_rot90_clamp(v2_rotate(local, avg1), ODOM_DELTA_ABS_LIMIT as int);
}

/// Frame invariance for any whole number of quarter turns: rotating
/// the start heading by `k` quarter turns rotates every integrated
/// displacement by the same `k` quarter turns about the start.
pub proof fn lemma_frame_invariance_turns(
    start_heading: int,
    prev_heading: int,
    last: V2,
    radius: int,
    heading: int,
    lr: V2,
    k: nat,
)
    ensures
        odom_global_raw_s(
            start_heading + k * (crate::trig::QUARTER_TURN_MDEG as int),
            prev_heading,
            last,
            radius,
            heading,
            lr,
        ) == crate::vec2::v2_rot90_n(
            odom_global_raw_s(start_heading, prev_heading, last, radius, heading, lr),
            k,
        ),
    decreases k,
{
    if k > 0 {
        let q = crate::trig::QUARTER_TURN_MDEG as int;
        lemma_frame_invariance_turns(start_heading, prev_heading, last, radius, heading, lr, (k - 1) as nat);
        lemma_frame_invariance_quarter_raw(
            start_heading + ((k - 1) as nat) * q,
            prev_heading,
            last,
            radius,
            heading,
            lr,
        );
        assert(k * q == ((k - 1) as nat) * q + q) by (nonlinear_arith)
            requires
                k >= 1,
        {
        }
    }
}

/// Frame invariance at the estimator level, one quarter turn.
pub proof fn lemma_frame_invariance_quarter(o1: Odom, o2: Odom, heading: int, lr: V2)
    requires
        o2.start_heading == o1.start_heading + crate::trig::QUARTER_TURN_MDEG,
        o2.heading == o1.heading,
        o2.heading_base == o1.heading_base,
        o2.last_distances == o1.last_distances,
        o2.radius == o1.radius,
    ensures
        odom_global_s(o2, heading, lr) == v2_rot90(odom_global_s(o1, heading, lr)),
{
    lemma_frame_invariance_quarter_raw(
        o1.start_heading - o1.heading_base,
        o1.heading as int,
        o1.last_distances@,
        o1.radius as int,
        heading,
        lr,
    );
}

/// Frame invariance carried through the accumulated state: with the
/// relative position turned a quarter turn, one more `update` with the
/// same inputs keeps the two estimates a quarter turn apart, and their
/// speeds equal.
pub proof fn lemma_frame_invariance_step(o1: Odom, o2: Odom, heading: int, lr: V2)
    requires
        o2.start_heading == o1.start_heading + crate::trig::QUARTER_TURN_MDEG,
        o2.heading == o1.heading,
        o2.heading_base == o1.heading_base,
        o2.last_distances == o1.last_distances,
        o2.radius == o1.radius,
        o2.rel_pos@ == v2_rot90(o1.rel_pos@),
    ensures
        v2_clamp(
            v2_add(o2.rel_pos@, odom_global_s(o2, heading, lr)),
            ODOM_POS_ABS_LIMIT as int,
        ) == v2_rot90(
            v2_clamp(
                v2_add(o1.rel_pos@, odom_global_s(o1, heading, lr)),
                ODOM_POS_ABS_LIMIT as int,
            ),
        ),
        v2_mag(odom_global_s(o2, heading, lr)) == v2_mag(odom_global_s(o1, heading, lr)),
{
    lemma_frame_invariance_quarter(o1, o2, heading, lr);
    let gd1 = odom_global_s(o1, heading, lr);
    crate::vec2::lemma_rot90_add(o1.rel_pos@, gd1);
    crate::vec2::lemma_rot90_clamp(v2_add(o1.rel_pos@, gd1), ODOM_POS_ABS_LIMIT as int);
    crate::vec2::lemma_rot90_mag_sq(gd1);
}

impl Odom {
    pub open spec fn wf(self) -> bool {
        &&& -ODOM_START_ABS_LIMIT <= self.start_pos.x <= ODOM_START_ABS_LIMIT
        &&& -ODOM_START_ABS_LIMIT <= self.start_pos.y <= ODOM_START_ABS_LIMIT
        &&& -ODOM_ANGLE_ABS_LIMIT <= self.start_heading <= ODOM_ANGLE_ABS_LIMIT
        &&& -ODOM_POS_ABS_LIMIT <= self.rel_pos.x <= ODOM_POS_ABS_LIMIT
        &&& -ODOM_POS_ABS_LIMIT <= self.rel_pos.y <= ODOM_POS_ABS_LIMIT
        &&& -ODOM_ANGLE_ABS_LIMIT <= self.heading <= ODOM_ANGLE_ABS_LIMIT
        &&& -ODOM_ANGLE_ABS_LIMIT <= self.heading_base <= ODOM_ANGLE_ABS_LIMIT
        &&& -ODOM_DIST_ABS_LIMIT <= self.last_distances.x <= ODOM_DIST_ABS_LIMIT
        &&& -ODOM_DIST_ABS_LIMIT <= self.last_distances.y <= ODOM_DIST_ABS_LIMIT
        &&& -ODOM_VEL_ABS_LIMIT <= self.velocity <= ODOM_VEL_ABS_LIMIT
        &&& ODOM_RADIUS_MIN <= self.radius <= ODOM_RADIUS_MAX
        &&& self.last_update <= ODOM_TIME_LIMIT
        &&& match self.last_pkt {
            Option::Some(p) => p.wf(),
            Option::None => true,
        }
    }

    /// A fresh estimator: the given pose is the session origin, and the
    /// current sensor readings (side distances and raw heading alike)
    /// are the zero baseline, so the relative state starts at zero and
    /// `heading()` starts at exactly `start_heading`.
    pub fn new(
        start_pos: Vec2,
        start_heading: i64,
        heading: i64,
        side_distances: Vec2,
        radius: i64,
        now: u64,
    ) -> (r: Odom)
        requires
            -ODOM_START_ABS_LIMIT <= start_pos.x <= ODOM_START_ABS_LIMIT,
            -ODOM_START_ABS_LIMIT <= start_pos.y <= ODOM_START_ABS_LIMIT,
            -ODOM_ANGLE_ABS_LIMIT <= start_heading <= ODOM_ANGLE_ABS_LIMIT,
            -ODOM_ANGLE_ABS_LIMIT <= heading <= ODOM_ANGLE_ABS_LIMIT,
            -ODOM_DIST_ABS_LIMIT <= side_distances.x <= ODOM_DIST_ABS_LIMIT,
            -ODOM_DIST_ABS_LIMIT <= side_distances.y <= ODOM_DIST_ABS_LIMIT,
            ODOM_RADIUS_MIN <= radius <= ODOM_RADIUS_MAX,
            now <= ODOM_TIME_LIMIT,
        ensures
            r.wf(),
            r.start_pos == start_pos,
            r.start_heading == start_heading,
            r.rel_pos.x == 0 && r.rel_pos.y == 0,
            r.heading == heading,
            r.heading_base == heading,
            r.heading_s() == r.start_heading,
            r.last_update == now,
            r.last_distances == side_distances,
            r.velocity == 0,
            r.radius == radius,
            r.last_pkt is None,
    {
        Odom {
            start_pos,
            start_heading,
            rel_pos: Vec2::zero(),
            heading,
            heading_base: heading,
            last_update: now,
            last_distances: side_distances,
            velocity: 0,
            radius,
            last_pkt: None,
        }
    }

    /// Integrate one interval, unless the minimum interval has not yet
    /// elapsed, in which case nothing changes.
    pub fn update(&mut self, heading: i64, side_distances: Vec2, pkt: &SensorPacket, now: u64)
        requires
            old(self).wf(),
            -ODOM_ANGLE_ABS_LIMIT <= heading <= ODOM_ANGLE_ABS_LIMIT,
            -ODOM_DIST_ABS_LIMIT <= side_distances.x <= ODOM_DIST_ABS_LIMIT,
            -ODOM_DIST_ABS_LIMIT <= side_distances.y <= ODOM_DIST_ABS_LIMIT,
            pkt.wf(),
            now <= ODOM_TIME_LIMIT,
        ensures
            final(self).wf(),
            elapsed_s(old(self).last_update, now) < UPDATE_RATE_MS ==> *final(self) == *old(self),
            elapsed_s(old(self).last_update, now) >= UPDATE_RATE_MS ==> {
                let gd = odom_global_s(*old(self), heading as int, side_distances@);
                &&& final(self).rel_pos@ == v2_clamp(
                    v2_add(old(self).rel_pos@, gd),
                    ODOM_POS_ABS_LIMIT as int,
                )
                &&& final(self).heading == heading
                &&& final(self).last_update == now
                &&& final(self).last_distances == side_distances
                &&& final(self).velocity == tdiv(
                    v2_mag(gd) * 1000,
                    elapsed_s(old(self).last_update, now),
                )
                &&& final(self).start_pos == old(self).start_pos
                &&& final(self).start_heading == old(self).start_heading
                &&& final(self).heading_base == old(self).heading_base
                &&& final(self).radius == old(self).radius
                &&& final(self).last_pkt matches Some(p) && p.encoders@ == pkt.encoders@
            },
    {
        let dt = elapsed(self.last_update, now);
        if dt < UPDATE_RATE_MS {
            return;
        }
        self.last_pkt = Some(pkt.duplicate());

        let dl: i64 = side_distances.x - self.last_distances.x;
        let dr: i64 = side_distances.y - self.last_distances.y;
        let dtheta: i64 = heading - self.heading;
        let side_diff: i64 = dr - dl;
        let side_threshold: i64 = div_trunc(2 * self.radius * STRAIGHT_THRESHOLD_URAD, 1_000_000);

        let local: Vec2 = if dtheta < STRAIGHT_THRESHOLD_MDEG || side_diff < side_threshold
            || side_diff == 0 {
            Vec2::new(div_trunc(dl + dr, 2), 0)
        } else {
            proof {
                crate::num::lemma_abs_mul_le(
                    self.radius as int,
                    (dl + dr) as int,
                    ODOM_RADIUS_MAX as int,
                    4 * ODOM_DIST_ABS_LIMIT as int,
                );
            }
            let rt: i64 = div_trunc(self.radius * (dl + dr), side_diff);
            proof {
                crate::num::lemma_tdiv_abs_le(
                    (self.radius * (dl + dr)) as int,
                    4_000_000_000_000,
                    side_diff as int,
                );
                crate::trig::lemma_sin_bounds(dtheta as int);
                crate::trig::lemma_cos_bounds(dtheta as int);
                crate::num::lemma_abs_mul_le(
                    rt as int,
                    sin_s(dtheta as int),
                    4_000_000_000_000,
                    TRIG_ONE as int,
                );
                crate::num::lemma_abs_mul_le(
                    rt as int,
                    (TRIG_ONE as int) - cos_s(dtheta as int),
                    4_000_000_000_000,
                    2 * TRIG_ONE as int,
                );
                crate::num::lemma_tdiv_abs_le(
                    rt as int * sin_s(dtheta as int),
                    4_000_000_000_000_000_000,
                    TRIG_ONE as int,
                );
                crate::num::lemma_tdiv_abs_le(
                    rt as int * ((TRIG_ONE as int) - cos_s(dtheta as int)),
                    8_000_000_000_000_000_000,
                    TRIG_ONE as int,
                );
            }
            let s = crate::trig::sin_mdeg(dtheta);
            let c = crate::trig::cos_mdeg(dtheta);
            Vec2::new(
                div_trunc(rt * s, TRIG_ONE),
                div_trunc(rt * (TRIG_ONE - c), TRIG_ONE),
            )
        };

        let avg: i64 = self.start_heading - self.heading_base + heading - div_trunc(dtheta, 2);
        let bounded = local.clamped(crate::vec2::ROT_ABS_LIMIT);
        let global: Vec2 = bounded.rotated(avg).clamped(ODOM_DELTA_ABS_LIMIT);

        let summed = self.rel_pos.add(global);
        self.rel_pos = summed.clamped(ODOM_POS_ABS_LIMIT);

        let step = global.mag();
        self.velocity = div_trunc(step * 1000, dt as i64);

        self.last_distances = side_distances;
        self.heading = heading;
        self.last_update = now;
    }

    /// The estimated global position: session origin plus accumulated
    /// relative displacement.
    pub fn pos(&self) -> (r: Vec2)
        requires
            self.wf(),
        ensures
            r@ == v2_add(self.start_pos@, self.rel_pos@),
    {
        self.start_pos.add(self.rel_pos)
    }

    /// The estimated global heading: session-start heading plus the
    /// heading change accumulated since creation, in millidegrees.
    pub open spec fn heading_s(self) -> int {
        self.start_heading + self.heading - self.heading_base
    }

    /// The estimated global heading, in millidegrees.
    pub fn heading(&self) -> (r: i64)
        requires
            self.wf(),
        ensures
            r == self.heading_s(),
    {
        self.start_heading + self.heading - self.heading_base
    }

    /// Instantaneous speed of the last integrated interval,
    /// millimetres per second.
    pub fn velocity(&self) -> (r: i64)
        ensures
            r == self.velocity,
    {
        self.velocity
    }

    /// The sensor snapshot of the last integrated interval.
    pub fn last_pkt(&self) -> (r: &Option<SensorPacket>)
        ensures
            r == self.last_pkt,
    {
        &self.last_pkt
    }
}

} // verus!
