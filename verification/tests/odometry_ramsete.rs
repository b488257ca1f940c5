use motion_core::odometry::Odom;
use motion_core::packet::SensorPacket;
use motion_core::ramsete::Ramsete;
use motion_core::vec2::Vec2;

fn fresh_odom(start_heading: i64) -> Odom {
    Odom::new(Vec2::new(0, 0), start_heading, 0, Vec2::new(0, 0), 254, 0)
}

#[test]
fn update_is_rate_limited() {
    let pkt = SensorPacket::new();
    let mut o = fresh_odom(0);
    o.update(5_000, Vec2::new(100, 100), &pkt, 5);
    assert_eq!(o.pos(), Vec2::new(0, 0));
    assert_eq!(o.heading(), 0);
}

#[test]
fn straight_interval_integrates_average_distance() {
    let pkt = SensorPacket::new();
    let mut o = fresh_odom(0);
    o.update(0, Vec2::new(100, 100), &pkt, 20);
    assert_eq!(o.pos(), Vec2::new(100, 0));
    assert_eq!(o.heading(), 0);
}

#[test]
fn creation_reading_is_the_heading_baseline() {
    let o = Odom::new(Vec2::new(0, 0), 90_000, 5_000, Vec2::new(0, 0), 254, 0);
    assert_eq!(o.heading(), 90_000);
    assert_eq!(o.pos(), Vec2::new(0, 0));
    assert_eq!(o.velocity(), 0);
}

#[test]
fn unchanged_readings_leave_position_unchanged() {
    let pkt = SensorPacket::new();
    let mut o = Odom::new(Vec2::new(0, 0), 0, 5_000, Vec2::new(100, 200), 254, 0);
    assert_eq!(o.heading(), 0);
    o.update(5_000, Vec2::new(100, 200), &pkt, 20);
    assert_eq!(o.heading(), 0);
    assert_eq!(o.pos(), Vec2::new(0, 0));
    assert_eq!(o.velocity(), 0);
    o.update(5_000, Vec2::new(100, 200), &pkt, 40);
    assert_eq!(o.pos(), Vec2::new(0, 0));
}

#[test]
fn arc_interval_matches_kinematic_formula() {
    let pkt = SensorPacket::new();
    let mut o = fresh_odom(0);
    o.update(10_000, Vec2::new(100, 200), &pkt, 100);
    assert_eq!(o.pos(), Vec2::new(131, 22));
    assert_eq!(o.heading(), 10_000);
    assert_eq!(o.velocity(), 1_320);
}

#[test]
fn quarter_turn_start_heading_rotates_the_track() {
    let pkt = SensorPacket::new();
    let mut o1 = fresh_odom(0);
    let mut o2 = fresh_odom(90_000);
    o1.update(0, Vec2::new(100, 100), &pkt, 20);
    o2.update(0, Vec2::new(100, 100), &pkt, 20);
    assert_eq!(o1.pos(), Vec2::new(100, 0));
    assert_eq!(o2.pos(), Vec2::new(0, 100));
    assert_eq!(o1.velocity(), o2.velocity());
}

#[test]
fn quarter_turn_start_heading_rotates_an_arc_too() {
    let pkt = SensorPacket::new();
    let mut o1 = fresh_odom(0);
    let mut o2 = fresh_odom(90_000);
    o1.update(10_000, Vec2::new(100, 200), &pkt, 100);
    o2.update(10_000, Vec2::new(100, 200), &pkt, 100);
    assert_eq!(o1.pos(), Vec2::new(131, 22));
    assert_eq!(o2.pos(), Vec2::new(-22, 131));
    assert_eq!(o1.velocity(), o2.velocity());
}

#[test]
fn clockwise_interval_integrates_as_straight_segment() {
    let pkt = SensorPacket::new();
    let mut o = fresh_odom(0);
    o.update(-10_000, Vec2::new(150, 150), &pkt, 50);
    assert_eq!(o.pos(), Vec2::new(149, -13));
    assert_eq!(o.heading(), -10_000);
    assert_eq!(o.velocity(), 2_980);
}

#[test]
fn ramsete_straight_ahead_error() {
    let mut c = Ramsete::new(300, 300);
    c.set_target((Vec2::new(1_000, 0), 0));
    let o = fresh_odom(0);
    let out = c.output_linear_angular(&o);
    assert_eq!(out, Vec2::new(10, 0));
}

#[test]
fn ramsete_sideways_target_turns() {
    let mut c = Ramsete::new(300, 300);
    c.set_target((Vec2::new(0, 1_000), 90_000));
    let o = fresh_odom(0);
    let out = c.output_linear_angular(&o);
    assert_eq!(out, Vec2::new(0, 48_600_900));
}
