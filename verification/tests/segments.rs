use motion_core::latch::{Latch, LatchAction};
use motion_core::modifier_path::{Nop, RepeatSegment, TimedSegment, WhileSegment};
use motion_core::odometry::Odom;
use motion_core::packet::{CmdPacket, EncoderReading, MotorCmd, SensorPacket, TriportCmd};
use motion_core::path::{Path, PathOutput, PowerMotors, Ram, RamsetePath, RamsetePoint, Segment, SwitchController, TurnTo};
use motion_core::pid::Pid;
use motion_core::ramsete::Ramsete;
use motion_core::shaking_motor::ShakingMotor;
use motion_core::vec2::Vec2;

fn odom_at(x: i64, y: i64, heading: i64) -> Odom {
    Odom::new(Vec2::new(x, y), heading, 0, Vec2::new(0, 0), 254, 0)
}

fn heading_pid() -> Pid {
    Pid::new(550, 55, 2_200)
}

#[test]
fn ram_holds_voltage_then_finishes() {
    let odom = odom_at(0, 0, 0);
    let mut pid = heading_pid();
    let mut pkt = CmdPacket::new();
    let mut path = Path::new(vec![Segment::Ram(Ram::new(500, 560, 0))]);
    let mut t: u64 = 0;
    while t < 560 {
        let out = path.follow(&odom, &mut pid, &mut pkt, t);
        assert_eq!(out, PathOutput::Voltages(Vec2::new(500, 500)));
        assert!(!path.ended());
        t += 1;
    }
    let out = path.follow(&odom, &mut pid, &mut pkt, 560);
    assert_eq!(out, PathOutput::Voltages(Vec2::new(0, 0)));
    assert!(path.ended());
}

#[test]
fn turn_to_primes_pid_with_normalised_target() {
    let odom = odom_at(0, 0, 0);
    let mut pid = heading_pid();
    let mut pkt = CmdPacket::new();
    let mut path = Path::new(vec![Segment::TurnTo(TurnTo::new(90_000))]);
    let _ = path.follow(&odom, &mut pid, &mut pkt, 0);
    assert_eq!(pid.target, 90_000);
    assert!(!path.ended());
}

#[test]
fn turn_to_does_not_finish_at_start_even_on_target() {
    let odom = odom_at(0, 0, 90_000);
    let mut pid = heading_pid();
    let mut pkt = CmdPacket::new();
    let mut path = Path::new(vec![Segment::TurnTo(TurnTo::new(90_000))]);
    let _ = path.follow(&odom, &mut pid, &mut pkt, 0);
    assert!(!path.ended());
}

#[test]
fn turn_to_debounce_resets_on_excursion() {
    let on_target = odom_at(0, 0, 90_000);
    let off_target = odom_at(0, 0, 70_000);
    let mut pid = heading_pid();
    let mut pkt = CmdPacket::new();
    let mut seg = Segment::TurnTo(TurnTo::new(90_000));
    seg.start(&on_target, &mut pid, 0);
    let _ = seg.follow(&on_target, &mut pid, &mut pkt, 50);
    assert!(seg.end_follow(&on_target, &mut pkt, 150).is_none());
    let _ = seg.follow(&off_target, &mut pid, &mut pkt, 180);
    assert!(seg.end_follow(&on_target, &mut pkt, 350).is_none());
    assert!(seg.end_follow(&on_target, &mut pkt, 381).is_some());
}

#[test]
fn timed_segment_forces_completion_at_deadline() {
    let odom = odom_at(0, 0, 0);
    let mut pid = heading_pid();
    let mut pkt = CmdPacket::new();
    let mut seg = Segment::Timed(TimedSegment::new(Segment::Nop(Nop {}), 100, 0));
    seg.start(&odom, &mut pid, 0);
    assert!(seg.end_follow(&odom, &mut pkt, 99).is_none());
    assert!(seg.end_follow(&odom, &mut pkt, 100).is_some());
}

#[test]
fn timed_segment_cuts_a_live_inner_segment_short() {
    let odom = odom_at(0, 0, 0);
    let mut pid = heading_pid();
    let mut pkt = CmdPacket::new();
    let inner = Segment::Ram(Ram::new(500, 1_000, 0));
    let mut path = Path::new(vec![Segment::Timed(TimedSegment::new(inner, 100, 0))]);
    let out = path.follow(&odom, &mut pid, &mut pkt, 0);
    assert_eq!(out, PathOutput::Voltages(Vec2::new(500, 500)));
    let out = path.follow(&odom, &mut pid, &mut pkt, 100);
    assert_eq!(out, PathOutput::Voltages(Vec2::new(0, 0)));
    assert!(path.ended());
}

#[test]
fn sub_paths_nest_inside_a_path() {
    let odom = odom_at(0, 0, 0);
    let mut pid = heading_pid();
    let mut pkt = CmdPacket::new();
    let inner = Path::new(vec![
        Segment::Ram(Ram::new(100, 10, 0)),
        Segment::Ram(Ram::new(200, 10, 0)),
    ]);
    let mut path = Path::new(vec![Segment::Sub(Box::new(inner))]);
    let out = path.follow(&odom, &mut pid, &mut pkt, 0);
    assert_eq!(out, PathOutput::Voltages(Vec2::new(100, 100)));
    let out = path.follow(&odom, &mut pid, &mut pkt, 10);
    assert_eq!(out, PathOutput::Voltages(Vec2::new(200, 200)));
    let _ = path.follow(&odom, &mut pid, &mut pkt, 20);
    let _ = path.follow(&odom, &mut pid, &mut pkt, 21);
    assert!(path.ended());
}

#[test]
fn nop_idles_forever() {
    let odom = odom_at(0, 0, 0);
    let mut pid = heading_pid();
    let mut pkt = CmdPacket::new();
    let mut seg = Segment::Nop(Nop {});
    let out = seg.follow(&odom, &mut pid, &mut pkt, 0);
    assert_eq!(out, PathOutput::Voltages(Vec2::new(0, 0)));
    assert!(seg.end_follow(&odom, &mut pkt, 1_000_000).is_none());
}

#[test]
fn switch_controller_hands_back_authority() {
    let odom = odom_at(0, 0, 0);
    let mut pid = heading_pid();
    let mut pkt = CmdPacket::new();
    let mut seg = Segment::SwitchController(SwitchController {});
    let out = seg.follow(&odom, &mut pid, &mut pkt, 0);
    assert_eq!(out, PathOutput::SwitchToDriver);
    assert!(seg.end_follow(&odom, &mut pkt, 5).is_none());
}

#[test]
fn latch_state_machine() {
    let mut l = Latch::new_air(3, false);
    l.grab(0);
    assert_eq!(l, Latch::Air { port: 3, active: true, rev: false });
    l.release(0);
    assert_eq!(l, Latch::Air { port: 3, active: false, rev: false });
    l.toggle(0);
    assert_eq!(l, Latch::Air { port: 3, active: true, rev: false });

    let mut m = Latch::new_motor(2, false, 0);
    m.grab(10);
    assert_eq!(m, Latch::Motor { port: 2, last_change: 10, active: true, rev: false });
}

#[test]
fn latch_write_pkt_air_and_motor() {
    let mut pkt = CmdPacket::new();
    let mut l = Latch::new_air(3, false);
    l.grab(0);
    l.write_pkt(&mut pkt, 0);
    assert_eq!(pkt.triports[2], TriportCmd::DigitalHigh);
    l.release(0);
    l.write_pkt(&mut pkt, 0);
    assert_eq!(pkt.triports[2], TriportCmd::DigitalLow);

    let mut m = Latch::new_motor(2, false, 0);
    m.grab(10);
    m.write_pkt(&mut pkt, 40);
    assert_eq!(pkt.motors[1], MotorCmd::Voltage(3_000));
    m.write_pkt(&mut pkt, 70);
    assert_eq!(pkt.motors[1], MotorCmd::BrakeBrake);
}

#[test]
fn latch_action_is_one_shot() {
    let odom = odom_at(0, 0, 0);
    let mut pid = heading_pid();
    let mut pkt = CmdPacket::new();
    let latch = Latch::new_air(5, false);
    let mut path = Path::new(vec![Segment::LatchAction(LatchAction::new(latch, false))]);
    let out = path.follow(&odom, &mut pid, &mut pkt, 0);
    assert_eq!(out, PathOutput::Voltages(Vec2::new(0, 0)));
    assert_eq!(pkt.triports[4], TriportCmd::DigitalHigh);
    assert!(!path.ended());
    let _ = path.follow(&odom, &mut pid, &mut pkt, 1);
    assert!(path.ended());
}

#[test]
fn power_motors_writes_then_brakes() {
    let odom = odom_at(0, 0, 0);
    let mut pid = heading_pid();
    let mut pkt = CmdPacket::new();
    let mut seg = Segment::PowerMotors(PowerMotors::new(vec![2, 5], MotorCmd::Voltage(3_000)));
    let out = seg.follow(&odom, &mut pid, &mut pkt, 0);
    assert_eq!(out, PathOutput::Voltages(Vec2::new(0, 0)));
    assert_eq!(pkt.motors[1], MotorCmd::Voltage(3_000));
    assert_eq!(pkt.motors[4], MotorCmd::Voltage(3_000));
    assert!(seg.end_follow(&odom, &mut pkt, 1).is_none());
    assert_eq!(pkt.motors[1], MotorCmd::BrakeCoast);
    assert_eq!(pkt.motors[4], MotorCmd::BrakeCoast);
    let _ = seg.follow(&odom, &mut pid, &mut pkt, 2);
    seg.abrupt_end(&odom, &mut pkt, 3);
    assert_eq!(pkt.motors[1], MotorCmd::BrakeCoast);
}

#[test]
fn shaking_motor_rattles_then_drives() {
    let mut pkt = CmdPacket::new();
    let mut m = ShakingMotor::new(4, 10, 100, 20, 0);
    m.set_power(500);
    m.write_powers(&mut pkt, 5);
    assert_eq!(pkt.motors[3], MotorCmd::Voltage(12_000));
    m.write_powers(&mut pkt, 6);
    assert_eq!(pkt.motors[3], MotorCmd::Voltage(-12_000));
    m.write_powers(&mut pkt, 30);
    assert_eq!(pkt.motors[3], MotorCmd::Voltage(6_000));
}

#[test]
fn shaking_motor_buffers_encoder_readings() {
    let mut sensors = SensorPacket::new();
    sensors.set_encoder(4, EncoderReading::Radians(1_000));
    let mut m = ShakingMotor::new(4, 10, 100, 20, 0);
    m.update(&sensors, 15);
    assert_eq!(m.radians_a, 1_000);
    assert_eq!(m.radians_b, 0);
    sensors.set_encoder(4, EncoderReading::Radians(1_500));
    m.update(&sensors, 20);
    assert_eq!(m.radians_a, 1_000);
    m.update(&sensors, 30);
    assert_eq!(m.radians_a, 1_500);
    assert_eq!(m.radians_b, 1_000);
}

#[test]
fn ramsete_point_finishes_within_tolerance() {
    let mut pid = heading_pid();
    let mut pkt = CmdPacket::new();
    let far = odom_at(0, 0, 0);
    let near = odom_at(980, 0, 0);
    let mut seg = Segment::RamsetePoint(RamsetePoint::new(
        (Vec2::new(1_000, 0), 0),
        Ramsete::new(300, 300),
    ));
    seg.start(&far, &mut pid, 0);
    assert!(seg.end_follow(&far, &mut pkt, 1).is_none());
    assert!(seg.end_follow(&near, &mut pkt, 2).is_some());
}

#[test]
fn ramsete_path_consumes_all_waypoints_before_finishing() {
    let mut pid = heading_pid();
    let mut pkt = CmdPacket::new();
    let waypoints = vec![(Vec2::new(100, 0), 0i64), (Vec2::new(300, 0), 0i64)];
    let mut seg = Segment::RamsetePath(RamsetePath::new(waypoints, Ramsete::new(300, 300)));
    let between = odom_at(150, 0, 0);
    let out = seg.follow(&between, &mut pid, &mut pkt, 0);
    assert!(matches!(out, PathOutput::LinearAngularVelocity(_)));
    assert!(seg.end_follow(&between, &mut pkt, 1).is_none());
    let past = odom_at(400, 0, 0);
    let out = seg.follow(&past, &mut pid, &mut pkt, 2);
    assert_eq!(out, PathOutput::Voltages(Vec2::new(0, 0)));
    assert!(seg.end_follow(&past, &mut pkt, 3).is_some());
}

#[test]
fn waypoint_is_passed_when_level_with_its_heading_line() {
    let mut pid = heading_pid();
    let mut pkt = CmdPacket::new();
    // Target heading of a quarter turn: the heading line runs along y,
    // and the error vector lies exactly on the crossing line.
    let waypoints = vec![(Vec2::new(100, 0), 90_000i64)];
    let mut seg = Segment::RamsetePath(RamsetePath::new(waypoints, Ramsete::new(300, 300)));
    let level = odom_at(200, 0, 0);
    let out = seg.follow(&level, &mut pid, &mut pkt, 0);
    assert_eq!(out, PathOutput::Voltages(Vec2::new(0, 0)));
    assert!(seg.end_follow(&level, &mut pkt, 1).is_some());
}

#[test]
fn repeat_segment_reruns_its_template() {
    let odom = odom_at(0, 0, 0);
    let mut pid = heading_pid();
    let mut pkt = CmdPacket::new();
    let template = Segment::Ram(Ram::new(500, 10, 0));
    let mut path = Path::new(vec![Segment::Repeat(RepeatSegment::new(template, 1))]);

    let out = path.follow(&odom, &mut pid, &mut pkt, 0);
    assert_eq!(out, PathOutput::Voltages(Vec2::new(500, 500)));
    let _ = path.follow(&odom, &mut pid, &mut pkt, 10);
    let out = path.follow(&odom, &mut pid, &mut pkt, 11);
    assert_eq!(out, PathOutput::Voltages(Vec2::new(500, 500)));
    assert!(!path.ended());
    let _ = path.follow(&odom, &mut pid, &mut pkt, 21);
    let _ = path.follow(&odom, &mut pid, &mut pkt, 22);
    assert!(path.ended());
}

#[test]
fn while_segment_reports_main_output() {
    let odom = odom_at(0, 0, 0);
    let mut pid = heading_pid();
    let mut pkt = CmdPacket::new();
    let main = Path::new(vec![Segment::Ram(Ram::new(500, 20, 0))]);
    let secondary = Path::new(vec![Segment::Ram(Ram::new(300, 50, 0))]);
    let mut path = Path::new(vec![Segment::While(Box::new(WhileSegment::new(
        main, secondary, true,
    )))]);
    let out = path.follow(&odom, &mut pid, &mut pkt, 0);
    assert_eq!(out, PathOutput::Voltages(Vec2::new(500, 500)));
    let _ = path.follow(&odom, &mut pid, &mut pkt, 20);
    let _ = path.follow(&odom, &mut pid, &mut pkt, 21);
    assert!(path.ended());
}

#[test]
fn path_runs_segments_in_given_order() {
    let odom = odom_at(0, 0, 0);
    let mut pid = heading_pid();
    let mut pkt = CmdPacket::new();
    let mut path = Path::new(vec![
        Segment::Ram(Ram::new(100, 10, 0)),
        Segment::Ram(Ram::new(200, 10, 0)),
    ]);
    let out = path.follow(&odom, &mut pid, &mut pkt, 0);
    assert_eq!(out, PathOutput::Voltages(Vec2::new(100, 100)));
    let out = path.follow(&odom, &mut pid, &mut pkt, 10);
    assert_eq!(out, PathOutput::Voltages(Vec2::new(200, 200)));
}

#[test]
fn extend_queues_after_extend_front_queues_next() {
    let odom = odom_at(0, 0, 0);
    let mut pid = heading_pid();
    let mut pkt = CmdPacket::new();
    let mut path = Path::new(vec![Segment::Ram(Ram::new(100, 10, 0))]);
    path.extend(Segment::Ram(Ram::new(200, 10, 0)));
    path.extend_front(Segment::Ram(Ram::new(300, 10, 0)));
    let out = path.follow(&odom, &mut pid, &mut pkt, 0);
    assert_eq!(out, PathOutput::Voltages(Vec2::new(300, 300)));
    let out = path.follow(&odom, &mut pid, &mut pkt, 10);
    assert_eq!(out, PathOutput::Voltages(Vec2::new(100, 100)));
    let out = path.follow(&odom, &mut pid, &mut pkt, 20);
    assert_eq!(out, PathOutput::Voltages(Vec2::new(200, 200)));
}

#[test]
fn empty_path_idles_safely() {
    let odom = odom_at(0, 0, 0);
    let mut pid = heading_pid();
    let mut pkt = CmdPacket::new();
    let mut path = Path::new(Vec::new());
    assert!(path.ended());
    let out = path.follow(&odom, &mut pid, &mut pkt, 0);
    assert_eq!(out, PathOutput::Voltages(Vec2::new(0, 0)));
}
