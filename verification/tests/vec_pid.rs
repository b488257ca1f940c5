use motion_core::pid::Pid;
use motion_core::vec2::Vec2;

#[test]
fn vector_arithmetic() {
    let a = Vec2::new(3, 4);
    let b = Vec2::new(-1, 2);
    assert_eq!(a.add(b), Vec2::new(2, 6));
    assert_eq!(a.sub(b), Vec2::new(4, 2));
    assert_eq!(a.neg(), Vec2::new(-3, -4));
    assert_eq!(Vec2::splat(7), Vec2::new(7, 7));
    assert_eq!(a.dot(b), 5);
    assert_eq!(a.mag_sq(), 25);
    assert_eq!(a.mag(), 5);
}

#[test]
fn vector_normalised_is_scaled_direction() {
    let v = Vec2::new(3_000, 4_000);
    let n = v.normalised();
    assert_eq!(n, Vec2::new(600_000, 800_000));
}

#[test]
fn vector_rotation_quarter_turn_is_exact() {
    let v = Vec2::new(1_000, 0);
    assert_eq!(v.rotated(90_000), Vec2::new(0, 1_000));
    assert_eq!(v.rotated(180_000), Vec2::new(-1_000, 0));
    assert_eq!(Vec2::new(3, 7).rotated(90_000), Vec2::new(-7, 3));
}

#[test]
fn vector_rotation_thirty_degrees() {
    let v = Vec2::new(1_000, 0);
    assert_eq!(v.rotated(30_000), Vec2::new(864, 500));
}

#[test]
fn pid_first_poll_matches_formula() {
    let mut pid = Pid::new(550, 55, 2_200);
    pid.set_target(90_000);
    let out = pid.poll(0, 10);
    assert_eq!(out, 19_849_549);
    assert_eq!(pid.integral, 900_000);
    assert_eq!(pid.prev_error, 90_000);
    assert_eq!(pid.prev_time, 10);
}

#[test]
fn pid_second_poll_uses_accumulated_state() {
    let mut pid = Pid::new(550, 55, 2_200);
    pid.set_target(90_000);
    let _ = pid.poll(0, 10);
    let out = pid.poll(45_000, 20);
    assert_eq!(out, -9_875_175);
    assert_eq!(pid.integral, 1_350_000);
    assert_eq!(pid.prev_error, 45_000);
}

#[test]
fn pid_integration_window_is_capped() {
    let mut pid = Pid::new(550, 55, 2_200);
    pid.set_target(90_000);
    let out = pid.poll(0, 5_000);
    assert_eq!(out, 252_450);
    assert_eq!(pid.integral, 90_000_000);
}

#[test]
fn pid_backwards_clock_integrates_nothing() {
    let mut pid = Pid::new(550, 55, 2_200);
    pid.set_target(90_000);
    let _ = pid.poll(0, 100);
    let before = pid.integral;
    let _ = pid.poll(0, 50);
    assert_eq!(pid.integral, before);
}

#[test]
fn pid_reset_clears_accumulator_not_target() {
    let mut pid = Pid::new(550, 55, 2_200);
    pid.set_target(90_000);
    let _ = pid.poll(0, 10);
    pid.reset();
    assert_eq!(pid.integral, 0);
    assert_eq!(pid.prev_error, 0);
    assert_eq!(pid.target, 90_000);
}
