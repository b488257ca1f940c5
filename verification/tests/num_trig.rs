use motion_core::num::{clamp, div_trunc, elapsed, isqrt};
use motion_core::trig::{angle_mod, cos_mdeg, optimise_target_heading, sin_mdeg, TRIG_ONE};

#[test]
fn isqrt_exact_and_rounding() {
    assert_eq!(isqrt(0), 0);
    assert_eq!(isqrt(1), 1);
    assert_eq!(isqrt(2), 1);
    assert_eq!(isqrt(25), 5);
    assert_eq!(isqrt(24), 4);
    assert_eq!(isqrt(1_000_000_000_000_000_000), 1_000_000_000);
}

#[test]
fn div_trunc_rounds_toward_zero() {
    assert_eq!(div_trunc(7, 2), 3);
    assert_eq!(div_trunc(-7, 2), -3);
    assert_eq!(div_trunc(0, 5), 0);
    assert_eq!(div_trunc(-1, 1_000_000), 0);
}

#[test]
fn clamp_and_elapsed() {
    assert_eq!(clamp(5, -3, 3), 3);
    assert_eq!(clamp(-5, -3, 3), -3);
    assert_eq!(clamp(2, -3, 3), 2);
    assert_eq!(elapsed(10, 25), 15);
    assert_eq!(elapsed(25, 10), 0);
}

#[test]
fn trig_quarter_points_are_exact() {
    assert_eq!(sin_mdeg(0), 0);
    assert_eq!(sin_mdeg(90_000), TRIG_ONE);
    assert_eq!(sin_mdeg(180_000), 0);
    assert_eq!(sin_mdeg(270_000), -TRIG_ONE);
    assert_eq!(cos_mdeg(0), TRIG_ONE);
    assert_eq!(cos_mdeg(90_000), 0);
    assert_eq!(cos_mdeg(180_000), -TRIG_ONE);
}

#[test]
fn trig_sample_values() {
    assert_eq!(sin_mdeg(30_000), 500_000);
    assert_eq!(sin_mdeg(45_000), 705_882);
    assert_eq!(cos_mdeg(60_000), 500_000);
    assert_eq!(sin_mdeg(-90_000), -TRIG_ONE);
    assert_eq!(sin_mdeg(450_000), TRIG_ONE);
}

#[test]
fn angle_mod_wraps_into_one_turn() {
    assert_eq!(angle_mod(0), 0);
    assert_eq!(angle_mod(360_000), 0);
    assert_eq!(angle_mod(-90_000), 270_000);
    assert_eq!(angle_mod(725_000), 5_000);
}

#[test]
fn optimise_target_heading_picks_nearest_branch() {
    assert_eq!(optimise_target_heading(0, 90_000), 90_000);
    assert_eq!(optimise_target_heading(0, 630_000), -90_000);
    assert_eq!(optimise_target_heading(10_000, -350_000), 10_000);
    assert_eq!(optimise_target_heading(0, 180_000), 180_000);
}
