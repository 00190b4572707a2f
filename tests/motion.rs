use mutape::motion::{
    advance_position, apply_friction, clamp_speed, confine_to_level, confine_to_world,
    per_tick_amount, Bounds, ConfigurationError, MotionParams,
};
use mutape::vector::{isqrt, Vec2};

fn len_sq(v: Vec2) -> i128 {
    (v.x as i128) * (v.x as i128) + (v.y as i128) * (v.y as i128)
}

#[test]
fn friction_reduces_speed_by_its_amount() {
    assert_eq!(apply_friction(Vec2::new(3000, 4000), 1000), Vec2::new(2400, 3200));
}

#[test]
fn friction_snaps_slow_velocity_to_rest() {
    assert_eq!(apply_friction(Vec2::new(1500, 0), 1000), Vec2::zero());
    assert_eq!(apply_friction(Vec2::new(0, -900), 1000), Vec2::zero());
}

#[test]
fn friction_keeps_rest() {
    assert_eq!(apply_friction(Vec2::zero(), 1000), Vec2::zero());
}

#[test]
fn friction_decreases_strictly_until_rest() {
    let mut v = Vec2::new(-70_001, 33_333);
    let mut steps = 0;
    while !v.is_zero() {
        let next = apply_friction(v, 7);
        assert!(len_sq(next) < len_sq(v));
        assert!(next.x * v.x >= 0 && next.y * v.y >= 0);
        v = next;
        steps += 1;
        assert!(steps < 100_000);
    }
    assert_eq!(apply_friction(v, 7), Vec2::zero());
}

#[test]
fn clamp_cuts_fast_velocity_to_limit() {
    assert_eq!(clamp_speed(Vec2::new(300_000, 400_000), 150_000), Vec2::new(90_000, 120_000));
}

#[test]
fn clamp_leaves_slow_velocity() {
    assert_eq!(clamp_speed(Vec2::new(100_000, 0), 150_000), Vec2::new(100_000, 0));
}

#[test]
fn moving_adds_velocity_times_time() {
    assert_eq!(advance_position(Vec2::zero(), Vec2::new(100_000, 0), 100), Vec2::new(10_000, 0));
    assert_eq!(advance_position(Vec2::new(5, 5), Vec2::new(-1_999, 1_999), 1), Vec2::new(4, 6));
}

#[test]
fn rest_rounds_to_whole_pixels() {
    assert_eq!(advance_position(Vec2::new(1_499, -1_500), Vec2::zero(), 16), Vec2::new(1_000, -2_000));
    assert_eq!(advance_position(Vec2::new(2_500, -499), Vec2::zero(), 16), Vec2::new(3_000, 0));
}

#[test]
fn level_keeps_margin() {
    let b = Bounds { min: Vec2::new(0, 0), max: Vec2::new(640_000, 480_000) };
    let m = Vec2::new(32_000, 64_000);
    assert_eq!(confine_to_level(Vec2::new(-5, 500_000), b, m), Vec2::new(32_000, 416_000));
    assert_eq!(confine_to_level(Vec2::new(100_000, 100_000), b, m), Vec2::new(100_000, 100_000));
}

#[test]
fn world_edge_holds() {
    assert_eq!(
        confine_to_world(Vec2::new(2_000_000_000, -2_000_000_000)),
        Vec2::new(1_000_000_000, -1_000_000_000)
    );
}

#[test]
fn per_tick_amount_scales_by_milliseconds() {
    assert_eq!(per_tick_amount(1_000_000, 100), 100_000);
    assert_eq!(per_tick_amount(128_000, 16), 2_048);
}

#[test]
fn motion_params_accept_positive_rates() {
    assert_eq!(
        MotionParams::new(1, 2, 3),
        Ok(MotionParams { acceleration: 1, friction: 2, max_speed: 3 })
    );
}

#[test]
fn motion_params_reject_each_bad_rate() {
    assert_eq!(MotionParams::new(0, 1, 1), Err(ConfigurationError::NonPositiveAcceleration));
    assert_eq!(MotionParams::new(1, -1, 1), Err(ConfigurationError::NonPositiveFriction));
    assert_eq!(MotionParams::new(1, 1, 0), Err(ConfigurationError::NonPositiveMaxSpeed));
    assert_eq!(MotionParams::new(1, 1, 2_000_000_000), Err(ConfigurationError::RateTooLarge));
}

#[test]
fn square_root_rounds_down() {
    assert_eq!(isqrt(0), 0);
    assert_eq!(isqrt(24), 4);
    assert_eq!(isqrt(25), 5);
    assert_eq!(isqrt(u128::MAX), u64::MAX);
}

#[test]
fn scaling_sets_length() {
    assert_eq!(Vec2::new(3, 4).scaled(10), Vec2::new(6, 8));
    assert_eq!(Vec2::new(-3, 4).scaled(5_000), Vec2::new(-3_000, 4_000));
    assert_eq!(Vec2::new(1, 1).scaled(10), Vec2::new(7, 7));
    assert_eq!(Vec2::zero().scaled(10), Vec2::zero());
    assert_eq!(Vec2::new(3, 4).length(), 5);
}
