use mutape::steering::{
    approach_and_keep_distance, away_total, separate, wander, WanderState, WANDER_STEP,
};
use mutape::vector::Vec2;

fn len_sq(v: Vec2) -> i128 {
    (v.x as i128) * (v.x as i128) + (v.y as i128) * (v.y as i128)
}

fn close_to(v: Vec2, m: i64) {
    let m = m as i128;
    assert!(len_sq(v) <= m * m);
    let (ax, ay) = ((v.x.abs() + 1) as i128, (v.y.abs() + 1) as i128);
    assert!(ax * ax + ay * ay > m * m);
}

#[test]
fn approach_far_target_accelerates_towards_it() {
    let r = approach_and_keep_distance(
        Vec2::zero(),
        1_000_000,
        Some(Vec2::new(500_000, 0)),
        64_000,
        128_000,
        Vec2::zero(),
        100,
        Vec2::new(7, -9),
    );
    assert_eq!(r, Vec2::new(100_000, 0));
}

#[test]
fn approach_near_target_backs_off() {
    let r = approach_and_keep_distance(
        Vec2::zero(),
        1_000_000,
        Some(Vec2::new(0, 30_000)),
        64_000,
        128_000,
        Vec2::zero(),
        100,
        Vec2::new(7, -9),
    );
    assert_eq!(r, Vec2::new(0, -100_000));
}

#[test]
fn approach_directions_by_band() {
    let target = Vec2::zero();
    for &(x, y) in &[(200_000i64, 50_000i64), (-300_000, 1), (3, -400_000)] {
        let me = Vec2::new(x, y);
        let r = approach_and_keep_distance(me, 1_000_000, Some(target), 64_000, 128_000, Vec2::zero(), 16, Vec2::new(1, 1));
        let dot = (r.x as i128) * (-(x as i128)) + (r.y as i128) * (-(y as i128));
        assert!(dot > 0);
        close_to(r, 16_000);
    }
    for &(x, y) in &[(20_000i64, 5_000i64), (-30_000, 1), (3, -40_000)] {
        let me = Vec2::new(x, y);
        let r = approach_and_keep_distance(me, 1_000_000, Some(target), 64_000, 128_000, Vec2::zero(), 16, Vec2::new(1, 1));
        let dot = (r.x as i128) * (-(x as i128)) + (r.y as i128) * (-(y as i128));
        assert!(dot < 0);
        close_to(r, 16_000);
    }
}

#[test]
fn approach_orbit_band_drifts_at_full_strength() {
    let r = approach_and_keep_distance(
        Vec2::new(100_000, 0),
        1_000_000,
        Some(Vec2::zero()),
        64_000,
        128_000,
        Vec2::new(0, 5_000),
        100,
        Vec2::new(400, 0),
    );
    assert_eq!(r, Vec2::new(70_710, 70_710));
    close_to(r, 100_000);
}

#[test]
fn approach_on_the_target_drifts() {
    let r = approach_and_keep_distance(
        Vec2::zero(),
        1_000_000,
        Some(Vec2::zero()),
        64_000,
        128_000,
        Vec2::zero(),
        100,
        Vec2::new(0, -3),
    );
    assert_eq!(r, Vec2::new(0, -100_000));
}

#[test]
fn approach_without_target_is_zero() {
    let r = approach_and_keep_distance(Vec2::zero(), 1_000_000, None, 64_000, 128_000, Vec2::new(5, 5), 100, Vec2::new(1, 1));
    assert_eq!(r, Vec2::zero());
}

#[test]
fn separation_without_neighbours_pushes_randomly_with_full_force() {
    let others = vec![Vec2::new(500_000, 0), Vec2::zero()];
    let r = separate(Vec2::zero(), 96_000, 1_000, &others, Vec2::new(3, 4));
    assert_eq!(r, Vec2::new(600, 800));
    let r = separate(Vec2::zero(), 96_000, 1_000, &others, Vec2::new(-123_457, 987_654));
    assert_ne!(r, Vec2::zero());
    close_to(r, 1_000);
}

#[test]
fn separation_pushes_away_from_neighbours() {
    let others = vec![Vec2::new(1_000, 0), Vec2::zero(), Vec2::new(0, -2_000)];
    let r = separate(Vec2::zero(), 96_000, 1_000, &others, Vec2::new(3, 4));
    assert_eq!(r, Vec2::new(-707, 707));
    assert_eq!(away_total(Vec2::zero(), 96_000, &others), (-1_000_000, 1_000_000, 2));
}

#[test]
fn separation_radius_is_strict() {
    let others = vec![Vec2::new(96_000, 0)];
    assert_eq!(away_total(Vec2::zero(), 96_000, &others), (0, 0, 0));
}

#[test]
fn wander_places_node_step_away() {
    let mut w = WanderState::new();
    let a = wander(Vec2::new(1_000, 1_000), 1_000_000, &mut w, 100, Vec2::new(3, 4));
    assert_eq!(w.node, Some(Vec2::new(1_000 + 9_600, 1_000 + 12_800)));
    assert_eq!(a, Vec2::new(60_000, 80_000));
}

#[test]
fn wander_renews_reached_node() {
    let mut w = WanderState { node: Some(Vec2::new(1_500, 0)) };
    wander(Vec2::zero(), 1_000_000, &mut w, 16, Vec2::new(-777, 5));
    let n = w.node.unwrap();
    close_to(n, WANDER_STEP);
    assert!(n.x < 0);
}

#[test]
fn wander_keeps_unreached_node() {
    let mut w = WanderState { node: Some(Vec2::new(0, 2_000)) };
    let a = wander(Vec2::zero(), 1_000_000, &mut w, 16, Vec2::new(-777, 5));
    assert_eq!(w.node, Some(Vec2::new(0, 2_000)));
    assert_eq!(a, Vec2::new(0, 16_000));
}

#[test]
fn zero_draw_still_separates() {
    let others = vec![Vec2::new(500_000, 0)];
    assert_eq!(separate(Vec2::zero(), 96_000, 1_000, &others, Vec2::zero()), Vec2::new(1_000, 0));
}

#[test]
fn zero_draw_still_places_node_a_step_away() {
    let mut w = WanderState::new();
    wander(Vec2::new(5_000, 5_000), 1_000_000, &mut w, 16, Vec2::zero());
    assert_eq!(w.node, Some(Vec2::new(5_000 + WANDER_STEP, 5_000)));
}

#[test]
fn cancelling_drift_falls_back_to_the_draw() {
    let r = approach_and_keep_distance(
        Vec2::new(100_000, 0),
        1_000_000,
        Some(Vec2::zero()),
        64_000,
        128_000,
        Vec2::new(1, 0),
        100,
        Vec2::new(-1, 0),
    );
    assert_eq!(r, Vec2::new(-100_000, 0));
}

#[test]
fn long_ticks_are_accepted() {
    let r = approach_and_keep_distance(
        Vec2::zero(),
        1_000,
        Some(Vec2::new(500_000, 0)),
        64_000,
        128_000,
        Vec2::zero(),
        5_000,
        Vec2::new(1, 0),
    );
    assert_eq!(r, Vec2::new(5_000, 0));
}
