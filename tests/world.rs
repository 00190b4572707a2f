use mutape::archetype::{EnemyType, SpawnDraw};
use mutape::behaviour::{ApproachAndKeepDistance, BehaviourState};
use mutape::motion::{Bounds, MotionParams};
use mutape::spawner::Spawner;
use mutape::timer::Countdown;
use mutape::vector::Vec2;
use mutape::world::{Creature, CreatureKind, EntityDraw, Knockback, World};

fn chaser(target: u64, motion: MotionParams) -> Creature {
    Creature {
        id: 0,
        kind: CreatureKind::Enemy(EnemyType::Slimer),
        position: Vec2::zero(),
        velocity: Vec2::zero(),
        motion,
        state: BehaviourState::ApproachAndKeepDistance(ApproachAndKeepDistance {
            target,
            inner_distance: 64_000,
            outer_distance: 128_000,
        }),
        separation: None,
        knockback: None,
        speed_override: None,
        margin: Vec2::new(32_000, 64_000),
        clock: Countdown::started(150, 0),
    }
}

fn still() -> EntityDraw {
    EntityDraw { steer: Vec2::new(1, 0), scatter: Vec2::new(0, 1) }
}

fn len_sq(v: Vec2) -> i128 {
    (v.x as i128) * (v.x as i128) + (v.y as i128) * (v.y as i128)
}

#[test]
fn first_tick_of_a_chase() {
    let mut w = World::new(None);
    let motion = MotionParams::new(1_000_000, 500_000, 150_000).unwrap();
    let p = w.add_player(Vec2::new(500_000, 0), motion);
    w.insert(chaser(p, motion), Vec::new());
    let draws = vec![still(), still()];
    let r = w.step(100, &draws, &Vec::new());
    assert_eq!(r.spawned, 0);
    let c = w.creatures[1];
    assert_eq!(c.velocity, Vec2::new(100_000, 0));
    assert_eq!(c.position, Vec2::new(10_000, 0));
    let player = w.creatures[0];
    assert_eq!(player.position, Vec2::new(500_000, 0));
}

#[test]
fn speed_limit_holds_after_every_tick() {
    let mut w = World::new(Some(Bounds { min: Vec2::new(-800_000, -800_000), max: Vec2::new(800_000, 800_000) }));
    let motion = MotionParams::new(2_000_000, 100_000, 150_000).unwrap();
    let p = w.add_player(Vec2::new(300_000, 0), motion);
    for k in 0..6u64 {
        let d = SpawnDraw { phase_roll: k, acceleration_roll: k * 77, friction_roll: k * 13, speed_roll: k * 5, inner_roll: k, outer_roll: k * 3 };
        w.spawn_enemy(EnemyType::Goblin, Vec2::new((k as i64) * 1_000, 0), p, d);
    }
    w.spawn_enemy(EnemyType::Skuller, Vec2::new(-400_000, 10_000), p, SpawnDraw { phase_roll: 1, acceleration_roll: 0, friction_roll: 0, speed_roll: 0, inner_roll: 0, outer_roll: 0 });
    w.add_spawner(Spawner::new(200, 2, 4, EnemyType::Slimer, Vec2::new(0, 200_000)).unwrap());
    for t in 0..300 {
        w.tick_with_thread_rng(16 + (t % 20));
        for c in w.creatures.iter() {
            let max = c.speed_override.unwrap_or(c.motion.max_speed) as i128;
            assert!(len_sq(c.velocity) <= max * max);
        }
    }
    assert_eq!(w.creatures.len(), 1 + 7 + 4);
}

#[test]
fn knockback_suspends_steering_and_then_lapses() {
    let mut w = World::new(None);
    let motion = MotionParams::new(1_000_000, 100_000, 400_000).unwrap();
    let p = w.add_player(Vec2::new(500_000, 0), motion);
    let id = w.insert(chaser(p, motion), Vec::new());
    assert!(w.apply_knockback(id, Vec2::new(-300_000, 0), 150));
    let draws = vec![still(), still()];
    w.step(100, &draws, &Vec::new());
    let c = w.creatures[1];
    assert_eq!(c.velocity, Vec2::new(-290_000, 0));
    assert_eq!(c.knockback, Some(Knockback { remaining_ms: 50 }));
    w.step(100, &draws, &Vec::new());
    let c = w.creatures[1];
    assert_eq!(c.velocity, Vec2::new(-280_000, 0));
    assert_eq!(c.knockback, None);
    w.step(100, &draws, &Vec::new());
    assert_eq!(w.creatures[1].velocity, Vec2::new(-170_000, 0));
}

#[test]
fn knockback_velocity_is_clamped() {
    let mut w = World::new(None);
    let motion = MotionParams::new(1_000_000, 100_000, 150_000).unwrap();
    let p = w.add_player(Vec2::new(500_000, 0), motion);
    let id = w.insert(chaser(p, motion), Vec::new());
    w.apply_knockback(id, Vec2::new(0, 900_000), 1_000);
    w.step(10, &vec![still(), still()], &Vec::new());
    assert_eq!(w.creatures[1].velocity, Vec2::new(0, 150_000));
}

#[test]
fn lost_target_means_no_steering() {
    let mut w = World::new(None);
    let motion = MotionParams::new(1_000_000, 100_000, 150_000).unwrap();
    let p = w.add_player(Vec2::new(500_000, 0), motion);
    w.insert(chaser(p, motion), Vec::new());
    assert!(w.remove(p));
    assert!(!w.remove(p));
    w.step(100, &vec![still()], &Vec::new());
    assert_eq!(w.creatures[0].velocity, Vec2::zero());
    assert_eq!(w.creatures[0].position, Vec2::zero());
}

#[test]
fn speed_override_replaces_limit() {
    let mut w = World::new(None);
    let motion = MotionParams::new(1_000_000, 100_000, 150_000).unwrap();
    let p = w.add_player(Vec2::new(500_000, 0), motion);
    let id = w.insert(chaser(p, motion), Vec::new());
    assert!(w.set_speed_override(id, Some(50_000)));
    w.step(100, &vec![still(), still()], &Vec::new());
    assert_eq!(w.creatures[1].velocity, Vec2::new(50_000, 0));
    assert!(w.set_speed_override(id, None));
    assert!(!w.set_speed_override(999, None));
}

#[test]
fn crowded_kind_takes_its_separation_limit() {
    let mut w = World::new(None);
    let motion = MotionParams::new(1_000, 1_000, 1_000).unwrap();
    let p = w.add_player(Vec2::new(900_000, 0), motion);
    let d = SpawnDraw { phase_roll: 0, acceleration_roll: 0, friction_roll: 0, speed_roll: 0, inner_roll: 0, outer_roll: 0 };
    w.spawn_enemy(EnemyType::Slimer, Vec2::zero(), p, d);
    w.spawn_enemy(EnemyType::Slimer, Vec2::new(10_000, 0), p, d);
    w.spawn_enemy(EnemyType::Slimer, Vec2::new(600_000, 0), p, d);
    w.step(16, &vec![still(), still(), still(), still()], &Vec::new());
    assert_eq!(w.creatures[1].speed_override, Some(1_024_000));
    assert_eq!(w.creatures[2].speed_override, Some(1_024_000));
    assert_eq!(w.creatures[3].speed_override, None);
    assert_eq!(w.creatures[1].velocity, Vec2::new(16_000 - 2_000, 0));
}

#[test]
fn player_velocity_moves_player_inside_level() {
    let mut w = World::new(Some(Bounds { min: Vec2::zero(), max: Vec2::new(200_000, 200_000) }));
    let motion = MotionParams::new(1_000, 1, 1_000_000).unwrap();
    let p = w.add_player(Vec2::new(100_000, 100_000), motion);
    assert!(w.set_velocity(p, Vec2::new(1_000_000, 0)));
    w.step(1_000, &Vec::new(), &Vec::new());
    assert_eq!(w.creatures[0].position, Vec2::new(168_000, 100_000));
    assert_eq!(w.find(p), Some(0));
    assert_eq!(w.find(p + 1), None);
}

#[test]
fn empty_world_ticks_quietly() {
    let mut w = World::new(None);
    let r = w.step(1_000, &Vec::new(), &Vec::new());
    assert_eq!(r.spawned, 0);
    assert!(r.launches.is_empty());
    assert!(w.creatures.is_empty());
}

#[test]
fn mutant_fires_when_target_backs_off() {
    let mut w = World::new(None);
    let motion = MotionParams::new(1_000, 1_000, 1_000).unwrap();
    let p = w.add_player(Vec2::new(3 * 32_000, 0), motion);
    let d = SpawnDraw { phase_roll: 0, acceleration_roll: 0, friction_roll: 0, speed_roll: 0, inner_roll: 0, outer_roll: 0 };
    w.spawn_enemy(EnemyType::Mutant, Vec2::zero(), p, d);
    let draws = vec![still(), still()];
    w.step(16, &draws, &Vec::new());
    assert_eq!(w.creatures[1].state.kind(), mutape::behaviour::StateKind::ApproachAndKeepDistance);
    assert!(w.set_velocity(p, Vec2::new(1_000_000, 0)));
    w.step(1_000, &draws, &Vec::new());
    let r = w.step(16, &draws, &Vec::new());
    assert_eq!(w.creatures[1].state.kind(), mutape::behaviour::StateKind::FireProjectile);
    let launch = r.launches[1].unwrap();
    assert!(launch.velocity.x > 0);
    let r = w.step(16, &draws, &Vec::new());
    assert_eq!(r.launches[1], None);
}

#[test]
fn input_accelerates_the_player_unless_knocked_back() {
    let mut w = World::new(None);
    let motion = MotionParams::new(1_200_000, 1_000, 150_000).unwrap();
    let p = w.add_player(Vec2::zero(), motion);
    assert!(w.set_input(p, Vec2::new(0, -5)));
    w.step(100, &Vec::new(), &Vec::new());
    assert_eq!(w.creatures[0].velocity, Vec2::new(0, -120_000));
    assert!(w.apply_knockback(p, Vec2::new(50_000, 0), 500));
    w.step(100, &Vec::new(), &Vec::new());
    assert_eq!(w.creatures[0].velocity, Vec2::new(49_900, 0));
    assert!(!w.set_input(p + 7, Vec2::zero()));
}

#[test]
fn long_tick_runs_in_steps() {
    let mut w = World::new(None);
    let motion = MotionParams::new(1_000_000, 100_000, 150_000).unwrap();
    let p = w.add_player(Vec2::new(500_000, 0), motion);
    w.add_spawner(Spawner::new(1_000, 1, 5, EnemyType::Adept, Vec2::new(900_000, 0)).unwrap());
    let reports = w.tick(2_500, &Vec::new(), &Vec::new());
    assert_eq!(reports.len(), 3);
    assert_eq!(reports.iter().map(|r| r.spawned).sum::<usize>(), 2);
    assert_eq!(w.creatures.len(), 3);
    assert_eq!(w.spawners[0].spawn_count, 3);
    assert_eq!(w.spawners[0].timer.elapsed_ms, 500);
    assert_eq!(w.find(p), Some(0));
}

#[test]
fn write_points_touch_only_the_named_creature() {
    let mut w = World::new(None);
    let motion = MotionParams::new(1_000_000, 100_000, 150_000).unwrap();
    let p = w.add_player(Vec2::new(500_000, 0), motion);
    let a = w.insert(chaser(p, motion), Vec::new());
    let b = w.insert(chaser(p, motion), Vec::new());
    let before = w.creatures.clone();
    assert!(w.apply_knockback(a, Vec2::new(1, 2), 30));
    assert_eq!(w.creatures[1].velocity, Vec2::new(1, 2));
    assert_eq!(w.creatures[1].knockback, Some(Knockback { remaining_ms: 30 }));
    assert_eq!(w.creatures[0], before[0]);
    assert_eq!(w.creatures[2], before[2]);
    assert!(w.remove(a));
    assert_eq!(w.creatures.len(), 2);
    assert_eq!(w.graphs.len(), 2);
    assert_eq!(w.creatures[1].id, b);
}
