use mutape::archetype::{EnemyType, SpawnDraw, MAX_PHASE_MS};
use mutape::motion::ConfigurationError;
use mutape::steering::JITTER_LIMIT;
use mutape::motion::MotionParams;
use mutape::spawner::{Spawner, SpawnerTick};
use mutape::vector::Vec2;
use mutape::world::{CreatureKind, EntityDraw, World};

#[test]
fn spawner_budget_is_conserved() {
    let mut s = Spawner::new(1_000, 5, 7, EnemyType::Slimer, Vec2::zero()).unwrap();
    assert_eq!(s.tick(999), SpawnerTick::Waiting);
    assert_eq!(s.tick(1), SpawnerTick::Spawn(5));
    assert_eq!(s.spawn_count, 2);
    assert_eq!(s.tick(1_000), SpawnerTick::Spawn(2));
    assert_eq!(s.spawn_count, 0);
    assert_eq!(s.spawn_rate, 2);
    assert_eq!(s.tick(1_000), SpawnerTick::Exhausted);
}

#[test]
fn spawner_in_world_makes_and_is_removed() {
    let mut w = World::new(None);
    let motion = MotionParams::new(1_000_000, 500_000, 150_000).unwrap();
    let p = w.add_player(Vec2::new(500_000, 0), motion);
    w.add_spawner(Spawner::new(1_000, 5, 7, EnemyType::Goblin, Vec2::zero()).unwrap());
    let none: Vec<EntityDraw> = Vec::new();
    let no_spawn_draws: Vec<SpawnDraw> = Vec::new();
    let r = w.step(1_000, &none, &no_spawn_draws);
    assert_eq!(r.spawned, 5);
    assert_eq!(w.creatures.len(), 6);
    assert_eq!(w.spawners[0].spawn_count, 2);
    let r = w.step(1_000, &none, &no_spawn_draws);
    assert_eq!(r.spawned, 2);
    assert_eq!(w.creatures.len(), 8);
    assert_eq!(w.spawners.len(), 1);
    assert_eq!(w.spawners[0].spawn_count, 0);
    let r = w.step(16, &none, &no_spawn_draws);
    assert_eq!(r.spawned, 0);
    assert_eq!(w.spawners.len(), 0);
    assert!(w.creatures.iter().filter(|c| c.kind == CreatureKind::Enemy(EnemyType::Goblin)).count() == 7);
    assert!(w.graphs[1].iter().all(|e| e.trigger.near.target == p));
}

#[test]
fn spawners_wait_for_a_player() {
    let mut w = World::new(None);
    w.add_spawner(Spawner::new(10, 1, 1, EnemyType::Slimer, Vec2::zero()).unwrap());
    let r = w.step(100, &Vec::new(), &Vec::new());
    assert_eq!(r.spawned, 0);
    assert_eq!(w.spawners[0].spawn_count, 1);
    assert_eq!(w.spawners[0].timer.elapsed_ms, 0);
}

#[test]
fn spawned_clock_takes_phase() {
    let mut w = World::new(None);
    let motion = MotionParams::new(1_000, 1_000, 1_000).unwrap();
    let p = w.add_player(Vec2::zero(), motion);
    let d = SpawnDraw { phase_roll: 151 + 40, acceleration_roll: 0, friction_roll: 0, speed_roll: 0, inner_roll: 0, outer_roll: 0 };
    w.spawn_enemy(EnemyType::Mutant, Vec2::zero(), p, d);
    let c = w.creatures[1];
    assert_eq!(c.clock.elapsed_ms, 40);
    assert_eq!(c.clock.period_ms, 400);
    assert_eq!(c.velocity, Vec2::zero());
}

#[test]
fn spawner_period_must_be_positive() {
    assert_eq!(Spawner::new(0, 1, 1, EnemyType::Adept, Vec2::zero()), Err(ConfigurationError::PeriodOutOfRange));
    assert_eq!(Spawner::new(3_600_001, 1, 1, EnemyType::Adept, Vec2::zero()), Err(ConfigurationError::PeriodOutOfRange));
}

#[test]
fn random_draws_stay_in_range_and_vary() {
    let draws: Vec<EntityDraw> = (0..64).map(|_| EntityDraw::random()).collect();
    for d in &draws {
        for c in [d.steer.x, d.steer.y, d.scatter.x, d.scatter.y] {
            assert!(-JITTER_LIMIT <= c && c <= JITTER_LIMIT);
        }
    }
    assert!(draws.iter().any(|d| d.steer != draws[0].steer));
    assert!(draws.iter().any(|d| d.steer.x != -JITTER_LIMIT));
    let spawns: Vec<SpawnDraw> = (0..64).map(|_| SpawnDraw::random()).collect();
    assert!(spawns.iter().all(|d| d.phase_roll <= MAX_PHASE_MS));
    assert!(spawns.iter().any(|d| d.speed_roll != spawns[0].speed_roll));
}

#[test]
fn spawners_stop_once_the_player_is_gone() {
    let mut w = World::new(None);
    let motion = MotionParams::new(1_000, 1_000, 1_000).unwrap();
    let p = w.add_player(Vec2::zero(), motion);
    w.add_spawner(Spawner::new(10, 1, 3, EnemyType::Adept, Vec2::zero()).unwrap());
    assert_eq!(w.step(10, &Vec::new(), &Vec::new()).spawned, 1);
    assert!(w.remove(p));
    assert_eq!(w.player, None);
    assert_eq!(w.step(10, &Vec::new(), &Vec::new()).spawned, 0);
    assert_eq!(w.spawners[0].spawn_count, 2);
}

#[test]
fn level_fields_make_a_spawner() {
    let s = Spawner::from_level_fields(Some(500), Some(2), Some(6), Some("Skuller"), Vec2::new(1, 2)).unwrap();
    assert_eq!(s, Spawner::new(500, 2, 6, EnemyType::Skuller, Vec2::new(1, 2)).unwrap());
}

#[test]
fn incomplete_level_fields_fall_back_to_slimers() {
    let s = Spawner::from_level_fields(Some(500), None, Some(6), Some("Skuller"), Vec2::zero()).unwrap();
    assert_eq!(s.enemy_type, EnemyType::Slimer);
    assert_eq!(s.spawn_count, 10);
    assert_eq!(s.spawn_rate, 1);
    assert_eq!(s.timer.period_ms, 250);
}

#[test]
fn level_fields_reject_unknown_kind() {
    assert_eq!(
        Spawner::from_level_fields(Some(500), Some(1), Some(1), Some("Dragon"), Vec2::zero()),
        Err(ConfigurationError::UnknownEnemyType)
    );
    assert_eq!(
        Spawner::from_level_fields(Some(0), Some(1), Some(1), Some("Adept"), Vec2::zero()),
        Err(ConfigurationError::PeriodOutOfRange)
    );
}
