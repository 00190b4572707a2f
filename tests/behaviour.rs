use mutape::archetype::{EnemyType, SpawnDraw, METRE};
use mutape::behaviour::{
    apply_transition, run_state, select_transition, ApproachAndKeepDistance, Attack,
    BehaviourState, FireProjectile, Projectile, StateKind, Transition, HITBOX_LIFETIME_MS,
};
use mutape::steering::WanderState;
use mutape::timer::Countdown;
use mutape::trigger::{find_position, Trigger};
use mutape::vector::Vec2;

fn draw() -> SpawnDraw {
    SpawnDraw { phase_roll: 0, acceleration_roll: 0, friction_roll: 0, speed_roll: 0, inner_roll: 0, outer_roll: 0 }
}

fn keep(target: u64, inner: i64, outer: i64) -> BehaviourState {
    BehaviourState::ApproachAndKeepDistance(ApproachAndKeepDistance {
        target,
        inner_distance: inner,
        outer_distance: outer,
    })
}

#[test]
fn near_holds_within_range_inclusive() {
    let snap = vec![(7u64, Vec2::new(3_000, 4_000))];
    assert!(Trigger::near(7, 5_000).holds(Vec2::zero(), &snap));
    assert!(!Trigger::near(7, 4_999).holds(Vec2::zero(), &snap));
    assert!(Trigger::near(7, 4_999).not().holds(Vec2::zero(), &snap));
    assert!(!Trigger::near(7, 5_000).not().holds(Vec2::zero(), &snap));
}

#[test]
fn gone_target_is_never_near() {
    let snap = vec![(7u64, Vec2::zero())];
    assert!(!Trigger::near(8, 1_000_000).holds(Vec2::zero(), &snap));
    assert!(Trigger::near(8, 1_000_000).not().holds(Vec2::zero(), &snap));
    assert_eq!(find_position(&snap, 8), None);
    assert_eq!(find_position(&snap, 7), Some(Vec2::zero()));
}

#[test]
fn double_negation_restores_trigger() {
    let t = Trigger::near(1, 10);
    assert_eq!(t.not().not(), t);
}

#[test]
fn first_firing_edge_wins() {
    let edges = vec![
        Transition { from: StateKind::Wander, trigger: Trigger::near(1, 1_000_000), to: BehaviourState::Idle },
        Transition { from: StateKind::Idle, trigger: Trigger::near(1, 10), to: keep(1, 1, 2) },
        Transition { from: StateKind::Idle, trigger: Trigger::near(1, 1_000_000), to: keep(1, 3, 4) },
        Transition { from: StateKind::Idle, trigger: Trigger::near(1, 1_000_000), to: keep(1, 5, 6) },
    ];
    let snap = vec![(1u64, Vec2::new(1_000, 0))];
    assert_eq!(select_transition(&edges, StateKind::Idle, Vec2::zero(), &snap), Some(2));
    let mut s = BehaviourState::Idle;
    assert!(apply_transition(&edges, &mut s, Vec2::zero(), &snap));
    assert_eq!(s, keep(1, 3, 4));
}

#[test]
fn no_firing_edge_keeps_state() {
    let edges = vec![Transition { from: StateKind::Idle, trigger: Trigger::near(1, 10), to: BehaviourState::Idle }];
    let snap = vec![(1u64, Vec2::new(1_000, 0))];
    let mut s = BehaviourState::Wander(WanderState { node: Some(Vec2::new(5, 5)) });
    assert!(!apply_transition(&edges, &mut s, Vec2::zero(), &snap));
    assert_eq!(s, BehaviourState::Wander(WanderState { node: Some(Vec2::new(5, 5)) }));
}

#[test]
fn transition_decision_is_repeatable() {
    let edges = EnemyType::Slimer.behaviour_graph(1, draw());
    let snap = vec![(1u64, Vec2::new(100_000, 0)), (2u64, Vec2::zero())];
    let a = select_transition(&edges, StateKind::ApproachAndKeepDistance, Vec2::zero(), &snap);
    let b = select_transition(&edges, StateKind::ApproachAndKeepDistance, Vec2::zero(), &snap);
    assert_eq!(a, b);
    assert_eq!(a, Some(4));
}

#[test]
fn transition_replaces_scratch_data() {
    let edges = EnemyType::Goblin.behaviour_graph(1, draw());
    let snap = vec![(1u64, Vec2::new(10 * METRE, 0))];
    let mut s = BehaviourState::Wander(WanderState { node: Some(Vec2::new(5, 5)) });
    assert!(apply_transition(&edges, &mut s, Vec2::zero(), &snap));
    assert_eq!(s, keep(1, METRE, 4 * METRE));
}

#[test]
fn idle_creature_out_of_sight_starts_wandering() {
    let edges = EnemyType::Sorcerian.behaviour_graph(1, draw());
    let snap = vec![(1u64, Vec2::new(21 * METRE, 0))];
    let mut s = BehaviourState::Idle;
    apply_transition(&edges, &mut s, Vec2::zero(), &snap);
    assert_eq!(s, BehaviourState::Wander(WanderState { node: None }));
}

#[test]
fn graphs_have_their_edges() {
    assert_eq!(EnemyType::Slimer.behaviour_graph(1, draw()).len(), 6);
    assert_eq!(EnemyType::Mutant.behaviour_graph(1, draw()).len(), 3);
    assert_eq!(EnemyType::LabBoss.behaviour_graph(1, draw()).len(), 3);
    assert_eq!(EnemyType::Skuller.behaviour_graph(1, draw()).len(), 4);
}

#[test]
fn names_parse_to_kinds() {
    assert_eq!(EnemyType::from_name("Slimer"), Some(EnemyType::Slimer));
    assert_eq!(EnemyType::from_name("GoblinBrute"), Some(EnemyType::GoblinBrute));
    assert_eq!(EnemyType::from_name("Sorcerian"), Some(EnemyType::Sorcerian));
    assert_eq!(EnemyType::from_name("slimer"), None);
    assert_eq!(EnemyType::from_name(""), None);
}

#[test]
fn goblin_motion_comes_from_rolls() {
    let d = SpawnDraw { acceleration_roll: 1_000_001, friction_roll: 5, speed_roll: 100_000, ..draw() };
    let m = EnemyType::Goblin.motion(d);
    assert_eq!(m.acceleration, 1_000_000 + 1);
    assert_eq!(m.friction, 500_005);
    assert_eq!(m.max_speed, 150_000);
    assert_eq!(EnemyType::Skuller.motion(d).max_speed, 400_000);
}

#[test]
fn fire_projectile_fires_once() {
    let mut s = BehaviourState::FireProjectile(FireProjectile {
        target: 1,
        projectile: Projectile::MutantProjectile,
        keep: ApproachAndKeepDistance { target: 1, inner_distance: 4 * METRE, outer_distance: 12 * METRE },
        fired: false,
    });
    let snap = vec![(1u64, Vec2::new(0, 300_000))];
    let (_, first) = run_state(&mut s, Vec2::zero(), 512_000, Vec2::zero(), 16, Vec2::new(1, 0), &snap);
    let launch = first.unwrap();
    assert_eq!(launch.velocity, Vec2::new(0, 120_000));
    assert_eq!(launch.position, Vec2::zero());
    let (_, second) = run_state(&mut s, Vec2::zero(), 512_000, Vec2::zero(), 16, Vec2::new(1, 0), &snap);
    assert_eq!(second, None);
}

#[test]
fn fire_projectile_waits_for_target() {
    let mut s = BehaviourState::FireProjectile(FireProjectile {
        target: 9,
        projectile: Projectile::MutantProjectile,
        keep: ApproachAndKeepDistance { target: 9, inner_distance: 1, outer_distance: 2 },
        fired: false,
    });
    let snap = vec![(1u64, Vec2::zero())];
    let (a, l) = run_state(&mut s, Vec2::zero(), 512_000, Vec2::zero(), 16, Vec2::new(1, 0), &snap);
    assert_eq!(a, Vec2::zero());
    assert_eq!(l, None);
}

#[test]
fn attack_hitbox_appears_after_windup_and_expires() {
    let mut s = BehaviourState::Attack(Attack {
        keep: ApproachAndKeepDistance { target: 1, inner_distance: METRE, outer_distance: 2 * METRE },
        windup: Countdown::started(900, 0),
        hitbox_ms: 0,
    });
    let snap = vec![(1u64, Vec2::new(METRE, 0))];
    let hitbox = |s: &BehaviourState| match s {
        BehaviourState::Attack(a) => a.hitbox_ms,
        _ => panic!("left the attack state"),
    };
    run_state(&mut s, Vec2::zero(), 1_000_000, Vec2::zero(), 800, Vec2::new(1, 0), &snap);
    assert_eq!(hitbox(&s), 0);
    run_state(&mut s, Vec2::zero(), 1_000_000, Vec2::zero(), 100, Vec2::new(1, 0), &snap);
    assert_eq!(hitbox(&s), HITBOX_LIFETIME_MS);
    run_state(&mut s, Vec2::zero(), 1_000_000, Vec2::zero(), 30, Vec2::new(1, 0), &snap);
    assert_eq!(hitbox(&s), 20);
    run_state(&mut s, Vec2::zero(), 1_000_000, Vec2::zero(), 30, Vec2::new(1, 0), &snap);
    assert_eq!(hitbox(&s), 0);
}

#[test]
fn countdown_fires_and_carries_over() {
    let mut c = Countdown::started(150, 140);
    assert!(!c.tick(5));
    assert!(c.tick(10));
    assert_eq!(c.elapsed_ms, 5);
}
