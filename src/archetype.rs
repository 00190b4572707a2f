//! The creature kinds: their motion, crowd avoidance and behaviour graphs.
use vstd::prelude::*;
use crate::behaviour::{
    edges_wf, transition_wf, ApproachAndKeepDistance, Attack, BehaviourState, FireProjectile,
    Projectile, StateKind, Transition,
};
use crate::motion::{MotionParams, SPEED_LIMIT};
use crate::steering::{WanderState, DISTANCE_LIMIT};
use crate::timer::Countdown;
use crate::trigger::Trigger;

verus! {

/// One metre of the game world: 32 pixels.
pub const METRE: i64 = 32_000;

/// One pixel: a thousand length units.
pub const PIXEL: i64 = 1000;

/// How far an enemy notices its target.
pub const SIGHT: i64 = 20 * METRE;

/// Windup of the lab boss's attack, in milliseconds.
pub const ATTACK_WINDUP_MS: u64 = 900;

/// Largest random phase offset of a new creature's clock, in milliseconds.
pub const MAX_PHASE_MS: u64 = 150;

/// The kinds of enemy a spawner can make.
#[derive(Clone, Copy, Debug, PartialEq, Eq, Structural)]
pub enum EnemyType {
    Slimer,
    Mutant,
    Goblin,
    GoblinBrute,
    Adept,
    Skuller,
    LabBoss,
    Sorcerian,
}

/// Crowd avoidance among creatures of one kind.
#[derive(Clone, Copy, Debug, PartialEq, Eq, Structural)]
pub struct Separation {
    /// Neighbours nearer than this push.
    pub radius: i64,
    /// Length of the averaged push direction.
    pub separation_force: i64,
    /// Speed added per tick in the push direction.
    pub separation_strength: i64,
    /// Speed limit while some neighbour is near, if the kind has one.
    pub max_speed_during_separation: Option<i64>,
}

impl Separation {
    pub open spec fn wf(&self) -> bool {
        &&& 0 <= self.radius <= DISTANCE_LIMIT
        &&& 0 <= self.separation_force <= SPEED_LIMIT
        &&& 0 <= self.separation_strength <= SPEED_LIMIT
        &&& self.max_speed_during_separation matches Some(s) ==> 0 < s <= SPEED_LIMIT
    }
}

/// The random numbers that go into making one creature.
#[derive(Clone, Copy, Debug, PartialEq, Eq, Structural)]
pub struct SpawnDraw {
    /// How far its clock has already run, reduced modulo `MAX_PHASE_MS + 1`.
    pub phase_roll: u64,
    pub acceleration_roll: u64,
    pub friction_roll: u64,
    pub speed_roll: u64,
    pub inner_roll: u64,
    pub outer_roll: u64,
}

/// `lo + roll mod (hi - lo)`: a value in `[lo, hi)`.
pub open spec fn pick(lo: int, hi: int, roll: int) -> int {
    lo + roll % (hi - lo)
}

fn pick_in(lo: i64, hi: i64, roll: u64) -> (r: i64)
    requires
        0 <= lo < hi <= SPEED_LIMIT,
    ensures
        r == pick(lo as int, hi as int, roll as int),
        lo <= r < hi,
{
    lo + (roll % ((hi - lo) as u64)) as i64
}

/// A kind's rates, given in pixels.
pub open spec fn motion_of(acceleration: int, friction: int, max_speed: int) -> MotionParams {
    MotionParams {
        acceleration: (acceleration * PIXEL) as i64,
        friction: (friction * PIXEL) as i64,
        max_speed: (max_speed * PIXEL) as i64,
    }
}

pub open spec fn spec_motion(kind: EnemyType, d: SpawnDraw) -> MotionParams {
    match kind {
        EnemyType::Slimer => motion_of(1000, 500, 150),
        EnemyType::Mutant => motion_of(512, 256, 128),
        EnemyType::Goblin | EnemyType::GoblinBrute => MotionParams {
            acceleration: pick(1000 * PIXEL, 2000 * PIXEL, d.acceleration_roll as int) as i64,
            friction: pick(500 * PIXEL, 750 * PIXEL, d.friction_roll as int) as i64,
            max_speed: pick(150 * PIXEL, 250 * PIXEL, d.speed_roll as int) as i64,
        },
        EnemyType::Adept => motion_of(1000, 500, 150),
        EnemyType::Skuller => motion_of(2048, 512, 400),
        EnemyType::LabBoss => motion_of(1000, 500, 175),
        EnemyType::Sorcerian => motion_of(1000, 250, 300),
    }
}

pub open spec fn spec_separation(kind: EnemyType) -> Separation {
    match kind {
        EnemyType::Slimer => sep(3 * METRE, 1024 * PIXEL, Some(1024 * PIXEL)),
        EnemyType::Mutant => sep(2 * METRE, 512 * PIXEL, None),
        EnemyType::Goblin | EnemyType::GoblinBrute => sep(3 * METRE, 1000 * PIXEL, Some(1280 * PIXEL)),
        EnemyType::Adept | EnemyType::LabBoss => sep(METRE as int, 1000 * PIXEL, Some(1280 * PIXEL)),
        EnemyType::Skuller | EnemyType::Sorcerian => sep(2 * METRE, 25 * PIXEL, None),
    }
}

pub open spec fn sep(radius: int, force: int, crowded: Option<int>) -> Separation {
    Separation {
        radius: radius as i64,
        separation_force: force as i64,
        separation_strength: (2 * PIXEL) as i64,
        max_speed_during_separation: match crowded {
            Some(c) => Some(c as i64),
            None => None,
        },
    }
}

/// Milliseconds per animation frame.
pub open spec fn spec_frame_period(kind: EnemyType) -> u64 {
    match kind {
        EnemyType::Slimer | EnemyType::Skuller => 150,
        EnemyType::LabBoss => 900,
        _ => 400,
    }
}

/// The inner and outer distance that a kind keeps from its target.
pub open spec fn spec_keep_band(kind: EnemyType, d: SpawnDraw) -> (int, int) {
    match kind {
        EnemyType::Slimer | EnemyType::GoblinBrute | EnemyType::Adept => (4 * METRE, 6 * METRE),
        EnemyType::Mutant => (4 * METRE, 6 * METRE),
        EnemyType::Goblin => (
            pick(METRE as int, 4 * METRE, d.inner_roll as int),
            pick(4 * METRE, 8 * METRE, d.outer_roll as int),
        ),
        EnemyType::Skuller => (METRE as int, 8 * METRE),
        EnemyType::LabBoss => (3 * METRE + METRE / 2, 5 * METRE),
        EnemyType::Sorcerian => (5 * METRE, 8 * METRE),
    }
}

pub open spec fn keep(target: u64, inner: int, outer: int) -> BehaviourState {
    BehaviourState::ApproachAndKeepDistance(
        ApproachAndKeepDistance { target, inner_distance: inner as i64, outer_distance: outer as i64 },
    )
}

pub open spec fn near(target: u64, range: int) -> Trigger {
    Trigger { near: crate::trigger::Near { target, range: range as i64 }, negated: false }
}

pub open spec fn not_near(target: u64, range: int) -> Trigger {
    Trigger { near: crate::trigger::Near { target, range: range as i64 }, negated: true }
}

pub open spec fn edge(from: StateKind, trigger: Trigger, to: BehaviourState) -> Transition {
    Transition { from, trigger, to }
}

/// Idle and wandering creatures chase the target once it is in sight, and
/// give up when it leaves.
pub open spec fn chase_edges(target: u64, inner: int, outer: int) -> Seq<Transition> {
    seq![
        edge(StateKind::Idle, near(target, SIGHT as int), keep(target, inner, outer)),
        edge(StateKind::Idle, not_near(target, SIGHT as int), BehaviourState::Wander(WanderState { node: None })),
        edge(StateKind::Wander, near(target, SIGHT as int), keep(target, inner, outer)),
        edge(StateKind::ApproachAndKeepDistance, not_near(target, SIGHT as int), BehaviourState::Idle),
    ]
}

/// The behaviour graph that a creature of `kind` hunting `target` is made with.
pub open spec fn spec_graph(kind: EnemyType, target: u64, d: SpawnDraw) -> Seq<Transition> {
    let (inner, outer) = spec_keep_band(kind, d);
    match kind {
        EnemyType::Slimer => chase_edges(target, inner, outer).push(
            edge(StateKind::ApproachAndKeepDistance, near(target, 4 * METRE), keep(target, 2 * METRE, 3 * METRE)),
        ).push(
            edge(StateKind::ApproachAndKeepDistance, near(target, METRE as int), keep(target, 4 * METRE, 6 * METRE)),
        ),
        EnemyType::Mutant => seq![
            edge(StateKind::Idle, near(target, SIGHT as int), keep(target, inner, outer)),
            edge(
                StateKind::ApproachAndKeepDistance,
                not_near(target, 5 * METRE),
                BehaviourState::FireProjectile(
                    FireProjectile {
                        target,
                        projectile: Projectile::MutantProjectile,
                        keep: ApproachAndKeepDistance {
                            target,
                            inner_distance: (4 * METRE) as i64,
                            outer_distance: (12 * METRE) as i64,
                        },
                        fired: false,
                    },
                ),
            ),
            edge(StateKind::FireProjectile, near(target, 4 * METRE), keep(target, 2 * METRE, 6 * METRE)),
        ],
        EnemyType::LabBoss => seq![
            edge(StateKind::Idle, near(target, 150 * METRE), keep(target, inner, outer)),
            edge(
                StateKind::ApproachAndKeepDistance,
                near(target, 4 * METRE),
                BehaviourState::Attack(
                    Attack {
                        keep: ApproachAndKeepDistance {
                            target,
                            inner_distance: METRE,
                            outer_distance: (METRE + METRE / 2) as i64,
                        },
                        windup: Countdown { period_ms: ATTACK_WINDUP_MS, elapsed_ms: 0 },
                        hitbox_ms: 0,
                    },
                ),
            ),
            edge(StateKind::Attack, not_near(target, 3 * METRE), keep(target, inner, outer)),
        ],
        _ => chase_edges(target, inner, outer),
    }
}

fn keep_state(target: u64, inner: i64, outer: i64) -> (r: BehaviourState)
    ensures
        r == keep(target, inner as int, outer as int),
{
    BehaviourState::ApproachAndKeepDistance(
        ApproachAndKeepDistance { target, inner_distance: inner, outer_distance: outer },
    )
}

fn new_edge(from: StateKind, trigger: Trigger, to: BehaviourState) -> (r: Transition)
    ensures
        r == edge(from, trigger, to),
{
    Transition { from, trigger, to }
}

fn push_chase_edges(v: &mut Vec<Transition>, target: u64, inner: i64, outer: i64)
    ensures
        final(v)@ == old(v)@ + chase_edges(target, inner as int, outer as int),
{
    let ghost start = v@;
    v.push(new_edge(StateKind::Idle, Trigger::near(target, SIGHT), keep_state(target, inner, outer)));
    v.push(
        new_edge(
            StateKind::Idle,
            Trigger::near(target, SIGHT).not(),
            BehaviourState::Wander(WanderState::new()),
        ),
    );
    v.push(new_edge(StateKind::Wander, Trigger::near(target, SIGHT), keep_state(target, inner, outer)));
    v.push(
        new_edge(
            StateKind::ApproachAndKeepDistance,
            Trigger::near(target, SIGHT).not(),
            BehaviourState::Idle,
        ),
    );
    assert(v@ =~= start + chase_edges(target, inner as int, outer as int));
}

impl EnemyType {
    /// The kind with this name, as level data writes it.
    pub fn from_name(name: &str) -> (r: Option<EnemyType>)
        ensures
            r == spec_from_name(name@),
    {
        let s = name.to_owned();
        if s == "Slimer".to_owned() {
            Some(EnemyType::Slimer)
        } else if s == "Mutant".to_owned() {
            Some(EnemyType::Mutant)
        } else if s == "Goblin".to_owned() {
            Some(EnemyType::Goblin)
        } else if s == "GoblinBrute".to_owned() {
            Some(EnemyType::GoblinBrute)
        } else if s == "Adept".to_owned() {
            Some(EnemyType::Adept)
        } else if s == "Skuller".to_owned() {
            Some(EnemyType::Skuller)
        } else if s == "LabBoss".to_owned() {
            Some(EnemyType::LabBoss)
        } else if s == "Sorcerian".to_owned() {
            Some(EnemyType::Sorcerian)
        } else {
            None
        }
    }

    /// How the kind moves; goblins draw theirs from ranges.
    pub fn motion(self, d: SpawnDraw) -> (r: MotionParams)
        ensures
            r == spec_motion(self, d),
            r.wf(),
    {
        match self {
            EnemyType::Slimer => MotionParams { acceleration: 1000 * PIXEL, friction: 500 * PIXEL, max_speed: 150 * PIXEL },
            EnemyType::Mutant => MotionParams { acceleration: 512 * PIXEL, friction: 256 * PIXEL, max_speed: 128 * PIXEL },
            EnemyType::Goblin | EnemyType::GoblinBrute => MotionParams {
                acceleration: pick_in(1000 * PIXEL, 2000 * PIXEL, d.acceleration_roll),
                friction: pick_in(500 * PIXEL, 750 * PIXEL, d.friction_roll),
                max_speed: pick_in(150 * PIXEL, 250 * PIXEL, d.speed_roll),
            },
            EnemyType::Adept => MotionParams { acceleration: 1000 * PIXEL, friction: 500 * PIXEL, max_speed: 150 * PIXEL },
            EnemyType::Skuller => MotionParams { acceleration: 2048 * PIXEL, friction: 512 * PIXEL, max_speed: 400 * PIXEL },
            EnemyType::LabBoss => MotionParams { acceleration: 1000 * PIXEL, friction: 500 * PIXEL, max_speed: 175 * PIXEL },
            EnemyType::Sorcerian => MotionParams { acceleration: 1000 * PIXEL, friction: 250 * PIXEL, max_speed: 300 * PIXEL },
        }
    }

    /// How creatures of the kind keep apart.
    pub fn separation(self) -> (r: Separation)
        ensures
            r == spec_separation(self),
            r.wf(),
    {
        let (radius, force, crowded) = match self {
            EnemyType::Slimer => (3 * METRE, 1024 * PIXEL, Some(1024 * PIXEL)),
            EnemyType::Mutant => (2 * METRE, 512 * PIXEL, None),
            EnemyType::Goblin | EnemyType::GoblinBrute => (3 * METRE, 1000 * PIXEL, Some(1280 * PIXEL)),
            EnemyType::Adept | EnemyType::LabBoss => (METRE, 1000 * PIXEL, Some(1280 * PIXEL)),
            EnemyType::Skuller | EnemyType::Sorcerian => (2 * METRE, 25 * PIXEL, None),
        };
        Separation {
            radius,
            separation_force: force,
            separation_strength: 2 * PIXEL,
            max_speed_during_separation: crowded,
        }
    }

    /// Milliseconds per animation frame.
    pub fn frame_period(self) -> (r: u64)
        ensures
            r == spec_frame_period(self),
            0 < r <= 900,
    {
        match self {
            EnemyType::Slimer | EnemyType::Skuller => 150,
            EnemyType::LabBoss => 900,
            _ => 400,
        }
    }

    /// The behaviour graph of a new creature of this kind hunting `target`.
    pub fn behaviour_graph(self, target: u64, d: SpawnDraw) -> (r: Vec<Transition>)
        ensures
            r@ == spec_graph(self, target, d),
            edges_wf(r@),
            r@.len() > 0,
    {
        let (inner, outer) = match self {
            EnemyType::Slimer | EnemyType::GoblinBrute | EnemyType::Adept | EnemyType::Mutant => (
                4 * METRE,
                6 * METRE,
            ),
            EnemyType::Goblin => (
                pick_in(METRE, 4 * METRE, d.inner_roll),
                pick_in(4 * METRE, 8 * METRE, d.outer_roll),
            ),
            EnemyType::Skuller => (METRE, 8 * METRE),
            EnemyType::LabBoss => (3 * METRE + METRE / 2, 5 * METRE),
            EnemyType::Sorcerian => (5 * METRE, 8 * METRE),
        };
        assert(inner == spec_keep_band(self, d).0 && outer == spec_keep_band(self, d).1);
        let mut v: Vec<Transition> = Vec::new();
        match self {
            EnemyType::Slimer => {
                push_chase_edges(&mut v, target, inner, outer);
                v.push(
                    new_edge(
                        StateKind::ApproachAndKeepDistance,
                        Trigger::near(target, 4 * METRE),
                        keep_state(target, 2 * METRE, 3 * METRE),
                    ),
                );
                v.push(
                    new_edge(
                        StateKind::ApproachAndKeepDistance,
                        Trigger::near(target, METRE),
                        keep_state(target, 4 * METRE, 6 * METRE),
                    ),
                );
                assert(v@ =~= spec_graph(self, target, d));
            },
            EnemyType::Mutant => {
                v.push(new_edge(StateKind::Idle, Trigger::near(target, SIGHT), keep_state(target, inner, outer)));
                v.push(
                    new_edge(
                        StateKind::ApproachAndKeepDistance,
                        Trigger::near(target, 5 * METRE).not(),
                        BehaviourState::FireProjectile(
                            FireProjectile {
                                target,
                                projectile: Projectile::MutantProjectile,
                                keep: ApproachAndKeepDistance {
                                    target,
                                    inner_distance: 4 * METRE,
                                    outer_distance: 12 * METRE,
                                },
                                fired: false,
                            },
                        ),
                    ),
                );
                v.push(
                    new_edge(
                        StateKind::FireProjectile,
                        Trigger::near(target, 4 * METRE),
                        keep_state(target, 2 * METRE, 6 * METRE),
                    ),
                );
                assert(v@ =~= spec_graph(self, target, d));
            },
            EnemyType::LabBoss => {
                v.push(
                    new_edge(StateKind::Idle, Trigger::near(target, 150 * METRE), keep_state(target, inner, outer)),
                );
                v.push(
                    new_edge(
                        StateKind::ApproachAndKeepDistance,
                        Trigger::near(target, 4 * METRE),
                        BehaviourState::Attack(
                            Attack {
                                keep: ApproachAndKeepDistance {
                                    target,
                                    inner_distance: METRE,
                                    outer_distance: METRE + METRE / 2,
                                },
                                windup: Countdown { period_ms: ATTACK_WINDUP_MS, elapsed_ms: 0 },
                                hitbox_ms: 0,
                            },
                        ),
                    ),
                );
                v.push(
                    new_edge(StateKind::Attack, Trigger::near(target, 3 * METRE).not(), keep_state(target, inner, outer)),
                );
                assert(v@ =~= spec_graph(self, target, d));
            },
            _ => {
                push_chase_edges(&mut v, target, inner, outer);
                assert(v@ =~= spec_graph(self, target, d));
            },
        }
        assert(forall|i: int| 0 <= i < v@.len() ==> transition_wf(#[trigger] v@[i]));
        v
    }
}

pub open spec fn spec_from_name(s: Seq<char>) -> Option<EnemyType> {
    if s == "Slimer"@ {
        Some(EnemyType::Slimer)
    } else if s == "Mutant"@ {
        Some(EnemyType::Mutant)
    } else if s == "Goblin"@ {
        Some(EnemyType::Goblin)
    } else if s == "GoblinBrute"@ {
        Some(EnemyType::GoblinBrute)
    } else if s == "Adept"@ {
        Some(EnemyType::Adept)
    } else if s == "Skuller"@ {
        Some(EnemyType::Skuller)
    } else if s == "LabBoss"@ {
        Some(EnemyType::LabBoss)
    } else if s == "Sorcerian"@ {
        Some(EnemyType::Sorcerian)
    } else {
        None
    }
}

} // verus!
