//! Behaviour states, the graph of trigger-guarded transitions between them,
//! and what each state does in a tick.
use vstd::prelude::*;
use crate::motion::{per_tick, per_tick_amount, COORD_LIMIT, MAX_TICK_MS, SPEED_LIMIT};
use crate::steering::{
    approach_acceleration, approach_and_keep_distance, vec_sub, wander, wander_target,
    WanderState, DISTANCE_LIMIT, JITTER_LIMIT,
};
use crate::timer::Countdown;
use crate::trigger::{find_position, lookup, snapshot_ok, trigger_holds, trigger_wf, Trigger};
use crate::vector::{scaled_vec, within, zero, Vec2, VEC_LIMIT};

verus! {

/// Speed of a fired projectile: 120 pixels per second.
pub const PROJECTILE_SPEED: i64 = 120_000;

/// How long an attack's hitbox lasts once it appears, in milliseconds.
pub const HITBOX_LIFETIME_MS: u64 = 50;

/// What a ranged creature fires.
#[derive(Clone, Copy, Debug, PartialEq, Eq, Structural)]
pub enum Projectile {
    MutantProjectile,
}

/// Keep between `inner_distance` and `outer_distance` of `target`.
#[derive(Clone, Copy, Debug, PartialEq, Eq, Structural)]
pub struct ApproachAndKeepDistance {
    pub target: u64,
    pub inner_distance: i64,
    pub outer_distance: i64,
}

/// Fire one projectile at `target` on entering the state, and keep distance
/// meanwhile.
#[derive(Clone, Copy, Debug, PartialEq, Eq, Structural)]
pub struct FireProjectile {
    pub target: u64,
    pub projectile: Projectile,
    pub keep: ApproachAndKeepDistance,
    /// Whether the shot has gone.
    pub fired: bool,
}

/// A melee attack: each time the windup finishes, a hitbox appears for
/// `HITBOX_LIFETIME_MS`; distance is kept meanwhile.
#[derive(Clone, Copy, Debug, PartialEq, Eq, Structural)]
pub struct Attack {
    pub keep: ApproachAndKeepDistance,
    pub windup: Countdown,
    /// Milliseconds the current hitbox has left; zero when there is none.
    pub hitbox_ms: u64,
}

/// What a creature is doing.
#[derive(Clone, Copy, Debug, PartialEq, Eq, Structural)]
pub enum BehaviourState {
    Idle,
    Wander(WanderState),
    ApproachAndKeepDistance(ApproachAndKeepDistance),
    FireProjectile(FireProjectile),
    Attack(Attack),
    /// Moved by input: accelerates in the given direction; zero adds nothing.
    Controlled(Vec2),
}

/// The variant of a state, without its data: what transitions are keyed by.
#[derive(Clone, Copy, Debug, PartialEq, Eq, Structural)]
pub enum StateKind {
    Idle,
    Wander,
    ApproachAndKeepDistance,
    FireProjectile,
    Attack,
    Controlled,
}

/// From a state of kind `from`, move to `to` when `trigger` holds.
#[derive(Clone, Copy, Debug, PartialEq, Eq, Structural)]
pub struct Transition {
    pub from: StateKind,
    pub trigger: Trigger,
    pub to: BehaviourState,
}

/// A projectile that a state fired this tick.
#[derive(Clone, Copy, Debug, PartialEq, Eq, Structural)]
pub struct Launch {
    pub projectile: Projectile,
    pub position: Vec2,
    pub velocity: Vec2,
}

pub open spec fn kind_of(s: BehaviourState) -> StateKind {
    match s {
        BehaviourState::Idle => StateKind::Idle,
        BehaviourState::Wander(_) => StateKind::Wander,
        BehaviourState::ApproachAndKeepDistance(_) => StateKind::ApproachAndKeepDistance,
        BehaviourState::FireProjectile(_) => StateKind::FireProjectile,
        BehaviourState::Attack(_) => StateKind::Attack,
        BehaviourState::Controlled(_) => StateKind::Controlled,
    }
}

pub open spec fn keep_wf(k: ApproachAndKeepDistance) -> bool {
    0 <= k.inner_distance <= DISTANCE_LIMIT && 0 <= k.outer_distance <= DISTANCE_LIMIT
}

pub open spec fn state_wf(s: BehaviourState) -> bool {
    match s {
        BehaviourState::Idle => true,
        BehaviourState::Wander(w) => w.wf(),
        BehaviourState::ApproachAndKeepDistance(k) => keep_wf(k),
        BehaviourState::FireProjectile(f) => keep_wf(f.keep),
        BehaviourState::Attack(a) => keep_wf(a.keep) && a.windup.wf(),
        BehaviourState::Controlled(input) => within(input, JITTER_LIMIT as int),
    }
}

/// A state as a transition enters it: no scratch data from an earlier visit.
pub open spec fn is_fresh(s: BehaviourState) -> bool {
    match s {
        BehaviourState::Wander(w) => w.node is None,
        BehaviourState::FireProjectile(f) => !f.fired,
        BehaviourState::Attack(a) => a.windup.elapsed_ms == 0 && a.hitbox_ms == 0,
        _ => true,
    }
}

pub open spec fn transition_wf(e: Transition) -> bool {
    trigger_wf(e.trigger) && state_wf(e.to) && is_fresh(e.to)
}

pub open spec fn edges_wf(es: Seq<Transition>) -> bool {
    forall|i: int| 0 <= i < es.len() ==> transition_wf(#[trigger] es[i])
}

/// Edge `e` leaves a state of kind `kind` in this snapshot.
pub open spec fn fires(e: Transition, kind: StateKind, me: Vec2, snap: Seq<(u64, Vec2)>) -> bool {
    e.from == kind && trigger_holds(e.trigger, me, snap)
}

/// The first edge from index `i` on that fires.
pub open spec fn first_firing_from(
    es: Seq<Transition>,
    i: int,
    kind: StateKind,
    me: Vec2,
    snap: Seq<(u64, Vec2)>,
) -> Option<int>
    decreases es.len() - i,
{
    if i < 0 || i >= es.len() {
        None
    } else if fires(es[i], kind, me, snap) {
        Some(i)
    } else {
        first_firing_from(es, i + 1, kind, me, snap)
    }
}

pub open spec fn first_firing(
    es: Seq<Transition>,
    kind: StateKind,
    me: Vec2,
    snap: Seq<(u64, Vec2)>,
) -> Option<int> {
    first_firing_from(es, 0, kind, me, snap)
}

/// The state after this tick's transition: the target of the first edge that
/// fires, or the current state where none does.
pub open spec fn state_after_transition(
    es: Seq<Transition>,
    s: BehaviourState,
    me: Vec2,
    snap: Seq<(u64, Vec2)>,
) -> BehaviourState {
    match first_firing(es, kind_of(s), me, snap) {
        Some(i) => es[i].to,
        None => s,
    }
}

proof fn lemma_first_firing_from_bounds(
    es: Seq<Transition>,
    i: int,
    kind: StateKind,
    me: Vec2,
    snap: Seq<(u64, Vec2)>,
)
    requires
        0 <= i,
    ensures
        first_firing_from(es, i, kind, me, snap) matches Some(j) ==> i <= j < es.len() && fires(
            es[j],
            kind,
            me,
            snap,
        ),
    decreases es.len() - i,
{
    if i < es.len() && !fires(es[i], kind, me, snap) {
        lemma_first_firing_from_bounds(es, i + 1, kind, me, snap);
    }
}

/// A transition enters its target afresh: no wander node, no shot fired, no
/// windup or hitbox carries over from the state it leaves.
pub proof fn lemma_transition_enters_fresh(
    es: Seq<Transition>,
    s: BehaviourState,
    me: Vec2,
    snap: Seq<(u64, Vec2)>,
)
    requires
        edges_wf(es),
    ensures
        first_firing(es, kind_of(s), me, snap) is Some ==> is_fresh(
            state_after_transition(es, s, me, snap),
        ),
{
    lemma_first_firing_from_bounds(es, 0, kind_of(s), me, snap);
    if let Some(i) = first_firing(es, kind_of(s), me, snap) {
        assert(transition_wf(es[i]));
    }
}

/// The transition decision reads no more than the positions of the snapshot:
/// two snapshots that place every creature alike, or the same snapshot read
/// twice, give the same decision.
pub proof fn lemma_transition_deterministic(
    es: Seq<Transition>,
    kind: StateKind,
    me: Vec2,
    s1: Seq<(u64, Vec2)>,
    s2: Seq<(u64, Vec2)>,
)
    requires
        forall|id: u64| lookup(s1, id) == lookup(s2, id),
    ensures
        first_firing(es, kind, me, s1) == first_firing(es, kind, me, s2),
{
    lemma_deterministic_from(es, 0, kind, me, s1, s2);
}

proof fn lemma_deterministic_from(
    es: Seq<Transition>,
    i: int,
    kind: StateKind,
    me: Vec2,
    s1: Seq<(u64, Vec2)>,
    s2: Seq<(u64, Vec2)>,
)
    requires
        forall|id: u64| lookup(s1, id) == lookup(s2, id),
    ensures
        first_firing_from(es, i, kind, me, s1) == first_firing_from(es, i, kind, me, s2),
    decreases es.len() - i,
{
    if 0 <= i < es.len() {
        crate::trigger::lemma_trigger_reads_positions(es[i].trigger, me, s1, s2);
        lemma_deterministic_from(es, i + 1, kind, me, s1, s2);
    }
}

impl BehaviourState {
    pub fn kind(&self) -> (r: StateKind)
        ensures
            r == kind_of(*self),
    {
        match self {
            BehaviourState::Idle => StateKind::Idle,
            BehaviourState::Wander(_) => StateKind::Wander,
            BehaviourState::ApproachAndKeepDistance(_) => StateKind::ApproachAndKeepDistance,
            BehaviourState::FireProjectile(_) => StateKind::FireProjectile,
            BehaviourState::Attack(_) => StateKind::Attack,
            BehaviourState::Controlled(_) => StateKind::Controlled,
        }
    }
}

/// The index of the first edge out of a state of kind `kind` whose trigger
/// holds; edges are tried in the order given.
pub fn select_transition(
    edges: &Vec<Transition>,
    kind: StateKind,
    me: Vec2,
    snap: &Vec<(u64, Vec2)>,
) -> (r: Option<usize>)
    requires
        edges_wf(edges@),
        within(me, COORD_LIMIT as int),
        snapshot_ok(snap@),
    ensures
        r matches Some(i) ==> first_firing(edges@, kind, me, snap@) == Some(i as int),
        r is None ==> first_firing(edges@, kind, me, snap@) is None,
        r matches Some(i) ==> i < edges.len(),
{
    let mut i: usize = 0;
    while i < edges.len()
        invariant
            edges_wf(edges@),
            within(me, COORD_LIMIT as int),
            snapshot_ok(snap@),
            i <= edges.len(),
            first_firing(edges@, kind, me, snap@) == first_firing_from(
                edges@,
                i as int,
                kind,
                me,
                snap@,
            ),
        decreases edges.len() - i,
    {
        let e = edges[i];
        assert(transition_wf(edges@[i as int]));
        if e.from == kind && e.trigger.holds(me, snap) {
            return Some(i);
        }
        i = i + 1;
    }
    None
}

/// Applies this tick's transition to `state`; returns whether one fired.
pub fn apply_transition(
    edges: &Vec<Transition>,
    state: &mut BehaviourState,
    me: Vec2,
    snap: &Vec<(u64, Vec2)>,
) -> (changed: bool)
    requires
        edges_wf(edges@),
        state_wf(*old(state)),
        within(me, COORD_LIMIT as int),
        snapshot_ok(snap@),
    ensures
        *final(state) == state_after_transition(edges@, *old(state), me, snap@),
        changed == first_firing(edges@, kind_of(*old(state)), me, snap@) is Some,
        state_wf(*final(state)),
{
    match select_transition(edges, state.kind(), me, snap) {
        Some(i) => {
            assert(transition_wf(edges@[i as int]));
            *state = edges[i].to;
            true
        },
        None => false,
    }
}

/// What a state does in one tick: its next scratch data, the acceleration it
/// asks for (of length `m`), and the projectile it fires, if any.
pub open spec fn state_step(
    s: BehaviourState,
    pos: Vec2,
    velocity: Vec2,
    m: int,
    dt_ms: int,
    jitter: Vec2,
    snap: Seq<(u64, Vec2)>,
) -> (BehaviourState, Vec2, Option<Launch>) {
    match s {
        BehaviourState::Idle => (s, zero(), None),
        BehaviourState::Wander(w) => {
            let node = wander_target(pos, w.node, jitter);
            (
                BehaviourState::Wander(WanderState { node: Some(node) }),
                scaled_vec(vec_sub(node, pos), m),
                None,
            )
        },
        BehaviourState::ApproachAndKeepDistance(k) => (s, keep_acceleration(k, pos, velocity, m, jitter, snap), None),
        BehaviourState::FireProjectile(f) => {
            let a = keep_acceleration(f.keep, pos, velocity, m, jitter, snap);
            match lookup(snap, f.target) {
                Some(t) if !f.fired => (
                    BehaviourState::FireProjectile(FireProjectile { fired: true, ..f }),
                    a,
                    Some(
                        Launch {
                            projectile: f.projectile,
                            position: pos,
                            velocity: scaled_vec(vec_sub(t, pos), PROJECTILE_SPEED as int),
                        },
                    ),
                ),
                _ => (s, a, None),
            }
        },
        BehaviourState::Attack(at) => {
            let a = keep_acceleration(at.keep, pos, velocity, m, jitter, snap);
            let left = if at.hitbox_ms > dt_ms {
                at.hitbox_ms - dt_ms
            } else {
                0
            };
            let hitbox = if at.windup.fires(dt_ms) {
                HITBOX_LIFETIME_MS as int
            } else {
                left
            };
            (
                BehaviourState::Attack(
                    Attack { keep: at.keep, windup: at.windup.ticked(dt_ms), hitbox_ms: hitbox as u64 },
                ),
                a,
                None,
            )
        },
        BehaviourState::Controlled(input) => (s, scaled_vec(input, m), None),
    }
}

pub open spec fn keep_acceleration(
    k: ApproachAndKeepDistance,
    pos: Vec2,
    velocity: Vec2,
    m: int,
    jitter: Vec2,
    snap: Seq<(u64, Vec2)>,
) -> Vec2 {
    approach_acceleration(
        pos,
        lookup(snap, k.target),
        k.inner_distance as int,
        k.outer_distance as int,
        velocity,
        m,
        jitter,
    )
}

fn keep_distance(
    k: &ApproachAndKeepDistance,
    pos: Vec2,
    accel: i64,
    velocity: Vec2,
    dt_ms: u64,
    jitter: Vec2,
    snap: &Vec<(u64, Vec2)>,
) -> (r: Vec2)
    requires
        keep_wf(*k),
        within(pos, COORD_LIMIT as int),
        within(velocity, VEC_LIMIT as int),
        within(jitter, JITTER_LIMIT as int),
        snapshot_ok(snap@),
        0 <= accel <= SPEED_LIMIT,
        dt_ms <= MAX_TICK_MS,
    ensures
        r == keep_acceleration(*k, pos, velocity, per_tick(accel as int, dt_ms as int), jitter, snap@),
        within(r, SPEED_LIMIT as int),
{
    proof {
        crate::motion::lemma_per_tick_bounds(accel as int, dt_ms as int);
    }
    let target = find_position(snap, k.target);
    approach_and_keep_distance(
        pos,
        accel,
        target,
        k.inner_distance,
        k.outer_distance,
        velocity,
        dt_ms,
        jitter,
    )
}

/// Runs the current state for one tick: updates its scratch data and returns
/// the acceleration it asks for and the projectile it fires, if any.
pub fn run_state(
    state: &mut BehaviourState,
    pos: Vec2,
    accel: i64,
    velocity: Vec2,
    dt_ms: u64,
    jitter: Vec2,
    snap: &Vec<(u64, Vec2)>,
) -> (r: (Vec2, Option<Launch>))
    requires
        state_wf(*old(state)),
        within(pos, COORD_LIMIT as int),
        within(velocity, VEC_LIMIT as int),
        within(jitter, JITTER_LIMIT as int),
        snapshot_ok(snap@),
        0 <= accel <= SPEED_LIMIT,
        dt_ms <= MAX_TICK_MS,
    ensures
        ({
            let (s, a, l) = state_step(
                *old(state),
                pos,
                velocity,
                per_tick(accel as int, dt_ms as int),
                dt_ms as int,
                jitter,
                snap@,
            );
            *final(state) == s && r.0 == a && r.1 == l
        }),
        state_wf(*final(state)),
        kind_of(*final(state)) == kind_of(*old(state)),
        within(r.0, SPEED_LIMIT as int),
{
    proof {
        crate::motion::lemma_per_tick_bounds(accel as int, dt_ms as int);
    }
    match state {
        BehaviourState::Idle => (Vec2::zero(), None),
        BehaviourState::Wander(w) => {
            let a = wander(pos, accel, w, dt_ms, jitter);
            (a, None)
        },
        BehaviourState::ApproachAndKeepDistance(k) => {
            let a = keep_distance(k, pos, accel, velocity, dt_ms, jitter, snap);
            (a, None)
        },
        BehaviourState::FireProjectile(f) => {
            let a = keep_distance(&f.keep, pos, accel, velocity, dt_ms, jitter, snap);
            if f.fired {
                (a, None)
            } else {
                match find_position(snap, f.target) {
                    Some(t) => {
                        f.fired = true;
                        let v = t.minus(pos).scaled(PROJECTILE_SPEED);
                        (a, Some(Launch { projectile: f.projectile, position: pos, velocity: v }))
                    },
                    None => (a, None),
                }
            }
        },
        BehaviourState::Attack(at) => {
            let a = keep_distance(&at.keep, pos, accel, velocity, dt_ms, jitter, snap);
            let left = if at.hitbox_ms > dt_ms {
                at.hitbox_ms - dt_ms
            } else {
                0
            };
            let fired = at.windup.tick(dt_ms);
            at.hitbox_ms = if fired {
                HITBOX_LIFETIME_MS
            } else {
                left
            };
            (a, None)
        },
        BehaviourState::Controlled(input) => {
            let m = per_tick_amount(accel, dt_ms);
            (input.scaled(m), None)
        },
    }
}

} // verus!
