//! The world: every creature and spawner, and the tick that advances them.
//!
//! A tick first takes a snapshot of where every creature stands; transitions,
//! steering and separation of every creature read that snapshot only, so no
//! creature's new position reaches another creature in the same tick.
use vstd::prelude::*;
use crate::archetype::{EnemyType, Separation, SpawnDraw, MAX_PHASE_MS, PIXEL};
use crate::behaviour::{
    apply_transition, edges_wf, run_state, state_after_transition, state_step, state_wf,
    BehaviourState, Launch, Transition,
};
use crate::motion::{
    advance_position, advanced, apply_friction, clamp_speed, confine_to_level, confine_to_world,
    friction_applied, level_clamped, per_tick, per_tick_amount, speed_clamped, world_clamped,
    Bounds, MotionParams, COORD_LIMIT, MAX_TICK_MS, SPEED_LIMIT,
};
use crate::spawner::{Spawner, SpawnerTick, spawner_after};
use crate::steering::{
    away_sum, away_total, positions_ok, separate, separation_steer, vec_add, JITTER_LIMIT,
};
use crate::timer::Countdown;
use crate::trigger::snapshot_ok;
use crate::vector::{norm_sq, scaled_vec, within, zero, Vec2};

verus! {

/// Who a creature is: the player, or an enemy of some kind.
#[derive(Clone, Copy, Debug, PartialEq, Eq, Structural)]
pub enum CreatureKind {
    Player,
    Enemy(EnemyType),
}

/// While present, steering and separation add nothing to the velocity.
#[derive(Clone, Copy, Debug, PartialEq, Eq, Structural)]
pub struct Knockback {
    pub remaining_ms: u64,
}

/// One simulated creature.
#[derive(Clone, Copy, Debug, PartialEq, Eq, Structural)]
pub struct Creature {
    pub id: u64,
    pub kind: CreatureKind,
    pub position: Vec2,
    pub velocity: Vec2,
    pub motion: MotionParams,
    pub state: BehaviourState,
    pub separation: Option<Separation>,
    pub knockback: Option<Knockback>,
    /// A speed limit that replaces `motion.max_speed` while present.
    pub speed_override: Option<i64>,
    /// How far inside the level's edges the creature is kept.
    pub margin: Vec2,
    /// The animation clock, started at a random phase.
    pub clock: Countdown,
}

/// The random directions one creature uses in one tick.
#[derive(Clone, Copy, Debug, PartialEq, Eq, Structural)]
pub struct EntityDraw {
    /// For drifting in the orbit band, or placing a wander node.
    pub steer: Vec2,
    /// For separation where no neighbour pushes.
    pub scatter: Vec2,
}

pub open spec fn draw_wf(d: EntityDraw) -> bool {
    within(d.steer, JITTER_LIMIT as int) && within(d.scatter, JITTER_LIMIT as int)
}

pub open spec fn speed_ok(s: int) -> bool {
    0 < s <= SPEED_LIMIT
}

pub open spec fn creature_wf(c: Creature) -> bool {
    &&& within(c.position, COORD_LIMIT as int)
    &&& within(c.velocity, SPEED_LIMIT as int)
    &&& c.motion.wf()
    &&& state_wf(c.state)
    &&& (c.separation matches Some(s) ==> s.wf())
    &&& (c.speed_override matches Some(s) ==> speed_ok(s as int))
    &&& 0 <= c.margin.x <= COORD_LIMIT && 0 <= c.margin.y <= COORD_LIMIT
    &&& c.clock.wf()
}

/// The speed limit in force: the override where there is one.
pub open spec fn effective_max_speed(c: Creature) -> int {
    match c.speed_override {
        Some(s) => s as int,
        None => c.motion.max_speed as int,
    }
}

/// Where each creature stands, as `(id, position)` pairs.
pub open spec fn snapshot_of(cs: Seq<Creature>) -> Seq<(u64, Vec2)>
    decreases cs.len(),
{
    if cs.len() == 0 {
        Seq::empty()
    } else {
        snapshot_of(cs.drop_last()).push((cs.last().id, cs.last().position))
    }
}

/// The positions of the creatures of one kind.
pub open spec fn group_of(cs: Seq<Creature>, kind: CreatureKind) -> Seq<Vec2>
    decreases cs.len(),
{
    if cs.len() == 0 {
        Seq::empty()
    } else if cs.last().kind == kind {
        group_of(cs.drop_last(), kind).push(cs.last().position)
    } else {
        group_of(cs.drop_last(), kind)
    }
}

/// The separation push and the speed override after it, for a creature whose
/// kind keeps apart as `sp`.
pub open spec fn separation_effect(
    c: Creature,
    sp: Separation,
    group: Seq<Vec2>,
    scatter: Vec2,
) -> (Vec2, Option<i64>) {
    let crowded = away_sum(c.position, sp.radius as int, group).2 > 0;
    let push = scaled_vec(
        separation_steer(
            c.position,
            sp.radius as int,
            sp.separation_force as int,
            group,
            scatter,
        ),
        sp.separation_strength as int,
    );
    let ov = match sp.max_speed_during_separation {
        Some(x) => if crowded {
            Some(x)
        } else {
            None
        },
        None => c.speed_override,
    };
    (push, ov)
}

/// One creature after one tick, and the projectile it fired, if any: the
/// transition, the state's steering, separation, knockback, friction, the
/// speed limit, moving, and the level's and the world's edges, in that order.
pub open spec fn creature_after(
    c: Creature,
    edges: Seq<Transition>,
    snap: Seq<(u64, Vec2)>,
    group: Seq<Vec2>,
    level: Option<Bounds>,
    dt_ms: int,
    d: EntityDraw,
) -> (Creature, Option<Launch>) {
    let s1 = state_after_transition(edges, c.state, c.position, snap);
    let m = per_tick(c.motion.acceleration as int, dt_ms);
    let (s2, steer, launch) = state_step(s1, c.position, c.velocity, m, dt_ms, d.steer, snap);
    let (push, ov) = match c.separation {
        None => (zero(), c.speed_override),
        Some(sp) => separation_effect(c, sp, group, d.scatter),
    };
    let accel = if c.knockback is Some {
        zero()
    } else {
        vec_add(steer, push)
    };
    let kb = match c.knockback {
        Some(k) => if k.remaining_ms > dt_ms {
            Some(Knockback { remaining_ms: (k.remaining_ms - dt_ms) as u64 })
        } else {
            None
        },
        None => None,
    };
    let v1 = friction_applied(c.velocity, per_tick(c.motion.friction as int, dt_ms));
    let max = match ov {
        Some(x) => x as int,
        None => c.motion.max_speed as int,
    };
    let v3 = speed_clamped(vec_add(v1, accel), max);
    let moved = advanced(c.position, v3, dt_ms);
    let inside = match level {
        Some(b) => level_clamped(moved, b, c.margin),
        None => moved,
    };
    (
        Creature {
            position: world_clamped(inside),
            velocity: v3,
            state: s2,
            knockback: kb,
            speed_override: ov,
            clock: c.clock.ticked(dt_ms),
            ..c
        },
        launch,
    )
}

/// Advances one creature by one tick against the snapshot `snap` and the
/// positions `group` of its own kind.
pub fn step_creature(
    c: &Creature,
    edges: &Vec<Transition>,
    snap: &Vec<(u64, Vec2)>,
    group: &Vec<Vec2>,
    level: Option<Bounds>,
    dt_ms: u64,
    d: EntityDraw,
) -> (r: (Creature, Option<Launch>))
    requires
        creature_wf(*c),
        edges_wf(edges@),
        snapshot_ok(snap@),
        positions_ok(group@),
        level matches Some(b) ==> b.wf(),
        dt_ms <= MAX_TICK_MS,
        draw_wf(d),
    ensures
        r == creature_after(*c, edges@, snap@, group@, level, dt_ms as int, d),
        creature_wf(r.0),
        norm_sq(r.0.velocity) <= effective_max_speed(r.0) * effective_max_speed(r.0),
{
    let mut state = c.state;
    apply_transition(edges, &mut state, c.position, snap);
    let (steer, launch) = run_state(
        &mut state,
        c.position,
        c.motion.acceleration,
        c.velocity,
        dt_ms,
        d.steer,
        snap,
    );
    let (push, ov) = match c.separation {
        None => (Vec2::zero(), c.speed_override),
        Some(sp) => {
            let (_, _, count) = away_total(c.position, sp.radius, group);
            let dir = separate(c.position, sp.radius, sp.separation_force, group, d.scatter);
            let push = dir.scaled(sp.separation_strength);
            let ov = match sp.max_speed_during_separation {
                Some(x) => if count > 0 {
                    Some(x)
                } else {
                    None
                },
                None => c.speed_override,
            };
            (push, ov)
        },
    };
    let accel = if c.knockback.is_some() {
        Vec2::zero()
    } else {
        steer.plus(push)
    };
    let kb = match c.knockback {
        Some(k) => if k.remaining_ms > dt_ms {
            Some(Knockback { remaining_ms: k.remaining_ms - dt_ms })
        } else {
            None
        },
        None => None,
    };
    proof {
        crate::motion::lemma_per_tick_bounds(c.motion.friction as int, dt_ms as int);
    }
    let v1 = apply_friction(c.velocity, per_tick_amount(c.motion.friction, dt_ms));
    let max = match ov {
        Some(x) => x,
        None => c.motion.max_speed,
    };
    let v3 = clamp_speed(v1.plus(accel), max);
    assert(within(v3, SPEED_LIMIT as int)) by (nonlinear_arith)
        requires
            v3.x * v3.x + v3.y * v3.y <= max * max,
            0 < max <= SPEED_LIMIT,
    ;
    let moved = advance_position(c.position, v3, dt_ms);
    let inside = match level {
        Some(b) => confine_to_level(moved, b, c.margin),
        None => moved,
    };
    let placed = confine_to_world(inside);
    let mut clock = c.clock;
    clock.tick(dt_ms);
    let next = Creature {
        id: c.id,
        kind: c.kind,
        position: placed,
        velocity: v3,
        motion: c.motion,
        state,
        separation: c.separation,
        knockback: kb,
        speed_override: ov,
        margin: c.margin,
        clock,
    };
    (next, launch)
}

/// Where each creature stands.
pub fn take_snapshot(cs: &Vec<Creature>) -> (r: Vec<(u64, Vec2)>)
    requires
        forall|i: int| 0 <= i < cs.len() ==> creature_wf(#[trigger] cs@[i]),
    ensures
        r@ == snapshot_of(cs@),
        snapshot_ok(r@),
{
    let mut r: Vec<(u64, Vec2)> = Vec::new();
    let mut i: usize = 0;
    while i < cs.len()
        invariant
            forall|j: int| 0 <= j < cs.len() ==> creature_wf(#[trigger] cs@[j]),
            i <= cs.len(),
            r@ == snapshot_of(cs@.subrange(0, i as int)),
            snapshot_ok(r@),
        decreases cs.len() - i,
    {
        let ghost prefix = cs@.subrange(0, i as int + 1);
        assert(prefix.drop_last() == cs@.subrange(0, i as int));
        assert(creature_wf(cs@[i as int]));
        r.push((cs[i].id, cs[i].position));
        i = i + 1;
    }
    assert(cs@.subrange(0, cs.len() as int) == cs@);
    r
}

/// The positions of the creatures of kind `kind`.
pub fn group_positions(cs: &Vec<Creature>, kind: CreatureKind) -> (r: Vec<Vec2>)
    requires
        forall|i: int| 0 <= i < cs.len() ==> creature_wf(#[trigger] cs@[i]),
    ensures
        r@ == group_of(cs@, kind),
        positions_ok(r@),
{
    let mut r: Vec<Vec2> = Vec::new();
    let mut i: usize = 0;
    while i < cs.len()
        invariant
            forall|j: int| 0 <= j < cs.len() ==> creature_wf(#[trigger] cs@[j]),
            i <= cs.len(),
            r@ == group_of(cs@.subrange(0, i as int), kind),
            positions_ok(r@),
        decreases cs.len() - i,
    {
        let ghost prefix = cs@.subrange(0, i as int + 1);
        assert(prefix.drop_last() == cs@.subrange(0, i as int));
        assert(creature_wf(cs@[i as int]));
        if cs[i].kind == kind {
            r.push(cs[i].position);
        }
        i = i + 1;
    }
    assert(cs@.subrange(0, cs.len() as int) == cs@);
    r
}

/// A batch of creatures that a spawner asks for.
#[derive(Clone, Copy, Debug, PartialEq, Eq, Structural)]
pub struct SpawnOrder {
    pub enemy_type: EnemyType,
    pub position: Vec2,
    pub count: usize,
}

/// The spawners after one tick, exhausted ones removed, and the batches they
/// ask for, in order.
pub open spec fn spawners_after(ss: Seq<Spawner>, dt_ms: int) -> (Seq<Spawner>, Seq<SpawnOrder>)
    decreases ss.len(),
{
    if ss.len() == 0 {
        (Seq::empty(), Seq::empty())
    } else {
        let (kept, orders) = spawners_after(ss.drop_last(), dt_ms);
        let (s, out) = spawner_after(ss.last(), dt_ms);
        match out {
            SpawnerTick::Exhausted => (kept, orders),
            SpawnerTick::Waiting => (kept.push(s), orders),
            SpawnerTick::Spawn(n) => (
                kept.push(s),
                orders.push(SpawnOrder { enemy_type: s.enemy_type, position: s.position, count: n }),
            ),
        }
    }
}

/// All creatures and spawners, the level's rectangle, and the player whom new
/// enemies hunt.
pub struct World {
    pub creatures: Vec<Creature>,
    /// The behaviour graph of each creature, at the same index.
    pub graphs: Vec<Vec<Transition>>,
    pub spawners: Vec<Spawner>,
    pub level: Option<Bounds>,
    pub player: Option<u64>,
    pub next_id: u64,
}

impl World {
    pub open spec fn wf(&self) -> bool {
        &&& self.creatures.len() == self.graphs.len()
        &&& forall|i: int| 0 <= i < self.creatures.len() ==> creature_wf(#[trigger] self.creatures@[i])
        &&& forall|i: int| 0 <= i < self.graphs.len() ==> edges_wf(#[trigger] self.graphs@[i]@)
        &&& forall|i: int| 0 <= i < self.spawners.len() ==> (#[trigger] self.spawners@[i]).wf()
        &&& (self.level matches Some(b) ==> b.wf())
    }

    /// Every creature keeps to its speed limit.
    pub open spec fn speeds_ok(&self) -> bool {
        forall|i: int|
            0 <= i < self.creatures.len() ==> norm_sq(#[trigger] self.creatures@[i].velocity)
                <= effective_max_speed(self.creatures@[i]) * effective_max_speed(
                self.creatures@[i],
            )
    }

    /// An empty world, inside `level` where one is given.
    pub fn new(level: Option<Bounds>) -> (r: World)
        requires
            level matches Some(b) ==> b.wf(),
        ensures
            r.wf(),
            r.creatures@.len() == 0,
            r.spawners@.len() == 0,
            r.level == level,
            r.player is None,
            r.next_id == 0,
    {
        World {
            creatures: Vec::new(),
            graphs: Vec::new(),
            spawners: Vec::new(),
            level,
            player: None,
            next_id: 0,
        }
    }

    /// Adds a creature under a fresh id, with its behaviour graph; returns the id.
    pub fn insert(&mut self, c: Creature, graph: Vec<Transition>) -> (id: u64)
        requires
            old(self).wf(),
            creature_wf(c),
            edges_wf(graph@),
            old(self).next_id < u64::MAX,
        ensures
            final(self).wf(),
            id == old(self).next_id,
            final(self).next_id == old(self).next_id + 1,
            final(self).creatures@ == old(self).creatures@.push(Creature { id, ..c }),
            final(self).graphs@ == old(self).graphs@.push(graph),
            final(self).spawners == old(self).spawners,
            final(self).level == old(self).level,
            final(self).player == old(self).player,
    {
        let id = self.next_id;
        self.next_id = id + 1;
        self.creatures.push(Creature { id, ..c });
        self.graphs.push(graph);
        assert(forall|i: int|
            0 <= i < self.graphs.len() ==> edges_wf(#[trigger] self.graphs@[i]@)) by {
            assert(forall|i: int|
                0 <= i < old(self).graphs.len() ==> self.graphs@[i] == old(self).graphs@[i]);
        }
        id
    }

    /// Adds the player, at rest and without input; new enemies will hunt it.
    pub fn add_player(&mut self, position: Vec2, motion: MotionParams) -> (id: u64)
        requires
            old(self).wf(),
            within(position, COORD_LIMIT as int),
            motion.wf(),
            old(self).next_id < u64::MAX,
        ensures
            final(self).wf(),
            id == old(self).next_id,
            final(self).player == Some(id),
            final(self).creatures@ == old(self).creatures@.push(player_creature(id, position, motion)),
            final(self).graphs@.len() == old(self).graphs@.len() + 1,
            final(self).graphs@.last()@.len() == 0,
            forall|j: int| 0 <= j < old(self).graphs.len() ==> #[trigger] final(self).graphs@[j] == old(self).graphs@[j],
            final(self).spawners == old(self).spawners,
            final(self).level == old(self).level,
            final(self).next_id == old(self).next_id + 1,
    {
        let c = Creature {
            id: 0,
            kind: CreatureKind::Player,
            position,
            velocity: Vec2::zero(),
            motion,
            state: BehaviourState::Controlled(Vec2::zero()),
            separation: None,
            knockback: None,
            speed_override: None,
            margin: Vec2::new(32 * PIXEL, 64 * PIXEL),
            clock: Countdown::started(1000, 0),
        };
        let id = self.insert(c, Vec::new());
        self.player = Some(id);
        id
    }

    /// Adds a spawner.
    pub fn add_spawner(&mut self, s: Spawner)
        requires
            old(self).wf(),
            s.wf(),
        ensures
            final(self).wf(),
            final(self).spawners@ == old(self).spawners@.push(s),
            final(self).creatures == old(self).creatures,
            final(self).graphs == old(self).graphs,
            final(self).next_id == old(self).next_id,
            final(self).player == old(self).player,
    {
        self.spawners.push(s);
    }

    /// Makes one enemy of `kind` at `position`, hunting `target`, idle and at
    /// rest, with its clock started at a random phase; returns its id.
    pub fn spawn_enemy(&mut self, kind: EnemyType, position: Vec2, target: u64, d: SpawnDraw) -> (id:
        u64)
        requires
            old(self).wf(),
            within(position, COORD_LIMIT as int),
            old(self).next_id < u64::MAX,
        ensures
            final(self).wf(),
            id == old(self).next_id,
            final(self).next_id == id + 1,
            final(self).creatures@ == old(self).creatures@.push(enemy_creature(id, kind, position, d)),
            final(self).graphs@.last()@ == crate::archetype::spec_graph(kind, target, d),
            final(self).graphs@ == old(self).graphs@.push(final(self).graphs@.last()),
            final(self).spawners == old(self).spawners,
            final(self).player == old(self).player,
            final(self).level == old(self).level,
    {
        let c = Creature {
            id: 0,
            kind: CreatureKind::Enemy(kind),
            position,
            velocity: Vec2::zero(),
            motion: kind.motion(d),
            state: BehaviourState::Idle,
            separation: Some(kind.separation()),
            knockback: None,
            speed_override: None,
            margin: Vec2::new(32 * PIXEL, 64 * PIXEL),
            clock: Countdown::started(kind.frame_period(), d.phase_roll % (MAX_PHASE_MS + 1)),
        };
        let graph = kind.behaviour_graph(target, d);
        self.insert(c, graph)
    }

    /// Advances every creature by one tick, each with its own draw, against a
    /// snapshot taken before any of them moves. Returns what each fired.
    pub fn step_creatures(&mut self, dt_ms: u64, draws: &Vec<EntityDraw>) -> (r: Vec<
        Option<Launch>,
    >)
        requires
            old(self).wf(),
            dt_ms <= MAX_TICK_MS,
            draws.len() == old(self).creatures.len(),
            forall|i: int| 0 <= i < draws.len() ==> draw_wf(#[trigger] draws@[i]),
        ensures
            final(self).wf(),
            final(self).speeds_ok(),
            final(self).creatures.len() == old(self).creatures.len(),
            r.len() == old(self).creatures.len(),
            forall|i: int|
                0 <= i < old(self).creatures.len() ==> (#[trigger] final(self).creatures@[i], r@[i])
                    == creature_after(
                    old(self).creatures@[i],
                    old(self).graphs@[i]@,
                    snapshot_of(old(self).creatures@),
                    group_of(old(self).creatures@, old(self).creatures@[i].kind),
                    old(self).level,
                    dt_ms as int,
                    draws@[i],
                ),
            final(self).graphs == old(self).graphs,
            final(self).spawners == old(self).spawners,
            final(self).level == old(self).level,
            final(self).player == old(self).player,
            final(self).next_id == old(self).next_id,
    {
        let snap = take_snapshot(&self.creatures);
        let mut next: Vec<Creature> = Vec::new();
        let mut launches: Vec<Option<Launch>> = Vec::new();
        let mut i: usize = 0;
        while i < self.creatures.len()
            invariant
                self.wf(),
                self.creatures@ == old(self).creatures@,
                self.graphs == old(self).graphs,
                self.level == old(self).level,
                snap@ == snapshot_of(old(self).creatures@),
                snapshot_ok(snap@),
                dt_ms <= MAX_TICK_MS,
                draws.len() == self.creatures.len(),
                forall|j: int| 0 <= j < draws.len() ==> draw_wf(#[trigger] draws@[j]),
                i <= self.creatures.len(),
                next.len() == i,
                launches.len() == i,
                forall|j: int|
                    0 <= j < i ==> (#[trigger] next@[j], launches@[j]) == creature_after(
                        old(self).creatures@[j],
                        old(self).graphs@[j]@,
                        snapshot_of(old(self).creatures@),
                        group_of(old(self).creatures@, old(self).creatures@[j].kind),
                        old(self).level,
                        dt_ms as int,
                        draws@[j],
                    ),
                forall|j: int| 0 <= j < i ==> creature_wf(#[trigger] next@[j]),
                forall|j: int|
                    0 <= j < i ==> norm_sq(#[trigger] next@[j].velocity) <= effective_max_speed(
                        next@[j],
                    ) * effective_max_speed(next@[j]),
            decreases self.creatures.len() - i,
        {
            assert(creature_wf(self.creatures@[i as int]));
            assert(edges_wf(self.graphs@[i as int]@));
            assert(draw_wf(draws@[i as int]));
            let group = group_positions(&self.creatures, self.creatures[i].kind);
            let (c, l) = step_creature(
                &self.creatures[i],
                &self.graphs[i],
                &snap,
                &group,
                self.level,
                dt_ms,
                draws[i],
            );
            next.push(c);
            launches.push(l);
            i = i + 1;
        }
        self.creatures = next;
        launches
    }

    /// Runs every spawner for one tick while there is a player to hunt:
    /// exhausted spawners are removed, and the batches that finished timers
    /// ask for are returned in order. Without a player nothing happens.
    pub fn step_spawners(&mut self, dt_ms: u64) -> (r: Vec<SpawnOrder>)
        requires
            old(self).wf(),
        ensures
            final(self).wf(),
            old(self).player is None ==> *final(self) == *old(self) && r@.len() == 0,
            old(self).player is Some ==> (final(self).spawners@, r@) == spawners_after(
                old(self).spawners@,
                dt_ms as int,
            ),
            final(self).creatures == old(self).creatures,
            final(self).graphs == old(self).graphs,
            final(self).level == old(self).level,
            final(self).player == old(self).player,
            final(self).next_id == old(self).next_id,
            forall|i: int| 0 <= i < r.len() ==> within((#[trigger] r@[i]).position, COORD_LIMIT as int),
    {
        let mut orders: Vec<SpawnOrder> = Vec::new();
        if self.player.is_none() {
            return orders;
        }
        let mut kept: Vec<Spawner> = Vec::new();
        let mut i: usize = 0;
        while i < self.spawners.len()
            invariant
                old(self).wf(),
                self.spawners == old(self).spawners,
                i <= self.spawners.len(),
                (kept@, orders@) == spawners_after(self.spawners@.subrange(0, i as int), dt_ms as int),
                forall|j: int| 0 <= j < kept.len() ==> (#[trigger] kept@[j]).wf(),
                forall|j: int|
                    0 <= j < orders.len() ==> within((#[trigger] orders@[j]).position, COORD_LIMIT as int),
            decreases self.spawners.len() - i,
        {
            let ghost prefix = self.spawners@.subrange(0, i as int + 1);
            assert(prefix.drop_last() == self.spawners@.subrange(0, i as int));
            assert(prefix.last() == self.spawners@[i as int]);
            assert(self.spawners@[i as int].wf());
            let mut s = self.spawners[i];
            match s.tick(dt_ms) {
                SpawnerTick::Exhausted => {},
                SpawnerTick::Waiting => {
                    kept.push(s);
                },
                SpawnerTick::Spawn(n) => {
                    kept.push(s);
                    orders.push(SpawnOrder { enemy_type: s.enemy_type, position: s.position, count: n });
                },
            }
            i = i + 1;
        }
        assert(self.spawners@.subrange(0, self.spawners.len() as int) == self.spawners@);
        self.spawners = kept;
        orders
    }
}

/// `fin` and `launches` are what stepping every creature of `start` gives,
/// against the snapshot of `start`, creature `i` with draw `i`.
pub open spec fn stepped_from(
    start: Seq<Creature>,
    fin: Seq<Creature>,
    launches: Seq<Option<Launch>>,
    graphs: Seq<Vec<Transition>>,
    level: Option<Bounds>,
    dt_ms: int,
    draws: Seq<EntityDraw>,
) -> bool {
    &&& fin.len() == start.len()
    &&& launches.len() == start.len()
    &&& forall|i: int|
        0 <= i < start.len() ==> (#[trigger] fin[i], launches[i]) == creature_after(
            start[i],
            graphs[i]@,
            snapshot_of(start),
            group_of(start, start[i].kind),
            level,
            dt_ms,
            entity_draw_at(draws, i),
        )
}

/// The creatures that `orders` ask for, one `(kind, position)` per creature.
pub open spec fn expand_orders(orders: Seq<SpawnOrder>) -> Seq<(EnemyType, Vec2)>
    decreases orders.len(),
{
    if orders.len() == 0 {
        Seq::empty()
    } else {
        let o = orders.last();
        expand_orders(orders.drop_last()) + Seq::new(o.count as nat, |_u: int| (o.enemy_type, o.position))
    }
}

/// Expanding a prefix of the orders gives a prefix of the expansion.
proof fn lemma_expand_prefix_units(orders: Seq<SpawnOrder>, i: int, n: int)
    requires
        0 <= i <= orders.len(),
        0 <= n <= expand_orders(orders.subrange(0, i)).len(),
    ensures
        expand_orders(orders.subrange(0, i)).len() <= expand_orders(orders).len(),
        forall|q: int| 0 <= q < n ==> #[trigger] expand_orders(orders.subrange(0, i))[q] == expand_orders(orders)[q],
    decreases orders.len() - i,
{
    if i == orders.len() {
        assert(orders.subrange(0, i) =~= orders);
    } else {
        let next = orders.subrange(0, i + 1);
        assert(next.drop_last() =~= orders.subrange(0, i));
        let o = next.last();
        let e0 = expand_orders(orders.subrange(0, i));
        let e1 = expand_orders(next);
        assert(e1 == e0 + Seq::new(o.count as nat, |_u: int| (o.enemy_type, o.position)));
        assert(forall|q: int| 0 <= q < e0.len() ==> #[trigger] e0[q] == e1[q]);
        lemma_expand_prefix_units(orders, i + 1, n);
    }
}

proof fn lemma_expand_prefix_len(orders: Seq<SpawnOrder>, i: int)
    requires
        0 <= i <= orders.len(),
    ensures
        expand_orders(orders.subrange(0, i)).len() <= expand_orders(orders).len(),
{
    lemma_expand_prefix_units(orders, i, 0);
}

/// The first index from `i` on of a creature with id `id`.
pub open spec fn first_index_from(cs: Seq<Creature>, id: u64, i: int) -> Option<int>
    decreases cs.len() - i,
{
    if i < 0 || i >= cs.len() {
        None
    } else if cs[i].id == id {
        Some(i)
    } else {
        first_index_from(cs, id, i + 1)
    }
}

/// The index of the first creature with id `id`, if any.
pub open spec fn first_index(cs: Seq<Creature>, id: u64) -> Option<int> {
    first_index_from(cs, id, 0)
}

/// What a tick did besides moving creatures.
pub struct TickReport {
    /// What each creature fired, by index after the spawns.
    pub launches: Vec<Option<Launch>>,
    /// How many creatures the spawners made.
    pub spawned: usize,
}

/// The `k`-th draw, or zero where there are not that many.
pub open spec fn entity_draw_at(draws: Seq<EntityDraw>, k: int) -> EntityDraw {
    if 0 <= k < draws.len() {
        draws[k]
    } else {
        EntityDraw { steer: zero(), scatter: zero() }
    }
}

pub open spec fn spawn_draw_at(draws: Seq<SpawnDraw>, k: int) -> SpawnDraw {
    if 0 <= k < draws.len() {
        draws[k]
    } else {
        SpawnDraw {
            phase_roll: 0,
            acceleration_roll: 0,
            friction_roll: 0,
            speed_roll: 0,
            inner_roll: 0,
            outer_roll: 0,
        }
    }
}

impl World {
    /// The index of the creature with id `id`, if it is alive.
    pub fn find(&self, id: u64) -> (r: Option<usize>)
        ensures
            r matches Some(i) ==> i < self.creatures.len() && self.creatures@[i as int].id == id
                && forall|j: int| 0 <= j < i ==> self.creatures@[j].id != id,
            r is None ==> forall|j: int| 0 <= j < self.creatures.len() ==> self.creatures@[j].id != id,
            r matches Some(i) ==> first_index(self.creatures@, id) == Some(i as int),
            r is None ==> first_index(self.creatures@, id) is None,
    {
        let mut i: usize = 0;
        while i < self.creatures.len()
            invariant
                i <= self.creatures.len(),
                forall|j: int| 0 <= j < i ==> self.creatures@[j].id != id,
                first_index(self.creatures@, id) == first_index_from(self.creatures@, id, i as int),
            decreases self.creatures.len() - i,
        {
            if self.creatures[i].id == id {
                return Some(i);
            }
            i = i + 1;
        }
        None
    }

    /// Removes a creature, as the combat system does when it dies; returns
    /// whether it was there. Once the player is gone, spawners stop.
    pub fn remove(&mut self, id: u64) -> (removed: bool)
        requires
            old(self).wf(),
        ensures
            final(self).wf(),
            match first_index(old(self).creatures@, id) {
                Some(i) => removed && final(self).creatures@ == old(self).creatures@.remove(i)
                    && final(self).graphs@ == old(self).graphs@.remove(i),
                None => !removed && final(self).creatures@ == old(self).creatures@
                    && final(self).graphs@ == old(self).graphs@,
            },
            final(self).level == old(self).level,
            final(self).spawners == old(self).spawners,
            final(self).player == (if old(self).player == Some(id) {
                None
            } else {
                old(self).player
            }),
            final(self).next_id == old(self).next_id,
    {
        if self.player == Some(id) {
            self.player = None;
        }
        match self.find(id) {
            Some(i) => {
                self.creatures.remove(i);
                self.graphs.remove(i);
                assert(forall|j: int| 0 <= j < self.creatures.len() ==> creature_wf(#[trigger] self.creatures@[j])) by {
                    assert(forall|j: int| 0 <= j < self.creatures.len() ==> self.creatures@[j] == old(self).creatures@[if j < i { j } else { j + 1 }]);
                }
                assert(forall|j: int| 0 <= j < self.graphs.len() ==> edges_wf(#[trigger] self.graphs@[j]@)) by {
                    assert(forall|j: int| 0 <= j < self.graphs.len() ==> self.graphs@[j] == old(self).graphs@[if j < i { j } else { j + 1 }]);
                }
                true
            },
            None => false,
        }
    }

    /// The combat system's hit: sets the velocity once and suspends steering
    /// for `duration_ms`. Returns whether the creature was there.
    pub fn apply_knockback(&mut self, id: u64, velocity: Vec2, duration_ms: u64) -> (hit: bool)
        requires
            old(self).wf(),
            within(velocity, SPEED_LIMIT as int),
        ensures
            final(self).wf(),
            match first_index(old(self).creatures@, id) {
                Some(i) => hit && final(self).creatures@ == old(self).creatures@.update(
                    i,
                    (Creature { velocity, knockback: Some(Knockback { remaining_ms: duration_ms }), ..old(self).creatures@[i] }),
                ),
                None => !hit && final(self).creatures@ == old(self).creatures@,
            },
            final(self).graphs == old(self).graphs,
            final(self).spawners == old(self).spawners,
            final(self).player == old(self).player,
            final(self).next_id == old(self).next_id,
    {
        match self.find(id) {
            Some(i) => {
                let c = self.creatures[i];
                self.creatures.set(
                    i,
                    Creature { velocity, knockback: Some(Knockback { remaining_ms: duration_ms }), ..c },
                );
                true
            },
            None => false,
        }
    }

    /// Sets or clears the speed limit that replaces a creature's own; returns
    /// whether the creature was there.
    pub fn set_speed_override(&mut self, id: u64, limit: Option<i64>) -> (found: bool)
        requires
            old(self).wf(),
            limit matches Some(s) ==> speed_ok(s as int),
        ensures
            final(self).wf(),
            match first_index(old(self).creatures@, id) {
                Some(i) => found && final(self).creatures@ == old(self).creatures@.update(
                    i,
                    (Creature { speed_override: limit, ..old(self).creatures@[i] }),
                ),
                None => !found && final(self).creatures@ == old(self).creatures@,
            },
            final(self).graphs == old(self).graphs,
            final(self).spawners == old(self).spawners,
            final(self).player == old(self).player,
    {
        match self.find(id) {
            Some(i) => {
                let c = self.creatures[i];
                self.creatures.set(i, Creature { speed_override: limit, ..c });
                true
            },
            None => false,
        }
    }

    /// Hands a creature the input direction it accelerates in from now on,
    /// putting it in the `Controlled` state; returns whether it was there.
    pub fn set_input(&mut self, id: u64, input: Vec2) -> (found: bool)
        requires
            old(self).wf(),
            within(input, JITTER_LIMIT as int),
        ensures
            final(self).wf(),
            match first_index(old(self).creatures@, id) {
                Some(i) => found && final(self).creatures@ == old(self).creatures@.update(
                    i,
                    (Creature { state: BehaviourState::Controlled(input), ..old(self).creatures@[i] }),
                ),
                None => !found && final(self).creatures@ == old(self).creatures@,
            },
            final(self).graphs == old(self).graphs,
            final(self).spawners == old(self).spawners,
            final(self).player == old(self).player,
    {
        match self.find(id) {
            Some(i) => {
                let c = self.creatures[i];
                self.creatures.set(i, Creature { state: BehaviourState::Controlled(input), ..c });
                true
            },
            None => false,
        }
    }

    /// Sets a creature's velocity outright; returns whether the creature was
    /// there.
    pub fn set_velocity(&mut self, id: u64, velocity: Vec2) -> (found: bool)
        requires
            old(self).wf(),
            within(velocity, SPEED_LIMIT as int),
        ensures
            final(self).wf(),
            match first_index(old(self).creatures@, id) {
                Some(i) => found && final(self).creatures@ == old(self).creatures@.update(
                    i,
                    (Creature { velocity, ..old(self).creatures@[i] }),
                ),
                None => !found && final(self).creatures@ == old(self).creatures@,
            },
            final(self).graphs == old(self).graphs,
            final(self).spawners == old(self).spawners,
            final(self).player == old(self).player,
    {
        match self.find(id) {
            Some(i) => {
                let c = self.creatures[i];
                self.creatures.set(i, Creature { velocity, ..c });
                true
            },
            None => false,
        }
    }

    /// Makes the creatures that `orders` ask for, hunting the player, the `k`-th
    /// with the `k`-th draw; stops early only when ids run out. Returns how many
    /// were made.
    pub fn fulfil(&mut self, orders: &Vec<SpawnOrder>, draws: &Vec<SpawnDraw>) -> (made: usize)
        requires
            old(self).wf(),
            forall|i: int| 0 <= i < orders.len() ==> within((#[trigger] orders@[i]).position, COORD_LIMIT as int),
        ensures
            final(self).wf(),
            final(self).creatures.len() == old(self).creatures.len() + made,
            forall|j: int| 0 <= j < old(self).creatures.len() ==> #[trigger] final(self).creatures@[j] == old(self).creatures@[j],
            forall|j: int| 0 <= j < old(self).graphs.len() ==> #[trigger] final(self).graphs@[j] == old(self).graphs@[j],
            old(self).player matches Some(p) ==> {
                &&& made <= expand_orders(orders@).len()
                &&& (made < expand_orders(orders@).len() ==> final(self).next_id == u64::MAX || made == usize::MAX)
                &&& forall|k: int| 0 <= k < made ==> #[trigger] final(self).creatures@[old(self).creatures.len() + k]
                    == enemy_creature(
                        (old(self).next_id + k) as u64,
                        expand_orders(orders@)[k].0,
                        expand_orders(orders@)[k].1,
                        spawn_draw_at(draws@, k),
                    )
            },
            old(self).player is None ==> made == 0,
            final(self).next_id == old(self).next_id + made,
            final(self).spawners == old(self).spawners,
            final(self).player == old(self).player,
            final(self).level == old(self).level,
    {
        let target = match self.player {
            Some(p) => p,
            None => {
                return 0;
            },
        };
        let ghost base = old(self).creatures.len() as int;
        let mut made: usize = 0;
        let mut i: usize = 0;
        assert(orders@.subrange(0, 0) =~= Seq::<SpawnOrder>::empty());
        while i < orders.len()
            invariant
                self.wf(),
                old(self).player == Some(target),
                old(self).wf(),
                base == old(self).creatures.len(),
                self.player == old(self).player,
                self.spawners == old(self).spawners,
                self.level == old(self).level,
                forall|o: int| 0 <= o < orders.len() ==> within((#[trigger] orders@[o]).position, COORD_LIMIT as int),
                self.creatures.len() == base + made,
                self.next_id == old(self).next_id + made,
                forall|j: int| 0 <= j < old(self).creatures.len() ==> #[trigger] self.creatures@[j] == old(self).creatures@[j],
                forall|j: int| 0 <= j < old(self).graphs.len() ==> #[trigger] self.graphs@[j] == old(self).graphs@[j],
                i <= orders.len(),
                made == expand_orders(orders@.subrange(0, i as int)).len(),
                forall|q: int| 0 <= q < made ==> #[trigger] self.creatures@[base + q] == enemy_creature(
                    (old(self).next_id + q) as u64,
                    expand_orders(orders@.subrange(0, i as int))[q].0,
                    expand_orders(orders@.subrange(0, i as int))[q].1,
                    spawn_draw_at(draws@, q),
                ),
            decreases orders.len() - i,
        {
            let order = orders[i];
            assert(within(orders@[i as int].position, COORD_LIMIT as int));
            let ghost before_units = expand_orders(orders@.subrange(0, i as int));
            let ghost next = orders@.subrange(0, i as int + 1);
            assert(next.drop_last() =~= orders@.subrange(0, i as int));
            assert(next.last() == order);
            let ghost units = expand_orders(next);
            assert(units == before_units + Seq::new(order.count as nat, |_u: int| (order.enemy_type, order.position)));
            let mut k: usize = 0;
            while k < order.count
                invariant
                    self.wf(),
                        old(self).player == Some(target),
                    old(self).wf(),
                    base == old(self).creatures.len(),
                    self.player == old(self).player,
                    self.spawners == old(self).spawners,
                    self.level == old(self).level,
                    within(order.position, COORD_LIMIT as int),
                    self.creatures.len() == base + made,
                    self.next_id == old(self).next_id + made,
                    forall|j: int| 0 <= j < old(self).creatures.len() ==> #[trigger] self.creatures@[j] == old(self).creatures@[j],
                    forall|j: int| 0 <= j < old(self).graphs.len() ==> #[trigger] self.graphs@[j] == old(self).graphs@[j],
                    k <= order.count,
                    i < orders.len(),
                    made == before_units.len() + k,
                    units == before_units + Seq::new(order.count as nat, |_u: int| (order.enemy_type, order.position)),
                    units == expand_orders(orders@.subrange(0, i as int + 1)),
                    forall|q: int| 0 <= q < made ==> #[trigger] self.creatures@[base + q] == enemy_creature(
                        (old(self).next_id + q) as u64,
                        units[q].0,
                        units[q].1,
                        spawn_draw_at(draws@, q),
                    ),
                decreases order.count - k,
            {
                if self.next_id == u64::MAX || made == usize::MAX {
                    proof {
                        lemma_expand_prefix_len(orders@, i as int + 1);
                        lemma_expand_prefix_units(orders@, i as int + 1, made as int);
                    }
                    return made;
                }
                let d = if made < draws.len() {
                    draws[made]
                } else {
                    SpawnDraw {
                        phase_roll: 0,
                        acceleration_roll: 0,
                        friction_roll: 0,
                        speed_roll: 0,
                        inner_roll: 0,
                        outer_roll: 0,
                    }
                };
                let ghost before = self.creatures@;
                let ghost before_graphs = self.graphs@;
                let id = self.spawn_enemy(order.enemy_type, order.position, target, d);
                proof {
                    let c = self.creatures@.last();
                    assert(c == enemy_creature(id, order.enemy_type, order.position, d));
                    assert(forall|j: int| 0 <= j < before.len() ==> self.creatures@[j] == before[j]);
                    assert(forall|j: int| 0 <= j < before_graphs.len() ==> self.graphs@[j] == before_graphs[j]);
                    assert(old(self).graphs.len() == old(self).creatures.len());
                    assert(units[made as int] == (order.enemy_type, order.position));
                    assert(d == spawn_draw_at(draws@, made as int));
                }
                made = made + 1;
                k = k + 1;
            }
            i = i + 1;
        }
        assert(orders@.subrange(0, orders.len() as int) =~= orders@);
        made
    }

    /// One step of at most `MAX_TICK_MS`: spawners first, then every creature
    /// against the snapshot taken after the spawns. Creature `i` uses draw `i`,
    /// the `k`-th new creature spawn draw `k`; where a draw is missing, zero
    /// stands in for it.
    pub fn step(&mut self, dt_ms: u64, draws: &Vec<EntityDraw>, spawn_draws: &Vec<SpawnDraw>) -> (r:
        TickReport)
        requires
            old(self).wf(),
            dt_ms <= MAX_TICK_MS,
            forall|i: int| 0 <= i < draws.len() ==> draw_wf(#[trigger] draws@[i]),
        ensures
            tick_result(*old(self), *final(self), r, dt_ms as int, draws@, spawn_draws@),
    {
        let ghost old_world = *self;
        let orders = self.step_spawners(dt_ms);
        let spawned = self.fulfil(&orders, spawn_draws);
        let ghost start = self.creatures@;
        let ghost units = expand_orders(spawners_after(old_world.spawners@, dt_ms as int).1);
        assert(start.subrange(0, old(self).creatures.len() as int) =~= old(self).creatures@);
        assert(spawned_start(start, old_world, spawned, units, spawn_draws@));
        let mut padded: Vec<EntityDraw> = Vec::new();
        let mut i: usize = 0;
        while i < self.creatures.len()
            invariant
                i <= self.creatures.len(),
                padded.len() == i,
                forall|j: int| 0 <= j < draws.len() ==> draw_wf(#[trigger] draws@[j]),
                forall|j: int| 0 <= j < i ==> #[trigger] padded@[j] == entity_draw_at(draws@, j),
                forall|j: int| 0 <= j < i ==> draw_wf(#[trigger] padded@[j]),
            decreases self.creatures.len() - i,
        {
            if i < draws.len() {
                padded.push(draws[i]);
            } else {
                padded.push(EntityDraw { steer: Vec2::zero(), scatter: Vec2::zero() });
            }
            i = i + 1;
        }
        let launches = self.step_creatures(dt_ms, &padded);
        assert(stepped_from(
            start,
            self.creatures@,
            launches@,
            self.graphs@,
            self.level,
            dt_ms as int,
            draws@,
        ));
        let r = TickReport { launches, spawned };
        assert(spawned_start(start, old_world, spawned, units, spawn_draws@));
        assert(stepped_from(
            start,
            self.creatures@,
            r.launches@,
            self.graphs@,
            self.level,
            dt_ms as int,
            draws@,
        ));
        r
    }

    /// Advances the world by `dt_ms`, in steps of at most `MAX_TICK_MS`, each
    /// with the same draws; returns the report of every step, in order. A tick
    /// of at most `MAX_TICK_MS` is a single step.
    pub fn tick(&mut self, dt_ms: u64, draws: &Vec<EntityDraw>, spawn_draws: &Vec<SpawnDraw>) -> (r:
        Vec<TickReport>)
        requires
            old(self).wf(),
            forall|i: int| 0 <= i < draws.len() ==> draw_wf(#[trigger] draws@[i]),
        ensures
            final(self).wf(),
            final(self).speeds_ok(),
            final(self).player == old(self).player,
            final(self).level == old(self).level,
            r.len() >= 1,
            dt_ms <= MAX_TICK_MS ==> r.len() == 1 && tick_result(
                *old(self),
                *final(self),
                r@[0],
                dt_ms as int,
                draws@,
                spawn_draws@,
            ),
    {
        let mut reports: Vec<TickReport> = Vec::new();
        if dt_ms <= MAX_TICK_MS {
            let r = self.step(dt_ms, draws, spawn_draws);
            reports.push(r);
            return reports;
        }
        let first = self.step(MAX_TICK_MS, draws, spawn_draws);
        reports.push(first);
        let mut left: u64 = dt_ms - MAX_TICK_MS;
        while left > 0
            invariant
                self.wf(),
                self.speeds_ok(),
                self.player == old(self).player,
                self.level == old(self).level,
                reports.len() >= 1,
                forall|i: int| 0 <= i < draws.len() ==> draw_wf(#[trigger] draws@[i]),
            decreases left,
        {
            let d = if left < MAX_TICK_MS {
                left
            } else {
                MAX_TICK_MS
            };
            let r = self.step(d, draws, spawn_draws);
            reports.push(r);
            left = left - d;
        }
        reports
    }
}

/// `start` is the world's creatures once a step's spawns are in: the old
/// creatures, then `made` new ones, the `k`-th the enemy for order unit `k`.
pub open spec fn spawned_start(
    start: Seq<Creature>,
    old: World,
    made: usize,
    units: Seq<(EnemyType, Vec2)>,
    spawn_draws: Seq<SpawnDraw>,
) -> bool {
    &&& start.len() == old.creatures.len() + made
    &&& start.subrange(0, old.creatures.len() as int) == old.creatures@
    &&& forall|k: int|
        0 <= k < made ==> #[trigger] start[old.creatures.len() + k] == enemy_creature(
            (old.next_id + k) as u64,
            units[k].0,
            units[k].1,
            spawn_draw_at(spawn_draws, k),
        )
}

/// What one step of `dt_ms` does, of the world before (`old`) and after
/// (`fin`) and its report: spawners tick while there is a player, they make
/// every creature their orders ask for unless ids run out, and every creature,
/// old and new, then moves as `creature_after` says.
pub open spec fn tick_result(
    old: World,
    fin: World,
    r: TickReport,
    dt_ms: int,
    draws: Seq<EntityDraw>,
    spawn_draws: Seq<SpawnDraw>,
) -> bool {
    let units = expand_orders(spawners_after(old.spawners@, dt_ms).1);
    &&& fin.wf()
    &&& fin.speeds_ok()
    &&& fin.creatures.len() == old.creatures.len() + r.spawned
    &&& fin.player == old.player
    &&& fin.level == old.level
    &&& fin.next_id == old.next_id + r.spawned
    &&& (old.player is None ==> r.spawned == 0 && fin.spawners == old.spawners)
    &&& (old.player is Some ==> {
        &&& fin.spawners@ == spawners_after(old.spawners@, dt_ms).0
        &&& r.spawned <= units.len()
        &&& (r.spawned < units.len() ==> fin.next_id == u64::MAX || r.spawned == usize::MAX)
    })
    &&& exists|start: Seq<Creature>|
        #[trigger] spawned_start(start, old, r.spawned, units, spawn_draws) && stepped_from(
            start,
            fin.creatures@,
            r.launches@,
            fin.graphs@,
            fin.level,
            dt_ms,
            draws,
        )
}


pub open spec fn player_creature(id: u64, position: Vec2, motion: MotionParams) -> Creature {
    Creature {
        id,
        kind: CreatureKind::Player,
        position,
        velocity: zero(),
        motion,
        state: BehaviourState::Controlled(zero()),
        separation: None,
        knockback: None,
        speed_override: None,
        margin: Vec2 { x: (32 * PIXEL) as i64, y: (64 * PIXEL) as i64 },
        clock: Countdown { period_ms: 1000, elapsed_ms: 0 },
    }
}

pub open spec fn enemy_creature(id: u64, kind: EnemyType, position: Vec2, d: SpawnDraw) -> Creature {
    Creature {
        id,
        kind: CreatureKind::Enemy(kind),
        position,
        velocity: zero(),
        motion: crate::archetype::spec_motion(kind, d),
        state: BehaviourState::Idle,
        separation: Some(crate::archetype::spec_separation(kind)),
        knockback: None,
        speed_override: None,
        margin: Vec2 { x: (32 * PIXEL) as i64, y: (64 * PIXEL) as i64 },
        clock: Countdown {
            period_ms: crate::archetype::spec_frame_period(kind),
            elapsed_ms: ((d.phase_roll as int % (MAX_PHASE_MS + 1)) % (
            crate::archetype::spec_frame_period(kind) as int)) as u64,
        },
    }
}

} // verus!
