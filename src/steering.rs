//! Steering: what acceleration a creature adds to its velocity this tick.
//!
//! Each function returns a change of velocity, not a new velocity. Random
//! directions come in as arguments (`jitter`), so the result is a function of
//! the arguments alone.
use vstd::prelude::*;
use crate::motion::{per_tick, per_tick_amount, trunc_div, COORD_LIMIT, SPEED_LIMIT};
use crate::vector::{
    abs, dist_sq, dot, is_scaled_copy, lemma_norm_sq_zero, lemma_scaled_vec, norm_sq, scaled_vec,
    within, zero, Vec2, VEC_LIMIT,
};

verus! {

/// Length of the unit vectors that steering adds up.
pub const UNIT_LENGTH: i64 = 1_000_000;

/// Largest magnitude of a component of a random direction.
pub const JITTER_LIMIT: i64 = 1_000_000;

/// Distance from the creature at which a fresh wander node is placed (16 pixels).
pub const WANDER_STEP: i64 = 16_000;

/// A wander node closer than this (2 pixels) counts as reached.
pub const WANDER_ARRIVAL: i64 = 2_000;

/// Largest distance that a steering threshold can be set to.
pub const DISTANCE_LIMIT: i64 = 2_000_000_000;

pub open spec fn vec_sub(a: Vec2, b: Vec2) -> Vec2 {
    Vec2 { x: (a.x - b.x) as i64, y: (a.y - b.y) as i64 }
}

pub open spec fn vec_add(a: Vec2, b: Vec2) -> Vec2 {
    Vec2 { x: (a.x + b.x) as i64, y: (a.y + b.y) as i64 }
}

/// Which of the three rules of approach-and-keep-distance applies at squared
/// distance `d2`.
#[derive(Clone, Copy, Debug, PartialEq, Eq, Structural)]
pub enum Band {
    /// Farther than the outer distance: close in.
    Approach,
    /// Nearer than the inner distance, but not on the target: back off.
    Retreat,
    /// In between, or on the target: drift.
    Orbit,
}

pub open spec fn band_of(d2: int, inner: int, outer: int) -> Band {
    if d2 > outer * outer {
        Band::Approach
    } else if 0 < d2 && d2 < inner * inner {
        Band::Retreat
    } else {
        Band::Orbit
    }
}

/// The drift direction in the orbit band: a random direction bent towards the
/// current velocity.
pub open spec fn orbit_direction(jitter: Vec2, velocity: Vec2) -> Vec2 {
    vec_add(scaled_vec(jitter, UNIT_LENGTH as int), scaled_vec(velocity, UNIT_LENGTH as int))
}

/// `v`, or a fixed direction along the x axis where `v` is zero: random
/// directions go through this, so that a drawn zero still gives a direction.
pub open spec fn or_east(v: Vec2) -> Vec2 {
    if v == zero() {
        Vec2 { x: UNIT_LENGTH as i64, y: 0 }
    } else {
        v
    }
}

/// The direction drifted in within the orbit band: the random direction bent
/// towards the velocity, or the random direction alone where the two cancel.
pub open spec fn drift_direction(jitter: Vec2, velocity: Vec2) -> Vec2 {
    let o = orbit_direction(jitter, velocity);
    if o == zero() {
        or_east(jitter)
    } else {
        o
    }
}

fn or_east_of(v: Vec2) -> (r: Vec2)
    requires
        within(v, JITTER_LIMIT as int),
    ensures
        r == or_east(v),
        r != zero(),
        within(r, JITTER_LIMIT as int),
{
    if v.is_zero() {
        Vec2 { x: UNIT_LENGTH, y: 0 }
    } else {
        v
    }
}

/// The acceleration of approach-and-keep-distance, of length `m`.
pub open spec fn approach_acceleration(
    pos: Vec2,
    target: Option<Vec2>,
    inner: int,
    outer: int,
    velocity: Vec2,
    m: int,
    jitter: Vec2,
) -> Vec2 {
    match target {
        None => zero(),
        Some(t) => {
            let d = vec_sub(t, pos);
            match band_of(norm_sq(d), inner, outer) {
                Band::Approach => scaled_vec(d, m),
                Band::Retreat => scaled_vec(vec_sub(pos, t), m),
                Band::Orbit => scaled_vec(drift_direction(jitter, velocity), m),
            }
        },
    }
}

pub open spec fn steering_inputs_ok(pos: Vec2, velocity: Vec2, jitter: Vec2) -> bool {
    within(pos, COORD_LIMIT as int) && within(velocity, VEC_LIMIT as int) && within(
        jitter,
        JITTER_LIMIT as int,
    )
}

/// Accelerates towards the target when farther than `outer`, away from it when
/// nearer than `inner`, and in a random direction bent towards the current
/// velocity in between. The length is `accel * dt`, rounded; without a target
/// the result is zero.
pub fn approach_and_keep_distance(
    pos: Vec2,
    accel: i64,
    target: Option<Vec2>,
    inner: i64,
    outer: i64,
    velocity: Vec2,
    dt_ms: u64,
    jitter: Vec2,
) -> (r: Vec2)
    requires
        steering_inputs_ok(pos, velocity, jitter),
        target matches Some(t) ==> within(t, COORD_LIMIT as int),
        0 <= accel <= SPEED_LIMIT,
        per_tick(accel as int, dt_ms as int) <= SPEED_LIMIT,
        0 <= inner <= DISTANCE_LIMIT,
        0 <= outer <= DISTANCE_LIMIT,
    ensures
        r == approach_acceleration(
            pos,
            target,
            inner as int,
            outer as int,
            velocity,
            per_tick(accel as int, dt_ms as int),
            jitter,
        ),
        norm_sq(r) <= per_tick(accel as int, dt_ms as int) * per_tick(accel as int, dt_ms as int),
        within(r, SPEED_LIMIT as int),
        target matches Some(t) ==> approach_facts(
            pos,
            t,
            inner as int,
            outer as int,
            velocity,
            per_tick(accel as int, dt_ms as int),
            jitter,
        ),
{
    let m = per_tick_amount(accel, dt_ms);
    let r = match target {
        None => Vec2::zero(),
        Some(t) => {
            let d = t.minus(pos);
            let d2 = d.length_sq();
            let o2 = square_distance(outer);
            let i2 = square_distance(inner);
            if d2 > o2 {
                d.scaled(m)
            } else if 0 < d2 && d2 < i2 {
                pos.minus(t).scaled(m)
            } else {
                let w = jitter.scaled(UNIT_LENGTH).plus(velocity.scaled(UNIT_LENGTH));
                let dir = if w.is_zero() {
                    or_east_of(jitter)
                } else {
                    w
                };
                dir.scaled(m)
            }
        },
    };
    proof {
        lemma_steer_bounded(r, m as int);
        if let Some(t) = target {
            lemma_approach_bands(pos, t, inner as int, outer as int, velocity, m as int, jitter);
        }
    }
    r
}

fn square_distance(a: i64) -> (r: u128)
    requires
        0 <= a <= DISTANCE_LIMIT,
    ensures
        r == a * a,
{
    assert((a as u128) * (a as u128) <= DISTANCE_LIMIT * DISTANCE_LIMIT) by (nonlinear_arith)
        requires
            0 <= a <= DISTANCE_LIMIT,
    ;
    (a as u128) * (a as u128)
}

/// A vector no longer than `m` has components no larger than `m`.
proof fn lemma_steer_bounded(r: Vec2, m: int)
    requires
        0 <= m,
        norm_sq(r) <= m * m,
    ensures
        within(r, m),
{
    assert(within(r, m)) by (nonlinear_arith)
        requires
            r.x * r.x + r.y * r.y <= m * m,
            0 <= m,
    ;
}

/// A rounded scaling of a nonzero vector `d` to a length of at least two
/// points along `d`.
proof fn lemma_scaled_points_along(d: Vec2, m: int)
    requires
        norm_sq(d) > 0,
        2 <= m <= VEC_LIMIT,
    ensures
        dot(scaled_vec(d, m), d) > 0,
        is_scaled_copy(scaled_vec(d, m), d, m),
{
    lemma_scaled_vec(d, m);
    let r = scaled_vec(d, m);
    if r.x == 0 && r.y == 0 {
        let a = abs(r.x as int);
        let b = abs(r.y as int);
        assert(a == 0 && b == 0);
        assert(false) by (nonlinear_arith)
            requires
                a == 0,
                b == 0,
                (a + 1) * (a + 1) + (b + 1) * (b + 1) > m * m,
                m >= 2,
        ;
    }
    if r.x != 0 {
        assert(r.x * d.x > 0) by (nonlinear_arith)
            requires
                r.x != 0,
                d.x != 0,
                r.x * d.x >= 0,
        ;
    }
    if r.y != 0 {
        assert(r.y * d.y > 0) by (nonlinear_arith)
            requires
                r.y != 0,
                d.y != 0,
                r.y * d.y >= 0,
        ;
    }
}

/// What approach-and-keep-distance does around a target `t`: beyond the outer
/// distance it points towards `t`, inside the inner distance away from it (for
/// a length `m` of at least two units), and in every band its length is `m` up
/// to rounding, in the orbit band along the drift direction.
pub open spec fn approach_facts(
    pos: Vec2,
    t: Vec2,
    inner: int,
    outer: int,
    velocity: Vec2,
    m: int,
    jitter: Vec2,
) -> bool {
    let r = approach_acceleration(pos, Some(t), inner, outer, velocity, m, jitter);
    let d = vec_sub(t, pos);
    let d2 = dist_sq(t, pos);
    &&& d2 > outer * outer ==> is_scaled_copy(r, d, m) && (m >= 2 ==> dot(r, d) > 0)
    &&& 0 < d2 < inner * inner && d2 <= outer * outer ==> is_scaled_copy(r, vec_sub(pos, t), m)
        && (m >= 2 ==> dot(r, d) < 0)
    &&& band_of(d2, inner, outer) == Band::Orbit ==> drift_direction(jitter, velocity) != zero()
        && is_scaled_copy(r, drift_direction(jitter, velocity), m)
    &&& norm_sq(r) <= m * m
}

/// Approach-and-keep-distance points towards a target beyond the outer
/// distance and away from one inside the inner distance; in every band its
/// length is the per-tick acceleration, up to rounding.
pub proof fn lemma_approach_bands(
    pos: Vec2,
    t: Vec2,
    inner: int,
    outer: int,
    velocity: Vec2,
    m: int,
    jitter: Vec2,
)
    requires
        steering_inputs_ok(pos, velocity, jitter),
        within(t, COORD_LIMIT as int),
        0 <= inner,
        0 <= outer,
        0 <= m <= SPEED_LIMIT,
    ensures
        approach_facts(pos, t, inner, outer, velocity, m, jitter),
{
    let d = vec_sub(t, pos);
    let e = vec_sub(pos, t);
    let r = approach_acceleration(pos, Some(t), inner, outer, velocity, m, jitter);
    assert(norm_sq(d) == dist_sq(t, pos));
    lemma_norm_sq_zero(d);
    lemma_norm_sq_zero(e);
    assert(norm_sq(e) == norm_sq(d)) by (nonlinear_arith)
        requires
            e.x == -d.x,
            e.y == -d.y,
    ;
    if norm_sq(d) > 0 {
        lemma_scaled_vec(d, m);
        lemma_scaled_vec(e, m);
        if m >= 2 {
            lemma_scaled_points_along(d, m);
            lemma_scaled_points_along(e, m);
        }
        assert(dot(scaled_vec(e, m), d) == -dot(scaled_vec(e, m), e)) by (nonlinear_arith)
            requires
                e.x == -d.x,
                e.y == -d.y,
        ;
    }
    let o = drift_direction(jitter, velocity);
    lemma_norm_sq_zero(o);
    lemma_norm_sq_zero(jitter);
    lemma_scaled_vec(o, m);
    if norm_sq(d) == 0 {
        assert(r == scaled_vec(o, m));
    }
    assert(0 <= m * m) by (nonlinear_arith);
}

/// Where a wanderer heads: its node while that is not yet reached, otherwise a
/// fresh node `WANDER_STEP` away in the random direction.
pub open spec fn wander_target(pos: Vec2, node: Option<Vec2>, jitter: Vec2) -> Vec2 {
    match node {
        Some(n) if dist_sq(pos, n) >= WANDER_ARRIVAL * WANDER_ARRIVAL => n,
        _ => vec_add(pos, scaled_vec(or_east(jitter), WANDER_STEP as int)),
    }
}

/// Largest magnitude of a component of a wander node.
pub open spec fn node_limit() -> int {
    COORD_LIMIT + WANDER_STEP
}

/// The point a wandering creature is walking to; `None` until it picks one.
#[derive(Clone, Copy, Debug, PartialEq, Eq, Structural)]
pub struct WanderState {
    pub node: Option<Vec2>,
}

impl WanderState {
    pub open spec fn wf(&self) -> bool {
        self.node matches Some(n) ==> within(n, node_limit())
    }

    pub fn new() -> (r: WanderState)
        ensures
            r.node is None,
    {
        WanderState { node: None }
    }
}

/// Steers towards the wander node, replacing the node first where there is none
/// or it has been reached.
pub fn wander(pos: Vec2, accel: i64, state: &mut WanderState, dt_ms: u64, jitter: Vec2) -> (r:
    Vec2)
    requires
        old(state).wf(),
        within(pos, COORD_LIMIT as int),
        within(jitter, JITTER_LIMIT as int),
        0 <= accel <= SPEED_LIMIT,
        per_tick(accel as int, dt_ms as int) <= SPEED_LIMIT,
    ensures
        final(state).node == Some(wander_target(pos, old(state).node, jitter)),
        needs_new_node(pos, old(state).node) ==> is_scaled_copy(
            vec_sub(wander_target(pos, old(state).node, jitter), pos),
            or_east(jitter),
            WANDER_STEP as int,
        ),
        final(state).wf(),
        r == scaled_vec(
            vec_sub(wander_target(pos, old(state).node, jitter), pos),
            per_tick(accel as int, dt_ms as int),
        ),
        within(r, SPEED_LIMIT as int),
{
    let m = per_tick_amount(accel, dt_ms);
    let step = or_east_of(jitter).scaled(WANDER_STEP);
    proof {
        lemma_wander_renews(pos, None, jitter);
    }
    let fresh = pos.plus(step);
    let node = match state.node {
        Some(n) => {
            let d2 = pos.minus(n).length_sq();
            if d2 >= square_distance(WANDER_ARRIVAL) {
                n
            } else {
                fresh
            }
        },
        None => fresh,
    };
    state.node = Some(node);
    let r = node.minus(pos).scaled(m);
    proof {
        lemma_steer_bounded(r, m as int);
        lemma_wander_renews(pos, old(state).node, jitter);
    }
    r
}

/// The wanderer has no node, or has reached it.
pub open spec fn needs_new_node(pos: Vec2, node: Option<Vec2>) -> bool {
    match node {
        Some(n) => dist_sq(pos, n) < WANDER_ARRIVAL * WANDER_ARRIVAL,
        None => true,
    }
}

/// A wanderer that has reached its node, or has none, gets a fresh node about
/// `WANDER_STEP` away: no farther, and short of it by under a unit in each
/// component.
pub proof fn lemma_wander_renews(pos: Vec2, node: Option<Vec2>, jitter: Vec2)
    requires
        within(pos, COORD_LIMIT as int),
        within(jitter, JITTER_LIMIT as int),
    ensures
        needs_new_node(pos, node) ==> is_scaled_copy(
            vec_sub(wander_target(pos, node, jitter), pos),
            or_east(jitter),
            WANDER_STEP as int,
        ),
        within(scaled_vec(or_east(jitter), WANDER_STEP as int), WANDER_STEP as int),
{
    let dir = or_east(jitter);
    lemma_norm_sq_zero(dir);
    lemma_scaled_vec(dir, WANDER_STEP as int);
    let s = scaled_vec(dir, WANDER_STEP as int);
    assert(vec_sub(vec_add(pos, s), pos) == s);
}

/// `q` is a neighbour that pushes a creature at `p` away: another position,
/// nearer than `radius`.
pub open spec fn pushes_away(p: Vec2, q: Vec2, radius: int) -> bool {
    q != p && dist_sq(p, q) < radius * radius
}

/// Sum of the unit vectors pointing from each neighbour in `qs` to `p`, and the
/// number of neighbours.
pub open spec fn away_sum(p: Vec2, radius: int, qs: Seq<Vec2>) -> (int, int, int)
    decreases qs.len(),
{
    if qs.len() == 0 {
        (0, 0, 0)
    } else {
        let (sx, sy, c) = away_sum(p, radius, qs.drop_last());
        let q = qs.last();
        if pushes_away(p, q, radius) {
            let u = scaled_vec(vec_sub(p, q), UNIT_LENGTH as int);
            (sx + u.x, sy + u.y, c + 1)
        } else {
            (sx, sy, c)
        }
    }
}

/// The average push direction, or the random direction where no neighbour pushes.
pub open spec fn separation_direction(p: Vec2, radius: int, qs: Seq<Vec2>, jitter: Vec2) -> Vec2 {
    let (sx, sy, c) = away_sum(p, radius, qs);
    if c == 0 {
        or_east(jitter)
    } else {
        Vec2 { x: trunc_div(sx, c) as i64, y: trunc_div(sy, c) as i64 }
    }
}

pub open spec fn separation_steer(
    p: Vec2,
    radius: int,
    force: int,
    qs: Seq<Vec2>,
    jitter: Vec2,
) -> Vec2 {
    scaled_vec(separation_direction(p, radius, qs, jitter), force)
}

pub open spec fn positions_ok(qs: Seq<Vec2>) -> bool {
    forall|i: int| 0 <= i < qs.len() ==> within(#[trigger] qs[i], COORD_LIMIT as int)
}

proof fn lemma_away_sum_bounds(p: Vec2, radius: int, qs: Seq<Vec2>)
    requires
        within(p, COORD_LIMIT as int),
        positions_ok(qs),
    ensures
        ({
            let (sx, sy, c) = away_sum(p, radius, qs);
            0 <= c <= qs.len() && abs(sx) <= c * UNIT_LENGTH && abs(sy) <= c * UNIT_LENGTH
        }),
    decreases qs.len(),
{
    if qs.len() > 0 {
        let init = qs.drop_last();
        assert forall|i: int| 0 <= i < init.len() implies within(
            #[trigger] init[i],
            COORD_LIMIT as int,
        ) by {
            assert(init[i] == qs[i]);
        }
        lemma_away_sum_bounds(p, radius, init);
        let q = qs.last();
        assert(within(q, COORD_LIMIT as int)) by {
            assert(q == qs[qs.len() - 1]);
        }
        let d = vec_sub(p, q);
        lemma_norm_sq_zero(d);
        if norm_sq(d) > 0 {
            lemma_scaled_vec(d, UNIT_LENGTH as int);
        }
    }
}

/// Where no neighbour is within the radius, the sum is empty.
pub proof fn lemma_no_neighbours(p: Vec2, radius: int, qs: Seq<Vec2>)
    requires
        forall|i: int| 0 <= i < qs.len() ==> !pushes_away(p, #[trigger] qs[i], radius),
    ensures
        away_sum(p, radius, qs) == (0int, 0int, 0int),
    decreases qs.len(),
{
    if qs.len() > 0 {
        let init = qs.drop_last();
        assert forall|i: int| 0 <= i < init.len() implies !pushes_away(
            p,
            #[trigger] init[i],
            radius,
        ) by {
            assert(init[i] == qs[i]);
        }
        lemma_no_neighbours(p, radius, init);
        assert(!pushes_away(p, qs[qs.len() - 1], radius));
    }
}

/// With no neighbour within the radius, separation still pushes: in the random
/// direction (or along the x axis where that is zero), with length `force` up
/// to rounding, and never zero for a force of two units or more.
pub proof fn lemma_separation_fallback(
    p: Vec2,
    radius: int,
    force: int,
    qs: Seq<Vec2>,
    jitter: Vec2,
)
    requires
        forall|i: int| 0 <= i < qs.len() ==> !pushes_away(p, #[trigger] qs[i], radius),
        within(jitter, JITTER_LIMIT as int),
        0 <= force <= SPEED_LIMIT,
    ensures
        away_sum(p, radius, qs).2 == 0,
        is_scaled_copy(separation_steer(p, radius, force, qs, jitter), or_east(jitter), force),
        force >= 2 ==> separation_steer(p, radius, force, qs, jitter) != zero(),
{
    lemma_no_neighbours(p, radius, qs);
    lemma_lonely_push(p, radius, force, qs, jitter);
}

proof fn lemma_lonely_push(p: Vec2, radius: int, force: int, qs: Seq<Vec2>, jitter: Vec2)
    requires
        away_sum(p, radius, qs).2 == 0,
        0 <= force <= SPEED_LIMIT,
    ensures
        is_scaled_copy(separation_steer(p, radius, force, qs, jitter), or_east(jitter), force),
        force >= 2 ==> separation_steer(p, radius, force, qs, jitter) != zero(),
{
    let dir = or_east(jitter);
    lemma_norm_sq_zero(dir);
    lemma_scaled_vec(dir, force);
    if force >= 2 {
        lemma_scaled_points_along(dir, force);
        let r = scaled_vec(dir, force);
        if r == zero() {
            assert(dot(r, dir) == 0);
        }
    }
}

/// The sum of unit vectors pointing away from every neighbour within `radius`
/// (positions equal to `pos` are not neighbours), and their number.
pub fn away_total(pos: Vec2, radius: i64, positions: &Vec<Vec2>) -> (r: (i128, i128, usize))
    requires
        within(pos, COORD_LIMIT as int),
        positions_ok(positions@),
        0 <= radius <= DISTANCE_LIMIT,
    ensures
        (r.0 as int, r.1 as int, r.2 as int) == away_sum(pos, radius as int, positions@),
        abs(r.0 as int) <= r.2 * UNIT_LENGTH,
        abs(r.1 as int) <= r.2 * UNIT_LENGTH,
{
    let mut sx: i128 = 0;
    let mut sy: i128 = 0;
    let mut c: usize = 0;
    let r2 = square_distance(radius);
    let mut i: usize = 0;
    while i < positions.len()
        invariant
            within(pos, COORD_LIMIT as int),
            positions_ok(positions@),
            r2 == radius * radius,
            0 <= i <= positions.len(),
            (sx as int, sy as int, c as int) == away_sum(
                pos,
                radius as int,
                positions@.subrange(0, i as int),
            ),
            c <= i,
            abs(sx as int) <= c * UNIT_LENGTH,
            abs(sy as int) <= c * UNIT_LENGTH,
        decreases positions.len() - i,
    {
        let q = positions[i];
        assert(within(q, COORD_LIMIT as int));
        let d = pos.minus(q);
        let ghost prefix = positions@.subrange(0, i as int + 1);
        assert(prefix.drop_last() == positions@.subrange(0, i as int));
        assert(prefix.last() == q);
        if q != pos && d.length_sq() < r2 {
            let u = d.scaled(UNIT_LENGTH);
            proof {
                lemma_norm_sq_zero(d);
                if norm_sq(d) > 0 {
                    lemma_scaled_vec(d, UNIT_LENGTH as int);
                }
                assert(c * UNIT_LENGTH + UNIT_LENGTH <= (usize::MAX as int) * UNIT_LENGTH)
                    by (nonlinear_arith)
                    requires
                        c < usize::MAX,
                ;
            }
            sx = sx + u.x as i128;
            sy = sy + u.y as i128;
            c = c + 1;
        }
        i = i + 1;
    }
    assert(positions@.subrange(0, positions.len() as int) == positions@);
    (sx, sy, c)
}

fn average_component(s: i128, c: usize) -> (r: i64)
    requires
        c > 0,
        abs(s as int) <= c * UNIT_LENGTH,
    ensures
        r == trunc_div(s as int, c as int),
        -UNIT_LENGTH <= r <= UNIT_LENGTH,
{
    let cc = c as u128;
    let a: u128 = if s >= 0 {
        s as u128
    } else {
        (-s) as u128
    };
    assert(a / cc <= UNIT_LENGTH) by (nonlinear_arith)
        requires
            0 <= a <= cc * UNIT_LENGTH,
            cc > 0,
    ;
    let q = (a / cc) as i64;
    if s >= 0 {
        q
    } else {
        -q
    }
}

/// Averages the unit vectors pointing away from every neighbour within
/// `radius`, or takes the random direction where there is none, and gives the
/// result length `force`.
pub fn separate(pos: Vec2, radius: i64, force: i64, positions: &Vec<Vec2>, jitter: Vec2) -> (r:
    Vec2)
    requires
        within(pos, COORD_LIMIT as int),
        within(jitter, JITTER_LIMIT as int),
        positions_ok(positions@),
        0 <= radius <= DISTANCE_LIMIT,
        0 <= force <= SPEED_LIMIT,
    ensures
        r == separation_steer(pos, radius as int, force as int, positions@, jitter),
        norm_sq(r) <= force * force,
        within(r, SPEED_LIMIT as int),
        away_sum(pos, radius as int, positions@).2 == 0 ==> is_scaled_copy(
            r,
            or_east(jitter),
            force as int,
        ) && (force >= 2 ==> r != zero()),
{
    let (sx, sy, c) = away_total(pos, radius, positions);
    let dir = if c == 0 {
        or_east_of(jitter)
    } else {
        Vec2 { x: average_component(sx, c), y: average_component(sy, c) }
    };
    let r = dir.scaled(force);
    proof {
        lemma_norm_sq_zero(dir);
        if norm_sq(dir) > 0 {
            lemma_scaled_vec(dir, force as int);
        }
        lemma_steer_bounded(r, force as int);
        if c == 0 {
            lemma_lonely_push(pos, radius as int, force as int, positions@, jitter);
        }
    }
    r
}

} // verus!
