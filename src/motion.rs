//! The motion integrator: friction, the speed limit, moving by the velocity,
//! and keeping positions inside the level and the world.
use vstd::prelude::*;
use crate::vector::{
    abs, floor_sqrt, lemma_floor_sqrt_exists, lemma_norm_sq_zero, lemma_scaled_vec, norm_sq,
    scaled_vec, within, zero, Vec2, MAG_LIMIT, VEC_LIMIT,
};

verus! {

/// Largest magnitude of a position component.
pub const COORD_LIMIT: i64 = 1_000_000_000;

/// Largest magnitude of a velocity component, and largest rate a creature can
/// be configured with (units per second, or per second squared).
pub const SPEED_LIMIT: i64 = 1_000_000_000;

/// Longest tick, in milliseconds.
pub const MAX_TICK_MS: u64 = 1000;

/// A configuration value that a creature or a spawner cannot be built with.
#[derive(Clone, Copy, Debug, PartialEq, Eq, Structural)]
pub enum ConfigurationError {
    NonPositiveAcceleration,
    NonPositiveFriction,
    NonPositiveMaxSpeed,
    RateTooLarge,
    PeriodOutOfRange,
    UnknownEnemyType,
}

/// How a creature accelerates, slows down and how fast it may go.
#[derive(Clone, Copy, Debug, PartialEq, Eq, Structural)]
pub struct MotionParams {
    /// Units per second squared.
    pub acceleration: i64,
    /// Units per second squared of slowing down.
    pub friction: i64,
    /// Units per second.
    pub max_speed: i64,
}

pub open spec fn rate_ok(r: int) -> bool {
    0 < r <= SPEED_LIMIT
}

impl MotionParams {
    pub open spec fn wf(&self) -> bool {
        rate_ok(self.acceleration as int) && rate_ok(self.friction as int) && rate_ok(
            self.max_speed as int,
        )
    }

    /// Checks the three rates: each must be positive and at most `SPEED_LIMIT`.
    pub fn new(acceleration: i64, friction: i64, max_speed: i64) -> (r: Result<
        MotionParams,
        ConfigurationError,
    >)
        ensures
            match r {
                Ok(p) => p == (MotionParams { acceleration, friction, max_speed }) && p.wf(),
                Err(e) => e == (if acceleration <= 0 {
                    ConfigurationError::NonPositiveAcceleration
                } else if friction <= 0 {
                    ConfigurationError::NonPositiveFriction
                } else if max_speed <= 0 {
                    ConfigurationError::NonPositiveMaxSpeed
                } else {
                    ConfigurationError::RateTooLarge
                }),
            },
            r is Ok <==> (rate_ok(acceleration as int) && rate_ok(friction as int) && rate_ok(
                max_speed as int,
            )),
    {
        if acceleration <= 0 {
            Err(ConfigurationError::NonPositiveAcceleration)
        } else if friction <= 0 {
            Err(ConfigurationError::NonPositiveFriction)
        } else if max_speed <= 0 {
            Err(ConfigurationError::NonPositiveMaxSpeed)
        } else if acceleration > SPEED_LIMIT || friction > SPEED_LIMIT || max_speed > SPEED_LIMIT {
            Err(ConfigurationError::RateTooLarge)
        } else {
            Ok(MotionParams { acceleration, friction, max_speed })
        }
    }
}

/// `a / b` rounded towards zero, for `b > 0`.
pub open spec fn trunc_div(a: int, b: int) -> int {
    if a >= 0 {
        a / b
    } else {
        -((-a) / b)
    }
}

/// How much a rate per second amounts to over `dt_ms` milliseconds.
pub open spec fn per_tick(rate: int, dt_ms: int) -> int {
    (rate * dt_ms) / 1000
}

/// `rate` per second over `dt_ms` milliseconds, rounded down; the amount must
/// not exceed `SPEED_LIMIT`.
pub fn per_tick_amount(rate: i64, dt_ms: u64) -> (r: i64)
    requires
        0 <= rate <= SPEED_LIMIT,
        per_tick(rate as int, dt_ms as int) <= SPEED_LIMIT,
    ensures
        r == per_tick(rate as int, dt_ms as int),
        0 <= r,
        dt_ms <= MAX_TICK_MS ==> r <= rate,
{
    proof {
        lemma_per_tick_bounds(rate as int, dt_ms as int);
    }
    let a = rate as u128;
    let d = dt_ms as u128;
    assert(a * d <= SPEED_LIMIT * 0xffff_ffff_ffff_ffffu128) by (nonlinear_arith)
        requires
            0 <= a <= SPEED_LIMIT,
            0 <= d <= 0xffff_ffff_ffff_ffffu128,
    ;
    ((a * d) / 1000) as i64
}

/// A rate over a tick of at most `MAX_TICK_MS` comes to at most the rate.
pub proof fn lemma_per_tick_bounds(rate: int, dt_ms: int)
    requires
        0 <= rate,
        0 <= dt_ms,
    ensures
        0 <= per_tick(rate, dt_ms),
        dt_ms <= MAX_TICK_MS ==> per_tick(rate, dt_ms) <= rate,
{
    assert(0 <= rate * dt_ms) by (nonlinear_arith)
        requires
            0 <= rate,
            0 <= dt_ms,
    ;
    if dt_ms <= MAX_TICK_MS {
        assert((rate * dt_ms) / 1000 <= rate) by (nonlinear_arith)
            requires
                0 <= rate,
                0 <= dt_ms <= 1000,
        ;
    }
}

/// One friction step with a slowing of `f` units: the speed drops by `f`, and a
/// velocity left slower than `f` stops outright.
pub open spec fn friction_applied(v: Vec2, f: int) -> Vec2 {
    let s = floor_sqrt(norm_sq(v));
    if s <= f {
        zero()
    } else {
        let w = scaled_vec(v, s - f);
        if norm_sq(w) < f * f {
            zero()
        } else {
            w
        }
    }
}

/// `v` with its length cut to `max` where it is longer.
pub open spec fn speed_clamped(v: Vec2, max: int) -> Vec2 {
    if norm_sq(v) > max * max {
        scaled_vec(v, max)
    } else {
        v
    }
}

/// `c` rounded to the nearest whole pixel, halves away from zero.
pub open spec fn round_to_pixel(c: int) -> int {
    if c >= 0 {
        ((c + 500) / 1000) * 1000
    } else {
        -((((-c) + 500) / 1000) * 1000)
    }
}

pub open spec fn clamp_int(a: int, lo: int, hi: int) -> int {
    if a < lo {
        lo
    } else if a > hi {
        hi
    } else {
        a
    }
}

/// `p` after moving with velocity `v` for `dt_ms` milliseconds; a creature at
/// rest is put on whole pixels instead.
pub open spec fn advanced(p: Vec2, v: Vec2, dt_ms: int) -> Vec2 {
    if v == zero() {
        Vec2 { x: round_to_pixel(p.x as int) as i64, y: round_to_pixel(p.y as int) as i64 }
    } else {
        Vec2 {
            x: (p.x + trunc_div(v.x * dt_ms, 1000)) as i64,
            y: (p.y + trunc_div(v.y * dt_ms, 1000)) as i64,
        }
    }
}

pub open spec fn world_clamped(p: Vec2) -> Vec2 {
    Vec2 {
        x: clamp_int(p.x as int, -COORD_LIMIT, COORD_LIMIT as int) as i64,
        y: clamp_int(p.y as int, -COORD_LIMIT, COORD_LIMIT as int) as i64,
    }
}

/// A level's rectangle.
#[derive(Clone, Copy, Debug, PartialEq, Eq, Structural)]
pub struct Bounds {
    pub min: Vec2,
    pub max: Vec2,
}

impl Bounds {
    pub open spec fn wf(&self) -> bool {
        within(self.min, COORD_LIMIT as int) && within(self.max, COORD_LIMIT as int)
    }
}

/// `p` kept `margin` inside the level's rectangle.
pub open spec fn level_clamped(p: Vec2, b: Bounds, margin: Vec2) -> Vec2 {
    Vec2 {
        x: clamp_int(p.x as int, b.min.x + margin.x, b.max.x - margin.x) as i64,
        y: clamp_int(p.y as int, b.min.y + margin.y, b.max.y - margin.y) as i64,
    }
}

/// Friction that brings a moving velocity strictly closer to rest, and never
/// turns a component around.
pub proof fn lemma_friction_slows(v: Vec2, f: int)
    requires
        f >= 1,
        within(v, SPEED_LIMIT as int),
    ensures
        v != zero() ==> norm_sq(friction_applied(v, f)) < norm_sq(v),
        v == zero() ==> friction_applied(v, f) == zero(),
        friction_applied(v, f).x * v.x >= 0,
        friction_applied(v, f).y * v.y >= 0,
        abs(friction_applied(v, f).x as int) <= abs(v.x as int),
        abs(friction_applied(v, f).y as int) <= abs(v.y as int),
{
    let n = norm_sq(v);
    lemma_norm_sq_zero(v);
    lemma_floor_sqrt_exists(n);
    let s = floor_sqrt(n);
    if s > f {
        let m = s - f;
        assert(n > 0) by (nonlinear_arith)
            requires
                s > f >= 1,
                s * s <= n,
        ;
        assert(m * m < n) by (nonlinear_arith)
            requires
                0 <= m < s,
                s * s <= n,
        ;
        assert(m <= MAG_LIMIT) by (nonlinear_arith)
            requires
                0 <= m,
                m * m < n,
                n == v.x * v.x + v.y * v.y,
                within(v, SPEED_LIMIT as int),
        ;
        lemma_scaled_vec(v, m);
        let w = scaled_vec(v, m);
        assert(w.x * w.x <= v.x * v.x && (v.x != 0 ==> w.x * w.x < v.x * v.x)) by (nonlinear_arith)
            requires
                w.x * w.x * n <= v.x * v.x * m * m,
                m * m < n,
                n > 0,
        ;
        assert(w.y * w.y <= v.y * v.y && (v.y != 0 ==> w.y * w.y < v.y * v.y)) by (nonlinear_arith)
            requires
                w.y * w.y * n <= v.y * v.y * m * m,
                m * m < n,
                n > 0,
        ;
        assert(abs(w.x as int) <= abs(v.x as int)) by (nonlinear_arith)
            requires
                w.x * w.x <= v.x * v.x,
        ;
        assert(abs(w.y as int) <= abs(v.y as int)) by (nonlinear_arith)
            requires
                w.y * w.y <= v.y * v.y,
        ;
        assert(w.x * v.x >= 0 && w.y * v.y >= 0);
    }
    let r = friction_applied(v, f);
    if r == zero() {
        assert(r.x * v.x == 0 && r.y * v.y == 0) by (nonlinear_arith)
            requires
                r.x == 0,
                r.y == 0,
        ;
    }
}

/// Applying friction `k` times in a row.
pub open spec fn friction_repeated(v: Vec2, f: int, k: nat) -> Vec2
    decreases k,
{
    if k == 0 {
        v
    } else {
        friction_repeated(friction_applied(v, f), f, (k - 1) as nat)
    }
}

/// Friction alone brings any velocity to exact rest within as many steps as
/// its squared length, and rest is kept from then on.
pub proof fn lemma_friction_stops(v: Vec2, f: int, k: nat)
    requires
        f >= 1,
        within(v, SPEED_LIMIT as int),
        k >= norm_sq(v),
    ensures
        friction_repeated(v, f, k) == zero(),
    decreases k,
{
    lemma_norm_sq_zero(v);
    lemma_friction_slows(v, f);
    if k > 0 {
        let w = friction_applied(v, f);
        lemma_norm_sq_zero(w);
        lemma_friction_stops(w, f, (k - 1) as nat);
    }
}

/// Friction of `f` per step brings a velocity of length `s` (rounded down) to
/// exact rest within any `k` steps with `k * f >= s`, so within `ceil(s / f)`.
pub proof fn lemma_friction_stops_within(v: Vec2, f: int, k: nat)
    requires
        f >= 1,
        within(v, SPEED_LIMIT as int),
        k * f >= floor_sqrt(norm_sq(v)),
    ensures
        friction_repeated(v, f, k) == zero(),
    decreases k,
{
    lemma_norm_sq_zero(v);
    lemma_floor_sqrt_exists(norm_sq(v));
    lemma_friction_slows(v, f);
    if v == zero() {
        lemma_friction_stops(v, f, k);
    } else {
        let n = norm_sq(v);
        let s = floor_sqrt(n);
        assert(s >= 1) by (nonlinear_arith)
            requires
                n >= 1,
                n < (s + 1) * (s + 1),
                s >= 0,
        ;
        assert(k >= 1) by (nonlinear_arith)
            requires
                k * f >= s,
                s >= 1,
                f >= 1,
        ;
        let w = friction_applied(v, f);
        lemma_norm_sq_zero(w);
        lemma_floor_sqrt_exists(norm_sq(w));
        let sw = floor_sqrt(norm_sq(w));
        if s <= f {
            lemma_friction_stops(w, f, (k - 1) as nat);
        } else {
            let m = s - f;
            assert(m * m < n) by (nonlinear_arith)
                requires
                    0 <= m < s,
                    s * s <= n,
            ;
            assert(m <= MAG_LIMIT) by (nonlinear_arith)
                requires
                    0 <= m,
                    m * m < n,
                    n == v.x * v.x + v.y * v.y,
                    within(v, SPEED_LIMIT as int),
            ;
            lemma_scaled_vec(v, m);
            assert(norm_sq(w) <= m * m);
            assert(sw <= m) by (nonlinear_arith)
                requires
                    sw * sw <= norm_sq(w),
                    norm_sq(w) <= m * m,
                    sw >= 0,
                    m >= 0,
            ;
            assert((k - 1) * f >= sw) by (nonlinear_arith)
                requires
                    k * f >= s,
                    sw <= s - f,
            ;
            lemma_friction_stops_within(w, f, (k - 1) as nat);
        }
    }
}

/// One friction step with a slowing of `f` units.
pub fn apply_friction(v: Vec2, f: i64) -> (r: Vec2)
    requires
        within(v, SPEED_LIMIT as int),
        0 <= f <= SPEED_LIMIT,
    ensures
        r == friction_applied(v, f as int),
        within(r, SPEED_LIMIT as int),
{
    let s = v.length();
    proof {
        lemma_norm_sq_zero(v);
        lemma_floor_sqrt_exists(norm_sq(v));
    }
    if s <= f {
        return Vec2::zero();
    }
    let m = s - f;
    assert(norm_sq(v) > 0) by (nonlinear_arith)
        requires
            s > f >= 0,
            s * s <= norm_sq(v),
    ;
    assert(m <= MAG_LIMIT) by (nonlinear_arith)
        requires
            0 <= m <= s,
            s * s <= norm_sq(v),
            norm_sq(v) == v.x * v.x + v.y * v.y,
            within(v, SPEED_LIMIT as int),
    ;
    assert(m * m <= norm_sq(v)) by (nonlinear_arith)
        requires
            0 <= m <= s,
            s * s <= norm_sq(v),
    ;
    let w = v.scaled(m);
    proof {
        lemma_friction_slows(v, if f >= 1 { f as int } else { 1 });
        lemma_norm_sq_zero(v);
    }
    assert(within(w, SPEED_LIMIT as int)) by (nonlinear_arith)
        requires
            w.x * w.x * norm_sq(v) <= v.x * v.x * m * m,
            w.y * w.y * norm_sq(v) <= v.y * v.y * m * m,
            m * m <= norm_sq(v),
            norm_sq(v) > 0,
            within(v, SPEED_LIMIT as int),
    ;
    assert((f as u128) * (f as u128) <= SPEED_LIMIT * SPEED_LIMIT) by (nonlinear_arith)
        requires
            0 <= f <= SPEED_LIMIT,
    ;
    let ff = (f as u128) * (f as u128);
    if w.length_sq() < ff {
        Vec2::zero()
    } else {
        w
    }
}

/// Cuts the velocity's length to `max` where it is longer.
pub fn clamp_speed(v: Vec2, max: i64) -> (r: Vec2)
    requires
        within(v, VEC_LIMIT as int),
        0 <= max <= SPEED_LIMIT,
    ensures
        r == speed_clamped(v, max as int),
        norm_sq(r) <= max * max || r == v,
        norm_sq(r) <= max * max,
        within(r, VEC_LIMIT as int),
{
    let n = v.length_sq();
    assert((max as u128) * (max as u128) <= SPEED_LIMIT * SPEED_LIMIT) by (nonlinear_arith)
        requires
            0 <= max <= SPEED_LIMIT,
    ;
    let mm = (max as u128) * (max as u128);
    if n > mm {
        proof {
            lemma_scaled_vec(v, max as int);
        }
        v.scaled(max)
    } else {
        v
    }
}

/// The position after moving with velocity `v` for `dt_ms` milliseconds; a
/// creature at rest is put on whole pixels instead.
pub fn advance_position(p: Vec2, v: Vec2, dt_ms: u64) -> (r: Vec2)
    requires
        within(p, COORD_LIMIT as int),
        within(v, VEC_LIMIT as int),
        dt_ms <= MAX_TICK_MS,
    ensures
        r == advanced(p, v, dt_ms as int),
        within(r, COORD_LIMIT + VEC_LIMIT),
{
    if v.is_zero() {
        Vec2 { x: round_component(p.x), y: round_component(p.y) }
    } else {
        Vec2 { x: p.x + move_component(v.x, dt_ms), y: p.y + move_component(v.y, dt_ms) }
    }
}

fn round_component(c: i64) -> (r: i64)
    requires
        -COORD_LIMIT <= c <= COORD_LIMIT,
    ensures
        r == round_to_pixel(c as int),
        -COORD_LIMIT <= r <= COORD_LIMIT,
{
    if c >= 0 {
        ((c + 500) / 1000) * 1000
    } else {
        -((((-c) + 500) / 1000) * 1000)
    }
}

fn move_component(v: i64, dt_ms: u64) -> (r: i64)
    requires
        -VEC_LIMIT <= v <= VEC_LIMIT,
        dt_ms <= MAX_TICK_MS,
    ensures
        r == trunc_div(v * dt_ms, 1000),
        -VEC_LIMIT <= r <= VEC_LIMIT,
{
    let d = dt_ms as i64;
    let a: i64 = if v < 0 {
        -v
    } else {
        v
    };
    assert(0 <= a * d <= VEC_LIMIT * 1000) by (nonlinear_arith)
        requires
            0 <= a <= VEC_LIMIT,
            0 <= d <= 1000,
    ;
    assert((a * d) / 1000 <= a) by (nonlinear_arith)
        requires
            0 <= a,
            0 <= d <= 1000,
    ;
    assert(v < 0 ==> -(v * d) == a * d) by (nonlinear_arith)
        requires
            a == abs(v as int),
    ;
    assert(v >= 0 ==> v * d == a * d);
    if v < 0 {
        assert(v * d <= 0) by (nonlinear_arith)
            requires
                v < 0,
                d >= 0,
        ;
        if v * d == 0 {
            assert((a * d) / 1000 == 0);
        }
        -((a * d) / 1000)
    } else {
        (a * d) / 1000
    }
}

/// Keeps a position inside the world's square.
pub fn confine_to_world(p: Vec2) -> (r: Vec2)
    requires
        within(p, i64::MAX as int),
    ensures
        r == world_clamped(p),
        within(r, COORD_LIMIT as int),
{
    Vec2 { x: clamp_component(p.x, -COORD_LIMIT, COORD_LIMIT), y: clamp_component(p.y, -COORD_LIMIT, COORD_LIMIT) }
}

fn clamp_component(a: i64, lo: i64, hi: i64) -> (r: i64)
    ensures
        r == clamp_int(a as int, lo as int, hi as int),
{
    if a < lo {
        lo
    } else if a > hi {
        hi
    } else {
        a
    }
}

/// Keeps a position `margin` inside the level's rectangle.
pub fn confine_to_level(p: Vec2, b: Bounds, margin: Vec2) -> (r: Vec2)
    requires
        b.wf(),
        within(margin, COORD_LIMIT as int),
    ensures
        r == level_clamped(p, b, margin),
{
    Vec2 {
        x: clamp_component(p.x, b.min.x + margin.x, b.max.x - margin.x),
        y: clamp_component(p.y, b.min.y + margin.y, b.max.y - margin.y),
    }
}

} // verus!
