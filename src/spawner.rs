//! Spawners: timed, budgeted sources of new creatures.
use vstd::prelude::*;
use crate::archetype::{spec_from_name, EnemyType};
use crate::motion::{ConfigurationError, COORD_LIMIT};
use crate::timer::{Countdown, PERIOD_LIMIT};
use crate::vector::{within, Vec2};

verus! {

/// Whenever the timer finishes, up to `spawn_rate` creatures of `enemy_type`
/// appear at `position`, until `spawn_count` have appeared.
#[derive(Clone, Copy, Debug, PartialEq, Eq, Structural)]
pub struct Spawner {
    pub timer: Countdown,
    pub spawn_rate: usize,
    /// How many creatures are still owed.
    pub spawn_count: usize,
    pub enemy_type: EnemyType,
    pub position: Vec2,
}

/// Period of the spawner a level gets when its fields are incomplete.
pub const FALLBACK_PERIOD_MS: u64 = 250;

/// How many slimers that spawner makes.
pub const FALLBACK_COUNT: usize = 10;

/// What a spawner did in one tick.
#[derive(Clone, Copy, Debug, PartialEq, Eq, Structural)]
pub enum SpawnerTick {
    /// Nothing is owed any more: the spawner is to be removed.
    Exhausted,
    /// The timer has not finished.
    Waiting,
    /// The timer finished: this many creatures are to be made.
    Spawn(usize),
}

pub open spec fn min(a: int, b: int) -> int {
    if a < b {
        a
    } else {
        b
    }
}

/// A spawner after `dt_ms` milliseconds, and what it did.
pub open spec fn spawner_after(s: Spawner, dt_ms: int) -> (Spawner, SpawnerTick) {
    if s.spawn_count == 0 {
        (s, SpawnerTick::Exhausted)
    } else if !s.timer.fires(dt_ms) {
        (Spawner { timer: s.timer.ticked(dt_ms), ..s }, SpawnerTick::Waiting)
    } else {
        let n = min(s.spawn_rate as int, s.spawn_count as int);
        (
            Spawner {
                timer: s.timer.ticked(dt_ms),
                spawn_rate: n as usize,
                spawn_count: (s.spawn_count - n) as usize,
                ..s
            },
            SpawnerTick::Spawn(n as usize),
        )
    }
}

/// A spawner never makes more than it owes, and what it makes comes off what
/// it owes: made plus still owed is what was owed before the tick.
pub proof fn lemma_spawner_budget(s: Spawner, dt_ms: int)
    ensures
        ({
            let (t, out) = spawner_after(s, dt_ms);
            &&& out matches SpawnerTick::Spawn(n) ==> n <= s.spawn_count && n + t.spawn_count
                == s.spawn_count && n == min(s.spawn_rate as int, s.spawn_count as int)
            &&& !(out is Spawn) ==> t.spawn_count == s.spawn_count
            &&& out is Exhausted <==> s.spawn_count == 0
        }),
{
}

impl Spawner {
    pub open spec fn wf(&self) -> bool {
        self.timer.wf() && within(self.position, COORD_LIMIT as int)
    }

    /// A spawner that makes `spawn_rate` creatures every `period_ms`
    /// milliseconds until it has made `spawn_count`; the period must be
    /// positive and at most `PERIOD_LIMIT`.
    pub fn new(
        period_ms: u64,
        spawn_rate: usize,
        spawn_count: usize,
        enemy_type: EnemyType,
        position: Vec2,
    ) -> (r: Result<Spawner, ConfigurationError>)
        requires
            within(position, COORD_LIMIT as int),
        ensures
            r is Err <==> !(0 < period_ms <= PERIOD_LIMIT),
            r matches Err(e) ==> e == ConfigurationError::PeriodOutOfRange,
            r matches Ok(s) ==> s.wf() && s == (Spawner {
                timer: Countdown { period_ms, elapsed_ms: 0 },
                spawn_rate,
                spawn_count,
                enemy_type,
                position,
            }),
    {
        if period_ms == 0 || period_ms > PERIOD_LIMIT {
            return Err(ConfigurationError::PeriodOutOfRange);
        }
        Ok(Spawner { timer: Countdown::started(period_ms, 0), spawn_rate, spawn_count, enemy_type, position })
    }

    /// The spawner that a level's fields describe. Where a field is missing,
    /// the level gets ten slimers, one every `FALLBACK_PERIOD_MS`; a kind name
    /// that names no kind, or a period out of range, is an error.
    pub fn from_level_fields(
        period_ms: Option<u64>,
        spawn_rate: Option<usize>,
        spawn_count: Option<usize>,
        enemy_type: Option<&str>,
        position: Vec2,
    ) -> (r: Result<Spawner, ConfigurationError>)
        requires
            within(position, COORD_LIMIT as int),
        ensures
            match (period_ms, spawn_rate, spawn_count, enemy_type) {
                (Some(p), Some(rate), Some(count), Some(name)) => match spec_from_name(name@) {
                    None => r == Err::<Spawner, ConfigurationError>(ConfigurationError::UnknownEnemyType),
                    Some(kind) => if 0 < p <= PERIOD_LIMIT {
                        r == Ok::<Spawner, ConfigurationError>(
                            Spawner {
                                timer: Countdown { period_ms: p, elapsed_ms: 0 },
                                spawn_rate: rate,
                                spawn_count: count,
                                enemy_type: kind,
                                position,
                            },
                        )
                    } else {
                        r == Err::<Spawner, ConfigurationError>(ConfigurationError::PeriodOutOfRange)
                    },
                },
                _ => r == Ok::<Spawner, ConfigurationError>(
                    Spawner {
                        timer: Countdown { period_ms: FALLBACK_PERIOD_MS, elapsed_ms: 0 },
                        spawn_rate: 1,
                        spawn_count: FALLBACK_COUNT,
                        enemy_type: EnemyType::Slimer,
                        position,
                    },
                ),
            },
            r matches Ok(s) ==> s.wf(),
    {
        match (period_ms, spawn_rate, spawn_count, enemy_type) {
            (Some(p), Some(rate), Some(count), Some(name)) => match EnemyType::from_name(name) {
                Some(kind) => Spawner::new(p, rate, count, kind, position),
                None => Err(ConfigurationError::UnknownEnemyType),
            },
            _ => Spawner::new(FALLBACK_PERIOD_MS, 1, FALLBACK_COUNT, EnemyType::Slimer, position),
        }
    }

    /// Runs the spawner for `dt_ms` milliseconds. When the timer finishes, the
    /// rate is first cut to what is still owed, and that many are made.
    pub fn tick(&mut self, dt_ms: u64) -> (r: SpawnerTick)
        requires
            old(self).wf(),
        ensures
            (*final(self), r) == spawner_after(*old(self), dt_ms as int),
            final(self).wf(),
    {
        if self.spawn_count == 0 {
            return SpawnerTick::Exhausted;
        }
        if self.timer.tick(dt_ms) {
            if self.spawn_rate > self.spawn_count {
                self.spawn_rate = self.spawn_count;
            }
            self.spawn_count = self.spawn_count - self.spawn_rate;
            SpawnerTick::Spawn(self.spawn_rate)
        } else {
            SpawnerTick::Waiting
        }
    }
}

} // verus!
