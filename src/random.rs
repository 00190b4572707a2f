//! Random draws from the thread's generator, for callers that do not bring
//! their own.
use rand::Rng;
use vstd::prelude::*;
use crate::archetype::{SpawnDraw, MAX_PHASE_MS};
use crate::motion::MAX_TICK_MS;
use crate::steering::JITTER_LIMIT;
use crate::vector::{within, Vec2};
use crate::world::{draw_wf, tick_result, EntityDraw, TickReport, World};

verus! {

/// Relies on `rand::Rng::gen_range` on `rand::thread_rng()`: an integer drawn
/// from the inclusive range `lo..=hi`, which must not be empty.
#[verifier::external_body]
fn random_between(lo: i64, hi: i64) -> (r: i64)
    requires
        lo <= hi,
    ensures
        lo <= r <= hi,
{
    rand::thread_rng().gen_range(lo..=hi)
}

fn random_roll() -> (r: u64) {
    random_between(0, i64::MAX) as u64
}

fn random_direction() -> (r: Vec2)
    ensures
        within(r, JITTER_LIMIT as int),
{
    Vec2 {
        x: random_between(-JITTER_LIMIT, JITTER_LIMIT),
        y: random_between(-JITTER_LIMIT, JITTER_LIMIT),
    }
}

impl EntityDraw {
    /// Two random directions, each component drawn from
    /// `-JITTER_LIMIT..=JITTER_LIMIT`.
    pub fn random() -> (r: EntityDraw)
        ensures
            draw_wf(r),
    {
        EntityDraw { steer: random_direction(), scatter: random_direction() }
    }
}

impl SpawnDraw {
    /// A phase in `0..=MAX_PHASE_MS` and random rolls.
    pub fn random() -> (r: SpawnDraw)
        ensures
            r.phase_roll <= MAX_PHASE_MS,
    {
        SpawnDraw {
            phase_roll: random_between(0, MAX_PHASE_MS as i64) as u64,
            acceleration_roll: random_roll(),
            friction_roll: random_roll(),
            speed_roll: random_roll(),
            inner_roll: random_roll(),
            outer_roll: random_roll(),
        }
    }
}

impl World {
    /// One tick with fresh random draws for every creature and every spawn.
    /// Whatever is drawn, the world stays well formed, every creature keeps to
    /// its speed limit, and a tick of at most `MAX_TICK_MS` is one step as
    /// `tick_result` states for some draws.
    pub fn tick_with_thread_rng(&mut self, dt_ms: u64) -> (r: Vec<TickReport>)
        requires
            old(self).wf(),
        ensures
            final(self).wf(),
            final(self).speeds_ok(),
            final(self).player == old(self).player,
            final(self).level == old(self).level,
            r.len() >= 1,
            dt_ms <= MAX_TICK_MS ==> r.len() == 1 && exists|
                draws: Seq<EntityDraw>,
                spawn_draws: Seq<SpawnDraw>,
            |
                #[trigger] tick_result(
                    *old(self),
                    *final(self),
                    r@[0],
                    dt_ms as int,
                    draws,
                    spawn_draws,
                ),
    {
        let mut spawns: Vec<SpawnDraw> = Vec::new();
        let mut owed: usize = 0;
        let mut i: usize = 0;
        while i < self.spawners.len()
            invariant
                i <= self.spawners.len(),
            decreases self.spawners.len() - i,
        {
            let s = self.spawners[i];
            let due = if s.spawn_rate < s.spawn_count {
                s.spawn_rate
            } else {
                s.spawn_count
            };
            if owed < usize::MAX - due {
                owed = owed + due;
            }
            i = i + 1;
        }
        let mut k: usize = 0;
        while k < owed
            invariant
                k <= owed,
            decreases owed - k,
        {
            spawns.push(SpawnDraw::random());
            k = k + 1;
        }
        let mut draws: Vec<EntityDraw> = Vec::new();
        let total = self.creatures.len() + if owed < usize::MAX - self.creatures.len() {
            owed
        } else {
            0
        };
        let mut j: usize = 0;
        while j < total
            invariant
                j <= total,
                forall|q: int| 0 <= q < draws.len() ==> draw_wf(#[trigger] draws@[q]),
            decreases total - j,
        {
            draws.push(EntityDraw::random());
            j = j + 1;
        }
        let r = self.tick(dt_ms, &draws, &spawns);
        proof {
            if dt_ms <= MAX_TICK_MS {
                assert(tick_result(*old(self), *self, r@[0], dt_ms as int, draws@, spawns@));
            }
        }
        r
    }
}

} // verus!
