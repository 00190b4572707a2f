//! Triggers: read-only conditions on the positions of the tick's snapshot.
use vstd::prelude::*;
use crate::motion::COORD_LIMIT;
use crate::steering::DISTANCE_LIMIT;
use crate::vector::{dist_sq, within, Vec2};

verus! {

/// Where each creature stood when the tick began: `(id, position)` pairs.
pub open spec fn snapshot_ok(snap: Seq<(u64, Vec2)>) -> bool {
    forall|i: int| 0 <= i < snap.len() ==> within(#[trigger] snap[i].1, COORD_LIMIT as int)
}

/// The position of the first entry for `id`; `None` for a creature that is gone.
pub open spec fn lookup(snap: Seq<(u64, Vec2)>, id: u64) -> Option<Vec2>
    decreases snap.len(),
{
    if snap.len() == 0 {
        None
    } else if snap[0].0 == id {
        Some(snap[0].1)
    } else {
        lookup(snap.skip(1), id)
    }
}

pub proof fn lemma_lookup_within(snap: Seq<(u64, Vec2)>, id: u64)
    requires
        snapshot_ok(snap),
    ensures
        lookup(snap, id) matches Some(p) ==> within(p, COORD_LIMIT as int),
    decreases snap.len(),
{
    if snap.len() > 0 {
        assert(within(snap[0].1, COORD_LIMIT as int));
        let rest = snap.skip(1);
        assert forall|i: int| 0 <= i < rest.len() implies within(
            #[trigger] rest[i].1,
            COORD_LIMIT as int,
        ) by {
            assert(rest[i] == snap[i + 1]);
        }
        lemma_lookup_within(rest, id);
    }
}

/// The position of creature `id` in the snapshot, if it is there.
pub fn find_position(snap: &Vec<(u64, Vec2)>, id: u64) -> (r: Option<Vec2>)
    requires
        snapshot_ok(snap@),
    ensures
        r == lookup(snap@, id),
        r matches Some(p) ==> within(p, COORD_LIMIT as int),
{
    proof {
        lemma_lookup_within(snap@, id);
    }
    let mut i: usize = 0;
    assert(snap@.subrange(0, snap.len() as int) == snap@);
    while i < snap.len()
        invariant
            i <= snap.len(),
            lookup(snap@, id) matches Some(p) ==> within(p, COORD_LIMIT as int),
            lookup(snap@, id) == lookup(snap@.subrange(i as int, snap.len() as int), id),
        decreases snap.len() - i,
    {
        let ghost rest = snap@.subrange(i as int, snap.len() as int);
        assert(rest[0] == snap@[i as int]);
        if snap[i].0 == id {
            return Some(snap[i].1);
        }
        assert(rest.skip(1) == snap@.subrange(i as int + 1, snap.len() as int));
        i = i + 1;
    }
    None
}

/// The target is no farther than `range`; never, where the target is gone.
#[derive(Clone, Copy, Debug, PartialEq, Eq, Structural)]
pub struct Near {
    pub target: u64,
    pub range: i64,
}

/// A condition on where the evaluating creature stands relative to another:
/// `Near`, or its negation.
#[derive(Clone, Copy, Debug, PartialEq, Eq, Structural)]
pub struct Trigger {
    pub near: Near,
    pub negated: bool,
}

pub open spec fn near_holds(n: Near, me: Vec2, snap: Seq<(u64, Vec2)>) -> bool {
    match lookup(snap, n.target) {
        Some(p) => n.range >= 0 && dist_sq(me, p) <= n.range * n.range,
        None => false,
    }
}

pub open spec fn trigger_holds(t: Trigger, me: Vec2, snap: Seq<(u64, Vec2)>) -> bool {
    near_holds(t.near, me, snap) != t.negated
}

pub open spec fn trigger_wf(t: Trigger) -> bool {
    t.near.range <= DISTANCE_LIMIT
}

/// A trigger reads no more than the positions of the snapshot: two snapshots
/// that place every creature alike give the same answer.
pub proof fn lemma_trigger_reads_positions(
    t: Trigger,
    me: Vec2,
    s1: Seq<(u64, Vec2)>,
    s2: Seq<(u64, Vec2)>,
)
    requires
        forall|id: u64| lookup(s1, id) == lookup(s2, id),
    ensures
        trigger_holds(t, me, s1) == trigger_holds(t, me, s2),
{
    assert(lookup(s1, t.near.target) == lookup(s2, t.near.target));
}

fn within_range(me: Vec2, p: Vec2, range: i64) -> (r: bool)
    requires
        within(me, COORD_LIMIT as int),
        within(p, COORD_LIMIT as int),
        range <= DISTANCE_LIMIT,
    ensures
        r == (range >= 0 && dist_sq(me, p) <= range * range),
{
    if range < 0 {
        return false;
    }
    let d2 = me.minus(p).length_sq();
    assert((range as u128) * (range as u128) <= DISTANCE_LIMIT * DISTANCE_LIMIT) by (nonlinear_arith)
        requires
            0 <= range <= DISTANCE_LIMIT,
    ;
    d2 <= (range as u128) * (range as u128)
}

impl Trigger {
    /// Holds while `target` is no farther than `range`.
    pub fn near(target: u64, range: i64) -> (r: Trigger)
        ensures
            r == (Trigger { near: Near { target, range }, negated: false }),
    {
        Trigger { near: Near { target, range }, negated: false }
    }

    /// Holds exactly where this trigger does not.
    pub fn not(self) -> (r: Trigger)
        ensures
            r == (Trigger { near: self.near, negated: !self.negated }),
            forall|me: Vec2, snap: Seq<(u64, Vec2)>|
                trigger_holds(r, me, snap) == !trigger_holds(self, me, snap),
    {
        Trigger { near: self.near, negated: !self.negated }
    }

    /// Whether the trigger holds for a creature standing at `me`.
    pub fn holds(&self, me: Vec2, snap: &Vec<(u64, Vec2)>) -> (r: bool)
        requires
            trigger_wf(*self),
            within(me, COORD_LIMIT as int),
            snapshot_ok(snap@),
        ensures
            r == trigger_holds(*self, me, snap@),
    {
        let near = match find_position(snap, self.near.target) {
            Some(p) => within_range(me, p, self.near.range),
            None => false,
        };
        near != self.negated
    }
}

} // verus!
