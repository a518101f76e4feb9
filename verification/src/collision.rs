//! The collision system.  Per tick it examines bullet/enemy pairs of
//! collider-bearing entities in ascending id order: each live, unmarked
//! bullet resolves at most one collision, against the live, unmarked enemy
//! with the lowest id whose bounding box overlaps it.  Both entities of a
//! resolved pair are marked for despawn and one collision event is emitted
//! per pair.  The ascending-id policy makes resolution deterministic.

use vstd::prelude::*;

use crate::entity::{is_kind, slot_entity, wf_entity, Entity, EntityKind};
use crate::events::{EventBus, GameEvent};
use crate::world::EntityWorld;

verus! {

/// Axis-aligned bounding boxes of two collider-bearing entities overlap.
pub open spec fn overlap(a: Entity, b: Entity) -> bool {
    match (a.collider, b.collider) {
        (Some(ea), Some(eb)) => {
            &&& a.pos.x - b.pos.x <= ea.x + eb.x
            &&& b.pos.x - a.pos.x <= ea.x + eb.x
            &&& a.pos.y - b.pos.y <= ea.y + eb.y
            &&& b.pos.y - a.pos.y <= ea.y + eb.y
        },
        _ => false,
    }
}

/// Slots `b` and `t` hold an overlapping bullet/enemy pair, the one valid
/// gameplay pair (all bullets belong to the player, so bullet/player pairs
/// never qualify; enemy/player contact is a declared extension point).
pub open spec fn hits(slots: Seq<Option<Entity>>, b: int, t: int) -> bool {
    &&& 0 <= b < slots.len()
    &&& 0 <= t < slots.len()
    &&& is_kind(slots[b], EntityKind::Bullet)
    &&& is_kind(slots[t], EntityKind::Enemy)
    &&& overlap(slot_entity(slots[b]), slot_entity(slots[t]))
}

/// Slot `t` is a target the bullet in slot `b` can still resolve against:
/// they hit each other and `t` is not already marked for despawn.
pub open spec fn target_ok(slots: Seq<Option<Entity>>, d: Seq<bool>, b: int, t: int) -> bool {
    &&& hits(slots, b, t)
    &&& 0 <= t < d.len()
    &&& !d[t]
}

/// The lowest-id target at or after `j` for the bullet in slot `b`.
pub open spec fn first_target_from(
    slots: Seq<Option<Entity>>,
    d: Seq<bool>,
    b: int,
    j: int,
) -> Option<int>
    decreases slots.len() - j,
{
    if j < 0 || j >= slots.len() {
        None
    } else if target_ok(slots, d, b, j) {
        Some(j)
    } else {
        first_target_from(slots, d, b, j + 1)
    }
}

/// The lowest-id target for the bullet in slot `b` ("first match wins").
pub open spec fn first_target(slots: Seq<Option<Entity>>, d: Seq<bool>, b: int) -> Option<int> {
    first_target_from(slots, d, b, 0)
}

/// Characterization of `first_target_from`: a found index is the least
/// target at or after `j`; `None` means there is none at or after `j`.
pub proof fn lemma_first_target_from(slots: Seq<Option<Entity>>, d: Seq<bool>, b: int, j: int)
    requires
        0 <= j,
    ensures
        match first_target_from(slots, d, b, j) {
            Some(t) => j <= t < slots.len() && target_ok(slots, d, b, t) && forall|k: int|
                j <= k < t ==> !target_ok(slots, d, b, k),
            None => forall|k: int| j <= k < slots.len() ==> !target_ok(slots, d, b, k),
        },
    decreases slots.len() - j,
{
    if 0 <= j < slots.len() && !target_ok(slots, d, b, j) {
        lemma_first_target_from(slots, d, b, j + 1);
    }
}

/// If no slot before `j` is a target, the full search agrees with the
/// search starting at `j`.
pub proof fn lemma_first_target_skip(slots: Seq<Option<Entity>>, d: Seq<bool>, b: int, j: int)
    requires
        0 <= j <= slots.len(),
        forall|k: int| 0 <= k < j ==> !target_ok(slots, d, b, k),
    ensures
        first_target(slots, d, b) == first_target_from(slots, d, b, j),
    decreases j,
{
    if j > 0 {
        lemma_first_target_skip(slots, d, b, j - 1);
    }
}

/// The despawn marks after the bullet in slot `b` takes its turn: if it is
/// unmarked and finds a target, both are marked; otherwise nothing changes.
pub open spec fn collide_step(slots: Seq<Option<Entity>>, d: Seq<bool>, b: int) -> Seq<bool> {
    if 0 <= b < d.len() && !d[b] {
        match first_target(slots, d, b) {
            Some(t) => d.update(b, true).update(t, true),
            None => d,
        }
    } else {
        d
    }
}

/// The despawn marks after slots `0 .. i` have taken their turns in
/// ascending order, starting from marks `d0`.
pub open spec fn collide_dooms(slots: Seq<Option<Entity>>, d0: Seq<bool>, i: int) -> Seq<bool>
    decreases i,
{
    if i <= 0 {
        d0
    } else {
        collide_step(slots, collide_dooms(slots, d0, i - 1), i - 1)
    }
}

/// The resolved (bullet, target) pairs after slots `0 .. i` have taken
/// their turns, in resolution order.
pub open spec fn collide_pairs(slots: Seq<Option<Entity>>, d0: Seq<bool>, i: int) -> Seq<
    (int, int),
>
    decreases i,
{
    if i <= 0 {
        Seq::empty()
    } else {
        let prev = collide_pairs(slots, d0, i - 1);
        let d = collide_dooms(slots, d0, i - 1);
        if 0 <= i - 1 < d.len() && !d[i - 1] {
            match first_target(slots, d, i - 1) {
                Some(t) => prev.push((i - 1, t)),
                None => prev,
            }
        } else {
            prev
        }
    }
}

/// One collision event per resolved pair, in resolution order.
pub open spec fn collision_events(pairs: Seq<(int, int)>) -> Seq<GameEvent> {
    pairs.map(
        |k: int, p: (int, int)|
            GameEvent::Collision {
                bullet: p.0 as usize,
                target: p.1 as usize,
                target_kind: EntityKind::Enemy,
            },
    )
}

/// The collision pass preserves the number of despawn marks.
pub proof fn lemma_collide_dooms_len(slots: Seq<Option<Entity>>, d0: Seq<bool>, i: int)
    requires
        d0.len() == slots.len(),
    ensures
        collide_dooms(slots, d0, i).len() == d0.len(),
    decreases i,
{
    if i > 0 {
        lemma_collide_dooms_len(slots, d0, i - 1);
        let d = collide_dooms(slots, d0, i - 1);
        if 0 <= i - 1 < d.len() && !d[i - 1] {
            lemma_first_target_from(slots, d, i - 1, 0);
        }
    }
}

/// The collision pass only adds marks, and only on slots that hold a bullet
/// or an enemy; in particular a player entity is never marked by it.
pub proof fn lemma_collide_dooms_frame(slots: Seq<Option<Entity>>, d0: Seq<bool>, i: int)
    requires
        d0.len() == slots.len(),
    ensures
        forall|k: int| 0 <= k < d0.len() && d0[k] ==> collide_dooms(slots, d0, i)[k],
        forall|k: int|
            0 <= k < d0.len() && #[trigger] collide_dooms(slots, d0, i)[k] ==> d0[k] || is_kind(
                slots[k],
                EntityKind::Bullet,
            ) || is_kind(slots[k], EntityKind::Enemy),
    decreases i,
{
    lemma_collide_dooms_len(slots, d0, i);
    if i > 0 {
        lemma_collide_dooms_frame(slots, d0, i - 1);
        let d = collide_dooms(slots, d0, i - 1);
        lemma_collide_dooms_len(slots, d0, i - 1);
        if 0 <= i - 1 < d.len() && !d[i - 1] {
            lemma_first_target_from(slots, d, i - 1, 0);
        }
    }
}

/// Tests whether two entities' bounding boxes overlap.
fn overlaps(a: &Entity, b: &Entity) -> (r: bool)
    requires
        wf_entity(*a),
        wf_entity(*b),
    ensures
        r == overlap(*a, *b),
{
    match (a.collider, b.collider) {
        (Some(ea), Some(eb)) => {
            let sx: i64 = ea.x + eb.x;
            let sy: i64 = ea.y + eb.y;
            let dx: i64 = a.pos.x - b.pos.x;
            let dy: i64 = a.pos.y - b.pos.y;
            dx <= sx && -dx <= sx && dy <= sy && -dy <= sy
        },
        _ => false,
    }
}

/// Finds the lowest-id live, unmarked enemy overlapping the bullet in slot
/// `b`, if any.
fn find_target(w: &EntityWorld, b: usize) -> (r: Option<usize>)
    requires
        w.wf(),
        b < w.slot_seq().len(),
    ensures
        match r {
            Some(t) => first_target(w.slot_seq(), w.doom_seq(), b as int) == Some(t as int),
            None => first_target(w.slot_seq(), w.doom_seq(), b as int) is None,
        },
{
    let ghost s0 = w.slot_seq();
    let ghost d0 = w.doom_seq();
    let is_bullet = match w.get(b) {
        Some(e) => matches!(e.kind, EntityKind::Bullet),
        None => false,
    };
    if !is_bullet {
        proof {
            assert(forall|k: int| 0 <= k < s0.len() ==> !target_ok(s0, d0, b as int, k));
            lemma_first_target_skip(s0, d0, b as int, s0.len() as int);
        }
        return None;
    }
    let eb = w.get(b).unwrap();
    let n = w.len();
    let mut j: usize = 0;
    while j < n
        invariant
            j <= n,
            n == s0.len(),
            w.wf(),
            w.slot_seq() == s0,
            w.doom_seq() == d0,
            b < n,
            s0[b as int] == Some(eb),
            is_kind(s0[b as int], EntityKind::Bullet),
            wf_entity(eb),
            forall|k: int| 0 <= k < j ==> !target_ok(s0, d0, b as int, k),
        decreases n - j,
    {
        if !w.is_doomed(j) {
            match w.get(j) {
                Some(et) => {
                    if matches!(et.kind, EntityKind::Enemy) && overlaps(&eb, &et) {
                        proof {
                            lemma_first_target_skip(s0, d0, b as int, j as int);
                        }
                        return Some(j);
                    }
                },
                None => {},
            }
        }
        j = j + 1;
    }
    proof {
        lemma_first_target_skip(s0, d0, b as int, n as int);
    }
    None
}

/// Runs the per-tick collision pass: examines bullets in ascending id
/// order, marks each resolved pair for despawn, and emits one collision
/// event per pair.  It has no effect when the candidate pair set is empty.
pub fn run_collisions(w: &mut EntityWorld, bus: &mut EventBus)
    requires
        old(w).wf(),
    ensures
        final(w).slot_seq() == old(w).slot_seq(),
        final(w).doom_seq() == collide_dooms(
            old(w).slot_seq(),
            old(w).doom_seq(),
            old(w).slot_seq().len() as int,
        ),
        final(bus).queue_seq() == old(bus).queue_seq() + collision_events(
            collide_pairs(old(w).slot_seq(), old(w).doom_seq(), old(w).slot_seq().len() as int),
        ),
        final(w).wf(),
{
    let ghost s0 = w.slot_seq();
    let ghost d0 = w.doom_seq();
    let ghost q0 = bus.queue_seq();
    let n = w.len();
    let mut b: usize = 0;
    proof {
        assert(bus.queue_seq() =~= q0 + collision_events(collide_pairs(s0, d0, 0)));
    }
    while b < n
        invariant
            b <= n,
            n == s0.len(),
            n == d0.len(),
            w.wf(),
            w.slot_seq() == s0,
            w.doom_seq() == collide_dooms(s0, d0, b as int),
            bus.queue_seq() == q0 + collision_events(collide_pairs(s0, d0, b as int)),
        decreases n - b,
    {
        let ghost dcur = w.doom_seq();
        proof {
            lemma_collide_dooms_len(s0, d0, b as int);
        }
        if !w.is_doomed(b) {
            match find_target(w, b) {
                Some(t) => {
                    proof {
                        lemma_first_target_from(s0, dcur, b as int, 0);
                    }
                    w.mark_despawn(b);
                    w.mark_despawn(t);
                    bus.emit(
                        GameEvent::Collision {
                            bullet: b,
                            target: t,
                            target_kind: EntityKind::Enemy,
                        },
                    );
                    proof {
                        assert(w.doom_seq() =~= collide_step(s0, dcur, b as int));
                        assert(collide_pairs(s0, d0, b as int + 1) == collide_pairs(
                            s0,
                            d0,
                            b as int,
                        ).push((b as int, t as int)));
                        assert(bus.queue_seq() =~= q0 + collision_events(
                            collide_pairs(s0, d0, b as int + 1),
                        ));
                    }
                },
                None => {
                    proof {
                        assert(collide_step(s0, dcur, b as int) == dcur);
                        assert(collide_pairs(s0, d0, b as int + 1) == collide_pairs(
                            s0,
                            d0,
                            b as int,
                        ));
                    }
                },
            }
        } else {
            proof {
                assert(collide_step(s0, dcur, b as int) == dcur);
                assert(collide_pairs(s0, d0, b as int + 1) == collide_pairs(s0, d0, b as int));
            }
        }
        b = b + 1;
    }
}

} // verus!
