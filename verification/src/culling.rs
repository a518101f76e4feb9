//! The boundary culler: marks for despawn every bullet whose y-position has
//! passed beyond the bottom edge of the playfield.  It does not apply to
//! player or enemy entities, and it runs after movement and collision, so a
//! bullet that both hits something and exits bounds in the same tick is
//! removed exactly once (marking is idempotent).

use vstd::prelude::*;

use crate::entity::{Entity, EntityKind, HALF_HEIGHT};
use crate::world::EntityWorld;

verus! {

/// Whether a slot holds a bullet that has left the playfield through the
/// bottom edge.
pub open spec fn out_of_bounds(s: Option<Entity>) -> bool {
    match s {
        Some(e) => e.kind == EntityKind::Bullet && e.pos.y < -HALF_HEIGHT,
        None => false,
    }
}

/// One despawn mark after the culling pass: kept if already set, and set
/// if the slot holds an out-of-bounds bullet.
pub open spec fn cull_mark(s: Option<Entity>, d: bool) -> bool {
    d || out_of_bounds(s)
}

/// The despawn marks after the culling pass: every out-of-bounds bullet is
/// marked, every existing mark is kept.
pub open spec fn cull_dooms(slots: Seq<Option<Entity>>, doomed: Seq<bool>) -> Seq<bool> {
    Seq::new(doomed.len(), |i: int| cull_mark(if i < slots.len() {
        slots[i]
    } else {
        None
    }, doomed[i]))
}

/// Marks every bullet with `y < -HALF_HEIGHT` for despawn.
pub fn cull_offscreen(w: &mut EntityWorld)
    requires
        old(w).wf(),
    ensures
        final(w).slot_seq() == old(w).slot_seq(),
        final(w).doom_seq() == cull_dooms(old(w).slot_seq(), old(w).doom_seq()),
        final(w).wf(),
{
    let ghost s0 = w.slot_seq();
    let ghost d0 = w.doom_seq();
    let n = w.len();
    let mut i: usize = 0;
    while i < n
        invariant
            i <= n,
            n == s0.len(),
            n == d0.len(),
            w.wf(),
            w.slot_seq() == s0,
            w.doom_seq().len() == n,
            forall|j: int| 0 <= j < i ==> w.doom_seq()[j] == cull_mark(s0[j], d0[j]),
            forall|j: int| i <= j < n ==> w.doom_seq()[j] == d0[j],
        decreases n - i,
    {
        match w.get(i) {
            Some(e) => {
                if matches!(e.kind, EntityKind::Bullet) && e.pos.y < -HALF_HEIGHT {
                    w.mark_despawn(i);
                }
            },
            None => {},
        }
        i = i + 1;
    }
    assert(w.doom_seq() =~= cull_dooms(s0, d0));
}

} // verus!
