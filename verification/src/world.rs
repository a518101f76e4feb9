//! The entity world: an arena of entity slots with stable integer ids and a
//! parallel "marked for despawn" flag per slot.  Systems mark entities for
//! removal; removal is committed at one point per tick, so no system ever
//! observes a half-removed world.  Operations on unknown ids are no-ops.

use vstd::prelude::*;

use crate::entity::{is_kind, wf_slot, Entity, EntityKind};

verus! {

/// The doom flags after marking slot `id` (a no-op on an empty or unknown
/// slot, so despawning is idempotent and never aborts a tick).
pub open spec fn mark_spec(slots: Seq<Option<Entity>>, doomed: Seq<bool>, id: int) -> Seq<bool> {
    if 0 <= id < slots.len() && 0 <= id < doomed.len() && slots[id] is Some {
        doomed.update(id, true)
    } else {
        doomed
    }
}

/// The slots after replacing the entity in an occupied slot `id` by `e`
/// (a no-op on an empty or unknown slot).
pub open spec fn replace_spec(slots: Seq<Option<Entity>>, id: int, e: Entity) -> Seq<
    Option<Entity>,
> {
    if 0 <= id < slots.len() && slots[id] is Some {
        slots.update(id, Some(e))
    } else {
        slots
    }
}

/// The slots after committing despawns: every marked slot becomes empty,
/// every other slot is unchanged.
pub open spec fn committed_spec(slots: Seq<Option<Entity>>, doomed: Seq<bool>) -> Seq<
    Option<Entity>,
> {
    Seq::new(slots.len(), |i: int| if i < doomed.len() && doomed[i] {
        None
    } else {
        slots[i]
    })
}

/// The lowest slot index at or after `i` holding an entity of kind `k`.
pub open spec fn first_kind_from(slots: Seq<Option<Entity>>, k: EntityKind, i: int) -> Option<int>
    decreases slots.len() - i,
{
    if i < 0 || i >= slots.len() {
        None
    } else if is_kind(slots[i], k) {
        Some(i)
    } else {
        first_kind_from(slots, k, i + 1)
    }
}

/// The lowest slot index holding an entity of kind `k`.
pub open spec fn first_kind(slots: Seq<Option<Entity>>, k: EntityKind) -> Option<int> {
    first_kind_from(slots, k, 0)
}

/// Characterization of `first_kind_from`: a found index is the least match
/// at or after `i`; `None` means there is no match at or after `i`.
pub proof fn lemma_first_kind_from(slots: Seq<Option<Entity>>, k: EntityKind, i: int)
    requires
        0 <= i,
    ensures
        match first_kind_from(slots, k, i) {
            Some(p) => i <= p < slots.len() && is_kind(slots[p], k) && forall|j: int|
                i <= j < p ==> !is_kind(slots[j], k),
            None => forall|j: int| i <= j < slots.len() ==> !is_kind(slots[j], k),
        },
    decreases slots.len() - i,
{
    if 0 <= i < slots.len() && !is_kind(slots[i], k) {
        lemma_first_kind_from(slots, k, i + 1);
    }
}

/// Characterization of `first_kind` over the whole slot sequence.
pub proof fn lemma_first_kind(slots: Seq<Option<Entity>>, k: EntityKind)
    ensures
        match first_kind(slots, k) {
            Some(p) => 0 <= p < slots.len() && is_kind(slots[p], k) && forall|j: int|
                0 <= j < p ==> !is_kind(slots[j], k),
            None => forall|j: int| 0 <= j < slots.len() ==> !is_kind(slots[j], k),
        },
{
    lemma_first_kind_from(slots, k, 0);
}

/// The arena of entities.  Slot indices are entity ids; ids are never
/// reused within a session, so the number of slots only grows between
/// session resets and spawn order is reflected in id order.
pub struct EntityWorld {
    slots: Vec<Option<Entity>>,
    doomed: Vec<bool>,
}

impl EntityWorld {
    /// The slot sequence: `Some` for live entities, `None` for despawned ids.
    pub closed spec fn slot_seq(self) -> Seq<Option<Entity>> {
        self.slots@
    }

    /// The despawn marks, one per slot.
    pub closed spec fn doom_seq(self) -> Seq<bool> {
        self.doomed@
    }

    /// Structural well-formedness: one mark per slot, marks only on occupied
    /// slots, and every live entity is well-formed.
    pub open spec fn wf(self) -> bool {
        &&& self.slot_seq().len() == self.doom_seq().len()
        &&& forall|i: int|
            0 <= i < self.slot_seq().len() ==> (self.doom_seq()[i] ==> self.slot_seq()[i] is Some)
        &&& forall|i: int| 0 <= i < self.slot_seq().len() ==> wf_slot(#[trigger] self.slot_seq()[i])
    }

    /// An empty world.
    pub fn new() -> (w: Self)
        ensures
            w.slot_seq() == Seq::<Option<Entity>>::empty(),
            w.doom_seq() == Seq::<bool>::empty(),
            w.wf(),
    {
        EntityWorld { slots: Vec::new(), doomed: Vec::new() }
    }

    /// Number of slots (live or not).
    pub fn len(&self) -> (n: usize)
        ensures
            n == self.slot_seq().len(),
    {
        self.slots.len()
    }

    /// The contents of slot `id`; `None` on an unknown or despawned id.
    pub fn get(&self, id: usize) -> (r: Option<Entity>)
        ensures
            r == if id < self.slot_seq().len() {
                self.slot_seq()[id as int]
            } else {
                Option::<Entity>::None
            },
    {
        if id < self.slots.len() {
            self.slots[id]
        } else {
            None
        }
    }

    /// Whether slot `id` is marked for despawn (false on unknown ids).
    pub fn is_doomed(&self, id: usize) -> (r: bool)
        ensures
            r == (id < self.doom_seq().len() && self.doom_seq()[id as int]),
    {
        id < self.doomed.len() && self.doomed[id]
    }

    /// Adds an entity in a fresh slot and returns its id.
    pub fn spawn(&mut self, e: Entity) -> (id: usize)
        ensures
            id == old(self).slot_seq().len(),
            final(self).slot_seq() == old(self).slot_seq().push(Some(e)),
            final(self).doom_seq() == old(self).doom_seq().push(false),
    {
        let id = self.slots.len();
        self.slots.push(Some(e));
        self.doomed.push(false);
        id
    }

    /// Marks slot `id` for removal at the next commit point.  Idempotent;
    /// a no-op on unknown or already-empty ids.
    pub fn mark_despawn(&mut self, id: usize)
        ensures
            final(self).slot_seq() == old(self).slot_seq(),
            final(self).doom_seq() == mark_spec(
                old(self).slot_seq(),
                old(self).doom_seq(),
                id as int,
            ),
    {
        if id < self.slots.len() && id < self.doomed.len() && self.slots[id].is_some() {
            self.doomed[id] = true;
        }
    }

    /// Replaces the entity in an occupied slot; a no-op on unknown or empty
    /// ids.  The despawn marks are untouched.
    pub fn replace(&mut self, id: usize, e: Entity)
        ensures
            final(self).slot_seq() == replace_spec(old(self).slot_seq(), id as int, e),
            final(self).doom_seq() == old(self).doom_seq(),
    {
        if id < self.slots.len() && self.slots[id].is_some() {
            self.slots[id] = Some(e);
        }
    }

    /// Commits all pending despawns: marked slots become empty and every
    /// mark is cleared.  This is the single removal point of a tick.
    pub fn commit_despawns(&mut self)
        ensures
            final(self).slot_seq() == committed_spec(old(self).slot_seq(), old(self).doom_seq()),
            final(self).doom_seq() == Seq::new(old(self).doom_seq().len(), |i: int| false),
    {
        let ghost s0 = self.slots@;
        let ghost d0 = self.doomed@;
        let n = self.slots.len();
        let mut i: usize = 0;
        while i < n
            invariant
                i <= n,
                n == s0.len(),
                self.slots@.len() == n,
                self.doomed@ == d0,
                forall|j: int|
                    0 <= j < i ==> self.slots@[j] == committed_spec(s0, d0)[j],
                forall|j: int| i <= j < n ==> self.slots@[j] == s0[j],
            decreases n - i,
        {
            if i < self.doomed.len() && self.doomed[i] {
                self.slots[i] = None;
            }
            i = i + 1;
        }
        assert(self.slots@ =~= committed_spec(s0, d0));
        let m = self.doomed.len();
        let mut j: usize = 0;
        while j < m
            invariant
                j <= m,
                m == d0.len(),
                self.slots@ == committed_spec(s0, d0),
                self.doomed@.len() == m,
                forall|k: int| 0 <= k < j ==> !self.doomed@[k],
                forall|k: int| j <= k < m ==> self.doomed@[k] == d0[k],
            decreases m - j,
        {
            self.doomed[j] = false;
            j = j + 1;
        }
        assert(self.doomed@ =~= Seq::new(d0.len(), |i: int| false));
    }

    /// Empties the world entirely (session reset).
    pub fn clear(&mut self)
        ensures
            final(self).slot_seq() == Seq::<Option<Entity>>::empty(),
            final(self).doom_seq() == Seq::<bool>::empty(),
    {
        self.slots = Vec::new();
        self.doomed = Vec::new();
    }

    /// The lowest id holding an entity of kind `k`, if any.
    pub fn find_first(&self, k: EntityKind) -> (r: Option<usize>)
        ensures
            match r {
                Some(id) => first_kind(self.slot_seq(), k) == Some(id as int),
                None => first_kind(self.slot_seq(), k) is None,
            },
    {
        let n = self.slots.len();
        let mut i: usize = 0;
        while i < n
            invariant
                i <= n,
                n == self.slot_seq().len(),
                forall|j: int| 0 <= j < i ==> !is_kind(self.slot_seq()[j], k),
            decreases n - i,
        {
            let found = match &self.slots[i] {
                Some(e) => e.kind == k,
                None => false,
            };
            if found {
                proof {
                    lemma_first_kind_skip(self.slot_seq(), k, i as int);
                }
                return Some(i);
            }
            i = i + 1;
        }
        proof {
            lemma_first_kind_skip(self.slot_seq(), k, n as int);
        }
        None
    }
}

/// If no slot before `i` holds kind `k`, the search over the whole sequence
/// agrees with the search starting at `i`.
pub proof fn lemma_first_kind_skip(slots: Seq<Option<Entity>>, k: EntityKind, i: int)
    requires
        0 <= i <= slots.len(),
        forall|j: int| 0 <= j < i ==> !is_kind(slots[j], k),
    ensures
        first_kind(slots, k) == first_kind_from(slots, k, i),
    decreases i,
{
    if i > 0 {
        lemma_first_kind_skip(slots, k, i - 1);
    }
}

} // verus!
