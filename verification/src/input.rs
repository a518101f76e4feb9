//! The input intent resolver: turns a polled key-state snapshot into a
//! player movement/shoot intent.  Shooting is edge-triggered: it fires only
//! on a transition of the shoot key from not-held to held.

use vstd::prelude::*;

verus! {

/// A per-tick snapshot of the keys the core cares about, as plain values.
/// Raw keyboard polling happens outside the core.
#[derive(Clone, Copy, Debug, PartialEq, Eq, Structural)]
pub struct KeySnapshot {
    pub left: bool,
    pub right: bool,
    pub shoot: bool,
}

/// The player's resolved intent for one tick.
#[derive(Clone, Copy, Debug, PartialEq, Eq, Structural)]
pub struct MoveIntent {
    /// Horizontal direction in {-1, 0, +1}.
    pub dir: i64,
    /// True exactly on a rising edge of the shoot input.
    pub shoot_edge: bool,
}

/// Horizontal direction encoded by a snapshot: right minus left.
pub open spec fn dir_of(s: KeySnapshot) -> int {
    (if s.right {
        1int
    } else {
        0int
    }) - (if s.left {
        1int
    } else {
        0int
    })
}

/// Rising edge of the shoot input: held now, not held on the previous tick.
pub open spec fn edge_of(s: KeySnapshot, prev_shoot: bool) -> bool {
    s.shoot && !prev_shoot
}

/// Resolves a key-state snapshot into a movement/shoot intent, given
/// whether the shoot key was held on the previous tick.
pub fn resolve_intent(s: &KeySnapshot, prev_shoot: bool) -> (r: MoveIntent)
    ensures
        r.dir == dir_of(*s),
        r.shoot_edge == edge_of(*s, prev_shoot),
        -1 <= r.dir <= 1,
{
    let mut dir: i64 = 0;
    if s.left {
        dir = dir - 1;
    }
    if s.right {
        dir = dir + 1;
    }
    MoveIntent { dir, shoot_edge: s.shoot && !prev_shoot }
}

} // verus!
