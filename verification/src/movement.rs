//! The movement system.  Per tick it first applies the player's horizontal
//! intent with a hard clamp to the playfield, then integrates velocity into
//! position for every velocity-carrying entity, and finally handles a shoot
//! edge by spawning one bullet at the player's position and emitting one
//! shoot event.

use vstd::prelude::*;

use crate::entity::{
    bullet_from, clamp_i, make_bullet, slot_entity, Entity, EntityKind, Vec2i, LEFT_BOUND,
    PLAYER_STEP, POS_LIMIT, RIGHT_BOUND,
};
use crate::events::{EventBus, GameEvent};
use crate::world::{first_kind, lemma_first_kind, EntityWorld};

verus! {

/// One slot after the player-intent step: a player entity moves by
/// `dir * PLAYER_STEP` and its x-position is clamped into
/// `[LEFT_BOUND, RIGHT_BOUND]`; every other slot is unchanged.
pub open spec fn moved_slot(s: Option<Entity>, dir: int) -> Option<Entity> {
    match s {
        Some(e) => if e.kind == EntityKind::Player {
            Some(
                Entity {
                    kind: e.kind,
                    pos: Vec2i {
                        x: clamp_i(
                            e.pos.x + dir * PLAYER_STEP,
                            LEFT_BOUND as int,
                            RIGHT_BOUND as int,
                        ) as i64,
                        y: e.pos.y,
                    },
                    vel: e.vel,
                    collider: e.collider,
                },
            )
        } else {
            Some(e)
        },
        None => None,
    }
}

/// All slots after the player-intent step.
pub open spec fn moved_players(slots: Seq<Option<Entity>>, dir: int) -> Seq<Option<Entity>> {
    Seq::new(slots.len(), |i: int| moved_slot(slots[i], dir))
}

/// A position plus a velocity, each component clamped into the
/// representable coordinate range.
pub open spec fn stepped_pos(p: Vec2i, v: Vec2i) -> Vec2i {
    Vec2i {
        x: clamp_i(p.x + v.x, -POS_LIMIT as int, POS_LIMIT as int) as i64,
        y: clamp_i(p.y + v.y, -POS_LIMIT as int, POS_LIMIT as int) as i64,
    }
}

/// One slot after velocity integration: entities carrying a velocity move
/// by it; everything else is unchanged.
pub open spec fn integrated_slot(s: Option<Entity>) -> Option<Entity> {
    match s {
        Some(e) => match e.vel {
            Some(v) => Some(
                Entity { kind: e.kind, pos: stepped_pos(e.pos, v), vel: e.vel, collider: e.collider },
            ),
            None => Some(e),
        },
        None => None,
    }
}

/// All slots after velocity integration.
pub open spec fn integrated(slots: Seq<Option<Entity>>) -> Seq<Option<Entity>> {
    Seq::new(slots.len(), |i: int| integrated_slot(slots[i]))
}

/// The slots after the shoot step: on a shoot edge, if a player exists, one
/// bullet is appended at the player's position.
pub open spec fn shoot_slots(slots: Seq<Option<Entity>>, edge: bool) -> Seq<Option<Entity>> {
    if edge {
        match first_kind(slots, EntityKind::Player) {
            Some(p) => slots.push(Some(bullet_from(slot_entity(slots[p]).pos))),
            None => slots,
        }
    } else {
        slots
    }
}

/// The despawn marks after the shoot step (a fresh bullet is not marked).
pub open spec fn shoot_dooms(doomed: Seq<bool>, slots: Seq<Option<Entity>>, edge: bool) -> Seq<
    bool,
> {
    if edge && first_kind(slots, EntityKind::Player) is Some {
        doomed.push(false)
    } else {
        doomed
    }
}

/// The event queue after the shoot step: one shoot event per spawned bullet.
pub open spec fn shoot_events(q: Seq<GameEvent>, slots: Seq<Option<Entity>>, edge: bool) -> Seq<
    GameEvent,
> {
    if edge && first_kind(slots, EntityKind::Player) is Some {
        q.push(GameEvent::Shoot)
    } else {
        q
    }
}

/// Applies the player's horizontal intent.  The resulting x-position is a
/// hard clamp into `[LEFT_BOUND, RIGHT_BOUND]`: the player never exits the
/// playfield, regardless of how long the input is held.
pub fn move_player(w: &mut EntityWorld, dir: i64)
    requires
        old(w).wf(),
        -1 <= dir <= 1,
    ensures
        final(w).slot_seq() == moved_players(old(w).slot_seq(), dir as int),
        final(w).doom_seq() == old(w).doom_seq(),
        final(w).wf(),
{
    let ghost s0 = w.slot_seq();
    let ghost d0 = w.doom_seq();
    let n = w.len();
    let mut i: usize = 0;
    while i < n
        invariant
            i <= n,
            n == s0.len(),
            -1 <= dir <= 1,
            w.wf(),
            w.slot_seq().len() == n,
            w.doom_seq() == d0,
            forall|j: int| 0 <= j < i ==> w.slot_seq()[j] == moved_slot(s0[j], dir as int),
            forall|j: int| i <= j < n ==> w.slot_seq()[j] == s0[j],
        decreases n - i,
    {
        match w.get(i) {
            Some(e) => {
                if matches!(e.kind, EntityKind::Player) {
                    let raw: i64 = e.pos.x + dir * PLAYER_STEP;
                    let nx: i64 = if raw < LEFT_BOUND {
                        LEFT_BOUND
                    } else if raw > RIGHT_BOUND {
                        RIGHT_BOUND
                    } else {
                        raw
                    };
                    let moved = Entity {
                        kind: e.kind,
                        pos: Vec2i { x: nx, y: e.pos.y },
                        vel: e.vel,
                        collider: e.collider,
                    };
                    w.replace(i, moved);
                }
            },
            None => {},
        }
        i = i + 1;
    }
    assert(w.slot_seq() =~= moved_players(s0, dir as int));
}

/// Integrates velocity into position for every entity that carries one
/// (bullets).  Positions saturate at the representable coordinate range,
/// which lies far outside the playfield; within it the step is exact.
pub fn apply_velocity(w: &mut EntityWorld)
    requires
        old(w).wf(),
    ensures
        final(w).slot_seq() == integrated(old(w).slot_seq()),
        final(w).doom_seq() == old(w).doom_seq(),
        final(w).wf(),
{
    let ghost s0 = w.slot_seq();
    let ghost d0 = w.doom_seq();
    let n = w.len();
    let mut i: usize = 0;
    while i < n
        invariant
            i <= n,
            n == s0.len(),
            w.wf(),
            w.slot_seq().len() == n,
            w.doom_seq() == d0,
            forall|j: int| 0 <= j < i ==> w.slot_seq()[j] == integrated_slot(s0[j]),
            forall|j: int| i <= j < n ==> w.slot_seq()[j] == s0[j],
        decreases n - i,
    {
        match w.get(i) {
            Some(e) => {
                match e.vel {
                    Some(v) => {
                        let rx: i64 = e.pos.x + v.x;
                        let ry: i64 = e.pos.y + v.y;
                        let nx: i64 = if rx < -POS_LIMIT {
                            -POS_LIMIT
                        } else if rx > POS_LIMIT {
                            POS_LIMIT
                        } else {
                            rx
                        };
                        let ny: i64 = if ry < -POS_LIMIT {
                            -POS_LIMIT
                        } else if ry > POS_LIMIT {
                            POS_LIMIT
                        } else {
                            ry
                        };
                        let moved = Entity {
                            kind: e.kind,
                            pos: Vec2i { x: nx, y: ny },
                            vel: e.vel,
                            collider: e.collider,
                        };
                        w.replace(i, moved);
                    },
                    None => {},
                }
            },
            None => {},
        }
        i = i + 1;
    }
    assert(w.slot_seq() =~= integrated(s0));
}

/// Handles the shoot intent.  On a rising edge (and only then), exactly one
/// bullet is spawned at the player's current position with a fixed upward
/// velocity, and exactly one shoot event is emitted; holding the input
/// spawns nothing further until it is released and pressed again.
pub fn handle_shoot(w: &mut EntityWorld, bus: &mut EventBus, shoot_edge: bool)
    requires
        old(w).wf(),
    ensures
        final(w).slot_seq() == shoot_slots(old(w).slot_seq(), shoot_edge),
        final(w).doom_seq() == shoot_dooms(old(w).doom_seq(), old(w).slot_seq(), shoot_edge),
        final(bus).queue_seq() == shoot_events(
            old(bus).queue_seq(),
            old(w).slot_seq(),
            shoot_edge,
        ),
        final(w).wf(),
{
    if shoot_edge {
        match w.find_first(EntityKind::Player) {
            Some(id) => {
                proof {
                    lemma_first_kind(w.slot_seq(), EntityKind::Player);
                }
                let e = w.get(id).unwrap();
                let bullet = make_bullet(e.pos);
                w.spawn(bullet);
                bus.emit(GameEvent::Shoot);
            },
            None => {},
        }
    }
}

} // verus!
