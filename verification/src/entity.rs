//! The entity/component data model: positions, velocities, colliders and
//! entity kinds, together with the playfield constants and the
//! well-formedness predicate every live entity satisfies.

use vstd::prelude::*;

verus! {

/// Sub-units per world unit.  The tick rate is also 60 ticks per second, so
/// a speed of `v` world units per second is exactly `v` sub-units per tick.
pub const SUBDIV: i64 = 60;

/// Half the playfield width, in sub-units (640 world units).
pub const HALF_WIDTH: i64 = 38400;

/// Half the playfield height, in sub-units (360 world units).
pub const HALF_HEIGHT: i64 = 21600;

/// Margin kept between the player and the playfield edge (32 world units).
pub const WALL_MARGIN: i64 = 1920;

/// Leftmost x-position the player may occupy.
pub const LEFT_BOUND: i64 = -HALF_WIDTH + WALL_MARGIN;

/// Rightmost x-position the player may occupy.
pub const RIGHT_BOUND: i64 = HALF_WIDTH - WALL_MARGIN;

/// Horizontal distance the player covers in one tick (500 units/second).
pub const PLAYER_STEP: i64 = 500;

/// Vertical distance a bullet covers in one tick (400 units/second).
pub const BULLET_STEP: i64 = 400;

/// The player starts 50 world units above the bottom edge.
pub const PLAYER_START_Y: i64 = -HALF_HEIGHT + 3000;

/// Positions are kept inside this range; it is far outside the playfield and
/// exists only so that integer arithmetic on coordinates cannot overflow.
pub const POS_LIMIT: i64 = 1_000_000_000_000;

/// Bound on each velocity component, in sub-units per tick.
pub const VEL_LIMIT: i64 = 1_000_000;

/// Bound on each collider half-extent.
pub const EXTENT_LIMIT: i64 = 1_000_000;

/// Bullet collider half-extents (a 10 x 25 world-unit quad).
pub const BULLET_HALF_WIDTH: i64 = 300;

/// See `BULLET_HALF_WIDTH`.
pub const BULLET_HALF_HEIGHT: i64 = 750;

/// Player collider half-extents.
pub const PLAYER_HALF_WIDTH: i64 = 960;

/// See `PLAYER_HALF_WIDTH`.
pub const PLAYER_HALF_HEIGHT: i64 = 480;

/// The kind of an entity; drives collision-pair eligibility and despawn
/// policy.  Every entity has exactly one kind.
#[derive(Clone, Copy, Debug, PartialEq, Eq, Structural)]
pub enum EntityKind {
    Player,
    Bullet,
    Enemy,
}

/// A 2D integer vector in playfield sub-units.
#[derive(Clone, Copy, Debug, PartialEq, Eq, Structural)]
pub struct Vec2i {
    pub x: i64,
    pub y: i64,
}

/// One entity: a kind discriminant plus optional component slots.  Every
/// entity has a position (so collider-bearing entities always have one);
/// only velocity-integrated entities (bullets) carry `vel`; only
/// collision-participating entities carry `collider` (its half-extents).
#[derive(Clone, Copy, Debug)]
pub struct Entity {
    pub kind: EntityKind,
    pub pos: Vec2i,
    pub vel: Option<Vec2i>,
    pub collider: Option<Vec2i>,
}

/// Both components of `v` lie in the representable coordinate range.
pub open spec fn in_pos_range(v: Vec2i) -> bool {
    &&& -POS_LIMIT <= v.x <= POS_LIMIT
    &&& -POS_LIMIT <= v.y <= POS_LIMIT
}

/// Both components of a velocity are bounded.
pub open spec fn wf_vel(v: Vec2i) -> bool {
    &&& -VEL_LIMIT <= v.x <= VEL_LIMIT
    &&& -VEL_LIMIT <= v.y <= VEL_LIMIT
}

/// Collider half-extents are non-negative and bounded.
pub open spec fn wf_extents(v: Vec2i) -> bool {
    &&& 0 <= v.x <= EXTENT_LIMIT
    &&& 0 <= v.y <= EXTENT_LIMIT
}

/// Well-formedness of a single entity: all its numeric components are in
/// range, so per-tick coordinate arithmetic cannot overflow.
pub open spec fn wf_entity(e: Entity) -> bool {
    &&& in_pos_range(e.pos)
    &&& match e.vel {
        Some(v) => wf_vel(v),
        None => true,
    }
    &&& match e.collider {
        Some(c) => wf_extents(c),
        None => true,
    }
}

/// Well-formedness of a slot: empty, or holding a well-formed entity.
pub open spec fn wf_slot(s: Option<Entity>) -> bool {
    match s {
        Some(e) => wf_entity(e),
        None => true,
    }
}

/// The slot holds an entity of kind `k`.
pub open spec fn is_kind(s: Option<Entity>, k: EntityKind) -> bool {
    match s {
        Some(e) => e.kind == k,
        None => false,
    }
}

/// The entity in an occupied slot.
pub open spec fn slot_entity(s: Option<Entity>) -> Entity
    recommends
        s is Some,
{
    match s {
        Some(e) => e,
        None => arbitrary(),
    }
}

/// `x` clamped into `[lo, hi]`.
pub open spec fn clamp_i(x: int, lo: int, hi: int) -> int {
    if x < lo {
        lo
    } else if x > hi {
        hi
    } else {
        x
    }
}

/// The player entity spawned on entry into the running state: centered
/// horizontally, near the bottom edge, collision-participating, and not
/// velocity-integrated (the player moves by direct intent).
pub open spec fn initial_player() -> Entity {
    Entity {
        kind: EntityKind::Player,
        pos: Vec2i { x: 0, y: PLAYER_START_Y },
        vel: None,
        collider: Some(Vec2i { x: PLAYER_HALF_WIDTH, y: PLAYER_HALF_HEIGHT }),
    }
}

/// A bullet spawned at `p`: moves straight up at `BULLET_STEP` per tick and
/// participates in collisions.
pub open spec fn bullet_from(p: Vec2i) -> Entity {
    Entity {
        kind: EntityKind::Bullet,
        pos: p,
        vel: Some(Vec2i { x: 0, y: BULLET_STEP }),
        collider: Some(Vec2i { x: BULLET_HALF_WIDTH, y: BULLET_HALF_HEIGHT }),
    }
}

/// Builds the initial player entity.
pub fn make_player() -> (e: Entity)
    ensures
        e == initial_player(),
{
    Entity {
        kind: EntityKind::Player,
        pos: Vec2i { x: 0, y: PLAYER_START_Y },
        vel: None,
        collider: Some(Vec2i { x: PLAYER_HALF_WIDTH, y: PLAYER_HALF_HEIGHT }),
    }
}

/// Builds a bullet entity at position `p`.
pub fn make_bullet(p: Vec2i) -> (e: Entity)
    ensures
        e == bullet_from(p),
{
    Entity {
        kind: EntityKind::Bullet,
        pos: p,
        vel: Some(Vec2i { x: 0, y: BULLET_STEP }),
        collider: Some(Vec2i { x: BULLET_HALF_WIDTH, y: BULLET_HALF_HEIGHT }),
    }
}

} // verus!
