//! System-level behaviour: the entity world, collision resolution and its
//! determinism, boundary culling, the event bus, scoring, input intent
//! resolution and the state machine's transition table.

use invaders_core::collision::run_collisions;
use invaders_core::culling::cull_offscreen;
use invaders_core::entity::{
    make_bullet, make_player, Entity, EntityKind, Vec2i, BULLET_STEP, HALF_HEIGHT,
};
use invaders_core::events::{EventBus, GameEvent};
use invaders_core::input::{resolve_intent, KeySnapshot};
use invaders_core::movement::{apply_velocity, handle_shoot, move_player};
use invaders_core::score::{count_shoot_events, Scoreboard};
use invaders_core::state::{transition, AppState, StateTrigger};
use invaders_core::world::EntityWorld;

fn enemy_at(x: i64, y: i64) -> Entity {
    Entity {
        kind: EntityKind::Enemy,
        pos: Vec2i { x, y },
        vel: None,
        collider: Some(Vec2i { x: 780, y: 480 }),
    }
}

fn bullet_at(x: i64, y: i64) -> Entity {
    let mut b = make_bullet(Vec2i { x, y });
    b.vel = Some(Vec2i { x: 0, y: BULLET_STEP });
    b
}

#[test]
fn world_operations_are_safe_on_unknown_ids() {
    let mut w = EntityWorld::new();
    assert_eq!(w.len(), 0);
    assert!(w.get(0).is_none());
    w.mark_despawn(7);
    w.replace(7, make_player());
    w.commit_despawns();
    assert_eq!(w.len(), 0);

    let id = w.spawn(make_player());
    assert_eq!(id, 0);
    assert!(matches!(w.get(0).unwrap().kind, EntityKind::Player));
    // Despawn is deferred and idempotent.
    w.mark_despawn(0);
    w.mark_despawn(0);
    assert!(w.get(0).is_some());
    w.commit_despawns();
    assert!(w.get(0).is_none());
    assert_eq!(w.len(), 1);
    // Ids are not reused: a new spawn gets a fresh slot.
    let id2 = w.spawn(make_player());
    assert_eq!(id2, 1);
}

#[test]
fn velocity_integration_moves_bullets_only() {
    let mut w = EntityWorld::new();
    w.spawn(make_player());
    w.spawn(bullet_at(5, 10));
    apply_velocity(&mut w);
    assert_eq!(w.get(0).unwrap().pos.y, make_player().pos.y);
    assert_eq!(w.get(1).unwrap().pos.x, 5);
    assert_eq!(w.get(1).unwrap().pos.y, 10 + BULLET_STEP);
}

#[test]
fn shoot_spawns_bullet_at_player_and_emits_event() {
    let mut w = EntityWorld::new();
    let mut bus = EventBus::new();
    w.spawn(make_player());
    move_player(&mut w, 1);
    handle_shoot(&mut w, &mut bus, true);
    assert_eq!(w.len(), 2);
    let b = w.get(1).unwrap();
    assert!(matches!(b.kind, EntityKind::Bullet));
    assert_eq!(b.pos.x, w.get(0).unwrap().pos.x);
    let evs = bus.take_events();
    assert_eq!(evs.len(), 1);
    assert!(matches!(evs[0], GameEvent::Shoot));
    // Without an edge nothing happens.
    handle_shoot(&mut w, &mut bus, false);
    assert_eq!(w.len(), 2);
    assert_eq!(bus.len(), 0);
}

#[test]
fn collision_two_bullets_one_enemy_resolves_lower_id() {
    let mut w = EntityWorld::new();
    let mut bus = EventBus::new();
    let b0 = w.spawn(bullet_at(0, 0));
    let b1 = w.spawn(bullet_at(10, 0));
    let e = w.spawn(enemy_at(0, 100));
    run_collisions(&mut w, &mut bus);
    let evs = bus.take_events();
    // Exactly one collision resolves, the lower bullet id wins.
    assert_eq!(evs.len(), 1);
    match evs[0] {
        GameEvent::Collision { bullet, target, target_kind } => {
            assert_eq!(bullet, b0);
            assert_eq!(target, e);
            assert!(matches!(target_kind, EntityKind::Enemy));
        }
        _ => panic!("expected a collision event"),
    }
    // Exactly one score increment, not two.
    let mut sb = Scoreboard::new();
    sb.apply_events(&evs);
    assert_eq!(sb.score, 1);
    // Both pair members despawn; the losing bullet survives.
    w.commit_despawns();
    assert!(w.get(b0).is_none());
    assert!(w.get(e).is_none());
    assert!(w.get(b1).is_some());
}

#[test]
fn collision_bullet_resolves_at_most_one_enemy() {
    let mut w = EntityWorld::new();
    let mut bus = EventBus::new();
    let b = w.spawn(bullet_at(0, 0));
    let e0 = w.spawn(enemy_at(-5, 50));
    let e1 = w.spawn(enemy_at(5, 50));
    run_collisions(&mut w, &mut bus);
    let evs = bus.take_events();
    assert_eq!(evs.len(), 1);
    match evs[0] {
        GameEvent::Collision { bullet, target, .. } => {
            assert_eq!(bullet, b);
            assert_eq!(target, e0);
        }
        _ => panic!("expected a collision event"),
    }
    w.commit_despawns();
    assert!(w.get(b).is_none());
    assert!(w.get(e0).is_none());
    assert!(w.get(e1).is_some());
}

#[test]
fn collision_ignores_distant_and_invalid_pairs() {
    let mut w = EntityWorld::new();
    let mut bus = EventBus::new();
    w.spawn(bullet_at(0, 0));
    w.spawn(enemy_at(20000, 20000));
    w.spawn(make_player());
    run_collisions(&mut w, &mut bus);
    assert_eq!(bus.len(), 0);
    w.commit_despawns();
    assert_eq!(w.len(), 3);
    assert!(w.get(0).is_some());
    assert!(w.get(1).is_some());
    assert!(w.get(2).is_some());
}

#[test]
fn culler_removes_bullets_below_bottom_edge_only() {
    let mut w = EntityWorld::new();
    let sunk = w.spawn(bullet_at(0, -HALF_HEIGHT - 1));
    let edge = w.spawn(bullet_at(0, -HALF_HEIGHT));
    let deep_player = w.spawn(Entity {
        kind: EntityKind::Player,
        pos: Vec2i { x: 0, y: -HALF_HEIGHT - 500 },
        vel: None,
        collider: None,
    });
    cull_offscreen(&mut w);
    w.commit_despawns();
    assert!(w.get(sunk).is_none());
    assert!(w.get(edge).is_some());
    assert!(w.get(deep_player).is_some());
}

#[test]
fn event_bus_drains_in_order_and_empties() {
    let mut bus = EventBus::new();
    bus.emit(GameEvent::Shoot);
    bus.emit(GameEvent::Collision { bullet: 3, target: 4, target_kind: EntityKind::Enemy });
    bus.emit(GameEvent::Shoot);
    assert_eq!(bus.len(), 3);
    let evs = bus.take_events();
    assert_eq!(evs.len(), 3);
    assert!(matches!(evs[0], GameEvent::Shoot));
    assert!(matches!(evs[1], GameEvent::Collision { bullet: 3, .. }));
    assert!(matches!(evs[2], GameEvent::Shoot));
    assert_eq!(bus.len(), 0);
    assert_eq!(count_shoot_events(&evs), 2);
}

#[test]
fn score_counts_enemy_kills_only() {
    let mut sb = Scoreboard::new();
    sb.on_event(&GameEvent::Shoot);
    assert_eq!(sb.score, 0);
    sb.on_event(&GameEvent::Collision { bullet: 0, target: 1, target_kind: EntityKind::Enemy });
    assert_eq!(sb.score, 1);
    sb.on_event(&GameEvent::Collision { bullet: 0, target: 2, target_kind: EntityKind::Player });
    assert_eq!(sb.score, 1);
    sb.reset();
    assert_eq!(sb.score, 0);
}

#[test]
fn intent_resolution() {
    let none = resolve_intent(&KeySnapshot { left: false, right: false, shoot: false }, false);
    assert_eq!(none.dir, 0);
    assert!(!none.shoot_edge);
    let left = resolve_intent(&KeySnapshot { left: true, right: false, shoot: false }, false);
    assert_eq!(left.dir, -1);
    let right = resolve_intent(&KeySnapshot { left: false, right: true, shoot: false }, false);
    assert_eq!(right.dir, 1);
    let both = resolve_intent(&KeySnapshot { left: true, right: true, shoot: true }, false);
    assert_eq!(both.dir, 0);
    assert!(both.shoot_edge);
    let held = resolve_intent(&KeySnapshot { left: false, right: false, shoot: true }, true);
    assert!(!held.shoot_edge);
    let released = resolve_intent(&KeySnapshot { left: false, right: false, shoot: false }, true);
    assert!(!released.shoot_edge);
}

#[test]
fn transition_table() {
    assert!(matches!(transition(AppState::Menu, StateTrigger::Start), AppState::Running));
    assert!(matches!(transition(AppState::Running, StateTrigger::PlayerDestroyed), AppState::GameOver));
    assert!(matches!(transition(AppState::GameOver, StateTrigger::Restart), AppState::Menu));
    // Invalid transitions are no-ops, not errors.
    assert!(matches!(transition(AppState::Menu, StateTrigger::Restart), AppState::Menu));
    assert!(matches!(transition(AppState::Menu, StateTrigger::PlayerDestroyed), AppState::Menu));
    assert!(matches!(transition(AppState::Running, StateTrigger::Start), AppState::Running));
    assert!(matches!(transition(AppState::Running, StateTrigger::Restart), AppState::Running));
    assert!(matches!(transition(AppState::GameOver, StateTrigger::Start), AppState::GameOver));
    assert!(matches!(
        transition(AppState::GameOver, StateTrigger::PlayerDestroyed),
        AppState::GameOver
    ));
}
