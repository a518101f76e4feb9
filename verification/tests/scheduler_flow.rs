//! End-to-end scheduler behaviour: the state machine flow, shoot
//! edge-triggering, boundary clamping and the fixed-step accumulator.

use invaders_core::entity::{EntityKind, BULLET_STEP, LEFT_BOUND, PLAYER_START_Y, RIGHT_BOUND};
use invaders_core::input::KeySnapshot;
use invaders_core::scheduler::{Scheduler, TICK_NANOS};
use invaders_core::state::{AppState, GameTrigger};

fn idle() -> KeySnapshot {
    KeySnapshot { left: false, right: false, shoot: false }
}

fn shooting() -> KeySnapshot {
    KeySnapshot { left: false, right: false, shoot: true }
}

#[test]
fn end_to_end_scenario() {
    let mut s = Scheduler::new();
    assert!(matches!(s.state(), AppState::Menu));
    assert_eq!(s.entity_count(), 0);

    // A menu tick without a trigger changes nothing.
    s.tick(&shooting(), None);
    assert!(matches!(s.state(), AppState::Menu));
    assert_eq!(s.entity_count(), 0);

    // Start: running, score 0, exactly one player at the start position.
    s.tick(&idle(), Some(GameTrigger::Start));
    assert!(matches!(s.state(), AppState::Running));
    assert_eq!(s.score(), 0);
    assert_eq!(s.entity_count(), 1);
    let p = s.entity(0).unwrap();
    assert!(matches!(p.kind, EntityKind::Player));
    assert_eq!(p.pos.x, 0);
    assert_eq!(p.pos.y, PLAYER_START_Y);

    // Tick 1 with shoot held: exactly one bullet and one sound.
    let r1 = s.tick(&shooting(), None);
    assert_eq!(r1.shoot_sounds, 1);
    assert_eq!(s.entity_count(), 2);
    let b = s.entity(1).unwrap();
    assert!(matches!(b.kind, EntityKind::Bullet));
    assert_eq!(b.pos.x, 0);
    assert_eq!(b.pos.y, PLAYER_START_Y);

    // Ticks 2 and 3 still holding: no new bullet, no sound; the bullet
    // climbs by exactly BULLET_STEP per tick.
    let r2 = s.tick(&shooting(), None);
    assert_eq!(r2.shoot_sounds, 0);
    assert_eq!(s.entity_count(), 2);
    assert_eq!(s.entity(1).unwrap().pos.y, PLAYER_START_Y + BULLET_STEP);
    let r3 = s.tick(&shooting(), None);
    assert_eq!(r3.shoot_sounds, 0);
    assert_eq!(s.entity_count(), 2);
    assert_eq!(s.entity(1).unwrap().pos.y, PLAYER_START_Y + 2 * BULLET_STEP);

    // Release, then press again: a new edge, a new bullet.
    let r4 = s.tick(&idle(), None);
    assert_eq!(r4.shoot_sounds, 0);
    assert_eq!(s.entity_count(), 2);
    let r5 = s.tick(&shooting(), None);
    assert_eq!(r5.shoot_sounds, 1);
    assert_eq!(s.entity_count(), 3);
    assert!(matches!(s.entity(2).unwrap().kind, EntityKind::Bullet));

    // Score never moved: no enemy was ever destroyed.
    assert_eq!(s.score(), 0);
}

#[test]
fn player_clamped_at_right_edge() {
    let mut s = Scheduler::new();
    s.tick(&idle(), Some(GameTrigger::Start));
    let right = KeySnapshot { left: false, right: true, shoot: false };
    for _ in 0..200 {
        s.tick(&right, None);
        let x = s.entity(0).unwrap().pos.x;
        assert!(x <= RIGHT_BOUND);
        assert!(x >= LEFT_BOUND);
    }
    assert_eq!(s.entity(0).unwrap().pos.x, RIGHT_BOUND);
}

#[test]
fn player_clamped_at_left_edge() {
    let mut s = Scheduler::new();
    s.tick(&idle(), Some(GameTrigger::Start));
    let left = KeySnapshot { left: true, right: false, shoot: false };
    for _ in 0..200 {
        s.tick(&left, None);
    }
    assert_eq!(s.entity(0).unwrap().pos.x, LEFT_BOUND);
    // Opposite keys cancel out.
    let both = KeySnapshot { left: true, right: true, shoot: false };
    s.tick(&both, None);
    assert_eq!(s.entity(0).unwrap().pos.x, LEFT_BOUND);
}

#[test]
fn menu_gates_gameplay_systems() {
    let mut s = Scheduler::new();
    // Movement/shoot input in the menu resolves no intent and runs nothing.
    for _ in 0..5 {
        let r = s.tick(&shooting(), None);
        assert_eq!(r.shoot_sounds, 0);
    }
    assert_eq!(s.entity_count(), 0);
    assert_eq!(s.score(), 0);
    assert!(matches!(s.state(), AppState::Menu));
    // A restart trigger in the menu is an invalid transition: a no-op.
    s.tick(&idle(), Some(GameTrigger::Restart));
    assert!(matches!(s.state(), AppState::Menu));
}

#[test]
fn running_entry_resets_world_and_score() {
    let mut s = Scheduler::new();
    s.tick(&idle(), Some(GameTrigger::Start));
    s.tick(&shooting(), None);
    s.tick(&idle(), None);
    s.tick(&shooting(), None);
    assert_eq!(s.entity_count(), 3);
    // A start trigger while running is invalid: a no-op.
    s.tick(&idle(), Some(GameTrigger::Start));
    assert!(matches!(s.state(), AppState::Running));
    assert_eq!(s.entity_count(), 3);
}

#[test]
fn held_shoot_from_menu_entry_needs_fresh_edge() {
    let mut s = Scheduler::new();
    // Entry into running resets edge tracking: a key already held at entry
    // still rises on the first running tick.
    s.tick(&shooting(), Some(GameTrigger::Start));
    assert_eq!(s.entity_count(), 1);
    let r = s.tick(&shooting(), None);
    assert_eq!(r.shoot_sounds, 1);
    assert_eq!(s.entity_count(), 2);
}

#[test]
fn accumulator_carries_remainder() {
    let mut s = Scheduler::new();
    assert_eq!(s.accumulate(TICK_NANOS), 1);
    assert_eq!(s.accumulate(0), 0);
    // Two half ticks make one step, with the remainder carried.
    let half = TICK_NANOS / 2;
    assert_eq!(s.accumulate(half), 0);
    assert_eq!(s.accumulate(half + 1), 1);
    // A long frame advances several whole steps at once.
    assert_eq!(s.accumulate(10 * TICK_NANOS), 10);
}
