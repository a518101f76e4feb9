//! The application state machine: Menu, Running, GameOver.  Valid
//! transitions are Menu -> Running on an explicit start trigger,
//! Running -> GameOver when the player entity is destroyed, and
//! GameOver -> Menu on an explicit restart trigger.  Invalid transitions
//! are rejected as no-ops, never errors.

use vstd::prelude::*;

verus! {

/// The application state; exactly one value is active at any time.
#[derive(Clone, Copy, Debug, PartialEq, Eq, Structural)]
pub enum AppState {
    Menu,
    Running,
    GameOver,
}

/// An externally sourced UI trigger (a menu activation).
#[derive(Clone, Copy, Debug, PartialEq, Eq, Structural)]
pub enum GameTrigger {
    /// Start a run from the menu.
    Start,
    /// Return from the game-over screen to the menu.
    Restart,
}

/// Everything that can drive a state transition: the two UI triggers plus
/// the internal condition that the player entity was removed.
#[derive(Clone, Copy, Debug, PartialEq, Eq, Structural)]
pub enum StateTrigger {
    Start,
    Restart,
    PlayerDestroyed,
}

/// The transition relation of the state machine.  Every pair not listed is
/// an invalid transition and leaves the state unchanged.
pub open spec fn transition_spec(s: AppState, t: StateTrigger) -> AppState {
    match (s, t) {
        (AppState::Menu, StateTrigger::Start) => AppState::Running,
        (AppState::Running, StateTrigger::PlayerDestroyed) => AppState::GameOver,
        (AppState::GameOver, StateTrigger::Restart) => AppState::Menu,
        _ => s,
    }
}

/// Applies one trigger to the state machine.
pub fn transition(s: AppState, t: StateTrigger) -> (r: AppState)
    ensures
        r == transition_spec(s, t),
{
    match (s, t) {
        (AppState::Menu, StateTrigger::Start) => AppState::Running,
        (AppState::Running, StateTrigger::PlayerDestroyed) => AppState::GameOver,
        (AppState::GameOver, StateTrigger::Restart) => AppState::Menu,
        _ => s,
    }
}

} // verus!
