//! Simulation core of a fixed-timestep single-player arcade shooter.
//!
//! The library owns the pieces of the game that have temporal and ordering
//! semantics: the application state machine (menu / running / game over), the
//! fixed-tick scheduler and its per-tick system order, the entity world with
//! deferred despawns, movement integration and boundary clamping, collision
//! detection and resolution, the same-tick-drained event bus, and score
//! bookkeeping.  Window creation, asset loading, rendering, raw keyboard
//! polling and audio playback are collaborators outside this crate: the core
//! consumes a plain per-tick key-state snapshot and externally sourced
//! start/restart triggers, and reports which side effects (sounds) a tick
//! asked for.
//!
//! All playfield coordinates are integers in sub-units: one world unit is
//! split into 60 sub-units, so that one simulation tick (1/60 s) of motion at
//! `v` world units per second advances a position by exactly `v` sub-units.

pub mod collision;
pub mod culling;
pub mod entity;
pub mod events;
pub mod input;
pub mod laws;
pub mod movement;
pub mod scheduler;
pub mod score;
pub mod state;
pub mod world;
