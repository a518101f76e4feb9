//! The fixed-tick scheduler.  It owns the application state, the score, the
//! entity world and the event bus, and drives one tick in the strict system
//! order: input intent resolution, movement (player intent, then bullet
//! integration, then shoot handling), collision, boundary culling, the
//! single despawn-commit point, the event-bus drain (score and audio), and
//! finally the state-transition evaluation.  A time accumulator decouples
//! the 60 Hz simulation rate from the render rate.

use vstd::prelude::*;

use crate::collision::{collide_dooms, collide_pairs, collision_events, run_collisions};
use crate::culling::{cull_dooms, cull_mark, cull_offscreen, out_of_bounds};
use crate::entity::{
    initial_player, is_kind, make_player, slot_entity, wf_slot, Entity, EntityKind, LEFT_BOUND,
    RIGHT_BOUND,
};
use crate::events::{EventBus, GameEvent};
use crate::input::{dir_of, edge_of, resolve_intent, KeySnapshot};
use crate::movement::{
    apply_velocity, handle_shoot, integrated, integrated_slot, move_player, moved_players,
    moved_slot, shoot_dooms, shoot_events, shoot_slots,
};
use crate::score::{count_shoots, count_shoot_events, score_fold, Scoreboard};
use crate::state::{transition, transition_spec, AppState, GameTrigger, StateTrigger};
use crate::world::{committed_spec, first_kind, lemma_first_kind, EntityWorld};

verus! {

/// Length of one simulation tick, in nanoseconds (60 Hz).
pub const TICK_NANOS: u64 = 1_000_000_000 / 60;

/// The mathematical model of the scheduler: every field as a plain value or
/// sequence.
pub struct SchedView {
    pub state: AppState,
    pub score: u64,
    pub slots: Seq<Option<Entity>>,
    pub doomed: Seq<bool>,
    pub events: Seq<GameEvent>,
    pub prev_shoot: bool,
    pub acc_nanos: u64,
}

/// Slot `i` holds a player entity.
pub open spec fn player_at(slots: Seq<Option<Entity>>, i: int) -> bool {
    0 <= i < slots.len() && is_kind(slots[i], EntityKind::Player)
}

/// No two distinct slots hold player entities.
pub open spec fn at_most_one_player(slots: Seq<Option<Entity>>) -> bool {
    forall|i: int, j: int|
        #[trigger] player_at(slots, i) && #[trigger] player_at(slots, j) ==> i == j
}

/// What holds of a slot if it is a player: the player moves by direct
/// intent (no velocity component), participates in collisions, and sits
/// inside the clamped horizontal range.
pub open spec fn wf_player_slot(s: Option<Entity>) -> bool {
    match s {
        Some(e) => e.kind == EntityKind::Player ==> {
            &&& e.vel is None
            &&& e.collider is Some
            &&& LEFT_BOUND <= e.pos.x <= RIGHT_BOUND
        },
        None => true,
    }
}

/// The scheduler's invariant between ticks: marks and slots line up and no
/// despawn is pending; every live entity is well-formed; at most one player
/// exists, and exactly one exactly while the state is Running; no bullet
/// sits beyond the bottom edge; the event bus is empty (events never carry
/// over); and the time accumulator holds less than one tick.
pub open spec fn wf_view(v: SchedView) -> bool {
    &&& v.slots.len() == v.doomed.len()
    &&& forall|i: int| 0 <= i < v.doomed.len() ==> !(#[trigger] v.doomed[i])
    &&& forall|i: int| 0 <= i < v.slots.len() ==> wf_slot(#[trigger] v.slots[i])
    &&& forall|i: int| 0 <= i < v.slots.len() ==> wf_player_slot(#[trigger] v.slots[i])
    &&& forall|i: int| 0 <= i < v.slots.len() ==> !out_of_bounds(#[trigger] v.slots[i])
    &&& at_most_one_player(v.slots)
    &&& v.events.len() == 0
    &&& (v.state is Running <==> first_kind(v.slots, EntityKind::Player) is Some)
    &&& v.acc_nanos < TICK_NANOS
}

/// Entry into the running state: score reset to 0, the world cleared and
/// repopulated with the single initial player, shoot-edge tracking reset.
pub open spec fn running_entry(v: SchedView) -> SchedView {
    SchedView {
        state: AppState::Running,
        score: 0,
        slots: seq![Some(initial_player())],
        doomed: seq![false],
        events: v.events,
        prev_shoot: false,
        acc_nanos: v.acc_nanos,
    }
}

/// The slots after the movement phase of a running tick (player intent,
/// bullet integration, shoot handling).
pub open spec fn mid_slots(v: SchedView, input: KeySnapshot) -> Seq<Option<Entity>> {
    shoot_slots(
        integrated(moved_players(v.slots, dir_of(input))),
        edge_of(input, v.prev_shoot),
    )
}

/// The despawn marks after the movement phase of a running tick.
pub open spec fn mid_dooms(v: SchedView, input: KeySnapshot) -> Seq<bool> {
    shoot_dooms(
        v.doomed,
        integrated(moved_players(v.slots, dir_of(input))),
        edge_of(input, v.prev_shoot),
    )
}

/// Every event produced during a running tick, in production order: the
/// shoot event (if any) followed by one collision event per resolved pair.
/// All of them are drained before the tick ends.
pub open spec fn tick_events(v: SchedView, input: KeySnapshot) -> Seq<GameEvent> {
    let s3 = mid_slots(v, input);
    let d3 = mid_dooms(v, input);
    shoot_events(
        v.events,
        integrated(moved_players(v.slots, dir_of(input))),
        edge_of(input, v.prev_shoot),
    ) + collision_events(collide_pairs(s3, d3, s3.len() as int))
}

/// The despawn marks at the tick's commit point: movement marks, plus the
/// collision pass, plus the boundary culler.
pub open spec fn end_dooms(v: SchedView, input: KeySnapshot) -> Seq<bool> {
    let s3 = mid_slots(v, input);
    cull_dooms(s3, collide_dooms(s3, mid_dooms(v, input), s3.len() as int))
}

/// The slots at the end of a running tick, after the single despawn commit.
pub open spec fn end_slots(v: SchedView, input: KeySnapshot) -> Seq<Option<Entity>> {
    committed_spec(mid_slots(v, input), end_dooms(v, input))
}

/// One full running tick.  The event queue ends empty (fully drained), the
/// score has consumed every qualifying event, and the state machine sees
/// the tick's final entity set: losing the player ends the run.
pub open spec fn run_tick(v: SchedView, input: KeySnapshot) -> SchedView {
    let evs = tick_events(v, input);
    let s6 = end_slots(v, input);
    SchedView {
        state: if first_kind(s6, EntityKind::Player) is Some {
            AppState::Running
        } else {
            transition_spec(AppState::Running, StateTrigger::PlayerDestroyed)
        },
        score: score_fold(v.score, evs, evs.len() as int),
        slots: s6,
        doomed: Seq::new(s6.len(), |i: int| false),
        events: Seq::empty(),
        prev_shoot: input.shoot,
        acc_nanos: v.acc_nanos,
    }
}

/// One tick of the scheduler, in any state.  Gameplay systems are hard
/// gated on the running state: in the menu and on the game-over screen only
/// the externally sourced UI triggers are evaluated, and an invalid trigger
/// is a no-op.
pub open spec fn tick_spec(v: SchedView, input: KeySnapshot, trig: Option<GameTrigger>) -> SchedView {
    match v.state {
        AppState::Menu => match trig {
            Some(GameTrigger::Start) => running_entry(v),
            _ => v,
        },
        AppState::Running => run_tick(v, input),
        AppState::GameOver => match trig {
            Some(GameTrigger::Restart) => SchedView {
                state: AppState::Menu,
                score: v.score,
                slots: v.slots,
                doomed: v.doomed,
                events: v.events,
                prev_shoot: v.prev_shoot,
                acc_nanos: v.acc_nanos,
            },
            _ => v,
        },
    }
}

/// How many times the audio collaborator should play the shoot sound for
/// this tick: the number of shoot events drained (0 outside Running).
pub open spec fn tick_sounds(v: SchedView, input: KeySnapshot, trig: Option<GameTrigger>) -> int {
    if v.state is Running {
        count_shoots(tick_events(v, input), tick_events(v, input).len() as int)
    } else {
        0
    }
}

/// What a tick reports back for the outside collaborators to perform.
#[derive(Clone, Copy, Debug, PartialEq, Eq, Structural)]
pub struct TickReport {
    /// Number of shoot sounds to play this tick.
    pub shoot_sounds: usize,
}

/// A running tick preserves the scheduler invariant.
pub proof fn lemma_run_tick_wf(v: SchedView, input: KeySnapshot)
    requires
        wf_view(v),
        v.state is Running,
    ensures
        wf_view(run_tick(v, input)),
{
    let dir = dir_of(input);
    let edge = edge_of(input, v.prev_shoot);
    let s0 = v.slots;
    let s1 = moved_players(s0, dir);
    let s2 = integrated(s1);
    let s3 = mid_slots(v, input);
    let d3 = mid_dooms(v, input);
    let n3 = s3.len() as int;
    let d4 = collide_dooms(s3, d3, n3);
    let d5 = end_dooms(v, input);
    let s6 = end_slots(v, input);

    assert(s1.len() == s0.len());
    assert(s2.len() == s0.len());
    // The movement maps preserve occupancy, kind, velocity and collider,
    // keep every entity well-formed, and clamp the player into bounds.
    assert forall|i: int| 0 <= i < s2.len() implies {
        &&& s2[i] == integrated_slot(moved_slot(s0[i], dir))
        &&& (s2[i] is Some <==> s0[i] is Some)
        &&& (s0[i] is Some ==> slot_entity(s2[i]).kind == slot_entity(s0[i]).kind
            && slot_entity(s2[i]).vel == slot_entity(s0[i]).vel)
        &&& wf_slot(s2[i])
        &&& wf_player_slot(s2[i])
    } by {
        assert(s1[i] == moved_slot(s0[i], dir));
        assert(wf_slot(s0[i]));
        assert(wf_player_slot(s0[i]));
    }

    // The shoot step appends at most one bullet and never touches existing
    // slots or marks.
    lemma_first_kind(s0, EntityKind::Player);
    let p0 = first_kind(s0, EntityKind::Player).unwrap();
    assert(player_at(s0, p0));
    assert(is_kind(s2[p0], EntityKind::Player));
    lemma_first_kind(s2, EntityKind::Player);
    assert(first_kind(s2, EntityKind::Player) is Some);
    assert(s3.len() == if edge {
        s2.len() + 1
    } else {
        s2.len()
    });
    assert(d3.len() == s3.len());
    assert forall|i: int| 0 <= i < s2.len() implies s3[i] == s2[i] by {}
    assert forall|i: int| 0 <= i < s3.len() implies wf_slot(#[trigger] s3[i])
        && wf_player_slot(s3[i]) by {
        if i < s2.len() {
            assert(s3[i] == s2[i]);
        } else {
            assert(wf_slot(s2[p0]));
        }
    }
    assert forall|i: int| 0 <= i < d3.len() implies !(#[trigger] d3[i]) by {}

    // Collision marks only bullets and enemies; culling marks only bullets.
    crate::collision::lemma_collide_dooms_len(s3, d3, n3);
    crate::collision::lemma_collide_dooms_frame(s3, d3, n3);
    assert(d4.len() == s3.len());
    assert(d5.len() == s3.len());
    assert(s6.len() == s3.len());

    // The player survives the tick: it is never marked.
    assert(player_at(s3, p0));
    assert(!is_kind(s3[p0], EntityKind::Bullet) && !is_kind(s3[p0], EntityKind::Enemy));
    assert(!d4[p0]);
    assert(d5[p0] == cull_mark(s3[p0], d4[p0]));
    assert(!d5[p0]);
    assert(s6[p0] == s3[p0]);
    assert(player_at(s6, p0));
    lemma_first_kind(s6, EntityKind::Player);
    assert(first_kind(s6, EntityKind::Player) is Some);

    // Every surviving slot is a slot of the movement phase, so all the
    // pointwise facts carry over; culling guarantees no sunken bullets.
    assert forall|i: int| 0 <= i < s6.len() implies {
        &&& wf_slot(#[trigger] s6[i])
        &&& wf_player_slot(s6[i])
        &&& !out_of_bounds(s6[i])
        &&& (is_kind(s6[i], EntityKind::Player) ==> player_at(s0, i))
    } by {
        if d5[i] {
            assert(s6[i] is None);
        } else {
            assert(s6[i] == s3[i]);
            assert(d5[i] == cull_mark(s3[i], d4[i]));
            assert(!out_of_bounds(s3[i]));
            if is_kind(s3[i], EntityKind::Player) {
                assert(i < s2.len());
                assert(s3[i] == s2[i]);
                assert(is_kind(s0[i], EntityKind::Player));
            }
        }
    }
    assert forall|i: int, j: int|
        #[trigger] player_at(s6, i) && #[trigger] player_at(s6, j) implies i == j by {
        assert(player_at(s0, i));
        assert(player_at(s0, j));
    }
}

/// Entry into the running state establishes the scheduler invariant.
pub proof fn lemma_entry_wf(v: SchedView)
    requires
        wf_view(v),
    ensures
        wf_view(running_entry(v)),
{
    let w = running_entry(v);
    assert(is_kind(w.slots[0], EntityKind::Player));
    assert(first_kind(w.slots, EntityKind::Player) == Some(0int));
    assert forall|i: int| 0 <= i < w.slots.len() implies wf_slot(#[trigger] w.slots[i])
        && wf_player_slot(w.slots[i]) && !out_of_bounds(w.slots[i]) by {
        assert(w.slots[i] == Some(initial_player()));
    }
}

/// Every tick preserves the scheduler invariant, in every state.
pub proof fn lemma_tick_preserves_wf(v: SchedView, input: KeySnapshot, trig: Option<GameTrigger>)
    requires
        wf_view(v),
    ensures
        wf_view(tick_spec(v, input, trig)),
{
    match v.state {
        AppState::Running => lemma_run_tick_wf(v, input),
        AppState::Menu => {
            if trig == Some(GameTrigger::Start) {
                lemma_entry_wf(v);
            }
        },
        AppState::GameOver => {},
    }
}

/// The scheduler: the single logical thread of control that owns all
/// mutable game state and advances it tick by tick.
pub struct Scheduler {
    state: AppState,
    score: Scoreboard,
    world: EntityWorld,
    bus: EventBus,
    prev_shoot: bool,
    acc_nanos: u64,
}

impl View for Scheduler {
    type V = SchedView;

    closed spec fn view(&self) -> SchedView {
        SchedView {
            state: self.state,
            score: self.score.score,
            slots: self.world.slot_seq(),
            doomed: self.world.doom_seq(),
            events: self.bus.queue_seq(),
            prev_shoot: self.prev_shoot,
            acc_nanos: self.acc_nanos,
        }
    }
}

/// The scheduler's initial model: in the menu, score 0, empty world.
pub open spec fn initial_view() -> SchedView {
    SchedView {
        state: AppState::Menu,
        score: 0,
        slots: Seq::empty(),
        doomed: Seq::empty(),
        events: Seq::empty(),
        prev_shoot: false,
        acc_nanos: 0,
    }
}

impl Scheduler {
    /// A fresh scheduler: in the menu with nothing spawned.
    pub fn new() -> (s: Self)
        ensures
            s@ == initial_view(),
            wf_view(s@),
    {
        let s = Scheduler {
            state: AppState::Menu,
            score: Scoreboard::new(),
            world: EntityWorld::new(),
            bus: EventBus::new(),
            prev_shoot: false,
            acc_nanos: 0,
        };
        proof {
            crate::world::lemma_first_kind(s@.slots, EntityKind::Player);
        }
        s
    }

    /// The current application state (for UI show/hide decisions).
    pub fn state(&self) -> (s: AppState)
        ensures
            s == self@.state,
    {
        self.state
    }

    /// The current score (for display).
    pub fn score(&self) -> (n: u64)
        ensures
            n == self@.score,
    {
        self.score.score
    }

    /// Number of entity slots (live or despawned) in the world.
    pub fn entity_count(&self) -> (n: usize)
        ensures
            n == self@.slots.len(),
    {
        self.world.len()
    }

    /// The entity in slot `id`, if live (for rendering).
    pub fn entity(&self, id: usize) -> (r: Option<Entity>)
        ensures
            r == if id < self@.slots.len() {
                self@.slots[id as int]
            } else {
                Option::<Entity>::None
            },
    {
        self.world.get(id)
    }

    /// Adds a wall-clock delta to the accumulator and returns how many
    /// whole fixed steps the simulation should advance; the remainder is
    /// carried forward, so results are reproducible across render rates.
    pub fn accumulate(&mut self, delta_nanos: u64) -> (steps: u64)
        requires
            old(self)@.acc_nanos < TICK_NANOS,
            delta_nanos <= u64::MAX - TICK_NANOS,
        ensures
            steps == ((old(self)@.acc_nanos + delta_nanos) as int / (TICK_NANOS as int)),
            final(self)@.acc_nanos == ((old(self)@.acc_nanos + delta_nanos) as int % (TICK_NANOS as int)),
            final(self)@.acc_nanos < TICK_NANOS,
            final(self)@.state == old(self)@.state,
            final(self)@.score == old(self)@.score,
            final(self)@.slots == old(self)@.slots,
            final(self)@.doomed == old(self)@.doomed,
            final(self)@.events == old(self)@.events,
            final(self)@.prev_shoot == old(self)@.prev_shoot,
    {
        let total: u64 = self.acc_nanos + delta_nanos;
        let steps: u64 = total / TICK_NANOS;
        self.acc_nanos = total % TICK_NANOS;
        steps
    }

    /// Advances the simulation by exactly one fixed tick, given the current
    /// key-state snapshot and any externally sourced UI trigger, and
    /// reports the side effects the outside collaborators should perform.
    ///
    /// The invariant `wf_view` is established by `new` and preserved by
    /// every method, so it holds on any call sequence starting from `new`.
    pub fn tick(&mut self, input: &KeySnapshot, trig: Option<GameTrigger>) -> (r: TickReport)
        requires
            wf_view(old(self)@),
        ensures
            final(self)@ == tick_spec(old(self)@, *input, trig),
            r.shoot_sounds == tick_sounds(old(self)@, *input, trig),
            wf_view(final(self)@),
    {
        let ghost v0 = self@;
        proof {
            lemma_tick_preserves_wf(v0, *input, trig);
        }
        match self.state {
            AppState::Menu => {
                match trig {
                    Some(GameTrigger::Start) => {
                        self.score.reset();
                        self.world.clear();
                        self.world.spawn(make_player());
                        self.prev_shoot = false;
                        self.state = transition(self.state, StateTrigger::Start);
                        proof {
                            assert(self@.slots =~= running_entry(v0).slots);
                            assert(self@.doomed =~= running_entry(v0).doomed);
                            assert(self@ == running_entry(v0));
                        }
                        TickReport { shoot_sounds: 0 }
                    },
                    _ => TickReport { shoot_sounds: 0 },
                }
            },
            AppState::GameOver => {
                match trig {
                    Some(GameTrigger::Restart) => {
                        self.state = transition(self.state, StateTrigger::Restart);
                        TickReport { shoot_sounds: 0 }
                    },
                    _ => TickReport { shoot_sounds: 0 },
                }
            },
            AppState::Running => {
                let intent = resolve_intent(input, self.prev_shoot);
                self.prev_shoot = input.shoot;
                move_player(&mut self.world, intent.dir);
                apply_velocity(&mut self.world);
                handle_shoot(&mut self.world, &mut self.bus, intent.shoot_edge);
                assert(self.world.slot_seq() == mid_slots(v0, *input));
                assert(self.world.doom_seq() == mid_dooms(v0, *input));
                run_collisions(&mut self.world, &mut self.bus);
                cull_offscreen(&mut self.world);
                self.world.commit_despawns();
                assert(self.world.slot_seq() == end_slots(v0, *input));
                assert(self.bus.queue_seq() == tick_events(v0, *input));
                let evs = self.bus.take_events();
                self.score.apply_events(&evs);
                let sounds = count_shoot_events(&evs);
                let player_alive = self.world.find_first(EntityKind::Player);
                match player_alive {
                    Some(_) => {},
                    None => {
                        self.state = transition(self.state, StateTrigger::PlayerDestroyed);
                    },
                }
                proof {
                    assert(self@.doomed =~= run_tick(v0, *input).doomed);
                    assert(self@.events =~= run_tick(v0, *input).events);
                    assert(self@ == run_tick(v0, *input));
                }
                TickReport { shoot_sounds: sounds }
            },
        }
    }
}

} // verus!
