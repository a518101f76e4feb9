//! The library's laws: properties that relate several systems or span many
//! ticks, stated as proof functions over the scheduler's model.  Each law's
//! premises are only the scheduler invariant (`wf_view`) and the inputs the
//! statement is about.

use vstd::prelude::*;

use crate::collision::{
    collide_dooms, collide_pairs, collide_step, collision_events, first_target, hits,
    lemma_collide_dooms_len, lemma_first_target_from, lemma_first_target_skip, target_ok,
};
use crate::culling::{cull_mark, out_of_bounds};
use crate::entity::{is_kind, slot_entity, Entity, EntityKind, LEFT_BOUND, RIGHT_BOUND};
use crate::events::GameEvent;
use crate::input::{edge_of, KeySnapshot};
use crate::movement::{moved_players, moved_slot};
use crate::scheduler::{
    end_dooms, end_slots, lemma_tick_preserves_wf, mid_dooms, mid_slots, player_at, run_tick,
    tick_events, tick_sounds, tick_spec, wf_view, SchedView,
};
use crate::score::{
    count_scoring, count_shoots, lemma_score_fold_exact, lemma_score_fold_monotone, score_fold,
    scores_event, SCORE_REWARD,
};
use crate::state::GameTrigger;
use crate::world::first_kind;

verus! {

/// Exactly one live player entity exists while the state is Running, and
/// none while it is Menu or GameOver.  (`lemma_tick_preserves_wf` keeps the
/// premise alive across every tick.)
pub proof fn lemma_player_singleton(v: SchedView)
    requires
        wf_view(v),
    ensures
        v.state is Running ==> exists|i: int| player_at(v.slots, i),
        forall|i: int, j: int|
            #[trigger] player_at(v.slots, i) && #[trigger] player_at(v.slots, j) ==> i == j,
        !(v.state is Running) ==> forall|i: int| !player_at(v.slots, i),
{
    crate::world::lemma_first_kind(v.slots, EntityKind::Player);
    if v.state is Running {
        let p = first_kind(v.slots, EntityKind::Player).unwrap();
        assert(player_at(v.slots, p));
    }
}

/// Boundary clamp: after the player-intent step of the movement system, a
/// player entity's x-position always lies in
/// `[LEFT_BOUND, RIGHT_BOUND]` = `[-halfWidth + margin, halfWidth - margin]`,
/// whatever its previous position and whatever the intent - so no
/// accumulation of held input can push the player off the playfield.
pub proof fn lemma_boundary_clamp(slots: Seq<Option<Entity>>, dir: int, i: int)
    requires
        0 <= i < slots.len(),
        is_kind(slots[i], EntityKind::Player),
    ensures
        LEFT_BOUND <= slot_entity(moved_players(slots, dir)[i]).pos.x <= RIGHT_BOUND,
{
    assert(moved_players(slots, dir)[i] == moved_slot(slots[i], dir));
}

/// Bullet culling, same tick: a bullet that sits below the bottom edge
/// after the movement phase is absent from the world by the end of that
/// tick.  (By `lemma_tick_preserves_wf`, `wf_view` then guarantees no live
/// bullet below the bottom edge at the start of any later tick either.)
pub proof fn lemma_bullet_culled(v: SchedView, input: KeySnapshot, i: int)
    requires
        wf_view(v),
        v.state is Running,
        0 <= i < mid_slots(v, input).len(),
        out_of_bounds(mid_slots(v, input)[i]),
    ensures
        run_tick(v, input).slots[i] is None,
{
    let s3 = mid_slots(v, input);
    let d3 = mid_dooms(v, input);
    assert(d3.len() == s3.len());
    lemma_collide_dooms_len(s3, d3, s3.len() as int);
    let d5 = end_dooms(v, input);
    assert(d5[i] == cull_mark(s3[i], collide_dooms(s3, d3, s3.len() as int)[i]));
    assert(d5[i]);
    assert(end_slots(v, input)[i] is None);
}

/// Bullet culling, later ticks: an id that is absent from the world stays
/// absent across every further running tick (ids are never reused within a
/// session), so a culled bullet never reappears.
pub proof fn lemma_absent_stays_absent(v: SchedView, input: KeySnapshot, i: int)
    requires
        wf_view(v),
        v.state is Running,
        0 <= i < v.slots.len(),
        v.slots[i] is None,
    ensures
        run_tick(v, input).slots[i] is None,
{
    let s3 = mid_slots(v, input);
    let d3 = mid_dooms(v, input);
    assert(d3.len() == s3.len());
    lemma_collide_dooms_len(s3, d3, s3.len() as int);
    assert(s3[i] is None);
    assert(end_slots(v, input)[i] is None || end_slots(v, input)[i] == s3[i]);
}

/// Bullet culling, whole runs: within a session (no UI triggers, so no
/// world rebuild), an id that is absent from the world stays absent across
/// every further tick in any state - a removed entity never reappears.
pub proof fn lemma_absent_stays_absent_run(v: SchedView, inputs: Seq<KeySnapshot>, i: int)
    requires
        wf_view(v),
        0 <= i < v.slots.len(),
        v.slots[i] is None,
    ensures
        0 <= i < run_ticks(v, inputs).slots.len(),
        run_ticks(v, inputs).slots[i] is None,
    decreases inputs.len(),
{
    if inputs.len() > 0 {
        let input = inputs.first();
        let v1 = tick_spec(v, input, None);
        lemma_tick_preserves_wf(v, input, None);
        if v.state is Running {
            assert(mid_slots(v, input).len() >= v.slots.len());
            assert(v1.slots.len() == mid_slots(v, input).len());
            lemma_absent_stays_absent(v, input, i);
        }
        lemma_absent_stays_absent_run(v1, inputs.drop_first(), i);
    }
}

/// Event drain: the event bus is empty at the end of every tick, in every
/// state, so no event ever carries over to the next tick; together with the
/// invariant this means the bus is also empty at the start of every tick.
/// Every event produced during a running tick is consumed by the drain:
/// the score has folded over exactly `tick_events`.
pub proof fn lemma_event_drain(v: SchedView, input: KeySnapshot, trig: Option<GameTrigger>)
    requires
        wf_view(v),
    ensures
        tick_spec(v, input, trig).events.len() == 0,
        v.state is Running ==> tick_spec(v, input, trig).score == score_fold(
            v.score,
            tick_events(v, input),
            tick_events(v, input).len() as int,
        ),
{
}

/// Score monotonicity within a running session: a running tick never
/// decreases the score.
pub proof fn lemma_score_monotone(v: SchedView, input: KeySnapshot, trig: Option<GameTrigger>)
    requires
        wf_view(v),
        v.state is Running,
    ensures
        tick_spec(v, input, trig).score >= v.score,
{
    lemma_score_fold_monotone(v.score, tick_events(v, input), tick_events(v, input).len() as int);
}

/// Score reset: the score becomes 0 exactly on the Menu -> Running
/// transition, which also repopulates the world with the single player.
pub proof fn lemma_score_reset(v: SchedView, input: KeySnapshot)
    requires
        wf_view(v),
        v.state is Menu,
    ensures
        tick_spec(v, input, Some(GameTrigger::Start)).score == 0,
        tick_spec(v, input, Some(GameTrigger::Start)).state is Running,
{
}

/// Outside Running, and absent a start trigger, the score never changes at
/// all: only gameplay can move it.
pub proof fn lemma_score_constant_outside(
    v: SchedView,
    input: KeySnapshot,
    trig: Option<GameTrigger>,
)
    requires
        wf_view(v),
        !(v.state is Running),
        !(v.state is Menu && trig == Some(GameTrigger::Start)),
    ensures
        tick_spec(v, input, trig).score == v.score,
{
}

/// State gating, menu: while the state is Menu and no start trigger
/// arrives, a tick changes nothing at all - no gameplay system (movement,
/// collision, culling, drain, transition evaluation) and no input
/// resolution executes.
pub proof fn lemma_menu_gating(v: SchedView, input: KeySnapshot, trig: Option<GameTrigger>)
    requires
        v.state is Menu,
        trig != Some(GameTrigger::Start),
    ensures
        tick_spec(v, input, trig) == v,
{
}

/// State gating, game over: while the state is GameOver and no restart
/// trigger arrives, a tick changes nothing; a restart changes only the
/// state (back to Menu), never the gameplay data.
pub proof fn lemma_game_over_gating(v: SchedView, input: KeySnapshot, trig: Option<GameTrigger>)
    requires
        v.state is GameOver,
    ensures
        trig != Some(GameTrigger::Restart) ==> tick_spec(v, input, trig) == v,
        tick_spec(v, input, trig).slots == v.slots,
        tick_spec(v, input, trig).score == v.score,
        tick_spec(v, input, trig).prev_shoot == v.prev_shoot,
{
}

/// Counting shoot events over pointwise-equal prefixes gives equal counts.
proof fn lemma_count_shoots_prefix(a: Seq<GameEvent>, b: Seq<GameEvent>, i: int)
    requires
        forall|k: int| 0 <= k < i ==> a[k] == b[k],
    ensures
        count_shoots(a, i) == count_shoots(b, i),
    decreases i,
{
    if i > 0 {
        lemma_count_shoots_prefix(a, b, i - 1);
    }
}

/// Shoot counting distributes over concatenation.
proof fn lemma_count_shoots_concat(a: Seq<GameEvent>, b: Seq<GameEvent>, k: int)
    requires
        0 <= k <= b.len(),
    ensures
        count_shoots(a + b, a.len() + k) == count_shoots(a, a.len() as int) + count_shoots(b, k),
    decreases k,
{
    if k <= 0 {
        lemma_count_shoots_prefix(a + b, a, a.len() as int);
    } else {
        lemma_count_shoots_concat(a, b, k - 1);
        assert((a + b)[a.len() + k - 1] == b[k - 1]);
    }
}

/// A sequence without shoot events counts zero.
proof fn lemma_count_shoots_zero(b: Seq<GameEvent>, k: int)
    requires
        forall|x: int| 0 <= x < k ==> !((#[trigger] b[x]) is Shoot),
    ensures
        count_shoots(b, k) == 0,
    decreases k,
{
    if k > 0 {
        lemma_count_shoots_zero(b, k - 1);
    }
}

/// Shoot edge-triggering, one tick: a running tick spawns exactly one
/// entity (the bullet) and asks for exactly one shoot sound if and only if
/// the shoot input rose this tick; otherwise it spawns nothing and asks for
/// no sound.  Holding the key gives no edge, because the tick records the
/// held state for the next edge computation.
pub proof fn lemma_shoot_edge(v: SchedView, input: KeySnapshot, trig: Option<GameTrigger>)
    requires
        wf_view(v),
        v.state is Running,
    ensures
        run_tick(v, input).slots.len() == v.slots.len() + (if edge_of(input, v.prev_shoot) {
            1int
        } else {
            0int
        }),
        tick_sounds(v, input, trig) == (if edge_of(input, v.prev_shoot) {
            1int
        } else {
            0int
        }),
        run_tick(v, input).prev_shoot == input.shoot,
        run_tick(v, input).state is Running || run_tick(v, input).state is GameOver,
{
    let edge = edge_of(input, v.prev_shoot);
    let s2 = crate::movement::integrated(moved_players(v.slots, crate::input::dir_of(input)));
    let s3 = mid_slots(v, input);
    let d3 = mid_dooms(v, input);

    // The player survives the movement maps, so on an edge the shoot step
    // finds it and appends exactly one slot.
    crate::world::lemma_first_kind(v.slots, EntityKind::Player);
    let p0 = first_kind(v.slots, EntityKind::Player).unwrap();
    assert(s2[p0] == crate::movement::integrated_slot(moved_slot(v.slots[p0], crate::input::dir_of(input))));
    assert(is_kind(s2[p0], EntityKind::Player));
    crate::world::lemma_first_kind(s2, EntityKind::Player);
    assert(first_kind(s2, EntityKind::Player) is Some);
    assert(s3.len() == v.slots.len() + (if edge {
        1int
    } else {
        0int
    }));
    assert(d3.len() == s3.len());
    lemma_collide_dooms_len(s3, d3, s3.len() as int);
    assert(end_slots(v, input).len() == s3.len());

    // Exactly one shoot event on an edge, none otherwise; collision events
    // are never shoot events.
    let q3 = crate::movement::shoot_events(v.events, s2, edge);
    let ce = collision_events(collide_pairs(s3, d3, s3.len() as int));
    assert(tick_events(v, input) == q3 + ce);
    assert forall|x: int| 0 <= x < ce.len() implies !((#[trigger] ce[x]) is Shoot) by {}
    lemma_count_shoots_zero(ce, ce.len() as int);
    lemma_count_shoots_concat(q3, ce, ce.len() as int);
    if edge {
        assert(q3 == v.events.push(GameEvent::Shoot));
        assert(count_shoots(q3, q3.len() as int) == count_shoots(q3, q3.len() - 1) + 1);
        assert(count_shoots(q3, q3.len() - 1) == 0) by {
            lemma_count_shoots_zero(q3, q3.len() - 1);
        }
    } else {
        assert(q3 == v.events);
        lemma_count_shoots_zero(q3, q3.len() as int);
    }
}

/// The ticks of a pure gameplay run: each consumes one input snapshot, with
/// no UI trigger.
pub open spec fn run_ticks(v: SchedView, inputs: Seq<KeySnapshot>) -> SchedView
    decreases inputs.len(),
{
    if inputs.len() == 0 {
        v
    } else {
        run_ticks(tick_spec(v, inputs.first(), None), inputs.drop_first())
    }
}

/// The scheduler invariant holds across any run of ticks.
pub proof fn lemma_run_preserves_wf(v: SchedView, inputs: Seq<KeySnapshot>)
    requires
        wf_view(v),
    ensures
        wf_view(run_ticks(v, inputs)),
    decreases inputs.len(),
{
    if inputs.len() > 0 {
        lemma_tick_preserves_wf(v, inputs.first(), None);
        lemma_run_preserves_wf(tick_spec(v, inputs.first(), None), inputs.drop_first());
    }
}

/// Score monotonicity across a whole run without UI triggers: no tick in
/// any state ever decreases the score.
pub proof fn lemma_score_monotone_run(v: SchedView, inputs: Seq<KeySnapshot>)
    requires
        wf_view(v),
    ensures
        run_ticks(v, inputs).score >= v.score,
    decreases inputs.len(),
{
    if inputs.len() > 0 {
        let v1 = tick_spec(v, inputs.first(), None);
        if v.state is Running {
            lemma_score_monotone(v, inputs.first(), None);
        }
        lemma_tick_preserves_wf(v, inputs.first(), None);
        lemma_score_monotone_run(v1, inputs.drop_first());
    }
}

/// Holding the shoot input across further ticks spawns nothing more, as
/// long as it started held: the edge never rises again until a release.
pub proof fn lemma_held_shoot_no_respawn(v: SchedView, inputs: Seq<KeySnapshot>)
    requires
        wf_view(v),
        v.state is Running || v.state is GameOver,
        v.state is Running ==> v.prev_shoot,
        forall|k: int| 0 <= k < inputs.len() ==> (#[trigger] inputs[k]).shoot,
    ensures
        run_ticks(v, inputs).slots.len() == v.slots.len(),
    decreases inputs.len(),
{
    if inputs.len() > 0 {
        let input = inputs.first();
        let v1 = tick_spec(v, input, None);
        lemma_tick_preserves_wf(v, input, None);
        if v.state is Running {
            lemma_shoot_edge(v, input, None);
            assert(!edge_of(input, v.prev_shoot));
        }
        assert forall|k: int| 0 <= k < inputs.drop_first().len() implies (#[trigger] inputs
            .drop_first()[k]).shoot by {
            assert(inputs.drop_first()[k] == inputs[k + 1]);
        }
        lemma_held_shoot_no_respawn(v1, inputs.drop_first());
    }
}

/// Shoot edge-triggering, N ticks: starting from a running state with the
/// shoot key released, holding it across any positive number of consecutive
/// ticks with no release spawns exactly one entity in total (the single
/// bullet), not one per tick.
pub proof fn lemma_holding_shoot_spawns_once(v: SchedView, inputs: Seq<KeySnapshot>)
    requires
        wf_view(v),
        v.state is Running,
        !v.prev_shoot,
        inputs.len() >= 1,
        forall|k: int| 0 <= k < inputs.len() ==> (#[trigger] inputs[k]).shoot,
    ensures
        run_ticks(v, inputs).slots.len() == v.slots.len() + 1,
{
    let input = inputs.first();
    let v1 = tick_spec(v, input, None);
    lemma_tick_preserves_wf(v, input, None);
    lemma_shoot_edge(v, input, None);
    assert(edge_of(input, v.prev_shoot));
    assert(v1.slots.len() == v.slots.len() + 1);
    assert forall|k: int| 0 <= k < inputs.drop_first().len() implies (#[trigger] inputs
        .drop_first()[k]).shoot by {
        assert(inputs.drop_first()[k] == inputs[k + 1]);
    }
    lemma_held_shoot_no_respawn(v1, inputs.drop_first());
}

/// Counting scoring events over pointwise-equal prefixes gives equal counts.
proof fn lemma_count_scoring_prefix(a: Seq<GameEvent>, b: Seq<GameEvent>, i: int)
    requires
        forall|k: int| 0 <= k < i ==> a[k] == b[k],
    ensures
        count_scoring(a, i) == count_scoring(b, i),
    decreases i,
{
    if i > 0 {
        lemma_count_scoring_prefix(a, b, i - 1);
    }
}

/// Scoring counting distributes over concatenation.
proof fn lemma_count_scoring_concat(a: Seq<GameEvent>, b: Seq<GameEvent>, k: int)
    requires
        0 <= k <= b.len(),
    ensures
        count_scoring(a + b, a.len() + k) == count_scoring(a, a.len() as int) + count_scoring(b, k),
    decreases k,
{
    if k <= 0 {
        lemma_count_scoring_prefix(a + b, a, a.len() as int);
    } else {
        lemma_count_scoring_concat(a, b, k - 1);
        assert((a + b)[a.len() + k - 1] == b[k - 1]);
    }
}

/// A prefix made of scoring events only counts its own length.
proof fn lemma_count_scoring_full(b: Seq<GameEvent>, k: int)
    requires
        0 <= k <= b.len(),
        forall|x: int| 0 <= x < k ==> scores_event(#[trigger] b[x]),
    ensures
        count_scoring(b, k) == k,
    decreases k,
{
    if k > 0 {
        lemma_count_scoring_full(b, k - 1);
    }
}

/// A prefix without scoring events counts zero.
proof fn lemma_count_scoring_zero(b: Seq<GameEvent>, k: int)
    requires
        forall|x: int| 0 <= x < k ==> !scores_event(#[trigger] b[x]),
    ensures
        count_scoring(b, k) == 0,
    decreases k,
{
    if k > 0 {
        lemma_count_scoring_zero(b, k - 1);
    }
}

/// Score accounting: as long as the counter does not saturate, a running
/// tick raises the score by exactly the fixed reward once per resolved
/// collision pair - no more and no less.  Together with
/// `lemma_collision_determinism` this gives exactly one increment when two
/// bullets overlap the same lone enemy.
pub proof fn lemma_score_counts_kills(v: SchedView, input: KeySnapshot)
    requires
        wf_view(v),
        v.state is Running,
        v.score + SCORE_REWARD * collide_pairs(
            mid_slots(v, input),
            mid_dooms(v, input),
            mid_slots(v, input).len() as int,
        ).len() <= u64::MAX,
    ensures
        run_tick(v, input).score == v.score + SCORE_REWARD * collide_pairs(
            mid_slots(v, input),
            mid_dooms(v, input),
            mid_slots(v, input).len() as int,
        ).len(),
{
    let s3 = mid_slots(v, input);
    let d3 = mid_dooms(v, input);
    let s2 = crate::movement::integrated(moved_players(v.slots, crate::input::dir_of(input)));
    let edge = edge_of(input, v.prev_shoot);
    let q3 = crate::movement::shoot_events(v.events, s2, edge);
    let ce = collision_events(collide_pairs(s3, d3, s3.len() as int));
    let evs = tick_events(v, input);
    assert(evs == q3 + ce);
    // The pre-collision queue holds no scoring event; every collision event
    // scores (each destroyed target is an enemy).
    assert forall|x: int| 0 <= x < q3.len() implies !scores_event(#[trigger] q3[x]) by {
        assert(q3[x] is Shoot);
    }
    lemma_count_scoring_zero(q3, q3.len() as int);
    assert forall|x: int| 0 <= x < ce.len() implies scores_event(#[trigger] ce[x]) by {}
    lemma_count_scoring_full(ce, ce.len() as int);
    lemma_count_scoring_concat(q3, ce, ce.len() as int);
    assert(count_scoring(evs, evs.len() as int) == ce.len());
    lemma_score_fold_exact(v.score, evs, evs.len() as int);
}

/// The pair `p` involves entity `x` on either side.
pub open spec fn pair_mentions(p: (int, int), x: int) -> bool {
    p.0 == x || p.1 == x
}

/// Some resolved pair involves entity `x`.
pub open spec fn mentions(ps: Seq<(int, int)>, x: int) -> bool {
    exists|k: int| 0 <= k < ps.len() && pair_mentions(#[trigger] ps[k], x)
}

/// Every resolved pair is a genuine bullet/enemy overlap whose bullet id is
/// below `i`.
pub open spec fn pairs_sound(slots: Seq<Option<Entity>>, ps: Seq<(int, int)>, i: int) -> bool {
    forall|k: int|
        0 <= k < ps.len() ==> hits(slots, (#[trigger] ps[k]).0, ps[k].1) && ps[k].0 < i
}

/// No entity appears in two resolved pairs: each bullet resolves at most
/// one collision per tick, and each enemy is destroyed at most once.
pub open spec fn pairs_disjoint(ps: Seq<(int, int)>) -> bool {
    forall|k: int, l: int|
        0 <= k < l < ps.len() ==> !pair_mentions(#[trigger] ps[k], (#[trigger] ps[l]).0)
            && !pair_mentions(ps[k], ps[l].1)
}

/// Marks only grow during the collision pass.
pub proof fn lemma_collide_dooms_monotone(slots: Seq<Option<Entity>>, d0: Seq<bool>, a: int, b: int)
    requires
        d0.len() == slots.len(),
        0 <= a <= b,
    ensures
        forall|x: int|
            0 <= x < d0.len() && collide_dooms(slots, d0, a)[x] ==> #[trigger] collide_dooms(
                slots,
                d0,
                b,
            )[x],
    decreases b - a,
{
    if a < b {
        lemma_collide_dooms_monotone(slots, d0, a, b - 1);
        let d = collide_dooms(slots, d0, b - 1);
        lemma_collide_dooms_len(slots, d0, b - 1);
        if 0 <= b - 1 < d.len() && !d[b - 1] {
            lemma_first_target_from(slots, d, b - 1, 0);
        }
    }
}

/// The resolved pairs of a shorter pass are a prefix of a longer pass's.
pub proof fn lemma_collide_pairs_prefix(slots: Seq<Option<Entity>>, d0: Seq<bool>, a: int, b: int)
    requires
        0 <= a <= b,
    ensures
        collide_pairs(slots, d0, a).len() <= collide_pairs(slots, d0, b).len(),
        forall|k: int|
            0 <= k < collide_pairs(slots, d0, a).len() ==> #[trigger] collide_pairs(
                slots,
                d0,
                b,
            )[k] == collide_pairs(slots, d0, a)[k],
    decreases b - a,
{
    if a < b {
        lemma_collide_pairs_prefix(slots, d0, a, b - 1);
    }
}

/// Soundness of the collision pass, starting with no marks pending: every
/// resolved pair is a real bullet/enemy overlap; no entity is in two pairs;
/// and an entity is marked at stage `i` exactly if some pair involves it.
pub proof fn lemma_collide_pairs_sound(slots: Seq<Option<Entity>>, d0: Seq<bool>, i: int)
    requires
        d0.len() == slots.len(),
        forall|k: int| 0 <= k < d0.len() ==> !(#[trigger] d0[k]),
        0 <= i,
    ensures
        pairs_sound(slots, collide_pairs(slots, d0, i), i),
        pairs_disjoint(collide_pairs(slots, d0, i)),
        forall|x: int|
            0 <= x < slots.len() ==> ((#[trigger] collide_dooms(slots, d0, i)[x]) <==> mentions(
                collide_pairs(slots, d0, i),
                x,
            )),
    decreases i,
{
    lemma_collide_dooms_len(slots, d0, i);
    if i == 0 {
        assert forall|x: int| 0 <= x < slots.len() implies !mentions(
            collide_pairs(slots, d0, 0),
            x,
        ) by {
            assert(collide_pairs(slots, d0, 0).len() == 0);
        }
    } else {
        lemma_collide_pairs_sound(slots, d0, i - 1);
        lemma_collide_dooms_len(slots, d0, i - 1);
        let d = collide_dooms(slots, d0, i - 1);
        let prev = collide_pairs(slots, d0, i - 1);
        let dn = collide_dooms(slots, d0, i);
        let pn = collide_pairs(slots, d0, i);
        let b = i - 1;
        if 0 <= b < d.len() && !d[b] && first_target(slots, d, b) is Some {
            lemma_first_target_from(slots, d, b, 0);
            let t = first_target(slots, d, b).unwrap();
            assert(target_ok(slots, d, b, t));
            assert(pn == prev.push((b, t)));
            assert(dn == d.update(b, true).update(t, true));
            assert(b != t);
            // sound: the new pair is a real hit with bullet id b < i
            assert forall|k: int| 0 <= k < pn.len() implies hits(
                slots,
                (#[trigger] pn[k]).0,
                pn[k].1,
            ) && pn[k].0 < i by {
                if k < prev.len() {
                    assert(pn[k] == prev[k]);
                }
            }
            // disjoint: both new ids were unmarked, so no earlier pair
            // mentions them
            assert(!mentions(prev, b));
            assert(!mentions(prev, t));
            assert forall|k: int, l: int| 0 <= k < l < pn.len() implies !pair_mentions(
                #[trigger] pn[k],
                (#[trigger] pn[l]).0,
            ) && !pair_mentions(pn[k], pn[l].1) by {
                if l < prev.len() {
                    assert(pn[k] == prev[k]);
                    assert(pn[l] == prev[l]);
                } else {
                    assert(pn[l] == (b, t));
                    assert(pn[k] == prev[k]);
                    assert(hits(slots, prev[k].0, prev[k].1));
                    assert(d[prev[k].0] && d[prev[k].1]) by {
                        assert(mentions(prev, prev[k].0)) by {
                            assert(pair_mentions(prev[k], prev[k].0));
                        }
                        assert(mentions(prev, prev[k].1)) by {
                            assert(pair_mentions(prev[k], prev[k].1));
                        }
                    }
                }
            }
            // the mark/mention equivalence
            assert forall|x: int| 0 <= x < slots.len() implies ((#[trigger] dn[x]) <==> mentions(
                pn,
                x,
            )) by {
                if x == b || x == t {
                    assert(dn[x]);
                    assert(pair_mentions(pn[prev.len() as int], x));
                    assert(mentions(pn, x));
                } else {
                    assert(dn[x] == d[x]);
                    if d[x] {
                        let k = choose|k: int|
                            0 <= k < prev.len() && pair_mentions(#[trigger] prev[k], x);
                        assert(pair_mentions(pn[k], x));
                        assert(mentions(pn, x));
                    }
                    if mentions(pn, x) {
                        let k = choose|k: int|
                            0 <= k < pn.len() && pair_mentions(#[trigger] pn[k], x);
                        assert(k < prev.len());
                        assert(pair_mentions(prev[k], x));
                        assert(mentions(prev, x));
                    }
                }
            }
        } else {
            assert(pn == prev);
            assert(dn == d);
        }
    }
}

/// A bullet that has no remaining target under some marks still has none
/// under more marks.
proof fn lemma_first_target_none_monotone(
    slots: Seq<Option<Entity>>,
    d: Seq<bool>,
    dd: Seq<bool>,
    b: int,
)
    requires
        d.len() == slots.len(),
        dd.len() == slots.len(),
        forall|x: int| 0 <= x < d.len() && (#[trigger] d[x]) ==> dd[x],
        first_target(slots, d, b) is None,
    ensures
        first_target(slots, dd, b) is None,
{
    lemma_first_target_from(slots, d, b, 0);
    assert forall|k: int| 0 <= k < slots.len() implies !target_ok(slots, dd, b, k) by {
        if target_ok(slots, dd, b, k) {
            assert(!d[k]);
            assert(target_ok(slots, d, b, k));
        }
    }
    lemma_first_target_skip(slots, dd, b, slots.len() as int);
}

/// Completeness of the collision pass: when it ends, no unmarked bullet
/// still has an unmarked overlapping enemy - every resolvable collision
/// has been resolved.
pub proof fn lemma_collide_complete(slots: Seq<Option<Entity>>, d0: Seq<bool>, b: int)
    requires
        d0.len() == slots.len(),
        forall|k: int| 0 <= k < d0.len() ==> !(#[trigger] d0[k]),
        0 <= b < slots.len(),
        !collide_dooms(slots, d0, slots.len() as int)[b],
    ensures
        first_target(slots, collide_dooms(slots, d0, slots.len() as int), b) is None,
{
    let n = slots.len() as int;
    let df = collide_dooms(slots, d0, n);
    let db = collide_dooms(slots, d0, b);
    lemma_collide_dooms_len(slots, d0, n);
    lemma_collide_dooms_len(slots, d0, b);
    lemma_collide_dooms_monotone(slots, d0, b, n);
    assert(!db[b]);
    match first_target(slots, db, b) {
        Some(t) => {
            lemma_first_target_from(slots, db, b, 0);
            assert(collide_dooms(slots, d0, b + 1) == collide_step(slots, db, b));
            assert(collide_dooms(slots, d0, b + 1)[b]);
            lemma_collide_dooms_monotone(slots, d0, b + 1, n);
            assert(false);
        },
        None => {
            lemma_first_target_none_monotone(slots, db, df, b);
        },
    }
}

/// Collision determinism: when two bullets `i < j` simultaneously overlap
/// the same enemy `e`, and they are the only bullets overlapping it and it
/// is the only enemy, exactly one collision resolves - the bullet with the
/// lower id wins - producing exactly one resolved pair `(i, e)`, and hence
/// exactly one collision event and one score increment, not two.
pub proof fn lemma_collision_determinism(
    slots: Seq<Option<Entity>>,
    d0: Seq<bool>,
    i: int,
    j: int,
    e: int,
)
    requires
        d0.len() == slots.len(),
        forall|k: int| 0 <= k < d0.len() ==> !(#[trigger] d0[k]),
        0 <= i < j < slots.len(),
        hits(slots, i, e),
        hits(slots, j, e),
        forall|t: int|
            0 <= t < slots.len() && is_kind(#[trigger] slots[t], EntityKind::Enemy) ==> t == e,
        forall|b: int| #[trigger] hits(slots, b, e) ==> b == i || b == j,
    ensures
        collide_pairs(slots, d0, slots.len() as int) == seq![(i, e)],
{
    let n = slots.len() as int;
    let pn = collide_pairs(slots, d0, n);
    lemma_collide_pairs_sound(slots, d0, n);
    lemma_collide_pairs_sound(slots, d0, i);
    let di = collide_dooms(slots, d0, i);
    let pi = collide_pairs(slots, d0, i);
    lemma_collide_dooms_len(slots, d0, i);

    // At bullet i's turn, neither i nor e is marked yet: every earlier pair
    // has a bullet id below i, and only i and j can hit e.
    assert(!di[i]) by {
        if di[i] {
            let k = choose|k: int| 0 <= k < pi.len() && pair_mentions(#[trigger] pi[k], i);
            assert(hits(slots, pi[k].0, pi[k].1));
            if pi[k].1 == i {
                assert(is_kind(slots[i], EntityKind::Enemy));
                assert(is_kind(slots[i], EntityKind::Bullet));
            }
        }
    }
    assert(!di[e]) by {
        if di[e] {
            let k = choose|k: int| 0 <= k < pi.len() && pair_mentions(#[trigger] pi[k], e);
            assert(hits(slots, pi[k].0, pi[k].1));
            if pi[k].1 == e {
                assert(hits(slots, pi[k].0, e));
                assert(pi[k].0 < i);
            } else {
                assert(is_kind(slots[e], EntityKind::Bullet));
                assert(is_kind(slots[e], EntityKind::Enemy));
            }
        }
    }

    // So bullet i finds a target, and the only enemy is e: the pass
    // resolves (i, e) at this very turn.
    assert(target_ok(slots, di, i, e));
    lemma_first_target_from(slots, di, i, 0);
    let t = first_target(slots, di, i).unwrap();
    assert(target_ok(slots, di, i, t));
    assert(is_kind(slots[t], EntityKind::Enemy));
    assert(t == e);
    assert(collide_pairs(slots, d0, i + 1) == pi.push((i, e)));
    lemma_collide_pairs_prefix(slots, d0, i + 1, n);
    let k0 = pi.len() as int;
    assert(pn[k0] == (i, e));

    // Every resolved pair's target is an enemy, hence e; two pairs cannot
    // share a target, so (i, e) is the only pair.
    assert forall|k: int| 0 <= k < pn.len() implies pn[k] == (i, e) by {
        assert(hits(slots, pn[k].0, pn[k].1));
        assert(is_kind(slots[pn[k].1], EntityKind::Enemy));
        assert(pn[k].1 == e);
        if k < k0 {
            assert(pair_mentions(pn[k], pn[k0].1));
            assert(false);
        }
        if k > k0 {
            assert(pair_mentions(pn[k0], pn[k].1));
            assert(false);
        }
    }
    assert(pn.len() >= k0 + 1);
    if pn.len() > 1 {
        assert(pn[0] == (i, e));
        assert(pn[1] == (i, e));
        assert(pair_mentions(pn[0], pn[1].0));
        assert(false);
    }
    assert(pn =~= seq![(i, e)]);
}

} // verus!
