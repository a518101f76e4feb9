//! Score bookkeeping: a single non-negative counter, reset to 0 on entry
//! into the running state and incremented by a fixed reward whenever a
//! bullet destroys an enemy.  All other event shapes are ignored, so the
//! score is non-decreasing within a session.

use vstd::prelude::*;

use crate::entity::EntityKind;
use crate::events::GameEvent;

verus! {

/// Points awarded for each enemy destroyed by a bullet.
pub const SCORE_REWARD: u64 = 1;

/// Whether an event awards points: a collision whose destroyed target was
/// an enemy.
pub open spec fn scores_event(ev: GameEvent) -> bool {
    match ev {
        GameEvent::Collision { target_kind, .. } => target_kind == EntityKind::Enemy,
        _ => false,
    }
}

/// The score after consuming one event.  The counter saturates at the top
/// of its range instead of overflowing; it never decreases.
pub open spec fn score_step(s: u64, ev: GameEvent) -> u64 {
    if scores_event(ev) {
        if s <= u64::MAX - SCORE_REWARD {
            (s + SCORE_REWARD) as u64
        } else {
            s
        }
    } else {
        s
    }
}

/// The score after consuming the first `i` events of `evs` in order.
pub open spec fn score_fold(s: u64, evs: Seq<GameEvent>, i: int) -> u64
    decreases i,
{
    if i <= 0 {
        s
    } else {
        score_step(score_fold(s, evs, i - 1), evs[i - 1])
    }
}

/// Folding events over the score never decreases it.
pub proof fn lemma_score_fold_monotone(s: u64, evs: Seq<GameEvent>, i: int)
    ensures
        score_fold(s, evs, i) >= s,
    decreases i,
{
    if i > 0 {
        lemma_score_fold_monotone(s, evs, i - 1);
    }
}

/// The process-wide score counter.
#[derive(Clone, Copy, Debug, PartialEq, Eq, Structural)]
pub struct Scoreboard {
    pub score: u64,
}

impl Scoreboard {
    /// A zeroed scoreboard.
    pub fn new() -> (sb: Self)
        ensures
            sb.score == 0,
    {
        Scoreboard { score: 0 }
    }

    /// Resets the counter; called on entry into the running state.
    pub fn reset(&mut self)
        ensures
            final(self).score == 0,
    {
        self.score = 0;
    }

    /// Consumes one drained event: awards the fixed reward when a bullet
    /// destroyed an enemy, ignores every other event shape.
    pub fn on_event(&mut self, ev: &GameEvent)
        ensures
            final(self).score == score_step(old(self).score, *ev),
    {
        let qualifies = match ev {
            GameEvent::Collision { target_kind, .. } => *target_kind == EntityKind::Enemy,
            _ => false,
        };
        if qualifies {
            if self.score <= u64::MAX - SCORE_REWARD {
                self.score = self.score + SCORE_REWARD;
            }
        }
    }

    /// Consumes a whole drained event queue in order.
    pub fn apply_events(&mut self, evs: &Vec<GameEvent>)
        ensures
            final(self).score == score_fold(old(self).score, evs@, evs@.len() as int),
            final(self).score >= old(self).score,
    {
        let ghost s0 = self.score;
        let n = evs.len();
        let mut i: usize = 0;
        while i < n
            invariant
                i <= n,
                n == evs@.len(),
                self.score == score_fold(s0, evs@, i as int),
            decreases n - i,
        {
            self.on_event(&evs[i]);
            i = i + 1;
        }
        proof {
            lemma_score_fold_monotone(s0, evs@, n as int);
        }
    }
}

/// Number of scoring events (enemy kills) among the first `i` events.
pub open spec fn count_scoring(evs: Seq<GameEvent>, i: int) -> int
    decreases i,
{
    if i <= 0 {
        0
    } else {
        count_scoring(evs, i - 1) + if scores_event(evs[i - 1]) {
            1int
        } else {
            0int
        }
    }
}

/// The scoring count of a prefix is non-negative and grows with the prefix.
pub proof fn lemma_count_scoring_bounds(evs: Seq<GameEvent>, i: int)
    ensures
        0 <= count_scoring(evs, i),
        i >= 1 ==> count_scoring(evs, i - 1) <= count_scoring(evs, i),
    decreases i,
{
    if i > 0 {
        lemma_count_scoring_bounds(evs, i - 1);
    }
}

/// As long as the counter does not saturate, folding events over the score
/// adds exactly the fixed reward once per scoring event.
pub proof fn lemma_score_fold_exact(s: u64, evs: Seq<GameEvent>, i: int)
    requires
        0 <= i,
        s + SCORE_REWARD * count_scoring(evs, i) <= u64::MAX,
    ensures
        score_fold(s, evs, i) == s + SCORE_REWARD * count_scoring(evs, i),
    decreases i,
{
    if i > 0 {
        lemma_count_scoring_bounds(evs, i);
        lemma_score_fold_exact(s, evs, i - 1);
    }
}

/// Number of shoot events among the first `i` events of `evs`.
pub open spec fn count_shoots(evs: Seq<GameEvent>, i: int) -> int
    decreases i,
{
    if i <= 0 {
        0
    } else {
        count_shoots(evs, i - 1) + if evs[i - 1] is Shoot {
            1int
        } else {
            0int
        }
    }
}

/// The shoot count over a prefix never exceeds the prefix length.
pub proof fn lemma_count_shoots_le(evs: Seq<GameEvent>, i: int)
    ensures
        count_shoots(evs, i) <= if i <= 0 {
            0int
        } else {
            i
        },
        count_shoots(evs, i) >= 0,
    decreases i,
{
    if i > 0 {
        lemma_count_shoots_le(evs, i - 1);
    }
}

/// Counts the shoot events in a drained queue: how many times the audio
/// collaborator should play the shooting sound this tick.
pub fn count_shoot_events(evs: &Vec<GameEvent>) -> (n: usize)
    ensures
        n == count_shoots(evs@, evs@.len() as int),
{
    let len = evs.len();
    let mut n: usize = 0;
    let mut i: usize = 0;
    while i < len
        invariant
            i <= len,
            len == evs@.len(),
            n == count_shoots(evs@, i as int),
            n <= i,
        decreases len - i,
    {
        proof {
            lemma_count_shoots_le(evs@, i as int + 1);
        }
        let is_shoot = match &evs[i] {
            GameEvent::Shoot => true,
            _ => false,
        };
        if is_shoot {
            n = n + 1;
        }
        i = i + 1;
    }
    n
}

} // verus!
