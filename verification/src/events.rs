//! The event bus: a single-threaded, ordered queue of gameplay events.
//! Producers append during the tick's systems; the scheduler drains the
//! whole queue exactly once per tick, so no event ever carries over.

use vstd::prelude::*;

use crate::entity::EntityKind;

verus! {

/// A gameplay notification produced during a tick.
#[derive(Clone, Copy, Debug, PartialEq, Eq, Structural)]
pub enum GameEvent {
    /// The player fired a bullet this tick.
    Shoot,
    /// A bullet resolved a collision: `bullet` hit `target`, both were
    /// despawned; `target_kind` is the kind of the entity that was hit.
    Collision { bullet: usize, target: usize, target_kind: EntityKind },
}

/// The same-tick-drained notification channel.
pub struct EventBus {
    queue: Vec<GameEvent>,
}

impl EventBus {
    /// The queued events, oldest first.
    pub closed spec fn queue_seq(self) -> Seq<GameEvent> {
        self.queue@
    }

    /// An empty bus.
    pub fn new() -> (b: Self)
        ensures
            b.queue_seq() == Seq::<GameEvent>::empty(),
    {
        EventBus { queue: Vec::new() }
    }

    /// Number of queued events.
    pub fn len(&self) -> (n: usize)
        ensures
            n == self.queue_seq().len(),
    {
        self.queue.len()
    }

    /// Appends an event.
    pub fn emit(&mut self, ev: GameEvent)
        ensures
            final(self).queue_seq() == old(self).queue_seq().push(ev),
    {
        self.queue.push(ev);
    }

    /// Removes and returns every queued event, in order.  Afterwards the
    /// bus is empty: this is the tick's single drain point.
    pub fn take_events(&mut self) -> (evs: Vec<GameEvent>)
        ensures
            evs@ == old(self).queue_seq(),
            final(self).queue_seq() == Seq::<GameEvent>::empty(),
    {
        let ghost q0 = self.queue@;
        let n = self.queue.len();
        let mut evs: Vec<GameEvent> = Vec::new();
        let mut i: usize = 0;
        while i < n
            invariant
                i <= n,
                n == q0.len(),
                self.queue@ == q0,
                evs@ == q0.subrange(0, i as int),
            decreases n - i,
        {
            evs.push(self.queue[i]);
            i = i + 1;
        }
        assert(evs@ =~= q0);
        self.queue.clear();
        evs
    }
}

} // verus!
