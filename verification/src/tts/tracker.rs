//! Bookkeeping for awaited speech completions.
//!
//! A synthesizer reports each finished rendering with the numeric stream
//! identifier the render call returned. A consumer that wants to wait for
//! one specific speech registers the identifier; the tracker decides, for
//! each finish report and each registration, whether someone must be
//! notified now, whether the speech already finished earlier, or whether
//! the identifier stays pending.

use vstd::prelude::*;

use std::collections::HashMap;

verus! {

broadcast use vstd::std_specs::hash::group_hash_axioms;

/// What is known about one pending speech identifier.
#[derive(Debug, PartialEq, Eq, Structural, Clone, Copy)]
pub enum PendingState {
    /// A consumer waits for the speech to finish.
    Waiting,
    /// The speech finished before anyone started waiting.
    Finished,
}

/// Tracks which speech identifiers are awaited and which finished early.
#[derive(Debug)]
pub struct SpeechTracker {
    pending: HashMap<u32, PendingState>,
}

impl SpeechTracker {
    /// The pending identifiers and their states, for contracts.
    pub closed spec fn pending_map(&self) -> Map<u32, PendingState> {
        self.pending@
    }

    /// A fresh tracker: nothing pending.
    pub fn new() -> (r: Self)
        ensures
            r.pending_map() == Map::<u32, PendingState>::empty(),
    {
        SpeechTracker { pending: HashMap::new() }
    }

    /// Reacts to the engine reporting the speech with this identifier as
    /// finished: whoever waits for it must be notified now and the
    /// identifier is settled; otherwise the early finish is recorded for a
    /// later waiter.
    pub fn on_speech_finished(&mut self, id: u32) -> (notify: bool)
        ensures
            notify == (old(self).pending_map().contains_key(id) && old(self).pending_map()[id]
                == PendingState::Waiting),
            notify ==> final(self).pending_map() == old(self).pending_map().remove(id),
            !notify ==> final(self).pending_map() == old(self).pending_map().insert(
                id,
                PendingState::Finished,
            ),
    {
        let ghost m0 = self.pending@;
        match self.pending.remove(&id) {
            Some(PendingState::Waiting) => true,
            _ => {
                self.pending.insert(id, PendingState::Finished);
                proof {
                    assert(self.pending@ =~= m0.insert(id, PendingState::Finished));
                }
                false
            },
        }
    }

    /// Registers a consumer for the speech with this identifier: if it
    /// already finished, the wait completes immediately and the identifier
    /// is settled; otherwise the consumer is recorded as waiting.
    pub fn begin_await(&mut self, id: u32) -> (already_done: bool)
        ensures
            already_done == (old(self).pending_map().contains_key(id) && old(
                self,
            ).pending_map()[id] == PendingState::Finished),
            already_done ==> final(self).pending_map() == old(self).pending_map().remove(id),
            !already_done ==> final(self).pending_map() == old(self).pending_map().insert(
                id,
                PendingState::Waiting,
            ),
    {
        let ghost m0 = self.pending@;
        match self.pending.remove(&id) {
            Some(PendingState::Finished) => true,
            _ => {
                self.pending.insert(id, PendingState::Waiting);
                proof {
                    assert(self.pending@ =~= m0.insert(id, PendingState::Waiting));
                }
                false
            },
        }
    }
}

} // verus!
