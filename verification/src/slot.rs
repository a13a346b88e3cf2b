//! A load slot: one independently pollable unit of background-loaded state.
//!
//! A slot holds the last completed result together with an in-flight flag.
//! Exactly one producer (the background worker for that slot) drives the flag
//! false -> true -> false; consumers poll without blocking. The transition
//! rules live here; the surrounding program owns the lock and the worker
//! thread and calls these operations under mutual exclusion.

use vstd::prelude::*;

verus! {

/// Shared state of one background-loadable value.
pub struct LoadSlot<T> {
    /// True from the moment a fetch is admitted until its outcome is applied.
    pub in_flight: bool,
    /// The most recently completed result; stale while `in_flight` is true.
    pub value: T,
}

/// The answer a non-blocking poll gives: still loading, or a view of the
/// current result.
pub enum LoadStatus<'a, T> {
    Loading,
    Ready(&'a T),
}

impl<T> LoadSlot<T> {
    /// A fresh slot holding `initial` with no fetch in flight.
    pub fn new(initial: T) -> (s: Self)
        ensures
            !s.in_flight,
            s.value == initial,
    {
        LoadSlot { in_flight: false, value: initial }
    }

    /// Whether a call to `try_launch` would admit a new fetch.
    pub open spec fn would_spawn(self) -> bool {
        !self.in_flight
    }

    /// The slot state after a `try_launch`, whatever it answered.
    pub open spec fn after_launch(self) -> Self {
        LoadSlot { in_flight: true, value: self.value }
    }

    /// Admits a fetch unless one is already in flight. Returns true exactly
    /// when the caller should spawn a worker; a false answer leaves spawning
    /// to the fetch already running.
    pub fn try_launch(&mut self) -> (spawn: bool)
        ensures
            spawn == old(self).would_spawn(),
            *final(self) == old(self).after_launch(),
            final(self).value == old(self).value,
    {
        let spawn = !self.in_flight;
        self.in_flight = true;
        spawn
    }

    /// Applies a completed fetch: the result cell is replaced before the
    /// in-flight flag is cleared, so a poll that sees the flag down sees a
    /// result at least as recent as this one.
    pub fn finish_success(&mut self, result: T)
        requires
            old(self).in_flight,
        ensures
            !final(self).in_flight,
            final(self).value == result,
    {
        self.value = result;
        self.in_flight = false;
    }

    /// Applies a failed fetch: the previous result stays untouched, but the
    /// in-flight flag is still cleared, so the slot is never stuck loading.
    pub fn finish_failure(&mut self)
        requires
            old(self).in_flight,
        ensures
            !final(self).in_flight,
            final(self).value == old(self).value,
    {
        self.in_flight = false;
    }

    /// Non-blocking read: `Loading` while a fetch is in flight, otherwise the
    /// current result.
    pub fn poll(&self) -> (st: LoadStatus<'_, T>)
        ensures
            self.in_flight <==> st is Loading,
            !self.in_flight ==> (st matches LoadStatus::Ready(v) && *v == self.value),
    {
        if self.in_flight {
            LoadStatus::Loading
        } else {
            LoadStatus::Ready(&self.value)
        }
    }

    /// Whether the slot is currently loading.
    pub fn is_loading(&self) -> (r: bool)
        ensures
            r == self.in_flight,
    {
        self.in_flight
    }
}

/// At most one fetch is in flight per slot: whatever a launch answered, a
/// second launch before the first outcome is applied admits nothing.
pub proof fn lemma_at_most_one_in_flight<T>(s: LoadSlot<T>)
    ensures
        !s.after_launch().would_spawn(),
{
}

} // verus!
