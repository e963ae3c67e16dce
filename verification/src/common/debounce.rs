//! A pure debounce clock.
//!
//! [`Debouncer`] owns only the "when should the next flush happen" logic: each
//! [`Debouncer::mark_dirty`] pushes the deadline out by `interval`, and
//! [`Debouncer::poll`] reports (and clears) a single fire once the deadline
//! passes. It carries no timer: the run loop that re-arms one from these
//! deadlines belongs to the caller.

use vstd::prelude::*;

use crate::common::time::{Duration, Instant};

verus! {

#[derive(Debug, Clone, Copy, PartialEq, Eq, Structural)]
pub struct Debouncer {
    interval: Duration,
    deadline: Option<Instant>,
}

/// The deadline that is left after a poll at `now`: one that is due is taken.
pub open spec fn deadline_after_poll(deadline: Option<Instant>, now: Instant) -> Option<Instant> {
    if due(deadline, now) {
        None
    } else {
        deadline
    }
}

/// A flush is pending and its deadline has been reached by `now`.
pub open spec fn due(deadline: Option<Instant>, now: Instant) -> bool {
    deadline matches Some(at) && now.nanos >= at.nanos
}

/// The deadline set by an edit at `now`.
pub open spec fn deadline_after_edit(interval: Duration, now: Instant) -> Option<Instant> {
    Some(Instant { nanos: (now.nanos + interval.nanos) as u64 })
}

impl Debouncer {
    pub closed spec fn spec_interval(self) -> Duration {
        self.interval
    }

    pub closed spec fn pending(self) -> Option<Instant> {
        self.deadline
    }

    pub fn new(interval: Duration) -> (d: Self)
        ensures
            d.spec_interval() == interval,
            d.pending() is None,
    {
        Debouncer { interval, deadline: None }
    }

    /// Mark state dirty as of `now`, (re-)arming the deadline to `now + interval`.
    pub fn mark_dirty(&mut self, now: Instant)
        requires
            now.nanos + old(self).spec_interval().nanos <= u64::MAX,
        ensures
            final(self).spec_interval() == old(self).spec_interval(),
            final(self).pending() == deadline_after_edit(old(self).spec_interval(), now),
    {
        self.deadline = Some(now + self.interval);
    }

    /// Whether a flush is currently pending (dirty and not yet fired).
    pub fn is_dirty(&self) -> (b: bool)
        ensures
            b == (self.pending() is Some),
    {
        self.deadline.is_some()
    }

    /// The instant at which the pending flush becomes due, if any.
    pub fn deadline(&self) -> (at: Option<Instant>)
        ensures
            at == self.pending(),
    {
        self.deadline
    }

    /// Discard any pending flush without firing.
    pub fn clear(&mut self)
        ensures
            final(self).spec_interval() == old(self).spec_interval(),
            final(self).pending() is None,
    {
        self.deadline = None;
    }

    /// If a flush is pending and its deadline has passed by `now`, clear it and
    /// return `true` (the caller should flush). Otherwise return `false`.
    pub fn poll(&mut self, now: Instant) -> (fire: bool)
        ensures
            fire == due(old(self).pending(), now),
            final(self).spec_interval() == old(self).spec_interval(),
            final(self).pending() == deadline_after_poll(old(self).pending(), now),
    {
        match self.deadline {
            Some(deadline) => {
                if now.nanos >= deadline.nanos {
                    self.deadline = None;
                    true
                } else {
                    false
                }
            },
            None => false,
        }
    }
}

/// After an edit at `now`, a poll fires exactly from `now + interval` on, however
/// the clock was set before.
pub proof fn law_fires_an_interval_after_the_last_edit(
    interval: Duration,
    now: Instant,
    later: Instant,
)
    requires
        now.nanos + interval.nanos <= u64::MAX,
    ensures
        due(deadline_after_edit(interval, now), later) <==> later.nanos >= now.nanos
            + interval.nanos,
{
}

/// A poll that fires is the only one to fire until the next edit; a poll that
/// does not fire changes nothing.
pub proof fn law_fires_once(deadline: Option<Instant>, now: Instant, later: Instant)
    ensures
        due(deadline, now) ==> !due(deadline_after_poll(deadline, now), later),
        !due(deadline, now) ==> deadline_after_poll(deadline, now) == deadline,
{
}

} // verus!
