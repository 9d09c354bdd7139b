//! The persisted enforcement state: whether browser access is blocked, whether
//! a bathroom break is active, and when the next break is due. All timestamps
//! are seconds; `now` is always passed in explicitly, so every transition is
//! a pure function of the state and the clock reading it was given.

use vstd::prelude::*;

verus! {

/// Seconds in a minute, used to turn configured minute counts into deadlines.
pub const SECS_PER_MINUTE: u64 = 60;

/// Seconds in an hour, used to turn configured hour counts into deadlines.
pub const SECS_PER_HOUR: u64 = 3600;

/// Hours until the first bathroom break of a fresh state record.
pub const DEFAULT_BREAK_INTERVAL_HOURS: u64 = 3;

/// The durable enforcement record. Timestamps are seconds (same scale as the
/// clock readings handed to the methods below).
#[derive(Debug, Clone, PartialEq, Eq)]
pub struct AppState {
    /// Access is blocked while `now < blocked_until`.
    pub blocked_until: Option<u64>,
    /// When the next bathroom break should start; always set.
    pub next_bathroom_break: u64,
    /// True while a scheduled break is active.
    pub in_bathroom_break: bool,
    /// Break end time; meaningful only while `in_bathroom_break`.
    pub bathroom_break_until: Option<u64>,
}

impl AppState {
    /// `bathroom_break_until` is present exactly while a break is active.
    pub open spec fn wf(self) -> bool {
        self.in_bathroom_break <==> self.bathroom_break_until is Some
    }

    /// Blocked at `now`: a deadline is set and has not yet been reached.
    pub open spec fn spec_is_blocked(self, now: u64) -> bool {
        match self.blocked_until {
            Some(t) => now < t,
            None => false,
        }
    }

    /// A break is due at `now`: either one is active and has not ended, or
    /// none is active and the scheduled start time has been reached.
    pub open spec fn spec_is_break_due(self, now: u64) -> bool {
        ||| (self.in_bathroom_break && match self.bathroom_break_until {
                Some(u) => now < u,
                None => false,
            })
        ||| (!self.in_bathroom_break && now >= self.next_bathroom_break)
    }

    /// The state after `block_browser(now, timeout_minutes)`.
    pub open spec fn spec_blocked(self, now: u64, timeout_minutes: u64) -> AppState {
        AppState {
            blocked_until: Some((now + timeout_minutes * SECS_PER_MINUTE) as u64),
            ..self
        }
    }

    /// The state after `start_bathroom_break(now, duration, interval)`: the
    /// break is active until `now + duration`, and the next break is already
    /// rescheduled to `now + interval`.
    pub open spec fn spec_with_break(
        self,
        now: u64,
        duration_minutes: u64,
        interval_hours: u64,
    ) -> AppState {
        AppState {
            in_bathroom_break: true,
            bathroom_break_until: Some((now + duration_minutes * SECS_PER_MINUTE) as u64),
            next_bathroom_break: (now + interval_hours * SECS_PER_HOUR) as u64,
            ..self
        }
    }

    /// The state after `end_bathroom_break`.
    pub open spec fn spec_break_ended(self) -> AppState {
        AppState { in_bathroom_break: false, bathroom_break_until: None, ..self }
    }

    /// A fresh record as created when no persisted state exists: nothing
    /// blocked, no break active, first break due after the default interval.
    pub open spec fn spec_fresh(now: u64) -> AppState {
        AppState {
            blocked_until: None,
            next_bathroom_break: (now + DEFAULT_BREAK_INTERVAL_HOURS * SECS_PER_HOUR) as u64,
            in_bathroom_break: false,
            bathroom_break_until: None,
        }
    }

    /// Whether access is currently blocked, derived from the stored deadline
    /// every time rather than cached as a flag.
    pub fn is_blocked(&self, now: u64) -> (r: bool)
        ensures
            r == self.spec_is_blocked(now),
    {
        match self.blocked_until {
            Some(t) => now < t,
            None => false,
        }
    }

    /// Unconditionally overwrite the block deadline with `now` plus the given
    /// number of minutes; repeated calls always reset to the latest deadline.
    pub fn block_browser(&mut self, now: u64, timeout_minutes: u64)
        requires
            now + timeout_minutes * SECS_PER_MINUTE <= u64::MAX,
        ensures
            *final(self) == old(self).spec_blocked(now, timeout_minutes),
            final(self).blocked_until == Some((now + timeout_minutes * SECS_PER_MINUTE) as u64),
    {
        self.blocked_until = Some(now + timeout_minutes * SECS_PER_MINUTE);
    }

    /// Whether a bathroom break is due at `now`. The interval argument is
    /// kept for interface compatibility; rescheduling happens only when a
    /// break starts, so the predicate itself does not use it.
    pub fn is_bathroom_break_time(&self, _interval_hours: u64, now: u64) -> (r: bool)
        ensures
            r == self.spec_is_break_due(now),
    {
        if self.in_bathroom_break {
            match self.bathroom_break_until {
                Some(u) => now < u,
                None => false,
            }
        } else {
            now >= self.next_bathroom_break
        }
    }

    /// Begin a break at `now` and immediately reschedule the next one; the
    /// next start time only ever moves forward from here.
    pub fn start_bathroom_break(&mut self, now: u64, duration_minutes: u64, interval_hours: u64)
        requires
            now + duration_minutes * SECS_PER_MINUTE <= u64::MAX,
            now + interval_hours * SECS_PER_HOUR <= u64::MAX,
        ensures
            *final(self) == old(self).spec_with_break(now, duration_minutes, interval_hours),
            final(self).wf(),
    {
        self.in_bathroom_break = true;
        self.bathroom_break_until = Some(now + duration_minutes * SECS_PER_MINUTE);
        self.next_bathroom_break = now + interval_hours * SECS_PER_HOUR;
    }

    /// End the active break; the rescheduled next start time is untouched.
    pub fn end_bathroom_break(&mut self)
        ensures
            *final(self) == old(self).spec_break_ended(),
            final(self).wf(),
    {
        self.in_bathroom_break = false;
        self.bathroom_break_until = None;
    }

    /// The record used when no persisted state exists yet.
    pub fn default_with_next_break(now: u64) -> (r: AppState)
        requires
            now + DEFAULT_BREAK_INTERVAL_HOURS * SECS_PER_HOUR <= u64::MAX,
        ensures
            r == AppState::spec_fresh(now),
            r.wf(),
    {
        AppState {
            blocked_until: None,
            next_bathroom_break: now + DEFAULT_BREAK_INTERVAL_HOURS * SECS_PER_HOUR,
            in_bathroom_break: false,
            bathroom_break_until: None,
        }
    }
}

impl Default for AppState {
    /// The all-empty record: nothing blocked, no break active, the next
    /// break nominally due at time zero.
    fn default() -> (r: AppState)
        ensures
            r == (AppState {
                blocked_until: None,
                next_bathroom_break: 0u64,
                in_bathroom_break: false,
                bathroom_break_until: None,
            }),
    {
        AppState {
            blocked_until: None,
            next_bathroom_break: 0,
            in_bathroom_break: false,
            bathroom_break_until: None,
        }
    }
}

/// A block of zero minutes expires immediately: right after `block_browser`
/// with timeout `0` at time `now`, `is_blocked` at the same `now` is false.
pub proof fn lemma_zero_block_expired(s: AppState, now: u64)
    ensures
        !s.spec_blocked(now, 0).spec_is_blocked(now),
{
}

/// Blocking again always overwrites the deadline with the latest call's:
/// after blocking for `d1` and then for `d2 > d1` minutes at the same call
/// time, the stored deadline is exactly `now + d2` minutes, strictly later
/// than the first deadline.
pub proof fn lemma_block_overwrites(s: AppState, now: u64, d1: u64, d2: u64)
    requires
        d1 < d2,
        now + d2 * SECS_PER_MINUTE <= u64::MAX,
    ensures
        s.spec_blocked(now, d1).spec_blocked(now, d2).blocked_until
            == Some((now + d2 * SECS_PER_MINUTE) as u64),
        s.spec_blocked(now, d1).spec_blocked(now, d2).blocked_until->0
            > s.spec_blocked(now, d1).blocked_until->0,
{
}

} // verus!
