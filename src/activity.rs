use vstd::prelude::*;

use std::sync::atomic::{AtomicU64, Ordering};

verus! {

/// Relies on `SystemTime::now` measured from the Unix epoch: whole seconds,
/// zero when the system clock reads before the epoch. Nothing is promised of
/// the value: it is the machine's clock.
#[verifier::external_body]
fn now_unix_seconds() -> (r: u64) {
    std::time::SystemTime::now()
        .duration_since(std::time::UNIX_EPOCH)
        .map(|d| d.as_secs())
        .unwrap_or(0)
}

/// Seconds from `last` to `now`; zero when the clock went backwards.
pub fn elapsed_seconds(last: u64, now: u64) -> (r: u64)
    ensures
        r == if now >= last {
            (now - last) as u64
        } else {
            0u64
        },
{
    if now >= last {
        now - last
    } else {
        0
    }
}

/// When foreground pictogram traffic was last seen, in Unix seconds. One
/// clock is shared by every caller of the engine; readers and writers need
/// no lock.
pub struct ActivityClock {
    last: AtomicU64,
}

impl ActivityClock {
    /// A clock that counts the present moment as the last activity.
    pub fn new() -> (r: ActivityClock) {
        ActivityClock { last: AtomicU64::new(now_unix_seconds()) }
    }

    /// A clock whose last activity was at `at` (Unix seconds).
    pub fn starting_at(at: u64) -> (r: ActivityClock) {
        ActivityClock { last: AtomicU64::new(at) }
    }

    /// The moment of the last activity, in Unix seconds.
    pub fn last_activity(&self) -> u64 {
        self.last.load(Ordering::Relaxed)
    }

    /// Records activity at `at` (Unix seconds).
    pub fn mark_at(&self, at: u64) {
        self.last.store(at, Ordering::Relaxed);
    }

    /// Seconds of inactivity at `now`, as `elapsed_seconds` counts them from
    /// the last activity.
    pub fn idle_at(&self, now: u64) -> (r: u64)
        ensures
            r <= now,
    {
        elapsed_seconds(self.last.load(Ordering::Relaxed), now)
    }
}

/// Resets the idle clock: called by every foreground entry point.
pub fn mark_activity(clock: &ActivityClock) {
    clock.mark_at(now_unix_seconds());
}

/// Seconds since the last foreground activity, and the moment they were
/// measured at (Unix seconds); never more than that moment.
pub fn idle_seconds_now(clock: &ActivityClock) -> (r: (u64, u64))
    ensures
        r.0 <= r.1,
{
    let now = now_unix_seconds();
    (clock.idle_at(now), now)
}

/// Seconds since the last foreground activity: the first part of
/// `idle_seconds_now`, which also gives the moment it bounds.
pub fn idle_seconds(clock: &ActivityClock) -> u64 {
    idle_seconds_now(clock).0
}

} // verus!
