//! The debouncer: a coarse time window in whole seconds. A batch of changes is
//! looked at only when the clock has moved past the second of the last
//! batch that was.

use vstd::prelude::*;

verus! {

/// Calls `chrono::Local::now` and `DateTime::timestamp`: the current time
/// in whole seconds since the Unix epoch, read from the clock of the
/// machine. Nothing is claimed of the value: two calls may give any two
/// numbers. `chrono` panics where that clock stands before 1970.
#[verifier::external_body]
pub(crate) fn clock_seconds() -> i64 {
    chrono::Local::now().timestamp()
}

/// Holds the second at which a batch was last looked at.
pub struct Debouncer {
    last_action: i64,
}

impl View for Debouncer {
    type V = int;

    closed spec fn view(&self) -> int {
        self.last_action as int
    }
}

/// Whether a batch that arrives at `now` is looked at, given the second of
/// the last one.
pub open spec fn admits(last_action: int, now: int) -> bool {
    now > last_action
}

impl Debouncer {
    /// A debouncer whose last batch was at `now`.
    pub fn new(now: i64) -> (d: Debouncer)
        ensures
            d@ == now,
    {
        Debouncer { last_action: now }
    }

    pub fn last_action(&self) -> (t: i64)
        ensures
            t == self@,
    {
        self.last_action
    }

    /// Whether a batch that arrives at `now` is looked at.
    pub fn admits(&self, now: i64) -> (r: bool)
        ensures
            r == admits(self@, now as int),
    {
        now > self.last_action
    }

    /// Records that a batch was looked at, at `now`.
    pub fn mark(&mut self, now: i64)
        ensures
            final(self)@ == now,
    {
        self.last_action = now;
    }
}

/// Two batches in one second: once the first is marked, the second is not
/// looked at, at that second or any earlier one.
pub proof fn law_same_second_collapses(first: int, second: int)
    requires
        second <= first,
    ensures
        !admits(first, second),
{
}

} // verus!
