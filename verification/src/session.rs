//! The stop signal that the two loops of a session share, and what the
//! listener does with it.

use vstd::prelude::*;

verus! {

/// The pause, in milliseconds, between two polls for a new connection.
pub const POLL_MILLIS: u64 = 10;

/// The name of the local channel, below the temporary directory of the
/// system, on which the one coordinator of a machine listens.
pub const CHANNEL_NAME: &'static str = "@dioxusin";

/// The stop signal of a session: lowered at the start, and once raised it
/// stays raised.
pub struct AbortFlag {
    raised: bool,
}

impl View for AbortFlag {
    type V = bool;

    closed spec fn view(&self) -> bool {
        self.raised
    }
}

impl AbortFlag {
    /// A lowered flag.
    pub fn new() -> (flag: AbortFlag)
        ensures
            !flag@,
    {
        AbortFlag { raised: false }
    }

    /// Raises the flag. Raising a raised flag changes nothing.
    pub fn raise(&mut self)
        ensures
            final(self)@,
    {
        self.raised = true;
    }

    pub fn is_raised(&self) -> (r: bool)
        ensures
            r == self@,
    {
        self.raised
    }
}

/// What the listener does after a poll.
#[derive(Debug, Clone, Copy, PartialEq, Eq, Structural)]
pub enum ListenerAction {
    /// Pause for `POLL_MILLIS`, then poll for a connection again.
    Poll,
    /// Leave the loop: no connection is accepted any more.
    Stop,
}

/// The listener looks at the flag once after every poll, and leaves as
/// soon as it finds it raised.
pub fn after_poll(abort: &AbortFlag) -> (action: ListenerAction)
    ensures
        action == if abort@ {
            ListenerAction::Stop
        } else {
            ListenerAction::Poll
        },
{
    if abort.is_raised() {
        ListenerAction::Stop
    } else {
        ListenerAction::Poll
    }
}

} // verus!
