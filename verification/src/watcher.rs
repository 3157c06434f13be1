//! The watcher: the loop that takes change events and routes them.
//!
//! The watcher does no outside work itself. It is a machine that is told
//! what happened and answers what is to be done next: wait for a change,
//! let the files settle, ask the Diff Engine about a path, broadcast a
//! message, invoke the rebuild strategy, or stop. Its owner does that and
//! reports back.

use crate::bytes::texts;
use crate::debounce::{admits, clock_seconds, Debouncer};
use crate::filter::{accepted, FilterView, PathFilter};
use crate::path::{extension, extension_of};
use crate::registry::payloads;
use crate::session::AbortFlag;
use crate::wire::{HotReloadMsg, MsgView, Template};
use vstd::prelude::*;
use vstd::utf8::encode_utf8;

verus! {

/// The pause, in milliseconds, that lets a changed file settle before it is read.
pub const SETTLE_MILLIS: u64 = 10;

/// The extension `rs` of the files that hold templates.
pub open spec fn template_extension() -> Seq<u8> {
    seq!['r' as u8, 's' as u8]
}

/// Whether a change to `path` can be applied to a running client: the file
/// holds templates.
pub open spec fn is_template_source(path: Seq<char>) -> bool {
    extension(encode_utf8(path)) == Some(template_extension())
}

/// Whether a change to `path` can be applied to a running client.
pub fn holds_templates(path: &str) -> (r: bool)
    ensures
        r == is_template_source(path@),
{
    match extension_of(path.as_bytes()) {
        Some(e) => {
            let r = e.len() == 2 && e[0] == 'r' as u8 && e[1] == 's' as u8;
            assert(r == (e@ =~= template_extension()));
            r
        },
        None => false,
    }
}

/// What the Diff Engine found in a changed file.
#[derive(Debug, PartialEq, Eq)]
pub enum DiffOutcome {
    /// Nothing that concerns a client.
    Unchanged,
    /// These templates changed, in this order.
    UpdatedTemplates(Vec<Template>),
    /// The change cannot be applied to a running client.
    NeedsRebuild,
}

/// The mathematical content of a `DiffOutcome`.
pub enum DiffView {
    Unchanged,
    UpdatedTemplates(Seq<Seq<u8>>),
    NeedsRebuild,
}

impl View for DiffOutcome {
    type V = DiffView;

    open spec fn view(&self) -> DiffView {
        match self {
            DiffOutcome::Unchanged => DiffView::Unchanged,
            DiffOutcome::UpdatedTemplates(list) => DiffView::UpdatedTemplates(payloads(list@)),
            DiffOutcome::NeedsRebuild => DiffView::NeedsRebuild,
        }
    }
}

/// What the owner of a watcher reports to it.
#[derive(Debug, PartialEq, Eq)]
pub enum WatcherEvent {
    /// These paths changed. A failed notification is a change of no paths.
    Changed(Vec<String>),
    /// The settle pause is over.
    Settled,
    /// The Diff Engine has answered for the path it was asked about.
    Diffed(DiffOutcome),
    /// The message has been broadcast.
    Delivered,
    /// The rebuild strategy was invoked, and said whether the session ends.
    Rebuilt(bool),
}

/// The mathematical content of a `WatcherEvent`.
pub enum EventView {
    Changed(Seq<Seq<char>>),
    Settled,
    Diffed(DiffView),
    Delivered,
    Rebuilt(bool),
}

impl View for WatcherEvent {
    type V = EventView;

    open spec fn view(&self) -> EventView {
        match self {
            WatcherEvent::Changed(paths) => EventView::Changed(texts(paths@)),
            WatcherEvent::Settled => EventView::Settled,
            WatcherEvent::Diffed(outcome) => EventView::Diffed(outcome@),
            WatcherEvent::Delivered => EventView::Delivered,
            WatcherEvent::Rebuilt(terminate) => EventView::Rebuilt(*terminate),
        }
    }
}

/// What a watcher asks its owner to do.
#[derive(Debug, PartialEq, Eq)]
pub enum WatcherAction {
    /// Wait for the next change, and report `Changed`.
    Wait,
    /// Pause for `SETTLE_MILLIS`, and report `Settled`.
    Settle,
    /// Ask the Diff Engine about this path, and report `Diffed`.
    Diff(String),
    /// Broadcast this message to the registered connections, and report `Delivered`.
    Broadcast(HotReloadMsg),
    /// Invoke the rebuild strategy, if there is one, and report `Rebuilt`.
    Rebuild,
    /// Leave the loop.
    Stop,
}

/// The mathematical content of a `WatcherAction`.
pub enum ActionView {
    Wait,
    Settle,
    Diff(Seq<char>),
    Broadcast(MsgView),
    Rebuild,
    Stop,
}

impl View for WatcherAction {
    type V = ActionView;

    open spec fn view(&self) -> ActionView {
        match self {
            WatcherAction::Wait => ActionView::Wait,
            WatcherAction::Settle => ActionView::Settle,
            WatcherAction::Diff(path) => ActionView::Diff(path@),
            WatcherAction::Broadcast(msg) => ActionView::Broadcast(msg@),
            WatcherAction::Rebuild => ActionView::Rebuild,
            WatcherAction::Stop => ActionView::Stop,
        }
    }
}

/// Where a watcher stands.
#[derive(Debug, Clone, Copy, PartialEq, Eq, Structural)]
pub enum Phase {
    /// Between batches.
    Idle,
    /// A batch was taken up, and its files are left to settle.
    Settling,
    /// The Diff Engine is being asked about the first path of the queue.
    Diffing,
    /// The first of the pending templates is being broadcast.
    Sending,
    /// The rebuild strategy is being invoked.
    Rebuilding,
    /// The shutdown notice that follows a rebuild is being broadcast.
    Closing,
    /// The session has ended.
    Stopped,
}

/// The mathematical content of a watcher.
pub struct WatcherView {
    pub filter: FilterView,
    /// Whether a rebuild strategy is configured.
    pub has_strategy: bool,
    pub phase: Phase,
    /// The second at which a batch was last looked at.
    pub last_action: int,
    /// The paths of the batch that are still to be routed.
    pub queue: Seq<Seq<char>>,
    /// The templates that are still to be broadcast for the path routed last.
    pub pending: Seq<Seq<u8>>,
    /// Whether the rebuild in progress ends the session.
    pub terminate: bool,
}

/// What holds of every state that a watcher can be in: the path it asks
/// the Diff Engine about and the template it broadcasts are there.
pub open spec fn sound(s: WatcherView) -> bool {
    &&& s.phase == Phase::Diffing ==> s.queue.len() > 0
    &&& s.phase == Phase::Sending ==> s.pending.len() > 0
}

/// What the watcher asks for in a given state.
pub open spec fn awaited(s: WatcherView) -> ActionView {
    match s.phase {
        Phase::Idle => ActionView::Wait,
        Phase::Settling => ActionView::Settle,
        Phase::Diffing => ActionView::Diff(s.queue[0]),
        Phase::Sending => ActionView::Broadcast(MsgView::UpdateTemplate(s.pending[0])),
        Phase::Rebuilding => ActionView::Rebuild,
        Phase::Closing => ActionView::Broadcast(MsgView::Shutdown),
        Phase::Stopped => ActionView::Stop,
    }
}

/// Where the watcher goes once it is free to take up the next piece of
/// work: pending templates first; then the next path of the queue, which
/// is either put before the Diff Engine or, where its file holds no
/// templates, sends the batch down the rebuild path and abandons the rest;
/// with nothing left, the batch is done at `now`.
pub open spec fn next_up(s: WatcherView, now: int) -> WatcherView {
    if s.pending.len() > 0 {
        WatcherView { phase: Phase::Sending, ..s }
    } else if s.queue.len() > 0 {
        if is_template_source(s.queue[0]) {
            WatcherView { phase: Phase::Diffing, ..s }
        } else {
            WatcherView { phase: Phase::Rebuilding, queue: Seq::empty(), ..s }
        }
    } else {
        WatcherView { phase: Phase::Idle, last_action: now, ..s }
    }
}

/// The state after an event that arrives at `now`, with the stop signal
/// as it is seen at that moment. An event that does not answer what the
/// watcher asked for changes nothing.
pub open spec fn stepped(s: WatcherView, aborted: bool, now: int, event: EventView)
    -> WatcherView {
    match (s.phase, event) {
        (Phase::Idle, EventView::Changed(paths)) => {
            if aborted {
                WatcherView { phase: Phase::Stopped, ..s }
            } else if !admits(s.last_action, now) {
                s
            } else if accepted(s.filter, paths).len() == 0 {
                WatcherView { last_action: now, ..s }
            } else {
                WatcherView {
                    phase: Phase::Settling,
                    queue: accepted(s.filter, paths),
                    pending: Seq::empty(),
                    ..s
                }
            }
        },
        (Phase::Settling, EventView::Settled) => next_up(s, now),
        (Phase::Diffing, EventView::Diffed(outcome)) => {
            let rest = s.queue.drop_first();
            match outcome {
                DiffView::UpdatedTemplates(list) => next_up(
                    WatcherView { queue: rest, pending: list, ..s },
                    now,
                ),
                DiffView::Unchanged => next_up(
                    WatcherView { queue: rest, pending: Seq::empty(), ..s },
                    now,
                ),
                DiffView::NeedsRebuild => WatcherView {
                    phase: Phase::Rebuilding,
                    queue: Seq::empty(),
                    pending: Seq::empty(),
                    ..s
                },
            }
        },
        (Phase::Sending, EventView::Delivered) => next_up(
            WatcherView { pending: s.pending.drop_first(), ..s },
            now,
        ),
        (Phase::Rebuilding, EventView::Rebuilt(terminate)) => WatcherView {
            phase: Phase::Closing,
            terminate: terminate || !s.has_strategy,
            ..s
        },
        (Phase::Closing, EventView::Delivered) => {
            if s.terminate {
                WatcherView { phase: Phase::Stopped, ..s }
            } else {
                WatcherView { phase: Phase::Idle, last_action: now, ..s }
            }
        },
        _ => s,
    }
}

/// The watcher of one session.
pub struct Watcher {
    filter: PathFilter,
    has_strategy: bool,
    debouncer: Debouncer,
    phase: Phase,
    queue: Vec<String>,
    queue_head: usize,
    pending: Vec<Template>,
    pending_head: usize,
    terminate: bool,
}

impl View for Watcher {
    type V = WatcherView;

    closed spec fn view(&self) -> WatcherView {
        WatcherView {
            filter: self.filter@,
            has_strategy: self.has_strategy,
            phase: self.phase,
            last_action: self.debouncer@,
            queue: texts(self.queue@).skip(self.queue_head as int),
            pending: payloads(self.pending@).skip(self.pending_head as int),
            terminate: self.terminate,
        }
    }
}

impl Watcher {
    #[verifier::type_invariant]
    spec fn in_bounds(self) -> bool {
        &&& self.queue_head <= self.queue@.len()
        &&& self.pending_head <= self.pending@.len()
        &&& self.phase == Phase::Diffing ==> self.queue_head < self.queue@.len()
        &&& self.phase == Phase::Sending ==> self.pending_head < self.pending@.len()
    }

    /// A watcher between batches, whose last batch was at `now`.
    pub fn new(filter: PathFilter, has_strategy: bool, now: i64) -> (w: Watcher)
        ensures
            w@ == (WatcherView {
                filter: filter@,
                has_strategy,
                phase: Phase::Idle,
                last_action: now as int,
                queue: Seq::empty(),
                pending: Seq::empty(),
                terminate: false,
            }),
    {
        let w = Watcher {
            filter,
            has_strategy,
            debouncer: Debouncer::new(now),
            phase: Phase::Idle,
            queue: Vec::new(),
            queue_head: 0,
            pending: Vec::new(),
            pending_head: 0,
            terminate: false,
        };
        assert(w@.queue =~= Seq::<Seq<char>>::empty());
        assert(w@.pending =~= Seq::<Seq<u8>>::empty());
        w
    }

    pub fn phase(&self) -> (p: Phase)
        ensures
            p == self@.phase,
    {
        self.phase
    }

    pub fn filter(&self) -> (f: &PathFilter)
        ensures
            f@ == self@.filter,
    {
        &self.filter
    }

    /// What the watcher asks its owner to do now.
    pub fn awaited(&self) -> (action: WatcherAction)
        ensures
            action@ == awaited(self@),
            sound(self@),
    {
        proof {
            use_type_invariant(self);
        }
        match self.phase {
            Phase::Idle => WatcherAction::Wait,
            Phase::Settling => WatcherAction::Settle,
            Phase::Diffing => WatcherAction::Diff(self.queue[self.queue_head].clone()),
            Phase::Sending => WatcherAction::Broadcast(
                HotReloadMsg::UpdateTemplate(self.pending[self.pending_head].clone()),
            ),
            Phase::Rebuilding => WatcherAction::Rebuild,
            Phase::Closing => WatcherAction::Broadcast(HotReloadMsg::Shutdown),
            Phase::Stopped => WatcherAction::Stop,
        }
    }

    fn take_next(&mut self, now: i64)
        ensures
            final(self)@ == next_up(old(self)@, now as int),
    {
        proof {
            use_type_invariant(&*self);
        }
        if self.pending_head < self.pending.len() {
            self.phase = Phase::Sending;
        } else if self.queue_head < self.queue.len() {
            if holds_templates(self.queue[self.queue_head].as_str()) {
                self.phase = Phase::Diffing;
            } else {
                self.phase = Phase::Idle;
                self.queue_head = 0;
                self.queue = Vec::new();
                self.phase = Phase::Rebuilding;
                assert(self@.queue =~= Seq::<Seq<char>>::empty());
            }
        } else {
            self.phase = Phase::Idle;
            self.debouncer = Debouncer::new(now);
        }
    }

    /// Takes an event that arrives at `now` and answers what is to be done
    /// next. The stop signal is looked at when a batch arrives, and is
    /// raised when the session ends.
    pub fn step(&mut self, now: i64, event: WatcherEvent, abort: &mut AbortFlag) -> (action:
        WatcherAction)
        ensures
            final(self)@ == stepped(old(self)@, old(abort)@, now as int, event@),
            final(abort)@ == (old(abort)@ || final(self)@.phase == Phase::Stopped),
            action@ == awaited(final(self)@),
            sound(final(self)@),
    {
        proof {
            use_type_invariant(&*self);
        }
        let ghost before = self@;
        match (self.phase, event) {
            (Phase::Idle, WatcherEvent::Changed(paths)) => {
                if abort.is_raised() {
                    self.phase = Phase::Stopped;
                } else if self.debouncer.admits(now) {
                    let queue = self.filter.select(&paths);
                    if queue.len() == 0 {
                        self.debouncer = Debouncer::new(now);
                    } else {
                        self.queue_head = 0;
                        self.queue = queue;
                        self.pending_head = 0;
                        self.pending = Vec::new();
                        self.phase = Phase::Settling;
                        assert(self@.queue =~= accepted(before.filter, texts(paths@)));
                        assert(self@.pending =~= Seq::<Seq<u8>>::empty());
                    }
                }
            },
            (Phase::Settling, WatcherEvent::Settled) => {
                self.take_next(now);
            },
            (Phase::Diffing, WatcherEvent::Diffed(outcome)) => {
                let total: usize = self.queue.len();
                assert(self.queue_head < total);
                self.phase = Phase::Idle;
                self.queue_head = self.queue_head + 1;
                assert(self@.queue =~= before.queue.drop_first());
                match outcome {
                    DiffOutcome::UpdatedTemplates(list) => {
                        self.pending_head = 0;
                        self.pending = list;
                        assert(self@.pending =~= payloads(list@));
                        self.take_next(now);
                    },
                    DiffOutcome::Unchanged => {
                        self.pending_head = 0;
                        self.pending = Vec::new();
                        assert(self@.pending =~= Seq::<Seq<u8>>::empty());
                        self.take_next(now);
                    },
                    DiffOutcome::NeedsRebuild => {
                        self.queue_head = 0;
                        self.queue = Vec::new();
                        self.pending_head = 0;
                        self.pending = Vec::new();
                        self.phase = Phase::Rebuilding;
                        assert(self@.queue =~= Seq::<Seq<char>>::empty());
                        assert(self@.pending =~= Seq::<Seq<u8>>::empty());
                    },
                }
            },
            (Phase::Sending, WatcherEvent::Delivered) => {
                let total: usize = self.pending.len();
                assert(self.pending_head < total);
                self.phase = Phase::Idle;
                self.pending_head = self.pending_head + 1;
                assert(self@.pending =~= before.pending.drop_first());
                self.take_next(now);
            },
            (Phase::Rebuilding, WatcherEvent::Rebuilt(terminate)) => {
                self.terminate = terminate || !self.has_strategy;
                self.phase = Phase::Closing;
            },
            (Phase::Closing, WatcherEvent::Delivered) => {
                if self.terminate {
                    self.phase = Phase::Stopped;
                } else {
                    self.debouncer = Debouncer::new(now);
                    self.phase = Phase::Idle;
                }
            },
            _ => {},
        }
        if self.phase == Phase::Stopped {
            abort.raise();
        }
        self.awaited()
    }

    /// Takes an event at the present second. What is done is what `step`
    /// does for the second that the clock gave.
    pub fn handle(&mut self, event: WatcherEvent, abort: &mut AbortFlag) -> (action: WatcherAction)
        ensures
            exists|now: i64|
                final(self)@ == #[trigger] stepped(old(self)@, old(abort)@, now as int, event@),
            final(abort)@ == (old(abort)@ || final(self)@.phase == Phase::Stopped),
            action@ == awaited(final(self)@),
            sound(final(self)@),
    {
        let now = clock_seconds();
        self.step(now, event, abort)
    }
}

} // verus!
