//! What the watcher guarantees of a batch: which paths reach the Diff
//! Engine, when the rebuild path is taken and what it sends, and that a
//! session that has ended stays ended.
//!
//! A batch is followed here with a host that does what it is asked and
//! reports back: the answers of the Diff Engine are given in the order in
//! which it is asked, and the answer of the rebuild strategy is given once.

use crate::filter::{accepted, accepts, lemma_accepted_members, under_any};
use crate::rules::ignored;
use crate::watcher::{
    awaited, is_template_source, next_up, sound, stepped, ActionView, DiffView, EventView, Phase,
    WatcherView,
};
use crate::wire::MsgView;
use vstd::prelude::*;
use vstd::utf8::encode_utf8;

verus! {

/// The next answer of the Diff Engine. Where none is given, it found nothing.
pub open spec fn answer(outcomes: Seq<DiffView>) -> DiffView {
    if outcomes.len() > 0 {
        outcomes[0]
    } else {
        DiffView::Unchanged
    }
}

/// The answers that are left once the next one is used.
pub open spec fn later(outcomes: Seq<DiffView>) -> Seq<DiffView> {
    if outcomes.len() > 0 {
        outcomes.drop_first()
    } else {
        outcomes
    }
}

/// What the host reports once it has done what it was asked.
pub open spec fn reply(action: ActionView, outcomes: Seq<DiffView>, terminate: bool) -> EventView {
    match action {
        ActionView::Diff(_) => EventView::Diffed(answer(outcomes)),
        ActionView::Broadcast(_) => EventView::Delivered,
        ActionView::Rebuild => EventView::Rebuilt(terminate),
        _ => EventView::Settled,
    }
}

/// The answers that are left once the host has done what it was asked.
pub open spec fn left(action: ActionView, outcomes: Seq<DiffView>) -> Seq<DiffView> {
    if action is Diff {
        later(outcomes)
    } else {
        outcomes
    }
}

/// How far a phase is from the end of its batch.
pub open spec fn rank(phase: Phase) -> nat {
    match phase {
        Phase::Settling => 3,
        Phase::Diffing | Phase::Sending | Phase::Rebuilding => 2,
        Phase::Closing => 1,
        Phase::Idle | Phase::Stopped => 0,
    }
}

/// Everything the watcher asks for, in order, from the state `s` until the
/// batch is over and it waits for the next change or stops.
pub open spec fn batch_trace(s: WatcherView, now: int, outcomes: Seq<DiffView>, terminate: bool)
    -> Seq<ActionView>
    decreases s.queue.len(), s.pending.len(), rank(s.phase),
    when sound(s)
{
    let action = awaited(s);
    if action is Wait || action is Stop {
        Seq::empty()
    } else {
        seq![action] + batch_trace(
            stepped(s, false, now, reply(action, outcomes, terminate)),
            now,
            left(action, outcomes),
            terminate,
        )
    }
}

/// The rebuild path: the rebuild strategy is invoked, and the shutdown
/// notice is broadcast.
pub open spec fn rebuild_path() -> Seq<ActionView> {
    seq![ActionView::Rebuild, ActionView::Broadcast(MsgView::Shutdown)]
}

/// The broadcast of each of `templates`, in order.
pub open spec fn broadcasts(templates: Seq<Seq<u8>>) -> Seq<ActionView> {
    Seq::new(
        templates.len(),
        |i: int| ActionView::Broadcast(MsgView::UpdateTemplate(templates[i])),
    )
}

/// What the Diff Engine's answer for a path leads to, with `rest` for what
/// the paths behind it lead to: a rebuild, which abandons them, or the
/// broadcast of the templates that changed and then `rest`.
pub open spec fn follow_up(found: DiffView, rest: Seq<ActionView>) -> Seq<ActionView> {
    match found {
        DiffView::NeedsRebuild => rebuild_path(),
        DiffView::UpdatedTemplates(templates) => broadcasts(templates) + rest,
        DiffView::Unchanged => rest,
    }
}

/// The route of a batch: the paths are taken in order. A path whose file
/// holds no templates leads down the rebuild path, and the paths behind
/// it are abandoned. Any other path is put before the Diff Engine, and its
/// answer is followed up.
pub open spec fn route(queue: Seq<Seq<char>>, outcomes: Seq<DiffView>) -> Seq<ActionView>
    decreases queue.len(),
{
    if queue.len() == 0 {
        Seq::empty()
    } else if !is_template_source(queue[0]) {
        rebuild_path()
    } else {
        seq![ActionView::Diff(queue[0])] + follow_up(
            answer(outcomes),
            route(queue.drop_first(), later(outcomes)),
        )
    }
}

/// What a watcher in the state `s` asks for until its batch is over.
pub open spec fn expected(s: WatcherView, outcomes: Seq<DiffView>) -> Seq<ActionView> {
    match s.phase {
        Phase::Settling => seq![ActionView::Settle] + (broadcasts(s.pending) + route(
            s.queue,
            outcomes,
        )),
        Phase::Sending => broadcasts(s.pending) + route(s.queue, outcomes),
        Phase::Diffing => seq![ActionView::Diff(s.queue[0])] + follow_up(
            answer(outcomes),
            route(s.queue.drop_first(), later(outcomes)),
        ),
        Phase::Rebuilding => rebuild_path(),
        Phase::Closing => seq![ActionView::Broadcast(MsgView::Shutdown)],
        Phase::Idle | Phase::Stopped => Seq::empty(),
    }
}

proof fn lemma_next_up_expected(s: WatcherView, now: int, outcomes: Seq<DiffView>)
    ensures
        expected(next_up(s, now), outcomes) == broadcasts(s.pending) + route(s.queue, outcomes),
{
}

/// A batch follows its route, from any state on.
pub proof fn lemma_batch_follows_route(
    s: WatcherView,
    now: int,
    outcomes: Seq<DiffView>,
    terminate: bool,
)
    requires
        sound(s),
    ensures
        batch_trace(s, now, outcomes, terminate) == expected(s, outcomes),
    decreases s.queue.len(), s.pending.len(), rank(s.phase),
{
    let action = awaited(s);
    if s.phase == Phase::Rebuilding {
        lemma_rebuild_path(s, now, outcomes, terminate);
    } else if !(action is Wait || action is Stop) {
        let s1 = stepped(s, false, now, reply(action, outcomes, terminate));
        lemma_batch_follows_route(s1, now, left(action, outcomes), terminate);
        match s.phase {
            Phase::Settling => {
                lemma_next_up_expected(s, now, outcomes);
            },
            Phase::Sending => {
                lemma_next_up_expected(
                    WatcherView { pending: s.pending.drop_first(), ..s },
                    now,
                    outcomes,
                );
            },
            Phase::Diffing => {
                if let DiffView::UpdatedTemplates(templates) = answer(outcomes) {
                    lemma_next_up_expected(
                        WatcherView { queue: s.queue.drop_first(), pending: templates, ..s },
                        now,
                        later(outcomes),
                    );
                }
            },
            _ => {},
        }
    }
}

/// Routing in order: a batch that was taken up is settled, and then
/// follows its route.
pub proof fn law_batch_follows_its_route(
    s: WatcherView,
    now: int,
    outcomes: Seq<DiffView>,
    terminate: bool,
)
    requires
        s.phase == Phase::Settling,
        s.pending.len() == 0,
    ensures
        batch_trace(s, now, outcomes, terminate) == seq![ActionView::Settle] + route(
            s.queue,
            outcomes,
        ),
{
    lemma_batch_follows_route(s, now, outcomes, terminate);
}

/// Whether the paths of `queue`, put before the Diff Engine in turn, lead
/// down the rebuild path: a path whose file holds no templates does, and
/// so does an answer that a rebuild is needed.
pub open spec fn rebuild_due(queue: Seq<Seq<char>>, outcomes: Seq<DiffView>) -> bool
    decreases queue.len(),
{
    if queue.len() == 0 {
        false
    } else if !is_template_source(queue[0]) {
        true
    } else if answer(outcomes) is NeedsRebuild {
        true
    } else {
        rebuild_due(queue.drop_first(), later(outcomes))
    }
}

/// Whether no answer that the Diff Engine is asked for carries a template.
pub open spec fn quiet(queue: Seq<Seq<char>>, outcomes: Seq<DiffView>) -> bool
    decreases queue.len(),
{
    if queue.len() == 0 {
        true
    } else if !is_template_source(queue[0]) {
        true
    } else {
        match answer(outcomes) {
            DiffView::NeedsRebuild => true,
            DiffView::Unchanged => quiet(queue.drop_first(), later(outcomes)),
            DiffView::UpdatedTemplates(list) => list.len() == 0 && quiet(
                queue.drop_first(),
                later(outcomes),
            ),
        }
    }
}

/// Whether the batch, from the state `s` on, goes down the rebuild path.
pub open spec fn rebuilds(s: WatcherView, outcomes: Seq<DiffView>) -> bool {
    match s.phase {
        Phase::Settling | Phase::Sending => rebuild_due(s.queue, outcomes),
        Phase::Diffing => answer(outcomes) is NeedsRebuild || rebuild_due(
            s.queue.drop_first(),
            later(outcomes),
        ),
        Phase::Rebuilding => true,
        _ => false,
    }
}

/// Whether the batch, from the state `s` on, broadcasts no template.
pub open spec fn silent(s: WatcherView, outcomes: Seq<DiffView>) -> bool {
    match s.phase {
        Phase::Settling => s.pending.len() == 0 && quiet(s.queue, outcomes),
        Phase::Sending => false,
        Phase::Diffing => match answer(outcomes) {
            DiffView::NeedsRebuild => true,
            DiffView::Unchanged => quiet(s.queue.drop_first(), later(outcomes)),
            DiffView::UpdatedTemplates(list) => list.len() == 0 && quiet(
                s.queue.drop_first(),
                later(outcomes),
            ),
        },
        _ => true,
    }
}

/// Whether an action broadcasts a template.
pub open spec fn sends_template(action: ActionView) -> bool {
    action matches ActionView::Broadcast(MsgView::UpdateTemplate(_))
}

/// The rebuild path, once entered, is the invocation of the strategy and
/// the broadcast of the shutdown notice, and then the batch is over.
pub proof fn lemma_rebuild_path(s: WatcherView, now: int, outcomes: Seq<DiffView>, terminate: bool)
    requires
        s.phase == Phase::Rebuilding,
    ensures
        batch_trace(s, now, outcomes, terminate) == rebuild_path(),
{
    let closing = stepped(s, false, now, EventView::Rebuilt(terminate));
    let over = stepped(closing, false, now, EventView::Delivered);
    assert(batch_trace(over, now, outcomes, terminate) =~= Seq::<ActionView>::empty());
    assert(batch_trace(closing, now, outcomes, terminate) =~= seq![
        ActionView::Broadcast(MsgView::Shutdown),
    ]);
}

/// The shape of a batch, from any state on.
pub proof fn lemma_batch_shape(s: WatcherView, now: int, outcomes: Seq<DiffView>, terminate: bool)
    requires
        sound(s),
    ensures
        ({
            let t = batch_trace(s, now, outcomes, terminate);
            &&& forall|i: int| 0 <= i < t.len() && #[trigger] t[i] is Rebuild ==> i + 2 == t.len()
            &&& forall|i: int|
                0 <= i < t.len() && #[trigger] t[i] == ActionView::Broadcast(MsgView::Shutdown)
                    ==> i + 1 == t.len()
            &&& t.len() > 0 && t.last() == ActionView::Broadcast(MsgView::Shutdown) ==> s.phase
                == Phase::Closing || (t.len() >= 2 && t[t.len() - 2] is Rebuild)
            &&& rebuilds(s, outcomes) ==> t.len() >= 2 && t[t.len() - 2] is Rebuild && t.last()
                == ActionView::Broadcast(MsgView::Shutdown)
            &&& !rebuilds(s, outcomes) ==> forall|i: int|
                0 <= i < t.len() ==> !(#[trigger] t[i] is Rebuild)
            &&& forall|i: int|
                0 <= i < t.len() ==> (#[trigger] t[i] matches ActionView::Diff(p)
                    ==> s.queue.contains(p))
            &&& (forall|i: int| 0 <= i < t.len() ==> !sends_template(#[trigger] t[i])) <==> silent(
                s,
                outcomes,
            )
        }),
    decreases s.queue.len(), s.pending.len(), rank(s.phase),
{
    let t = batch_trace(s, now, outcomes, terminate);
    let action = awaited(s);
    if s.phase == Phase::Rebuilding {
        lemma_rebuild_path(s, now, outcomes, terminate);
    } else if !(action is Wait || action is Stop) {
        let s1 = stepped(s, false, now, reply(action, outcomes, terminate));
        let rest = left(action, outcomes);
        let t1 = batch_trace(s1, now, rest, terminate);
        lemma_batch_shape(s1, now, rest, terminate);
        assert(t[0] == action);
        if s.phase != Phase::Sending && (forall|i: int|
            0 <= i < t.len() ==> !sends_template(#[trigger] t[i])) {
            assert forall|j: int| 0 <= j < t1.len() implies !sends_template(#[trigger] t1[j]) by {
                assert(!sends_template(t[j + 1]));
            }
        }
    }
}

/// What leads down the rebuild path: a path whose file holds no
/// templates, anywhere in the batch, and an answer of the Diff Engine that
/// a rebuild is needed, for any path of the batch.
pub proof fn law_rebuild_causes(queue: Seq<Seq<char>>, outcomes: Seq<DiffView>, k: int)
    requires
        0 <= k < queue.len(),
        !is_template_source(queue[k]) || (k < outcomes.len() && outcomes[k] is NeedsRebuild),
    ensures
        rebuild_due(queue, outcomes),
    decreases queue.len(),
{
    if k > 0 && is_template_source(queue[0]) && !(answer(outcomes) is NeedsRebuild) {
        law_rebuild_causes(queue.drop_first(), later(outcomes), k - 1);
    }
}

/// Rebuild broadcast: take a batch that was taken up and is about to be
/// routed. If it leads down the rebuild path, then the rebuild strategy is
/// invoked exactly once, the shutdown notice is broadcast right after it,
/// and with that the batch is over. If it does not, neither happens.
/// `law_rebuild_causes` says what leads down that path.
pub proof fn law_rebuild_broadcast(
    s: WatcherView,
    now: int,
    outcomes: Seq<DiffView>,
    terminate: bool,
)
    requires
        s.phase == Phase::Settling,
    ensures
        ({
            let t = batch_trace(s, now, outcomes, terminate);
            &&& rebuild_due(s.queue, outcomes) ==> {
                &&& t.len() >= 2
                &&& t[t.len() - 2] is Rebuild
                &&& t[t.len() - 1] == ActionView::Broadcast(MsgView::Shutdown)
                &&& forall|i: int|
                    0 <= i < t.len() && #[trigger] t[i] is Rebuild ==> i == t.len() - 2
                &&& forall|i: int|
                    0 <= i < t.len() && #[trigger] t[i] == ActionView::Broadcast(MsgView::Shutdown)
                        ==> i == t.len() - 1
            }
            &&& !rebuild_due(s.queue, outcomes) ==> forall|i: int|
                0 <= i < t.len() ==> !(#[trigger] t[i] is Rebuild) && t[i] != ActionView::Broadcast(
                    MsgView::Shutdown,
                )
        }),
{
    lemma_batch_shape(s, now, outcomes, terminate);
}

/// A batch that was taken up broadcasts no template exactly when no answer
/// that the Diff Engine is asked for carries one. So a batch that leads
/// down the rebuild path sends no template update if the paths before the
/// one that leads there changed no template, and only then.
pub proof fn law_rebuild_without_updates(
    s: WatcherView,
    now: int,
    outcomes: Seq<DiffView>,
    terminate: bool,
)
    requires
        s.phase == Phase::Settling,
        s.pending.len() == 0,
    ensures
        ({
            let t = batch_trace(s, now, outcomes, terminate);
            (forall|i: int| 0 <= i < t.len() ==> !sends_template(#[trigger] t[i])) <==> quiet(
                s.queue,
                outcomes,
            )
        }),
{
    lemma_batch_shape(s, now, outcomes, terminate);
}

/// The state in which the batch that is under way in `s` ends.
pub open spec fn batch_end(s: WatcherView, now: int, outcomes: Seq<DiffView>, terminate: bool)
    -> WatcherView
    decreases s.queue.len(), s.pending.len(), rank(s.phase),
    when sound(s)
{
    let action = awaited(s);
    if action is Wait || action is Stop {
        s
    } else {
        batch_end(
            stepped(s, false, now, reply(action, outcomes, terminate)),
            now,
            left(action, outcomes),
            terminate,
        )
    }
}

/// Where a batch ends, from any state on.
pub proof fn lemma_batch_end(s: WatcherView, now: int, outcomes: Seq<DiffView>, terminate: bool)
    requires
        sound(s),
    ensures
        ({
            let end = batch_end(s, now, outcomes, terminate);
            &&& end.phase == Phase::Idle || end.phase == Phase::Stopped
            &&& end.filter == s.filter
            &&& end.has_strategy == s.has_strategy
            &&& end.phase == Phase::Idle && s.phase != Phase::Idle ==> end.last_action == now
            &&& end.phase == Phase::Stopped <==> s.phase == Phase::Stopped || (s.phase
                == Phase::Closing && s.terminate) || (rebuilds(s, outcomes) && (terminate
                || !s.has_strategy))
        }),
    decreases s.queue.len(), s.pending.len(), rank(s.phase),
{
    let action = awaited(s);
    if !(action is Wait || action is Stop) {
        lemma_batch_end(
            stepped(s, false, now, reply(action, outcomes, terminate)),
            now,
            left(action, outcomes),
            terminate,
        );
    }
}

/// A batch uses up its second: a batch that was taken up ends with the
/// watcher between batches, or stopped. It has stopped exactly when the
/// batch led down the rebuild path and the rebuild ends the session:
/// the strategy said so, or there is none. Otherwise the second at which
/// the batch ended is the new last action, and a change that arrives at
/// that second or before it is not looked at: the state stays as it is and
/// the watcher waits on.
pub proof fn law_batch_uses_up_its_second(
    s: WatcherView,
    now: int,
    outcomes: Seq<DiffView>,
    terminate: bool,
    next: int,
    paths: Seq<Seq<char>>,
)
    requires
        s.phase == Phase::Settling,
    ensures
        ({
            let end = batch_end(s, now, outcomes, terminate);
            &&& end.phase == Phase::Stopped <==> rebuild_due(s.queue, outcomes) && (terminate
                || !s.has_strategy)
            &&& end.phase != Phase::Stopped ==> {
                &&& end.phase == Phase::Idle
                &&& end.last_action == now
                &&& next <= now ==> stepped(end, false, next, EventView::Changed(paths)) == end
            }
        }),
{
    lemma_batch_end(s, now, outcomes, terminate);
}

/// Filter correctness: a change arrives while the watcher is between
/// batches. A path of it that lies outside every watched subpath, under an
/// excluded subpath, or is matched by the ignore rules is not taken up,
/// and a path that is not taken up is never put before the Diff Engine.
/// Where no path of the change is taken up, nothing at all is asked for:
/// no pause, no Diff Engine call, no broadcast, no rebuild.
pub proof fn law_filter_correctness(
    s: WatcherView,
    aborted: bool,
    now: int,
    paths: Seq<Seq<char>>,
    outcomes: Seq<DiffView>,
    terminate: bool,
    p: Seq<char>,
)
    requires
        s.phase == Phase::Idle,
    ensures
        !under_any(s.filter.watched, encode_utf8(p)) ==> !accepts(s.filter, p),
        under_any(s.filter.excluded, encode_utf8(p)) ==> !accepts(s.filter, p),
        ignored(s.filter.rules, p) ==> !accepts(s.filter, p),
        ({
            let taken = stepped(s, aborted, now, EventView::Changed(paths));
            let t = batch_trace(taken, now, outcomes, terminate);
            &&& !accepts(s.filter, p) ==> forall|i: int|
                0 <= i < t.len() ==> #[trigger] t[i] != ActionView::Diff(p)
            &&& (forall|k: int| 0 <= k < paths.len() ==> !accepts(s.filter, #[trigger] paths[k]))
                ==> t.len() == 0
        }),
{
    let taken = stepped(s, aborted, now, EventView::Changed(paths));
    lemma_accepted_members(s.filter, paths);
    lemma_batch_shape(taken, now, outcomes, terminate);
}

/// The state after a run of events, each with the second at which it arrives.
pub open spec fn after_events(s: WatcherView, aborted: bool, events: Seq<(int, EventView)>)
    -> WatcherView
    decreases events.len(),
{
    if events.len() == 0 {
        s
    } else {
        let before = after_events(s, aborted, events.drop_last());
        stepped(
            before,
            aborted || before.phase == Phase::Stopped,
            events.last().0,
            events.last().1,
        )
    }
}

/// Whether a session is ending or has ended: the shutdown notice of a
/// rebuild that ends it is on its way, or it has stopped.
pub open spec fn ending(s: WatcherView) -> bool {
    s.phase == Phase::Stopped || (s.phase == Phase::Closing && s.terminate)
}

/// Termination is final: once the rebuild strategy has said that the
/// session ends, or none is configured when a rebuild is due, the session
/// is ending, and whatever is reported to the watcher afterwards it asks
/// for nothing but the broadcast of the shutdown notice and then to stop.
/// Once it has stopped, no event changes its state. A watcher that
/// finds the stop signal raised when a change arrives stops as well.
pub proof fn law_termination_is_final(
    s: WatcherView,
    aborted: bool,
    now: int,
    events: Seq<(int, EventView)>,
)
    ensures
        s.phase == Phase::Rebuilding ==> ending(
            stepped(s, aborted, now, EventView::Rebuilt(true)),
        ),
        s.phase == Phase::Rebuilding && !s.has_strategy ==> ending(
            stepped(s, aborted, now, EventView::Rebuilt(false)),
        ),
        ending(s) ==> stepped(s, aborted, now, EventView::Delivered).phase == Phase::Stopped,
        ending(s) ==> {
            let end = after_events(s, aborted, events);
            &&& ending(end)
            &&& awaited(end) == ActionView::Stop || awaited(end) == ActionView::Broadcast(
                MsgView::Shutdown,
            )
            &&& s.phase == Phase::Stopped ==> end == s
        },
        s.phase == Phase::Idle && aborted ==> forall|paths: Seq<Seq<char>>|
            (#[trigger] stepped(s, aborted, now, EventView::Changed(paths))).phase
                == Phase::Stopped,
    decreases events.len(),
{
    if ending(s) && events.len() > 0 {
        law_termination_is_final(s, aborted, now, events.drop_last());
    }
}

} // verus!
