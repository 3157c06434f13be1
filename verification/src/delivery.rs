//! What the registry guarantees of delivery: a newcomer sees the replay
//! before anything else, what a connection has received is never taken
//! back, and a connection that fails takes no other down with it.

use crate::registry::{
    enrolled, lemma_without_contains, lemma_without_distinct, replay, settled, went_through,
    without, RegistryView,
};
use crate::wire::{line, sendable, MsgView};
use vstd::prelude::*;

verus! {

/// One thing that happens to a registry.
pub enum RegistryOp {
    /// A newcomer was handled after `written` lines of its replay.
    Enroll { conn: u64, lines: Seq<Seq<u8>>, written: int },
    /// A broadcast was accounted for.
    Settle { sent: Seq<u8>, targets: Seq<u64>, outcomes: Seq<bool> },
}

/// The registry after one operation.
pub open spec fn applied(v: RegistryView, op: RegistryOp) -> RegistryView {
    match op {
        RegistryOp::Enroll { conn, lines, written } => enrolled(v, conn, lines, written),
        RegistryOp::Settle { sent, targets, outcomes } => settled(v, sent, targets, outcomes),
    }
}

/// The registry after a run of operations.
pub open spec fn run(v: RegistryView, ops: Seq<RegistryOp>) -> RegistryView
    decreases ops.len(),
{
    if ops.len() == 0 {
        v
    } else {
        applied(run(v, ops.drop_last()), ops.last())
    }
}

/// The line of a template update for each payload, in order.
pub open spec fn frames(snapshot: Seq<Seq<u8>>) -> Seq<Seq<u8>> {
    Seq::new(snapshot.len(), |i: int| line(MsgView::UpdateTemplate(snapshot[i])))
}

/// Whether the write to `c`, if `c` is among `targets`, failed.
pub open spec fn failed_for(targets: Seq<u64>, outcomes: Seq<bool>, c: u64) -> bool {
    exists|k: int|
        0 <= k < targets.len() && #[trigger] targets[k] == c && !went_through(outcomes, k)
}

/// The outcomes of writing message number `k` to each of `conns`, where
/// `ok(k, c)` says whether the write of message `k` to `c` goes through.
pub open spec fn outcomes_of(conns: Seq<u64>, k: int, ok: spec_fn(int, u64) -> bool) -> Seq<bool> {
    Seq::new(conns.len(), |i: int| ok(k, conns[i]))
}

/// The registry after the broadcast of each of `lines` in turn, every one
/// to the connections that are registered when its turn comes.
pub open spec fn broadcast_all(v: RegistryView, lines: Seq<Seq<u8>>, ok: spec_fn(int, u64) -> bool)
    -> RegistryView
    decreases lines.len(),
{
    if lines.len() == 0 {
        v
    } else {
        let k = lines.len() - 1;
        let before = broadcast_all(v, lines.drop_last(), ok);
        settled(before, lines[k], before.conns, outcomes_of(before.conns, k, ok))
    }
}

proof fn lemma_record_grows(v: RegistryView, conn: u64, lines: Seq<Seq<u8>>, c: u64)
    ensures
        v.received(c).is_prefix_of(v.record(conn, lines).received(c)),
        c != conn ==> v.record(conn, lines).received(c) == v.received(c),
        v.record(conn, lines).received(conn) == v.received(conn) + lines,
{
}

proof fn lemma_settled_grows(
    v: RegistryView,
    sent: Seq<u8>,
    targets: Seq<u64>,
    outcomes: Seq<bool>,
    c: u64,
)
    ensures
        v.received(c).is_prefix_of(settled(v, sent, targets, outcomes).received(c)),
    decreases targets.len(),
{
    if targets.len() > 0 {
        lemma_settled_grows(v, sent, targets.drop_last(), outcomes, c);
    }
}

/// What a connection has received is never taken back: whatever happens to
/// the registry, the lines a connection had received still open the lines
/// it has received afterwards.
pub proof fn law_history_only_grows(v: RegistryView, ops: Seq<RegistryOp>, c: u64)
    ensures
        v.received(c).is_prefix_of(run(v, ops).received(c)),
    decreases ops.len(),
{
    if ops.len() > 0 {
        law_history_only_grows(v, ops.drop_last(), c);
        if let RegistryOp::Settle { sent, targets, outcomes } = ops.last() {
            lemma_settled_grows(run(v, ops.drop_last()), sent, targets, outcomes, c);
        }
    }
}

/// The replay of a snapshot whose templates can all be sent is the line of
/// a template update for each template, in the order of the snapshot.
pub proof fn law_replay_is_the_snapshot(snapshot: Seq<Seq<u8>>)
    requires
        forall|i: int|
            0 <= i < snapshot.len() ==> sendable(MsgView::UpdateTemplate(#[trigger] snapshot[i])),
    ensures
        replay(snapshot) == frames(snapshot),
    decreases snapshot.len(),
{
    if snapshot.len() > 0 {
        law_replay_is_the_snapshot(snapshot.drop_last());
    }
}

/// Replay before live: a newcomer that nothing was written to before, and
/// whose whole replay went through, is registered with exactly the replay
/// of the snapshot as what it has received; and whatever happens later,
/// what it has received begins with that replay. A newcomer whose replay
/// was cut short is not registered.
pub proof fn law_replay_precedes_live(
    v: RegistryView,
    conn: u64,
    snapshot: Seq<Seq<u8>>,
    written: int,
    later: Seq<RegistryOp>,
)
    requires
        v.received(conn).len() == 0,
        !v.conns.contains(conn),
    ensures
        written >= replay(snapshot).len() ==> {
            let joined = enrolled(v, conn, replay(snapshot), written);
            &&& joined.conns == v.conns.push(conn)
            &&& joined.received(conn) == replay(snapshot)
            &&& replay(snapshot).is_prefix_of(run(joined, later).received(conn))
        },
        written < replay(snapshot).len() ==> enrolled(v, conn, replay(snapshot), written).conns
            == v.conns,
{
    if written >= replay(snapshot).len() {
        law_history_only_grows(enrolled(v, conn, replay(snapshot), written), later, conn);
    }
}

/// Whether a write to `c`, which is among `targets`, went through.
pub open spec fn reached(targets: Seq<u64>, outcomes: Seq<bool>, c: u64) -> bool {
    exists|k: int| 0 <= k < targets.len() && #[trigger] targets[k] == c && went_through(outcomes, k)
}

/// Those of `conns` to which no write failed, in their order.
pub open spec fn survivors(conns: Seq<u64>, targets: Seq<u64>, outcomes: Seq<bool>) -> Seq<u64>
    decreases conns.len(),
{
    if conns.len() == 0 {
        conns
    } else if failed_for(targets, outcomes, conns.last()) {
        survivors(conns.drop_last(), targets, outcomes)
    } else {
        survivors(conns.drop_last(), targets, outcomes).push(conns.last())
    }
}

proof fn lemma_survivors_same(
    conns: Seq<u64>,
    targets: Seq<u64>,
    front: Seq<u64>,
    outcomes: Seq<bool>,
)
    requires
        forall|d: u64| failed_for(targets, outcomes, d) == failed_for(front, outcomes, d),
    ensures
        survivors(conns, targets, outcomes) == survivors(conns, front, outcomes),
    decreases conns.len(),
{
    if conns.len() > 0 {
        lemma_survivors_same(conns.drop_last(), targets, front, outcomes);
    }
}

proof fn lemma_survivors_without(
    conns: Seq<u64>,
    targets: Seq<u64>,
    front: Seq<u64>,
    outcomes: Seq<bool>,
    x: u64,
)
    requires
        forall|d: u64|
            failed_for(targets, outcomes, d) == (failed_for(front, outcomes, d) || d == x),
    ensures
        survivors(conns, targets, outcomes) == without(survivors(conns, front, outcomes), x),
    decreases conns.len(),
{
    if conns.len() > 0 {
        let last = conns.last();
        let kept = survivors(conns.drop_last(), front, outcomes);
        lemma_survivors_without(conns.drop_last(), targets, front, outcomes, x);
        if !failed_for(front, outcomes, last) {
            assert(kept.push(last).drop_last() =~= kept);
        }
    }
}

proof fn lemma_survivors_members(conns: Seq<u64>, targets: Seq<u64>, outcomes: Seq<bool>)
    ensures
        forall|d: u64|
            #[trigger] survivors(conns, targets, outcomes).contains(d) <==> conns.contains(d)
                && !failed_for(targets, outcomes, d),
        survivors(conns, targets, outcomes).len() <= conns.len(),
        (forall|d: u64| conns.contains(d) ==> !failed_for(targets, outcomes, d)) ==> survivors(
            conns,
            targets,
            outcomes,
        ) == conns,
    decreases conns.len(),
{
    let kept = survivors(conns, targets, outcomes);
    if conns.len() > 0 {
        let front = conns.drop_last();
        let last = conns.last();
        let before = survivors(front, targets, outcomes);
        lemma_survivors_members(front, targets, outcomes);
        assert forall|d: u64| #[trigger] kept.contains(d) <==> conns.contains(d) && !failed_for(
            targets,
            outcomes,
            d,
        ) by {
            if kept.contains(d) {
                let i = choose|i: int| 0 <= i < kept.len() && kept[i] == d;
                if failed_for(targets, outcomes, last) || i < kept.len() - 1 {
                    assert(before.contains(d));
                }
            }
            if conns.contains(d) && !failed_for(targets, outcomes, d) {
                let j = choose|j: int| 0 <= j < conns.len() && conns[j] == d;
                if j < front.len() {
                    assert(front[j] == d);
                    assert(before.contains(d));
                    let i = choose|i: int| 0 <= i < before.len() && before[i] == d;
                    assert(kept[i] == d);
                } else {
                    assert(kept[kept.len() - 1] == d);
                }
            }
        }
        if forall|d: u64| conns.contains(d) ==> !failed_for(targets, outcomes, d) {
            assert(conns.contains(last));
            assert forall|d: u64| front.contains(d) implies !failed_for(targets, outcomes, d) by {
                assert(conns.contains(d));
            }
        }
    }
}

/// A broadcast, target by target: the connections that stay are those to
/// which no write failed, in their order, and the line is noted for
/// exactly the connections that a write reached.
pub proof fn lemma_settled(v: RegistryView, sent: Seq<u8>, targets: Seq<u64>, outcomes: Seq<bool>)
    requires
        targets.no_duplicates(),
    ensures
        settled(v, sent, targets, outcomes).conns == survivors(v.conns, targets, outcomes),
        forall|d: u64| #[trigger]
            settled(v, sent, targets, outcomes).received(d) == if reached(targets, outcomes, d) {
                v.received(d).push(sent)
            } else {
                v.received(d)
            },
    decreases targets.len(),
{
    let after = settled(v, sent, targets, outcomes);
    if targets.len() == 0 {
        lemma_survivors_members(v.conns, targets, outcomes);
    } else {
        let k = targets.len() - 1;
        let front = targets.drop_last();
        let last = targets[k];
        let before = settled(v, sent, front, outcomes);
        lemma_settled(v, sent, front, outcomes);
        assert forall|d: u64|
            failed_for(targets, outcomes, d) == (failed_for(front, outcomes, d) || (d == last
                && !went_through(outcomes, k))) by {
            if failed_for(targets, outcomes, d) {
                let j = choose|j: int|
                    0 <= j < targets.len() && #[trigger] targets[j] == d && !went_through(
                        outcomes,
                        j,
                    );
                if j < k {
                    assert(front[j] == d);
                }
            }
        }
        assert forall|d: u64|
            reached(targets, outcomes, d) == (reached(front, outcomes, d) || (d == last
                && went_through(outcomes, k))) by {
            if reached(targets, outcomes, d) {
                let j = choose|j: int|
                    0 <= j < targets.len() && #[trigger] targets[j] == d && went_through(
                        outcomes,
                        j,
                    );
                if j < k {
                    assert(front[j] == d);
                }
            }
        }
        if went_through(outcomes, k) {
            lemma_survivors_same(v.conns, targets, front, outcomes);
            assert forall|d: u64| #[trigger]
                after.received(d) == if reached(targets, outcomes, d) {
                    v.received(d).push(sent)
                } else {
                    v.received(d)
                } by {
                lemma_record_grows(before, last, seq![sent], d);
            }
        } else {
            lemma_survivors_without(v.conns, targets, front, outcomes, last);
            assert forall|d: u64| #[trigger]
                after.received(d) == if reached(targets, outcomes, d) {
                    v.received(d).push(sent)
                } else {
                    v.received(d)
                } by {
                assert(after.received(d) == before.received(d));
            }
        }
    }
}

/// What a broadcast does: the line goes to every connection that is
/// registered. A connection whose write went through has received the
/// line and stays; one whose write failed has not and is dropped. The
/// connections that stay keep their order, and nothing changes for a
/// connection that is not registered.
pub proof fn law_broadcast_outcome(v: RegistryView, sent: Seq<u8>, outcomes: Seq<bool>)
    requires
        v.conns.no_duplicates(),
    ensures
        ({
            let w = settled(v, sent, v.conns, outcomes);
            &&& w.conns == survivors(v.conns, v.conns, outcomes)
            &&& w.conns.no_duplicates()
            &&& forall|i: int|
                0 <= i < v.conns.len() && went_through(outcomes, i) ==> w.conns.contains(
                    #[trigger] v.conns[i],
                ) && w.received(v.conns[i]) == v.received(v.conns[i]).push(sent)
            &&& forall|i: int|
                0 <= i < v.conns.len() && !went_through(outcomes, i) ==> !w.conns.contains(
                    #[trigger] v.conns[i],
                ) && w.received(v.conns[i]) == v.received(v.conns[i])
            &&& forall|d: u64|
                !v.conns.contains(d) ==> !w.conns.contains(d) && #[trigger] w.received(d)
                    == v.received(d)
        }),
{
    lemma_settled(v, sent, v.conns, outcomes);
    lemma_survivors_members(v.conns, v.conns, outcomes);
    lemma_settled_distinct(v, sent, v.conns, outcomes);
}

/// The connections of a registry stay distinct through a broadcast.
pub proof fn lemma_settled_distinct(
    v: RegistryView,
    sent: Seq<u8>,
    targets: Seq<u64>,
    outcomes: Seq<bool>,
)
    requires
        v.conns.no_duplicates(),
    ensures
        settled(v, sent, targets, outcomes).conns.no_duplicates(),
    decreases targets.len(),
{
    if targets.len() > 0 {
        lemma_settled_distinct(v, sent, targets.drop_last(), outcomes);
        lemma_without_distinct(
            settled(v, sent, targets.drop_last(), outcomes).conns,
            targets[targets.len() - 1],
        );
    }
}

/// No connection is registered twice: whatever happens to a registry whose
/// connections are distinct, they stay distinct.
pub proof fn law_connections_stay_distinct(v: RegistryView, ops: Seq<RegistryOp>)
    requires
        v.conns.no_duplicates(),
    ensures
        run(v, ops).conns.no_duplicates(),
    decreases ops.len(),
{
    if ops.len() > 0 {
        law_connections_stay_distinct(v, ops.drop_last());
        if let RegistryOp::Settle { sent, targets, outcomes } = ops.last() {
            lemma_settled_distinct(run(v, ops.drop_last()), sent, targets, outcomes);
        }
    }
}

/// Eviction isolation: while a run of messages is broadcast, let every
/// write go through but those to the connection `c`. Then no connection
/// but `c` leaves the registry, and every other connection that was
/// registered receives all the messages, in order. `c` leaves if one of
/// the writes to it fails, and only then.
pub proof fn law_eviction_isolation(
    v: RegistryView,
    lines: Seq<Seq<u8>>,
    ok: spec_fn(int, u64) -> bool,
    c: u64,
)
    requires
        v.conns.no_duplicates(),
        forall|k: int, d: u64| 0 <= k < lines.len() && d != c ==> #[trigger] ok(k, d),
    ensures
        ({
            let w = broadcast_all(v, lines, ok);
            &&& w.conns == v.conns || w.conns == without(v.conns, c)
            &&& forall|d: u64|
                d != c && v.conns.contains(d) ==> w.conns.contains(d) && #[trigger] w.received(d)
                    == v.received(d) + lines
            &&& (forall|k: int| 0 <= k < lines.len() ==> #[trigger] ok(k, c)) ==> w.conns == v.conns
            &&& v.conns.contains(c) && (exists|k: int| 0 <= k < lines.len() && !#[trigger] ok(k, c))
                ==> w.conns == without(v.conns, c) && !w.conns.contains(c)
        }),
    decreases lines.len(),
{
    let w = broadcast_all(v, lines, ok);
    lemma_without_contains(v.conns, c);
    lemma_without_distinct(v.conns, c);
    if lines.len() > 0 {
        let k = lines.len() - 1;
        let before = broadcast_all(v, lines.drop_last(), ok);
        let outcomes = outcomes_of(before.conns, k, ok);
        law_eviction_isolation(v, lines.drop_last(), ok, c);
        law_broadcast_outcome(before, lines[k], outcomes);
        lemma_survivors_members(before.conns, before.conns, outcomes);
        if before.conns.contains(c) && !ok(k, c) {
            assert(w.conns == without(before.conns, c)) by {
                lemma_survivors_without(
                    before.conns,
                    before.conns,
                    Seq::<u64>::empty(),
                    outcomes,
                    c,
                );
                lemma_survivors_members(before.conns, Seq::<u64>::empty(), outcomes);
            }
        }
        if v.conns.contains(c) && (exists|j: int| 0 <= j < lines.len() && !#[trigger] ok(j, c)) {
            let j = choose|j: int| 0 <= j < lines.len() && !#[trigger] ok(j, c);
        }
    }
}

} // verus!
