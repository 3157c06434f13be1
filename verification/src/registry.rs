//! The connection registry: the clients that are connected, and what each
//! of them has been sent.
//!
//! A connection is known by the number its owner gave it when it was
//! accepted. The registry does no writing itself. It says what is to be
//! written to whom, and is told afterwards which writes went through: a
//! newcomer joins only when the whole replay has reached it, and a
//! connection that a broadcast could not reach is dropped for good.

use crate::wire::{encode, line, sendable, HotReloadMsg, MsgView, Template};
use vstd::prelude::*;

verus! {

/// The mathematical content of a registry.
pub struct RegistryView {
    /// The registered connections, in the order in which they joined.
    pub conns: Seq<u64>,
    /// The lines that were written to each connection, in order.
    pub delivered: Map<u64, Seq<Seq<u8>>>,
}

impl RegistryView {
    /// The lines that `conn` has received so far.
    pub open spec fn received(self, conn: u64) -> Seq<Seq<u8>> {
        if self.delivered.contains_key(conn) {
            self.delivered[conn]
        } else {
            Seq::empty()
        }
    }

    /// The registry once `lines` more have reached `conn`.
    pub open spec fn record(self, conn: u64, lines: Seq<Seq<u8>>) -> RegistryView {
        RegistryView { delivered: self.delivered.insert(conn, self.received(conn) + lines), ..self }
    }
}

/// `s` without every occurrence of `x`.
pub open spec fn without(s: Seq<u64>, x: u64) -> Seq<u64>
    decreases s.len(),
{
    if s.len() == 0 {
        s
    } else if s.last() == x {
        without(s.drop_last(), x)
    } else {
        without(s.drop_last(), x).push(s.last())
    }
}

pub proof fn lemma_without_contains(s: Seq<u64>, x: u64)
    ensures
        forall|y: u64| #[trigger] without(s, x).contains(y) <==> s.contains(y) && y != x,
    decreases s.len(),
{
    if s.len() > 0 {
        let front = s.drop_last();
        let kept = without(front, x);
        let w = without(s, x);
        lemma_without_contains(front, x);
        assert forall|y: u64| #[trigger] w.contains(y) <==> s.contains(y) && y != x by {
            if w.contains(y) {
                let i = choose|i: int| 0 <= i < w.len() && w[i] == y;
                if s.last() != x && i == w.len() - 1 {
                    assert(s[s.len() - 1] == y);
                } else {
                    assert(kept[i] == y);
                    assert(kept.contains(y));
                    let j = choose|j: int| 0 <= j < front.len() && front[j] == y;
                    assert(s[j] == y);
                }
            }
            if s.contains(y) && y != x {
                let j = choose|j: int| 0 <= j < s.len() && s[j] == y;
                if j < front.len() {
                    assert(front[j] == y);
                    assert(front.contains(y));
                    assert(kept.contains(y));
                    let i = choose|i: int| 0 <= i < kept.len() && kept[i] == y;
                    assert(w[i] == y);
                } else {
                    assert(w[w.len() - 1] == y);
                }
            }
        }
    }
}

pub proof fn lemma_without_distinct(s: Seq<u64>, x: u64)
    requires
        s.no_duplicates(),
    ensures
        without(s, x).no_duplicates(),
    decreases s.len(),
{
    if s.len() > 0 {
        let front = s.drop_last();
        let kept = without(front, x);
        lemma_without_distinct(front, x);
        lemma_without_contains(front, x);
        if s.last() != x {
            if kept.contains(s.last()) {
                let j = choose|j: int| 0 <= j < front.len() && front[j] == s.last();
                assert(s[j] == s[s.len() - 1]);
            }
            assert forall|i: int, j: int|
                0 <= i < kept.len() + 1 && 0 <= j < kept.len() + 1 && i != j implies kept.push(
                s.last(),
            )[i] != kept.push(s.last())[j] by {
                if i < kept.len() {
                    assert(kept.contains(kept[i]));
                }
                if j < kept.len() {
                    assert(kept.contains(kept[j]));
                }
            }
        }
    }
}

/// The payloads of a list of templates.
pub open spec fn payloads(v: Seq<Template>) -> Seq<Seq<u8>> {
    v.map_values(|t: Template| t@)
}

/// The lines of a list of byte vectors.
pub open spec fn lines_of(v: Seq<Vec<u8>>) -> Seq<Seq<u8>> {
    v.map_values(|l: Vec<u8>| l@)
}

/// The replay of a snapshot: the line of a template update for each of its
/// templates, in their order. A template that cannot travel on one line
/// is left out.
pub open spec fn replay(snapshot: Seq<Seq<u8>>) -> Seq<Seq<u8>>
    decreases snapshot.len(),
{
    if snapshot.len() == 0 {
        Seq::empty()
    } else {
        let front = replay(snapshot.drop_last());
        let update = MsgView::UpdateTemplate(snapshot.last());
        if sendable(update) {
            front.push(line(update))
        } else {
            front
        }
    }
}

/// The registry once a newcomer has been handled: the `written` first lines
/// of its replay have reached it, and it has joined if that is all of
/// them and it was not registered already.
pub open spec fn enrolled(v: RegistryView, conn: u64, lines: Seq<Seq<u8>>, written: int)
    -> RegistryView {
    let reached = if written >= lines.len() {
        lines
    } else if written >= 0 {
        lines.take(written)
    } else {
        Seq::empty()
    };
    let noted = v.record(conn, reached);
    if joins(v, conn, lines, written) {
        RegistryView { conns: v.conns.push(conn), ..noted }
    } else {
        noted
    }
}

/// Whether a newcomer joins: its whole replay was written, and it is not
/// registered yet.
pub open spec fn joins(v: RegistryView, conn: u64, lines: Seq<Seq<u8>>, written: int) -> bool {
    written >= lines.len() && !v.conns.contains(conn)
}

/// The registry once one write of a broadcast is accounted for: a line that
/// went through is noted, a connection that could not be written to is dropped.
pub open spec fn settled_one(v: RegistryView, sent: Seq<u8>, target: u64, ok: bool)
    -> RegistryView {
    if ok {
        v.record(target, seq![sent])
    } else {
        RegistryView { conns: without(v.conns, target), ..v }
    }
}

/// Whether the write to the target at position `k` went through. A write
/// without a reported outcome counts as failed.
pub open spec fn went_through(outcomes: Seq<bool>, k: int) -> bool {
    0 <= k < outcomes.len() && outcomes[k]
}

/// The registry once a broadcast of `sent` to `targets` is accounted for,
/// target by target.
pub open spec fn settled(v: RegistryView, sent: Seq<u8>, targets: Seq<u64>, outcomes: Seq<bool>)
    -> RegistryView
    decreases targets.len(),
{
    if targets.len() == 0 {
        v
    } else {
        let k = targets.len() - 1;
        settled_one(
            settled(v, sent, targets.drop_last(), outcomes),
            sent,
            targets[k],
            went_through(outcomes, k),
        )
    }
}

/// Whether a call of `write` on a line that holds `content` can return `ok`.
pub open spec fn wrote<W: Fn(&Vec<u8>) -> bool>(write: W, content: Seq<u8>, ok: bool) -> bool {
    exists|l: &Vec<u8>| l@ == content && #[trigger] call_ensures(write, (l,), ok)
}

/// Whether a call of `write` for `conn`, on a line that holds `content`,
/// can return `ok`.
pub open spec fn wrote_to<W: Fn(u64, &Vec<u8>) -> bool>(
    write: W,
    conn: u64,
    content: Seq<u8>,
    ok: bool,
) -> bool {
    exists|l: &Vec<u8>| l@ == content && #[trigger] call_ensures(write, (conn, l), ok)
}

/// What a broadcast asks its owner to do: write `line` to each of `targets`.
pub struct Dispatch {
    pub line: Vec<u8>,
    pub targets: Vec<u64>,
}

/// The set of connected clients.
pub struct ConnectionRegistry {
    conns: Vec<u64>,
    ledger: Ghost<Map<u64, Seq<Seq<u8>>>>,
}

impl View for ConnectionRegistry {
    type V = RegistryView;

    closed spec fn view(&self) -> RegistryView {
        RegistryView { conns: self.conns@, delivered: self.ledger@ }
    }
}

/// The lines that replay a snapshot to a newcomer.
pub fn replay_lines(snapshot: &Vec<Template>) -> (out: Vec<Vec<u8>>)
    ensures
        lines_of(out@) == replay(payloads(snapshot@)),
{
    let mut out: Vec<Vec<u8>> = Vec::new();
    let mut i: usize = 0;
    while i < snapshot.len()
        invariant
            i <= snapshot@.len(),
            lines_of(out@) == replay(payloads(snapshot@.take(i as int))),
        decreases snapshot@.len() - i,
    {
        assert(payloads(snapshot@.take(i + 1)).drop_last() =~= payloads(snapshot@.take(i as int)));
        let update = HotReloadMsg::UpdateTemplate(snapshot[i].clone());
        if let Some(l) = encode(&update) {
            out.push(l);
        }
        i = i + 1;
    }
    assert(snapshot@.take(snapshot@.len() as int) =~= snapshot@);
    out
}

fn drop_conn(conns: &Vec<u64>, conn: u64) -> (out: Vec<u64>)
    ensures
        out@ == without(conns@, conn),
{
    let mut out: Vec<u64> = Vec::new();
    let mut i: usize = 0;
    while i < conns.len()
        invariant
            i <= conns@.len(),
            out@ == without(conns@.take(i as int), conn),
        decreases conns@.len() - i,
    {
        assert(conns@.take(i + 1).drop_last() =~= conns@.take(i as int));
        if conns[i] != conn {
            out.push(conns[i]);
        }
        i = i + 1;
    }
    assert(conns@.take(conns@.len() as int) =~= conns@);
    out
}

impl ConnectionRegistry {
    #[verifier::type_invariant]
    spec fn distinct(self) -> bool {
        self.conns@.no_duplicates()
    }

    /// A registry without connections, which has sent nothing.
    pub fn new() -> (r: ConnectionRegistry)
        ensures
            r@.conns == Seq::<u64>::empty(),
            r@.delivered == Map::<u64, Seq<Seq<u8>>>::empty(),
    {
        ConnectionRegistry { conns: Vec::new(), ledger: Ghost(Map::empty()) }
    }

    /// The number of registered connections, none of which is counted twice.
    pub fn len(&self) -> (n: usize)
        ensures
            n == self@.conns.len(),
            self@.conns.no_duplicates(),
    {
        proof {
            use_type_invariant(self);
        }
        self.conns.len()
    }

    pub fn is_empty(&self) -> (r: bool)
        ensures
            r == (self@.conns.len() == 0),
    {
        self.conns.len() == 0
    }

    /// Whether `conn` is registered.
    pub fn contains(&self, conn: u64) -> (r: bool)
        ensures
            r == self@.conns.contains(conn),
    {
        let mut i: usize = 0;
        while i < self.conns.len()
            invariant
                i <= self.conns@.len(),
                forall|k: int| 0 <= k < i ==> self.conns@[k] != conn,
            decreases self.conns@.len() - i,
        {
            if self.conns[i] == conn {
                return true;
            }
            i = i + 1;
        }
        false
    }

    /// The registered connections, in the order in which they joined.
    pub fn connections(&self) -> (out: Vec<u64>)
        ensures
            out@ == self@.conns,
    {
        let mut out: Vec<u64> = Vec::new();
        let mut i: usize = 0;
        while i < self.conns.len()
            invariant
                i <= self.conns@.len(),
                out@ == self.conns@.take(i as int),
            decreases self.conns@.len() - i,
        {
            out.push(self.conns[i]);
            i = i + 1;
        }
        out
    }

    /// Handles a newcomer once its replay has been attempted: `written`
    /// lines of `lines` reached it, in order, before the first failed
    /// write or the end. It joins only if that was all of them.
    pub fn enroll(&mut self, conn: u64, lines: &Vec<Vec<u8>>, written: usize) -> (joined: bool)
        ensures
            final(self)@ == enrolled(old(self)@, conn, lines_of(lines@), written as int),
            joined == joins(old(self)@, conn, lines_of(lines@), written as int),
    {
        proof {
            use_type_invariant(&*self);
        }
        let ghost before = self@;
        let ghost all = lines_of(lines@);
        let ghost reached = if written >= all.len() {
            all
        } else {
            all.take(written as int)
        };
        self.ledger = Ghost(before.record(conn, reached).delivered);
        if written >= lines.len() && !self.contains(conn) {
            let mut conns = self.connections();
            conns.push(conn);
            self.conns = conns;
            true
        } else {
            false
        }
    }

    /// Plans the broadcast of `msg`: its line, for every connection that is
    /// registered now. A message that cannot be serialized is dropped.
    pub fn dispatch(&self, msg: &HotReloadMsg) -> (r: Option<Dispatch>)
        ensures
            r is Some <==> sendable(msg@),
            r matches Some(d) ==> d.line@ == line(msg@) && d.targets@ == self@.conns,
    {
        match encode(msg) {
            Some(line) => Some(Dispatch { line, targets: self.connections() }),
            None => None,
        }
    }

    /// Welcomes a newcomer: replays the snapshot to it, line by line through
    /// `write`, until a write fails or the replay is through, and registers
    /// it if the replay went through.
    pub fn accept<W: Fn(&Vec<u8>) -> bool>(
        &mut self,
        conn: u64,
        snapshot: &Vec<Template>,
        write: W,
    ) -> (joined: bool)
        requires
            forall|l: &Vec<u8>| call_requires(write, (l,)),
        ensures
            exists|written: int|
                {
                    &&& 0 <= written <= replay(payloads(snapshot@)).len()
                    &&& final(self)@ == #[trigger] enrolled(
                        old(self)@,
                        conn,
                        replay(payloads(snapshot@)),
                        written,
                    )
                    &&& joined == joins(old(self)@, conn, replay(payloads(snapshot@)), written)
                    &&& forall|k: int|
                        0 <= k < written ==> #[trigger] wrote(
                            write,
                            replay(payloads(snapshot@))[k],
                            true,
                        )
                    &&& written < replay(payloads(snapshot@)).len() ==> wrote(
                        write,
                        replay(payloads(snapshot@))[written],
                        false,
                    )
                },
    {
        let lines = replay_lines(snapshot);
        let mut written: usize = 0;
        let mut going: bool = true;
        while going && written < lines.len()
            invariant
                written <= lines@.len(),
                lines_of(lines@) == replay(payloads(snapshot@)),
                forall|l: &Vec<u8>| call_requires(write, (l,)),
                forall|k: int|
                    0 <= k < written ==> #[trigger] wrote(write, lines_of(lines@)[k], true),
                !going ==> written < lines@.len() && wrote(
                    write,
                    lines_of(lines@)[written as int],
                    false,
                ),
            decreases lines@.len() - written + if going { 1int } else { 0int },
        {
            let l: &Vec<u8> = &lines[written];
            if write(l) {
                written = written + 1;
            } else {
                going = false;
            }
        }
        self.enroll(conn, &lines, written)
    }

    /// Broadcasts `msg`: writes its line to every registered connection
    /// through `write`, and drops each connection that could not be written
    /// to. A message that cannot be serialized is dropped instead. The
    /// outcomes of the writes are handed back, in the order of the
    /// connections.
    pub fn broadcast<W: Fn(u64, &Vec<u8>) -> bool>(
        &mut self,
        msg: &HotReloadMsg,
        write: W,
    ) -> (outcomes: Vec<bool>)
        requires
            forall|conn: u64, l: &Vec<u8>| call_requires(write, (conn, l)),
        ensures
            !sendable(msg@) ==> final(self)@ == old(self)@ && outcomes@.len() == 0,
            sendable(msg@) ==> outcomes@.len() == old(self)@.conns.len() && final(self)@ == settled(
                old(self)@,
                line(msg@),
                old(self)@.conns,
                outcomes@,
            ),
            forall|k: int|
                0 <= k < outcomes@.len() ==> #[trigger] wrote_to(
                    write,
                    old(self)@.conns[k],
                    line(msg@),
                    outcomes@[k],
                ),
    {
        match self.dispatch(msg) {
            None => Vec::new(),
            Some(dispatch) => {
                let mut outcomes: Vec<bool> = Vec::new();
                let mut k: usize = 0;
                while k < dispatch.targets.len()
                    invariant
                        k <= dispatch.targets@.len(),
                        outcomes@.len() == k,
                        forall|conn: u64, l: &Vec<u8>| call_requires(write, (conn, l)),
                        forall|j: int|
                            0 <= j < k ==> #[trigger] wrote_to(
                                write,
                                dispatch.targets@[j],
                                dispatch.line@,
                                outcomes@[j],
                            ),
                    decreases dispatch.targets@.len() - k,
                {
                    let ok = write(dispatch.targets[k], &dispatch.line);
                    outcomes.push(ok);
                    k = k + 1;
                }
                self.settle(&dispatch, &outcomes);
                outcomes
            },
        }
    }

    /// Accounts for a broadcast once its writes have been attempted:
    /// `outcomes[k]` says whether the write to `targets[k]` went through.
    /// Every connection that could not be written to is dropped.
    pub fn settle(&mut self, dispatch: &Dispatch, outcomes: &Vec<bool>)
        ensures
            final(self)@ == settled(
                old(self)@,
                dispatch.line@,
                dispatch.targets@,
                outcomes@,
            ),
    {
        let mut i: usize = 0;
        while i < dispatch.targets.len()
            invariant
                i <= dispatch.targets@.len(),
                self@ == settled(
                    old(self)@,
                    dispatch.line@,
                    dispatch.targets@.take(i as int),
                    outcomes@,
                ),
            decreases dispatch.targets@.len() - i,
        {
            proof {
                use_type_invariant(&*self);
                assert(dispatch.targets@.take(i + 1).drop_last() =~= dispatch.targets@.take(
                    i as int,
                ));
            }
            let target: u64 = dispatch.targets[i];
            let ghost before = self@;
            if i < outcomes.len() && outcomes[i] {
                self.ledger = Ghost(before.record(target, seq![dispatch.line@]).delivered);
            } else {
                proof {
                    lemma_without_distinct(self.conns@, target);
                }
                self.conns = drop_conn(&self.conns, target);
            }
            i = i + 1;
        }
        assert(dispatch.targets@.take(dispatch.targets@.len() as int) =~= dispatch.targets@);
    }
}

} // verus!
