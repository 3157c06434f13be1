//! The wire protocol: one message per line.
//!
//! A template update travels as `{"UpdateTemplate":<payload>}` and a shutdown
//! notice as `"Shutdown"`, each closed by a line feed. The payload is the
//! serialized template; it is forwarded untouched and must itself be free
//! of line feeds.

use crate::bytes::{append, copy_range, holds_byte, occurs_at, same_bytes};
use vstd::prelude::*;

verus! {

/// The byte that ends every message on the wire.
pub const LINE_FEED: u8 = 10;

/// A template as the coordinator sees it: an opaque serialized payload.
#[derive(Debug, PartialEq, Eq)]
pub struct Template {
    payload: Vec<u8>,
}

impl View for Template {
    type V = Seq<u8>;

    closed spec fn view(&self) -> Seq<u8> {
        self.payload@
    }
}

impl Template {
    pub fn new(payload: Vec<u8>) -> (t: Template)
        ensures
            t@ == payload@,
    {
        Template { payload }
    }

    pub fn payload(&self) -> (p: &Vec<u8>)
        ensures
            p@ == self@,
    {
        &self.payload
    }

}

impl Clone for Template {
    fn clone(&self) -> (t: Template)
        ensures
            t@ == self@,
    {
        let payload = copy_range(self.payload.as_slice(), 0, self.payload.len());
        Template { payload }
    }
}

/// A message the coordinator sends to a client.
#[derive(Debug, PartialEq, Eq)]
pub enum HotReloadMsg {
    /// A template has been updated.
    UpdateTemplate(Template),
    /// The program is being rebuilt, and the client should shut down.
    Shutdown,
}

/// The mathematical content of a message.
pub enum MsgView {
    UpdateTemplate(Seq<u8>),
    Shutdown,
}

impl View for HotReloadMsg {
    type V = MsgView;

    open spec fn view(&self) -> MsgView {
        match self {
            HotReloadMsg::UpdateTemplate(t) => MsgView::UpdateTemplate(t@),
            HotReloadMsg::Shutdown => MsgView::Shutdown,
        }
    }
}

impl Clone for HotReloadMsg {
    fn clone(&self) -> (m: HotReloadMsg)
        ensures
            m@ == self@,
    {
        match self {
            HotReloadMsg::UpdateTemplate(t) => HotReloadMsg::UpdateTemplate(t.clone()),
            HotReloadMsg::Shutdown => HotReloadMsg::Shutdown,
        }
    }
}

/// The bytes `{"UpdateTemplate":` that open a template update.
pub open spec fn update_opening() -> Seq<u8> {
    seq![
        '{' as u8,
        '"' as u8,
        'U' as u8,
        'p' as u8,
        'd' as u8,
        'a' as u8,
        't' as u8,
        'e' as u8,
        'T' as u8,
        'e' as u8,
        'm' as u8,
        'p' as u8,
        'l' as u8,
        'a' as u8,
        't' as u8,
        'e' as u8,
        '"' as u8,
        ':' as u8,
    ]
}

/// The byte `}` that closes a template update.
pub open spec fn update_closing() -> Seq<u8> {
    seq!['}' as u8]
}

/// The bytes `"Shutdown"` of a shutdown notice.
pub open spec fn shutdown_text() -> Seq<u8> {
    seq![
        '"' as u8,
        'S' as u8,
        'h' as u8,
        'u' as u8,
        't' as u8,
        'd' as u8,
        'o' as u8,
        'w' as u8,
        'n' as u8,
        '"' as u8,
    ]
}

/// The text of a message, without the line feed.
pub open spec fn text(m: MsgView) -> Seq<u8> {
    match m {
        MsgView::UpdateTemplate(payload) => update_opening() + payload + update_closing(),
        MsgView::Shutdown => shutdown_text(),
    }
}

/// The line that carries a message: its text and a line feed.
pub open spec fn line(m: MsgView) -> Seq<u8> {
    text(m) + seq![LINE_FEED]
}

/// A message can be sent when its line is a single line: the payload of a
/// template update holds no line feed.
pub open spec fn sendable(m: MsgView) -> bool {
    match m {
        MsgView::UpdateTemplate(payload) => !payload.contains(LINE_FEED),
        MsgView::Shutdown => true,
    }
}

/// A received line without its final line feed, if it has one.
pub open spec fn chomp(l: Seq<u8>) -> Seq<u8> {
    if l.len() > 0 && l.last() == LINE_FEED {
        l.drop_last()
    } else {
        l
    }
}

/// Whether `body` has the shape of a template update around a one-line payload.
pub open spec fn is_update(body: Seq<u8>) -> bool {
    &&& body.len() > update_opening().len()
    &&& body.subrange(0, update_opening().len() as int) == update_opening()
    &&& body.last() == '}' as u8
    &&& !update_payload(body).contains(LINE_FEED)
}

/// The payload inside a template update.
pub open spec fn update_payload(body: Seq<u8>) -> Seq<u8> {
    body.subrange(update_opening().len() as int, body.len() - 1)
}

/// The message that a received line carries, if it carries one.
pub open spec fn decoded(l: Seq<u8>) -> Option<MsgView> {
    let body = chomp(l);
    if body == shutdown_text() {
        Some(MsgView::Shutdown)
    } else if is_update(body) {
        Some(MsgView::UpdateTemplate(update_payload(body)))
    } else {
        None
    }
}

/// Why a received line carries no message.
#[derive(Debug, Clone, Copy, PartialEq, Eq, Structural)]
pub enum DecodeError {
    /// Nothing was read: the stream has ended.
    Empty,
    /// The line is neither a template update nor a shutdown notice.
    Malformed,
}

fn opening() -> (v: Vec<u8>)
    ensures
        v@ == update_opening(),
{
    let v = vec![
        '{' as u8,
        '"' as u8,
        'U' as u8,
        'p' as u8,
        'd' as u8,
        'a' as u8,
        't' as u8,
        'e' as u8,
        'T' as u8,
        'e' as u8,
        'm' as u8,
        'p' as u8,
        'l' as u8,
        'a' as u8,
        't' as u8,
        'e' as u8,
        '"' as u8,
        ':' as u8,
    ];
    v
}

fn shutdown_bytes() -> (v: Vec<u8>)
    ensures
        v@ == shutdown_text(),
{
    let v = vec![
        '"' as u8,
        'S' as u8,
        'h' as u8,
        'u' as u8,
        't' as u8,
        'd' as u8,
        'o' as u8,
        'w' as u8,
        'n' as u8,
        '"' as u8,
    ];
    v
}

/// Serializes a message into its line, or gives `None` for a message that
/// cannot travel on one line; such a message is dropped by the sender.
pub fn encode(msg: &HotReloadMsg) -> (r: Option<Vec<u8>>)
    ensures
        r is Some <==> sendable(msg@),
        r matches Some(l) ==> l@ == line(msg@),
{
    match msg {
        HotReloadMsg::Shutdown => {
            let mut out = shutdown_bytes();
            out.push(LINE_FEED);
            Some(out)
        },
        HotReloadMsg::UpdateTemplate(t) => {
            if holds_byte(t.payload().as_slice(), LINE_FEED) {
                None
            } else {
                let mut out = opening();
                append(&mut out, t.payload().as_slice());
                out.push('}' as u8);
                out.push(LINE_FEED);
                Some(out)
            }
        },
    }
}

/// Reads the message off a received line. The final line feed is optional.
pub fn decode(received: &[u8]) -> (r: Result<HotReloadMsg, DecodeError>)
    ensures
        match r {
            Ok(m) => decoded(received@) == Some(m@),
            Err(DecodeError::Empty) => received@.len() == 0,
            Err(DecodeError::Malformed) => received@.len() > 0 && decoded(received@) is None,
        },
{
    let n: usize = received.len();
    if n == 0 {
        return Err(DecodeError::Empty);
    }
    let end: usize = if received[n - 1] == LINE_FEED {
        n - 1
    } else {
        n
    };
    let body = copy_range(received, 0, end);
    assert(body@ =~= chomp(received@));
    let quit = shutdown_bytes();
    if same_bytes(body.as_slice(), quit.as_slice()) {
        return Ok(HotReloadMsg::Shutdown);
    }
    let front = opening();
    if end > front.len() && occurs_at(body.as_slice(), 0, front.as_slice()) && body[end - 1]
        == '}' as u8 {
        let payload = copy_range(body.as_slice(), front.len(), end - 1);
        if !holds_byte(payload.as_slice(), LINE_FEED) {
            return Ok(HotReloadMsg::UpdateTemplate(Template::new(payload)));
        }
    }
    Err(DecodeError::Malformed)
}

/// Decoding undoes encoding: the line of a sendable message, with or
/// without its line feed, carries exactly that message.
pub proof fn law_decode_inverts_encode(m: MsgView)
    requires
        sendable(m),
    ensures
        decoded(line(m)) == Some(m),
        decoded(text(m)) == Some(m),
{
    let t = text(m);
    assert(line(m).drop_last() =~= t);
    if let MsgView::UpdateTemplate(payload) = m {
        assert(t.subrange(0, update_opening().len() as int) =~= update_opening());
        assert(update_payload(t) =~= payload);
    }
}

/// Only lines written by `encode` decode: a line that carries a message is
/// the text of that message, and the message is sendable.
pub proof fn law_decoded_lines_are_frames(l: Seq<u8>)
    requires
        decoded(l) is Some,
    ensures
        chomp(l) == text(decoded(l)->0),
        sendable(decoded(l)->0),
{
}

/// A line never holds a line feed before its end, so a reader that splits
/// its input at line feeds sees one message per line.
pub proof fn law_line_is_single(m: MsgView)
    requires
        sendable(m),
    ensures
        line(m).last() == LINE_FEED,
        !text(m).contains(LINE_FEED),
{
}

} // verus!
