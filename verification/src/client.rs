//! The client side: what a connected client does with what it reads.

use crate::wire::{decode, decoded, HotReloadMsg, MsgView};
use vstd::prelude::*;

verus! {

/// What one attempt to read a line gave.
#[derive(Debug, PartialEq, Eq)]
pub enum ReadOutcome {
    /// These bytes, up to and with the line feed if there was one.
    Line(Vec<u8>),
    /// Nothing yet: reading would block.
    WouldBlock,
    /// Any other error.
    Failed,
}

/// The mathematical content of a `ReadOutcome`.
pub enum ReadView {
    Line(Seq<u8>),
    WouldBlock,
    Failed,
}

impl View for ReadOutcome {
    type V = ReadView;

    open spec fn view(&self) -> ReadView {
        match self {
            ReadOutcome::Line(l) => ReadView::Line(l@),
            ReadOutcome::WouldBlock => ReadView::WouldBlock,
            ReadOutcome::Failed => ReadView::Failed,
        }
    }
}

/// What the client does next.
#[derive(Debug, PartialEq, Eq)]
pub enum ClientAction {
    /// Hand this message to the callback, then read on.
    Deliver(HotReloadMsg),
    /// Read again.
    Retry,
    /// Leave the read loop.
    Stop,
}

/// What a client that is still reading does with what it read: a line
/// that carries a message is delivered; reading that would block is
/// tried again; any other error, and a line that carries no message, end
/// the loop.
pub open spec fn reaction(outcome: ReadView) -> Option<Option<MsgView>> {
    match outcome {
        ReadView::Line(l) => match decoded(l) {
            Some(m) => Some(Some(m)),
            None => None,
        },
        ReadView::WouldBlock => Some(None),
        ReadView::Failed => None,
    }
}

/// The read loop of one client.
pub struct Client {
    reading: bool,
}

impl View for Client {
    type V = bool;

    /// Whether the client is still reading.
    closed spec fn view(&self) -> bool {
        self.reading
    }
}

/// Starts the read loop of a client that has just connected.
pub fn connect() -> (c: Client)
    ensures
        c@,
{
    Client { reading: true }
}

impl Client {
    pub fn is_reading(&self) -> (r: bool)
        ensures
            r == self@,
    {
        self.reading
    }

    /// Takes the outcome of a read and answers what is to be done. A
    /// client that has left its loop stays out of it.
    pub fn on_read(&mut self, outcome: ReadOutcome) -> (action: ClientAction)
        ensures
            match action {
                ClientAction::Deliver(m) => old(self)@ && reaction(outcome@) == Some(Some(m@)),
                ClientAction::Retry => old(self)@ && reaction(outcome@) == Some(None::<MsgView>),
                ClientAction::Stop => !old(self)@ || reaction(outcome@) is None,
            },
            final(self)@ == !(action is Stop),
    {
        if !self.reading {
            return ClientAction::Stop;
        }
        match outcome {
            ReadOutcome::Line(l) => match decode(l.as_slice()) {
                Ok(m) => ClientAction::Deliver(m),
                Err(_) => {
                    self.reading = false;
                    ClientAction::Stop
                },
            },
            ReadOutcome::WouldBlock => ClientAction::Retry,
            ReadOutcome::Failed => {
                self.reading = false;
                ClientAction::Stop
            },
        }
    }
}

} // verus!
