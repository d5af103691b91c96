//! One connection's lifecycle and the classification of what a read from
//! its socket brought.

use crate::channel::{push_error, MessageChannel};
use crate::event::{encode_all, ItemView};
use vstd::prelude::*;

verus! {

/// Where a connection stands in its lifecycle.
#[derive(Clone, Copy, Debug, PartialEq, Eq, Structural)]
pub enum ConnState {
    /// No connection was ever asked for.
    Disconnected,
    /// The handshake is under way; there is no socket handle yet.
    Connecting,
    /// The session is established and the socket handle is installed.
    Open,
    /// The caller began the closing handshake; the peer has yet to answer.
    Closing,
    /// The session is over and the socket handle is gone.
    Closed,
}

impl ConnState {
    /// Whether a socket handle is installed in this state.
    pub open spec fn spec_has_handle(self) -> bool {
        self is Open || self is Closing
    }

    /// Whether a connection is under way: one that has not yet emitted its
    /// terminal event.
    pub open spec fn spec_is_live(self) -> bool {
        self is Connecting || self is Open || self is Closing
    }

    /// Whether the handshake is under way.
    pub fn is_connecting(self) -> (yes: bool)
        ensures
            yes == (self is Connecting),
    {
        matches!(self, ConnState::Connecting)
    }

    /// Whether the session is established and not being closed.
    pub fn is_open(self) -> (yes: bool)
        ensures
            yes == (self is Open),
    {
        matches!(self, ConnState::Open)
    }

    /// Whether a socket handle is installed in this state.
    #[verifier::when_used_as_spec(spec_has_handle)]
    pub fn has_handle(self) -> (yes: bool)
        ensures
            yes == self.spec_has_handle(),
    {
        matches!(self, ConnState::Open | ConnState::Closing)
    }

    /// Whether a connection is under way: one that has not yet emitted its
    /// terminal event.
    #[verifier::when_used_as_spec(spec_is_live)]
    pub fn is_live(self) -> (yes: bool)
        ensures
            yes == self.spec_is_live(),
    {
        matches!(self, ConnState::Connecting | ConnState::Open | ConnState::Closing)
    }
}

/// What one attempt to read the next frame brought.
#[derive(Debug)]
pub enum ReadOutcome {
    /// A text frame and what it carried.
    Text(String),
    /// A frame of any other kind.
    NonText,
    /// The attempt ended without a frame: none had arrived in time.
    Idle,
    /// The handle had been closed on this side while the read was pending.
    AlreadyClosed,
    /// The peer closed the session cleanly.
    ConnectionClosed,
    /// Any other failure of the transport, with its description.
    Failed(String),
}

/// The mathematical value of a [`ReadOutcome`].
pub enum ReadOutcomeView {
    Text(Seq<char>),
    NonText,
    Idle,
    AlreadyClosed,
    ConnectionClosed,
    Failed(Seq<char>),
}

impl View for ReadOutcome {
    type V = ReadOutcomeView;

    open spec fn view(&self) -> ReadOutcomeView {
        match self {
            ReadOutcome::Text(text) => ReadOutcomeView::Text(text@),
            ReadOutcome::NonText => ReadOutcomeView::NonText,
            ReadOutcome::Idle => ReadOutcomeView::Idle,
            ReadOutcome::AlreadyClosed => ReadOutcomeView::AlreadyClosed,
            ReadOutcome::ConnectionClosed => ReadOutcomeView::ConnectionClosed,
            ReadOutcome::Failed(cause) => ReadOutcomeView::Failed(cause@),
        }
    }
}

/// The cause reported when a read finds the handle already closed.
pub open spec fn already_closed_cause() -> Seq<char> {
    "Connection already closed"@
}

/// The items that a read outcome puts on the channel: a text frame is
/// surfaced verbatim, other frames are dropped, an attempt without a frame
/// leaves no trace, a clean close by the peer is silent, and every other
/// failure is reported.
pub open spec fn read_items(incoming: ReadOutcomeView) -> Seq<ItemView> {
    match incoming {
        ReadOutcomeView::Text(text) => seq![ItemView::Payload(text)],
        ReadOutcomeView::NonText => seq![],
        ReadOutcomeView::Idle => seq![],
        ReadOutcomeView::AlreadyClosed => seq![ItemView::Error(already_closed_cause())],
        ReadOutcomeView::ConnectionClosed => seq![],
        ReadOutcomeView::Failed(cause) => seq![ItemView::Error(cause)],
    }
}

/// Whether a read outcome ends the session. Only the two forms of "closed"
/// do; any other failure leaves the session in use.
pub open spec fn ends_session(incoming: ReadOutcomeView) -> bool {
    incoming is AlreadyClosed || incoming is ConnectionClosed
}

/// Puts on the channel what a read brought and says whether the read loop
/// must end.
pub fn check_message(tx: &mut MessageChannel, incoming: ReadOutcome) -> (close: bool)
    ensures
        close == ends_session(incoming@),
        final(tx)@ == old(tx)@ + encode_all(read_items(incoming@)),
{
    match incoming {
        ReadOutcome::Text(text) => {
            tx.push(text);
            assert(tx@ =~= old(tx)@ + encode_all(read_items(incoming@)));
            false
        },
        ReadOutcome::NonText => {
            assert(tx@ =~= old(tx)@ + encode_all(read_items(incoming@)));
            false
        },
        ReadOutcome::Idle => {
            assert(tx@ =~= old(tx)@ + encode_all(read_items(incoming@)));
            false
        },
        ReadOutcome::AlreadyClosed => {
            push_error(tx, "Connection already closed");
            assert(tx@ =~= old(tx)@ + encode_all(read_items(incoming@)));
            true
        },
        ReadOutcome::ConnectionClosed => {
            assert(tx@ =~= old(tx)@ + encode_all(read_items(incoming@)));
            true
        },
        ReadOutcome::Failed(cause) => {
            push_error(tx, cause.as_str());
            assert(tx@ =~= old(tx)@ + encode_all(read_items(incoming@)));
            false
        },
    }
}

} // verus!
