//! The client facade and the decisions of its connection supervisor.
//!
//! A `Client` never performs I/O. Each operation decides what happens next
//! and says so in its result: the caller's side learns what to write, the
//! supervisor's side learns whether to go on reading. Whoever drives the
//! socket reports back what came of it.

use crate::channel::{push_error, push_event, MessageChannel};
use crate::connection::{
    check_message, ends_session, read_items, ConnState, ReadOutcome, ReadOutcomeView,
};
use crate::event::{close_event, encode_all, open_event, ItemView};
use crate::handshake::{
    connect_with_headers, endpoint_host, header_pairs, key_ok, parsed_host, request_error,
    ConnectError, UpgradeRequest,
};
use vstd::prelude::*;

verus! {

/// How long a supervisor waits between two reads, in milliseconds: short
/// enough to stay responsive, long enough not to spin.
pub const READ_INTERVAL_MS: u64 = 10;

/// How long one attempt to read may wait for a frame, in milliseconds. The
/// socket handle is held for no longer at a time.
pub const READ_TIMEOUT_MS: u64 = 10;

/// The mathematical value of a [`Client`].
pub struct ClientView {
    /// The items that wait to be polled, oldest first.
    pub channel: Seq<Seq<char>>,
    /// Where the current connection stands.
    pub state: ConnState,
    /// Which connection is the current one.
    pub epoch: u64,
}

/// Everything that can happen to a client.
pub enum ClientEvent {
    /// The caller asks for a connection, with arguments that are in order.
    Connect,
    /// The supervisor of connection `epoch` reports how the handshake ended.
    HandshakeDone { epoch: u64, result: Result<(), Seq<char>> },
    /// The supervisor of connection `epoch` reports what a read brought.
    ReadDone { epoch: u64, incoming: ReadOutcomeView },
    /// The caller sends a text.
    Send { text: Seq<char> },
    /// The caller closes the connection.
    Close,
    /// The caller's side reports how a write to the socket ended.
    WriteDone { result: Result<(), Seq<char>> },
    /// The caller polls.
    Poll,
}

/// What the supervisor does after a report.
#[derive(Clone, Copy, Debug, PartialEq, Eq, Structural)]
pub enum Directive {
    /// Wait the fixed interval, read again, and report.
    Continue,
    /// Drop the socket handle and end.
    Stop,
}

/// What the handshake of a new connection is made with.
#[derive(Debug)]
pub enum Target {
    /// The bare address: the transport writes the upgrade request itself.
    Url(String),
    /// An upgrade request that carries the caller's headers.
    Request(UpgradeRequest),
}

/// The order to start a supervisor.
#[derive(Debug)]
pub struct ConnectCommand {
    /// The connection's identity; the supervisor gives it in every report.
    pub epoch: u64,
    /// What to open the session with.
    pub target: Target,
}

/// The identity of the connection that follows connection `epoch`.
pub open spec fn next_epoch(epoch: u64) -> u64 {
    if epoch == u64::MAX {
        0
    } else {
        (epoch + 1) as u64
    }
}

/// A client that was just made.
pub open spec fn initial() -> ClientView {
    ClientView { channel: Seq::empty(), state: ConnState::Disconnected, epoch: 0 }
}

/// Whether a report is taken into account: it comes from the current
/// connection, and at a point of its lifecycle where such a report is due.
pub open spec fn accepted(c: ClientView, event: ClientEvent) -> bool {
    match event {
        ClientEvent::HandshakeDone { epoch, result } => epoch == c.epoch && c.state is Connecting,
        ClientEvent::ReadDone { epoch, incoming } => epoch == c.epoch && c.state.has_handle(),
        ClientEvent::WriteDone { result } => c.state.has_handle(),
        _ => true,
    }
}

/// The items that an event puts on the channel.
pub open spec fn emitted(c: ClientView, event: ClientEvent) -> Seq<ItemView> {
    if !accepted(c, event) {
        seq![]
    } else {
        match event {
            ClientEvent::Connect => if c.state.is_live() {
                seq![ItemView::Close]
            } else {
                seq![]
            },
            ClientEvent::HandshakeDone { epoch, result } => match result {
                Ok(_) => seq![ItemView::Open],
                Err(cause) => seq![ItemView::Error(cause), ItemView::Close],
            },
            ClientEvent::ReadDone { epoch, incoming } => if ends_session(incoming) {
                read_items(incoming).push(ItemView::Close)
            } else {
                read_items(incoming)
            },
            ClientEvent::WriteDone { result } => match result {
                Ok(_) => seq![],
                Err(cause) => seq![ItemView::Error(cause)],
            },
            ClientEvent::Send { text } => seq![],
            ClientEvent::Close => seq![],
            ClientEvent::Poll => seq![],
        }
    }
}

/// The state of the current connection after an event.
pub open spec fn next_state(c: ClientView, event: ClientEvent) -> ConnState {
    if !accepted(c, event) {
        c.state
    } else {
        match event {
            ClientEvent::Connect => ConnState::Connecting,
            ClientEvent::HandshakeDone { epoch, result } => match result {
                Ok(_) => ConnState::Open,
                Err(_) => ConnState::Closed,
            },
            ClientEvent::ReadDone { epoch, incoming } => if ends_session(incoming) {
                ConnState::Closed
            } else {
                c.state
            },
            ClientEvent::Close => if c.state is Open {
                ConnState::Closing
            } else {
                c.state
            },
            _ => c.state,
        }
    }
}

/// The client after an event.
pub open spec fn step(c: ClientView, event: ClientEvent) -> ClientView {
    ClientView {
        channel: if event is Poll {
            if c.channel.len() > 0 {
                c.channel.drop_first()
            } else {
                c.channel
            }
        } else {
            c.channel + encode_all(emitted(c, event))
        },
        state: next_state(c, event),
        epoch: if event is Connect {
            next_epoch(c.epoch)
        } else {
            c.epoch
        },
    }
}

/// What the supervisor is told after a report: to go on while the report
/// was taken into account and the session lasts.
pub open spec fn directive(c: ClientView, event: ClientEvent) -> Directive {
    if accepted(c, event) && next_state(c, event).has_handle() {
        Directive::Continue
    } else {
        Directive::Stop
    }
}

/// The text frame that an event asks the caller's side to write.
pub open spec fn frame(c: ClientView, event: ClientEvent) -> Option<Seq<char>> {
    match event {
        ClientEvent::Send { text } => if c.state is Open {
            Some(text)
        } else {
            None
        },
        _ => None,
    }
}

/// The caller's headers as pairs, none being no headers.
pub open spec fn given_headers(headers: Option<Vec<[String; 2]>>) -> Seq<(Seq<char>, Seq<char>)> {
    match headers {
        Some(headers) => header_pairs(headers@),
        None => Seq::empty(),
    }
}

/// Whether `target` is what a connection to `url` with `headers` is opened
/// with.
pub open spec fn target_fits(target: Target, url: Seq<char>, headers: Option<Vec<[String; 2]>>) -> bool {
    match target {
        Target::Url(address) => headers is None && address@ == url,
        Target::Request(request) => {
            &&& headers is Some
            &&& request.uri@ == url
            &&& parsed_host(url) == Ok::<Option<Seq<char>>, Seq<char>>(Some(request.host@))
            &&& key_ok(request.key@)
            &&& request.extra == headers->0
        },
    }
}

/// The caller-facing object: the message channel and the state of at most
/// one connection.
pub struct Client {
    channel: MessageChannel,
    state: ConnState,
    epoch: u64,
}

impl View for Client {
    type V = ClientView;

    closed spec fn view(&self) -> ClientView {
        ClientView { channel: self.channel@, state: self.state, epoch: self.epoch }
    }
}

impl Client {
    /// A client with no connection and nothing to poll.
    pub fn new() -> (client: Client)
        ensures
            client@ == initial(),
    {
        Client { channel: MessageChannel::new(), state: ConnState::Disconnected, epoch: 0 }
    }

    /// Where the current connection stands.
    pub fn state(&self) -> (state: ConnState)
        ensures
            state == self@.state,
    {
        self.state
    }

    /// The identity of the current connection.
    pub fn epoch(&self) -> (epoch: u64)
        ensures
            epoch == self@.epoch,
    {
        self.epoch
    }

    /// Asks for a connection to `url`. Arguments that are out of order are
    /// refused at once and change nothing. Otherwise a connection that was
    /// under way is replaced, its stream being ended by the one `close`
    /// item it still owed, and the result is the order to start the new
    /// connection's supervisor.
    pub fn connect(&mut self, url: String, headers: Option<Vec<[String; 2]>>) -> (command: Result<
        ConnectCommand,
        ConnectError,
    >)
        ensures
            match command {
                Ok(command) => {
                    &&& request_error(url@, given_headers(headers)) is None
                    &&& final(self)@ == step(old(self)@, ClientEvent::Connect)
                    &&& command.epoch == final(self)@.epoch
                    &&& target_fits(command.target, url@, headers)
                },
                Err(e) => {
                    &&& request_error(url@, given_headers(headers)) == Some(e@)
                    &&& final(self)@ == old(self)@
                },
            },
    {
        let target = match headers {
            Some(headers) => match connect_with_headers(url, headers) {
                Ok(request) => Target::Request(request),
                Err(e) => {
                    return Err(e);
                },
            },
            None => match endpoint_host(url.as_str()) {
                Ok(_) => Target::Url(url),
                Err(e) => {
                    return Err(e);
                },
            },
        };
        if self.state.is_live() {
            push_event(&mut self.channel, "close");
            proof {
                reveal_strlit("close");
                assert("close"@ =~= close_event());
            }
        }
        self.state = ConnState::Connecting;
        self.epoch = if self.epoch == u64::MAX {
            0
        } else {
            self.epoch + 1
        };
        assert(self@.channel =~= step(old(self)@, ClientEvent::Connect).channel);
        Ok(ConnectCommand { epoch: self.epoch, target })
    }

    /// The supervisor of connection `epoch` reports how the handshake
    /// ended: with success, or with the cause of its failure. A success
    /// opens the session; a failure is reported on the channel and ends the
    /// connection. A report that is not due changes nothing.
    pub fn handshake_done(&mut self, epoch: u64, result: Result<(), String>) -> (next: Directive)
        ensures
            final(self)@ == step(
                old(self)@,
                ClientEvent::HandshakeDone { epoch, result: result_view(result) },
            ),
            next == directive(
                old(self)@,
                ClientEvent::HandshakeDone { epoch, result: result_view(result) },
            ),
    {
        let ghost event = ClientEvent::HandshakeDone { epoch, result: result_view(result) };
        if epoch != self.epoch || !self.state.is_connecting() {
            assert(self@.channel =~= step(old(self)@, event).channel);
            return Directive::Stop;
        }
        match result {
            Ok(_) => {
                push_event(&mut self.channel, "open");
                proof {
                    reveal_strlit("open");
                    assert("open"@ =~= open_event());
                }
                self.state = ConnState::Open;
                assert(self@.channel =~= step(old(self)@, event).channel);
                Directive::Continue
            },
            Err(cause) => {
                push_error(&mut self.channel, cause.as_str());
                push_event(&mut self.channel, "close");
                proof {
                    reveal_strlit("close");
                    assert("close"@ =~= close_event());
                }
                self.state = ConnState::Closed;
                assert(self@.channel =~= step(old(self)@, event).channel);
                Directive::Stop
            },
        }
    }

    /// The supervisor of connection `epoch` reports what a read brought.
    /// What the read surfaced goes on the channel; an outcome that ends the
    /// session is followed by the one `close` item and the order to stop. A
    /// report that is not due changes nothing.
    pub fn read_done(&mut self, epoch: u64, incoming: ReadOutcome) -> (next: Directive)
        ensures
            final(self)@ == step(old(self)@, ClientEvent::ReadDone { epoch, incoming: incoming@ }),
            next == directive(old(self)@, ClientEvent::ReadDone { epoch, incoming: incoming@ }),
    {
        let ghost event = ClientEvent::ReadDone { epoch, incoming: incoming@ };
        if epoch != self.epoch || !self.state.has_handle() {
            assert(self@.channel =~= step(old(self)@, event).channel);
            return Directive::Stop;
        }
        let close = check_message(&mut self.channel, incoming);
        if close {
            push_event(&mut self.channel, "close");
            proof {
                reveal_strlit("close");
                assert("close"@ =~= close_event());
            }
            self.state = ConnState::Closed;
            assert(self@.channel =~= step(old(self)@, event).channel);
            Directive::Stop
        } else {
            Directive::Continue
        }
    }

    /// Sends `text`: while the session is open the result is the text frame
    /// to write, verbatim; in every other state there is nothing to do. The
    /// client itself is unchanged.
    pub fn send(&mut self, text: String) -> (write: Option<String>)
        ensures
            final(self)@ == old(self)@,
            final(self)@ == step(old(self)@, ClientEvent::Send { text: text@ }),
            match write {
                Some(written) => frame(old(self)@, ClientEvent::Send { text: text@ }) == Some(written@),
                None => frame(old(self)@, ClientEvent::Send { text: text@ }) is None,
            },
    {
        assert(self@.channel + encode_all(Seq::<ItemView>::empty()) =~= self@.channel);
        if self.state.is_open() {
            Some(text)
        } else {
            None
        }
    }

    /// Closes the connection: on an open session the result is `true`, the
    /// order to begin the closing handshake, and the state becomes
    /// `Closing`. In every other state the call does nothing.
    pub fn close(&mut self) -> (initiate: bool)
        ensures
            final(self)@ == step(old(self)@, ClientEvent::Close),
            initiate == (old(self)@.state is Open),
    {
        assert(self@.channel + encode_all(Seq::<ItemView>::empty()) =~= self@.channel);
        if self.state.is_open() {
            self.state = ConnState::Closing;
            true
        } else {
            false
        }
    }

    /// The caller's side reports how a write to the socket ended. A failure
    /// is reported on the channel while the handle is installed, and
    /// changes nothing else.
    pub fn write_done(&mut self, result: Result<(), String>)
        ensures
            final(self)@ == step(old(self)@, ClientEvent::WriteDone { result: result_view(result) }),
    {
        let ghost event = ClientEvent::WriteDone { result: result_view(result) };
        if self.state.has_handle() {
            match result {
                Ok(_) => {},
                Err(cause) => {
                    push_error(&mut self.channel, cause.as_str());
                },
            }
        }
        assert(self@.channel =~= step(old(self)@, event).channel);
    }

    /// Takes the oldest item from the channel, or finds it empty. Never
    /// waits.
    pub fn poll(&mut self) -> (item: Option<String>)
        ensures
            final(self)@ == step(old(self)@, ClientEvent::Poll),
            match item {
                Some(text) => old(self)@.channel.len() > 0 && text@ == old(self)@.channel[0],
                None => old(self)@.channel.len() == 0 && final(self)@ == old(self)@,
            },
    {
        self.channel.poll()
    }
}

/// The mathematical value of a report's result.
pub open spec fn result_view(result: Result<(), String>) -> Result<(), Seq<char>> {
    match result {
        Ok(_) => Ok(()),
        Err(cause) => Err(cause@),
    }
}

} // verus!
