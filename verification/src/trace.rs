//! What holds of every sequence of events that a client may meet.

use crate::client::{directive, emitted, frame, step, ClientEvent, ClientView};
use crate::connection::{ends_session, read_items, ConnState, ReadOutcomeView};
use crate::event::{encode_all, ItemView};
use vstd::prelude::*;

verus! {

/// The client after `events`, taken in their order.
pub open spec fn run(c: ClientView, events: Seq<ClientEvent>) -> ClientView
    decreases events.len(),
{
    if events.len() == 0 {
        c
    } else {
        step(run(c, events.drop_last()), events.last())
    }
}

/// Every item that `events` put on the channel, in the order of emission.
pub open spec fn trace(c: ClientView, events: Seq<ClientEvent>) -> Seq<ItemView>
    decreases events.len(),
{
    if events.len() == 0 {
        seq![]
    } else {
        trace(c, events.drop_last()) + emitted(run(c, events.drop_last()), events.last())
    }
}

/// The items of the current connection: those emitted since the last
/// request for a connection.
pub open spec fn stream(c: ClientView, events: Seq<ClientEvent>) -> Seq<ItemView>
    decreases events.len(),
{
    if events.len() == 0 || events.last() is Connect {
        seq![]
    } else {
        stream(c, events.drop_last()) + emitted(run(c, events.drop_last()), events.last())
    }
}

/// Every string that the polls among `events` took from the channel, in
/// the order of the polls.
pub open spec fn drained(c: ClientView, events: Seq<ClientEvent>) -> Seq<Seq<char>>
    decreases events.len(),
{
    if events.len() == 0 {
        seq![]
    } else {
        let before = run(c, events.drop_last());
        if events.last() is Poll && before.channel.len() > 0 {
            drained(c, events.drop_last()).push(before.channel[0])
        } else {
            drained(c, events.drop_last())
        }
    }
}

/// Every text frame that `events` asked to be written, in the order of the
/// sends.
pub open spec fn wire(c: ClientView, events: Seq<ClientEvent>) -> Seq<Seq<char>>
    decreases events.len(),
{
    if events.len() == 0 {
        seq![]
    } else {
        match frame(run(c, events.drop_last()), events.last()) {
            Some(text) => wire(c, events.drop_last()).push(text),
            None => wire(c, events.drop_last()),
        }
    }
}

/// Whether an item may stand between `open` and `close`.
pub open spec fn is_body_item(item: ItemView) -> bool {
    item is Payload || item is Error
}

/// A stream that began with `open` and has since carried payloads and
/// errors only.
pub open spec fn opened(items: Seq<ItemView>) -> bool {
    &&& items.len() >= 1
    &&& items[0] is Open
    &&& forall|i: int| 1 <= i < items.len() ==> is_body_item(#[trigger] items[i])
}

/// A stream that is over: its last item is the one `close`. Before it
/// stands nothing (the connection was replaced before its handshake
/// ended), or the one error of a failed handshake, or an opened stream.
pub open spec fn finished(items: Seq<ItemView>) -> bool {
    &&& items.len() >= 1
    &&& items.last() is Close
    &&& {
        let body = items.drop_last();
        ||| body.len() == 0
        ||| body.len() == 1 && body[0] is Error
        ||| opened(body)
    }
}

/// What the items of one connection look like while it is in `state`.
pub open spec fn lifecycle(items: Seq<ItemView>, state: ConnState) -> bool {
    match state {
        ConnState::Disconnected => items.len() == 0,
        ConnState::Connecting => items.len() == 0,
        ConnState::Open => opened(items),
        ConnState::Closing => opened(items),
        ConnState::Closed => finished(items),
    }
}

/// Whether none of `events` asks for a new connection.
pub open spec fn one_connection(events: Seq<ClientEvent>) -> bool {
    forall|i: int| 0 <= i < events.len() ==> !((#[trigger] events[i]) is Connect)
}

/// The events of sending each of `texts` in turn.
pub open spec fn sends(texts: Seq<Seq<char>>) -> Seq<ClientEvent> {
    texts.map_values(|text: Seq<char>| ClientEvent::Send { text })
}

/// The events of sending each of `texts` in turn to a peer that echoes:
/// each send is followed by the read, on connection `epoch`, of a text
/// frame with the same text.
pub open spec fn echoes(epoch: u64, texts: Seq<Seq<char>>) -> Seq<ClientEvent>
    decreases texts.len(),
{
    if texts.len() == 0 {
        seq![]
    } else {
        echoes(epoch, texts.drop_last()).push(ClientEvent::Send { text: texts.last() }).push(
            ClientEvent::ReadDone { epoch, incoming: ReadOutcomeView::Text(texts.last()) },
        )
    }
}

/// One event keeps the shape of the connection's stream, unless it asks for
/// a new connection.
pub proof fn lemma_step_keeps_lifecycle(c: ClientView, items: Seq<ItemView>, event: ClientEvent)
    requires
        lifecycle(items, c.state),
        !(event is Connect),
    ensures
        lifecycle(items + emitted(c, event), step(c, event).state),
{
    let more = emitted(c, event);
    let after = items + more;
    if more.len() == 0 {
        assert(after =~= items);
    } else {
        match event {
            ClientEvent::HandshakeDone { epoch, result } => {
                assert(after =~= more);
                if result is Err {
                    assert(after.drop_last() =~= seq![after[0]]);
                }
            },
            ClientEvent::ReadDone { epoch, incoming } => {
                if ends_session(incoming) {
                    let body = after.drop_last();
                    assert(body =~= items + read_items(incoming));
                    assert(opened(body));
                }
            },
            _ => {},
        }
    }
}

/// From the moment a connection is asked for and until the next is, its
/// items have the shape of its state: nothing before the handshake ends;
/// `open` first and then payloads and errors only while the session lasts;
/// and, once it is over, exactly one `close`, in the last place.
pub proof fn lemma_connection_stream(c: ClientView, events: Seq<ClientEvent>)
    requires
        c.state is Connecting,
        one_connection(events),
    ensures
        lifecycle(trace(c, events), run(c, events).state),
    decreases events.len(),
{
    if events.len() > 0 {
        let front = events.drop_last();
        assert forall|i: int| 0 <= i < front.len() implies !((#[trigger] front[i]) is Connect) by {
            assert(front[i] == events[i]);
        }
        lemma_connection_stream(c, front);
        assert(events.last() == events[events.len() - 1]);
        lemma_step_keeps_lifecycle(run(c, front), trace(c, front), events.last());
    }
}

/// Whatever happens to a client, and however many connections it goes
/// through, the items of its current connection have the shape of that
/// connection's state.
pub proof fn lemma_stream_has_shape(c: ClientView, events: Seq<ClientEvent>)
    requires
        c.state is Disconnected || c.state is Connecting,
    ensures
        lifecycle(stream(c, events), run(c, events).state),
    decreases events.len(),
{
    if events.len() > 0 && !(events.last() is Connect) {
        let front = events.drop_last();
        lemma_stream_has_shape(c, front);
        lemma_step_keeps_lifecycle(run(c, front), stream(c, front), events.last());
    }
}

/// A connection that is replaced while it is under way still ends its
/// stream with exactly one `close`: the request for the next connection
/// emits it.
pub proof fn lemma_replaced_stream_is_finished(c: ClientView, items: Seq<ItemView>)
    requires
        lifecycle(items, c.state),
        c.state.is_live(),
    ensures
        finished(items + emitted(c, ClientEvent::Connect)),
        step(c, ClientEvent::Connect).state is Connecting,
{
    let after = items + emitted(c, ClientEvent::Connect);
    assert(after.drop_last() =~= items);
}

/// After its `close` a connection is silent: no event but the request for
/// a new connection puts anything on the channel or changes the state.
pub proof fn lemma_closed_is_silent(c: ClientView, event: ClientEvent)
    requires
        c.state is Closed,
        !(event is Connect),
    ensures
        emitted(c, event).len() == 0,
        step(c, event).state is Closed,
{
}

/// A report from a connection that is not the current one changes nothing.
pub proof fn lemma_stale_report_is_ignored(c: ClientView, event: ClientEvent)
    requires
        match event {
            ClientEvent::HandshakeDone { epoch, result } => epoch != c.epoch,
            ClientEvent::ReadDone { epoch, incoming } => epoch != c.epoch,
            _ => false,
        },
    ensures
        step(c, event) == c,
        directive(c, event) is Stop,
{
    assert(c.channel + encode_all(Seq::<ItemView>::empty()) =~= c.channel);
}

/// Nothing is lost, repeated or reordered on the way to the caller: what
/// the polls took, followed by what still waits, is what was there at the
/// start followed by every item emitted since, in the order of emission.
pub proof fn lemma_channel_keeps_order(c: ClientView, events: Seq<ClientEvent>)
    ensures
        drained(c, events) + run(c, events).channel == c.channel + encode_all(trace(c, events)),
    decreases events.len(),
{
    if events.len() == 0 {
        assert(encode_all(trace(c, events)) =~= Seq::<Seq<char>>::empty());
        assert(drained(c, events) + run(c, events).channel =~= c.channel + encode_all(
            trace(c, events),
        ));
    } else {
        let front = events.drop_last();
        let before = run(c, front);
        let event = events.last();
        lemma_channel_keeps_order(c, front);
        let more = emitted(before, event);
        assert(encode_all(trace(c, front) + more) =~= encode_all(trace(c, front)) + encode_all(more));
        if event is Poll {
            assert(more.len() == 0);
            assert(trace(c, events) =~= trace(c, front));
            if before.channel.len() > 0 {
                assert(seq![before.channel[0]] + before.channel.drop_first() =~= before.channel);
                assert(drained(c, events) + run(c, events).channel =~= drained(c, front)
                    + before.channel);
            }
        } else {
            assert(drained(c, events) + run(c, events).channel =~= (drained(c, front)
                + before.channel) + encode_all(more));
            assert((c.channel + encode_all(trace(c, front))) + encode_all(more) =~= c.channel + (
            encode_all(trace(c, front)) + encode_all(more)));
        }
    }
}

/// What the caller observes of a connection: with nothing queued when the
/// connection is asked for, the strings polled since, followed by those
/// that still wait, are the wire forms of the connection's items, and these
/// have the shape of the connection's state. So the first string polled of
/// a session that was established is `open`, and the last of one that is
/// over is `close`.
pub proof fn lemma_observed_stream(c: ClientView, events: Seq<ClientEvent>)
    requires
        c.state is Connecting,
        c.channel.len() == 0,
        one_connection(events),
    ensures
        drained(c, events) + run(c, events).channel == encode_all(trace(c, events)),
        lifecycle(trace(c, events), run(c, events).state),
{
    lemma_connection_stream(c, events);
    lemma_channel_keeps_order(c, events);
    assert(c.channel + encode_all(trace(c, events)) =~= encode_all(trace(c, events)));
}

/// A poll that finds the channel empty changes nothing.
pub proof fn lemma_poll_on_empty(c: ClientView)
    requires
        c.channel.len() == 0,
    ensures
        step(c, ClientEvent::Poll) == c,
{
}

/// Closing twice is closing once: the second call asks for no handshake,
/// emits nothing and leaves the client as the first call left it.
pub proof fn lemma_close_twice(c: ClientView)
    ensures
        step(step(c, ClientEvent::Close), ClientEvent::Close) == step(c, ClientEvent::Close),
        !(step(c, ClientEvent::Close).state is Open),
        emitted(c, ClientEvent::Close).len() == 0,
        emitted(step(c, ClientEvent::Close), ClientEvent::Close).len() == 0,
{
    let once = step(c, ClientEvent::Close);
    assert(c.channel + encode_all(Seq::<ItemView>::empty()) =~= c.channel);
    assert(once.channel + encode_all(Seq::<ItemView>::empty()) =~= once.channel);
}

/// Texts sent while the session is open reach the wire verbatim: one frame
/// for each send, in the order of the sends, and the client is as it was.
pub proof fn lemma_sends_reach_the_wire(c: ClientView, texts: Seq<Seq<char>>)
    requires
        c.state is Open,
    ensures
        wire(c, sends(texts)) == texts,
        run(c, sends(texts)) == c,
    decreases texts.len(),
{
    let events = sends(texts);
    if texts.len() == 0 {
        assert(wire(c, events) =~= texts);
    } else {
        lemma_sends_reach_the_wire(c, texts.drop_last());
        assert(events.drop_last() =~= sends(texts.drop_last()));
        assert(events.last() == ClientEvent::Send { text: texts.last() });
        assert(c.channel + encode_all(Seq::<ItemView>::empty()) =~= c.channel);
        assert(texts.drop_last().push(texts.last()) =~= texts);
    }
}

/// With a peer that echoes, every text sent while the session is open comes
/// back to the caller once, verbatim and in the order of the sends.
pub proof fn lemma_echo_comes_back(c: ClientView, texts: Seq<Seq<char>>)
    requires
        c.state is Open,
    ensures
        wire(c, echoes(c.epoch, texts)) == texts,
        run(c, echoes(c.epoch, texts)).channel == c.channel + texts,
        run(c, echoes(c.epoch, texts)).state is Open,
        run(c, echoes(c.epoch, texts)).epoch == c.epoch,
    decreases texts.len(),
{
    let events = echoes(c.epoch, texts);
    if texts.len() == 0 {
        assert(wire(c, events) =~= texts);
        assert(c.channel + texts =~= c.channel);
    } else {
        let text = texts.last();
        let shorter = echoes(c.epoch, texts.drop_last());
        lemma_echo_comes_back(c, texts.drop_last());
        let send = ClientEvent::Send { text };
        let read = ClientEvent::ReadDone { epoch: c.epoch, incoming: ReadOutcomeView::Text(text) };
        let sent = shorter.push(send);
        assert(events == sent.push(read));
        assert(events.drop_last() =~= sent);
        assert(sent.drop_last() =~= shorter);
        let before = run(c, shorter);
        assert(before.channel + encode_all(Seq::<ItemView>::empty()) =~= before.channel);
        assert(run(c, sent) == before);
        assert(wire(c, sent) == wire(c, shorter).push(text));
        assert(wire(c, events) == wire(c, sent));
        assert(texts.drop_last().push(text) =~= texts);
        assert(encode_all(seq![ItemView::Payload(text)]) =~= seq![text]);
        assert(run(c, events).channel =~= c.channel + texts);
    }
}

} // verus!
