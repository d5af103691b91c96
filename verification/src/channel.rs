//! The message channel: an unbounded, order-preserving queue of encoded
//! items. Producers append at the back; the one consumer drains the front.
//!
//! vstd specifies no channel of std, so the queue is a `VecDeque`, whose
//! order vstd does specify. Whoever shares it between threads guards it.

use crate::event::{error_event, error_text, event_item, event_text};
use std::collections::VecDeque;
use vstd::prelude::*;

verus! {

/// The queue between the producers of items and the caller that polls.
pub struct MessageChannel {
    items: VecDeque<String>,
}

impl View for MessageChannel {
    type V = Seq<Seq<char>>;

    /// The queued strings, oldest first.
    closed spec fn view(&self) -> Seq<Seq<char>> {
        self.items@.map_values(|item: String| item@)
    }
}

impl MessageChannel {
    /// A channel that holds nothing.
    pub fn new() -> (channel: MessageChannel)
        ensures
            channel@ == Seq::<Seq<char>>::empty(),
    {
        let channel = MessageChannel { items: VecDeque::new() };
        assert(channel@ =~= Seq::<Seq<char>>::empty());
        channel
    }

    /// Appends `item` behind everything already queued.
    pub fn push(&mut self, item: String)
        ensures
            final(self)@ == old(self)@.push(item@),
    {
        self.items.push_back(item);
        assert(self@ =~= old(self)@.push(item@));
    }

    /// Takes the oldest item, if there is one. Never waits: with nothing
    /// queued the answer is `None` and the channel is as it was.
    pub fn poll(&mut self) -> (item: Option<String>)
        ensures
            old(self)@.len() == 0 ==> item is None && final(self)@ == old(self)@,
            old(self)@.len() > 0 ==> item is Some && item->0@ == old(self)@[0] && final(self)@
                == old(self)@.drop_first(),
    {
        let item = self.items.pop_front();
        assert(old(self)@.len() > 0 ==> self@ =~= old(self)@.drop_first());
        item
    }

    /// How many items wait to be polled.
    pub fn len(&self) -> (n: usize)
        ensures
            n == self@.len(),
    {
        self.items.len()
    }

    /// Whether a poll would find nothing.
    pub fn is_empty(&self) -> (empty: bool)
        ensures
            empty == (self@.len() == 0),
    {
        self.items.len() == 0
    }
}

/// Queues the control item for `event`.
pub fn push_event(tx: &mut MessageChannel, event: &str)
    ensures
        final(tx)@ == old(tx)@.push(event_item(event@)),
{
    tx.push(event_text(event));
}

/// Queues the control item that reports `error`.
pub fn push_error(tx: &mut MessageChannel, error: &str)
    ensures
        final(tx)@ == old(tx)@.push(event_item(error_event(error@))),
{
    tx.push(error_text(error));
}

} // verus!
