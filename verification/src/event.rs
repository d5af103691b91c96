//! Event encoding: payload text and lifecycle events share one ordered
//! channel of strings, told apart by a reserved prefix.

use vstd::prelude::*;
use vstd::string::{StrSliceExecFns, StringExecFns};

verus! {

/// The reserved prefix that marks a control item.
pub const EVENT_PREFIX: &'static str = "@";

/// One item of a connection's stream, before it is put on the wire.
#[derive(Debug)]
pub enum Item {
    /// A received text message, verbatim.
    Payload(String),
    /// The session is established.
    Open,
    /// The session is over; nothing follows from the same connection.
    Close,
    /// Something went wrong; the text says what.
    Error(String),
}

/// The mathematical value of an [`Item`].
pub enum ItemView {
    Payload(Seq<char>),
    Open,
    Close,
    Error(Seq<char>),
}

impl View for Item {
    type V = ItemView;

    open spec fn view(&self) -> ItemView {
        match self {
            Item::Payload(text) => ItemView::Payload(text@),
            Item::Open => ItemView::Open,
            Item::Close => ItemView::Close,
            Item::Error(cause) => ItemView::Error(cause@),
        }
    }
}

/// The name of the `open` event.
pub open spec fn open_event() -> Seq<char> {
    seq!['o', 'p', 'e', 'n']
}

/// The name of the `close` event.
pub open spec fn close_event() -> Seq<char> {
    seq!['c', 'l', 'o', 's', 'e']
}

/// What precedes the cause in the name of an `error` event.
pub open spec fn error_label() -> Seq<char> {
    seq!['e', 'r', 'r', 'o', 'r', ':', ' ']
}

/// The name of the `error` event that reports `cause`.
pub open spec fn error_event(cause: Seq<char>) -> Seq<char> {
    error_label() + cause
}

/// The text of a control item that carries `event`.
pub open spec fn event_item(event: Seq<char>) -> Seq<char> {
    seq!['@'] + event
}

/// The string that stands for `item` on the channel.
pub open spec fn encode(item: ItemView) -> Seq<char> {
    match item {
        ItemView::Payload(text) => text,
        ItemView::Open => event_item(open_event()),
        ItemView::Close => event_item(close_event()),
        ItemView::Error(cause) => event_item(error_event(cause)),
    }
}

/// The strings that stand for `items`, in the same order.
pub open spec fn encode_all(items: Seq<ItemView>) -> Seq<Seq<char>> {
    items.map_values(|item: ItemView| encode(item))
}

/// Whether `text` begins like an `error` item.
pub open spec fn has_error_prefix(text: Seq<char>) -> bool {
    text.len() >= 8 && text.take(8) == event_item(error_label())
}

/// Whether a payload with this text would be read back as a control item.
pub open spec fn collides(text: Seq<char>) -> bool {
    text == encode(ItemView::Open) || text == encode(ItemView::Close) || has_error_prefix(text)
}

/// The item that a string taken from the channel stands for. A string that
/// begins with the prefix but names no known event is a payload.
pub open spec fn decode(text: Seq<char>) -> ItemView {
    if text == encode(ItemView::Open) {
        ItemView::Open
    } else if text == encode(ItemView::Close) {
        ItemView::Close
    } else if has_error_prefix(text) {
        ItemView::Error(text.skip(8))
    } else {
        ItemView::Payload(text)
    }
}

/// Prefixes `event` with the reserved marker.
pub fn event_text(event: &str) -> (item: String)
    ensures
        item@ == event_item(event@),
{
    proof {
        reveal_strlit("@");
    }
    let mut item = String::from_str(EVENT_PREFIX);
    item.append(event);
    assert(item@ =~= event_item(event@));
    item
}

/// The control item that reports `cause` as an error.
pub fn error_text(cause: &str) -> (item: String)
    ensures
        item@ == event_item(error_event(cause@)),
{
    proof {
        reveal_strlit("error: ");
    }
    let mut event = String::from_str("error: ");
    event.append(cause);
    assert(event@ =~= error_event(cause@));
    event_text(event.as_str())
}

/// Whether `text` begins with `prefix`.
fn begins_with(text: &str, prefix: &str) -> (yes: bool)
    ensures
        yes == (prefix@.len() <= text@.len() && text@.take(prefix@.len() as int) == prefix@),
{
    let n = prefix.unicode_len();
    if text.unicode_len() < n {
        return false;
    }
    let mut i: usize = 0;
    while i < n
        invariant
            i <= n,
            n == prefix@.len(),
            n <= text@.len(),
            forall|k: int| 0 <= k < i ==> text@[k] == prefix@[k],
        decreases n - i,
    {
        if text.get_char(i) != prefix.get_char(i) {
            assert(text@.take(n as int)[i as int] != prefix@[i as int]);
            return false;
        }
        i += 1;
    }
    assert(text@.take(n as int) =~= prefix@);
    true
}

impl Item {
    /// Reads a string taken from the channel.
    pub fn decode(text: &str) -> (item: Item)
        ensures
            item@ == decode(text@),
    {
        proof {
            reveal_strlit("@open");
            reveal_strlit("@close");
            reveal_strlit("@error: ");
        }
        assert("@open"@ =~= encode(ItemView::Open));
        assert("@close"@ =~= encode(ItemView::Close));
        assert("@error: "@ =~= event_item(error_label()));
        let n = text.unicode_len();
        if n == 5 && begins_with(text, "@open") {
            assert(text@.take(5) =~= text@);
            Item::Open
        } else if n == 6 && begins_with(text, "@close") {
            assert(text@.take(6) =~= text@);
            Item::Close
        } else if begins_with(text, "@error: ") {
            let cause = text.substring_char(8, n);
            assert(cause@ =~= text@.skip(8));
            Item::Error(cause.to_owned())
        } else {
            assert(text@ == encode(ItemView::Open) ==> text@.take(5) =~= text@);
            assert(text@ == encode(ItemView::Close) ==> text@.take(6) =~= text@);
            Item::Payload(text.to_owned())
        }
    }

    /// Puts the item in its wire form.
    pub fn encode(&self) -> (text: String)
        ensures
            text@ == encode(self@),
    {
        match self {
            Item::Payload(payload) => payload.clone(),
            Item::Open => {
                proof {
                    reveal_strlit("open");
                }
                assert("open"@ =~= open_event());
                event_text("open")
            },
            Item::Close => {
                proof {
                    reveal_strlit("close");
                }
                assert("close"@ =~= close_event());
                event_text("close")
            },
            Item::Error(cause) => error_text(cause.as_str()),
        }
    }
}

/// Every control item is read back as itself.
pub proof fn lemma_decode_encode_control(item: ItemView)
    requires
        !(item is Payload),
    ensures
        decode(encode(item)) == item,
{
    match item {
        ItemView::Error(cause) => {
            let text = encode(item);
            assert(text.len() == 8 + cause.len());
            assert(text.take(8) =~= event_item(error_label()));
            assert(text.skip(8) =~= cause);
            assert(text != encode(ItemView::Open));
            assert(text != encode(ItemView::Close));
        },
        ItemView::Open => {},
        ItemView::Close => {
            assert(encode(ItemView::Close).len() == 6);
            assert(encode(ItemView::Open).len() == 5);
        },
        ItemView::Payload(_) => {},
    }
}

/// A payload is read back as itself exactly when its text does not look like
/// a control item.
pub proof fn lemma_decode_encode_payload(text: Seq<char>)
    ensures
        decode(encode(ItemView::Payload(text))) == ItemView::Payload(text) <==> !collides(text),
{
}

/// Whatever string is taken from the channel, the item it is read as has
/// that string as its wire form.
pub proof fn lemma_encode_decode(text: Seq<char>)
    ensures
        encode(decode(text)) == text,
{
    if text != encode(ItemView::Open) && text != encode(ItemView::Close) && has_error_prefix(text) {
        assert(text.take(8) + text.skip(8) =~= text);
        assert(encode(decode(text)) =~= text.take(8) + text.skip(8));
    }
}

} // verus!
