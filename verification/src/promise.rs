//! One-shot requests: the promise cell that hands a finished request to the
//! caller, and what the dispatcher makes of the transport's report.

use crate::handshake::header_pairs;
use crate::headers::{collected, pairs_of, Headers};
use vstd::prelude::*;
use vstd::utf8::{decode_utf8, valid_utf8};

verus! {

/// A finished request.
#[derive(Debug)]
pub struct HttpResponse {
    /// The status code.
    pub status: i32,
    /// The header mapping.
    pub headers: Headers,
    /// The body, as text.
    pub body: String,
}

/// The mathematical value of an [`HttpResponse`].
pub struct HttpResponseView {
    pub status: i32,
    pub headers: Map<Seq<char>, Seq<char>>,
    pub body: Seq<char>,
}

impl View for HttpResponse {
    type V = HttpResponseView;

    open spec fn view(&self) -> HttpResponseView {
        HttpResponseView { status: self.status, headers: self.headers@, body: self.body@ }
    }
}

/// A response as the transport hands it over: the headers as a list and
/// the body as bytes.
#[derive(Debug)]
pub struct RawResponse {
    pub status: i32,
    pub headers: Vec<(String, String)>,
    pub body: Vec<u8>,
}

/// The request that a dispatcher is started with.
#[derive(Debug)]
pub struct FetchRequest {
    /// The address to get.
    pub url: String,
    /// The headers to send: each name once, with the value that the caller
    /// gave it last.
    pub headers: Headers,
}

/// What a promise cell holds.
pub enum PromiseView {
    /// The request has not finished.
    Pending,
    /// The request finished with this response, which was not taken yet.
    Ready(HttpResponseView),
    /// The request failed for this cause.
    Failed(Seq<char>),
    /// The response was taken.
    Taken,
}

enum Cell {
    Pending,
    Ready(HttpResponse),
    Failed(String),
    Taken,
}

/// A single-slot cell that is written once, by the dispatcher, and emptied
/// once, by the caller.
pub struct Promise {
    cell: Cell,
}

impl View for Promise {
    type V = PromiseView;

    closed spec fn view(&self) -> PromiseView {
        match self.cell {
            Cell::Pending => PromiseView::Pending,
            Cell::Ready(response) => PromiseView::Ready(response@),
            Cell::Failed(cause) => PromiseView::Failed(cause@),
            Cell::Taken => PromiseView::Taken,
        }
    }
}

/// The cause given when a response's body is no text.
pub open spec fn body_not_text() -> Seq<char> {
    "response body is not valid UTF-8"@
}

/// What a report of the transport amounts to: a response whose body is
/// text, or the cause of a failure.
pub open spec fn outcome_of(report: Result<RawResponse, String>) -> Result<HttpResponseView, Seq<char>> {
    match report {
        Ok(raw) => if valid_utf8(raw.body@) {
            Ok(
                HttpResponseView {
                    status: raw.status,
                    headers: collected(pairs_of(raw.headers@)),
                    body: decode_utf8(raw.body@),
                },
            )
        } else {
            Err(body_not_text())
        },
        Err(cause) => Err(cause@),
    }
}

/// The cell after the dispatcher reported `outcome`: a pending cell takes
/// it, any other cell stays as it is.
pub open spec fn settled(cell: PromiseView, outcome: Result<HttpResponseView, Seq<char>>) -> PromiseView {
    match cell {
        PromiseView::Pending => match outcome {
            Ok(response) => PromiseView::Ready(response),
            Err(cause) => PromiseView::Failed(cause),
        },
        _ => cell,
    }
}

/// What a poll hands to the caller.
#[derive(Debug)]
pub enum Polled {
    /// Nothing: the request has not finished, or its response was taken
    /// before.
    Empty,
    /// The response, handed out this once.
    Response(HttpResponse),
    /// The request failed, for this cause.
    Failed(String),
}

/// The mathematical value of a [`Polled`].
pub enum PolledView {
    Empty,
    Response(HttpResponseView),
    Failed(Seq<char>),
}

impl View for Polled {
    type V = PolledView;

    open spec fn view(&self) -> PolledView {
        match self {
            Polled::Empty => PolledView::Empty,
            Polled::Response(response) => PolledView::Response(response@),
            Polled::Failed(cause) => PolledView::Failed(cause@),
        }
    }
}

/// What a poll of `cell` hands to the caller: the response where one is
/// ready, the cause where the request failed, and nothing where the request
/// has not finished or the response was taken.
pub open spec fn poll_result(cell: PromiseView) -> PolledView {
    match cell {
        PromiseView::Pending => PolledView::Empty,
        PromiseView::Ready(response) => PolledView::Response(response),
        PromiseView::Failed(cause) => PolledView::Failed(cause),
        PromiseView::Taken => PolledView::Empty,
    }
}

/// The cell after a poll: a response that was ready is gone, everything else
/// stays.
pub open spec fn polled(cell: PromiseView) -> PromiseView {
    match cell {
        PromiseView::Ready(_) => PromiseView::Taken,
        _ => cell,
    }
}

/// `std::string::FromUtf8Error`, carried through unopened.
#[verifier::external_type_specification]
#[verifier::external_body]
pub struct ExFromUtf8Error(std::string::FromUtf8Error);

/// Calls `String::from_utf8`, which gives the text that the bytes encode
/// where they are valid UTF-8, and an error where they are not.
#[verifier::external_body]
fn text_of(bytes: Vec<u8>) -> (text: Result<String, std::string::FromUtf8Error>)
    ensures
        match text {
            Ok(text) => valid_utf8(bytes@) && text@ == decode_utf8(bytes@),
            Err(_) => !valid_utf8(bytes@),
        },
{
    String::from_utf8(bytes)
}

/// Turns the transport's report into what the cell is to hold. A response
/// whose body is not valid UTF-8 counts as a failure.
pub fn fetch_outcome(report: Result<RawResponse, String>) -> (outcome: Result<HttpResponse, String>)
    ensures
        match outcome {
            Ok(response) => outcome_of(report) == Ok::<HttpResponseView, Seq<char>>(response@),
            Err(cause) => outcome_of(report) == Err::<HttpResponseView, Seq<char>>(cause@),
        },
{
    match report {
        Ok(raw) => {
            let RawResponse { status, headers, body } = raw;
            match text_of(body) {
                Ok(body) => Ok(HttpResponse { status, headers: Headers::from_pairs(headers), body }),
                Err(_) => Err("response body is not valid UTF-8".to_owned()),
            }
        },
        Err(cause) => Err(cause),
    }
}

impl Promise {
    /// A cell for a request that has not finished.
    pub fn new() -> (promise: Promise)
        ensures
            promise@ is Pending,
    {
        Promise { cell: Cell::Pending }
    }

    /// The dispatcher's one write: a pending cell takes what the report
    /// amounts to, and the result is `true`. A cell that was written before
    /// is left alone, and the result is `false`.
    pub fn settle(&mut self, report: Result<RawResponse, String>) -> (written: bool)
        ensures
            final(self)@ == settled(old(self)@, outcome_of(report)),
            written == (old(self)@ is Pending),
    {
        match self.cell {
            Cell::Pending => {
                match fetch_outcome(report) {
                    Ok(response) => {
                        self.cell = Cell::Ready(response);
                    },
                    Err(cause) => {
                        self.cell = Cell::Failed(cause);
                    },
                }
                true
            },
            _ => false,
        }
    }

    /// Polls the cell, without waiting. A response that is ready is taken:
    /// it is handed out once. A failure is shown, at this poll and at every
    /// later one. A cell that is pending, or was emptied, gives nothing and
    /// stays as it is.
    pub fn poll(&mut self) -> (out: Polled)
        ensures
            final(self)@ == polled(old(self)@),
            out@ == poll_result(old(self)@),
    {
        let mut cell = Cell::Taken;
        std::mem::swap(&mut self.cell, &mut cell);
        match cell {
            Cell::Ready(response) => Polled::Response(response),
            Cell::Failed(cause) => {
                let shown = cause.clone();
                self.cell = Cell::Failed(cause);
                Polled::Failed(shown)
            },
            Cell::Pending => {
                self.cell = Cell::Pending;
                Polled::Empty
            },
            Cell::Taken => Polled::Empty,
        }
    }

    /// Whether the request has not finished.
    pub fn is_pending(&self) -> (pending: bool)
        ensures
            pending == (self@ is Pending),
    {
        matches!(self.cell, Cell::Pending)
    }

    /// The cause of the failure, if the request failed.
    pub fn failure(&self) -> (cause: Option<String>)
        ensures
            match cause {
                Some(cause) => self@ == PromiseView::Failed(cause@),
                None => !(self@ is Failed),
            },
    {
        match &self.cell {
            Cell::Failed(cause) => Some(cause.clone()),
            _ => None,
        }
    }
}

/// The headers of a request as a mapping: of two headers with one name the
/// later decides, and no headers give the empty mapping.
pub open spec fn request_headers(headers: Option<Vec<[String; 2]>>) -> Map<Seq<char>, Seq<char>> {
    match headers {
        Some(headers) => collected(header_pairs(headers@)),
        None => Map::empty(),
    }
}

/// Begins a one-shot request: the result is a pending promise and the
/// request for the dispatcher to perform.
pub fn http_get(url: String, headers: Option<Vec<[String; 2]>>) -> (begun: (Promise, FetchRequest))
    ensures
        begun.0@ is Pending,
        begun.1.url == url,
        begun.1.headers@ == request_headers(headers),
{
    let mut mapping = Headers::new();
    match &headers {
        Some(given) => {
            let mut i: usize = 0;
            while i < given.len()
                invariant
                    i <= given.len(),
                    mapping@ == collected(header_pairs(given@).take(i as int)),
                decreases given.len() - i,
            {
                proof {
                    let all = header_pairs(given@);
                    assert(all.take(i + 1).drop_last() =~= all.take(i as int));
                    assert(all.take(i + 1).last() == all[i as int]);
                }
                let header = &given[i];
                mapping.insert(header[0].clone(), header[1].clone());
                i += 1;
            }
            assert(header_pairs(given@).take(i as int) =~= header_pairs(given@));
        },
        None => {},
    }
    (Promise::new(), FetchRequest { url, headers: mapping })
}

/// Whatever the dispatcher reports, the cell is not pending afterwards, and
/// the first poll after the report of a pending cell shows it: a response
/// for a request that succeeded, the cause for one that failed. Neither is
/// what a poll of a pending cell gives.
pub proof fn lemma_settled_is_not_pending(cell: PromiseView, outcome: Result<HttpResponseView, Seq<char>>)
    ensures
        !(settled(cell, outcome) is Pending),
        cell is Pending ==> poll_result(settled(cell, outcome)) != poll_result(cell),
        cell is Pending ==> poll_result(settled(cell, outcome)) == match outcome {
            Ok(response) => PolledView::Response(response),
            Err(cause) => PolledView::Failed(cause),
        },
{
}

/// The cell is written once: a second report changes nothing.
pub proof fn lemma_written_once(
    cell: PromiseView,
    first: Result<HttpResponseView, Seq<char>>,
    second: Result<HttpResponseView, Seq<char>>,
)
    ensures
        settled(settled(cell, first), second) == settled(cell, first),
{
}

/// A response is handed out at most once: the poll that follows a poll
/// gives no response and changes nothing. A failure keeps being shown.
pub proof fn lemma_second_poll(cell: PromiseView)
    ensures
        !(poll_result(polled(cell)) is Response),
        polled(polled(cell)) == polled(cell),
        cell is Failed ==> poll_result(polled(cell)) == poll_result(cell),
{
}

} // verus!
