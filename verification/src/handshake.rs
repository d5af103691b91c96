//! The opening request of a session: what is checked before any I/O, and
//! the headers that the upgrade request carries.

use crate::headers::pairs_of;
use vstd::prelude::*;

verus! {

/// What kind of fault keeps a connection from being attempted.
#[derive(Clone, Copy, Debug, PartialEq, Eq, Structural)]
pub enum ConnectErrorKind {
    /// The address is not a URI.
    InvalidUri,
    /// The address is a URI that names no host.
    EmptyHostName,
    /// A header's name is not an HTTP token.
    InvalidHeaderName,
    /// A header's value holds a character that no header value may hold.
    InvalidHeaderValue,
}

/// Why a connection cannot even be attempted.
#[derive(Debug, PartialEq, Eq)]
pub struct ConnectError {
    /// The kind of fault.
    pub kind: ConnectErrorKind,
    /// The fault in words, as the transport's own error describes it.
    pub description: String,
}

/// The mathematical value of a [`ConnectError`].
pub struct ConnectErrorView {
    pub kind: ConnectErrorKind,
    pub description: Seq<char>,
}

impl View for ConnectError {
    type V = ConnectErrorView;

    open spec fn view(&self) -> ConnectErrorView {
        ConnectErrorView { kind: self.kind, description: self.description@ }
    }
}

impl ConnectError {
    /// The description of the error, in words.
    pub fn message(&self) -> (text: String)
        ensures
            text@ == self@.description,
    {
        self.description.clone()
    }
}

/// What `http::Uri` makes of an address: the host, or none where the
/// address names none, or, where the address does not parse, the
/// transport's description of the fault.
pub uninterp spec fn parsed_host(url: Seq<char>) -> Result<Option<Seq<char>>, Seq<char>>;

/// How the transport describes an address without host.
pub open spec fn empty_host_text() -> Seq<char> {
    "URL error: URL contains empty host name"@
}

/// How the transport describes a header name that is no token.
pub open spec fn invalid_header_name_text() -> Seq<char> {
    "HTTP format error: invalid HTTP header name"@
}

/// How the transport describes a header value with a character out of
/// range.
pub open spec fn invalid_header_value_text() -> Seq<char> {
    "HTTP format error: failed to parse header value"@
}

/// The characters of an HTTP token.
pub open spec fn is_token_char(c: char) -> bool {
    ||| 'a' <= c <= 'z'
    ||| 'A' <= c <= 'Z'
    ||| '0' <= c <= '9'
    ||| c == '!'
    ||| c == '#'
    ||| c == '$'
    ||| c == '%'
    ||| c == '&'
    ||| c == '\''
    ||| c == '*'
    ||| c == '+'
    ||| c == '-'
    ||| c == '.'
    ||| c == '^'
    ||| c == '_'
    ||| c == '`'
    ||| c == '|'
    ||| c == '~'
}

/// A header name is a token of 1 to 65535 characters.
pub open spec fn header_name_ok(name: Seq<char>) -> bool {
    &&& 1 <= name.len() <= 65535
    &&& forall|i: int| 0 <= i < name.len() ==> is_token_char(#[trigger] name[i])
}

/// The characters of a header value: the tab, and all from the space on but
/// the delete character.
pub open spec fn is_value_char(c: char) -> bool {
    (' ' <= c && c != '\x7f') || c == '\t'
}

/// A header value holds value characters only; it may be empty.
pub open spec fn header_value_ok(value: Seq<char>) -> bool {
    forall|i: int| 0 <= i < value.len() ==> is_value_char(#[trigger] value[i])
}

/// The characters of base64 with padding.
pub open spec fn is_key_char(c: char) -> bool {
    ||| 'A' <= c <= 'Z'
    ||| 'a' <= c <= 'z'
    ||| '0' <= c <= '9'
    ||| c == '+'
    ||| c == '/'
    ||| c == '='
}

/// A handshake nonce is 24 characters of base64 with padding.
pub open spec fn key_ok(key: Seq<char>) -> bool {
    &&& key.len() == 24
    &&& forall|i: int| 0 <= i < key.len() ==> is_key_char(#[trigger] key[i])
}

/// Parses `url` with `http::Uri`'s `FromStr` and reads the host with
/// `Uri::host`. Where the address does not parse, the fault is turned into
/// a `tungstenite::Error` by its `From` and described by its `Display`. All
/// of this is decided by the text alone, so the outcome has a name,
/// `parsed_host`; nothing more is claimed of it.
#[verifier::external_body]
fn uri_host(url: &str) -> (host: Result<Option<String>, String>)
    ensures
        match host {
            Ok(Some(name)) => parsed_host(url@) == Ok::<Option<Seq<char>>, Seq<char>>(Some(name@)),
            Ok(None) => parsed_host(url@) == Ok::<Option<Seq<char>>, Seq<char>>(None),
            Err(description) => parsed_host(url@) == Err::<Option<Seq<char>>, Seq<char>>(
                description@,
            ),
        },
{
    match url.parse::<http::Uri>() {
        Ok(uri) => Ok(uri.host().map(String::from)),
        Err(fault) => Err(tungstenite::Error::from(fault).to_string()),
    }
}

/// Describes `tungstenite::Error::Url(UrlError::EmptyHostName)` by its
/// `Display`, which writes `URL error: ` and then the words of the inner
/// error.
#[verifier::external_body]
fn describe_empty_host() -> (text: String)
    ensures
        text@ == empty_host_text(),
{
    tungstenite::Error::Url(tungstenite::error::UrlError::EmptyHostName).to_string()
}

/// Calls `http::header::HeaderName::from_bytes`, which accepts exactly the
/// names of 1 to 65535 bytes that its table of token characters maps to
/// something other than zero, upper case included. A token character is
/// one byte, so for a name of tokens bytes and characters count alike. The
/// fault is turned into a `tungstenite::Error` by its `From` and described
/// by its `Display`: `HTTP format error: `, then the fixed words of
/// `InvalidHeaderName`.
#[verifier::external_body]
fn check_header_name(name: &str) -> (checked: Result<(), String>)
    ensures
        checked is Ok <==> header_name_ok(name@),
        checked is Err ==> checked->Err_0@ == invalid_header_name_text(),
{
    match http::header::HeaderName::from_bytes(name.as_bytes()) {
        Ok(_) => Ok(()),
        Err(fault) => Err(tungstenite::Error::from(fault).to_string()),
    }
}

/// Calls `http::header::HeaderValue::from_bytes`, which accepts exactly the
/// values whose every byte is a tab or at least 32 and not 127. A character
/// beyond ASCII is encoded in bytes of 128 and more, so it is accepted. The
/// fault is turned into a `tungstenite::Error` by its `From` and described
/// by its `Display`: `HTTP format error: `, then the fixed words of
/// `InvalidHeaderValue`.
#[verifier::external_body]
fn check_header_value(value: &str) -> (checked: Result<(), String>)
    ensures
        checked is Ok <==> header_value_ok(value@),
        checked is Err ==> checked->Err_0@ == invalid_header_value_text(),
{
    match http::header::HeaderValue::from_bytes(value.as_bytes()) {
        Ok(_) => Ok(()),
        Err(fault) => Err(tungstenite::Error::from(fault).to_string()),
    }
}

/// Calls `tungstenite::handshake::client::generate_key`: sixteen random
/// bytes in base64 with padding, which is always 24 characters of that
/// alphabet. Which of them is left to chance.
#[verifier::external_body]
fn generate_key() -> (key: String)
    ensures
        key_ok(key@),
{
    tungstenite::handshake::client::generate_key()
}

/// The caller's headers as pairs of name and value.
pub open spec fn header_pairs(headers: Seq<[String; 2]>) -> Seq<(Seq<char>, Seq<char>)> {
    Seq::new(headers.len(), |i: int| (headers[i]@[0]@, headers[i]@[1]@))
}

/// What is wrong with one header, the name being looked at first.
pub open spec fn header_error(header: (Seq<char>, Seq<char>)) -> Option<ConnectErrorView> {
    if !header_name_ok(header.0) {
        Some(
            ConnectErrorView {
                kind: ConnectErrorKind::InvalidHeaderName,
                description: invalid_header_name_text(),
            },
        )
    } else if !header_value_ok(header.1) {
        Some(
            ConnectErrorView {
                kind: ConnectErrorKind::InvalidHeaderValue,
                description: invalid_header_value_text(),
            },
        )
    } else {
        None
    }
}

/// What is wrong with the first header that is not in order.
pub open spec fn headers_error(headers: Seq<(Seq<char>, Seq<char>)>) -> Option<ConnectErrorView>
    decreases headers.len(),
{
    if headers.len() == 0 {
        None
    } else if header_error(headers[0]) is Some {
        header_error(headers[0])
    } else {
        headers_error(headers.drop_first())
    }
}

/// What is wrong with an address, given what parsing it brought: it does
/// not parse, or it names no host.
pub open spec fn host_error(parsed: Result<Option<Seq<char>>, Seq<char>>) -> Option<ConnectErrorView> {
    match parsed {
        Err(description) => Some(
            ConnectErrorView { kind: ConnectErrorKind::InvalidUri, description },
        ),
        Ok(None) => Some(
            ConnectErrorView {
                kind: ConnectErrorKind::EmptyHostName,
                description: empty_host_text(),
            },
        ),
        Ok(Some(_)) => None,
    }
}

/// Why no upgrade request can be made for `url` with `headers`, if so: the
/// address is looked at first, then the headers in their order.
pub open spec fn request_error(url: Seq<char>, headers: Seq<(Seq<char>, Seq<char>)>) -> Option<
    ConnectErrorView,
> {
    if host_error(parsed_host(url)) is Some {
        host_error(parsed_host(url))
    } else {
        headers_error(headers)
    }
}

/// The plain value of what parsing an address brought.
pub open spec fn parsed_view(parsed: Result<Option<String>, String>) -> Result<
    Option<Seq<char>>,
    Seq<char>,
> {
    match parsed {
        Ok(Some(name)) => Ok(Some(name@)),
        Ok(None) => Ok(None),
        Err(description) => Err(description@),
    }
}

/// The headers of an upgrade request: the five that the protocol asks for,
/// then the caller's, in the caller's order.
pub open spec fn upgrade_headers(
    host: Seq<char>,
    key: Seq<char>,
    extra: Seq<(Seq<char>, Seq<char>)>,
) -> Seq<(Seq<char>, Seq<char>)> {
    seq![
        ("Host"@, host),
        ("Connection"@, "Upgrade"@),
        ("Upgrade"@, "websocket"@),
        ("Sec-WebSocket-Version"@, "13"@),
        ("Sec-WebSocket-Key"@, key),
    ] + extra
}

/// What an upgrade request is made of.
#[derive(Debug)]
pub struct UpgradeRequest {
    /// The address, as the caller gave it.
    pub uri: String,
    /// The host that the address names.
    pub host: String,
    /// The nonce of this handshake.
    pub key: String,
    /// The caller's own headers.
    pub extra: Vec<[String; 2]>,
}

impl UpgradeRequest {
    /// Every header of the request, in the order in which it is sent.
    pub fn headers(&self) -> (all: Vec<(String, String)>)
        ensures
            pairs_of(all@) == upgrade_headers(self.host@, self.key@, header_pairs(self.extra@)),
    {
        let mut all: Vec<(String, String)> = Vec::new();
        all.push(("Host".to_owned(), self.host.clone()));
        all.push(("Connection".to_owned(), "Upgrade".to_owned()));
        all.push(("Upgrade".to_owned(), "websocket".to_owned()));
        all.push(("Sec-WebSocket-Version".to_owned(), "13".to_owned()));
        all.push(("Sec-WebSocket-Key".to_owned(), self.key.clone()));
        let mut i: usize = 0;
        while i < self.extra.len()
            invariant
                i <= self.extra.len(),
                all.len() == 5 + i,
                pairs_of(all@) =~= upgrade_headers(
                    self.host@,
                    self.key@,
                    header_pairs(self.extra@).take(i as int),
                ),
            decreases self.extra.len() - i,
        {
            let header = &self.extra[i];
            let ghost before = all@;
            all.push((header[0].clone(), header[1].clone()));
            proof {
                let pairs = header_pairs(self.extra@);
                let pair = pairs[i as int];
                assert(pairs.take(i + 1) =~= pairs.take(i as int).push(pair));
                assert(pairs_of(all@) =~= pairs_of(before).push(pair));
                assert(upgrade_headers(self.host@, self.key@, pairs.take(i as int).push(pair))
                    =~= upgrade_headers(self.host@, self.key@, pairs.take(i as int)).push(pair));
            }
            i += 1;
        }
        assert(header_pairs(self.extra@).take(i as int) =~= header_pairs(self.extra@));
        all
    }
}

/// The first header that is out of order decides the error: every name is a
/// token and every value is free of control characters exactly when there
/// is none.
pub proof fn lemma_headers_error(headers: Seq<(Seq<char>, Seq<char>)>)
    ensures
        headers_error(headers) is None <==> forall|i: int|
            0 <= i < headers.len() ==> header_name_ok(#[trigger] headers[i].0) && header_value_ok(
                headers[i].1,
            ),
    decreases headers.len(),
{
    if headers.len() > 0 {
        let rest = headers.drop_first();
        lemma_headers_error(rest);
        if headers_error(headers) is None {
            assert forall|i: int| 0 <= i < headers.len() implies header_name_ok(
                #[trigger] headers[i].0,
            ) && header_value_ok(headers[i].1) by {
                if i > 0 {
                    assert(rest[i - 1] == headers[i]);
                    assert(header_name_ok(rest[i - 1].0));
                }
            }
        } else if header_error(headers[0]) is None {
            let i = choose|i: int|
                0 <= i < rest.len() && !(header_name_ok(#[trigger] rest[i].0) && header_value_ok(
                    rest[i].1,
                ));
            assert(rest[i] == headers[i + 1]);
            assert(!(header_name_ok(headers[i + 1].0) && header_value_ok(headers[i + 1].1)));
        } else {
            assert(!(header_name_ok(headers[0].0) && header_value_ok(headers[0].1)));
        }
    }
}

/// A handshake nonce is in order as a header value.
pub proof fn lemma_key_is_header_value(key: Seq<char>)
    requires
        key_ok(key),
    ensures
        header_value_ok(key),
{
    assert forall|i: int| 0 <= i < key.len() implies is_value_char(#[trigger] key[i]) by {
        assert(is_key_char(key[i]));
    }
}

/// Checks the caller's headers in their order and stops at the first that
/// is out of order.
pub fn check_headers(headers: &Vec<[String; 2]>) -> (checked: Result<(), ConnectError>)
    ensures
        match checked {
            Ok(_) => headers_error(header_pairs(headers@)) is None,
            Err(e) => headers_error(header_pairs(headers@)) == Some(e@),
        },
{
    let ghost pairs = header_pairs(headers@);
    assert(pairs.skip(0) =~= pairs);
    let mut i: usize = 0;
    while i < headers.len()
        invariant
            i <= headers.len(),
            pairs == header_pairs(headers@),
            headers_error(pairs) == headers_error(pairs.skip(i as int)),
        decreases headers.len() - i,
    {
        let header = &headers[i];
        proof {
            let rest = pairs.skip(i as int);
            assert(rest[0] == pairs[i as int]);
            assert(rest.drop_first() =~= pairs.skip(i + 1));
        }
        match check_header_name(header[0].as_str()) {
            Err(description) => {
                return Err(ConnectError { kind: ConnectErrorKind::InvalidHeaderName, description });
            },
            Ok(_) => {},
        }
        match check_header_value(header[1].as_str()) {
            Err(description) => {
                return Err(ConnectError { kind: ConnectErrorKind::InvalidHeaderValue, description });
            },
            Ok(_) => {},
        }
        i += 1;
    }
    Ok(())
}

/// Decides on what parsing an address brought: the host that it names, or
/// the error for an address that does not parse or names no host.
pub fn host_of_parse(parsed: Result<Option<String>, String>) -> (host: Result<String, ConnectError>)
    ensures
        match host {
            Ok(name) => parsed == Ok::<Option<String>, String>(Some(name)),
            Err(e) => host_error(parsed_view(parsed)) == Some(e@),
        },
{
    match parsed {
        Err(description) => Err(ConnectError { kind: ConnectErrorKind::InvalidUri, description }),
        Ok(None) => Err(
            ConnectError { kind: ConnectErrorKind::EmptyHostName, description: describe_empty_host() },
        ),
        Ok(Some(name)) => Ok(name),
    }
}

/// The host that `url` names, or why it is no endpoint to connect to.
pub fn endpoint_host(url: &str) -> (host: Result<String, ConnectError>)
    ensures
        match host {
            Ok(name) => parsed_host(url@) == Ok::<Option<Seq<char>>, Seq<char>>(Some(name@)),
            Err(e) => host_error(parsed_host(url@)) == Some(e@),
        },
{
    host_of_parse(uri_host(url))
}

/// Prepares the upgrade request for `url` with the caller's `headers`, or
/// says why there can be none. Nothing is sent. The nonce is drawn afresh at
/// each call; everything else is decided by the arguments.
pub fn connect_with_headers(url: String, headers: Vec<[String; 2]>) -> (request: Result<
    UpgradeRequest,
    ConnectError,
>)
    ensures
        match request {
            Ok(request) => {
                &&& request_error(url@, header_pairs(headers@)) is None
                &&& request.uri@ == url@
                &&& parsed_host(url@) == Ok::<Option<Seq<char>>, Seq<char>>(Some(request.host@))
                &&& key_ok(request.key@)
                &&& request.extra == headers
            },
            Err(e) => request_error(url@, header_pairs(headers@)) == Some(e@),
        },
{
    let host = match endpoint_host(url.as_str()) {
        Err(e) => {
            return Err(e);
        },
        Ok(host) => host,
    };
    match check_headers(&headers) {
        Err(e) => {
            return Err(e);
        },
        Ok(_) => {},
    }
    let key = generate_key();
    Ok(UpgradeRequest { uri: url, host, key, extra: headers })
}

} // verus!
