//! What the service keeps of an HTTP request, and how it answers.

use crate::address::{connection_source, format_connection_source, PeerAddr, PeerView};
use crate::fields::Fields;
use crate::text;
use crate::text::decimal;
use vstd::prelude::*;

verus! {

/// The protocol version of a request.
#[derive(Debug, Clone, Copy, PartialEq, Eq, Structural)]
pub enum HttpVersion {
    Http09,
    Http10,
    Http11,
    Http2,
    Http3,
    Other,
}

impl HttpVersion {
    /// The version as it stands in a request line.
    pub open spec fn spec_label(self) -> Seq<char> {
        match self {
            HttpVersion::Http09 => "HTTP/0.9"@,
            HttpVersion::Http10 => "HTTP/1.0"@,
            HttpVersion::Http11 => "HTTP/1.1"@,
            HttpVersion::Http2 => "HTTP/2"@,
            HttpVersion::Http3 => "HTTP/3"@,
            HttpVersion::Other => "HTTP/?"@,
        }
    }

    /// The version as it stands in a request line.
    pub fn label(self) -> (label: &'static str)
        ensures
            label@ == self.spec_label(),
    {
        match self {
            HttpVersion::Http09 => "HTTP/0.9",
            HttpVersion::Http10 => "HTTP/1.0",
            HttpVersion::Http11 => "HTTP/1.1",
            HttpVersion::Http2 => "HTTP/2",
            HttpVersion::Http3 => "HTTP/3",
            HttpVersion::Other => "HTTP/?",
        }
    }
}

/// The status of an answer.
#[derive(Debug, Clone, Copy, PartialEq, Eq, Structural)]
pub enum StatusCode {
    NoContent,
    BadRequest,
    InternalServerError,
}

impl StatusCode {
    /// The number of the status.
    pub fn number(self) -> (number: u16)
        ensures
            number == match self {
                StatusCode::NoContent => 204u16,
                StatusCode::BadRequest => 400u16,
                StatusCode::InternalServerError => 500u16,
            },
    {
        match self {
            StatusCode::NoContent => 204,
            StatusCode::BadRequest => 400,
            StatusCode::InternalServerError => 500,
        }
    }
}

/// What follows the number where a status is written out: the reason phrase that
/// `StatusCode` has for it.
pub uninterp spec fn status_reason(status: u16) -> Seq<char>;

/// Whether an answer can have this status number.
pub open spec fn is_status(status: u16) -> bool {
    100 <= status <= 999
}

/// A status in words: its number and the reason phrase.
pub open spec fn status_text(status: u16) -> Seq<char> {
    decimal(status as nat) + " "@ + status_reason(status)
}

/// `to_string` of the `reqwest::StatusCode` with this number: the number in
/// decimal, a blank and the reason phrase. There is such a status for every number
/// of three digits, and for no other.
#[verifier::external_body]
pub(crate) fn status_words(status: u16) -> (words: Option<String>)
    ensures
        opt_text(words) == (if is_status(status) {
            Some(decimal(status as nat) + " "@ + status_reason(status))
        } else {
            None
        }),
{
    match reqwest::StatusCode::from_u16(status) {
        Ok(code) => Some(code.to_string()),
        Err(_) => None,
    }
}

/// Whether a status number reports success.
pub open spec fn reports_success(status: u16) -> bool {
    200 <= status < 300
}

/// Whether a status number reports success.
pub fn is_success(status: u16) -> (result: bool)
    ensures
        result == reports_success(status),
{
    200 <= status && status < 300
}

/// A header line. The name is in small letters; the value is `None` where it
/// holds anything but visible ASCII.
#[derive(Debug, PartialEq, Eq)]
pub struct Header {
    pub name: String,
    pub value: Option<String>,
}

/// The content of a [`Header`].
pub struct HeaderView {
    pub name: Seq<char>,
    pub value: Option<Seq<char>>,
}

/// The content of an optional text.
pub open spec fn opt_text(text: Option<String>) -> Option<Seq<char>> {
    match text {
        Some(inner) => Some(inner@),
        None => None,
    }
}

impl View for Header {
    type V = HeaderView;

    open spec fn view(&self) -> HeaderView {
        HeaderView { name: self.name@, value: opt_text(self.value) }
    }
}

/// The contents of header lines.
pub open spec fn header_views(headers: Seq<Header>) -> Seq<HeaderView> {
    headers.map_values(|header: Header| header@)
}

/// The host that a request was sent to: the value of the first `host` header.
/// Without a legible one it is `localhost:8080`.
pub open spec fn destination(headers: Seq<HeaderView>) -> Seq<char>
    decreases headers.len(),
{
    if headers.len() == 0 {
        "localhost:8080"@
    } else if headers.first().name == "host"@ {
        match headers.first().value {
            Some(value) => value,
            None => "localhost:8080"@,
        }
    } else {
        destination(headers.drop_first())
    }
}

/// The legible headers by name; of several with one name, the last.
pub open spec fn legible(headers: Seq<HeaderView>) -> Map<Seq<char>, Seq<char>>
    decreases headers.len(),
{
    if headers.len() == 0 {
        Map::empty()
    } else {
        match headers.last().value {
            Some(value) => legible(headers.drop_last()).insert(headers.last().name, value),
            None => legible(headers.drop_last()),
        }
    }
}

/// From where and to where a request came: `source -> destination`.
pub open spec fn connection(peer: PeerView, headers: Seq<HeaderView>) -> Seq<char> {
    connection_source(peer) + " -> "@ + destination(headers)
}

/// The head of a request.
#[derive(Debug, PartialEq, Eq)]
pub struct RequestHead {
    pub method: String,
    pub uri: String,
    pub version: HttpVersion,
    /// The other end of the connection itself, whatever the headers say.
    pub peer: PeerAddr,
    pub headers: Vec<Header>,
}

/// The content of a [`RequestHead`].
pub struct HeadView {
    pub method: Seq<char>,
    pub uri: Seq<char>,
    pub version: HttpVersion,
    pub peer: PeerView,
    pub headers: Seq<HeaderView>,
}

impl View for RequestHead {
    type V = HeadView;

    open spec fn view(&self) -> HeadView {
        HeadView {
            method: self.method@,
            uri: self.uri@,
            version: self.version,
            peer: self.peer@,
            headers: header_views(self.headers@),
        }
    }
}

/// The host that a request was sent to.
fn find_destination(headers: &Vec<Header>) -> (host: String)
    ensures
        host@ == destination(header_views(headers@)),
{
    let ghost views = header_views(headers@);
    assert(views.skip(0) =~= views);
    for i in 0..headers.len()
        invariant
            views == header_views(headers@),
            destination(views.skip(i as int)) == destination(views),
    {
        assert(views.skip(i as int).first() == headers@[i as int]@);
        assert(views.skip(i as int).drop_first() =~= views.skip(i + 1));
        if text::same(headers[i].name.as_str(), "host") {
            return match &headers[i].value {
                Some(value) => value.clone(),
                None => "localhost:8080".to_owned(),
            };
        }
    }
    "localhost:8080".to_owned()
}

impl RequestHead {
    /// From where and to where the request came.
    pub fn connection_line(&self) -> (line: String)
        ensures
            line@ == connection(self@.peer, self@.headers),
    {
        let mut line = format_connection_source(&self.peer);
        line.append(" -> ");
        line.append(find_destination(&self.headers).as_str());
        line
    }

    /// The legible headers by name.
    pub fn legible_headers(&self) -> (result: Fields<String>)
        ensures
            result@ == legible(self@.headers),
    {
        let ghost views = self@.headers;
        let mut result: Fields<String> = Fields::new();
        for i in 0..self.headers.len()
            invariant
                views == header_views(self.headers@),
                result@ == legible(views.take(i as int)),
        {
            assert(views.take(i + 1).drop_last() =~= views.take(i as int));
            assert(views.take(i + 1).last() == self.headers@[i as int]@);
            if let Some(value) = &self.headers[i].value {
                result.insert(self.headers[i].name.clone(), value.clone());
            }
        }
        assert(views.take(views.len() as int) =~= views);
        result
    }
}

} // verus!
