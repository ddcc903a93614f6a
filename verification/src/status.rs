//! The PTP status and what becomes of it from event to event.

use crate::fields::Fields;
use crate::http::opt_text;
use crate::json::{Json, JsonView};
use vstd::prelude::*;

verus! {

/// What one broadcast tells: the state of the clocks, and the request that
/// brought the news.
#[derive(Debug)]
pub struct PtpStatus {
    pub timestamp: String,
    pub os_clock_sync_state: Option<String>,
    pub lock_state: Option<String>,
    pub clock_class: Option<u8>,
    /// Request line: method, URI, version.
    pub http_method: Option<String>,
    pub http_uri: Option<String>,
    pub http_version: Option<String>,
    /// Source and destination of the connection.
    pub connection_line: Option<String>,
    pub request_headers: Option<Fields<String>>,
    /// The JSON body of the request.
    pub request_body: Option<Json>,
    /// Reported values by resource address.
    pub additional: Fields<Json>,
}

/// The content of a [`PtpStatus`].
pub struct StatusView {
    pub timestamp: Seq<char>,
    pub os_clock_sync_state: Option<Seq<char>>,
    pub lock_state: Option<Seq<char>>,
    pub clock_class: Option<u8>,
    pub http_method: Option<Seq<char>>,
    pub http_uri: Option<Seq<char>>,
    pub http_version: Option<Seq<char>>,
    pub connection_line: Option<Seq<char>>,
    pub request_headers: Option<Map<Seq<char>, Seq<char>>>,
    pub request_body: Option<JsonView>,
    pub additional: Map<Seq<char>, JsonView>,
}

impl View for PtpStatus {
    type V = StatusView;

    open spec fn view(&self) -> StatusView {
        StatusView {
            timestamp: self.timestamp@,
            os_clock_sync_state: opt_text(self.os_clock_sync_state),
            lock_state: opt_text(self.lock_state),
            clock_class: self.clock_class,
            http_method: opt_text(self.http_method),
            http_uri: opt_text(self.http_uri),
            http_version: opt_text(self.http_version),
            connection_line: opt_text(self.connection_line),
            request_headers: match self.request_headers {
                Some(headers) => Some(headers@),
                None => None,
            },
            request_body: match self.request_body {
                Some(body) => Some(body@),
                None => None,
            },
            additional: self.additional@,
        }
    }
}

/// A status that tells nothing but a time.
pub open spec fn blank(timestamp: Seq<char>) -> StatusView {
    StatusView {
        timestamp,
        os_clock_sync_state: None,
        lock_state: None,
        clock_class: None,
        http_method: None,
        http_uri: None,
        http_version: None,
        connection_line: None,
        request_headers: None,
        request_body: None,
        additional: Map::empty(),
    }
}

/// `new`, or `old` where `new` tells nothing.
pub open spec fn newer<T>(new: Option<T>, old: Option<T>) -> Option<T> {
    match new {
        Some(value) => Some(value),
        None => old,
    }
}

/// `status` with what it does not tell of the clocks taken from `last`.
pub open spec fn completed(status: StatusView, last: Option<StatusView>) -> StatusView {
    match last {
        Some(known) => StatusView {
            os_clock_sync_state: newer(status.os_clock_sync_state, known.os_clock_sync_state),
            lock_state: newer(status.lock_state, known.lock_state),
            clock_class: newer(status.clock_class, known.clock_class),
            ..status
        },
        None => status,
    }
}

fn copy_text(text: &Option<String>) -> (copy: Option<String>)
    ensures
        opt_text(copy) == opt_text(*text),
{
    match text {
        Some(inner) => Some(inner.clone()),
        None => None,
    }
}

impl Clone for PtpStatus {
    fn clone(&self) -> (copy: PtpStatus)
        ensures
            copy@ == self@,
    {
        PtpStatus {
            timestamp: self.timestamp.clone(),
            os_clock_sync_state: copy_text(&self.os_clock_sync_state),
            lock_state: copy_text(&self.lock_state),
            clock_class: self.clock_class,
            http_method: copy_text(&self.http_method),
            http_uri: copy_text(&self.http_uri),
            http_version: copy_text(&self.http_version),
            connection_line: copy_text(&self.connection_line),
            request_headers: match &self.request_headers {
                Some(headers) => Some(headers.clone()),
                None => None,
            },
            request_body: match &self.request_body {
                Some(body) => Some(body.clone()),
                None => None,
            },
            additional: self.additional.clone(),
        }
    }
}

impl PtpStatus {
    /// A status that tells nothing but a time.
    pub fn blank(timestamp: String) -> (status: PtpStatus)
        ensures
            status@ == blank(timestamp@),
    {
        PtpStatus {
            timestamp,
            os_clock_sync_state: None,
            lock_state: None,
            clock_class: None,
            http_method: None,
            http_uri: None,
            http_version: None,
            connection_line: None,
            request_headers: None,
            request_body: None,
            additional: Fields::new(),
        }
    }

    /// Takes from `last` what this status does not tell of the clocks.
    pub fn complete(&mut self, last: &PtpStatus)
        ensures
            final(self)@ == completed(old(self)@, Some(last@)),
    {
        if self.os_clock_sync_state.is_none() {
            self.os_clock_sync_state = copy_text(&last.os_clock_sync_state);
        }
        if self.lock_state.is_none() {
            self.lock_state = copy_text(&last.lock_state);
        }
        if self.clock_class.is_none() {
            self.clock_class = last.clock_class;
        }
    }
}

/// The last status that was broadcast.
#[derive(Debug)]
pub struct StatusBoard {
    pub last: Option<PtpStatus>,
}

impl View for StatusBoard {
    type V = Option<StatusView>;

    open spec fn view(&self) -> Option<StatusView> {
        match self.last {
            Some(status) => Some(status@),
            None => None,
        }
    }
}

impl StatusBoard {
    /// Nothing was broadcast yet.
    pub fn new() -> (board: StatusBoard)
        ensures
            board@ is None,
    {
        StatusBoard { last: None }
    }

    /// Completes `status` from the last broadcast and keeps it as the new one.
    pub fn publish(&mut self, status: PtpStatus) -> (broadcast: PtpStatus)
        ensures
            broadcast@ == completed(status@, old(self)@),
            final(self)@ == Some(broadcast@),
    {
        let mut broadcast = status;
        if let Some(last) = &self.last {
            broadcast.complete(last);
        }
        self.last = Some(broadcast.clone());
        broadcast
    }
}

} // verus!
