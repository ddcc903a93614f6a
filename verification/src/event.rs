//! CloudEvents of the O-Cloud Notification API, version 2.

use crate::clock;
use crate::clock::is_utc_time;
use crate::fields::Fields;
use crate::http::{connection, legible, opt_text, HeadView, RequestHead, StatusCode};
use crate::json::{as_text, content, str_of, Json, JsonView};
use crate::parse::{parse_slice, parse_str, slice_json, str_json};
use crate::status::{completed, PtpStatus, StatusBoard, StatusView};
use crate::text;
use crate::text::{
    decimal, occurs_in, same_ignoring_ascii_case, signed_decimal, trimmed, u64_of,
};
use vstd::prelude::*;

verus! {

/// The time that an event states: `time`, or `timestamp` where there is no `time`.
pub open spec fn stated_time(payload: JsonView) -> Option<Seq<char>> {
    str_of(payload.get_either("time"@, "timestamp"@))
}

/// The type of an event, empty where it states none.
pub open spec fn event_type(payload: JsonView) -> Seq<char> {
    match str_of(payload.get("type"@)) {
        Some(text) => trimmed(text),
        None => trimmed(""@),
    }
}

/// The data of an event, which comes as an object or as the JSON text of any value.
pub open spec fn event_data(payload: JsonView) -> Option<JsonView> {
    match payload.get("data"@) {
        Some(JsonView::Text(text)) => str_json(text),
        Some(JsonView::Object(members)) => Some(JsonView::Object(members)),
        _ => None,
    }
}

/// The entries of `values` in the data of an event.
pub open spec fn data_values(data: Option<JsonView>) -> Option<Seq<JsonView>> {
    match data {
        Some(json) => match json.get_either("values"@, "Values"@) {
            Some(values) => values.as_array(),
            None => None,
        },
        None => None,
    }
}

/// The value type of an entry.
pub open spec fn value_type(entry: JsonView) -> Option<Seq<char>> {
    str_of(entry.get_either("value_type"@, "valueType"@))
}

/// The data type of an entry.
pub open spec fn data_type(entry: JsonView) -> Option<Seq<char>> {
    str_of(entry.get_either("data_type"@, "dataType"@))
}

/// Whether an entry carries a state, not a number.
pub open spec fn is_enumeration(entry: JsonView) -> bool {
    match value_type(entry) {
        Some(kind) => same_ignoring_ascii_case(kind, "enumeration"@),
        None => false,
    }
}

/// Whether an entry carries a metric: a value that is decimal, integer or called one.
pub open spec fn is_metric(entry: JsonView) -> bool {
    &&& entry.get("value"@) is Some
    &&& data_type(entry) == Some("metric"@) || match value_type(entry) {
        Some(kind) => "decimal"@.is_prefix_of(kind) || "integer"@.is_prefix_of(kind),
        None => false,
    }
}

/// A metric in text: a text as it is, an integer in decimal.
pub open spec fn metric_text(value: JsonView) -> Option<Seq<char>> {
    if value.as_str() is Some {
        value.as_str()
    } else if value.as_i64() is Some {
        Some(signed_decimal(value.as_i64()->0 as int))
    } else if value.as_u64() is Some {
        Some(decimal(value.as_u64()->0 as nat))
    } else {
        None
    }
}

/// The state that the last enumeration entry carries.
pub open spec fn last_state(values: Seq<JsonView>) -> Option<Seq<char>>
    decreases values.len(),
{
    if values.len() == 0 {
        None
    } else if is_enumeration(values.last()) {
        str_of(values.last().get("value"@))
    } else {
        last_state(values.drop_last())
    }
}

/// The metric that the last metric entry carries.
pub open spec fn last_metric(values: Seq<JsonView>) -> Option<Seq<char>>
    decreases values.len(),
{
    if values.len() == 0 {
        None
    } else if !is_enumeration(values.last()) && is_metric(values.last()) {
        metric_text(values.last().get("value"@)->0)
    } else {
        last_metric(values.drop_last())
    }
}

/// The state that a state change reports, with the metric behind it where there is one.
pub open spec fn reported_state(values: Seq<JsonView>) -> Option<Seq<char>> {
    match (last_state(values), last_metric(values)) {
        (Some(state), Some(metric)) => Some(state + " "@ + metric),
        (Some(state), None) => Some(state),
        (None, _) => None,
    }
}

/// The type of the events that report the lock state.
pub open spec fn is_lock_change(kind: Seq<char>) -> bool {
    kind == "event.sync.ptp-status.ptp-state-change"@
}

/// The type of the events that report the state of the system clock.
pub open spec fn is_os_clock_change(kind: Seq<char>) -> bool {
    kind == "event.sync.sync-status.os-clock-sync-state-change"@
}

/// The address of the resource that an entry is about.
pub open spec fn resource_address(entry: JsonView) -> Option<Seq<char>> {
    str_of(entry.get("ResourceAddress"@))
}

/// Whether an entry is about the clock class.
pub open spec fn is_clock_class(entry: JsonView) -> bool {
    match resource_address(entry) {
        Some(address) => occurs_in("CLOCK_CLASS"@, address) || occurs_in("clock-class"@, address),
        None => false,
    }
}

/// The number that an entry carries as such or in text.
pub open spec fn entry_number(entry: JsonView) -> Option<u64> {
    match entry.get("value"@) {
        Some(value) => if value.as_u64() is Some {
            value.as_u64()
        } else if value.as_str() is Some {
            u64_of(value.as_str()->0)
        } else {
            None
        },
        None => None,
    }
}

/// The low eight bits of the number in the last entry that tells the clock class.
pub open spec fn last_clock_class(values: Seq<JsonView>) -> Option<u8>
    decreases values.len(),
{
    if values.len() == 0 {
        None
    } else if is_clock_class(values.last()) && entry_number(values.last()) is Some {
        Some((entry_number(values.last())->0 % 256) as u8)
    } else {
        last_clock_class(values.drop_last())
    }
}

/// The entries by resource address; of several with one address, the last.
pub open spec fn by_address(values: Seq<JsonView>) -> Map<Seq<char>, JsonView>
    decreases values.len(),
{
    if values.len() == 0 {
        Map::empty()
    } else {
        match resource_address(values.last()) {
            Some(address) => by_address(values.drop_last()).insert(address, values.last()),
            None => by_address(values.drop_last()),
        }
    }
}

/// What an event reports: the entries of its data by address, and its source.
pub open spec fn reported(payload: JsonView, values: Seq<JsonView>) -> Map<Seq<char>, JsonView> {
    match str_of(payload.get("source"@)) {
        Some(source) => by_address(values).insert("source"@, JsonView::Text(source)),
        None => by_address(values),
    }
}

/// The status that an event tells by itself.
pub open spec fn told(
    head: HeadView,
    payload: JsonView,
    timestamp: Seq<char>,
    data: Option<JsonView>,
) -> StatusView {
    let kind = event_type(payload);
    let values = match data_values(data) {
        Some(values) => values,
        None => seq![],
    };
    StatusView {
        timestamp,
        os_clock_sync_state: if is_os_clock_change(kind) {
            reported_state(values)
        } else {
            None
        },
        lock_state: if is_lock_change(kind) {
            reported_state(values)
        } else {
            None
        },
        clock_class: last_clock_class(values),
        http_method: Some(head.method),
        http_uri: Some(head.uri),
        http_version: Some(head.version.spec_label()),
        connection_line: Some(connection(head.peer, head.headers)),
        request_headers: Some(legible(head.headers)),
        request_body: Some(payload),
        additional: reported(payload, values),
    }
}

/// Whether an event happened at `timestamp`: at the time that it states, else at one
/// that the clock gave.
pub open spec fn happened_at(payload: JsonView, timestamp: Seq<char>) -> bool {
    match stated_time(payload) {
        Some(time) => timestamp == time,
        None => is_utc_time(timestamp),
    }
}

/// Whether `broadcast` is what comes of an event after the broadcast `last`: the status
/// that the event tells by its own data, at its time, completed from `last`.
pub open spec fn comes_of(
    head: HeadView,
    payload: JsonView,
    last: Option<StatusView>,
    broadcast: StatusView,
) -> bool {
    &&& broadcast == completed(
        told(head, payload, broadcast.timestamp, event_data(payload)),
        last,
    )
    &&& happened_at(payload, broadcast.timestamp)
}

/// The contents of JSON values.
pub open spec fn json_views(values: Seq<Json>) -> Seq<JsonView> {
    values.map_values(|value: Json| value@)
}

fn enumeration(entry: &Json) -> (result: bool)
    ensures
        result == is_enumeration(entry@),
{
    match as_text(entry.get_either("value_type", "valueType")) {
        Some(kind) => text::eq_ignore_ascii_case(kind, "enumeration"),
        None => false,
    }
}

fn metric(entry: &Json) -> (result: bool)
    ensures
        result == is_metric(entry@),
{
    let called_metric = match as_text(entry.get_either("data_type", "dataType")) {
        Some(kind) => text::same(kind, "metric"),
        None => false,
    };
    let numeric = match as_text(entry.get_either("value_type", "valueType")) {
        Some(kind) => text::starts_with(kind, "decimal") || text::starts_with(kind, "integer"),
        None => false,
    };
    (called_metric || numeric) && entry.get("value").is_some()
}

fn write_metric(value: &Json) -> (result: Option<String>)
    ensures
        opt_text(result) == metric_text(value@),
{
    if let Some(text) = value.as_str() {
        Some(text.to_owned())
    } else if let Some(n) = value.as_i64() {
        Some(text::i64_text(n))
    } else if let Some(n) = value.as_u64() {
        Some(text::u64_text(n))
    } else {
        None
    }
}

fn own(text: Option<&str>) -> (result: Option<String>)
    ensures
        opt_text(result) == content(text),
{
    match text {
        Some(inner) => Some(inner.to_owned()),
        None => None,
    }
}

/// The state that a state change reports, with its metric.
pub fn read_state(values: &Vec<Json>) -> (result: Option<String>)
    ensures
        opt_text(result) == reported_state(json_views(values@)),
{
    let ghost views = json_views(values@);
    let mut state: Option<String> = None;
    let mut number: Option<String> = None;
    for i in 0..values.len()
        invariant
            views == json_views(values@),
            opt_text(state) == last_state(views.take(i as int)),
            opt_text(number) == last_metric(views.take(i as int)),
    {
        assert(views.take(i + 1).drop_last() =~= views.take(i as int));
        let entry = &values[i];
        assert(views.take(i + 1).last() == entry@);
        if enumeration(entry) {
            state = own(as_text(entry.get("value")));
        } else if metric(entry) {
            number = match entry.get("value") {
                Some(value) => write_metric(value),
                None => None,
            };
        }
    }
    assert(views.take(views.len() as int) =~= views);
    match (state, number) {
        (Some(state), Some(number)) => {
            let mut result = state;
            result.append(" ");
            result.append(number.as_str());
            Some(result)
        },
        (Some(state), None) => Some(state),
        (None, _) => None,
    }
}

fn clock_class_entry(address: &str) -> (result: bool)
    ensures
        result == (occurs_in("CLOCK_CLASS"@, address@) || occurs_in("clock-class"@, address@)),
{
    text::contains(address, "CLOCK_CLASS") || text::contains(address, "clock-class")
}

fn read_number(entry: &Json) -> (result: Option<u64>)
    ensures
        result == entry_number(entry@),
{
    match entry.get("value") {
        Some(value) => {
            if let Some(n) = value.as_u64() {
                Some(n)
            } else if let Some(text) = value.as_str() {
                text::parse_u64(text)
            } else {
                None
            }
        },
        None => None,
    }
}

/// The clock class that the entries tell.
pub fn read_clock_class(values: &Vec<Json>) -> (result: Option<u8>)
    ensures
        result == last_clock_class(json_views(values@)),
{
    let ghost views = json_views(values@);
    let mut class: Option<u8> = None;
    for i in 0..values.len()
        invariant
            views == json_views(values@),
            class == last_clock_class(views.take(i as int)),
    {
        assert(views.take(i + 1).drop_last() =~= views.take(i as int));
        let entry = &values[i];
        assert(views.take(i + 1).last() == entry@);
        if let Some(address) = as_text(entry.get("ResourceAddress")) {
            if clock_class_entry(address) {
                if let Some(n) = read_number(entry) {
                    class = Some((n % 256) as u8);
                }
            }
        }
    }
    assert(views.take(views.len() as int) =~= views);
    class
}

/// The entries by resource address.
pub fn index_by_address(values: &Vec<Json>) -> (result: Fields<Json>)
    ensures
        result@ == by_address(json_views(values@)),
{
    let ghost views = json_views(values@);
    let mut result: Fields<Json> = Fields::new();
    for i in 0..values.len()
        invariant
            views == json_views(values@),
            result@ == by_address(views.take(i as int)),
    {
        assert(views.take(i + 1).drop_last() =~= views.take(i as int));
        let entry = &values[i];
        assert(views.take(i + 1).last() == entry@);
        if let Some(address) = as_text(entry.get("ResourceAddress")) {
            result.insert(address.to_owned(), entry.clone());
        }
    }
    assert(views.take(views.len() as int) =~= views);
    result
}

/// The content of optional data.
pub open spec fn opt_json(data: Option<Json>) -> Option<JsonView> {
    match data {
        Some(json) => Some(json@),
        None => None,
    }
}

/// The data of an event.
pub fn read_data(payload: &Json) -> (data: Option<Json>)
    ensures
        opt_json(data) == event_data(payload@),
{
    match payload.get("data") {
        Some(data) => match data {
            Json::Text(text) => parse_str(text.as_str()),
            Json::Object(_) => Some(data.clone()),
            _ => None,
        },
        None => None,
    }
}

/// The entries of `values` in the data of an event.
fn find_values(data: &Option<Json>) -> (values: Option<&Vec<Json>>)
    ensures
        match values {
            Some(entries) => data_values(opt_json(*data)) == Some(json_views(entries@)),
            None => data_values(opt_json(*data)) is None,
        },
{
    match data {
        Some(json) => match json.get_either("values", "Values") {
            Some(values) => values.as_array(),
            None => None,
        },
        None => None,
    }
}

/// The type of an event.
pub fn read_type(payload: &Json) -> (kind: &str)
    ensures
        kind@ == event_type(payload@),
{
    match as_text(payload.get("type")) {
        Some(kind) => text::trim(kind),
        None => text::trim(""),
    }
}

/// The status that an event tells by itself, at `timestamp` and with `data` as its data.
pub fn tell_status(
    head: &RequestHead,
    payload: Json,
    timestamp: String,
    data: Option<Json>,
) -> (status: PtpStatus)
    ensures
        status@ == told(head@, payload@, timestamp@, opt_json(data)),
{
    let none: Vec<Json> = Vec::new();
    assert(json_views(none@) =~= seq![]);
    let values = match find_values(&data) {
        Some(entries) => entries,
        None => &none,
    };
    let kind = read_type(&payload);
    let mut status = PtpStatus::blank(timestamp);
    status.http_method = Some(head.method.clone());
    status.http_uri = Some(head.uri.clone());
    status.http_version = Some(head.version.label().to_owned());
    status.connection_line = Some(head.connection_line());
    status.request_headers = Some(head.legible_headers());
    if text::same(kind, "event.sync.ptp-status.ptp-state-change") {
        status.lock_state = read_state(values);
    }
    if text::same(kind, "event.sync.sync-status.os-clock-sync-state-change") {
        status.os_clock_sync_state = read_state(values);
    }
    status.clock_class = read_clock_class(values);
    let mut additional = index_by_address(values);
    if let Some(source) = as_text(payload.get("source")) {
        additional.insert("source".to_owned(), Json::Text(source.to_owned()));
    }
    status.additional = additional;
    status.request_body = Some(payload);
    status
}

/// Puts what an event tells on the board: the status to broadcast.
pub fn accept_event(
    board: &mut StatusBoard,
    head: &RequestHead,
    payload: Json,
    timestamp: String,
    data: Option<Json>,
) -> (broadcast: PtpStatus)
    ensures
        broadcast@ == completed(
            told(head@, payload@, timestamp@, opt_json(data)),
            old(board)@,
        ),
        final(board)@ == Some(broadcast@),
{
    board.publish(tell_status(head, payload, timestamp, data))
}

/// When an event happened: at the time that it states, else now.
pub fn read_timestamp(payload: &Json) -> (timestamp: String)
    ensures
        happened_at(payload@, timestamp@),
{
    match as_text(payload.get_either("time", "timestamp")) {
        Some(time) => time.to_owned(),
        None => clock::now(),
    }
}

/// What comes of a request that delivers an event.
#[derive(Debug)]
pub struct Handled {
    /// The status of the answer, which has no body.
    pub code: StatusCode,
    /// What to broadcast.
    pub broadcast: Option<PtpStatus>,
}

/// Handle an incoming CloudEvent; `body` is `None` where it could not be read.
/// An event is answered with 204, a body that is no JSON with 400.
pub fn handle_cloudevent(
    board: &mut StatusBoard,
    head: &RequestHead,
    body: Option<Vec<u8>>,
) -> (handled: Handled)
    ensures
        body is None || slice_json(body->0@) is None ==> {
            &&& handled.code == StatusCode::BadRequest
            &&& handled.broadcast is None
            &&& *final(board) == *old(board)
        },
        body is Some && slice_json(body->0@) is Some ==> {
            let payload = slice_json(body->0@)->0;
            &&& handled.code == StatusCode::NoContent
            &&& handled.broadcast is Some
            &&& comes_of(head@, payload, old(board)@, handled.broadcast->0@)
            &&& final(board)@ == Some(handled.broadcast->0@)
        },
{
    let bytes = match body {
        Some(bytes) => bytes,
        None => {
            return Handled { code: StatusCode::BadRequest, broadcast: None };
        },
    };
    let payload = match parse_slice(bytes.as_slice()) {
        Some(payload) => payload,
        None => {
            return Handled { code: StatusCode::BadRequest, broadcast: None };
        },
    };
    let timestamp = read_timestamp(&payload);
    let data = read_data(&payload);
    let broadcast = accept_event(board, head, payload, timestamp, data);
    Handled { code: StatusCode::NoContent, broadcast: Some(broadcast) }
}

/// Handle a request that checks the callback address.
pub fn handle_validation() -> (code: StatusCode)
    ensures
        code == StatusCode::NoContent,
{
    StatusCode::NoContent
}

} // verus!
