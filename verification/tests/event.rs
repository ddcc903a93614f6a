use ptp_fast_event_consumer::address::PeerAddr;
use ptp_fast_event_consumer::event::{
    accept_event, handle_cloudevent, handle_validation, read_clock_class, read_data, read_state,
    read_timestamp, read_type, tell_status,
};
use ptp_fast_event_consumer::http::{Header, HttpVersion, RequestHead, StatusCode};
use ptp_fast_event_consumer::json::{Json, JsonNumber};
use ptp_fast_event_consumer::parse::parse_str;
use ptp_fast_event_consumer::status::{PtpStatus, StatusBoard};
use serde_json::Value;

fn read(text: &str) -> Json {
    parse_str(text).expect("JSON")
}

fn value_of(json: &Json) -> Value {
    match json {
        Json::Null => Value::Null,
        Json::Bool(b) => Value::Bool(*b),
        Json::Number(JsonNumber::PosInt(n)) => Value::from(*n),
        Json::Number(JsonNumber::NegInt(n)) => Value::from(*n),
        Json::Number(JsonNumber::Float(text)) => Value::from(text.parse::<f64>().unwrap()),
        Json::Text(text) => Value::String(text.clone()),
        Json::Array(items) => Value::Array(items.iter().map(value_of).collect()),
        Json::Object(members) => {
            Value::Object(members.iter().map(|(k, v)| (k.clone(), value_of(v))).collect())
        }
    }
}

fn serde_value(text: &str) -> Value {
    serde_json::from_str(text).unwrap()
}

fn header(name: &str, value: Option<&str>) -> Header {
    Header { name: name.to_string(), value: value.map(|v| v.to_string()) }
}

fn head() -> RequestHead {
    RequestHead {
        method: "POST".to_string(),
        uri: "/api/events".to_string(),
        version: HttpVersion::Http11,
        peer: PeerAddr::V4 { ip: "10.128.0.7".to_string(), port: 50100 },
        headers: vec![
            header("content-type", Some("application/json")),
            header("host", Some("consumer:8080")),
            header("x-forwarded-for", Some("192.0.2.1")),
        ],
    }
}

fn values(text: &str) -> Vec<Json> {
    match read(text) {
        Json::Array(items) => items,
        _ => panic!("array"),
    }
}

fn send(board: &mut StatusBoard, body: &str) -> PtpStatus {
    let handled = handle_cloudevent(board, &head(), Some(body.as_bytes().to_vec()));
    assert_eq!(handled.code, StatusCode::NoContent);
    handled.broadcast.expect("broadcast")
}

const LOCKED: &str = r#"{
    "id": "1", "source": "/cluster/node/n1/sync/ptp-status/lock-state",
    "type": "event.sync.ptp-status.ptp-state-change",
    "time": "2024-05-01T10:00:00Z",
    "data": {"version": "1.0", "values": [
        {"ResourceAddress": "/cluster/node/n1/ens1f0/master", "data_type": "notification",
         "value_type": "enumeration", "value": "LOCKED"},
        {"ResourceAddress": "/cluster/node/n1/ens1f0/offset", "data_type": "metric",
         "value_type": "decimal64.3", "value": "-15"}
    ]}
}"#;

const FREERUN: &str = r#"{
    "type": "event.sync.sync-status.os-clock-sync-state-change",
    "timestamp": "2024-05-01T10:00:01Z",
    "data": "{\"Values\": [{\"ResourceAddress\": \"/n1/CLOCK_REALTIME\", \"valueType\": \"Enumeration\", \"value\": \"FREERUN\"}]}"
}"#;

const CLASS: &str = r#"{
    "type": "event.sync.ptp-status.ptp-clock-class-change",
    "time": "2024-05-01T10:00:02Z",
    "data": {"values": [
        {"ResourceAddress": "/n1/CLOCK_CLASS", "data_type": "metric", "value_type": "decimal64.3", "value": 6}
    ]}
}"#;

#[test]
fn lock_state_with_metric() {
    let status = send(&mut StatusBoard::new(), LOCKED);
    assert_eq!(status.timestamp, "2024-05-01T10:00:00Z");
    assert_eq!(status.lock_state.as_deref(), Some("LOCKED -15"));
    assert_eq!(status.os_clock_sync_state, None);
    assert_eq!(status.clock_class, None);
    assert_eq!(status.http_method.as_deref(), Some("POST"));
    assert_eq!(status.http_uri.as_deref(), Some("/api/events"));
    assert_eq!(status.http_version.as_deref(), Some("HTTP/1.1"));
    assert_eq!(status.connection_line.as_deref(), Some("10.128.0.7:50100 -> consumer:8080"));
    let headers = status.request_headers.expect("headers");
    assert_eq!(headers.entries().len(), 3);
    assert_eq!(headers.get("host").map(|v| v.as_str()), Some("consumer:8080"));
    assert_eq!(value_of(&status.request_body.expect("body")), serde_value(LOCKED));
    assert_eq!(status.additional.entries().len(), 3);
    let source = status.additional.get("source").and_then(|v| v.as_str());
    assert_eq!(source, Some("/cluster/node/n1/sync/ptp-status/lock-state"));
    let offset = status.additional.get("/cluster/node/n1/ens1f0/offset").expect("offset");
    assert_eq!(value_of(offset), serde_value(LOCKED)["data"]["values"][1]);
}

#[test]
fn os_clock_state_from_data_in_text() {
    let status = send(&mut StatusBoard::new(), FREERUN);
    assert_eq!(status.timestamp, "2024-05-01T10:00:01Z");
    assert_eq!(status.os_clock_sync_state.as_deref(), Some("FREERUN"));
    assert_eq!(status.lock_state, None);
    assert!(status.additional.get("/n1/CLOCK_REALTIME").is_some());
    assert!(status.additional.get("source").is_none());
}

#[test]
fn every_broadcast_has_the_full_state() {
    let mut board = StatusBoard::new();
    send(&mut board, LOCKED);
    send(&mut board, FREERUN);
    let status = send(&mut board, CLASS);
    assert_eq!(status.lock_state.as_deref(), Some("LOCKED -15"));
    assert_eq!(status.os_clock_sync_state.as_deref(), Some("FREERUN"));
    assert_eq!(status.clock_class, Some(6));
    assert_eq!(status.additional.entries().len(), 1);
    let last = board.last.expect("last");
    assert_eq!(format!("{:?}", last), format!("{:?}", status));
}

#[test]
fn repeated_event_is_broadcast_the_same() {
    let mut board = StatusBoard::new();
    send(&mut board, FREERUN);
    let first = send(&mut board, LOCKED);
    let second = send(&mut board, LOCKED);
    assert_eq!(format!("{:?}", first), format!("{:?}", second));
}

#[test]
fn bad_body_is_refused_and_changes_nothing() {
    let mut board = StatusBoard::new();
    send(&mut board, CLASS);
    for body in [None, Some(Vec::new()), Some(b"{\"time\":".to_vec()), Some(vec![0xff])] {
        let handled = handle_cloudevent(&mut board, &head(), body);
        assert_eq!(handled.code, StatusCode::BadRequest);
        assert!(handled.broadcast.is_none());
    }
    assert_eq!(board.last.expect("last").clock_class, Some(6));
}

#[test]
fn codes_have_their_numbers() {
    assert_eq!(StatusCode::NoContent.number(), 204);
    assert_eq!(StatusCode::BadRequest.number(), 400);
    assert_eq!(StatusCode::InternalServerError.number(), 500);
    assert_eq!(handle_validation(), StatusCode::NoContent);
}

#[test]
fn time_is_now_where_none_is_stated() {
    let now = read_timestamp(&read("{}"));
    assert!(now.len() >= 25 && now.ends_with("+00:00"), "{}", now);
    assert_eq!(&now[4..5], "-");
    assert_eq!(&now[7..8], "-");
    assert_eq!(&now[10..11], "T");
    assert_eq!(&now[13..14], ":");
    assert_eq!(&now[16..17], ":");
    assert!([25, 29, 32, 35].contains(&now.len()));
    assert!(now[..4].chars().all(|c| c.is_ascii_digit()));
    // A time that is not a text hides the timestamp.
    let odd = read_timestamp(&read(r#"{"time": 5, "timestamp": "t"}"#));
    assert!(odd.ends_with("+00:00"));
    assert_eq!(read_timestamp(&read(r#"{"timestamp": "t"}"#)), "t");
    assert_eq!(read_timestamp(&read(r#"{"time": "s", "timestamp": "t"}"#)), "s");
}

#[test]
fn type_is_trimmed() {
    assert_eq!(read_type(&read(r#"{"type": " event.x \n"}"#)), "event.x");
    assert_eq!(read_type(&read(r#"{"type": 3}"#)), "");
    assert_eq!(read_type(&read("[]")), "");
}

#[test]
fn data_by_kind() {
    assert!(read_data(&read("{}")).is_none());
    assert!(read_data(&read(r#"{"data": [1]}"#)).is_none());
    assert!(read_data(&read(r#"{"data": null}"#)).is_none());
    assert!(read_data(&read(r#"{"data": "no json"}"#)).is_none());
    let object = read_data(&read(r#"{"data": {"a": 1}}"#)).expect("data");
    assert_eq!(value_of(&object), serde_value(r#"{"a": 1}"#));
    let text = read_data(&read(r#"{"data": "{\"a\": 1}"}"#)).expect("data");
    assert_eq!(value_of(&text), serde_value(r#"{"a": 1}"#));
    let number = read_data(&read(r#"{"data": "7"}"#)).expect("data");
    assert_eq!(number.as_u64(), Some(7));
}

#[test]
fn state_and_metric_of_the_last_entries() {
    let cases = [
        ("[]", None),
        (r#"[{"value_type": "enumeration", "value": "A"}]"#, Some("A")),
        (r#"[{"value_type": "enumeration", "value": "A"}, {"value_type": "ENUMERATION", "value": "B"}]"#, Some("B")),
        (r#"[{"value_type": "enumeration", "value": "A"}, {"value_type": "enumeration", "value": 1}]"#, None),
        (r#"[{"value_type": "enumeration", "value": "A"}, {"value_type": "enumeration"}]"#, None),
        (r#"[{"value_type": "integer32", "value": 5}]"#, None),
        (r#"[{"value_type": "enumeration", "value": "A"}, {"value_type": "integer32", "value": -5}]"#, Some("A -5")),
        (r#"[{"data_type": "metric", "value": 18446744073709551615}, {"valueType": "enumeration", "value": "A"}]"#, Some("A 18446744073709551615")),
        (r#"[{"value_type": "enumeration", "value": "A"}, {"dataType": "metric", "value": "1.5"}]"#, Some("A 1.5")),
        (r#"[{"value_type": "enumeration", "value": "A"}, {"dataType": "metric", "value": "3"}, {"dataType": "metric", "value": 1.5}]"#, Some("A")),
        (r#"[{"value_type": "enumeration", "value": "A"}, {"dataType": "metric", "value": "3"}, {"dataType": "metric"}]"#, Some("A 3")),
        (r#"[{"value_type": "enumeration", "data_type": "metric", "value": "A"}]"#, Some("A")),
        (r#"[{"value_type": "enumeration", "value": "A"}, {"value_type": "string", "value": "x"}, 7]"#, Some("A")),
    ];
    for (text, expected) in cases {
        assert_eq!(read_state(&values(text)).as_deref(), expected, "{}", text);
    }
}

#[test]
fn clock_class_of_the_last_entry_that_tells_it() {
    let cases = [
        ("[]", None),
        (r#"[{"ResourceAddress": "/x/CLOCK_CLASS", "value": 6}]"#, Some(6)),
        (r#"[{"ResourceAddress": "/x/clock-class", "value": "248"}]"#, Some(248)),
        (r#"[{"ResourceAddress": "/x/clock-class", "value": "+7"}]"#, Some(7)),
        (r#"[{"ResourceAddress": "/x/clock-class", "value": 262}]"#, Some(6)),
        (r#"[{"ResourceAddress": "/x/clock-class", "value": "256"}]"#, Some(0)),
        (r#"[{"ResourceAddress": "/x/clock-class", "value": 6}, {"ResourceAddress": "/x/clock-class", "value": "?"}]"#, Some(6)),
        (r#"[{"ResourceAddress": "/x/clock-class", "value": 6}, {"ResourceAddress": "/y/clock-class", "value": 7}]"#, Some(7)),
        (r#"[{"ResourceAddress": "/x/clock-class", "value": -1}]"#, None),
        (r#"[{"ResourceAddress": "/x/clock-class", "value": 6.5}]"#, None),
        (r#"[{"ResourceAddress": "/x/clock-class"}]"#, None),
        (r#"[{"ResourceAddress": "/x/Clock-Class", "value": 6}]"#, None),
        (r#"[{"value": 6}]"#, None),
        (r#"["CLOCK_CLASS"]"#, None),
    ];
    for (text, expected) in cases {
        assert_eq!(read_clock_class(&values(text)), expected, "{}", text);
    }
}

#[test]
fn source_takes_the_place_of_an_entry_called_source() {
    let payload = read(r#"{"source": "s", "data": {"values": [{"ResourceAddress": "source", "value": 1}, {"value": 2}]}}"#);
    let data = read_data(&payload);
    let status = tell_status(&head(), payload, "t".to_string(), data);
    assert_eq!(status.timestamp, "t");
    assert_eq!(status.additional.entries().len(), 1);
    assert_eq!(status.additional.get("source").and_then(|v| v.as_str()), Some("s"));
}

#[test]
fn other_events_tell_no_state() {
    let mut board = StatusBoard::new();
    let payload = read(r#"{"type": "event.other", "data": {"values": [{"ResourceAddress": "/a", "value_type": "enumeration", "value": "LOCKED"}]}}"#);
    let data = read_data(&payload);
    let status = accept_event(&mut board, &head(), payload, "t".to_string(), data);
    assert_eq!(status.lock_state, None);
    assert_eq!(status.os_clock_sync_state, None);
    assert!(status.additional.get("/a").is_some());
}

#[test]
fn any_json_body_is_an_event() {
    let mut board = StatusBoard::new();
    let status = send(&mut board, "17");
    assert_eq!(value_of(&status.request_body.expect("body")), Value::from(17));
    assert!(status.additional.entries().is_empty());
}

#[test]
fn destination_is_the_first_host_header_or_the_default() {
    let mut request = head();
    request.headers = vec![header("host", Some("a:1")), header("host", Some("b:2"))];
    assert_eq!(request.connection_line(), "10.128.0.7:50100 -> a:1");
    assert_eq!(request.legible_headers().get("host").map(|v| v.as_str()), Some("b:2"));
    request.headers = vec![header("host", None), header("host", Some("b:2"))];
    assert_eq!(request.connection_line(), "10.128.0.7:50100 -> localhost:8080");
    assert_eq!(request.legible_headers().entries().len(), 1);
    request.headers = Vec::new();
    request.peer = PeerAddr::V6 { ip: "fd00::5".to_string(), port: 9 };
    assert_eq!(request.connection_line(), "[fd00::5]:9 -> localhost:8080");
}

#[test]
fn versions_have_labels() {
    let labels = [
        (HttpVersion::Http09, "HTTP/0.9"),
        (HttpVersion::Http10, "HTTP/1.0"),
        (HttpVersion::Http11, "HTTP/1.1"),
        (HttpVersion::Http2, "HTTP/2"),
        (HttpVersion::Http3, "HTTP/3"),
        (HttpVersion::Other, "HTTP/?"),
    ];
    for (version, label) in labels {
        assert_eq!(version.label(), label);
    }
}
