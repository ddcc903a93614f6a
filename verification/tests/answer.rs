use ptp_fast_event_consumer::address::PeerAddr;
use ptp_fast_event_consumer::answer::{
    app_version, delete_outcome, get_status, get_version, list_outcome,
    list_subscriptions, make_listing, make_notice, resubscribe_answer, resubscribe_events, sse_message, unsubscribe,
    CurrentStatus, DeleteOutcome, ListOutcome,
};
use ptp_fast_event_consumer::event::handle_cloudevent;
use ptp_fast_event_consumer::http::{is_success, HttpVersion, RequestHead, StatusCode};
use ptp_fast_event_consumer::json::{Json, JsonNumber};
use ptp_fast_event_consumer::parse::parse_str;
use ptp_fast_event_consumer::subscription::PostOutcome;
use ptp_fast_event_consumer::status::{PtpStatus, StatusBoard};
use serde_json::Value;

fn shown(json: &Json) -> Value {
    match json {
        Json::Null => Value::Null,
        Json::Bool(b) => Value::Bool(*b),
        Json::Number(JsonNumber::PosInt(n)) => Value::from(*n),
        Json::Number(JsonNumber::NegInt(n)) => Value::from(*n),
        Json::Number(JsonNumber::Float(text)) => Value::from(text.parse::<f64>().unwrap()),
        Json::Text(text) => Value::String(text.clone()),
        Json::Array(items) => Value::Array(items.iter().map(shown).collect()),
        Json::Object(members) => {
            Value::Object(members.iter().map(|(k, v)| (k.clone(), shown(v))).collect())
        }
    }
}

fn expected(text: &str) -> Value {
    serde_json::from_str(text).unwrap()
}

fn message_of(answer: CurrentStatus) -> String {
    match answer {
        CurrentStatus::Notice(notice) => {
            let time = notice.get("timestamp").and_then(|t| t.as_str()).expect("timestamp");
            assert!(time.ends_with("+00:00"));
            notice.get("message").and_then(|m| m.as_str()).expect("message").to_string()
        }
        other => panic!("{:?}", other),
    }
}

fn told(answer: CurrentStatus) -> PtpStatus {
    match answer {
        CurrentStatus::Status(status) => status,
        other => panic!("{:?}", other),
    }
}

#[test]
fn version_is_told() {
    assert_eq!(app_version(), "0.1.0");
    assert_eq!(shown(&get_version()), expected(r#"{"version": "0.1.0"}"#));
}

#[test]
fn no_status_before_the_first_broadcast() {
    assert_eq!(message_of(get_status(&StatusBoard::new())), "No status available yet");
}

#[test]
fn published_status_is_told_next() {
    let mut board = StatusBoard::new();
    for (time, class) in [("1", Some(6u8)), ("2", None), ("3", Some(7))] {
        let mut status = PtpStatus::blank(time.to_string());
        status.clock_class = class;
        let broadcast = board.publish(status);
        for _ in 0..2 {
            let current = told(get_status(&board));
            assert_eq!(format!("{:?}", current), format!("{:?}", broadcast));
        }
    }
    assert_eq!(told(get_status(&board)).clock_class, Some(7));
}

#[test]
fn accepted_event_is_told_and_a_refused_one_is_not() {
    let head = RequestHead {
        method: "POST".to_string(),
        uri: "/api/events".to_string(),
        version: HttpVersion::Http11,
        peer: PeerAddr::V4 { ip: "10.0.0.1".to_string(), port: 1 },
        headers: Vec::new(),
    };
    let mut board = StatusBoard::new();
    handle_cloudevent(&mut board, &head, Some(b"{".to_vec()));
    assert_eq!(message_of(get_status(&board)), "No status available yet");
    let body = br#"{"time": "t", "data": {"values": [{"ResourceAddress": "clock-class", "value": 6}]}}"#;
    handle_cloudevent(&mut board, &head, Some(body.to_vec()));
    handle_cloudevent(&mut board, &head, None);
    let current = told(get_status(&board));
    assert_eq!(current.timestamp, "t");
    assert_eq!(current.clock_class, Some(6));
}

#[test]
fn listeners_get_every_status_in_order() {
    let sent: Vec<String> = (0..4)
        .map(|i| sse_message(Some(PtpStatus::blank(i.to_string()))).timestamp)
        .collect();
    assert_eq!(sent, vec!["0", "1", "2", "3"]);
}

#[test]
fn success_is_two_hundred_and_up() {
    for (status, success) in [(100, false), (199, false), (200, true), (204, true), (299, true), (300, false), (404, false), (500, false)] {
        assert_eq!(is_success(status), success);
    }
    let body = Some(b"[]".to_vec());
    assert_eq!(list_outcome(200, body.clone()), ListOutcome::Answered { body: body.clone() });
    assert_eq!(list_outcome(404, body), ListOutcome::Refused { status: 404 });
    assert_eq!(delete_outcome(204, "x".to_string()), DeleteOutcome::Deleted);
    assert_eq!(
        delete_outcome(500, "x".to_string()),
        DeleteOutcome::Refused { status: 500, body: "x".to_string() }
    );
}

#[test]
fn notice_has_time_and_message() {
    assert_eq!(
        shown(&make_notice("now".to_string(), "Channel closed")),
        expected(r#"{"timestamp": "now", "message": "Channel closed"}"#)
    );
}

#[test]
fn listeners_get_a_blank_status_for_lost_ones() {
    let mut status = PtpStatus::blank("t".to_string());
    status.clock_class = Some(6);
    assert_eq!(sse_message(Some(status)).clock_class, Some(6));
    let blank = sse_message(None);
    assert!(blank.timestamp.ends_with("+00:00"));
    assert_eq!(blank.lock_state, None);
    assert!(blank.request_body.is_none());
    assert!(blank.additional.entries().is_empty());
}

#[test]
fn board_completes_what_is_not_told() {
    let mut board = StatusBoard::new();
    let mut first = PtpStatus::blank("1".to_string());
    first.lock_state = Some("LOCKED".to_string());
    first.clock_class = Some(6);
    first.http_method = Some("POST".to_string());
    board.publish(first);
    let mut second = PtpStatus::blank("2".to_string());
    second.clock_class = Some(7);
    let broadcast = board.publish(second);
    assert_eq!(broadcast.timestamp, "2");
    assert_eq!(broadcast.lock_state.as_deref(), Some("LOCKED"));
    assert_eq!(broadcast.clock_class, Some(7));
    assert_eq!(broadcast.os_clock_sync_state, None);
    assert_eq!(broadcast.http_method, None);
}

#[test]
fn subscriptions_are_listed() {
    let cases = [
        ("null", r#"{"status": "success", "subscriptions": []}"#),
        ("[]", r#"{"status": "success", "subscriptions": []}"#),
        (r#"[{"a": 1}, 2]"#, r#"{"status": "success", "subscriptions": [{"a": 1}, 2]}"#),
        (r#"{"a": 1}"#, r#"{"status": "success", "subscriptions": [{"a": 1}]}"#),
        ("false", r#"{"status": "success", "subscriptions": [false]}"#),
    ];
    for (body, answer) in cases {
        let outcome = ListOutcome::Answered { body: Some(body.as_bytes().to_vec()) };
        assert_eq!(shown(&list_subscriptions(outcome).unwrap()), expected(answer));
        assert_eq!(shown(&make_listing(parse_str(body).unwrap())), expected(answer));
    }
}

#[test]
fn listing_can_fail() {
    for outcome in [
        ListOutcome::Unreachable,
        ListOutcome::Answered { body: None },
        ListOutcome::Refused { status: 99 },
        ListOutcome::Refused { status: 1000 },
        ListOutcome::Answered { body: Some(b"<html>".to_vec()) },
    ] {
        assert_eq!(list_subscriptions(outcome).unwrap_err(), StatusCode::InternalServerError);
    }
    let refused = ListOutcome::Refused { status: 404 };
    assert_eq!(
        shown(&list_subscriptions(refused).unwrap()),
        expected(r#"{"status": "error", "message": "Failed to list subscriptions: 404 Not Found"}"#)
    );
}

#[test]
fn unsubscribing_is_answered() {
    assert_eq!(
        shown(&unsubscribe("s1", DeleteOutcome::Deleted).unwrap()),
        expected(r#"{"status": "success", "message": "Successfully unsubscribed from s1"}"#)
    );
    let refused = DeleteOutcome::Refused {
        status: 404,
        body: "gone".to_string(),
    };
    assert_eq!(
        shown(&unsubscribe("s1", refused).unwrap()),
        expected(r#"{"status": "error", "message": "Failed to unsubscribe: 404 Not Found - gone"}"#)
    );
    let odd = DeleteOutcome::Refused { status: 599, body: "".to_string() };
    assert_eq!(
        shown(&unsubscribe("s1", odd).unwrap()),
        expected(r#"{"status": "error", "message": "Failed to unsubscribe: 599 <unknown status code> - "}"#)
    );
    let none = DeleteOutcome::Refused { status: 7, body: "".to_string() };
    assert_eq!(unsubscribe("s1", none).unwrap_err(), StatusCode::InternalServerError);
    assert_eq!(
        unsubscribe("s1", DeleteOutcome::Unreachable).unwrap_err(),
        StatusCode::InternalServerError
    );
}

#[test]
fn resubscribing_is_answered() {
    let success =
        expected(r#"{"status": "success", "message": "Successfully resubscribed to PTP events"}"#);
    for outcomes in [
        vec![PostOutcome::Accepted, PostOutcome::Accepted, PostOutcome::Accepted],
        vec![PostOutcome::Unsent, PostOutcome::Refused, PostOutcome::Accepted],
        vec![],
    ] {
        assert_eq!(shown(&resubscribe_events(&outcomes)), success);
    }
    assert_eq!(shown(&resubscribe_answer(None)), success);
    assert_eq!(
        shown(&resubscribe_answer(Some("no route".to_string()))),
        expected(r#"{"status": "error", "message": "Failed to resubscribe: no route"}"#)
    );
}
