use ptp_fast_event_consumer::json::{Json, JsonNumber};
use ptp_fast_event_consumer::parse::{parse_slice, parse_str};

fn read(text: &str) -> Json {
    parse_str(text).expect("JSON")
}

#[test]
fn every_kind_of_value_is_read() {
    assert!(matches!(read("null"), Json::Null));
    assert!(matches!(read("true"), Json::Bool(true)));
    assert!(matches!(read("12"), Json::Number(JsonNumber::PosInt(12))));
    assert!(matches!(read("-12"), Json::Number(JsonNumber::NegInt(-12))));
    assert!(matches!(read("\"a\\nb\""), Json::Text(text) if text == "a\nb"));
    assert!(matches!(read("12.5"), Json::Number(JsonNumber::Float(text)) if text == "12.5"));
    assert!(matches!(read("[]"), Json::Array(items) if items.is_empty()));
    assert!(matches!(read("{}"), Json::Object(members) if members.is_empty()));
}

#[test]
fn text_that_is_not_json_is_refused() {
    for text in ["", "{", "{\"a\":}", "[1,]", "1 2", "nul", "{'a':1}"] {
        assert!(parse_str(text).is_none(), "{}", text);
        assert!(parse_slice(text.as_bytes()).is_none(), "{}", text);
    }
    assert!(parse_slice(&[0x22, 0xff, 0x22]).is_none());
}

#[test]
fn members_are_found_by_key() {
    let json = parse_slice(br#"{"a": 1, "b": {"c": [true, "x"]}, "a": 2}"#).expect("JSON");
    assert_eq!(json.get("a").and_then(|v| v.as_u64()), Some(2));
    assert!(json.get("c").is_none());
    let inner = json.get("b").and_then(|b| b.get("c")).expect("c");
    let items = inner.as_array().expect("array");
    assert_eq!(items.len(), 2);
    assert_eq!(items[1].as_str(), Some("x"));
    assert!(inner.get("a").is_none());
    assert_eq!(json.get_either("z", "a").and_then(|v| v.as_i64()), Some(2));
}

#[test]
fn later_member_counts() {
    let json = Json::Object(vec![
        ("k".to_string(), Json::Bool(false)),
        ("k".to_string(), Json::Text("later".to_string())),
    ]);
    assert_eq!(json.get("k").and_then(|v| v.as_str()), Some("later"));
}

#[test]
fn integers_by_range() {
    assert_eq!(read("18446744073709551615").as_u64(), Some(u64::MAX));
    assert_eq!(read("18446744073709551615").as_i64(), None);
    assert_eq!(read("9223372036854775807").as_i64(), Some(i64::MAX));
    assert_eq!(read("-9223372036854775808").as_i64(), Some(i64::MIN));
    assert_eq!(read("-1").as_u64(), None);
    assert_eq!(read("1.0").as_u64(), None);
    assert_eq!(read("1e3").as_i64(), None);
    assert_eq!(read("\"1\"").as_u64(), None);
}

#[test]
fn copies_hold_the_same() {
    let json = read(r#"{"a": [1, -2, 3.5, null, {"b": "c"}], "d": false}"#);
    assert_eq!(format!("{:?}", json.clone()), format!("{:?}", json));
}
