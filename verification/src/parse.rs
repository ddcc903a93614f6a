//! JSON text into [`Json`] values, through `serde_json`.

use crate::json::{lemma_map_of_last, map_of, Json, JsonNumber, JsonView, NumberView};
use crate::text::{decimal, signed_decimal};
use vstd::prelude::*;

verus! {

/// `serde_json::Value`, held without looking inside.
#[verifier::external_type_specification]
#[verifier::external_body]
pub struct ExValue(serde_json::Value);

/// `serde_json::Number`, held without looking inside.
#[verifier::external_type_specification]
#[verifier::external_body]
pub struct ExNumber(serde_json::Number);

/// `serde_json::Map`, held without looking inside.
#[verifier::external_type_specification]
#[verifier::external_body]
#[verifier::reject_recursive_types(K)]
#[verifier::reject_recursive_types(V)]
pub struct ExMap<K, V>(serde_json::Map<K, V>);

/// `serde_json::Error`, held without looking inside.
#[verifier::external_type_specification]
#[verifier::external_body]
pub struct ExError(serde_json::Error);

/// What a `serde_json::Value` holds.
pub uninterp spec fn value_json(value: serde_json::Value) -> JsonView;

/// What a `serde_json::Number` holds: an integer of zero or more that `u64` holds,
/// an integer below zero that `i64` holds, or any other number by its text.
pub uninterp spec fn number_json(number: serde_json::Number) -> NumberView;

/// What a `serde_json::Map` holds.
pub uninterp spec fn map_json(map: serde_json::Map<String, serde_json::Value>) -> Map<
    Seq<char>,
    JsonView,
>;

/// What `serde_json::from_slice` reads from `bytes` as a value; `None` where it fails.
pub uninterp spec fn slice_json(bytes: Seq<u8>) -> Option<JsonView>;

/// What `serde_json::from_str` reads from `text` as a value; `None` where it fails.
pub uninterp spec fn str_json(text: Seq<char>) -> Option<JsonView>;

/// `serde_json::from_slice`, asked for a `serde_json::Value`: the value that the
/// bytes hold, or the error where they are not one JSON text.
#[verifier::external_body]
fn from_slice(bytes: &[u8]) -> (result: Result<serde_json::Value, serde_json::Error>)
    ensures
        match slice_json(bytes@) {
            Some(json) => result is Ok && value_json(result->Ok_0) == json,
            None => result is Err,
        },
{
    serde_json::from_slice(bytes)
}

/// `serde_json::from_str`, asked for a `serde_json::Value`: the value that the
/// text holds, or the error where it is not one JSON text.
#[verifier::external_body]
fn from_str(text: &str) -> (result: Result<serde_json::Value, serde_json::Error>)
    ensures
        match str_json(text@) {
            Some(json) => result is Ok && value_json(result->Ok_0) == json,
            None => result is Err,
        },
{
    serde_json::from_str(text)
}

/// The variant of a `serde_json::Value` with its field.
enum Node<'a> {
    Null,
    Bool(bool),
    Number(&'a serde_json::Number),
    Text(&'a String),
    Array(&'a Vec<serde_json::Value>),
    Object(&'a serde_json::Map<String, serde_json::Value>),
}

impl<'a> Node<'a> {
    /// The content of the value whose variant this is.
    spec fn json(self) -> JsonView {
        match self {
            Node::Null => JsonView::Null,
            Node::Bool(b) => JsonView::Bool(b),
            Node::Number(number) => JsonView::Number(number_json(*number)),
            Node::Text(text) => JsonView::Text(text@),
            Node::Array(items) => JsonView::Array(
                items@.map_values(|item: serde_json::Value| value_json(item)),
            ),
            Node::Object(map) => JsonView::Object(map_json(*map)),
        }
    }
}

/// The variants of `serde_json::Value`: which one a value is, with its field.
#[verifier::external_body]
fn open_value(value: &serde_json::Value) -> (node: Node<'_>)
    ensures
        node.json() == value_json(*value),
{
    match value {
        serde_json::Value::Null => Node::Null,
        serde_json::Value::Bool(b) => Node::Bool(*b),
        serde_json::Value::Number(number) => Node::Number(number),
        serde_json::Value::String(text) => Node::Text(text),
        serde_json::Value::Array(items) => Node::Array(items),
        serde_json::Value::Object(map) => Node::Object(map),
    }
}

/// `serde_json::Number::as_u64`: the number, where it is an integer of zero or more.
pub assume_specification[ serde_json::Number::as_u64 ](number: &serde_json::Number) -> (result:
    Option<u64>)
    ensures
        result == match number_json(*number) {
            NumberView::PosInt(n) => Some(n),
            _ => None,
        },
;

/// `serde_json::Number::as_i64`: the number, where it is an integer that `i64` holds.
pub assume_specification[ serde_json::Number::as_i64 ](number: &serde_json::Number) -> (result:
    Option<i64>)
    ensures
        result == match number_json(*number) {
            NumberView::PosInt(n) if n <= i64::MAX => Some(n as i64),
            NumberView::NegInt(n) => Some(n),
            _ => None,
        },
;

/// `to_string` of a `serde_json::Number`: an integer in decimal, any other number
/// by its text.
#[verifier::external_body]
fn number_text(number: &serde_json::Number) -> (text: String)
    ensures
        text@ == match number_json(*number) {
            NumberView::PosInt(n) => decimal(n as nat),
            NumberView::NegInt(n) => signed_decimal(n as int),
            NumberView::Float(text) => text,
        },
{
    number.to_string()
}

/// The entries of a map, as pairs of key and content.
spec fn entry_pairs(entries: Seq<(&String, &serde_json::Value)>) -> Seq<(Seq<char>, JsonView)> {
    entries.map_values(|entry: (&String, &serde_json::Value)| (entry.0@, value_json(*entry.1)))
}

/// `serde_json::Map::iter`: every entry of the map, and no key twice.
#[verifier::external_body]
fn map_entries(map: &serde_json::Map<String, serde_json::Value>) -> (entries: Vec<
    (&String, &serde_json::Value),
>)
    ensures
        map_of(entry_pairs(entries@)) == map_json(*map),
        forall|i: int, j: int|
            0 <= i < j < entries@.len() ==> (#[trigger] entries@[i]).0@ != (
            #[trigger] entries@[j]).0@,
{
    map.iter().collect()
}

proof fn lemma_map_of_finite<V>(pairs: Seq<(Seq<char>, V)>)
    ensures
        map_of(pairs).dom().finite(),
    decreases pairs.len(),
{
    if pairs.len() > 0 {
        lemma_map_of_finite(pairs.drop_last());
    }
}

/// Copies what a `serde_json::Number` holds.
fn to_number(number: &serde_json::Number) -> (result: JsonNumber)
    ensures
        result@ == number_json(*number),
{
    if let Some(n) = number.as_u64() {
        JsonNumber::PosInt(n)
    } else if let Some(n) = number.as_i64() {
        JsonNumber::NegInt(n)
    } else {
        JsonNumber::Float(number_text(number))
    }
}

/// Copies what a `serde_json::Value` holds.
fn to_json(value: &serde_json::Value) -> (json: Json)
    ensures
        json@ == value_json(*value),
    decreases value_json(*value),
{
    match open_value(value) {
        Node::Null => Json::Null,
        Node::Bool(b) => Json::Bool(b),
        Node::Number(number) => Json::Number(to_number(number)),
        Node::Text(text) => Json::Text(text.clone()),
        Node::Array(items) => {
            let mut copies: Vec<Json> = Vec::new();
            for i in 0..items.len()
                invariant
                    value_json(*value) == JsonView::Array(
                        items@.map_values(|item: serde_json::Value| value_json(item)),
                    ),
                    copies@.len() == i,
                    forall|j: int| 0 <= j < i ==> (#[trigger] copies@[j])@ == value_json(items@[j]),
            {
                proof {
                    let contents = value_json(*value)->Array_0;
                    assert(contents[i as int] == value_json(items@[i as int]));
                    assert(decreases_to!(value_json(*value) => value_json(*value)->Array_0));
                    assert(decreases_to!(contents => contents[i as int]));
                }
                copies.push(to_json(&items[i]));
            }
            let json = Json::Array(copies);
            assert(json@->Array_0 =~= value_json(*value)->Array_0);
            json
        },
        Node::Object(map) => {
            let entries = map_entries(map);
            let ghost pairs = entry_pairs(entries@);
            let mut copies: Vec<(String, Json)> = Vec::new();
            for i in 0..entries.len()
                invariant
                    pairs == entry_pairs(entries@),
                    value_json(*value) == JsonView::Object(map_of(pairs)),
                    forall|i: int, j: int|
                        0 <= i < j < pairs.len() ==> (#[trigger] pairs[i]).0 != (
                        #[trigger] pairs[j]).0,
                    copies@.len() == i,
                    forall|j: int|
                        0 <= j < i ==> (#[trigger] copies@[j]).0@ == pairs[j].0 && copies@[j].1@
                            == pairs[j].1,
            {
                proof {
                    lemma_map_of_last(pairs, i as int);
                    lemma_map_of_finite(pairs);
                    let contents = map_of(pairs);
                    assert(decreases_to!(value_json(*value) => value_json(*value)->Object_0));
                    assert(decreases_to!(contents => contents[pairs[i as int].0]));
                }
                let entry = entries[i];
                copies.push((entry.0.clone(), to_json(entry.1)));
            }
            assert(Json::pairs(copies@) =~= pairs);
            Json::Object(copies)
        },
    }
}

/// Reads one JSON value from `bytes`.
pub fn parse_slice(bytes: &[u8]) -> (json: Option<Json>)
    ensures
        match slice_json(bytes@) {
            Some(content) => json is Some && json->0@ == content,
            None => json is None,
        },
{
    match from_slice(bytes) {
        Ok(value) => Some(to_json(&value)),
        Err(_) => None,
    }
}

/// Reads one JSON value from `text`.
pub fn parse_str(text: &str) -> (json: Option<Json>)
    ensures
        match str_json(text@) {
            Some(content) => json is Some && json->0@ == content,
            None => json is None,
        },
{
    match from_str(text) {
        Ok(value) => Some(to_json(&value)),
        Err(_) => None,
    }
}

} // verus!
