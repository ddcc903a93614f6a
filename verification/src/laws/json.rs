//! What holds of JSON values, and of the contents of what the library hands out.

use crate::address::{PeerAddr, PeerView};
use crate::answer::{CurrentStatus, CurrentView};
use crate::discovery::{service_views, text_views, ServiceInfo};
use crate::event::{json_views, opt_json};
use crate::fields::entry_pairs;
use crate::http::{header_views, opt_text, Header, RequestHead};
use crate::json::{
    content, lemma_map_of_absent, lemma_map_of_last, map_of, str_of, Json, JsonNumber, JsonView,
    NumberView,
};
use crate::status::{PtpStatus, StatusBoard};
use crate::subscription::Posting;
use vstd::prelude::*;

verus! {

/// A member that was put into an object is found under its key, the others stay as they
/// were, and one that was taken out is not found any more.
pub proof fn law_members(
    members: Map<Seq<char>, JsonView>,
    key: Seq<char>,
    value: JsonView,
    other: Seq<char>,
)
    ensures
        JsonView::Object(members.insert(key, value)).get(key) == Some(value),
        JsonView::Object(members.remove(key)).get(key) is None,
        key != other ==> JsonView::Object(members.insert(key, value)).get(other)
            == JsonView::Object(members).get(other),
        JsonView::Object(Map::empty()).get(key) is None,
{
}

/// What is no object has no members.
pub proof fn law_only_objects_have_members(value: JsonView, key: Seq<char>)
    ensures
        value.get(key) is Some ==> value is Object,
{
}

/// Of two keys the first counts where it is there, whatever its value, and the second
/// only where it is not.
pub proof fn law_either_member(value: JsonView, key: Seq<char>, other: Seq<char>)
    ensures
        value.get(key) is Some ==> value.get_either(key, other) == value.get(key),
        value.get(key) is None ==> value.get_either(key, other) == value.get(other),
{
}

/// A value of each kind is read as what it is and as nothing else.
pub proof fn law_kinds(value: JsonView, text: Seq<char>, items: Seq<JsonView>)
    ensures
        value.as_str() == Some(text) <==> value == JsonView::Text(text),
        value.as_array() == Some(items) <==> value == JsonView::Array(items),
        str_of(Some(value)) == value.as_str(),
        str_of(None) is None,
{
}

/// The integer that a value is; `None` where it is none.
pub open spec fn integer(value: JsonView) -> Option<int> {
    match value {
        JsonView::Number(NumberView::PosInt(n)) => Some(n as int),
        JsonView::Number(NumberView::NegInt(n)) => Some(n as int),
        _ => None,
    }
}

/// Every integer of zero or more reads as a `u64`, and every integer that fits as an
/// `i64`; both reads give the integer itself.
pub proof fn law_integers(value: JsonView)
    requires
        value matches JsonView::Number(NumberView::NegInt(n)) ==> n < 0,
    ensures
        value.as_u64() is Some <==> integer(value) is Some && integer(value)->0 >= 0,
        value.as_u64() is Some ==> value.as_u64()->0 == integer(value)->0,
        value.as_i64() is Some <==> integer(value) is Some && i64::MIN <= integer(value)->0
            <= i64::MAX,
        value.as_i64() is Some ==> value.as_i64()->0 == integer(value)->0,
{
}

/// The content of a value of one piece is that piece.
pub proof fn law_plain_content(b: bool, text: String, n: u64, m: i64, digits: String)
    ensures
        Json::Null@ == JsonView::Null,
        Json::Bool(b)@ == JsonView::Bool(b),
        Json::Text(text)@ == JsonView::Text(text@),
        Json::Number(JsonNumber::PosInt(n))@ == JsonView::Number(NumberView::PosInt(n)),
        Json::Number(JsonNumber::NegInt(m))@ == JsonView::Number(NumberView::NegInt(m)),
        Json::Number(JsonNumber::Float(digits))@ == JsonView::Number(NumberView::Float(digits@)),
{
}

/// The content of an array is the contents of all its items, in order.
pub proof fn law_array_content(items: Vec<Json>)
    ensures
        Json::Array(items)@ matches JsonView::Array(contents) && contents.len() == items@.len()
            && forall|i: int| 0 <= i < items@.len() ==> #[trigger] contents[i] == items@[i]@,
{
}

/// Under each key an object has the content of the last member with that key.
pub proof fn law_object_content(members: Vec<(String, Json)>, at: int)
    requires
        0 <= at < members@.len(),
        forall|i: int|
            at < i < members@.len() ==> (#[trigger] members@[i]).0@ != members@[at].0@,
    ensures
        Json::Object(members)@.get(members@[at].0@) == Some(members@[at].1@),
{
    let pairs = Json::pairs(members@);
    assert forall|i: int| at < i < pairs.len() implies (#[trigger] pairs[i]).0 != pairs[at].0 by {
        assert(members@[i].0@ != members@[at].0@);
    }
    lemma_map_of_last(pairs, at);
}

/// An object has nothing under a key that no member has.
pub proof fn law_object_has_no_more(members: Vec<(String, Json)>, key: Seq<char>)
    requires
        forall|i: int| 0 <= i < members@.len() ==> (#[trigger] members@[i]).0@ != key,
    ensures
        Json::Object(members)@ is Object,
        Json::Object(members)@.get(key) is None,
{
    let pairs = Json::pairs(members@);
    assert forall|i: int| 0 <= i < pairs.len() implies (#[trigger] pairs[i]).0 != key by {
        assert(members@[i].0@ != key);
    }
    lemma_map_of_absent(pairs, key);
}

/// Under each name fields have the content of the entry with that name, and no others.
pub proof fn law_field_content<V: View>(entries: Seq<(String, V)>, at: int, name: Seq<char>)
    requires
        0 <= at < entries.len(),
        forall|i: int| at < i < entries.len() ==> (#[trigger] entries[i]).0@ != entries[at].0@,
    ensures
        map_of(entry_pairs(entries)).dom().contains(entries[at].0@),
        map_of(entry_pairs(entries))[entries[at].0@] == entries[at].1@,
        (forall|i: int| 0 <= i < entries.len() ==> (#[trigger] entries[i]).0@ != name)
            ==> !map_of(entry_pairs(entries)).dom().contains(name),
{
    let pairs = entry_pairs(entries);
    assert forall|i: int| at < i < pairs.len() implies (#[trigger] pairs[i]).0 != pairs[at].0 by {
        assert(entries[i].0@ != entries[at].0@);
    }
    lemma_map_of_last(pairs, at);
    if forall|i: int| 0 <= i < entries.len() ==> (#[trigger] entries[i]).0@ != name {
        assert forall|i: int| 0 <= i < pairs.len() implies (#[trigger] pairs[i]).0 != name by {
            assert(entries[i].0@ != name);
        }
        lemma_map_of_absent(pairs, name);
    }
}

/// An optional text has the content of the text, and none where there is no text.
pub proof fn law_optional_text(text: Option<String>)
    ensures
        text is Some <==> opt_text(text) is Some,
        text is Some ==> opt_text(text)->0 == text->0@,
{
}

/// An optional value has the content of the value, and none where there is no value.
pub proof fn law_optional_json(json: Option<Json>)
    ensures
        json is Some <==> opt_json(json) is Some,
        json is Some ==> opt_json(json)->0 == json->0@,
{
}

/// A value that is referred to has its content, and there is none where there is no value.
pub proof fn law_referred_content<T: View>(value: Option<&T>)
    ensures
        value is Some <==> content(value) is Some,
        value is Some ==> content(value)->0 == value->0@,
{
}

/// Each field of a status has its own place in the content.
pub proof fn law_status_content(status: PtpStatus)
    ensures
        status@.timestamp == status.timestamp@,
        status@.os_clock_sync_state == opt_text(status.os_clock_sync_state),
        status@.lock_state == opt_text(status.lock_state),
        status@.clock_class == status.clock_class,
        status@.http_method == opt_text(status.http_method),
        status@.http_uri == opt_text(status.http_uri),
        status@.http_version == opt_text(status.http_version),
        status@.connection_line == opt_text(status.connection_line),
        status.request_headers is Some <==> status@.request_headers is Some,
        status.request_headers is Some ==> status@.request_headers->0
            == status.request_headers->0@,
        status@.request_body == opt_json(status.request_body),
        status@.additional == status.additional@,
{
}

/// Each part of a request head has its own place in the content; of the headers all are
/// there, in order.
pub proof fn law_head_content(head: RequestHead)
    ensures
        head@.method == head.method@,
        head@.uri == head.uri@,
        head@.version == head.version,
        head@.peer == head.peer@,
        head@.headers == header_views(head.headers@),
{
}

/// Of a list every item has its content, in order.
pub proof fn law_list_content(
    headers: Seq<Header>,
    services: Seq<ServiceInfo>,
    texts: Seq<String>,
    values: Seq<Json>,
)
    ensures
        header_views(headers).len() == headers.len(),
        forall|i: int|
            0 <= i < headers.len() ==> (#[trigger] header_views(headers)[i]).name
                == headers[i].name@ && header_views(headers)[i].value == opt_text(
                headers[i].value,
            ),
        service_views(services).len() == services.len(),
        forall|i: int|
            0 <= i < services.len() ==> (#[trigger] service_views(services)[i]).name
                == services[i].name@ && service_views(services)[i].cluster_ip == opt_text(
                services[i].cluster_ip,
            ),
        text_views(texts).len() == texts.len(),
        forall|i: int| 0 <= i < texts.len() ==> #[trigger] text_views(texts)[i] == texts[i]@,
        json_views(values).len() == values.len(),
        forall|i: int| 0 <= i < values.len() ==> #[trigger] json_views(values)[i] == values[i]@,
{
}

/// The content of a posting is its URL, its callback address and its resource address.
pub proof fn law_posting_content(posting: Posting)
    ensures
        posting@.url == posting.url@,
        posting@.endpoint_uri == posting.request.endpoint_uri@,
        posting@.resource_address == posting.request.resource_address@,
{
}

/// The content of a peer is its kind, the text of its address and its port.
pub proof fn law_peer_content(ip: String, port: u16)
    ensures
        (PeerAddr::V4 { ip, port })@ == (PeerView::V4 { ip: ip@, port }),
        (PeerAddr::V6 { ip, port })@ == (PeerView::V6 { ip: ip@, port }),
{
}

/// The content of the board is that of its last status, and none where there is none.
pub proof fn law_board_content(board: StatusBoard)
    ensures
        board.last is Some <==> board@ is Some,
        board.last is Some ==> board@->0 == board.last->0@,
{
}

/// The content of an answer to a question for the status is what the answer tells.
pub proof fn law_current_content(status: PtpStatus, notice: Json)
    ensures
        CurrentStatus::Status(status)@ == CurrentView::Status(status@),
        CurrentStatus::Notice(notice)@ == CurrentView::Notice(notice@),
{
}

} // verus!
