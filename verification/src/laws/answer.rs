//! What holds of the answers of the service.

use crate::answer::{
    delete_answer, delete_refused, deleted_as, is_notice, list_answer, list_refused, listed_as,
    listing, notice, object1, passes_on, report, resubscription, tells_current, CurrentView,
    DeleteOutcome, ListOutcome,
};
use crate::clock::is_utc_time;
use crate::discovery::{
    listed, own_namespace, publisher_namespace, text_views, told_node, DiscoveryError, Environment,
};
use crate::http::{is_status, status_text, StatusCode};
use crate::json::JsonView;
use crate::laws::cluster::lemma_same_middle;
use crate::laws::http::law_success_begins_with_two;
use crate::parse::slice_json;
use crate::status::StatusView;
use crate::subscription::{posted_as, PostOutcome};
use crate::text::decimal;
use vstd::prelude::*;

verus! {

proof fn lemma_keys_differ()
    ensures
        "status"@ != "message"@,
        "status"@ != "subscriptions"@,
        "timestamp"@ != "message"@,
{
    reveal_strlit("status");
    reveal_strlit("message");
    reveal_strlit("subscriptions");
    reveal_strlit("timestamp");
    assert("status"@.len() != "message"@.len());
    assert("status"@.len() != "subscriptions"@.len());
    assert("timestamp"@.len() != "message"@.len());
}

/// A report has the status and the message that it was made with, whole, and nothing
/// else.
pub proof fn law_report(status: Seq<char>, message: Seq<char>, key: Seq<char>)
    ensures
        report(status, message).get("status"@) == Some(JsonView::Text(status)),
        report(status, message).get("message"@) == Some(JsonView::Text(message)),
        key != "status"@ && key != "message"@ ==> report(status, message).get(key) is None,
        report(status, message) is Object,
{
    lemma_keys_differ();
}

/// A notice has the time and the message that it was made with, whole, and nothing else.
pub proof fn law_notice(timestamp: Seq<char>, message: Seq<char>, key: Seq<char>)
    ensures
        notice(timestamp, message).get("timestamp"@) == Some(JsonView::Text(timestamp)),
        notice(timestamp, message).get("message"@) == Some(JsonView::Text(message)),
        key != "timestamp"@ && key != "message"@ ==> notice(timestamp, message).get(key) is None,
        notice(timestamp, message) is Object,
{
    lemma_keys_differ();
}

/// An answer with one member has that one, whole, and nothing else.
pub proof fn law_single_member(key: Seq<char>, value: JsonView, other: Seq<char>)
    ensures
        object1(key, value).get(key) == Some(value),
        key != other ==> object1(key, value).get(other) is None,
        object1(key, value) is Object,
{
}

/// Every array that the publisher answers is listed in full: as many items, and at each
/// place the same one.
pub proof fn law_listing_keeps_every_item(items: Seq<JsonView>)
    ensures
        listing(JsonView::Array(items)).get("subscriptions"@) matches Some(JsonView::Array(shown))
            && shown.len() == items.len() && forall|i: int|
            0 <= i < items.len() ==> #[trigger] shown[i] == items[i],
{
    lemma_keys_differ();
}

/// Two arrays that the publisher answers are two lists.
pub proof fn law_listings_differ(items: Seq<JsonView>, others: Seq<JsonView>)
    requires
        items != others,
    ensures
        listing(JsonView::Array(items)) != listing(JsonView::Array(others)),
{
    law_listing_keeps_every_item(items);
    law_listing_keeps_every_item(others);
    if listing(JsonView::Array(items)) == listing(JsonView::Array(others)) {
        let shown = listing(JsonView::Array(items)).get("subscriptions"@)->0->Array_0;
        assert(shown =~= items);
        assert(shown =~= others);
    }
}

/// An answer of null is listed as no items, and any other that is no array as one item,
/// itself.
pub proof fn law_listing_of_one(answer: JsonView)
    requires
        !(answer is Array),
    ensures
        listing(answer).get("subscriptions"@) matches Some(JsonView::Array(shown)) && if answer
            is Null {
            shown.len() == 0
        } else {
            shown.len() == 1 && shown[0] == answer
        },
{
    lemma_keys_differ();
}

/// A list reports success, and has nothing but that and the items.
pub proof fn law_listing_succeeds(answer: JsonView, key: Seq<char>)
    ensures
        listing(answer) is Object,
        listing(answer).get("status"@) == Some(JsonView::Text("success"@)),
        key != "status"@ && key != "subscriptions"@ ==> listing(answer).get(key) is None,
{
    lemma_keys_differ();
}

/// Where the publisher refuses to list, the answer reports an error with what the
/// publisher said, whole. Two refusals have two answers.
pub proof fn law_list_refusal_tells_why(words: Seq<char>, other: Seq<char>)
    ensures
        list_refused(words).get("status"@) == Some(JsonView::Text("error"@)),
        list_refused(words).get("message"@) == Some(
            JsonView::Text("Failed to list subscriptions: "@ + words),
        ),
        words != other ==> list_refused(words) != list_refused(other),
{
    law_report("error"@, "Failed to list subscriptions: "@ + words, seq![]);
    law_report("error"@, "Failed to list subscriptions: "@ + other, seq![]);
    if list_refused(words) == list_refused(other) {
        let start = "Failed to list subscriptions: "@;
        assert(start + words == start + other);
        assert(start + words + seq![] =~= start + other + seq![]);
        lemma_same_middle(start, words, other, seq![]);
    }
}

/// Where the publisher refuses to end a subscription, the answer reports an error with
/// the status and the body of the publisher's answer, both whole.
pub proof fn law_delete_refusal_tells_why(
    words: Seq<char>,
    body: Seq<char>,
    other_words: Seq<char>,
    other_body: Seq<char>,
)
    ensures
        delete_refused(words, body).get("status"@) == Some(JsonView::Text("error"@)),
        delete_refused(words, body).get("message"@) == Some(
            JsonView::Text("Failed to unsubscribe: "@ + words + " - "@ + body),
        ),
        body != other_body ==> delete_refused(words, body) != delete_refused(words, other_body),
        words != other_words ==> delete_refused(words, body) != delete_refused(other_words, body),
{
    let start = "Failed to unsubscribe: "@;
    law_report("error"@, start + words + " - "@ + body, seq![]);
    law_report("error"@, start + words + " - "@ + other_body, seq![]);
    law_report("error"@, start + other_words + " - "@ + body, seq![]);
    if delete_refused(words, body) == delete_refused(words, other_body) {
        assert(start + words + " - "@ + body == start + words + " - "@ + other_body);
        assert(start + words + " - "@ + body + seq![] =~= start + words + " - "@ + other_body
            + seq![]);
        lemma_same_middle(start + words + " - "@, body, other_body, seq![]);
    }
    if delete_refused(words, body) == delete_refused(other_words, body) {
        assert(start + words + (" - "@ + body) =~= start + words + " - "@ + body);
        assert(start + other_words + (" - "@ + body) =~= start + other_words + " - "@ + body);
        lemma_same_middle(start, words, other_words, " - "@ + body);
    }
}

/// A subscription that was ended is confirmed by its whole id. Two ids are confirmed by
/// two answers.
pub proof fn law_deletion_is_confirmed(id: Seq<char>, other: Seq<char>)
    ensures
        delete_answer(id, DeleteOutcome::Deleted) matches Ok(answer) && answer.get("status"@)
            == Some(JsonView::Text("success"@)) && answer.get("message"@) == Some(
            JsonView::Text("Successfully unsubscribed from "@ + id),
        ),
        id != other ==> delete_answer(id, DeleteOutcome::Deleted) != delete_answer(
            other,
            DeleteOutcome::Deleted,
        ),
{
    let start = "Successfully unsubscribed from "@;
    law_report("success"@, start + id, seq![]);
    law_report("success"@, start + other, seq![]);
    if delete_answer(id, DeleteOutcome::Deleted) == delete_answer(other, DeleteOutcome::Deleted) {
        assert(start + id == start + other);
        assert(start + id + seq![] =~= start + other + seq![]);
        lemma_same_middle(start, id, other, seq![]);
    }
}

/// A request to end a subscription that the publisher refuses is answered with the
/// refusal, whatever the id, and one that gets no answer with an internal error.
pub proof fn law_deletion_is_refused(id: Seq<char>, status: u16, body: String)
    ensures
        is_status(status) ==> delete_answer(id, DeleteOutcome::Refused { status, body }) == Ok::<
            JsonView,
            StatusCode,
        >(delete_refused(status_text(status), body@)),
        !is_status(status) ==> delete_answer(id, DeleteOutcome::Refused { status, body }) == Err::<
            JsonView,
            StatusCode,
        >(StatusCode::InternalServerError),
        delete_answer(id, DeleteOutcome::Unreachable) == Err::<JsonView, StatusCode>(
            StatusCode::InternalServerError,
        ),
{
}

/// A question for the subscriptions is answered with the list exactly where the publisher
/// answered with JSON, and with its refusal where it refused. All else is an internal
/// error.
pub proof fn law_list_is_answered(status: u16, body: Vec<u8>)
    ensures
        slice_json(body@) is Some ==> list_answer(ListOutcome::Answered { body: Some(body) })
            == Ok::<JsonView, StatusCode>(listing(slice_json(body@)->0)),
        slice_json(body@) is None ==> list_answer(ListOutcome::Answered { body: Some(body) })
            == Err::<JsonView, StatusCode>(StatusCode::InternalServerError),
        list_answer(ListOutcome::Answered { body: None }) == Err::<JsonView, StatusCode>(
            StatusCode::InternalServerError,
        ),
        is_status(status) ==> list_answer(ListOutcome::Refused { status }) == Ok::<
            JsonView,
            StatusCode,
        >(list_refused(status_text(status))),
        !is_status(status) ==> list_answer(ListOutcome::Refused { status }) == Err::<
            JsonView,
            StatusCode,
        >(StatusCode::InternalServerError),
        list_answer(ListOutcome::Unreachable) == Err::<JsonView, StatusCode>(
            StatusCode::InternalServerError,
        ),
{
}

/// An answer of the publisher counts as a success exactly where its status has three
/// digits, the first of which is two. Of a success the whole body is kept, of a refusal
/// the status.
pub proof fn law_outcomes(status: u16, bytes: Option<Vec<u8>>, body: String)
    ensures
        ({
            let success = decimal(status as nat).len() == 3 && decimal(status as nat).first()
                == '2';
            &&& success ==> listed_as(status, bytes) == (ListOutcome::Answered { body: bytes })
            &&& !success ==> listed_as(status, bytes) == (ListOutcome::Refused { status })
            &&& success ==> deleted_as(status, body) == DeleteOutcome::Deleted
            &&& !success ==> deleted_as(status, body) == (DeleteOutcome::Refused { status, body })
            &&& success ==> posted_as(Some(status)) == PostOutcome::Accepted
            &&& !success ==> posted_as(Some(status)) == PostOutcome::Refused
            &&& posted_as(None) == PostOutcome::Unsent
        }),
{
    law_success_begins_with_two(status);
}

/// To subscribe again is reported as a success without a failure, and else as an error
/// with the failure, whole.
pub proof fn law_resubscription(failure: Seq<char>, other: Seq<char>)
    ensures
        resubscription(None).get("status"@) == Some(JsonView::Text("success"@)),
        resubscription(None).get("message"@) == Some(
            JsonView::Text("Successfully resubscribed to PTP events"@),
        ),
        resubscription(Some(failure)).get("status"@) == Some(JsonView::Text("error"@)),
        resubscription(Some(failure)).get("message"@) == Some(
            JsonView::Text("Failed to resubscribe: "@ + failure),
        ),
        failure != other ==> resubscription(Some(failure)) != resubscription(Some(other)),
{
    let start = "Failed to resubscribe: "@;
    law_report("success"@, "Successfully resubscribed to PTP events"@, seq![]);
    law_report("error"@, start + failure, seq![]);
    law_report("error"@, start + other, seq![]);
    if resubscription(Some(failure)) == resubscription(Some(other)) {
        assert(start + failure == start + other);
        assert(start + failure + seq![] =~= start + other + seq![]);
        lemma_same_middle(start, failure, other, seq![]);
    }
}

/// What the environment sets is used as it is, and each default only where the variable
/// is not set. Each of the three is told by its own variable alone.
pub proof fn law_environment(environment: Environment)
    ensures
        environment.node_name is Some ==> told_node(environment) == environment.node_name->0@,
        environment.node_name is None ==> told_node(environment) == "unknown"@,
        environment.ptp_namespace is Some ==> publisher_namespace(environment)
            == environment.ptp_namespace->0@,
        environment.ptp_namespace is None ==> publisher_namespace(environment)
            == "openshift-ptp"@,
        environment.pod_namespace is Some ==> own_namespace(environment)
            == environment.pod_namespace->0@,
        environment.pod_namespace is None ==> own_namespace(environment) == "ptp-consumer"@,
{
}

/// An error names the namespace in full and, where the publisher is missing, every
/// service that there is. Two namespaces have two errors.
pub proof fn law_discovery_error_in_words(
    namespace: String,
    other: String,
    available: Vec<String>,
)
    ensures
        (DiscoveryError::NoConsumer { namespace }).in_words()
            == "ptp-fast-event-consumer service not found in namespace "@ + namespace@,
        (DiscoveryError::NoPublisher { namespace, available }).in_words()
            == "PTP event publisher service not found in namespace "@ + namespace@
            + ". Available services: "@ + listed(text_views(available@)),
        namespace@ != other@ ==> (DiscoveryError::NoConsumer { namespace }).in_words() != (
        DiscoveryError::NoConsumer { namespace: other }).in_words(),
        namespace@ != other@ ==> (DiscoveryError::NoPublisher { namespace, available }).in_words()
            != (DiscoveryError::NoPublisher { namespace: other, available }).in_words(),
{
    let start = "ptp-fast-event-consumer service not found in namespace "@;
    if start + namespace@ == start + other@ {
        assert(start + namespace@ + seq![] =~= start + other@ + seq![]);
        lemma_same_middle(start, namespace@, other@, seq![]);
    }
    let start = "PTP event publisher service not found in namespace "@;
    let end = ". Available services: "@ + listed(text_views(available@));
    assert(start + namespace@ + end =~= start + namespace@ + ". Available services: "@ + listed(
        text_views(available@),
    ));
    assert(start + other@ + end =~= start + other@ + ". Available services: "@ + listed(
        text_views(available@),
    ));
    if start + namespace@ + end == start + other@ + end {
        lemma_same_middle(start, namespace@, other@, end);
    }
}

/// Before the first broadcast a question for the status is answered with the time of the
/// answer and the message that there is no status, and nothing else.
pub proof fn law_no_status_yet(answer: CurrentView, key: Seq<char>)
    requires
        tells_current(None, answer),
    ensures
        answer matches CurrentView::Notice(notice) && {
            &&& notice.get("message"@) == Some(JsonView::Text("No status available yet"@))
            &&& notice.get("timestamp"@) matches Some(JsonView::Text(now)) && is_utc_time(now)
            &&& key != "timestamp"@ && key != "message"@ ==> notice.get(key) is None
        },
{
    lemma_keys_differ();
    let body = answer->Notice_0;
    let message = "No status available yet"@;
    assert(is_notice(body, message));
    let now = choose|now: Seq<char>| is_utc_time(now) && body == #[trigger] notice(now, message);
    law_notice(now, message, key);
}

/// Where there was a broadcast, a question for the status is answered with the whole of it.
pub proof fn law_last_broadcast_is_the_status(status: StatusView, answer: CurrentView)
    requires
        tells_current(Some(status), answer),
    ensures
        answer == CurrentView::Status(status),
{
}

/// A listener that lost broadcasts is sent the time and nothing of the clocks or of a
/// request. One that lost none is sent the whole status.
pub proof fn law_lost_broadcasts(status: StatusView, message: StatusView)
    ensures
        passes_on(Some(status), message) <==> message == status,
        passes_on(None, message) ==> {
            &&& is_utc_time(message.timestamp)
            &&& message.os_clock_sync_state is None
            &&& message.lock_state is None
            &&& message.clock_class is None
            &&& message.http_method is None
            &&& message.http_uri is None
            &&& message.http_version is None
            &&& message.connection_line is None
            &&& message.request_headers is None
            &&& message.request_body is None
            &&& message.additional =~= Map::empty()
        },
{
}

} // verus!
