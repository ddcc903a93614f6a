//! What the service answers.

use crate::clock;
use crate::clock::is_utc_time;
use crate::http::{
    is_status, is_success, opt_text, reports_success, status_text, status_words, StatusCode,
};
use crate::json::{map_of, Json, JsonView};
use crate::parse::{parse_slice, slice_json};
use crate::status::{blank, PtpStatus, StatusBoard, StatusView};
use crate::subscription::{subscribe_failure, PostOutcome};
use vstd::prelude::*;

verus! {

/// The version of this package, as in `Cargo.toml`.
pub fn app_version() -> (version: &'static str)
    ensures
        version@ == "0.1.0"@,
{
    "0.1.0"
}

/// An object with one member.
pub open spec fn object1(key: Seq<char>, value: JsonView) -> JsonView {
    JsonView::Object(Map::empty().insert(key, value))
}

/// An object with two members.
pub open spec fn object2(
    key: Seq<char>,
    value: JsonView,
    other_key: Seq<char>,
    other_value: JsonView,
) -> JsonView {
    JsonView::Object(Map::empty().insert(key, value).insert(other_key, other_value))
}

/// An answer that reports `status` and says `message`.
pub open spec fn report(status: Seq<char>, message: Seq<char>) -> JsonView {
    object2("status"@, JsonView::Text(status), "message"@, JsonView::Text(message))
}

/// An answer that says `message` at `timestamp`.
pub open spec fn notice(timestamp: Seq<char>, message: Seq<char>) -> JsonView {
    object2("timestamp"@, JsonView::Text(timestamp), "message"@, JsonView::Text(message))
}

/// Whether `answer` says `message` at a time that the clock gave.
pub open spec fn is_notice(answer: JsonView, message: Seq<char>) -> bool {
    exists|now: Seq<char>|
        is_utc_time(now) && answer == #[trigger] notice(now, message)
}

fn make_object1(key: &str, value: Json) -> (result: Json)
    ensures
        result@ == object1(key@, value@),
{
    let mut members: Vec<(String, Json)> = Vec::new();
    members.push((key.to_owned(), value));
    proof {
        let pairs = Json::pairs(members@);
        assert(pairs.drop_last() =~= seq![]);
        assert(map_of(pairs.drop_last()) =~= Map::<Seq<char>, JsonView>::empty());
    }
    Json::Object(members)
}

fn make_object2(key: &str, value: Json, other_key: &str, other_value: Json) -> (result: Json)
    ensures
        result@ == object2(key@, value@, other_key@, other_value@),
{
    let mut members: Vec<(String, Json)> = Vec::new();
    members.push((key.to_owned(), value));
    members.push((other_key.to_owned(), other_value));
    proof {
        let pairs = Json::pairs(members@);
        let init = pairs.drop_last();
        assert(init.drop_last() =~= seq![]);
        assert(map_of(init.drop_last()) =~= Map::<Seq<char>, JsonView>::empty());
        assert(map_of(init) == map_of(init.drop_last()).insert(init.last().0, init.last().1));
    }
    Json::Object(members)
}

fn make_report(status: &str, message: String) -> (result: Json)
    ensures
        result@ == report(status@, message@),
{
    make_object2("status", Json::Text(status.to_owned()), "message", Json::Text(message))
}

/// An answer that says `message` at `timestamp`.
pub fn make_notice(timestamp: String, message: &str) -> (result: Json)
    ensures
        result@ == notice(timestamp@, message@),
{
    make_object2(
        "timestamp",
        Json::Text(timestamp),
        "message",
        Json::Text(message.to_owned()),
    )
}

/// An answer that says `message` now.
fn notice_now(message: &str) -> (result: Json)
    ensures
        is_notice(result@, message@),
{
    make_notice(clock::now(), message)
}

/// The answer to a question for the version.
pub fn get_version() -> (result: Json)
    ensures
        result@ == object1("version"@, JsonView::Text("0.1.0"@)),
{
    make_object1("version", Json::Text(app_version().to_owned()))
}

/// What a question for the current status is answered.
#[derive(Debug)]
pub enum CurrentStatus {
    /// The status that was broadcast last.
    Status(PtpStatus),
    /// A notice that there is none.
    Notice(Json),
}

/// The content of a [`CurrentStatus`].
pub enum CurrentView {
    Status(StatusView),
    Notice(JsonView),
}

impl View for CurrentStatus {
    type V = CurrentView;

    open spec fn view(&self) -> CurrentView {
        match self {
            CurrentStatus::Status(status) => CurrentView::Status(status@),
            CurrentStatus::Notice(notice) => CurrentView::Notice(notice@),
        }
    }
}

/// Whether `answer` tells the current status: the one on the board, and a notice
/// only as long as there is none.
pub open spec fn tells_current(board: Option<StatusView>, answer: CurrentView) -> bool {
    match board {
        Some(status) => answer == CurrentView::Status(status),
        None => answer matches CurrentView::Notice(notice) && is_notice(
            notice,
            "No status available yet"@,
        ),
    }
}

/// The answer to a question for the current status.
pub fn get_status(board: &StatusBoard) -> (answer: CurrentStatus)
    ensures
        tells_current(board@, answer@),
{
    match &board.last {
        Some(status) => CurrentStatus::Status(status.clone()),
        None => CurrentStatus::Notice(notice_now("No status available yet")),
    }
}

/// Whether `message` is what a listener is sent for an item of the channel: the
/// status itself, or a blank one of that moment where broadcasts were lost.
pub open spec fn passes_on(received: Option<StatusView>, message: StatusView) -> bool {
    match received {
        Some(status) => message == status,
        None => message == blank(message.timestamp) && is_utc_time(message.timestamp),
    }
}

/// What a listener is sent for the next item of the channel; `None` stands for
/// lost broadcasts.
pub fn sse_message(received: Option<PtpStatus>) -> (message: PtpStatus)
    ensures
        passes_on(
            match received {
                Some(status) => Some(status@),
                None => None,
            },
            message@,
        ),
{
    match received {
        Some(status) => status,
        None => PtpStatus::blank(clock::now()),
    }
}

/// How the publisher answered a question for its subscriptions.
#[derive(Debug, PartialEq, Eq)]
pub enum ListOutcome {
    /// There was no answer.
    Unreachable,
    /// The answer reports a failure by its status.
    Refused { status: u16 },
    /// The answer reports success. The body is `None` where it could not be read.
    Answered { body: Option<Vec<u8>> },
}

/// What an answer to a question for the subscriptions comes to.
pub open spec fn listed_as(status: u16, body: Option<Vec<u8>>) -> ListOutcome {
    if reports_success(status) {
        ListOutcome::Answered { body }
    } else {
        ListOutcome::Refused { status }
    }
}

/// What an answer to a question for the subscriptions comes to, by its status and
/// its body.
pub fn list_outcome(status: u16, body: Option<Vec<u8>>) -> (outcome: ListOutcome)
    ensures
        outcome == listed_as(status, body),
{
    if is_success(status) {
        ListOutcome::Answered { body }
    } else {
        ListOutcome::Refused { status }
    }
}

/// The subscriptions in the answer of a publisher: the items of an array, none
/// for null, and any other value as the only one.
pub open spec fn subscriptions(answer: JsonView) -> Seq<JsonView> {
    match answer {
        JsonView::Array(items) => items,
        JsonView::Null => seq![],
        other => seq![other],
    }
}

/// The answer that lists `answer` as subscriptions.
pub open spec fn listing(answer: JsonView) -> JsonView {
    object2(
        "status"@,
        JsonView::Text("success"@),
        "subscriptions"@,
        JsonView::Array(subscriptions(answer)),
    )
}

/// The answer that lists what the publisher answered.
pub fn make_listing(answer: Json) -> (result: Json)
    ensures
        result@ == listing(answer@),
{
    let items = match answer {
        Json::Array(items) => items,
        Json::Null => Vec::new(),
        other => vec![other],
    };
    let array = Json::Array(items);
    assert(array@->Array_0 =~= subscriptions(answer@));
    make_object2("status", Json::Text("success".to_owned()), "subscriptions", array)
}

/// The answer where the publisher refused to list, with its status in words.
pub open spec fn list_refused(words: Seq<char>) -> JsonView {
    report("error"@, "Failed to list subscriptions: "@ + words)
}

/// The answer where the publisher refused to list, with its status in words.
pub fn list_refusal(words: &str) -> (result: Json)
    ensures
        result@ == list_refused(words@),
{
    let mut message = "Failed to list subscriptions: ".to_owned();
    message.append(words);
    make_report("error", message)
}

/// An answer with its body, or the status that takes its place.
pub open spec fn answered(result: Result<Json, StatusCode>) -> Result<JsonView, StatusCode> {
    match result {
        Ok(json) => Ok(json@),
        Err(code) => Err(code),
    }
}

/// What a question for the subscriptions is answered. A number that is no status
/// counts as no answer of the publisher.
pub open spec fn list_answer(outcome: ListOutcome) -> Result<JsonView, StatusCode> {
    match outcome {
        ListOutcome::Unreachable => Err(StatusCode::InternalServerError),
        ListOutcome::Refused { status } => if is_status(status) {
            Ok(list_refused(status_text(status)))
        } else {
            Err(StatusCode::InternalServerError)
        },
        ListOutcome::Answered { body } => if body is Some && slice_json(body->0@) is Some {
            Ok(listing(slice_json(body->0@)->0))
        } else {
            Err(StatusCode::InternalServerError)
        },
    }
}

/// The answer to a question for the subscriptions. A number that is no status
/// counts as no answer.
pub fn list_subscriptions(outcome: ListOutcome) -> (result: Result<Json, StatusCode>)
    ensures
        answered(result) == list_answer(outcome),
{
    match outcome {
        ListOutcome::Unreachable => Err(StatusCode::InternalServerError),
        ListOutcome::Refused { status } => match status_words(status) {
            Some(words) => Ok(list_refusal(words.as_str())),
            None => Err(StatusCode::InternalServerError),
        },
        ListOutcome::Answered { body: Some(bytes) } => match parse_slice(bytes.as_slice()) {
            Some(answer) => Ok(make_listing(answer)),
            None => Err(StatusCode::InternalServerError),
        },
        ListOutcome::Answered { body: None } => Err(StatusCode::InternalServerError),
    }
}

/// How the publisher answered a request to end a subscription.
#[derive(Debug, PartialEq, Eq)]
pub enum DeleteOutcome {
    /// There was no answer.
    Unreachable,
    /// The answer reports a failure by its status.
    Refused { status: u16, body: String },
    /// The answer reports success.
    Deleted,
}

/// What an answer to a request to end a subscription comes to.
pub open spec fn deleted_as(status: u16, body: String) -> DeleteOutcome {
    if reports_success(status) {
        DeleteOutcome::Deleted
    } else {
        DeleteOutcome::Refused { status, body }
    }
}

/// What an answer to a request to end a subscription comes to, by its status and
/// its body.
pub fn delete_outcome(status: u16, body: String) -> (outcome: DeleteOutcome)
    ensures
        outcome == deleted_as(status, body),
{
    if is_success(status) {
        DeleteOutcome::Deleted
    } else {
        DeleteOutcome::Refused { status, body }
    }
}

/// The answer where the publisher refused to end a subscription, with its status in
/// words and its body.
pub open spec fn delete_refused(words: Seq<char>, body: Seq<char>) -> JsonView {
    report("error"@, "Failed to unsubscribe: "@ + words + " - "@ + body)
}

/// The answer where the publisher refused to end a subscription, with its status in
/// words and its body.
pub fn delete_refusal(words: &str, body: &str) -> (result: Json)
    ensures
        result@ == delete_refused(words@, body@),
{
    let mut message = "Failed to unsubscribe: ".to_owned();
    message.append(words);
    message.append(" - ");
    message.append(body);
    make_report("error", message)
}

/// What a request to end the subscription `id` is answered. A number that is no status
/// counts as no answer of the publisher.
pub open spec fn delete_answer(id: Seq<char>, outcome: DeleteOutcome) -> Result<
    JsonView,
    StatusCode,
> {
    match outcome {
        DeleteOutcome::Unreachable => Err(StatusCode::InternalServerError),
        DeleteOutcome::Refused { status, body } => if is_status(status) {
            Ok(delete_refused(status_text(status), body@))
        } else {
            Err(StatusCode::InternalServerError)
        },
        DeleteOutcome::Deleted => Ok(
            report("success"@, "Successfully unsubscribed from "@ + id),
        ),
    }
}

/// The answer to a request to end the subscription `id`. A number that is no status
/// counts as no answer.
pub fn unsubscribe(id: &str, outcome: DeleteOutcome) -> (result: Result<Json, StatusCode>)
    ensures
        answered(result) == delete_answer(id@, outcome),
{
    match outcome {
        DeleteOutcome::Unreachable => Err(StatusCode::InternalServerError),
        DeleteOutcome::Refused { status, body } => match status_words(status) {
            Some(words) => Ok(delete_refusal(words.as_str(), body.as_str())),
            None => Err(StatusCode::InternalServerError),
        },
        DeleteOutcome::Deleted => {
            let mut message = "Successfully unsubscribed from ".to_owned();
            message.append(id);
            Ok(make_report("success", message))
        },
    }
}

/// What a request to subscribe again is answered; `failure` says what went wrong.
pub open spec fn resubscription(failure: Option<Seq<char>>) -> JsonView {
    match failure {
        None => report("success"@, "Successfully resubscribed to PTP events"@),
        Some(error) => report("error"@, "Failed to resubscribe: "@ + error),
    }
}

/// The answer to a request to subscribe again, whatever became of the postings: one
/// that fails is passed over.
pub fn resubscribe_events(outcomes: &Vec<PostOutcome>) -> (result: Json)
    ensures
        result@ == resubscription(None),
{
    resubscribe_answer(subscribe_failure(outcomes))
}

/// The answer to a request to subscribe again; `failure` says what went wrong.
pub fn resubscribe_answer(failure: Option<String>) -> (result: Json)
    ensures
        result@ == resubscription(opt_text(failure)),
{
    match failure {
        None => make_report("success", "Successfully resubscribed to PTP events".to_owned()),
        Some(error) => {
            let mut message = "Failed to resubscribe: ".to_owned();
            message.append(error.as_str());
            make_report("error", message)
        },
    }
}

} // verus!
