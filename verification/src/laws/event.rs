//! What holds of events and of the statuses that they tell.

use crate::clock::is_utc_time;
use crate::event::{
    by_address, comes_of, data_values, entry_number, event_data, event_type, happened_at,
    is_clock_class, is_enumeration, is_metric, last_clock_class, last_metric, last_state,
    metric_text, reported_state, resource_address, stated_time, told,
};
use crate::http::{connection, legible, HeadView};
use crate::json::{str_of, JsonView, NumberView};
use crate::laws::text::{law_occurrence_is_a_split, law_occurrence_splits};
use crate::laws::{law_addressed_entries_are_kept, law_kept_entries_were_reported};
use crate::parse::str_json;
use crate::status::StatusView;
use crate::text::{
    decimal, occurs_in, same_ignoring_ascii_case, signed_decimal, trimmed, u64_of,
};
use vstd::prelude::*;

verus! {

/// Whether a value has `text` under `key`, or under `other` where `key` is not there.
pub open spec fn labelled(
    value: JsonView,
    key: Seq<char>,
    other: Seq<char>,
    text: Seq<char>,
) -> bool {
    ||| value.get(key) == Some(JsonView::Text(text))
    ||| value.get(key) is None && value.get(other) == Some(JsonView::Text(text))
}

/// Whether a value type is that of a state: `enumeration`, in letters of either case.
pub open spec fn names_state(kind: Seq<char>) -> bool {
    same_ignoring_ascii_case(kind, "enumeration"@)
}

/// Whether an entry carries a state.
pub open spec fn carries_state(entry: JsonView) -> bool {
    exists|kind: Seq<char>|
        labelled(entry, "value_type"@, "valueType"@, kind) && #[trigger] names_state(kind)
}

/// Whether an entry carries a number: its value type begins with `decimal` or `integer`.
pub open spec fn carries_number(entry: JsonView) -> bool {
    ||| exists|bits: Seq<char>|
        labelled(entry, "value_type"@, "valueType"@, #[trigger] ("decimal"@ + bits))
    ||| exists|bits: Seq<char>|
        labelled(entry, "value_type"@, "valueType"@, #[trigger] ("integer"@ + bits))
}

/// Whether an entry carries a metric: it has a value, is no state, and is a number or
/// has the data type `metric`.
pub open spec fn carries_metric(entry: JsonView) -> bool {
    &&& !carries_state(entry)
    &&& entry.get("value"@) is Some
    &&& carries_number(entry) || labelled(entry, "data_type"@, "dataType"@, "metric"@)
}

/// Whether a value is shown as `text`: a text as itself, an integer in decimal.
pub open spec fn shows(value: JsonView, text: Seq<char>) -> bool {
    match value {
        JsonView::Text(inner) => text == inner,
        JsonView::Number(NumberView::PosInt(n)) => text == decimal(n as nat),
        JsonView::Number(NumberView::NegInt(n)) => text == signed_decimal(n as int),
        _ => false,
    }
}

/// Whether a value is shown at all.
pub open spec fn is_shown(value: JsonView) -> bool {
    value is Text || (value is Number && !(value->Number_0 is Float))
}

/// Whether the entry at `at` is the last one that passes `wanted`.
pub open spec fn is_last(
    values: Seq<JsonView>,
    at: int,
    wanted: spec_fn(JsonView) -> bool,
) -> bool {
    &&& 0 <= at < values.len()
    &&& wanted(values[at])
    &&& forall|i: int| at < i < values.len() ==> !wanted(#[trigger] values[i])
}

/// Whether no entry passes `wanted`.
pub open spec fn is_none(values: Seq<JsonView>, wanted: spec_fn(JsonView) -> bool) -> bool {
    forall|i: int| 0 <= i < values.len() ==> !wanted(#[trigger] values[i])
}

/// The entries that carry a state.
pub open spec fn of_states() -> spec_fn(JsonView) -> bool {
    |entry: JsonView| carries_state(entry)
}

/// The entries that carry a metric.
pub open spec fn of_metrics() -> spec_fn(JsonView) -> bool {
    |entry: JsonView| carries_metric(entry)
}

/// Whether the data of an event has these entries: an array under `values`, or under
/// `Values` where there are no `values`.
pub open spec fn has_values(data: Option<JsonView>, values: Seq<JsonView>) -> bool {
    &&& data is Some
    &&& {
        ||| data->0.get("values"@) == Some(JsonView::Array(values))
        ||| data->0.get("values"@) is None && data->0.get("Values"@) == Some(
            JsonView::Array(values),
        )
    }
}

/// Whether an event has this type, whatever white space is around it.
pub open spec fn has_type(payload: JsonView, kind: Seq<char>) -> bool {
    exists|text: Seq<char>|
        payload.get("type"@) == Some(JsonView::Text(text)) && #[trigger] trimmed(text) == kind
}

/// The time of an event is the text under `time`, and the one under `timestamp` only
/// where there is no `time`. A value that is no text states no time.
pub proof fn law_stated_time(payload: JsonView, text: Seq<char>)
    ensures
        stated_time(payload) == Some(text) <==> labelled(
            payload,
            "time"@,
            "timestamp"@,
            text,
        ),
{
}

/// An event happened at the time that it states, as it states it. Only where it states
/// none it happened at a time that the clock gave.
pub proof fn law_event_time(payload: JsonView, text: Seq<char>, timestamp: Seq<char>)
    requires
        happened_at(payload, timestamp),
    ensures
        labelled(payload, "time"@, "timestamp"@, text) ==> timestamp == text,
        (forall|time: Seq<char>| !#[trigger] labelled(payload, "time"@, "timestamp"@, time))
            ==> is_utc_time(timestamp),
{
    if let Some(time) = stated_time(payload) {
        assert(labelled(payload, "time"@, "timestamp"@, time));
    }
}

/// The type of an event is the text under `type` without the white space around it. An
/// event without such a text has the empty type.
pub proof fn law_event_type(payload: JsonView)
    ensures
        forall|text: Seq<char>|
            payload.get("type"@) == Some(JsonView::Text(text)) ==> event_type(payload)
                == #[trigger] trimmed(text),
        payload.get("type"@) is None || !(payload.get("type"@)->0 is Text) ==> event_type(
            payload,
        ).len() == 0,
{
    reveal_strlit("");
    assert(trimmed(""@).len() == 0);
    if let Some(JsonView::Text(text)) = payload.get("type"@) {
        assert(payload.get("type"@) == Some(JsonView::Text(text)));
    }
}

/// The data of an event is the object under `data`, or what the text there parses to.
/// Nothing else under it is data.
pub proof fn law_event_data(payload: JsonView, text: Seq<char>, members: Map<Seq<char>, JsonView>)
    ensures
        payload.get("data"@) == Some(JsonView::Object(members)) ==> event_data(payload)
            == payload.get("data"@),
        payload.get("data"@) == Some(JsonView::Text(text)) ==> event_data(payload) == str_json(
            text,
        ),
        payload.get("data"@) is None ==> event_data(payload) is None,
        payload.get("data"@) matches Some(value) && !(value is Object) && !(value is Text)
            ==> event_data(payload) is None,
{
}

/// The entries of the data are the array under `values`, all of them and in order, or
/// else the one under `Values`.
pub proof fn law_data_values(data: Option<JsonView>, values: Seq<JsonView>)
    ensures
        data_values(data) == Some(values) <==> has_values(data, values),
{
}

/// Which entries carry a state, and which a metric.
pub proof fn law_entries(entry: JsonView)
    ensures
        is_enumeration(entry) <==> carries_state(entry),
        !is_enumeration(entry) && is_metric(entry) <==> carries_metric(entry),
{
    let kind = entry.get_either("value_type"@, "valueType"@);
    if let Some(JsonView::Text(text)) = kind {
        assert(labelled(entry, "value_type"@, "valueType"@, text));
        assert(names_state(text) == is_enumeration(entry));
        if "decimal"@.is_prefix_of(text) {
            assert(text =~= "decimal"@ + text.skip("decimal"@.len() as int));
        }
        if "integer"@.is_prefix_of(text) {
            assert(text =~= "integer"@ + text.skip("integer"@.len() as int));
        }
        assert forall|bits: Seq<char>| text == #[trigger] ("decimal"@ + bits) implies (
        "decimal"@).is_prefix_of(text) by {
            assert(text.subrange(0, "decimal"@.len() as int) =~= "decimal"@);
        }
        assert forall|bits: Seq<char>| text == #[trigger] ("integer"@ + bits) implies (
        "integer"@).is_prefix_of(text) by {
            assert(text.subrange(0, "integer"@.len() as int) =~= "integer"@);
        }
    }
}

/// A metric is a text as it is, an integer in decimal, and nothing else.
pub proof fn law_metric_text(value: JsonView, text: Seq<char>)
    ensures
        metric_text(value) == Some(text) <==> shows(value, text),
        metric_text(value) is None <==> !is_shown(value),
{
}

proof fn lemma_last_state(values: Seq<JsonView>, at: int)
    requires
        is_last(values, at, of_states()),
    ensures
        last_state(values) == str_of(values[at].get("value"@)),
    decreases values.len(),
{
    let last = values.len() - 1;
    law_entries(values[last]);
    if at < last {
        let init = values.drop_last();
        assert(!of_states()(values[last]));
        assert forall|i: int| at < i < init.len() implies !of_states()(#[trigger] init[i]) by {
            assert(init[i] == values[i]);
        }
        lemma_last_state(init, at);
    }
}

proof fn lemma_no_state(values: Seq<JsonView>)
    requires
        is_none(values, of_states()),
    ensures
        last_state(values) is None,
    decreases values.len(),
{
    if values.len() > 0 {
        let last = values.len() - 1;
        law_entries(values[last]);
        assert(!of_states()(values[last]));
        let init = values.drop_last();
        assert forall|i: int| 0 <= i < init.len() implies !of_states()(#[trigger] init[i]) by {
            assert(init[i] == values[i]);
        }
        lemma_no_state(init);
    }
}

proof fn lemma_last_metric(values: Seq<JsonView>, at: int)
    requires
        is_last(values, at, of_metrics()),
    ensures
        last_metric(values) == metric_text(values[at].get("value"@)->0),
    decreases values.len(),
{
    let last = values.len() - 1;
    law_entries(values[last]);
    if at < last {
        let init = values.drop_last();
        assert(!of_metrics()(values[last]));
        assert forall|i: int| at < i < init.len() implies !of_metrics()(#[trigger] init[i]) by {
            assert(init[i] == values[i]);
        }
        lemma_last_metric(init, at);
    }
}

proof fn lemma_no_metric(values: Seq<JsonView>)
    requires
        is_none(values, of_metrics()),
    ensures
        last_metric(values) is None,
    decreases values.len(),
{
    if values.len() > 0 {
        let last = values.len() - 1;
        law_entries(values[last]);
        assert(!of_metrics()(values[last]));
        let init = values.drop_last();
        assert forall|i: int| 0 <= i < init.len() implies !of_metrics()(#[trigger] init[i]) by {
            assert(init[i] == values[i]);
        }
        lemma_no_metric(init);
    }
}

/// Whether an event tells this state and no other: of the lock where it is of the type of
/// the lock's state changes, and of the system clock where it is of that type.
pub open spec fn tells_state(
    head: HeadView,
    payload: JsonView,
    timestamp: Seq<char>,
    data: Option<JsonView>,
    state: Option<Seq<char>>,
) -> bool {
    let status = told(head, payload, timestamp, data);
    &&& status.lock_state == if has_type(payload, "event.sync.ptp-status.ptp-state-change"@) {
        state
    } else {
        None
    }
    &&& status.os_clock_sync_state == if has_type(
        payload,
        "event.sync.sync-status.os-clock-sync-state-change"@,
    ) {
        state
    } else {
        None
    }
}

proof fn lemma_tells_state(
    head: HeadView,
    payload: JsonView,
    timestamp: Seq<char>,
    data: Option<JsonView>,
)
    ensures
        tells_state(
            head,
            payload,
            timestamp,
            data,
            reported_state(
                match data_values(data) {
                    Some(values) => values,
                    None => seq![],
                },
            ),
        ),
{
    let lock = "event.sync.ptp-status.ptp-state-change"@;
    let os_clock = "event.sync.sync-status.os-clock-sync-state-change"@;
    law_event_type(payload);
    reveal_strlit("event.sync.ptp-status.ptp-state-change");
    reveal_strlit("event.sync.sync-status.os-clock-sync-state-change");
    if let Some(JsonView::Text(text)) = payload.get("type"@) {
        assert(event_type(payload) == trimmed(text));
        assert(has_type(payload, event_type(payload)));
    }
    assert(has_type(payload, lock) <==> event_type(payload) == lock);
    assert(has_type(payload, os_clock) <==> event_type(payload) == os_clock);
}

/// A state change tells the state of the last entry that carries one, a space, and the
/// metric of the last entry that carries a metric. So it does for the lock and for the
/// system clock alike.
pub proof fn law_state_comes_with_its_metric(
    head: HeadView,
    payload: JsonView,
    timestamp: Seq<char>,
    data: Option<JsonView>,
    values: Seq<JsonView>,
    at: int,
    state: Seq<char>,
    metric_at: int,
    metric: Seq<char>,
)
    requires
        has_values(data, values),
        is_last(values, at, of_states()),
        values[at].get("value"@) == Some(JsonView::Text(state)),
        is_last(values, metric_at, of_metrics()),
        shows(values[metric_at].get("value"@)->0, metric),
    ensures
        tells_state(head, payload, timestamp, data, Some(state + " "@ + metric)),
{
    law_data_values(data, values);
    lemma_last_state(values, at);
    lemma_last_metric(values, metric_at);
    law_metric_text(values[metric_at].get("value"@)->0, metric);
    lemma_tells_state(head, payload, timestamp, data);
}

/// Of two entries, a state and a metric in either order, a state change tells the state,
/// a space and the metric.
pub proof fn law_two_entries_tell_both(
    head: HeadView,
    payload: JsonView,
    timestamp: Seq<char>,
    data: Option<JsonView>,
    entry: JsonView,
    state: Seq<char>,
    other: JsonView,
    metric: Seq<char>,
)
    requires
        has_values(data, seq![entry, other]) || has_values(data, seq![other, entry]),
        carries_state(entry),
        entry.get("value"@) == Some(JsonView::Text(state)),
        carries_metric(other),
        shows(other.get("value"@)->0, metric),
    ensures
        tells_state(head, payload, timestamp, data, Some(state + " "@ + metric)),
{
    assert(of_states()(entry) && !of_states()(other));
    assert(!of_metrics()(entry) && of_metrics()(other));
    if has_values(data, seq![entry, other]) {
        law_state_comes_with_its_metric(
            head,
            payload,
            timestamp,
            data,
            seq![entry, other],
            0,
            state,
            1,
            metric,
        );
    } else {
        law_state_comes_with_its_metric(
            head,
            payload,
            timestamp,
            data,
            seq![other, entry],
            1,
            state,
            0,
            metric,
        );
    }
}

/// Without a metric, or with one that cannot be shown in the last entry that carries
/// one, a state change tells the state by itself.
pub proof fn law_state_without_metric(
    head: HeadView,
    payload: JsonView,
    timestamp: Seq<char>,
    data: Option<JsonView>,
    values: Seq<JsonView>,
    at: int,
    state: Seq<char>,
    metric_at: int,
)
    requires
        has_values(data, values),
        is_last(values, at, of_states()),
        values[at].get("value"@) == Some(JsonView::Text(state)),
        is_none(values, of_metrics()) || (is_last(values, metric_at, of_metrics()) && !is_shown(
            values[metric_at].get("value"@)->0,
        )),
    ensures
        tells_state(head, payload, timestamp, data, Some(state)),
{
    law_data_values(data, values);
    lemma_last_state(values, at);
    if is_none(values, of_metrics()) {
        lemma_no_metric(values);
    } else {
        lemma_last_metric(values, metric_at);
        law_metric_text(values[metric_at].get("value"@)->0, seq![]);
    }
    lemma_tells_state(head, payload, timestamp, data);
}

/// Without a state, or with one that is no text in the last entry that carries one,
/// nothing is told, whatever metrics there are.
pub proof fn law_metric_without_state(
    head: HeadView,
    payload: JsonView,
    timestamp: Seq<char>,
    data: Option<JsonView>,
    values: Seq<JsonView>,
    at: int,
)
    requires
        has_values(data, values),
        is_none(values, of_states()) || (is_last(values, at, of_states())
            && values[at].get("value"@) is None) || (is_last(values, at, of_states())
            && !(values[at].get("value"@)->0 is Text)),
    ensures
        tells_state(head, payload, timestamp, data, None),
{
    law_data_values(data, values);
    if is_none(values, of_states()) {
        lemma_no_state(values);
    } else {
        lemma_last_state(values, at);
    }
    lemma_tells_state(head, payload, timestamp, data);
}

/// Data without entries tells no state and no clock class, and nothing is reported but
/// the source.
pub proof fn law_no_values_tell_nothing(
    head: HeadView,
    payload: JsonView,
    timestamp: Seq<char>,
    data: Option<JsonView>,
)
    requires
        forall|values: Seq<JsonView>| !#[trigger] has_values(data, values),
    ensures
        tells_state(head, payload, timestamp, data, None),
        told(head, payload, timestamp, data).clock_class is None,
        forall|key: Seq<char>|
            told(head, payload, timestamp, data).additional.dom().contains(key) ==> key
                == "source"@,
{
    if data_values(data) is Some {
        law_data_values(data, data_values(data)->0);
        assert(has_values(data, data_values(data)->0));
    }
    let none = Seq::<JsonView>::empty();
    assert(last_state(none) is None);
    assert(last_clock_class(none) is None);
    assert(by_address(none) =~= Map::<Seq<char>, JsonView>::empty());
    lemma_tells_state(head, payload, timestamp, data);
}

/// With the same data, a state change of the system clock tells of the system clock
/// exactly what a state change of the lock tells of the lock.
pub proof fn law_state_changes_tell_alike(
    head: HeadView,
    other_head: HeadView,
    payload: JsonView,
    other: JsonView,
    timestamp: Seq<char>,
    other_timestamp: Seq<char>,
    data: Option<JsonView>,
)
    requires
        has_type(payload, "event.sync.ptp-status.ptp-state-change"@),
        has_type(other, "event.sync.sync-status.os-clock-sync-state-change"@),
    ensures
        told(head, payload, timestamp, data).lock_state == told(
            other_head,
            other,
            other_timestamp,
            data,
        ).os_clock_sync_state,
{
    lemma_tells_state(head, payload, timestamp, data);
    lemma_tells_state(other_head, other, other_timestamp, data);
}

/// Whether a text has `part` in it.
pub open spec fn has_part(text: Seq<char>, part: Seq<char>) -> bool {
    exists|before: Seq<char>, after: Seq<char>| text == #[trigger] (before + part + after)
}

/// Whether an entry is about the clock class, by its address.
pub open spec fn about_clock_class(entry: JsonView) -> bool {
    exists|address: Seq<char>|
        entry.get("ResourceAddress"@) == Some(JsonView::Text(address)) && (#[trigger] has_part(
            address,
            "CLOCK_CLASS"@,
        ) || has_part(address, "clock-class"@))
}

/// Whether an entry carries the number `n`, as such or in text.
pub open spec fn has_number(entry: JsonView, n: u64) -> bool {
    ||| entry.get("value"@) == Some(JsonView::Number(NumberView::PosInt(n)))
    ||| exists|text: Seq<char>|
        entry.get("value"@) == Some(JsonView::Text(text)) && #[trigger] u64_of(text) == Some(n)
}

/// The entries that tell the clock class.
pub open spec fn of_clock_class() -> spec_fn(JsonView) -> bool {
    |entry: JsonView| about_clock_class(entry) && exists|n: u64| has_number(entry, n)
}

proof fn lemma_has_part(text: Seq<char>, part: Seq<char>)
    ensures
        has_part(text, part) <==> occurs_in(part, text),
{
    if has_part(text, part) {
        let (before, after) = choose|before: Seq<char>, after: Seq<char>|
            text == #[trigger] (before + part + after);
        law_occurrence_is_a_split(part, before, after);
    }
    if occurs_in(part, text) {
        let (before, after) = law_occurrence_splits(part, text);
        assert(text == before + part + after);
    }
}

/// Which entries are about the clock class, and which number they carry.
pub proof fn law_clock_class_entries(entry: JsonView, n: u64)
    ensures
        is_clock_class(entry) <==> about_clock_class(entry),
        entry_number(entry) == Some(n) <==> has_number(entry, n),
{
    if let Some(JsonView::Text(address)) = entry.get("ResourceAddress"@) {
        lemma_has_part(address, "CLOCK_CLASS"@);
        lemma_has_part(address, "clock-class"@);
        assert(entry.get("ResourceAddress"@) == Some(JsonView::Text(address)));
    }
    if let Some(JsonView::Text(text)) = entry.get("value"@) {
        assert(entry.get("value"@) == Some(JsonView::Text(text)));
    }
}

proof fn lemma_last_clock_class(values: Seq<JsonView>, at: int, n: u64)
    requires
        is_last(values, at, of_clock_class()),
        has_number(values[at], n),
    ensures
        last_clock_class(values) == Some((n % 256) as u8),
    decreases values.len(),
{
    let last = values.len() - 1;
    law_clock_class_entries(values[last], n);
    if at < last {
        let init = values.drop_last();
        assert(!of_clock_class()(values[last]));
        if entry_number(values[last]) is Some {
            law_clock_class_entries(values[last], entry_number(values[last])->0);
        }
        assert forall|i: int| at < i < init.len() implies !of_clock_class()(
            #[trigger] init[i],
        ) by {
            assert(init[i] == values[i]);
        }
        lemma_last_clock_class(init, at, n);
    }
}

proof fn lemma_no_clock_class(values: Seq<JsonView>)
    requires
        is_none(values, of_clock_class()),
    ensures
        last_clock_class(values) is None,
    decreases values.len(),
{
    if values.len() > 0 {
        let last = values.len() - 1;
        assert(!of_clock_class()(values[last]));
        law_clock_class_entries(values[last], 0);
        if entry_number(values[last]) is Some {
            law_clock_class_entries(values[last], entry_number(values[last])->0);
        }
        let init = values.drop_last();
        assert forall|i: int| 0 <= i < init.len() implies !of_clock_class()(
            #[trigger] init[i],
        ) by {
            assert(init[i] == values[i]);
        }
        lemma_no_clock_class(init);
    }
}

/// An event of any type tells the clock class of the last entry that carries one: what is
/// left of its number after whole multiples of 256. A number below 256 is told as it is.
pub proof fn law_clock_class_is_told(
    head: HeadView,
    payload: JsonView,
    timestamp: Seq<char>,
    data: Option<JsonView>,
    values: Seq<JsonView>,
    at: int,
    multiple: int,
    class: u8,
    n: u64,
)
    requires
        has_values(data, values),
        is_last(values, at, of_clock_class()),
        has_number(values[at], n),
        n == 256 * multiple + class,
    ensures
        told(head, payload, timestamp, data).clock_class == Some(class),
{
    law_data_values(data, values);
    lemma_last_clock_class(values, at, n);
}

/// Without an entry that carries a clock class, none is told.
pub proof fn law_no_clock_class_is_invented(
    head: HeadView,
    payload: JsonView,
    timestamp: Seq<char>,
    data: Option<JsonView>,
    values: Seq<JsonView>,
)
    requires
        has_values(data, values),
        is_none(values, of_clock_class()),
    ensures
        told(head, payload, timestamp, data).clock_class is None,
{
    law_data_values(data, values);
    lemma_no_clock_class(values);
}

/// Every entry with an address is reported under it whole, unless a later one has the
/// same address, or the address is `source` and the event has a source of its own.
pub proof fn law_entries_are_reported(
    head: HeadView,
    payload: JsonView,
    timestamp: Seq<char>,
    data: Option<JsonView>,
    values: Seq<JsonView>,
    at: int,
    address: Seq<char>,
)
    requires
        has_values(data, values),
        0 <= at < values.len(),
        values[at].get("ResourceAddress"@) == Some(JsonView::Text(address)),
        forall|i: int|
            at < i < values.len() ==> (#[trigger] values[i]).get("ResourceAddress"@) != Some(
                JsonView::Text(address),
            ),
        address != "source"@ || payload.get("source"@) is None || !(payload.get("source"@)->0
            is Text),
    ensures
        told(head, payload, timestamp, data).additional.dom().contains(address),
        told(head, payload, timestamp, data).additional[address] == values[at],
{
    law_data_values(data, values);
    assert forall|i: int| at < i < values.len() implies resource_address(#[trigger] values[i])
        != Some(address) by {
        assert(values[i].get("ResourceAddress"@) != Some(JsonView::Text(address)));
    }
    law_addressed_entries_are_kept(values, at, address);
}

/// The source of an event is reported as `source`.
pub proof fn law_source_is_reported(
    head: HeadView,
    payload: JsonView,
    timestamp: Seq<char>,
    data: Option<JsonView>,
    source: Seq<char>,
)
    requires
        payload.get("source"@) == Some(JsonView::Text(source)),
    ensures
        told(head, payload, timestamp, data).additional.dom().contains("source"@),
        told(head, payload, timestamp, data).additional["source"@] == JsonView::Text(source),
{
}

/// Nothing is reported but the source and the entries.
pub proof fn law_nothing_else_is_reported(
    head: HeadView,
    payload: JsonView,
    timestamp: Seq<char>,
    data: Option<JsonView>,
    values: Seq<JsonView>,
    key: Seq<char>,
)
    requires
        has_values(data, values),
        told(head, payload, timestamp, data).additional.dom().contains(key),
    ensures
        key == "source"@ && payload.get("source"@) is Some && payload.get("source"@)->0 is Text
            || exists|i: int|
            0 <= i < values.len() && (#[trigger] values[i]).get("ResourceAddress"@) == Some(
                JsonView::Text(key),
            ),
{
    law_data_values(data, values);
    if by_address(values).dom().contains(key) {
        law_kept_entries_were_reported(values, key);
        let i = choose|i: int|
            0 <= i < values.len() && resource_address(#[trigger] values[i]) == Some(key)
                && by_address(values)[key] == values[i];
        assert(values[i].get("ResourceAddress"@) == Some(JsonView::Text(key)));
    }
}

/// A status shows the request that brought it: time, method, URI, version, connection,
/// headers and the whole body.
pub proof fn law_request_is_shown(
    head: HeadView,
    payload: JsonView,
    timestamp: Seq<char>,
    data: Option<JsonView>,
)
    ensures
        ({
            let status = told(head, payload, timestamp, data);
            &&& status.timestamp == timestamp
            &&& status.http_method == Some(head.method)
            &&& status.http_uri == Some(head.uri)
            &&& status.http_version == Some(head.version.spec_label())
            &&& status.connection_line == Some(connection(head.peer, head.headers))
            &&& status.request_headers == Some(legible(head.headers))
            &&& status.request_body == Some(payload)
        }),
{
}

/// What is broadcast of an event is its request and its whole payload, at its time. Of
/// the clocks it is what the event tells by its own data, and what the event does not
/// tell is as it was broadcast last.
pub proof fn law_broadcast_of_an_event(
    head: HeadView,
    payload: JsonView,
    last: Option<StatusView>,
    broadcast: StatusView,
)
    ensures
        comes_of(head, payload, last, broadcast) ==> ({
            let own = told(head, payload, broadcast.timestamp, event_data(payload));
            &&& happened_at(payload, broadcast.timestamp)
            &&& broadcast.request_body == Some(payload)
            &&& broadcast.http_method == Some(head.method)
            &&& broadcast.http_uri == Some(head.uri)
            &&& broadcast.connection_line == own.connection_line
            &&& broadcast.http_version == own.http_version
            &&& broadcast.request_headers == own.request_headers
            &&& broadcast.additional == own.additional
            &&& own.lock_state is Some ==> broadcast.lock_state == own.lock_state
            &&& own.os_clock_sync_state is Some ==> broadcast.os_clock_sync_state
                == own.os_clock_sync_state
            &&& own.clock_class is Some ==> broadcast.clock_class == own.clock_class
            &&& last is Some && own.lock_state is None ==> broadcast.lock_state
                == last->0.lock_state
            &&& last is Some && own.os_clock_sync_state is None ==> broadcast.os_clock_sync_state
                == last->0.os_clock_sync_state
            &&& last is Some && own.clock_class is None ==> broadcast.clock_class
                == last->0.clock_class
            &&& last is None ==> broadcast == own
        }),
{
}

} // verus!
