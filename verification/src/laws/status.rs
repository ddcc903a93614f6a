//! What holds of statuses from one broadcast to the next.

use crate::clock::{is_date_time, is_utc_time};
use crate::laws::latest;
use crate::status::{blank, completed, StatusView};
use vstd::prelude::*;

verus! {

/// What a status tells of the clocks is broadcast as it tells it, whatever was
/// broadcast before.
pub proof fn law_told_state_is_broadcast(status: StatusView, last: Option<StatusView>)
    ensures
        status.os_clock_sync_state is Some ==> completed(status, last).os_clock_sync_state
            == status.os_clock_sync_state,
        status.lock_state is Some ==> completed(status, last).lock_state == status.lock_state,
        status.clock_class is Some ==> completed(status, last).clock_class == status.clock_class,
{
}

/// What a status does not tell of the clocks is broadcast as it was last, each of the
/// three by itself.
pub proof fn law_untold_state_is_kept(status: StatusView, known: StatusView)
    ensures
        status.os_clock_sync_state is None ==> completed(status, Some(known)).os_clock_sync_state
            == known.os_clock_sync_state,
        status.lock_state is None ==> completed(status, Some(known)).lock_state
            == known.lock_state,
        status.clock_class is None ==> completed(status, Some(known)).clock_class
            == known.clock_class,
{
}

/// Time, request and reported values are never taken from an earlier broadcast.
pub proof fn law_nothing_else_is_kept(status: StatusView, last: Option<StatusView>)
    ensures
        ({
            let broadcast = completed(status, last);
            &&& broadcast.timestamp == status.timestamp
            &&& broadcast.http_method == status.http_method
            &&& broadcast.http_uri == status.http_uri
            &&& broadcast.http_version == status.http_version
            &&& broadcast.connection_line == status.connection_line
            &&& broadcast.request_headers == status.request_headers
            &&& broadcast.request_body == status.request_body
            &&& broadcast.additional == status.additional
        }),
{
}

/// The first status is broadcast as it is.
pub proof fn law_first_status_is_unchanged(status: StatusView)
    ensures
        completed(status, None) == status,
{
}

/// A broadcast between two others can be left out where it tells nothing of the clocks.
pub proof fn law_silent_status_changes_nothing(
    status: StatusView,
    silent: StatusView,
    last: Option<StatusView>,
)
    requires
        silent.os_clock_sync_state is None,
        silent.lock_state is None,
        silent.clock_class is None,
        last is Some,
    ensures
        completed(status, Some(completed(silent, last))) == completed(status, last),
{
}

/// The latest value is the one of the last status that has any, whatever came before.
pub proof fn law_latest<T>(
    run: Seq<StatusView>,
    field: spec_fn(StatusView) -> Option<T>,
    at: int,
)
    requires
        0 <= at < run.len(),
        field(run[at]) is Some,
        forall|i: int| at < i < run.len() ==> field(#[trigger] run[i]) is None,
    ensures
        latest(run, field) == field(run[at]),
    decreases run.len(),
{
    let last = run.len() - 1;
    if at < last {
        assert(field(run[last]) is None);
        let init = run.drop_last();
        assert forall|i: int| at < i < init.len() implies field(#[trigger] init[i]) is None by {
            assert(init[i] == run[i]);
        }
        law_latest(init, field, at);
    }
}

/// Where no status has a value there is no latest one.
pub proof fn law_no_latest<T>(run: Seq<StatusView>, field: spec_fn(StatusView) -> Option<T>)
    requires
        forall|i: int| 0 <= i < run.len() ==> field(#[trigger] run[i]) is None,
    ensures
        latest(run, field) is None,
    decreases run.len(),
{
    if run.len() > 0 {
        assert(field(run[run.len() - 1]) is None);
        let init = run.drop_last();
        assert forall|i: int| 0 <= i < init.len() implies field(#[trigger] init[i]) is None by {
            assert(init[i] == run[i]);
        }
        law_no_latest(init, field);
    }
}

/// A blank status has its time and tells nothing.
pub proof fn law_blank(timestamp: Seq<char>)
    ensures
        blank(timestamp).timestamp == timestamp,
        blank(timestamp).os_clock_sync_state is None,
        blank(timestamp).lock_state is None,
        blank(timestamp).clock_class is None,
        blank(timestamp).http_method is None,
        blank(timestamp).http_uri is None,
        blank(timestamp).http_version is None,
        blank(timestamp).connection_line is None,
        blank(timestamp).request_headers is None,
        blank(timestamp).request_body is None,
        forall|key: Seq<char>| !blank(timestamp).additional.dom().contains(key),
{
}

/// A time that the clock gives ends in the offset of UTC and has at least a date, a `T`
/// and a time in front of it. It is made of digits and the signs between them.
pub proof fn law_clock_time(text: Seq<char>)
    requires
        is_utc_time(text),
    ensures
        text.len() >= 25,
        text.skip(text.len() - 6) == "+00:00"@,
        text.contains('T'),
        forall|i: int|
            0 <= i < text.len() ==> '0' <= #[trigger] text[i] <= '9' || text[i] == '-' || text[i]
                == ':' || text[i] == '.' || text[i] == '+' || text[i] == 'T',
{
    reveal_strlit("+00:00");
    let (year, fraction) = choose|year: int, fraction: int| is_date_time(text, year, fraction);
    let end = year + 15 + fraction;
    assert(text[year + 6] == 'T');
    assert forall|i: int| 0 <= i < text.len() implies '0' <= #[trigger] text[i] <= '9' || text[i]
        == '-' || text[i] == ':' || text[i] == '.' || text[i] == '+' || text[i] == 'T' by {
        if i >= end {
            assert(text[i] == text.skip(end)[i - end]);
        }
    }
}

} // verus!
