//! What holds of the library as a whole.

use crate::address::{
    connection_source, group_count, is_compressed, is_ipv4, is_ipv6, is_octet, pieces, url_host,
    PeerView,
};
use crate::answer::{passes_on, subscriptions, tells_current, CurrentView};
use crate::discovery::{first_named, ServiceView};
use crate::event::{
    by_address, entry_number, event_type, is_lock_change, is_os_clock_change, reported_state,
    resource_address, told,
};
use crate::http::{connection, legible, HeadView, HeaderView};
use crate::json::{JsonView, NumberView};
use crate::status::{completed, StatusView};
use crate::subscription::{node_resource, resources};
use crate::text::{
    decimal, decimal_value, digit_char, is_digit, is_white_space, trimmed, u64_of, unsigned_digits,
};
use vstd::prelude::*;

pub mod address;
pub mod answer;
pub mod cluster;
pub mod event;
pub mod http;
pub mod json;
pub mod status;
pub mod text;

verus! {

proof fn lemma_decimal(n: nat)
    ensures
        decimal(n).len() > 0,
        forall|i: int| 0 <= i < decimal(n).len() ==> is_digit(#[trigger] decimal(n)[i]),
        decimal_value(decimal(n)) == n,
    decreases n,
{
    let text = decimal(n);
    let digit = digit_char(n);
    assert(is_digit(digit) && digit as u32 - '0' as u32 == n % 10);
    if n < 10 {
        assert(text.drop_last() =~= seq![]);
        assert(decimal_value(text.drop_last()) == 0);
    } else {
        lemma_decimal(n / 10);
        assert(text.drop_last() =~= decimal(n / 10));
    }
}

/// A number written in decimal is read back as it was.
pub proof fn law_decimal_reads_back(n: u64)
    ensures
        u64_of(decimal(n as nat)) == Some(n),
{
    let text = decimal(n as nat);
    lemma_decimal(n as nat);
    assert(is_digit(text[0]));
    assert(unsigned_digits(text) == text);
}

proof fn lemma_decimal_no_colon(n: nat)
    ensures
        !decimal(n).contains(':'),
{
    lemma_decimal(n);
}

/// Where the last colon of a text stands; -1 where there is none.
pub open spec fn last_colon(text: Seq<char>) -> int
    decreases text.len(),
{
    if text.len() == 0 {
        -1
    } else if text.last() == ':' {
        text.len() - 1
    } else {
        last_colon(text.drop_last())
    }
}

/// `text` without one pair of brackets around it.
pub open spec fn unbracketed(text: Seq<char>) -> Seq<char> {
    if text.len() >= 2 && text.first() == '[' && text.last() == ']' {
        text.subrange(1, text.len() - 1)
    } else {
        text
    }
}

/// The part of `host:port` before the last colon.
pub open spec fn before_port(text: Seq<char>) -> Seq<char> {
    text.take(last_colon(text))
}

/// The host in `host:port`.
pub open spec fn host_in(text: Seq<char>) -> Seq<char> {
    unbracketed(before_port(text))
}

/// The port in `host:port`: decimal digits that write at most 65535.
pub open spec fn port_in(text: Seq<char>) -> Option<u16> {
    let digits = text.skip(last_colon(text) + 1);
    if digits.len() > 0 && (forall|i: int| 0 <= i < digits.len() ==> is_digit(#[trigger] digits[i]))
        && decimal_value(digits) <= u16::MAX {
        Some(decimal_value(digits) as u16)
    } else {
        None
    }
}

/// The socket address that a text writes: `ip:port` for IPv4, `[ip]:port` for IPv6.
pub open spec fn peer_in(text: Seq<char>) -> Option<PeerView> {
    let host = before_port(text);
    match port_in(text) {
        Some(port) => if is_ipv4(host) {
            Some(PeerView::V4 { ip: host, port })
        } else if host.len() > 0 && host.first() == '[' && is_ipv6(unbracketed(host)) {
            Some(PeerView::V6 { ip: unbracketed(host), port })
        } else {
            None
        },
        None => None,
    }
}

/// A colon without colons behind it is the last one.
proof fn lemma_last_colon(before: Seq<char>, after: Seq<char>)
    requires
        !after.contains(':'),
    ensures
        last_colon(before + seq![':'] + after) == before.len(),
    decreases after.len(),
{
    let text = before + seq![':'] + after;
    if after.len() > 0 {
        assert(after[after.len() - 1] != ':');
        let rest = after.drop_last();
        assert forall|i: int| 0 <= i < rest.len() implies rest[i] != ':' by {
            assert(rest[i] == after[i]);
        }
        lemma_last_colon(before, rest);
        assert(text.drop_last() =~= before + seq![':'] + rest);
    } else {
        assert(text.last() == ':');
    }
}

/// What stands before and after the last colon is read as it was written.
proof fn lemma_reads_back(before: Seq<char>, port: u16)
    ensures
        before_port(before + seq![':'] + decimal(port as nat)) == before,
        port_in(before + seq![':'] + decimal(port as nat)) == Some(port),
{
    let text = before + seq![':'] + decimal(port as nat);
    lemma_decimal_no_colon(port as nat);
    lemma_decimal(port as nat);
    lemma_last_colon(before, decimal(port as nat));
    assert(text.take(before.len() as int) =~= before);
    assert(text.skip(before.len() as int + 1) =~= decimal(port as nat));
}

proof fn lemma_unbracketed(inner: Seq<char>)
    ensures
        unbracketed(seq!['['] + inner + seq![']']) == inner,
{
    let text = seq!['['] + inner + seq![']'];
    assert(text.subrange(1, text.len() - 1) =~= inner);
}

/// Host and port read back from a URL as they were, for every host that does not
/// begin with a bracket of its own.
pub proof fn law_url_authority_reads_back(host: Seq<char>, port: u16)
    requires
        host.len() > 0 ==> host.first() != '[',
    ensures
        host_in(url_host(host) + seq![':'] + decimal(port as nat)) == host,
        port_in(url_host(host) + seq![':'] + decimal(port as nat)) == Some(port),
{
    lemma_reads_back(url_host(host), port);
    lemma_unbracketed(host);
}

/// In a URL, host and port can be told apart: no two pairs of them look the same,
/// as long as no host begins with a bracket of its own.
pub proof fn law_url_authority_unambiguous(
    host: Seq<char>,
    port: u16,
    other_host: Seq<char>,
    other_port: u16,
)
    requires
        host.len() > 0 ==> host.first() != '[',
        other_host.len() > 0 ==> other_host.first() != '[',
        url_host(host) + seq![':'] + decimal(port as nat) == url_host(other_host) + seq![':']
            + decimal(other_port as nat),
    ensures
        host == other_host,
        port == other_port,
{
    law_url_authority_reads_back(host, port);
    law_url_authority_reads_back(other_host, other_port);
}

/// The characters of a text stand in its pieces, but for the separators.
proof fn lemma_pieces_hold(text: Seq<char>, separator: char, allowed: spec_fn(char) -> bool)
    requires
        forall|k: int, i: int|
            0 <= k < pieces(text, separator).len() && 0 <= i < pieces(text, separator)[k].len()
                ==> allowed(#[trigger] pieces(text, separator)[k][i]),
    ensures
        pieces(text, separator).len() > 0,
        forall|i: int|
            0 <= i < text.len() ==> (#[trigger] text[i]) == separator || allowed(text[i]),
    decreases text.len(),
{
    if text.len() > 0 {
        let init = text.drop_last();
        let before = pieces(init, separator);
        let all = pieces(text, separator);
        lemma_pieces_nonempty(init, separator);
        let last = before.len() - 1;
        assert forall|k: int, i: int|
            0 <= k < before.len() && 0 <= i < before[k].len() implies allowed(
            #[trigger] before[k][i],
        ) by {
            if text.last() != separator && k == last {
                assert(all[k] == before[k].push(text.last()));
                assert(all[k][i] == before[k][i]);
            } else {
                assert(all[k] == before[k]);
                assert(all[k][i] == before[k][i]);
            }
        }
        lemma_pieces_hold(init, separator, allowed);
        if text.last() != separator {
            let piece = all[last];
            assert(piece == before[last].push(text.last()));
            assert(allowed(all[last][piece.len() - 1]));
        }
        assert forall|i: int| 0 <= i < text.len() implies (#[trigger] text[i]) == separator
            || allowed(text[i]) by {
            if i < init.len() {
                assert(init[i] == text[i]);
            }
        }
    }
}

proof fn lemma_pieces_nonempty(text: Seq<char>, separator: char)
    ensures
        pieces(text, separator).len() > 0,
    decreases text.len(),
{
    if text.len() > 0 {
        lemma_pieces_nonempty(text.drop_last(), separator);
    }
}

/// An IPv4 address is written in digits and dots.
proof fn lemma_ipv4_characters(text: Seq<char>)
    requires
        is_ipv4(text),
    ensures
        text.len() > 0,
        text.first() != '[',
        !text.contains(':'),
{
    let allowed = |c: char| is_digit(c);
    let octets = pieces(text, '.');
    assert forall|k: int, i: int|
        0 <= k < octets.len() && 0 <= i < octets[k].len() implies allowed(
        #[trigger] octets[k][i],
    ) by {
        assert(is_octet(octets[k]));
        assert(is_digit(octets[k][i]));
    }
    lemma_pieces_hold(text, '.', allowed);
    assert forall|i: int| 0 <= i < text.len() implies text[i] != ':' && text[i] != '[' by {
        assert(text[i] == '.' || allowed(text[i]));
    }
}

/// Whether the text of a peer's address is an address of its kind.
pub open spec fn is_peer(peer: PeerView) -> bool {
    match peer {
        PeerView::V4 { ip, .. } => is_ipv4(ip),
        PeerView::V6 { ip, .. } => is_ipv6(ip),
    }
}

/// An IP address in a URL and its port read back as the socket address that they are.
pub proof fn law_url_address_reads_back(host: Seq<char>, port: u16)
    requires
        is_ipv4(host) || is_ipv6(host),
    ensures
        peer_in(url_host(host) + seq![':'] + decimal(port as nat)) == Some(
            if is_ipv6(host) {
                PeerView::V6 { ip: host, port }
            } else {
                PeerView::V4 { ip: host, port }
            },
        ),
{
    lemma_reads_back(url_host(host), port);
    if is_ipv6(host) {
        lemma_unbracketed(host);
        assert(url_host(host).first() == '[');
        if is_ipv4(url_host(host)) {
            lemma_ipv4_characters(url_host(host));
        }
    }
}

/// The text of a peer's address.
pub open spec fn peer_ip(peer: PeerView) -> Seq<char> {
    match peer {
        PeerView::V4 { ip, .. } => ip,
        PeerView::V6 { ip, .. } => ip,
    }
}

/// The port of a peer.
pub open spec fn peer_port(peer: PeerView) -> u16 {
    match peer {
        PeerView::V4 { port, .. } => port,
        PeerView::V6 { port, .. } => port,
    }
}

/// What stands before the port in the source of a connection.
spec fn source_host(peer: PeerView) -> Seq<char> {
    match peer {
        PeerView::V4 { ip, .. } => ip,
        PeerView::V6 { ip, .. } => seq!['['] + ip + seq![']'],
    }
}

proof fn lemma_source_parts(peer: PeerView)
    ensures
        connection_source(peer) == source_host(peer) + seq![':'] + decimal(
            peer_port(peer) as nat,
        ),
        before_port(connection_source(peer)) == source_host(peer),
        port_in(connection_source(peer)) == Some(peer_port(peer)),
{
    let port = peer_port(peer);
    assert(connection_source(peer) =~= source_host(peer) + seq![':'] + decimal(port as nat));
    lemma_reads_back(source_host(peer), port);
}

/// Address and port read back from the source of a connection as they were, as
/// long as the text of an IPv4 address does not begin with a bracket.
pub proof fn law_connection_source_reads_back(peer: PeerView)
    requires
        peer is V4 && peer_ip(peer).len() > 0 ==> peer_ip(peer).first() != '[',
    ensures
        host_in(connection_source(peer)) == peer_ip(peer),
        port_in(connection_source(peer)) == Some(peer_port(peer)),
{
    lemma_source_parts(peer);
    lemma_unbracketed(peer_ip(peer));
}

/// The source of a connection reads back as the socket address of the peer.
pub proof fn law_peer_reads_back(peer: PeerView)
    requires
        is_peer(peer),
    ensures
        peer_in(connection_source(peer)) == Some(peer),
{
    lemma_source_parts(peer);
    if let PeerView::V6 { ip, .. } = peer {
        lemma_unbracketed(ip);
        assert(source_host(peer).first() == '[');
        if is_ipv4(source_host(peer)) {
            lemma_ipv4_characters(source_host(peer));
        }
    }
}

/// The source of a connection begins with a bracket exactly where the peer has an
/// IPv6 address, as long as the text of an IPv4 address does not begin with one.
pub proof fn law_bracket_tells_ipv6(peer: PeerView)
    requires
        peer is V4 && peer_ip(peer).len() > 0 ==> peer_ip(peer).first() != '[',
    ensures
        connection_source(peer).len() > 0,
        connection_source(peer).first() == '[' <==> peer is V6,
{
    lemma_source_parts(peer);
}

/// The source of a connection is the address as a URL has it, with the port.
pub proof fn law_source_is_url_host(peer: PeerView)
    requires
        match peer {
            PeerView::V4 { ip, .. } => !ip.contains(':'),
            PeerView::V6 { ip, .. } => is_ipv6(ip),
        },
    ensures
        connection_source(peer) == url_host(peer_ip(peer)) + seq![':'] + decimal(
            peer_port(peer) as nat,
        ),
{
    lemma_source_parts(peer);
    if let PeerView::V4 { ip, .. } = peer {
        law_plain_host_stays(ip);
    }
}

/// An address that is one of its kind meets what the laws on sources ask of its text.
pub proof fn law_addresses_are_plain(peer: PeerView)
    requires
        is_peer(peer),
    ensures
        peer matches PeerView::V4 { ip, .. } ==> ip.len() > 0 && ip.first() != '['
            && !ip.contains(':'),
{
    if let PeerView::V4 { ip, .. } = peer {
        lemma_ipv4_characters(ip);
    }
}

/// A connection line shows its source completely: no two peers look the same, as
/// long as the text of no IPv4 address begins with a bracket.
pub proof fn law_connection_source_unambiguous(peer: PeerView, other: PeerView)
    requires
        peer is V4 && peer_ip(peer).len() > 0 ==> peer_ip(peer).first() != '[',
        other is V4 && peer_ip(other).len() > 0 ==> peer_ip(other).first() != '[',
        connection_source(peer) == connection_source(other),
    ensures
        peer == other,
{
    law_connection_source_reads_back(peer);
    law_connection_source_reads_back(other);
    law_bracket_tells_ipv6(peer);
    law_bracket_tells_ipv6(other);
}

/// A connection line begins with the other end of the connection, whatever the
/// headers of the request say.
pub proof fn law_source_is_the_peer(peer: PeerView, headers: Seq<HeaderView>)
    ensures
        connection_source(peer).is_prefix_of(connection(peer, headers)),
{
    assert(connection(peer, headers).subrange(0, connection_source(peer).len() as int)
        =~= connection_source(peer));
}

proof fn lemma_one_piece(text: Seq<char>, separator: char)
    requires
        !text.contains(separator),
    ensures
        pieces(text, separator).len() == 1,
    decreases text.len(),
{
    if text.len() > 0 {
        let init = text.drop_last();
        assert(text[text.len() - 1] != separator);
        if init.contains(separator) {
            let i = choose|i: int| 0 <= i < init.len() && init[i] == separator;
            assert(text[i] == separator);
        }
        lemma_one_piece(init, separator);
    }
}

/// A host without a colon, such as a name or an IPv4 address, stands in a URL as it is.
pub proof fn law_plain_host_stays(host: Seq<char>)
    requires
        !host.contains(':'),
    ensures
        url_host(host) == host,
{
    lemma_one_piece(host, ':');
    assert(group_count(host, true) != Some(8nat));
    assert forall|at: int| 0 <= at < host.len() - 1 implies !is_compressed(host, at) by {
        assert(host[at] != ':');
    }
}

/// What is known after the broadcast of each status of `run` in turn.
pub open spec fn board_after(start: Option<StatusView>, run: Seq<StatusView>) -> Option<StatusView>
    decreases run.len(),
{
    if run.len() == 0 {
        start
    } else {
        Some(completed(run.last(), board_after(start, run.drop_last())))
    }
}

/// The last value that `field` has in `run`.
pub open spec fn latest<T>(
    run: Seq<StatusView>,
    field: spec_fn(StatusView) -> Option<T>,
) -> Option<T>
    decreases run.len(),
{
    if run.len() == 0 {
        None
    } else if field(run.last()) is Some {
        field(run.last())
    } else {
        latest(run.drop_last(), field)
    }
}

/// The state of the system clock in a status.
pub open spec fn os_clock_field() -> spec_fn(StatusView) -> Option<Seq<char>> {
    |status: StatusView| status.os_clock_sync_state
}

/// The lock state in a status.
pub open spec fn lock_field() -> spec_fn(StatusView) -> Option<Seq<char>> {
    |status: StatusView| status.lock_state
}

/// The clock class in a status.
pub open spec fn class_field() -> spec_fn(StatusView) -> Option<u8> {
    |status: StatusView| status.clock_class
}

/// Every broadcast has the full state: of each of the three clock fields, the
/// last value that any status so far told. All else is as the last status tells it.
pub proof fn law_broadcast_has_full_state(run: Seq<StatusView>)
    requires
        run.len() > 0,
    ensures
        board_after(None, run) is Some,
        ({
            let shown = board_after(None, run)->0;
            &&& shown.os_clock_sync_state == latest(run, os_clock_field())
            &&& shown.lock_state == latest(run, lock_field())
            &&& shown.clock_class == latest(run, class_field())
            &&& shown == (StatusView {
                os_clock_sync_state: shown.os_clock_sync_state,
                lock_state: shown.lock_state,
                clock_class: shown.clock_class,
                ..run.last()
            })
        }),
    decreases run.len(),
{
    let init = run.drop_last();
    if init.len() > 0 {
        law_broadcast_has_full_state(init);
    } else {
        assert(board_after(None, init) is None);
        assert(latest(init, os_clock_field()) is None);
        assert(latest(init, lock_field()) is None);
        assert(latest(init, class_field()) is None);
    }
}

/// What was broadcast once of the clocks is told by every later broadcast.
pub proof fn law_known_state_stays_known(start: Option<StatusView>, run: Seq<StatusView>)
    requires
        start is Some,
    ensures
        board_after(start, run) is Some,
        start->0.os_clock_sync_state is Some ==> board_after(
            start,
            run,
        )->0.os_clock_sync_state is Some,
        start->0.lock_state is Some ==> board_after(start, run)->0.lock_state is Some,
        start->0.clock_class is Some ==> board_after(start, run)->0.clock_class is Some,
    decreases run.len(),
{
    if run.len() > 0 {
        law_known_state_stays_known(start, run.drop_last());
    }
}

/// An event that comes twice in a row is broadcast the same both times.
pub proof fn law_repeated_status_is_the_same(status: StatusView, last: Option<StatusView>)
    ensures
        completed(status, Some(completed(status, last))) == completed(status, last),
{
}

/// An event tells the state that its type is about and no other.
pub proof fn law_event_tells_its_own_state(
    head: HeadView,
    payload: JsonView,
    timestamp: Seq<char>,
    data: Option<JsonView>,
)
    ensures
        ({
            let status = told(head, payload, timestamp, data);
            &&& status.lock_state is Some ==> is_lock_change(event_type(payload))
            &&& status.os_clock_sync_state is Some ==> is_os_clock_change(event_type(payload))
            &&& status.lock_state is None || status.os_clock_sync_state is None
        }),
{
    reveal_strlit("event.sync.ptp-status.ptp-state-change");
    reveal_strlit("event.sync.sync-status.os-clock-sync-state-change");
    assert("event.sync.ptp-status.ptp-state-change"@.len()
        != "event.sync.sync-status.os-clock-sync-state-change"@.len());
}

/// An event without usable data tells nothing of the clocks.
pub proof fn law_no_data_tells_no_state(head: HeadView, payload: JsonView, timestamp: Seq<char>)
    ensures
        ({
            let status = told(head, payload, timestamp, None);
            &&& status.lock_state is None
            &&& status.os_clock_sync_state is None
            &&& status.clock_class is None
        }),
{
    assert(reported_state(seq![]) is None);
}

/// A clock class may come as a number or as its decimal text.
pub proof fn law_number_or_text(entry: JsonView, other: JsonView, n: u64)
    requires
        entry.get("value"@) == Some(JsonView::Number(NumberView::PosInt(n))),
        other.get("value"@) == Some(JsonView::Text(decimal(n as nat))),
    ensures
        entry_number(entry) == Some(n),
        entry_number(other) == Some(n),
{
    law_decimal_reads_back(n);
}

/// Every entry with an address is kept under it, unless a later one has the same.
pub proof fn law_addressed_entries_are_kept(values: Seq<JsonView>, at: int, address: Seq<char>)
    requires
        0 <= at < values.len(),
        resource_address(values[at]) == Some(address),
        forall|i: int|
            at < i < values.len() ==> resource_address(#[trigger] values[i]) != Some(address),
    ensures
        by_address(values).dom().contains(address),
        by_address(values)[address] == values[at],
    decreases values.len(),
{
    if at < values.len() - 1 {
        let init = values.drop_last();
        assert forall|i: int| at < i < init.len() implies resource_address(#[trigger] init[i])
            != Some(address) by {
            assert(init[i] == values[i]);
        }
        law_addressed_entries_are_kept(init, at, address);
        assert(resource_address(values[values.len() - 1]) != Some(address));
    }
}

/// Every legible header is shown, unless a later one has the same name.
pub proof fn law_legible_headers_are_shown(headers: Seq<HeaderView>, at: int, value: Seq<char>)
    requires
        0 <= at < headers.len(),
        headers[at].value == Some(value),
        forall|i: int|
            at < i < headers.len() ==> (#[trigger] headers[i]).name != headers[at].name
                || headers[i].value is None,
    ensures
        legible(headers).dom().contains(headers[at].name),
        legible(headers)[headers[at].name] == value,
    decreases headers.len(),
{
    if at < headers.len() - 1 {
        let init = headers.drop_last();
        assert forall|i: int| at < i < init.len() implies (#[trigger] init[i]).name
            != init[at].name || init[i].value is None by {
            assert(init[i] == headers[i]);
        }
        law_legible_headers_are_shown(init, at, value);
        let last = headers[headers.len() - 1];
        assert(last.name != headers[at].name || last.value is None);
    }
}

/// Nothing is kept that no entry brought.
pub proof fn law_kept_entries_were_reported(values: Seq<JsonView>, address: Seq<char>)
    requires
        by_address(values).dom().contains(address),
    ensures
        exists|i: int|
            0 <= i < values.len() && resource_address(#[trigger] values[i]) == Some(address)
                && by_address(values)[address] == values[i],
    decreases values.len(),
{
    let last = values.len() - 1;
    if resource_address(values.last()) == Some(address) {
        assert(resource_address(values[last]) == Some(address));
    } else {
        let init = values.drop_last();
        law_kept_entries_were_reported(init, address);
        let i = choose|i: int|
            0 <= i < init.len() && resource_address(#[trigger] init[i]) == Some(address)
                && by_address(init)[address] == init[i];
        assert(values[i] == init[i]);
    }
}

/// Surrounding white space is gone after trimming, and trimming again changes nothing.
pub proof fn law_trimmed(text: Seq<char>)
    ensures
        trimmed(text).len() > 0 ==> !is_white_space(trimmed(text).first()) && !is_white_space(
            trimmed(text).last(),
        ),
        trimmed(trimmed(text)) == trimmed(text),
    decreases text.len(),
{
    if text.len() > 0 && is_white_space(text.first()) {
        law_trimmed(text.drop_first());
    } else if text.len() > 0 && is_white_space(text.last()) {
        law_trimmed(text.drop_last());
    }
}

/// A service is found where there is one, and it is the first.
pub proof fn law_first_service_is_found(
    services: Seq<ServiceView>,
    wanted: spec_fn(Seq<char>) -> bool,
    at: int,
)
    requires
        0 <= at < services.len(),
        wanted(services[at].name),
        forall|i: int| 0 <= i < at ==> !wanted((#[trigger] services[i]).name),
    ensures
        first_named(services, wanted) == Some(services[at]),
    decreases at,
{
    if at > 0 {
        let rest = services.drop_first();
        assert(!wanted(services[0].name));
        assert forall|i: int| 0 <= i < at - 1 implies !wanted((#[trigger] rest[i]).name) by {
            assert(rest[i] == services[i + 1]);
        }
        law_first_service_is_found(rest, wanted, at - 1);
    }
}

/// Where no service has a fitting name, none is found.
pub proof fn law_no_service_is_invented(
    services: Seq<ServiceView>,
    wanted: spec_fn(Seq<char>) -> bool,
)
    requires
        forall|i: int| 0 <= i < services.len() ==> !wanted((#[trigger] services[i]).name),
    ensures
        first_named(services, wanted) is None,
    decreases services.len(),
{
    if services.len() > 0 {
        let rest = services.drop_first();
        assert(!wanted(services[0].name));
        assert forall|i: int| 0 <= i < rest.len() implies !wanted((#[trigger] rest[i]).name) by {
            assert(rest[i] == services[i + 1]);
        }
        law_no_service_is_invented(rest, wanted);
    }
}

/// The resources that are subscribed to are three different ones on each node.
pub proof fn law_resources_differ(node: Seq<char>, i: int, j: int)
    requires
        0 <= i < j < resources().len(),
    ensures
        resources().len() == 3,
        node_resource(node, resources()[i]) != node_resource(node, resources()[j]),
{
    reveal_strlit("/sync/sync-status/os-clock-sync-state");
    reveal_strlit("/sync/ptp-status/lock-state");
    reveal_strlit("/sync/ptp-status/clock-class");
    assert(resources()[i].len() != resources()[j].len());
    assert(node_resource(node, resources()[i]).len() != node_resource(node, resources()[j]).len());
}

/// Different nodes have different addresses for one resource.
pub proof fn law_nodes_differ(node: Seq<char>, other: Seq<char>, resource: Seq<char>)
    requires
        node_resource(node, resource) == node_resource(other, resource),
    ensures
        node == other,
{
    let start = "/cluster/node/"@;
    let left = node_resource(node, resource);
    let right = node_resource(other, resource);
    assert(left.len() == right.len());
    assert forall|i: int| 0 <= i < node.len() implies node[i] == other[i] by {
        assert(left[start.len() + i] == node[i] && right[start.len() + i] == other[i]);
    }
    assert(node =~= other);
}

/// The list of subscriptions, taken as the answer of a publisher, is the same list.
pub proof fn law_listing_is_stable(answer: JsonView)
    ensures
        subscriptions(JsonView::Array(subscriptions(answer))) == subscriptions(answer),
{
}

/// The status that is published on the board is the one told next: what a
/// broadcast said is the answer to the next question for the current status.
pub proof fn law_published_status_is_told(
    status: StatusView,
    last: Option<StatusView>,
    answer: CurrentView,
)
    requires
        tells_current(Some(completed(status, last)), answer),
    ensures
        answer == CurrentView::Status(completed(status, last)),
{
}

/// After any run of events, the current status is that of the last broadcast, with
/// the last known value of each clock field.
pub proof fn law_current_status_has_full_state(run: Seq<StatusView>, answer: CurrentView)
    requires
        run.len() > 0,
        tells_current(board_after(None, run), answer),
    ensures
        answer matches CurrentView::Status(shown) && {
            &&& shown.timestamp == run.last().timestamp
            &&& shown.os_clock_sync_state == latest(run, os_clock_field())
            &&& shown.lock_state == latest(run, lock_field())
            &&& shown.clock_class == latest(run, class_field())
        },
{
    law_broadcast_has_full_state(run);
}

/// A notice is given only before the first broadcast, and its message is always
/// that there is no status yet.
pub proof fn law_notice_means_no_status(board: Option<StatusView>, answer: CurrentView)
    requires
        tells_current(board, answer),
    ensures
        answer is Notice <==> board is None,
        answer matches CurrentView::Notice(notice) ==> notice.get("message"@) == Some(
            JsonView::Text("No status available yet"@),
        ),
        answer matches CurrentView::Notice(notice) ==> notice.get("message"@) != Some(
            JsonView::Text("Channel closed"@),
        ),
{
    reveal_strlit("No status available yet");
    reveal_strlit("Channel closed");
    assert("No status available yet"@.len() != "Channel closed"@.len());
}

/// A listener that loses nothing is sent exactly what the channel hands out, in
/// the same order.
pub proof fn law_listener_gets_every_status(
    received: Seq<Option<StatusView>>,
    messages: Seq<StatusView>,
)
    requires
        received.len() == messages.len(),
        forall|i: int| 0 <= i < received.len() ==> passes_on(#[trigger] received[i], messages[i]),
        forall|i: int| 0 <= i < received.len() ==> (#[trigger] received[i]) is Some,
    ensures
        messages == received.map_values(|item: Option<StatusView>| item->0),
{
    assert forall|i: int| 0 <= i < messages.len() implies messages[i] == received[i]->0 by {
        assert(passes_on(received[i], messages[i]));
        assert(received[i] is Some);
    }
    assert(messages =~= received.map_values(|item: Option<StatusView>| item->0));
}

} // verus!
