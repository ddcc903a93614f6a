//! What holds of requests, and of the status of answers.

use crate::address::{connection_source, PeerView};
use crate::http::{
    connection, destination, is_status, legible, reports_success, status_reason, status_text,
    HeaderView, HttpVersion,
};
use crate::laws::text::law_decimal;
use crate::text::{decimal, decimal_value};
use vstd::prelude::*;

verus! {

/// A request was sent to the value of its first `host` header, whatever other headers
/// there are. Where that value is not legible it counts as `localhost:8080`.
pub proof fn law_first_host_is_the_destination(headers: Seq<HeaderView>, at: int)
    requires
        0 <= at < headers.len(),
        headers[at].name == "host"@,
        forall|i: int| 0 <= i < at ==> (#[trigger] headers[i]).name != "host"@,
    ensures
        headers[at].value is Some ==> destination(headers) == headers[at].value->0,
        headers[at].value is None ==> destination(headers) == "localhost:8080"@,
    decreases at,
{
    if at > 0 {
        assert(headers[0].name != "host"@);
        let rest = headers.drop_first();
        assert forall|i: int| 0 <= i < at - 1 implies (#[trigger] rest[i]).name != "host"@ by {
            assert(rest[i] == headers[i + 1]);
        }
        law_first_host_is_the_destination(rest, at - 1);
    }
}

/// A request without a `host` header was sent to `localhost:8080`.
pub proof fn law_default_destination(headers: Seq<HeaderView>)
    requires
        forall|i: int| 0 <= i < headers.len() ==> (#[trigger] headers[i]).name != "host"@,
    ensures
        destination(headers) == "localhost:8080"@,
    decreases headers.len(),
{
    if headers.len() > 0 {
        assert(headers[0].name != "host"@);
        let rest = headers.drop_first();
        assert forall|i: int| 0 <= i < rest.len() implies (#[trigger] rest[i]).name != "host"@ by {
            assert(rest[i] == headers[i + 1]);
        }
        law_default_destination(rest);
    }
}

/// No header is shown that the request does not have, and none with another value.
pub proof fn law_shown_headers_were_sent(headers: Seq<HeaderView>, name: Seq<char>)
    requires
        legible(headers).dom().contains(name),
    ensures
        exists|i: int|
            0 <= i < headers.len() && (#[trigger] headers[i]).name == name && headers[i].value
                == Some(legible(headers)[name]),
    decreases headers.len(),
{
    let last = headers.len() - 1;
    if headers[last].name == name && headers[last].value is Some {
        assert(headers[last].value == Some(legible(headers)[name]));
    } else {
        let init = headers.drop_last();
        law_shown_headers_were_sent(init, name);
        let i = choose|i: int|
            0 <= i < init.len() && (#[trigger] init[i]).name == name && init[i].value == Some(
                legible(init)[name],
            );
        assert(headers[i] == init[i]);
    }
}

/// A connection line is the source, an arrow and the whole destination: both ends can be
/// read off it.
pub proof fn law_connection_line(peer: PeerView, headers: Seq<HeaderView>)
    ensures
        connection(peer, headers) == connection_source(peer) + " -> "@ + destination(headers),
        connection(peer, headers).skip(connection_source(peer).len() as int + 4) == destination(
            headers,
        ),
{
    reveal_strlit(" -> ");
    assert(connection(peer, headers).skip(connection_source(peer).len() as int + 4)
        =~= destination(headers));
}

/// Requests of one peer to two destinations have two connection lines.
pub proof fn law_destinations_differ(
    peer: PeerView,
    headers: Seq<HeaderView>,
    other: Seq<HeaderView>,
)
    requires
        destination(headers) != destination(other),
    ensures
        connection(peer, headers) != connection(peer, other),
{
    law_connection_line(peer, headers);
    law_connection_line(peer, other);
}

/// The source of a connection in characters: the address, in brackets where it is of
/// IPv6, a colon and the port in decimal.
pub proof fn law_source_text(ip: Seq<char>, port: u16)
    ensures
        connection_source(PeerView::V4 { ip, port }) == ip + ":"@ + decimal(port as nat),
        connection_source(PeerView::V6 { ip, port }) == "["@ + ip + "]:"@ + decimal(port as nat),
{
    reveal_strlit(":");
    reveal_strlit("[");
    reveal_strlit("]:");
    assert(connection_source(PeerView::V4 { ip, port }) =~= ip + ":"@ + decimal(port as nat));
    assert(connection_source(PeerView::V6 { ip, port }) =~= "["@ + ip + "]:"@ + decimal(
        port as nat,
    ));
}

/// The status of an answer is a number of three digits.
pub proof fn law_status_has_three_digits(status: u16)
    ensures
        is_status(status) <==> decimal(status as nat).len() == 3,
{
    let n = status as nat;
    assert(decimal(n / 10 / 10 / 10 / 10).len() >= 1);
    if n >= 10 {
        assert(decimal(n).len() == decimal(n / 10).len() + 1);
    }
    if n >= 100 {
        assert(decimal(n / 10).len() == decimal(n / 10 / 10).len() + 1);
    }
    if n >= 1000 {
        assert(decimal(n / 10 / 10).len() == decimal(n / 10 / 10 / 10).len() + 1);
        law_decimal(n / 10 / 10 / 10);
    }
}

/// The status that reports success has the first digit two and two more.
pub proof fn law_success_begins_with_two(status: u16)
    ensures
        reports_success(status) <==> decimal(status as nat).len() == 3 && decimal(
            status as nat,
        ).first() == '2',
{
    let n = status as nat;
    law_status_has_three_digits(status);
    if is_status(status) {
        assert(n / 10 / 10 < 10);
        assert(decimal(n).drop_last() =~= decimal(n / 10));
        assert(decimal(n / 10).drop_last() =~= decimal(n / 10 / 10));
        assert(decimal(n).first() == decimal(n / 10 / 10)[0]);
    }
}

/// A status in words is its number in decimal, a space and its reason. Two numbers have
/// two texts.
pub proof fn law_status_text(status: u16, other: u16)
    ensures
        status_text(status) == decimal(status as nat) + " "@ + status_reason(status),
        is_status(status) && is_status(other) && status != other ==> status_text(status)
            != status_text(other),
{
    if is_status(status) && is_status(other) && status_text(status) == status_text(other) {
        law_status_has_three_digits(status);
        law_status_has_three_digits(other);
        law_decimal(status as nat);
        law_decimal(other as nat);
        assert(status_text(status).take(3) =~= decimal(status as nat));
        assert(status_text(other).take(3) =~= decimal(other as nat));
        assert(decimal_value(decimal(status as nat)) == decimal_value(decimal(other as nat)));
    }
}

/// A version is `HTTP/`, the major number, and the minor number where versions have
/// one. The labels tell the versions apart.
pub proof fn law_versions_differ(version: HttpVersion, other: HttpVersion)
    ensures
        version.spec_label().len() >= 6,
        version.spec_label().take(5) == "HTTP/"@,
        version != other ==> version.spec_label() != other.spec_label(),
        version is Http09 ==> version.spec_label().skip(5) == "0.9"@,
        version is Http10 ==> version.spec_label().skip(5) == "1.0"@,
        version is Http11 ==> version.spec_label().skip(5) == "1.1"@,
        version is Http2 ==> version.spec_label().skip(5) == "2"@,
        version is Http3 ==> version.spec_label().skip(5) == "3"@,
        version is Other ==> version.spec_label().skip(5) == "?"@,
{
    reveal_strlit("HTTP/");
    reveal_strlit("HTTP/0.9");
    reveal_strlit("HTTP/1.0");
    reveal_strlit("HTTP/1.1");
    reveal_strlit("HTTP/2");
    reveal_strlit("HTTP/3");
    reveal_strlit("HTTP/?");
    reveal_strlit("0.9");
    reveal_strlit("1.0");
    reveal_strlit("1.1");
    reveal_strlit("2");
    reveal_strlit("3");
    reveal_strlit("?");
    let label = version.spec_label();
    assert(label.take(5) =~= "HTTP/"@);
    assert(version is Http09 ==> label.skip(5) =~= "0.9"@);
    assert(version is Http10 ==> label.skip(5) =~= "1.0"@);
    assert(version is Http11 ==> label.skip(5) =~= "1.1"@);
    assert(version is Http2 ==> label.skip(5) =~= "2"@);
    assert(version is Http3 ==> label.skip(5) =~= "3"@);
    assert(version is Other ==> label.skip(5) =~= "?"@);
    if label == other.spec_label() {
        assert(label.len() == other.spec_label().len());
        assert(label[5] == other.spec_label()[5]);
        if label.len() > 6 {
            assert(label[7] == other.spec_label()[7]);
        }
    }
}

} // verus!
