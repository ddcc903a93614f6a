//! Hosts and peers in text.

use crate::text;
use crate::text::{chars_of, decimal, decimal_value, is_digit};
use vstd::prelude::*;

verus! {

/// The parts of `text` between the occurrences of `separator`.
pub open spec fn pieces(text: Seq<char>, separator: char) -> Seq<Seq<char>>
    decreases text.len(),
{
    if text.len() == 0 {
        seq![seq![]]
    } else {
        let before = pieces(text.drop_last(), separator);
        if text.last() == separator {
            before.push(seq![])
        } else {
            before.drop_last().push(before.last().push(text.last()))
        }
    }
}

/// Whether `c` is a hexadecimal digit, of either case.
pub open spec fn is_hex_digit(c: char) -> bool {
    is_digit(c) || 'a' <= c <= 'f' || 'A' <= c <= 'F'
}

/// Whether `piece` writes 16 bits: one to four hexadecimal digits.
pub open spec fn is_group(piece: Seq<char>) -> bool {
    1 <= piece.len() <= 4 && forall|i: int| 0 <= i < piece.len() ==> is_hex_digit(#[trigger] piece[i])
}

/// Whether `piece` writes 8 bits: a decimal number up to 255 without leading zeros.
pub open spec fn is_octet(piece: Seq<char>) -> bool {
    &&& 1 <= piece.len() <= 3
    &&& forall|i: int| 0 <= i < piece.len() ==> is_digit(#[trigger] piece[i])
    &&& piece.len() > 1 ==> piece[0] != '0'
    &&& decimal_value(piece) <= 255
}

/// Whether `piece` is an IPv4 address: four octets between dots.
pub open spec fn is_ipv4(piece: Seq<char>) -> bool {
    let octets = pieces(piece, '.');
    octets.len() == 4 && forall|i: int| 0 <= i < octets.len() ==> is_octet(#[trigger] octets[i])
}

/// How many groups `text` writes as a list between colons, `None` where it is
/// no such list. An empty text writes none. Where `tail` holds, the list may end
/// in an IPv4 address, which counts as two.
pub open spec fn group_count(text: Seq<char>, tail: bool) -> Option<nat> {
    let parts = pieces(text, ':');
    let last = parts.len() - 1;
    if text.len() == 0 {
        Some(0)
    } else if forall|i: int| 0 <= i < last ==> is_group(#[trigger] parts[i]) {
        if is_group(parts[last]) {
            Some(parts.len())
        } else if tail && is_ipv4(parts[last]) {
            Some(parts.len() + 1)
        } else {
            None
        }
    } else {
        None
    }
}

/// Whether `text`, taken apart by a double colon at `at`, is an IPv6 address in
/// which the double colon stands for at least one group of zeros.
pub open spec fn is_compressed(text: Seq<char>, at: int) -> bool {
    &&& text[at] == ':'
    &&& text[at + 1] == ':'
    &&& group_count(text.take(at), false) is Some
    &&& group_count(text.skip(at + 2), true) is Some
    &&& group_count(text.take(at), false)->0 + group_count(text.skip(at + 2), true)->0 <= 7
}

/// Whether `text` is an IPv6 address, as `std::net::Ipv6Addr` reads one: eight
/// groups, or fewer around one double colon.
pub open spec fn is_ipv6(text: Seq<char>) -> bool {
    ||| group_count(text, true) == Some(8nat)
    ||| exists|at: int| 0 <= at < text.len() - 1 && is_compressed(text, at)
}

/// A host as it stands in a URL before `:port`: an IPv6 address in brackets.
pub open spec fn url_host(host: Seq<char>) -> Seq<char> {
    if is_ipv6(host) {
        seq!['['] + host + seq![']']
    } else {
        host
    }
}

/// The address of the other end of a connection. `ip` is its text.
#[derive(Debug, PartialEq, Eq)]
pub enum PeerAddr {
    V4 { ip: String, port: u16 },
    V6 { ip: String, port: u16 },
}

/// The content of a [`PeerAddr`].
pub enum PeerView {
    V4 { ip: Seq<char>, port: u16 },
    V6 { ip: Seq<char>, port: u16 },
}

impl View for PeerAddr {
    type V = PeerView;

    open spec fn view(&self) -> PeerView {
        match self {
            PeerAddr::V4 { ip, port } => PeerView::V4 { ip: ip@, port: *port },
            PeerAddr::V6 { ip, port } => PeerView::V6 { ip: ip@, port: *port },
        }
    }
}

/// The source part of a connection line: `ip:port`, or `[ip]:port` for IPv6.
pub open spec fn connection_source(peer: PeerView) -> Seq<char> {
    match peer {
        PeerView::V4 { ip, port } => ip + seq![':'] + decimal(port as nat),
        PeerView::V6 { ip, port } => seq!['['] + ip + seq![']', ':'] + decimal(port as nat),
    }
}

/// The characters of each piece of `chars`.
pub open spec fn shown(pieces: Seq<Vec<char>>) -> Seq<Seq<char>> {
    pieces.map_values(|piece: Vec<char>| piece@)
}

/// Takes `chars[from..to]` apart at the occurrences of `separator`.
fn split(chars: &Vec<char>, from: usize, to: usize, separator: char) -> (result: Vec<Vec<char>>)
    requires
        from <= to <= chars@.len(),
    ensures
        shown(result@) == pieces(chars@.subrange(from as int, to as int), separator),
        result@.len() > 0,
{
    let mut result: Vec<Vec<char>> = Vec::new();
    let mut piece: Vec<char> = Vec::new();
    assert(chars@.subrange(from as int, from as int) =~= seq![]);
    assert(shown(result@).push(piece@) =~= seq![seq![]]);
    let mut at: usize = from;
    while at < to
        invariant
            from <= at <= to <= chars@.len(),
            shown(result@).push(piece@) == pieces(
                chars@.subrange(from as int, at as int),
                separator,
            ),
        decreases to - at,
    {
        let ghost next = chars@.subrange(from as int, at + 1);
        assert(next.drop_last() =~= chars@.subrange(from as int, at as int));
        assert(shown(result@).push(piece@).drop_last() =~= shown(result@));
        let c = chars[at];
        if c == separator {
            result.push(piece);
            piece = Vec::new();
            assert(shown(result@) =~= pieces(next.drop_last(), separator));
        } else {
            piece.push(c);
        }
        at = at + 1;
    }
    result.push(piece);
    assert(shown(result@) =~= pieces(chars@.subrange(from as int, to as int), separator));
    result
}

fn group(piece: &Vec<char>) -> (result: bool)
    ensures
        result == is_group(piece@),
{
    if piece.len() < 1 || piece.len() > 4 {
        return false;
    }
    for i in 0..piece.len()
        invariant
            forall|j: int| 0 <= j < i ==> is_hex_digit(#[trigger] piece@[j]),
    {
        let c = piece[i];
        if !(('0' <= c && c <= '9') || ('a' <= c && c <= 'f') || ('A' <= c && c <= 'F')) {
            assert(!is_hex_digit(piece@[i as int]));
            return false;
        }
    }
    true
}

fn octet(piece: &Vec<char>) -> (result: bool)
    ensures
        result == is_octet(piece@),
{
    if piece.len() < 1 || piece.len() > 3 {
        return false;
    }
    if piece.len() > 1 && piece[0] == '0' {
        return false;
    }
    let mut value: u32 = 0;
    assert(piece@.take(0) =~= seq![]);
    for i in 0..piece.len()
        invariant
            piece@.len() <= 3,
            value == decimal_value(piece@.take(i as int)),
            i == 0 ==> value == 0,
            i == 1 ==> value <= 9,
            i == 2 ==> value <= 99,
            i == 3 ==> value <= 999,
            forall|j: int| 0 <= j < i ==> is_digit(#[trigger] piece@[j]),
    {
        let c = piece[i];
        if c < '0' || '9' < c {
            assert(!is_digit(piece@[i as int]));
            return false;
        }
        assert(piece@.take(i + 1).drop_last() =~= piece@.take(i as int));
        value = value * 10 + (c as u32 - '0' as u32);
    }
    assert(piece@.take(piece@.len() as int) =~= piece@);
    value <= 255
}

fn ipv4(piece: &Vec<char>) -> (result: bool)
    ensures
        result == is_ipv4(piece@),
{
    assert(piece@.subrange(0, piece@.len() as int) =~= piece@);
    let octets = split(piece, 0, piece.len(), '.');
    let ghost parts = pieces(piece@, '.');
    assert(parts == shown(octets@));
    if octets.len() != 4 {
        return false;
    }
    for i in 0..octets.len()
        invariant
            parts == pieces(piece@, '.'),
            parts == shown(octets@),
            forall|j: int| 0 <= j < i ==> is_octet(#[trigger] parts[j]),
    {
        if !octet(&octets[i]) {
            assert(!is_octet(parts[i as int]));
            return false;
        }
    }
    true
}

/// How many groups `chars[from..to]` writes, up to eight.
fn count_groups(chars: &Vec<char>, from: usize, to: usize, tail: bool) -> (result: Option<usize>)
    requires
        from <= to <= chars@.len(),
    ensures
        match group_count(chars@.subrange(from as int, to as int), tail) {
            Some(count) if count <= 8 => result == Some(count as usize),
            _ => result is None,
        },
{
    if from == to {
        return Some(0);
    }
    let ghost list = chars@.subrange(from as int, to as int);
    let parts = split(chars, from, to, ':');
    let ghost spelled = pieces(list, ':');
    if parts.len() > 8 {
        return None;
    }
    let last: usize = parts.len() - 1;
    for i in 0..last
        invariant
            last == parts@.len() - 1,
            spelled == shown(parts@),
            forall|j: int| 0 <= j < i ==> is_group(#[trigger] spelled[j]),
            from < to <= chars@.len(),
            list == chars@.subrange(from as int, to as int),
            spelled == pieces(list, ':'),
    {
        if !group(&parts[i]) {
            assert(!is_group(spelled[i as int]));
            return None;
        }
    }
    if group(&parts[last]) {
        Some(parts.len())
    } else if tail && ipv4(&parts[last]) && parts.len() < 8 {
        Some(parts.len() + 1)
    } else {
        None
    }
}

/// Whether `chars` is an IPv6 address in which a double colon stands at `at`.
fn compressed(chars: &Vec<char>, at: usize) -> (result: bool)
    requires
        at < chars@.len() - 1,
    ensures
        result == is_compressed(chars@, at as int),
{
    let len: usize = chars.len();
    assert(chars@.take(at as int) =~= chars@.subrange(0, at as int));
    assert(chars@.skip(at + 2) =~= chars@.subrange(at + 2, chars@.len() as int));
    if chars[at] != ':' || chars[at + 1] != ':' {
        return false;
    }
    match (count_groups(chars, 0, at, false), count_groups(chars, at + 2, len, true)) {
        (Some(head), Some(tail)) => head + tail <= 7,
        _ => false,
    }
}

/// Whether `host` is an IPv6 address.
pub fn ipv6(host: &str) -> (result: bool)
    ensures
        result == is_ipv6(host@),
{
    let chars = chars_of(host);
    assert(chars@.subrange(0, chars@.len() as int) =~= chars@);
    if let Some(8) = count_groups(&chars, 0, chars.len(), true) {
        return true;
    }
    if chars.len() < 2 {
        return false;
    }
    let last: usize = chars.len() - 1;
    for at in 0..last
        invariant
            chars@ == host@,
            last == host@.len() - 1,
            forall|i: int| 0 <= i < at ==> !#[trigger] is_compressed(host@, i),
    {
        if compressed(&chars, at) {
            return true;
        }
    }
    false
}

/// Format a host for use in a URL: an IPv6 address goes into brackets, so that
/// `host:port` is unambiguous.
pub fn host_for_url(host: &str) -> (result: String)
    ensures
        result@ == url_host(host@),
{
    if ipv6(host) {
        proof {
            reveal_strlit("[");
            reveal_strlit("]");
        }
        let mut result = "[".to_owned();
        result.append(host);
        result.append("]");
        assert(result@ =~= seq!['['] + host@ + seq![']']);
        result
    } else {
        host.to_owned()
    }
}

/// Format the source part of a connection line.
pub fn format_connection_source(peer: &PeerAddr) -> (result: String)
    ensures
        result@ == connection_source(peer@),
{
    proof {
        reveal_strlit("[");
        reveal_strlit("]:");
        reveal_strlit(":");
    }
    match peer {
        PeerAddr::V4 { ip, port } => {
            let mut result = ip.clone();
            result.append(":");
            result.append(text::u64_text(*port as u64).as_str());
            assert(result@ =~= ip@ + seq![':'] + decimal(*port as nat));
            result
        },
        PeerAddr::V6 { ip, port } => {
            let mut result = "[".to_owned();
            result.append(ip.as_str());
            result.append("]:");
            result.append(text::u64_text(*port as u64).as_str());
            assert(result@ =~= seq!['['] + ip@ + seq![']', ':'] + decimal(*port as nat));
            result
        },
    }
}

} // verus!
