//! What holds of IP addresses in text.

use crate::address::{
    group_count, is_compressed, is_group, is_hex_digit, is_ipv4, is_ipv6, is_octet, pieces,
    url_host,
};
use crate::laws::text::{law_decimal, lemma_digits_are_a_numeral, zeros};
use crate::text::{decimal, decimal_value, is_digit};
use vstd::prelude::*;

verus! {

/// The parts one after another, with `separator` between them.
pub open spec fn joined(parts: Seq<Seq<char>>, separator: char) -> Seq<char>
    decreases parts.len(),
{
    if parts.len() == 0 {
        seq![]
    } else if parts.len() == 1 {
        parts[0]
    } else {
        joined(parts.drop_last(), separator) + seq![separator] + parts.last()
    }
}

/// Whether no part has `separator` in it.
pub open spec fn are_apart(parts: Seq<Seq<char>>, separator: char) -> bool {
    forall|k: int, i: int|
        0 <= k < parts.len() && 0 <= i < parts[k].len() ==> #[trigger] parts[k][i] != separator
}

/// The pieces of a text, joined again, are the text, and no piece has the separator in it.
pub proof fn law_pieces_join(text: Seq<char>, separator: char)
    ensures
        pieces(text, separator).len() > 0,
        joined(pieces(text, separator), separator) == text,
        are_apart(pieces(text, separator), separator),
    decreases text.len(),
{
    if text.len() == 0 {
        assert(joined(pieces(text, separator), separator) =~= text);
    } else {
        let init = text.drop_last();
        let c = text.last();
        law_pieces_join(init, separator);
        let before = pieces(init, separator);
        let all = pieces(text, separator);
        assert(text =~= init.push(c));
        if c == separator {
            assert(all.drop_last() =~= before);
            assert(joined(all, separator) =~= init + seq![separator] + seq![]);
        } else {
            assert(all.drop_last() =~= before.drop_last());
            assert(all.last() == before.last().push(c));
            assert forall|k: int, i: int|
                0 <= k < all.len() && 0 <= i < all[k].len() implies #[trigger] all[k][i]
                != separator by {
                if k < before.len() - 1 {
                    assert(all[k][i] == before[k][i]);
                } else if i < before[k].len() {
                    assert(all[k][i] == before[k][i]);
                }
            }
            if before.len() == 1 {
                assert(joined(all, separator) =~= text);
            } else {
                assert(joined(before, separator) == joined(before.drop_last(), separator)
                    + seq![separator] + before.last());
                assert(joined(all, separator) =~= text);
            }
        }
    }
}

proof fn lemma_single_piece(part: Seq<char>, separator: char)
    requires
        !part.contains(separator),
    ensures
        pieces(part, separator) == seq![part],
    decreases part.len(),
{
    if part.len() == 0 {
        assert(part =~= seq![]);
        assert(pieces(part, separator) =~= seq![part]);
    } else {
        let init = part.drop_last();
        assert forall|i: int| 0 <= i < init.len() implies init[i] != separator by {
            assert(part[i] == init[i]);
        }
        assert(part[part.len() - 1] != separator);
        lemma_single_piece(init, separator);
        assert(init.push(part.last()) =~= part);
        assert(pieces(part, separator) =~= seq![part]);
    }
}

proof fn lemma_one_more_piece(text: Seq<char>, part: Seq<char>, separator: char)
    requires
        !part.contains(separator),
    ensures
        pieces(text + seq![separator] + part, separator) == pieces(text, separator).push(part),
    decreases part.len(),
{
    let all = text + seq![separator] + part;
    if part.len() == 0 {
        assert(all.drop_last() =~= text);
        assert(all.last() == separator);
        assert(part =~= seq![]);
    } else {
        let init = part.drop_last();
        assert forall|i: int| 0 <= i < init.len() implies init[i] != separator by {
            assert(part[i] == init[i]);
        }
        assert(part[part.len() - 1] != separator);
        lemma_one_more_piece(text, init, separator);
        assert(all.drop_last() =~= text + seq![separator] + init);
        assert(all.last() == part.last());
        assert(init.push(part.last()) =~= part);
        assert(pieces(all, separator) =~= pieces(text, separator).push(part));
    }
}

/// Parts without the separator in them, joined, are taken apart again as they were.
pub proof fn law_parts_come_apart(parts: Seq<Seq<char>>, separator: char)
    requires
        parts.len() > 0,
        are_apart(parts, separator),
    ensures
        pieces(joined(parts, separator), separator) == parts,
    decreases parts.len(),
{
    let last = parts.len() - 1;
    assert forall|i: int| 0 <= i < parts[last].len() implies parts[last][i] != separator by {}
    assert(!parts[last].contains(separator));
    if parts.len() == 1 {
        lemma_single_piece(parts[0], separator);
        assert(parts =~= seq![parts[0]]);
    } else {
        let init = parts.drop_last();
        assert forall|k: int, i: int|
            0 <= k < init.len() && 0 <= i < init[k].len() implies #[trigger] init[k][i]
            != separator by {
            assert(parts[k][i] == init[k][i]);
        }
        law_parts_come_apart(init, separator);
        lemma_one_more_piece(joined(init, separator), parts.last(), separator);
        assert(parts =~= init.push(parts.last()));
    }
}

/// Whether `group` is one to four hexadecimal digits.
pub open spec fn is_hex_group(group: Seq<char>) -> bool {
    &&& group.len() == 1 || group.len() == 2 || group.len() == 3 || group.len() == 4
    &&& forall|i: int|
        0 <= i < group.len() ==> {
            ||| '0' <= #[trigger] group[i] <= '9'
            ||| 'a' <= group[i] <= 'f'
            ||| 'A' <= group[i] <= 'F'
        }
}

/// Four numbers in decimal, with dots between them.
pub open spec fn dotted(a: u8, b: u8, c: u8, d: u8) -> Seq<char> {
    decimal(a as nat) + "."@ + decimal(b as nat) + "."@ + decimal(c as nat) + "."@ + decimal(
        d as nat,
    )
}

/// An octet is a number up to 255 in decimal.
pub proof fn law_octet(piece: Seq<char>)
    ensures
        is_octet(piece) <==> exists|n: u8| piece == #[trigger] decimal(n as nat),
{
    if is_octet(piece) {
        let count = lemma_digits_are_a_numeral(piece);
        let n = decimal_value(piece);
        law_decimal(n);
        if count > 0 {
            assert(piece[0] == zeros(count)[0]);
            assert(piece.len() > 1);
        }
        assert(piece =~= decimal(n));
        assert(piece == decimal((n as u8) as nat));
    }
    if exists|n: u8| piece == #[trigger] decimal(n as nat) {
        let n = choose|n: u8| piece == #[trigger] decimal(n as nat);
        let m = n as nat;
        law_decimal(m);
        if m >= 10 {
            assert(decimal(m).len() == decimal(m / 10).len() + 1);
        }
        if m >= 100 {
            assert(decimal(m / 10).len() == decimal(m / 10 / 10).len() + 1);
        }
    }
}

proof fn lemma_four(parts: Seq<Seq<char>>)
    requires
        parts.len() == 4,
    ensures
        joined(parts, '.') == parts[0] + "."@ + parts[1] + "."@ + parts[2] + "."@ + parts[3],
{
    reveal_strlit(".");
    assert("."@ =~= seq!['.']);
    let three = parts.drop_last();
    let two = three.drop_last();
    assert(two.drop_last() =~= seq![parts[0]]);
    assert(joined(two.drop_last(), '.') == parts[0]);
    assert(joined(two, '.') == parts[0] + seq!['.'] + parts[1]);
    assert(joined(three, '.') == joined(two, '.') + seq!['.'] + parts[2]);
    assert(joined(parts, '.') == joined(three, '.') + seq!['.'] + parts[3]);
}

/// An IPv4 address is four numbers up to 255 in decimal, with dots between them.
pub proof fn law_ipv4(text: Seq<char>)
    ensures
        is_ipv4(text) <==> exists|a: u8, b: u8, c: u8, d: u8| text == #[trigger] dotted(a, b, c, d),
{
    if is_ipv4(text) {
        let octets = pieces(text, '.');
        law_pieces_join(text, '.');
        lemma_four(octets);
        law_octet(octets[0]);
        law_octet(octets[1]);
        law_octet(octets[2]);
        law_octet(octets[3]);
        let a = choose|n: u8| octets[0] == #[trigger] decimal(n as nat);
        let b = choose|n: u8| octets[1] == #[trigger] decimal(n as nat);
        let c = choose|n: u8| octets[2] == #[trigger] decimal(n as nat);
        let d = choose|n: u8| octets[3] == #[trigger] decimal(n as nat);
        assert(text == dotted(a, b, c, d));
    }
    if exists|a: u8, b: u8, c: u8, d: u8| text == #[trigger] dotted(a, b, c, d) {
        let (a, b, c, d) = choose|a: u8, b: u8, c: u8, d: u8|
            text == #[trigger] dotted(a, b, c, d);
        lemma_dotted(a, b, c, d);
    }
}

proof fn lemma_dotted(a: u8, b: u8, c: u8, d: u8)
    ensures
        is_ipv4(dotted(a, b, c, d)),
        dotted(a, b, c, d).contains('.'),
        forall|i: int|
            0 <= i < dotted(a, b, c, d).len() ==> #[trigger] dotted(a, b, c, d)[i] != ':',
        !is_group(dotted(a, b, c, d)),
        dotted(a, b, c, d).len() > 0,
{
    let text = dotted(a, b, c, d);
    let octets = seq![decimal(a as nat), decimal(b as nat), decimal(c as nat), decimal(d as nat)];
    lemma_four(octets);
    law_decimal(a as nat);
    law_decimal(b as nat);
    law_decimal(c as nat);
    law_decimal(d as nat);
    assert forall|k: int, i: int|
        0 <= k < octets.len() && 0 <= i < octets[k].len() implies #[trigger] octets[k][i]
        != '.' by {
        assert(is_digit(octets[k][i]));
    }
    law_parts_come_apart(octets, '.');
    law_octet(octets[0]);
    law_octet(octets[1]);
    law_octet(octets[2]);
    law_octet(octets[3]);
    reveal_strlit(".");
    assert(text[decimal(a as nat).len() as int] == '.');
    assert(!is_hex_digit(text[decimal(a as nat).len() as int]));
    let three = decimal(a as nat) + "."@ + decimal(b as nat) + "."@ + decimal(c as nat) + "."@;
    let two = decimal(a as nat) + "."@ + decimal(b as nat) + "."@;
    assert forall|i: int| 0 <= i < text.len() implies #[trigger] text[i] != ':' by {
        let first = decimal(a as nat).len();
        if i < first {
            assert(text[i] == decimal(a as nat)[i]);
        } else if i == first {
        } else if i < two.len() - 1 {
            assert(text[i] == decimal(b as nat)[i - first - 1]);
        } else if i == two.len() - 1 {
        } else if i < three.len() - 1 {
            assert(text[i] == decimal(c as nat)[i - two.len()]);
        } else if i == three.len() - 1 {
        } else {
            assert(text[i] == decimal(d as nat)[i - three.len()]);
        }
    }
}

/// Whether all of these are groups of hexadecimal digits.
pub open spec fn are_hex_groups(groups: Seq<Seq<char>>) -> bool {
    forall|i: int| 0 <= i < groups.len() ==> is_hex_group(#[trigger] groups[i])
}

/// Whether `text` is `count` groups of hexadecimal digits with colons between them.
pub open spec fn is_hex_list(text: Seq<char>, count: nat) -> bool {
    exists|groups: Seq<Seq<char>>|
        are_hex_groups(groups) && groups.len() == count && text == #[trigger] joined(groups, ':')
}

/// Whether `groups` with an IPv4 address behind them is `text`.
pub open spec fn ends_dotted(text: Seq<char>, groups: Seq<Seq<char>>) -> bool {
    exists|a: u8, b: u8, c: u8, d: u8|
        text == joined(groups.push(#[trigger] dotted(a, b, c, d)), ':')
}

/// Whether `text` is such a list that ends in an IPv4 address, which counts as two groups.
pub open spec fn is_dotted_list(text: Seq<char>, count: nat) -> bool {
    exists|groups: Seq<Seq<char>>|
        are_hex_groups(groups) && groups.len() + 2 == count && #[trigger] ends_dotted(
            text,
            groups,
        )
}

proof fn lemma_hex_group(group: Seq<char>)
    ensures
        is_hex_group(group) <==> is_group(group),
        is_hex_group(group) ==> !group.contains(':'),
{
    if is_group(group) {
        assert forall|i: int| 0 <= i < group.len() implies {
            ||| '0' <= #[trigger] group[i] <= '9'
            ||| 'a' <= group[i] <= 'f'
            ||| 'A' <= group[i] <= 'F'
        } by {
            assert(is_hex_digit(group[i]));
        }
    }
}

proof fn lemma_counted_lists(text: Seq<char>, tail: bool, count: nat)
    requires
        group_count(text, tail) == Some(count),
    ensures
        is_hex_list(text, count) || tail && is_dotted_list(text, count),
{
    let parts = pieces(text, ':');
    let last = parts.len() - 1;
    law_pieces_join(text, ':');
    if text.len() == 0 {
        let none = Seq::<Seq<char>>::empty();
        assert(text =~= joined(none, ':'));
        assert(are_hex_groups(none));
    } else if is_group(parts[last]) {
        assert forall|i: int| 0 <= i < parts.len() implies is_hex_group(#[trigger] parts[i]) by {
            lemma_hex_group(parts[i]);
        }
        assert(is_hex_list(text, count));
    } else {
        let init = parts.drop_last();
        assert forall|i: int| 0 <= i < init.len() implies is_hex_group(#[trigger] init[i]) by {
            assert(init[i] == parts[i]);
            lemma_hex_group(parts[i]);
        }
        law_ipv4(parts[last]);
        let (a, b, c, d) = choose|a: u8, b: u8, c: u8, d: u8|
            parts[last] == #[trigger] dotted(a, b, c, d);
        assert(parts =~= init.push(dotted(a, b, c, d)));
        assert(ends_dotted(text, init));
        assert(is_dotted_list(text, count));
    }
}

proof fn lemma_apart_by_colons(groups: Seq<Seq<char>>)
    requires
        are_hex_groups(groups),
    ensures
        are_apart(groups, ':'),
{
    assert forall|k: int, i: int|
        0 <= k < groups.len() && 0 <= i < groups[k].len() implies #[trigger] groups[k][i]
        != ':' by {
        assert(is_hex_group(groups[k]));
    }
}

proof fn lemma_hex_lists_are_counted(text: Seq<char>, tail: bool, count: nat)
    requires
        is_hex_list(text, count),
    ensures
        group_count(text, tail) == Some(count),
{
    let groups = choose|groups: Seq<Seq<char>>|
        are_hex_groups(groups) && groups.len() == count && text == #[trigger] joined(groups, ':');
    if groups.len() > 0 {
        lemma_apart_by_colons(groups);
        law_parts_come_apart(groups, ':');
        assert forall|i: int| 0 <= i < groups.len() implies is_group(#[trigger] groups[i]) by {
            lemma_hex_group(groups[i]);
        }
        assert(is_hex_group(groups[groups.len() - 1]));
        assert(text.len() > 0);
    }
}

proof fn lemma_dotted_lists_are_counted(text: Seq<char>, count: nat)
    requires
        is_dotted_list(text, count),
    ensures
        group_count(text, true) == Some(count),
{
    let groups = choose|groups: Seq<Seq<char>>|
        are_hex_groups(groups) && groups.len() + 2 == count && #[trigger] ends_dotted(
            text,
            groups,
        );
    let (a, b, c, d) = choose|a: u8, b: u8, c: u8, d: u8|
        text == joined(groups.push(#[trigger] dotted(a, b, c, d)), ':');
    let ip = dotted(a, b, c, d);
    let parts = groups.push(ip);
    lemma_dotted(a, b, c, d);
    lemma_apart_by_colons(groups);
    assert forall|k: int, i: int|
        0 <= k < parts.len() && 0 <= i < parts[k].len() implies #[trigger] parts[k][i] != ':' by {
        if k < groups.len() {
            assert(groups[k][i] != ':');
        } else {
            assert(ip[i] != ':');
        }
    }
    law_parts_come_apart(parts, ':');
    assert forall|i: int| 0 <= i < parts.len() - 1 implies is_group(#[trigger] parts[i]) by {
        assert(is_hex_group(groups[i]));
        lemma_hex_group(groups[i]);
    }
    assert(parts[parts.len() - 1] == ip);
    assert(text.len() > 0);
}

/// Whether `text` writes fewer than eight groups around a double colon, between `before`
/// and `after`.
pub open spec fn is_around_double_colon(
    text: Seq<char>,
    before: Seq<char>,
    after: Seq<char>,
) -> bool {
    &&& text == before + "::"@ + after
    &&& exists|n: nat, m: nat|
        n + m < 8 && #[trigger] is_hex_list(before, n) && (#[trigger] is_hex_list(after, m)
            || is_dotted_list(after, m))
}

proof fn lemma_compressed(text: Seq<char>, at: int)
    requires
        0 <= at < text.len() - 1,
        is_compressed(text, at),
    ensures
        is_around_double_colon(text, text.take(at), text.skip(at + 2)),
{
    reveal_strlit("::");
    let before = text.take(at);
    let after = text.skip(at + 2);
    let n = group_count(before, false)->0;
    let m = group_count(after, true)->0;
    assert(text =~= before + "::"@ + after);
    lemma_counted_lists(before, false, n);
    lemma_counted_lists(after, true, m);
    assert(is_hex_list(before, n));
    assert(is_hex_list(after, m) || is_dotted_list(after, m));
}

proof fn lemma_around_double_colon(text: Seq<char>, before: Seq<char>, after: Seq<char>)
    requires
        is_around_double_colon(text, before, after),
    ensures
        0 <= before.len() < text.len() - 1,
        is_compressed(text, before.len() as int),
{
    reveal_strlit("::");
    let (n, m) = choose|n: nat, m: nat|
        n + m < 8 && #[trigger] is_hex_list(before, n) && (#[trigger] is_hex_list(after, m)
            || is_dotted_list(after, m));
    let at = before.len() as int;
    lemma_hex_lists_are_counted(before, false, n);
    if is_hex_list(after, m) {
        lemma_hex_lists_are_counted(after, true, m);
    } else {
        lemma_dotted_lists_are_counted(after, m);
    }
    assert(text.take(at) =~= before);
    assert(text.skip(at + 2) =~= after);
    assert(text[at] == ':' && text[at + 1] == ':');
}

/// An IPv6 address is eight groups of one to four hexadecimal digits with colons between
/// them, or fewer on the two sides of a double colon. The last two groups may be written
/// as an IPv4 address. Every such text is an address.
pub proof fn law_ipv6_forms(text: Seq<char>, before: Seq<char>, after: Seq<char>)
    ensures
        is_hex_list(text, 8) ==> is_ipv6(text),
        is_dotted_list(text, 8) ==> is_ipv6(text),
        is_around_double_colon(text, before, after) ==> is_ipv6(text),
{
    if is_hex_list(text, 8) {
        lemma_hex_lists_are_counted(text, true, 8);
    }
    if is_dotted_list(text, 8) {
        lemma_dotted_lists_are_counted(text, 8);
    }
    if is_around_double_colon(text, before, after) {
        lemma_around_double_colon(text, before, after);
    }
}

/// No other text is an IPv6 address.
pub proof fn law_no_other_ipv6_forms(text: Seq<char>)
    requires
        is_ipv6(text),
    ensures
        is_hex_list(text, 8) || is_dotted_list(text, 8) || exists|
            before: Seq<char>,
            after: Seq<char>,
        | #[trigger]
            is_around_double_colon(text, before, after),
{
    if group_count(text, true) == Some(8nat) {
        lemma_counted_lists(text, true, 8);
    } else {
        let at = choose|at: int| 0 <= at < text.len() - 1 && is_compressed(text, at);
        lemma_compressed(text, at);
    }
}

/// In a URL an IPv6 address stands in brackets, and any other host as it is.
pub proof fn law_url_host(host: Seq<char>)
    ensures
        is_ipv6(host) ==> url_host(host) == "["@ + host + "]"@,
        !is_ipv6(host) ==> url_host(host) == host,
{
    reveal_strlit("[");
    reveal_strlit("]");
    assert("["@ =~= seq!['[']);
    assert("]"@ =~= seq![']']);
}

} // verus!
