//! The spellings of addresses, and what the syntax of addresses lets
//! through: every address has a text that denotes it, an IPv4 address has
//! no other, and a text with a foreign character denotes none.

use crate::address::{
    around_gap, double_colon, group_in, groups_in, hex_value, ip_of_text, ipv6_groups, is_digit,
    is_hex_digit, octet_in, quad_in, side_in, IpAddress,
};
use crate::text::{field_end, lemma_field_end, lemma_field_ends_at};
use vstd::prelude::*;

verus! {

/// The character that writes the decimal digit `d`.
pub open spec fn digit_char(d: int) -> char {
    (d + 48) as char
}

/// The decimal text of an octet, without leading zeros.
pub open spec fn octet_text(n: u8) -> Seq<char> {
    if n < 10 {
        seq![digit_char(n as int)]
    } else if n < 100 {
        seq![digit_char(n as int / 10), digit_char(n as int % 10)]
    } else {
        seq![digit_char(n as int / 100), digit_char(n as int / 10 % 10), digit_char(n as int % 10)]
    }
}

/// The dotted-quad text of an IPv4 address.
pub open spec fn ipv4_text(a: u8, b: u8, c: u8, d: u8) -> Seq<char> {
    octet_text(a) + seq!['.'] + octet_text(b) + seq!['.'] + octet_text(c) + seq!['.']
        + octet_text(d)
}

/// The character that writes the hexadecimal digit `d`, in lower case.
pub open spec fn hex_char(d: int) -> char {
    if d < 10 {
        (d + 48) as char
    } else {
        (d + 87) as char
    }
}

/// The hexadecimal text of a group, in lower case and without leading zeros.
pub open spec fn group_text(g: u16) -> Seq<char> {
    if g < 16 {
        seq![hex_char(g as int)]
    } else if g < 256 {
        seq![hex_char(g as int / 16), hex_char(g as int % 16)]
    } else if g < 4096 {
        seq![hex_char(g as int / 256), hex_char(g as int / 16 % 16), hex_char(g as int % 16)]
    } else {
        seq![
            hex_char(g as int / 4096),
            hex_char(g as int / 256 % 16),
            hex_char(g as int / 16 % 16),
            hex_char(g as int % 16),
        ]
    }
}

/// The texts of groups, joined by colons.
pub open spec fn groups_text(groups: Seq<u16>) -> Seq<char>
    decreases groups.len(),
{
    if groups.len() == 0 {
        Seq::empty()
    } else if groups.len() == 1 {
        group_text(groups[0])
    } else {
        group_text(groups[0]) + seq![':'] + groups_text(groups.drop_first())
    }
}

/// The text of an IPv6 address in which `::` stands for the zero groups
/// between the groups `head` and the groups `tail`.
pub open spec fn gap_text(head: Seq<u16>, tail: Seq<u16>) -> Seq<char> {
    groups_text(head) + seq![':', ':'] + groups_text(tail)
}

/// Two colons stand in a row at `i`.
pub open spec fn colons_at(s: Seq<char>, i: int) -> bool {
    s[i] == ':' && s[i + 1] == ':'
}

/// Where `s` holds the text of `n` from `lo` on, it holds the octet `n` there.
proof fn lemma_text_is_octet(s: Seq<char>, lo: int, n: u8)
    requires
        0 <= lo,
        lo + octet_text(n).len() <= s.len(),
        forall|i: int| 0 <= i < octet_text(n).len() ==> s[lo + i] == #[trigger] octet_text(n)[i],
    ensures
        octet_in(s, lo, lo + octet_text(n).len()) == Some(n),
        forall|i: int| lo <= i < lo + octet_text(n).len() ==> s[i] != '.',
{
    let t = octet_text(n);
    assert(s[lo] == t[0]);
    if n >= 10 {
        assert(s[lo + 1] == t[1]);
    }
    if n >= 100 {
        assert(s[lo + 2] == t[2]);
    }
    assert forall|i: int| lo <= i < lo + t.len() implies s[i] != '.' by {
        assert(s[lo + (i - lo)] == t[i - lo]);
    }
}

/// Where `s` holds an octet in `lo..hi`, it holds the text of that octet there.
proof fn lemma_octet_is_text(s: Seq<char>, lo: int, hi: int)
    requires
        0 <= lo <= hi <= s.len(),
        octet_in(s, lo, hi) is Some,
    ensures
        s.subrange(lo, hi) == octet_text(octet_in(s, lo, hi)->0),
{
    let n = octet_in(s, lo, hi)->0;
    assert(s.subrange(lo, hi) =~= octet_text(n));
}

/// A text cut at three dots is its four fields with the dots between them.
proof fn lemma_four_fields(s: Seq<char>, lo: int, e1: int, e2: int, e3: int, hi: int)
    requires
        0 <= lo <= e1 < e2 < e3 < hi <= s.len(),
        s[e1] == '.',
        s[e2] == '.',
        s[e3] == '.',
    ensures
        s.subrange(lo, hi) == s.subrange(lo, e1) + seq!['.'] + s.subrange(e1 + 1, e2) + seq!['.']
            + s.subrange(e2 + 1, e3) + seq!['.'] + s.subrange(e3 + 1, hi),
{
    assert(s.subrange(lo, hi) =~= s.subrange(lo, e1) + seq!['.'] + s.subrange(e1 + 1, e2)
        + seq!['.'] + s.subrange(e2 + 1, e3) + seq!['.'] + s.subrange(e3 + 1, hi));
}

/// Where `s` holds a dotted quad in `lo..hi`, it holds the text of that
/// quad there.
pub proof fn lemma_quad_is_text(s: Seq<char>, lo: int, hi: int)
    requires
        0 <= lo <= hi <= s.len(),
        quad_in(s, lo, hi) is Some,
    ensures
        ({
            let q = quad_in(s, lo, hi)->0;
            s.subrange(lo, hi) == ipv4_text(q.0, q.1, q.2, q.3)
        }),
{
    let e1 = field_end(s, lo, hi, '.');
    lemma_field_end(s, lo, hi, '.');
    let e2 = field_end(s, e1 + 1, hi, '.');
    lemma_field_end(s, e1 + 1, hi, '.');
    let e3 = field_end(s, e2 + 1, hi, '.');
    lemma_field_end(s, e2 + 1, hi, '.');
    lemma_octet_is_text(s, lo, e1);
    lemma_octet_is_text(s, e1 + 1, e2);
    lemma_octet_is_text(s, e2 + 1, e3);
    lemma_octet_is_text(s, e3 + 1, hi);
    lemma_four_fields(s, lo, e1, e2, e3, hi);
}

/// Every IPv4 address is denoted by its dotted-quad text.
pub proof fn lemma_ipv4_text_denotes(a: u8, b: u8, c: u8, d: u8)
    ensures
        ip_of_text(ipv4_text(a, b, c, d)) == Some(IpAddress::V4(a, b, c, d)),
{
    let s = ipv4_text(a, b, c, d);
    let n = s.len() as int;
    let e1 = octet_text(a).len() as int;
    let e2 = e1 + 1 + octet_text(b).len();
    let e3 = e2 + 1 + octet_text(c).len();
    lemma_text_is_octet(s, 0, a);
    lemma_text_is_octet(s, e1 + 1, b);
    lemma_text_is_octet(s, e2 + 1, c);
    lemma_text_is_octet(s, e3 + 1, d);
    lemma_field_ends_at(s, 0, e1, n, '.');
    lemma_field_ends_at(s, e1 + 1, e2, n, '.');
    lemma_field_ends_at(s, e2 + 1, e3, n, '.');
}

/// A text that denotes an IPv4 address is the dotted-quad text of that
/// address: no IPv4 address has a second spelling.
pub proof fn lemma_ipv4_has_one_text(s: Seq<char>, a: u8, b: u8, c: u8, d: u8)
    requires
        ip_of_text(s) == Some(IpAddress::V4(a, b, c, d)),
    ensures
        s == ipv4_text(a, b, c, d),
{
    assert(quad_in(s, 0, s.len() as int) == Some((a, b, c, d)));
    lemma_quad_is_text(s, 0, s.len() as int);
    assert(s.subrange(0, s.len() as int) =~= s);
}

/// A hexadecimal digit is read back from the character that writes it.
proof fn lemma_hex_char(d: int)
    requires
        0 <= d < 16,
    ensures
        is_hex_digit(hex_char(d)),
        hex_value(hex_char(d)) == d,
        hex_char(d) != ':',
        hex_char(d) != '.',
{
}

/// A group is the sum of its four hexadecimal digits, each at its weight.
proof fn lemma_hex_digits(g: u16)
    ensures
        g as int == 4096 * (g as int / 4096) + 256 * (g as int / 256 % 16) + 16 * (g as int / 16
            % 16) + g as int % 16,
        0 <= g as int / 4096 < 16,
        g < 4096 ==> g as int / 256 % 16 == g as int / 256,
        g < 256 ==> g as int / 16 % 16 == g as int / 16,
{
}

/// Where `s` holds the text of `g` from `lo` on, it holds the group `g`
/// there, and neither a colon nor a dot.
proof fn lemma_text_is_group(s: Seq<char>, lo: int, g: u16)
    requires
        0 <= lo,
        lo + group_text(g).len() <= s.len(),
        forall|i: int| 0 <= i < group_text(g).len() ==> s[lo + i] == #[trigger] group_text(g)[i],
    ensures
        group_in(s, lo, lo + group_text(g).len()) == Some(g),
        forall|i: int| lo <= i < lo + group_text(g).len() ==> s[i] != ':' && s[i] != '.',
{
    let t = group_text(g);
    let v = g as int;
    lemma_hex_digits(g);
    lemma_hex_char(v / 4096);
    lemma_hex_char(v / 256 % 16);
    lemma_hex_char(v / 16 % 16);
    lemma_hex_char(v % 16);
    assert(s[lo] == t[0]);
    if g >= 16 {
        assert(s[lo + 1] == t[1]);
    }
    if g >= 256 {
        assert(s[lo + 2] == t[2]);
    }
    if g >= 4096 {
        assert(s[lo + 3] == t[3]);
    }
    assert forall|i: int| lo <= i < lo + t.len() implies s[i] != ':' && s[i] != '.' by {
        assert(s[lo + (i - lo)] == t[i - lo]);
    }
}

/// The joined texts of groups are at least as long as the text of the
/// first, and longer where more groups follow.
proof fn lemma_groups_text_len(groups: Seq<u16>)
    requires
        groups.len() >= 1,
    ensures
        1 <= group_text(groups[0]).len() <= 4,
        groups.len() == 1 ==> groups_text(groups).len() == group_text(groups[0]).len(),
        groups.len() > 1 ==> groups_text(groups).len() == group_text(groups[0]).len() + 1
            + groups_text(groups.drop_first()).len(),
{
}

/// Where `s` holds the joined texts of one or more groups in `lo..hi`, it
/// holds those groups there; the stretch has no dot, no colon at either
/// end and no two colons in a row.
proof fn lemma_texts_are_groups(s: Seq<char>, lo: int, hi: int, groups: Seq<u16>, quad_last: bool)
    requires
        groups.len() >= 1,
        0 <= lo <= hi <= s.len(),
        s.subrange(lo, hi) == groups_text(groups),
    ensures
        lo < hi,
        groups_in(s, lo, hi, quad_last) == Some(groups),
        forall|i: int| lo <= i < hi ==> s[i] != '.',
        forall|i: int| lo <= i < hi - 1 ==> !#[trigger] colons_at(s, i),
        s[lo] != ':',
        s[hi - 1] != ':',
    decreases groups.len(),
{
    let whole = s.subrange(lo, hi);
    let first = group_text(groups[0]);
    let e = lo + first.len();
    lemma_groups_text_len(groups);
    assert(whole.len() == hi - lo);
    assert(e <= hi);
    assert forall|i: int| 0 <= i < first.len() implies s[lo + i] == #[trigger] first[i] by {
        assert(whole[i] == s[lo + i]);
        assert(groups_text(groups)[i] == first[i]);
    }
    lemma_text_is_group(s, lo, groups[0]);
    if groups.len() == 1 {
        lemma_field_ends_at(s, lo, hi, hi, ':');
        assert(seq![groups[0]] =~= groups);
    } else {
        let rest = groups.drop_first();
        assert(e < hi);
        assert(s[e] == ':') by {
            assert(whole[e - lo] == s[e]);
            assert(groups_text(groups)[e - lo] == ':');
        }
        lemma_field_ends_at(s, lo, e, hi, ':');
        assert(s.subrange(e + 1, hi) =~= groups_text(rest)) by {
            assert(groups_text(rest).len() == hi - e - 1);
            assert forall|i: int| 0 <= i < hi - e - 1 implies s.subrange(e + 1, hi)[i]
                == groups_text(rest)[i] by {
                assert(whole[first.len() + 1 + i] == s[e + 1 + i]);
                assert(groups_text(groups)[first.len() + 1 + i] == groups_text(rest)[i]);
            }
        }
        lemma_texts_are_groups(s, e + 1, hi, rest, quad_last);
        assert(seq![groups[0]] + rest =~= groups);
        assert forall|i: int| lo <= i < hi - 1 implies !#[trigger] colons_at(s, i) by {
            if i < e - 1 {
                assert(s[i + 1] != ':');
            } else if i == e - 1 {
                assert(s[i] != ':');
            } else if i == e {
                assert(s[e + 1] != ':');
            } else {
                assert(!colons_at(s, i));
            }
        }
    }
}

/// Where no two colons stand in a row from `lo` up to `d`, and two stand at
/// `d`, the first `::` from `lo` on is at `d`; where none stand in a row up
/// to the end, there is no `::`.
proof fn lemma_double_colon_at(s: Seq<char>, lo: int, d: int)
    requires
        0 <= lo <= d <= s.len(),
        forall|i: int| lo <= i < d && i + 1 < s.len() ==> !#[trigger] colons_at(s, i),
        d < s.len() ==> d + 1 < s.len() && colons_at(s, d),
    ensures
        double_colon(s, lo) == d,
    decreases d - lo,
{
    if lo < d && lo + 1 < s.len() {
        assert(!colons_at(s, lo));
        lemma_double_colon_at(s, lo + 1, d);
    }
}

/// The joined texts of eight groups denote the IPv6 address of those
/// groups: every IPv6 address has a text.
pub proof fn lemma_ipv6_text_denotes(groups: Seq<u16>)
    requires
        groups.len() == 8,
    ensures
        ip_of_text(groups_text(groups)) == Some(
            IpAddress::V6(
                groups[0],
                groups[1],
                groups[2],
                groups[3],
                groups[4],
                groups[5],
                groups[6],
                groups[7],
            ),
        ),
{
    let s = groups_text(groups);
    let n = s.len() as int;
    assert(s.subrange(0, n) =~= s);
    lemma_texts_are_groups(s, 0, n, groups, true);
    lemma_field_ends_at(s, 0, n, n, '.');
    lemma_double_colon_at(s, 0, n);
}

/// In a text with `::` between the joined texts of `head` and of `tail`,
/// the first `::` is the one between them, each side holds its groups, and
/// the whole is no dotted quad.
proof fn lemma_gap_text_sides(head: Seq<u16>, tail: Seq<u16>)
    ensures
        ({
            let s = gap_text(head, tail);
            let d = groups_text(head).len() as int;
            &&& s.len() == d + 2 + groups_text(tail).len()
            &&& quad_in(s, 0, s.len() as int) is None
            &&& double_colon(s, 0) == d
            &&& side_in(s, 0, d, false) == Some(head)
            &&& side_in(s, d + 2, s.len() as int, true) == Some(tail)
        }),
{
    let s = gap_text(head, tail);
    let n = s.len() as int;
    let d = groups_text(head).len() as int;
    assert(n == d + 2 + groups_text(tail).len());
    assert(s[d] == ':' && s[d + 1] == ':');
    if head.len() > 0 {
        assert(s.subrange(0, d) =~= groups_text(head));
        lemma_texts_are_groups(s, 0, d, head, false);
    } else {
        assert(head =~= Seq::empty());
    }
    if tail.len() > 0 {
        assert(s.subrange(d + 2, n) =~= groups_text(tail));
        lemma_texts_are_groups(s, d + 2, n, tail, true);
    } else {
        assert(tail =~= Seq::empty());
    }
    assert(quad_in(s, 0, n) is None) by {
        assert forall|i: int| 0 <= i < n implies s[i] != '.' by {}
        lemma_field_ends_at(s, 0, n, n, '.');
    }
    assert(double_colon(s, 0) == d) by {
        assert(colons_at(s, d));
        assert forall|i: int| 0 <= i < d && i + 1 < n implies !#[trigger] colons_at(s, i) by {
            if i == d - 1 {
                assert(s[d - 1] != ':');
            }
        }
        lemma_double_colon_at(s, 0, d);
    }
}

/// A text in which `::` stands between the joined texts of the groups
/// `head` and of the groups `tail`, seven groups at most, denotes the IPv6
/// address with `head` at its start, `tail` at its end and zero groups in
/// between.
pub proof fn lemma_gap_text_denotes(head: Seq<u16>, tail: Seq<u16>)
    requires
        head.len() + tail.len() <= 7,
    ensures
        ({
            let g = around_gap(head, tail);
            ip_of_text(gap_text(head, tail)) == Some(
                IpAddress::V6(g[0], g[1], g[2], g[3], g[4], g[5], g[6], g[7]),
            )
        }),
{
    lemma_gap_text_sides(head, tail);
    let s = gap_text(head, tail);
    assert(ipv6_groups(s) == Some(around_gap(head, tail)));
}

/// The first `::` is in the text, and two colons stand there.
proof fn lemma_double_colon(s: Seq<char>, lo: int)
    requires
        0 <= lo,
    ensures
        lo <= double_colon(s, lo) || double_colon(s, lo) == s.len(),
        double_colon(s, lo) < s.len() ==> double_colon(s, lo) + 1 < s.len() && colons_at(
            s,
            double_colon(s, lo),
        ),
    decreases s.len() - lo,
{
    if lo + 1 < s.len() && !(s[lo] == ':' && s[lo + 1] == ':') {
        lemma_double_colon(s, lo + 1);
    }
}

/// A stretch that holds a character which is neither a decimal digit nor a
/// dot holds no dotted quad.
proof fn lemma_no_quad(s: Seq<char>, lo: int, hi: int, i: int)
    requires
        0 <= lo <= i < hi <= s.len(),
        !is_digit(s[i]),
        s[i] != '.',
    ensures
        quad_in(s, lo, hi) is None,
{
    let e1 = field_end(s, lo, hi, '.');
    lemma_field_end(s, lo, hi, '.');
    if e1 < hi {
        let e2 = field_end(s, e1 + 1, hi, '.');
        lemma_field_end(s, e1 + 1, hi, '.');
        if e2 < hi {
            let e3 = field_end(s, e2 + 1, hi, '.');
            lemma_field_end(s, e2 + 1, hi, '.');
        }
    }
}

/// A stretch that holds a character which is neither a hexadecimal digit
/// nor a colon nor a dot holds no groups.
proof fn lemma_no_groups(s: Seq<char>, lo: int, hi: int, i: int, quad_last: bool)
    requires
        0 <= lo <= i < hi <= s.len(),
        !is_hex_digit(s[i]),
        s[i] != ':',
        s[i] != '.',
    ensures
        groups_in(s, lo, hi, quad_last) is None,
    decreases hi - lo,
{
    let e = field_end(s, lo, hi, ':');
    lemma_field_end(s, lo, hi, ':');
    if e >= hi {
        lemma_no_quad(s, lo, hi, i);
    } else if i > e {
        lemma_no_groups(s, e + 1, hi, i, quad_last);
    }
}

/// The empty text denotes no address.
pub proof fn lemma_empty_text_denotes_nothing()
    ensures
        ip_of_text(Seq::empty()) is None,
{
}

/// A text that holds a character other than a hexadecimal digit, a colon
/// or a dot denotes no address.
pub proof fn lemma_foreign_character(s: Seq<char>, i: int)
    requires
        0 <= i < s.len(),
        !is_hex_digit(s[i]),
        s[i] != ':',
        s[i] != '.',
    ensures
        ip_of_text(s) is None,
{
    lemma_no_quad(s, 0, s.len() as int, i);
    let d = double_colon(s, 0);
    lemma_double_colon(s, 0);
    if d >= s.len() {
        lemma_no_groups(s, 0, s.len() as int, i, true);
    } else if i < d {
        lemma_no_groups(s, 0, d, i, false);
    } else {
        lemma_no_groups(s, d + 2, s.len() as int, i, true);
    }
}

} // verus!
