//! IP addresses and their textual syntax.
//!
//! An address is written either as a dotted quad (`8.8.8.8`) or as
//! colon-separated groups of hexadecimal digits, in which one `::` may stand
//! for a run of zero groups and the last two groups may be written as a
//! dotted quad (`::ffff:1.2.3.4`).

use crate::text::{chars_of, field_end, find};
use vstd::prelude::*;

verus! {

/// An IPv4 address by its four octets, or an IPv6 address by its eight
/// 16-bit groups, most significant first.
#[derive(Clone, Copy, Debug, PartialEq, Eq, Structural)]
pub enum IpAddress {
    V4(u8, u8, u8, u8),
    V6(u16, u16, u16, u16, u16, u16, u16, u16),
}

/// `c` is one of `0` to `9`.
pub open spec fn is_digit(c: char) -> bool {
    48 <= c as int <= 57
}

/// The value of a decimal digit.
pub open spec fn digit_value(c: char) -> int {
    c as int - 48
}

/// `c` is a decimal digit or one of `a` to `f`, `A` to `F`.
pub open spec fn is_hex_digit(c: char) -> bool {
    is_digit(c) || 97 <= c as int <= 102 || 65 <= c as int <= 70
}

/// The value of a hexadecimal digit.
pub open spec fn hex_value(c: char) -> int {
    if is_digit(c) {
        c as int - 48
    } else if 97 <= c as int <= 102 {
        c as int - 87
    } else {
        c as int - 55
    }
}

/// The octet written in `s[lo..hi)`: one to three decimal digits, without a
/// leading zero, of value at most 255.
pub open spec fn octet_in(s: Seq<char>, lo: int, hi: int) -> Option<u8> {
    let n = hi - lo;
    if n == 1 && is_digit(s[lo]) {
        Some(digit_value(s[lo]) as u8)
    } else if n == 2 && is_digit(s[lo]) && is_digit(s[lo + 1]) && digit_value(s[lo]) != 0 {
        Some((10 * digit_value(s[lo]) + digit_value(s[lo + 1])) as u8)
    } else if n == 3 && is_digit(s[lo]) && is_digit(s[lo + 1]) && is_digit(s[lo + 2])
        && digit_value(s[lo]) != 0 && 100 * digit_value(s[lo]) + 10 * digit_value(s[lo + 1])
        + digit_value(s[lo + 2]) <= 255 {
        Some(
            (100 * digit_value(s[lo]) + 10 * digit_value(s[lo + 1]) + digit_value(
                s[lo + 2],
            )) as u8,
        )
    } else {
        None
    }
}

/// The dotted quad written in `s[lo..hi)`: four octets separated by dots.
pub open spec fn quad_in(s: Seq<char>, lo: int, hi: int) -> Option<(u8, u8, u8, u8)> {
    let e1 = field_end(s, lo, hi, '.');
    let e2 = field_end(s, e1 + 1, hi, '.');
    let e3 = field_end(s, e2 + 1, hi, '.');
    if e1 < hi && e2 < hi && e3 < hi {
        match (
            octet_in(s, lo, e1),
            octet_in(s, e1 + 1, e2),
            octet_in(s, e2 + 1, e3),
            octet_in(s, e3 + 1, hi),
        ) {
            (Some(a), Some(b), Some(c), Some(d)) => Some((a, b, c, d)),
            _ => None,
        }
    } else {
        None
    }
}

/// The group written in `s[lo..hi)`: one to four hexadecimal digits.
pub open spec fn group_in(s: Seq<char>, lo: int, hi: int) -> Option<u16> {
    let n = hi - lo;
    if n == 1 && is_hex_digit(s[lo]) {
        Some(hex_value(s[lo]) as u16)
    } else if n == 2 && is_hex_digit(s[lo]) && is_hex_digit(s[lo + 1]) {
        Some((16 * hex_value(s[lo]) + hex_value(s[lo + 1])) as u16)
    } else if n == 3 && is_hex_digit(s[lo]) && is_hex_digit(s[lo + 1]) && is_hex_digit(s[lo + 2]) {
        Some((256 * hex_value(s[lo]) + 16 * hex_value(s[lo + 1]) + hex_value(s[lo + 2])) as u16)
    } else if n == 4 && is_hex_digit(s[lo]) && is_hex_digit(s[lo + 1]) && is_hex_digit(s[lo + 2])
        && is_hex_digit(s[lo + 3]) {
        Some(
            (4096 * hex_value(s[lo]) + 256 * hex_value(s[lo + 1]) + 16 * hex_value(s[lo + 2])
                + hex_value(s[lo + 3])) as u16,
        )
    } else {
        None
    }
}

/// The group that two octets make, the first one the high byte.
pub open spec fn octet_pair(hi: u8, lo: u8) -> u16 {
    (256 * hi + lo) as u16
}

/// The groups written in `s[lo..hi)` as fields separated by colons. Every
/// field is a group; where `quad_last` holds, the last field may instead be
/// a dotted quad, which stands for two groups. No field is empty.
pub open spec fn groups_in(s: Seq<char>, lo: int, hi: int, quad_last: bool) -> Option<Seq<u16>>
    decreases hi - lo,
{
    let e = field_end(s, lo, hi, ':');
    if e >= hi {
        match group_in(s, lo, hi) {
            Some(g) => Some(seq![g]),
            None => match quad_in(s, lo, hi) {
                Some((a, b, c, d)) if quad_last => Some(seq![octet_pair(a, b), octet_pair(c, d)]),
                _ => None,
            },
        }
    } else if e < lo {
        None
    } else {
        match (group_in(s, lo, e), groups_in(s, e + 1, hi, quad_last)) {
            (Some(g), Some(rest)) => Some(seq![g] + rest),
            _ => None,
        }
    }
}

/// The groups on one side of a `::`: none where the side is empty.
pub open spec fn side_in(s: Seq<char>, lo: int, hi: int, quad_last: bool) -> Option<Seq<u16>> {
    if lo >= hi {
        Some(Seq::empty())
    } else {
        groups_in(s, lo, hi, quad_last)
    }
}

/// The first position at or after `lo` where `s` holds `::`, or the length of
/// `s` if there is none.
pub open spec fn double_colon(s: Seq<char>, lo: int) -> int
    decreases s.len() - lo,
{
    if lo + 1 >= s.len() {
        s.len() as int
    } else if s[lo] == ':' && s[lo + 1] == ':' {
        lo
    } else {
        double_colon(s, lo + 1)
    }
}

/// The groups of an address whose text has `head` before the `::` and `tail`
/// after it.
pub open spec fn around_gap(head: Seq<u16>, tail: Seq<u16>) -> Seq<u16> {
    head + Seq::new((8 - head.len() - tail.len()) as nat, |i: int| 0u16) + tail
}

/// The eight groups that `s` denotes as an IPv6 address. Without `::` the
/// text holds all eight; with it, the groups before and after it stand at the
/// two ends and zero groups, at least one, fill the gap.
pub open spec fn ipv6_groups(s: Seq<char>) -> Option<Seq<u16>> {
    let d = double_colon(s, 0);
    if d >= s.len() {
        match groups_in(s, 0, s.len() as int, true) {
            Some(g) if g.len() == 8 => Some(g),
            _ => None,
        }
    } else {
        match (side_in(s, 0, d, false), side_in(s, d + 2, s.len() as int, true)) {
            (Some(h), Some(t)) if h.len() + t.len() <= 7 => Some(around_gap(h, t)),
            _ => None,
        }
    }
}

/// The address that the text `s` denotes, if it denotes one: a dotted quad,
/// or else IPv6 groups.
pub open spec fn ip_of_text(s: Seq<char>) -> Option<IpAddress> {
    match quad_in(s, 0, s.len() as int) {
        Some((a, b, c, d)) => Some(IpAddress::V4(a, b, c, d)),
        None => match ipv6_groups(s) {
            Some(g) => Some(IpAddress::V6(g[0], g[1], g[2], g[3], g[4], g[5], g[6], g[7])),
            None => None,
        },
    }
}

/// What follows once the groups `acc` have been read and `rest` is what the
/// remaining fields give.
pub open spec fn after(acc: Seq<u16>, rest: Option<Seq<u16>>) -> Option<Seq<u16>> {
    match rest {
        Some(r) => Some(acc + r),
        None => None,
    }
}

/// The value of `c` as a decimal digit, if it is one.
fn digit_of(c: char) -> (d: Option<u8>)
    ensures
        d is Some <==> is_digit(c),
        d matches Some(v) ==> v == digit_value(c),
{
    let n: u32 = c as u32;
    if 48 <= n && n <= 57 {
        Some((n - 48) as u8)
    } else {
        None
    }
}

/// The value of `c` as a hexadecimal digit, if it is one.
fn hex_digit_of(c: char) -> (d: Option<u16>)
    ensures
        d is Some <==> is_hex_digit(c),
        d matches Some(v) ==> v == hex_value(c),
{
    let n: u32 = c as u32;
    if 48 <= n && n <= 57 {
        Some((n - 48) as u16)
    } else if 97 <= n && n <= 102 {
        Some((n - 87) as u16)
    } else if 65 <= n && n <= 70 {
        Some((n - 55) as u16)
    } else {
        None
    }
}

/// Reads the octet written in `cs[lo..hi)`.
fn read_octet(cs: &Vec<char>, lo: usize, hi: usize) -> (r: Option<u8>)
    requires
        lo <= hi <= cs.len(),
    ensures
        r == octet_in(cs@, lo as int, hi as int),
{
    let n: usize = hi - lo;
    if n == 0 || n > 3 {
        return None;
    }
    let mut value: u16 = 0;
    let mut i: usize = lo;
    while i < hi
        invariant
            lo <= i <= hi <= cs.len(),
            1 <= hi - lo <= 3,
            forall|j: int| lo <= j < i ==> is_digit(cs@[j]),
            i == lo ==> value == 0,
            i == lo + 1 ==> value == digit_value(cs@[lo as int]),
            i == lo + 2 ==> value == 10 * digit_value(cs@[lo as int]) + digit_value(
                cs@[lo + 1],
            ),
            i == lo + 3 ==> value == 100 * digit_value(cs@[lo as int]) + 10 * digit_value(
                cs@[lo + 1],
            ) + digit_value(cs@[lo + 2]),
        decreases hi - i,
    {
        match digit_of(cs[i]) {
            Some(d) => {
                value = value * 10 + d as u16;
            },
            None => {
                return None;
            },
        }
        i = i + 1;
    }
    if n > 1 && cs[lo] == '0' {
        return None;
    }
    if value > 255 {
        return None;
    }
    Some(value as u8)
}

/// Reads the dotted quad written in `cs[lo..hi)`.
fn read_quad(cs: &Vec<char>, lo: usize, hi: usize) -> (r: Option<(u8, u8, u8, u8)>)
    requires
        lo <= hi <= cs.len(),
    ensures
        r == quad_in(cs@, lo as int, hi as int),
{
    let e1 = find(cs, lo, hi, '.');
    if e1 >= hi {
        return None;
    }
    let e2 = find(cs, e1 + 1, hi, '.');
    if e2 >= hi {
        return None;
    }
    let e3 = find(cs, e2 + 1, hi, '.');
    if e3 >= hi {
        return None;
    }
    let a = read_octet(cs, lo, e1);
    let b = read_octet(cs, e1 + 1, e2);
    let c = read_octet(cs, e2 + 1, e3);
    let d = read_octet(cs, e3 + 1, hi);
    match (a, b, c, d) {
        (Some(a), Some(b), Some(c), Some(d)) => Some((a, b, c, d)),
        _ => None,
    }
}

/// Reads the group written in `cs[lo..hi)`.
fn read_group(cs: &Vec<char>, lo: usize, hi: usize) -> (r: Option<u16>)
    requires
        lo <= hi <= cs.len(),
    ensures
        r == group_in(cs@, lo as int, hi as int),
{
    let n: usize = hi - lo;
    if n == 0 || n > 4 {
        return None;
    }
    let mut value: u16 = 0;
    let mut i: usize = lo;
    while i < hi
        invariant
            lo <= i <= hi <= cs.len(),
            1 <= hi - lo <= 4,
            forall|j: int| lo <= j < i ==> is_hex_digit(cs@[j]),
            i == lo ==> value == 0,
            i == lo + 1 ==> value == hex_value(cs@[lo as int]),
            i == lo + 2 ==> value == 16 * hex_value(cs@[lo as int]) + hex_value(cs@[lo + 1]),
            i == lo + 3 ==> value == 256 * hex_value(cs@[lo as int]) + 16 * hex_value(
                cs@[lo + 1],
            ) + hex_value(cs@[lo + 2]),
            i == lo + 4 ==> value == 4096 * hex_value(cs@[lo as int]) + 256 * hex_value(
                cs@[lo + 1],
            ) + 16 * hex_value(cs@[lo + 2]) + hex_value(cs@[lo + 3]),
        decreases hi - i,
    {
        match hex_digit_of(cs[i]) {
            Some(d) => {
                value = value * 16 + d;
            },
            None => {
                return None;
            },
        }
        i = i + 1;
    }
    Some(value)
}

/// Makes one group of two octets.
fn pair_of(hi: u8, lo: u8) -> (g: u16)
    ensures
        g == octet_pair(hi, lo),
{
    hi as u16 * 256 + lo as u16
}

/// Reads the groups written in `cs[lo..hi)`. More than eight groups are never
/// part of an address, so reading gives up once it has that many.
fn read_groups(cs: &Vec<char>, lo: usize, hi: usize, quad_last: bool) -> (r: Option<Vec<u16>>)
    requires
        lo <= hi <= cs.len(),
    ensures
        match r {
            Some(v) => groups_in(cs@, lo as int, hi as int, quad_last) == Some(v@),
            None => match groups_in(cs@, lo as int, hi as int, quad_last) {
                Some(g) => g.len() > 8,
                None => true,
            },
        },
{
    let mut acc: Vec<u16> = Vec::new();
    let mut pos: usize = lo;
    loop
        invariant
            lo <= pos <= hi <= cs.len(),
            groups_in(cs@, lo as int, hi as int, quad_last) == after(
                acc@,
                groups_in(cs@, pos as int, hi as int, quad_last),
            ),
        decreases hi - pos,
    {
        if acc.len() > 8 {
            return None;
        }
        let ghost before = acc@;
        let e = find(cs, pos, hi, ':');
        if e >= hi {
            match read_group(cs, pos, hi) {
                Some(g) => {
                    acc.push(g);
                    assert(acc@ =~= before + seq![g]);
                    return Some(acc);
                },
                None => {
                    if !quad_last {
                        return None;
                    }
                    match read_quad(cs, pos, hi) {
                        Some((a, b, c, d)) => {
                            acc.push(pair_of(a, b));
                            acc.push(pair_of(c, d));
                            assert(acc@ =~= before + seq![octet_pair(a, b), octet_pair(c, d)]);
                            return Some(acc);
                        },
                        None => {
                            return None;
                        },
                    }
                },
            }
        }
        match read_group(cs, pos, e) {
            Some(g) => {
                acc.push(g);
                proof {
                    match groups_in(cs@, e + 1, hi as int, quad_last) {
                        Some(rest) => {
                            assert(before + (seq![g] + rest) =~= acc@ + rest);
                        },
                        None => {},
                    }
                }
            },
            None => {
                return None;
            },
        }
        pos = e + 1;
    }
}

/// Finds the first `::`.
fn find_double_colon(cs: &Vec<char>) -> (d: usize)
    ensures
        d == double_colon(cs@, 0),
        d + 1 < cs.len() || d == cs.len(),
{
    let n: usize = cs.len();
    let mut d: usize = 0;
    while n - d > 1 && !(cs[d] == ':' && cs[d + 1] == ':')
        invariant
            d <= n == cs.len(),
            double_colon(cs@, 0) == double_colon(cs@, d as int),
        decreases n - d,
    {
        d = d + 1;
    }
    if n - d > 1 {
        d
    } else {
        n
    }
}

/// The group at place `i` of an address with a gap.
fn group_at(head: &Vec<u16>, tail: &Vec<u16>, i: usize) -> (g: u16)
    requires
        head.len() + tail.len() <= 7,
        i < 8,
    ensures
        g == around_gap(head@, tail@)[i as int],
{
    if i < head.len() {
        head[i]
    } else if i >= 8 - tail.len() {
        tail[i - (8 - tail.len())]
    } else {
        0
    }
}

/// Reads an IPv6 address.
fn read_ipv6(cs: &Vec<char>) -> (r: Option<IpAddress>)
    ensures
        r == match ipv6_groups(cs@) {
            Some(g) => Some(IpAddress::V6(g[0], g[1], g[2], g[3], g[4], g[5], g[6], g[7])),
            None => None,
        },
{
    let n: usize = cs.len();
    let d = find_double_colon(cs);
    if d >= n {
        match read_groups(cs, 0, n, true) {
            Some(g) => {
                if g.len() == 8 {
                    Some(IpAddress::V6(g[0], g[1], g[2], g[3], g[4], g[5], g[6], g[7]))
                } else {
                    None
                }
            },
            None => None,
        }
    } else {
        let head = if d == 0 {
            Some(Vec::new())
        } else {
            read_groups(cs, 0, d, false)
        };
        let tail = if d + 2 >= n {
            Some(Vec::new())
        } else {
            read_groups(cs, d + 2, n, true)
        };
        match (head, tail) {
            (Some(h), Some(t)) => {
                if h.len() > 7 || t.len() > 7 - h.len() {
                    return None;
                }
                Some(
                    IpAddress::V6(
                        group_at(&h, &t, 0),
                        group_at(&h, &t, 1),
                        group_at(&h, &t, 2),
                        group_at(&h, &t, 3),
                        group_at(&h, &t, 4),
                        group_at(&h, &t, 5),
                        group_at(&h, &t, 6),
                        group_at(&h, &t, 7),
                    ),
                )
            },
            _ => None,
        }
    }
}

/// Reads the address that `s` denotes. `None` where `s` denotes none.
pub fn parse_ip(s: &str) -> (r: Option<IpAddress>)
    ensures
        r == ip_of_text(s@),
{
    let cs = chars_of(s);
    match read_quad(&cs, 0, cs.len()) {
        Some((a, b, c, d)) => Some(IpAddress::V4(a, b, c, d)),
        None => read_ipv6(&cs),
    }
}

} // verus!
