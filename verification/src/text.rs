//! Fields of a text: the stretches between occurrences of a separator.

use vstd::prelude::*;

verus! {

/// The first position in `lo..hi` at which `s` holds `c`, or `hi` if there
/// is none: where the field that starts at `lo` ends.
pub open spec fn field_end(s: Seq<char>, lo: int, hi: int, c: char) -> int
    decreases hi - lo,
{
    if lo >= hi {
        hi
    } else if s[lo] == c {
        lo
    } else {
        field_end(s, lo + 1, hi, c)
    }
}

/// `field_end` is the least position of `c` in the range, and stays in it.
pub proof fn lemma_field_end(s: Seq<char>, lo: int, hi: int, c: char)
    requires
        0 <= lo <= hi <= s.len(),
    ensures
        lo <= field_end(s, lo, hi, c) <= hi,
        field_end(s, lo, hi, c) < hi ==> s[field_end(s, lo, hi, c)] == c,
        forall|i: int| lo <= i < field_end(s, lo, hi, c) ==> s[i] != c,
    decreases hi - lo,
{
    if lo < hi && s[lo] != c {
        lemma_field_end(s, lo + 1, hi, c);
    }
}

/// The characters of a string, in order.
pub fn chars_of(s: &str) -> (v: Vec<char>)
    ensures
        v@ == s@,
{
    let mut v: Vec<char> = Vec::new();
    for c in it: s.chars()
        invariant
            v@ == it.seq().take(it.index() as int),
            it.seq() == s@,
    {
        v.push(c);
    }
    v
}

/// Finds where the field that starts at `lo` ends.
pub fn find(cs: &Vec<char>, lo: usize, hi: usize, c: char) -> (e: usize)
    requires
        lo <= hi <= cs.len(),
    ensures
        e == field_end(cs@, lo as int, hi as int, c),
        lo <= e <= hi,
{
    let mut e: usize = lo;
    while e < hi && cs[e] != c
        invariant
            lo <= e <= hi <= cs.len(),
            field_end(cs@, lo as int, hi as int, c) == field_end(cs@, e as int, hi as int, c),
        decreases hi - e,
    {
        e = e + 1;
    }
    e
}

/// A position that holds `c`, with no `c` before it, is where the field ends.
pub proof fn lemma_field_ends_at(s: Seq<char>, lo: int, e: int, hi: int, c: char)
    requires
        0 <= lo <= e <= hi <= s.len(),
        e < hi ==> s[e] == c,
        forall|i: int| lo <= i < e ==> s[i] != c,
    ensures
        field_end(s, lo, hi, c) == e,
{
    lemma_field_end(s, lo, hi, c);
}

} // verus!
