//! Searching and ordering of character sequences.

use vstd::prelude::*;
use vstd::std_specs::iter::IteratorSpec;
use vstd::string::{axiom_spec_iter, next_postcondition};

verus! {

/// The first position at or after `from` where `s` holds `c`; the length of
/// `s` where there is none.
pub open spec fn scan(s: Seq<char>, c: char, from: int) -> int
    decreases s.len() - from,
{
    if from >= s.len() {
        s.len() as int
    } else if s[from] == c {
        from
    } else {
        scan(s, c, from + 1)
    }
}

/// A scan stops between its start and the end of the sequence.
pub proof fn lemma_scan_bounds(s: Seq<char>, c: char, from: int)
    requires
        0 <= from <= s.len(),
    ensures
        from <= scan(s, c, from) <= s.len(),
    decreases s.len() - from,
{
    if from < s.len() && s[from] != c {
        lemma_scan_bounds(s, c, from + 1);
    }
}

/// Whether a character is white space.
pub open spec fn is_space(c: char) -> bool {
    let n = c as u32;
    ||| 0x09 <= n <= 0x0d
    ||| n == 0x20
    ||| n == 0x85
    ||| n == 0xa0
    ||| n == 0x1680
    ||| 0x2000 <= n <= 0x200a
    ||| n == 0x2028
    ||| n == 0x2029
    ||| n == 0x202f
    ||| n == 0x205f
    ||| n == 0x3000
}

/// The first position at or after `from` where `s` holds white space, if
/// `space` is set, or something else, if it is not; the length of `s` where
/// there is none.
pub open spec fn scan_space(s: Seq<char>, space: bool, from: int) -> int
    decreases s.len() - from,
{
    if from >= s.len() {
        s.len() as int
    } else if is_space(s[from]) == space {
        from
    } else {
        scan_space(s, space, from + 1)
    }
}

/// Whether `needle` stands in `hay` at position `at`.
pub open spec fn occurs_at(hay: Seq<char>, needle: Seq<char>, at: int) -> bool {
    &&& 0 <= at
    &&& at + needle.len() <= hay.len()
    &&& hay.subrange(at, at + needle.len()) == needle
}

/// The first position at or after `from` where `needle` stands in `hay`.
pub open spec fn first_match(hay: Seq<char>, needle: Seq<char>, from: int) -> Option<int>
    decreases hay.len() - from,
{
    if from < 0 || from + needle.len() > hay.len() {
        None
    } else if occurs_at(hay, needle, from) {
        Some(from)
    } else if from >= hay.len() {
        None
    } else {
        first_match(hay, needle, from + 1)
    }
}

/// Whether `a` comes before `b` when the two are compared character by
/// character from position `i` on, a proper prefix before what it is a
/// prefix of.
pub open spec fn precedes_from(a: Seq<char>, b: Seq<char>, i: int) -> bool
    decreases a.len() - i,
{
    if i >= a.len() {
        i < b.len()
    } else if i >= b.len() {
        false
    } else if a[i] != b[i] {
        (a[i] as u32) < (b[i] as u32)
    } else {
        precedes_from(a, b, i + 1)
    }
}

/// Whether `a` comes before `b` in dictionary order by code point.
pub open spec fn precedes(a: Seq<char>, b: Seq<char>) -> bool {
    precedes_from(a, b, 0)
}

/// Nothing comes before itself.
pub proof fn lemma_precedes_irreflexive(a: Seq<char>, i: int)
    requires
        0 <= i,
    ensures
        !precedes_from(a, a, i),
    decreases a.len() - i,
{
    if i < a.len() {
        lemma_precedes_irreflexive(a, i + 1);
    }
}

/// What comes before a sequence comes before all that the sequence comes
/// before.
pub proof fn lemma_precedes_transitive(a: Seq<char>, b: Seq<char>, c: Seq<char>, i: int)
    requires
        0 <= i,
        precedes_from(a, b, i),
        precedes_from(b, c, i),
    ensures
        precedes_from(a, c, i),
    decreases a.len() - i,
{
    if i < a.len() && a[i] == b[i] && b[i] == c[i] {
        lemma_precedes_transitive(a, b, c, i + 1);
    }
}

/// Different characters have different code points.
pub proof fn lemma_code_points_differ(c: char, d: char)
    requires
        c != d,
    ensures
        c as u32 != d as u32,
{
    assert((c as u32) as char == c);
    assert((d as u32) as char == d);
}

/// Of two different sequences that agree before position `i`, one comes
/// before the other.
pub proof fn lemma_precedes_total(a: Seq<char>, b: Seq<char>, i: int)
    requires
        0 <= i <= a.len(),
        i <= b.len(),
        forall|k: int| 0 <= k < i ==> a[k] == b[k],
        !precedes_from(a, b, i),
        !precedes_from(b, a, i),
    ensures
        a == b,
    decreases a.len() - i,
{
    if i < a.len() {
        assert(i < b.len());
        if a[i] != b[i] {
            lemma_code_points_differ(a[i], b[i]);
        }
        lemma_precedes_total(a, b, i + 1);
    } else {
        assert(a =~= b);
    }
}

/// The characters of a string.
pub fn chars_of(s: &str) -> (v: Vec<char>)
    ensures
        v@ == s@,
{
    broadcast use {axiom_spec_iter, next_postcondition};

    let mut v: Vec<char> = Vec::new();
    let mut it = s.chars();
    loop
        invariant
            it.obeys_prophetic_iter_laws(),
            it.decrease() is Some,
            v@ + it.remaining() == s@,
        ensures
            v@ == s@,
        decreases it.decrease()->0,
    {
        let ghost before = it.remaining();
        match it.next() {
            Some(c) => {
                v.push(c);
                assert(v@ + it.remaining() =~= (v@.drop_last() + before));
            },
            None => {
                assert(v@ + it.remaining() =~= v@);
                break ;
            },
        }
    }
    v
}

/// Finds the first position at or after `from` where `s` holds `c`.
pub(crate) fn find_char(s: &Vec<char>, c: char, from: usize) -> (at: usize)
    requires
        from <= s.len(),
    ensures
        at == scan(s@, c, from as int),
        from <= at <= s.len(),
{
    let mut i: usize = from;
    while i < s.len() && s[i] != c
        invariant
            from <= i <= s.len(),
            scan(s@, c, from as int) == scan(s@, c, i as int),
        decreases s.len() - i,
    {
        i = i + 1;
    }
    i
}

/// Decides whether a character is white space.
pub fn is_blank(c: char) -> (blank: bool)
    ensures
        blank == is_space(c),
{
    let n = code_point(c);
    (0x09 <= n && n <= 0x0d) || n == 0x20 || n == 0x85 || n == 0xa0 || n == 0x1680 || (0x2000 <= n
        && n <= 0x200a) || n == 0x2028 || n == 0x2029 || n == 0x202f || n == 0x205f || n == 0x3000
}

/// Finds the first position at or after `from` where `s` holds white
/// space, if `space` is set, or something else, if it is not.
pub(crate) fn find_space(s: &Vec<char>, space: bool, from: usize) -> (at: usize)
    requires
        from <= s.len(),
    ensures
        at == scan_space(s@, space, from as int),
        from <= at <= s.len(),
{
    let mut i: usize = from;
    while i < s.len() && is_blank(s[i]) != space
        invariant
            from <= i <= s.len(),
            scan_space(s@, space, from as int) == scan_space(s@, space, i as int),
        decreases s.len() - i,
    {
        i = i + 1;
    }
    i
}

/// Decides whether `needle` stands in `hay` at position `at`.
pub fn matches_at(hay: &Vec<char>, needle: &Vec<char>, at: usize) -> (found: bool)
    ensures
        found == occurs_at(hay@, needle@, at as int),
{
    if needle.len() > hay.len() || at > hay.len() - needle.len() {
        return false;
    }
    let mut j: usize = 0;
    while j < needle.len()
        invariant
            j <= needle.len(),
            at + needle.len() <= hay.len(),
            forall|k: int| 0 <= k < j ==> hay@[at + k] == needle@[k],
        decreases needle.len() - j,
    {
        if hay[at + j] != needle[j] {
            proof {
                let sub = hay@.subrange(at as int, at + needle.len());
                assert(sub[j as int] == hay@[at + j]);
            }
            return false;
        }
        j = j + 1;
    }
    assert(hay@.subrange(at as int, at + needle.len()) =~= needle@);
    true
}

/// Finds the first position at or after `from` where `needle` stands in
/// `hay`.
pub fn find_from(hay: &Vec<char>, needle: &Vec<char>, from: usize) -> (at: Option<usize>)
    ensures
        match at {
            Some(i) => first_match(hay@, needle@, from as int) == Some(i as int) && i
                + needle.len() <= hay.len(),
            None => first_match(hay@, needle@, from as int) is None,
        },
{
    if needle.len() > hay.len() {
        return None;
    }
    let last: usize = hay.len() - needle.len();
    let mut i: usize = from;
    while i <= last
        invariant
            last == hay.len() - needle.len(),
            from <= i,
            first_match(hay@, needle@, from as int) == first_match(hay@, needle@, i as int),
        decreases last + 1 - i,
    {
        if matches_at(hay, needle, i) {
            return Some(i);
        }
        if i == last {
            assert(first_match(hay@, needle@, i + 1) is None);
            return None;
        }
        i = i + 1;
    }
    None
}

/// Decides whether `a` comes before `b` in dictionary order by code point.
pub fn comes_before(a: &Vec<char>, b: &Vec<char>) -> (before: bool)
    ensures
        before == precedes(a@, b@),
{
    let mut i: usize = 0;
    while i < a.len() && i < b.len() && a[i] == b[i]
        invariant
            i <= a.len(),
            i <= b.len(),
            precedes(a@, b@) == precedes_from(a@, b@, i as int),
        decreases a.len() - i,
    {
        i = i + 1;
    }
    if i >= a.len() {
        i < b.len()
    } else if i >= b.len() {
        false
    } else {
        code_point(a[i]) < code_point(b[i])
    }
}

/// The code point of a character.
pub fn code_point(c: char) -> (n: u32)
    ensures
        n == c as u32,
{
    c as u32
}

/// Decides whether two character sequences are the same.
pub fn same_chars(a: &Vec<char>, b: &Vec<char>) -> (same: bool)
    ensures
        same == (a@ == b@),
{
    proof {
        assert(a@.subrange(0, a@.len() as int) =~= a@);
    }
    a.len() == b.len() && matches_at(a, b, 0)
}

/// `String::push` appends one character to the string and leaves the rest
/// as it was.
pub assume_specification[ String::push ](s: &mut String, c: char)
    ensures
        final(s)@ == old(s)@.push(c),
;

/// The string made of the characters of `chars` from `from` up to `to`.
pub(crate) fn text_of(chars: &Vec<char>, from: usize, to: usize) -> (s: String)
    requires
        from <= to <= chars.len(),
    ensures
        s@ == chars@.subrange(from as int, to as int),
{
    let mut s = String::new();
    let mut i: usize = from;
    while i < to
        invariant
            from <= i <= to <= chars.len(),
            s@ == chars@.subrange(from as int, i as int),
        decreases to - i,
    {
        s.push(chars[i]);
        i = i + 1;
        assert(s@ =~= chars@.subrange(from as int, i as int));
    }
    s
}

} // verus!
