//! Character-level helpers over strings.
//!
//! Every string is seen as its sequence of Unicode scalar values. The
//! functions here either are verified against that view or wrap one function
//! of the standard library whose result is given a name.

use vstd::prelude::*;

verus! {

/// The lower-case form of a text, as `str::to_lowercase` computes it.
pub uninterp spec fn lowercased(s: Seq<char>) -> Seq<char>;

/// Whether a character has the Unicode property `White_Space`, as
/// `char::is_whitespace` reports it.
pub uninterp spec fn char_is_whitespace(c: char) -> bool;

/// Wraps `str::to_lowercase`. Trusted: the result is the text that the
/// standard library's lower-casing gives for these characters.
#[verifier::external_body]
pub(crate) fn lowercase(s: &str) -> (lowered: String)
    ensures
        lowered@ == lowercased(s@),
{
    s.to_lowercase()
}

/// Wraps `char::is_whitespace`. Trusted: the answer depends on the character
/// alone.
#[verifier::external_body]
pub(crate) fn is_whitespace(c: char) -> (b: bool)
    ensures
        b == char_is_whitespace(c),
{
    c.is_whitespace()
}

/// Wraps `String::push`. Trusted: the character is appended and nothing else
/// changes.
#[verifier::external_body]
pub(crate) fn push_char(s: &mut String, c: char)
    ensures
        final(s)@ == old(s)@.push(c),
{
    s.push(c)
}

/// Wraps `==` on `str`. Trusted: two string slices are equal exactly when
/// they hold the same characters.
#[verifier::external_body]
pub(crate) fn str_eq(a: &str, b: &str) -> (same: bool)
    ensures
        same == (a@ == b@),
{
    a == b
}

/// The characters of `s`, in order.
pub fn chars_of(s: &str) -> (chars: Vec<char>)
    ensures
        chars@ == s@,
{
    let mut chars: Vec<char> = Vec::new();
    for c in it: s.chars()
        invariant
            chars@ == it.seq().take(it.index() as int),
            it.seq() == s@,
    {
        chars.push(c);
    }
    chars
}

/// The text made of `chars[from..to]`.
pub fn string_of(chars: &Vec<char>, from: usize, to: usize) -> (s: String)
    requires
        from <= to <= chars.len(),
    ensures
        s@ == chars@.subrange(from as int, to as int),
{
    let mut s = String::new();
    let mut i: usize = from;
    while i < to
        invariant
            from <= i <= to <= chars.len(),
            s@ == chars@.subrange(from as int, i as int),
        decreases to - i,
    {
        push_char(&mut s, chars[i]);
        i = i + 1;
    }
    s
}

/// `s` without its leading white space.
pub open spec fn trimmed_start(s: Seq<char>) -> Seq<char>
    decreases s.len(),
{
    if s.len() > 0 && char_is_whitespace(s[0]) {
        trimmed_start(s.drop_first())
    } else {
        s
    }
}

/// `s` without its trailing white space.
pub open spec fn trimmed_end(s: Seq<char>) -> Seq<char>
    decreases s.len(),
{
    if s.len() > 0 && char_is_whitespace(s.last()) {
        trimmed_end(s.drop_last())
    } else {
        s
    }
}

/// `s` without leading and trailing white space.
pub open spec fn trimmed(s: Seq<char>) -> Seq<char> {
    trimmed_end(trimmed_start(s))
}

/// Narrows `chars[from..to]` to the part between its leading and trailing
/// white space, and returns the bounds of that part.
pub fn trim_range(chars: &Vec<char>, from: usize, to: usize) -> (bounds: (usize, usize))
    requires
        from <= to <= chars.len(),
    ensures
        from <= bounds.0 <= bounds.1 <= to,
        chars@.subrange(bounds.0 as int, bounds.1 as int) == trimmed(
            chars@.subrange(from as int, to as int),
        ),
{
    let mut lo: usize = from;
    while lo < to && is_whitespace(chars[lo])
        invariant
            from <= lo <= to <= chars.len(),
            trimmed_start(chars@.subrange(from as int, to as int)) == trimmed_start(
                chars@.subrange(lo as int, to as int),
            ),
        decreases to - lo,
    {
        proof {
            let cur = chars@.subrange(lo as int, to as int);
            assert(cur.drop_first() == chars@.subrange(lo as int + 1, to as int));
        }
        lo = lo + 1;
    }
    let mut hi: usize = to;
    while lo < hi && is_whitespace(chars[hi - 1])
        invariant
            from <= lo <= hi <= to <= chars.len(),
            trimmed_start(chars@.subrange(from as int, to as int)) == chars@.subrange(
                lo as int,
                to as int,
            ),
            trimmed_end(chars@.subrange(lo as int, to as int)) == trimmed_end(
                chars@.subrange(lo as int, hi as int),
            ),
        decreases hi - lo,
    {
        proof {
            let cur = chars@.subrange(lo as int, hi as int);
            assert(cur.drop_last() == chars@.subrange(lo as int, hi as int - 1));
        }
        hi = hi - 1;
    }
    (lo, hi)
}

/// Whether `pattern` stands in `s` at position `at`.
pub open spec fn occurs_at(s: Seq<char>, pattern: Seq<char>, at: int) -> bool {
    0 <= at && at + pattern.len() <= s.len() && s.subrange(at, at + pattern.len()) == pattern
}

/// The first position at or after `from` at which `pattern` stands in `s`,
/// or a position behind the end of `s` where it stands nowhere.
pub open spec fn first_occurrence_from(s: Seq<char>, pattern: Seq<char>, from: int) -> int
    decreases s.len() - from + 1,
{
    if from < 0 || from + pattern.len() > s.len() {
        s.len() as int + 1
    } else if occurs_at(s, pattern, from) {
        from
    } else {
        first_occurrence_from(s, pattern, from + 1)
    }
}

/// The first occurrence is within the text, or behind its end where there
/// is none.
pub proof fn lemma_first_occurrence(s: Seq<char>, pattern: Seq<char>, from: int)
    requires
        0 <= from,
    ensures
        from <= first_occurrence_from(s, pattern, from) || first_occurrence_from(s, pattern, from)
            == s.len() + 1,
        first_occurrence_from(s, pattern, from) <= s.len() ==> occurs_at(
            s,
            pattern,
            first_occurrence_from(s, pattern, from),
        ),
        first_occurrence_from(s, pattern, from) <= s.len() + 1,
    decreases s.len() - from + 1,
{
    if from + pattern.len() <= s.len() && !occurs_at(s, pattern, from) {
        lemma_first_occurrence(s, pattern, from + 1);
    }
}

/// Whether `pattern` stands in `chars` at position `at`.
pub fn matches_at(chars: &Vec<char>, pattern: &Vec<char>, at: usize) -> (b: bool)
    ensures
        b == occurs_at(chars@, pattern@, at as int),
{
    if at > chars.len() || pattern.len() > chars.len() - at {
        return false;
    }
    let mut k: usize = 0;
    while k < pattern.len()
        invariant
            k <= pattern.len(),
            at + pattern.len() <= chars.len(),
            chars@.subrange(at as int, at + k) == pattern@.take(k as int),
        decreases pattern.len() - k,
    {
        if chars[at + k] != pattern[k] {
            assert(chars@.subrange(at as int, at + pattern.len())[k as int] != pattern@[k as int]);
            return false;
        }
        assert(chars@.subrange(at as int, at + k + 1) =~= chars@.subrange(at as int, at + k).push(
            chars@[at + k],
        ));
        assert(pattern@.take(k as int + 1) =~= pattern@.take(k as int).push(pattern@[k as int]));
        k = k + 1;
    }
    assert(pattern@.take(pattern@.len() as int) =~= pattern@);
    true
}

/// The first position at or after `from` at which `pattern` stands in
/// `chars`.
pub fn find_from(chars: &Vec<char>, pattern: &Vec<char>, from: usize) -> (found: Option<usize>)
    ensures
        match found {
            Some(at) => at == first_occurrence_from(chars@, pattern@, from as int) && from <= at
                && at + pattern.len() <= chars.len(),
            None => first_occurrence_from(chars@, pattern@, from as int) == chars.len() + 1,
        },
{
    if from > chars.len() || pattern.len() > chars.len() - from {
        return None;
    }
    let last = chars.len() - pattern.len();
    let mut at: usize = from;
    while at <= last
        invariant
            from <= at <= last + 1,
            last == chars.len() - pattern.len(),
            first_occurrence_from(chars@, pattern@, from as int) == first_occurrence_from(
                chars@,
                pattern@,
                at as int,
            ),
        decreases last + 1 - at,
    {
        if matches_at(chars, pattern, at) {
            return Some(at);
        }
        proof {
            if pattern.len() == 0 {
                assert(chars@.subrange(at as int, at as int) =~= pattern@);
            }
        }
        at = at + 1;
    }
    None
}

} // verus!
