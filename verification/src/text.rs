//! Text as a sequence of code points: conversion between strings and
//! character vectors, and search and replacement over the latter.
//!
//! Every function states its result over `Seq<char>`, the view of a string.

use vstd::prelude::*;
use vstd::string::StringSliceAdditionalSpecFns;
use vstd::utf8::decode_utf8;

verus! {

/// `String::push` appends one character to the end of the string.
pub assume_specification[ String::push ](s: &mut String, ch: char)
    ensures
        final(s)@ == old(s)@.push(ch),
;

/// The lowercase form of a text: what `str::to_lowercase` makes of it.
pub uninterp spec fn lowercase_text(s: Seq<char>) -> Seq<char>;

/// Calls `str::to_lowercase`, which maps the text to lowercase by the rules
/// of Unicode, without regard to locale; the result depends on the text
/// alone.  Nothing is proved of this function; its contract names the result.
#[verifier::external_body]
pub(crate) fn lowercase(s: &str) -> (out: String)
    ensures
        out@ == lowercase_text(s@),
{
    s.to_lowercase()
}

/// `pattern` lies in `s` at code point offset `at`.
pub open spec fn occurs_at(s: Seq<char>, pattern: Seq<char>, at: int) -> bool {
    &&& 0 <= at
    &&& at + pattern.len() <= s.len()
    &&& forall|j: int| 0 <= j < pattern.len() ==> #[trigger] s[at + j] == pattern[j]
}

/// `pattern` lies somewhere in `s`.
pub open spec fn contains(s: Seq<char>, pattern: Seq<char>) -> bool {
    exists|at: int| occurs_at(s, pattern, at)
}

/// The least offset at or after `from` at which `pattern` lies in `s`.
pub open spec fn first_occurrence_from(s: Seq<char>, pattern: Seq<char>, from: int) -> Option<int>
    decreases s.len() - from,
{
    if from < 0 || from + pattern.len() > s.len() {
        None
    } else if occurs_at(s, pattern, from) {
        Some(from)
    } else {
        first_occurrence_from(s, pattern, from + 1)
    }
}

/// The least offset at which `pattern` lies in `s`.
pub open spec fn first_occurrence(s: Seq<char>, pattern: Seq<char>) -> Option<int> {
    first_occurrence_from(s, pattern, 0)
}

/// `s` with every occurrence of `from` replaced by `to`.  Occurrences are
/// taken from left to right and do not overlap.  An empty `from` matches
/// before every character and at the end.
pub open spec fn replace_all(s: Seq<char>, from: Seq<char>, to: Seq<char>) -> Seq<char>
    decreases s.len(),
{
    if from.len() == 0 {
        if s.len() == 0 {
            to
        } else {
            to + seq![s[0]] + replace_all(s.skip(1), from, to)
        }
    } else if s.len() < from.len() {
        s
    } else if occurs_at(s, from, 0) {
        to + replace_all(s.skip(from.len() as int), from, to)
    } else {
        seq![s[0]] + replace_all(s.skip(1), from, to)
    }
}

/// What `first_occurrence_from` finds is an occurrence, and the first one at or
/// after `from`; where it finds none, there is none from there on.
pub proof fn lemma_first_occurrence_from(s: Seq<char>, pattern: Seq<char>, from: int)
    requires
        0 <= from,
    ensures
        match first_occurrence_from(s, pattern, from) {
            Some(at) => {
                &&& from <= at
                &&& occurs_at(s, pattern, at)
                &&& forall|j: int| from <= j < at ==> !occurs_at(s, pattern, j)
            },
            None => forall|j: int| from <= j ==> !occurs_at(s, pattern, j),
        },
    decreases s.len() - from,
{
    if from + pattern.len() > s.len() {
    } else if occurs_at(s, pattern, from) {
    } else {
        lemma_first_occurrence_from(s, pattern, from + 1);
    }
}

/// `first_occurrence` finds an occurrence exactly when there is one, and then
/// the leftmost.
pub proof fn lemma_first_occurrence(s: Seq<char>, pattern: Seq<char>)
    ensures
        first_occurrence(s, pattern) is Some <==> contains(s, pattern),
        first_occurrence(s, pattern) matches Some(at) ==> {
            &&& occurs_at(s, pattern, at)
            &&& forall|j: int| j < at ==> !occurs_at(s, pattern, j)
        },
{
    lemma_first_occurrence_from(s, pattern, 0);
}

/// The characters of a string, in order.
pub fn chars_of(s: &str) -> (out: Vec<char>)
    ensures
        out@ == s@,
{
    let mut out: Vec<char> = Vec::new();
    for c in it: s.chars()
        invariant
            it.seq() == s@,
            out@ == it.seq().take(it.index()),
    {
        out.push(c);
    }
    assert(out@ == s@.take(s@.len() as int));
    out
}

/// Appends `chars` to `out`.
pub fn push_chars(out: &mut String, chars: &Vec<char>)
    ensures
        final(out)@ == old(out)@ + chars@,
{
    let mut i: usize = 0;
    while i < chars.len()
        invariant
            i <= chars.len(),
            out@ == old(out)@ + chars@.take(i as int),
        decreases chars.len() - i,
    {
        out.push(chars[i]);
        assert(chars@.take(i + 1) == chars@.take(i as int).push(chars@[i as int]));
        i += 1;
    }
    assert(chars@.take(chars.len() as int) == chars@);
}

/// The string made of `chars`, in order.
pub fn string_of(chars: &Vec<char>) -> (out: String)
    ensures
        out@ == chars@,
{
    let mut out = String::new();
    push_chars(&mut out, chars);
    out
}

/// `a` followed by `b`.
pub fn joined(a: &str, b: &str) -> (out: String)
    ensures
        out@ == a@ + b@,
{
    let mut out = string_of(&chars_of(a));
    push_chars(&mut out, &chars_of(b));
    out
}

/// What follows the first `from` characters of `s`.
pub fn tail(s: &Vec<char>, from: usize) -> (out: Vec<char>)
    requires
        from <= s.len(),
    ensures
        out@ == s@.skip(from as int),
{
    let mut out: Vec<char> = Vec::new();
    let mut i: usize = from;
    while i < s.len()
        invariant
            from <= i <= s.len(),
            out@ == s@.subrange(from as int, i as int),
        decreases s.len() - i,
    {
        out.push(s[i]);
        assert(s@.subrange(from as int, i + 1) == s@.subrange(from as int, i as int).push(
            s@[i as int],
        ));
        i += 1;
    }
    assert(s@.subrange(from as int, s.len() as int) == s@.skip(from as int));
    out
}

/// Whether two strings hold the same text.
pub fn str_eq(a: &str, b: &str) -> (same: bool)
    ensures
        same == (a@ == b@),
{
    broadcast use vstd::utf8::encode_utf8_decode_utf8;

    let x = a.as_bytes();
    let y = b.as_bytes();
    if x.len() != y.len() {
        return false;
    }
    let mut i: usize = 0;
    while i < x.len()
        invariant
            x@ == a.spec_bytes(),
            y@ == b.spec_bytes(),
            x@.len() == y@.len(),
            i <= x@.len(),
            forall|j: int| 0 <= j < i ==> x@[j] == y@[j],
        decreases x@.len() - i,
    {
        if x[i] != y[i] {
            return false;
        }
        i += 1;
    }
    assert(x@ =~= y@);
    assert(decode_utf8(a.spec_bytes()) == a@);
    assert(decode_utf8(b.spec_bytes()) == b@);
    true
}

/// Whether `pattern` lies in `s` at offset `at`.
pub fn occurs_here(s: &Vec<char>, pattern: &Vec<char>, at: usize) -> (found: bool)
    ensures
        found == occurs_at(s@, pattern@, at as int),
{
    if at > s.len() || pattern.len() > s.len() - at {
        return false;
    }
    let mut j: usize = 0;
    while j < pattern.len()
        invariant
            at + pattern.len() <= s.len(),
            j <= pattern.len(),
            forall|k: int| 0 <= k < j ==> s@[at + k] == pattern@[k],
        decreases pattern.len() - j,
    {
        if s[at + j] != pattern[j] {
            return false;
        }
        j += 1;
    }
    true
}

/// Whether `s` begins with `pattern`.
pub fn starts_with(s: &Vec<char>, pattern: &Vec<char>) -> (found: bool)
    ensures
        found == pattern@.is_prefix_of(s@),
{
    let found = occurs_here(s, pattern, 0);
    proof {
        if found {
            let head = s@.subrange(0, pattern@.len() as int);
            assert forall|j: int| 0 <= j < pattern@.len() implies pattern@[j] == head[j] by {
                assert(s@[0 + j] == pattern@[j]);
            }
            assert(pattern@ =~= head);
        }
        if pattern@.is_prefix_of(s@) {
            assert forall|j: int| 0 <= j < pattern@.len() implies #[trigger] s@[0 + j]
                == pattern@[j] by {
                assert(s@.subrange(0, pattern@.len() as int)[j] == s@[j]);
            }
        }
    }
    found
}

/// The least offset at which `pattern` lies in `s`, if it lies in it at all.
pub fn find(s: &Vec<char>, pattern: &Vec<char>) -> (found: Option<usize>)
    ensures
        match found {
            Some(at) => first_occurrence(s@, pattern@) == Some(at as int),
            None => first_occurrence(s@, pattern@) is None,
        },
{
    if pattern.len() > s.len() {
        return None;
    }
    let last = s.len() - pattern.len();
    let mut at: usize = 0;
    loop
        invariant
            last == s.len() - pattern.len(),
            at <= last,
            first_occurrence(s@, pattern@) == first_occurrence_from(s@, pattern@, at as int),
        decreases last - at,
    {
        if occurs_here(s, pattern, at) {
            return Some(at);
        }
        if at == last {
            assert(first_occurrence_from(s@, pattern@, at + 1) is None);
            return None;
        }
        at += 1;
    }
}

/// `s` with every occurrence of `from` replaced by `to`, as `str::replace`
/// does it.
pub fn replace(s: &Vec<char>, from: &Vec<char>, to: &Vec<char>) -> (out: Vec<char>)
    ensures
        out@ == replace_all(s@, from@, to@),
{
    let mut out: Vec<char> = Vec::new();
    let mut i: usize = 0;
    assert(s@.skip(0) == s@);
    assert(out@ + replace_all(s@, from@, to@) == replace_all(s@, from@, to@));
    while i < s.len()
        invariant
            i <= s.len(),
            replace_all(s@, from@, to@) == out@ + replace_all(s@.skip(i as int), from@, to@),
        decreases s.len() - i,
    {
        let ghost rest = s@.skip(i as int);
        let ghost done = out@;
        if from.len() == 0 {
            out.extend_from_slice(to.as_slice());
            out.push(s[i]);
            proof {
                assert(rest.skip(1) == s@.skip(i + 1));
                assert(out@ == done + (to@ + seq![rest[0]]));
                assert(done + (to@ + seq![rest[0]] + replace_all(rest.skip(1), from@, to@))
                    == out@ + replace_all(rest.skip(1), from@, to@));
            }
            i += 1;
        } else if s.len() - i < from.len() {
            out.push(s[i]);
            proof {
                assert(rest.skip(1) == s@.skip(i + 1));
                assert(!occurs_at(rest, from@, 0));
                assert(rest.skip(1).len() < from@.len());
                assert(rest =~= seq![rest[0]] + rest.skip(1));
                assert(done + rest == out@ + rest.skip(1));
            }
            i += 1;
        } else if occurs_here(s, from, i) {
            out.extend_from_slice(to.as_slice());
            proof {
                assert forall|j: int| 0 <= j < from@.len() implies #[trigger] rest[0 + j]
                    == from@[j] by {
                    assert(s@[i + j] == from@[j]);
                }
                assert(rest.skip(from@.len() as int) == s@.skip(i + from@.len()));
                assert(done + (to@ + replace_all(rest.skip(from@.len() as int), from@, to@))
                    == out@ + replace_all(rest.skip(from@.len() as int), from@, to@));
            }
            i += from.len();
        } else {
            out.push(s[i]);
            proof {
                if occurs_at(rest, from@, 0) {
                    assert forall|j: int| 0 <= j < from@.len() implies #[trigger] s@[i + j]
                        == from@[j] by {
                        assert(rest[0 + j] == from@[j]);
                    }
                }
                assert(rest.skip(1) == s@.skip(i + 1));
                assert(done + (seq![rest[0]] + replace_all(rest.skip(1), from@, to@)) == out@
                    + replace_all(rest.skip(1), from@, to@));
            }
            i += 1;
        }
    }
    if from.len() == 0 {
        out.extend_from_slice(to.as_slice());
    }
    proof {
        assert(s@.skip(s.len() as int).len() == 0);
    }
    out
}

} // verus!
