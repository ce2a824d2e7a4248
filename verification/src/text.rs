//! Character-level operations on text: cutting a string at a separator and
//! looking for one string inside another.
//!
//! Everything here is stated over `Seq<char>`, the view of `str` and `String`.

use crate::scan::{first_index, lemma_first_index, lemma_first_index_unique};
use vstd::prelude::*;

verus! {

/// The views of a sequence of strings, in the same order.
pub open spec fn texts(strings: Seq<String>) -> Seq<Seq<char>> {
    strings.map_values(|s: String| s@)
}

/// The property of being the character `sep`.
pub open spec fn is_char(sep: char) -> spec_fn(char) -> bool {
    |c: char| c == sep
}

/// The position of the first `sep` in `s`, or `s.len()` where `s` holds none.
pub open spec fn first_position(s: Seq<char>, sep: char) -> int {
    first_index(s, is_char(sep))
}

/// The pieces of `s` between occurrences of `sep`, in order. There is always
/// at least one piece; two separators in a row enclose an empty piece.
pub open spec fn tokens(s: Seq<char>, sep: char) -> Seq<Seq<char>>
    decreases s.len(),
{
    let cut = first_position(s, sep);
    if 0 <= cut < s.len() {
        seq![s.take(cut)] + tokens(s.skip(cut + 1), sep)
    } else {
        seq![s]
    }
}

/// `needle` stands in `hay` at position `at`.
pub open spec fn occurs_at(hay: Seq<char>, needle: Seq<char>, at: int) -> bool {
    &&& 0 <= at
    &&& at + needle.len() <= hay.len()
    &&& hay.subrange(at, at + needle.len()) == needle
}

/// `needle` stands somewhere in `hay`. The empty string stands in every string.
pub open spec fn has_substring(hay: Seq<char>, needle: Seq<char>) -> bool {
    exists|at: int| occurs_at(hay, needle, at)
}

/// `first_position` is the least index that holds `sep`, and the length of
/// `s` exactly when no index does.
pub proof fn lemma_first_position(s: Seq<char>, sep: char)
    ensures
        0 <= first_position(s, sep) <= s.len(),
        forall|j: int| 0 <= j < first_position(s, sep) ==> s[j] != sep,
        first_position(s, sep) < s.len() ==> s[first_position(s, sep)] == sep,
{
    lemma_first_index(s, is_char(sep));
}

/// An index `at` that holds the first `sep`, or is the length of a string
/// without `sep`, is the first position.
pub proof fn lemma_first_position_unique(s: Seq<char>, sep: char, at: int)
    requires
        0 <= at <= s.len(),
        forall|j: int| 0 <= j < at ==> s[j] != sep,
        at < s.len() ==> s[at] == sep,
    ensures
        first_position(s, sep) == at,
{
    lemma_first_index_unique(s, is_char(sep), at);
}

/// Cutting gives a single piece exactly when the separator does not occur.
pub proof fn lemma_single_token(s: Seq<char>, sep: char)
    ensures
        tokens(s, sep).len() >= 1,
        tokens(s, sep).len() == 1 <==> !s.contains(sep),
        tokens(s, sep)[0] == s.take(first_position(s, sep)),
    decreases s.len(),
{
    lemma_first_position(s, sep);
    let cut = first_position(s, sep);
    if cut < s.len() {
        lemma_single_token(s.skip(cut + 1), sep);
        assert(s.contains(sep));
    } else {
        assert(s.take(cut) =~= s);
    }
}

/// The characters of `s`, in order.
pub fn chars_of(s: &str) -> (out: Vec<char>)
    ensures
        out@ == s@,
{
    let mut out: Vec<char> = Vec::new();
    for c in it: s.chars()
        invariant
            it.seq() == s@,
            out@ == s@.take(it.index() as int),
    {
        out.push(c);
    }
    out
}

/// Whether `a` and `b` hold the same characters.
pub fn same_text(a: &str, b: &str) -> (out: bool)
    ensures
        out == (a@ == b@),
{
    let left = chars_of(a);
    let right = chars_of(b);
    if left.len() != right.len() {
        return false;
    }
    let mut i: usize = 0;
    while i < left.len()
        invariant
            left@ == a@,
            right@ == b@,
            left@.len() == right@.len(),
            i <= left@.len(),
            forall|j: int| 0 <= j < i ==> left@[j] == right@[j],
        decreases left@.len() - i,
    {
        if left[i] != right[i] {
            return false;
        }
        i += 1;
    }
    assert(a@ =~= b@);
    true
}

/// Cuts `s` at every `sep` and returns the pieces in order, as `str::split`
/// with a `char` does.
pub fn split(s: &str, sep: char) -> (out: Vec<String>)
    ensures
        texts(out@) == tokens(s@, sep),
{
    let chars = chars_of(s);
    let mut out: Vec<String> = Vec::new();
    let mut start: usize = 0;
    let mut i: usize = 0;
    proof {
        assert(s@.skip(0) =~= s@);
        assert(texts(out@) + tokens(s@, sep) =~= tokens(s@, sep));
    }
    while i < chars.len()
        invariant
            chars@ == s@,
            start <= i <= chars.len(),
            forall|j: int| start <= j < i ==> chars@[j] != sep,
            tokens(s@, sep) == texts(out@) + tokens(s@.skip(start as int), sep),
        decreases chars.len() - i,
    {
        if chars[i] == sep {
            let piece = s.substring_char(start, i).to_owned();
            proof {
                let rest = s@.skip(start as int);
                lemma_first_position_unique(rest, sep, i - start);
                assert(rest.take(i - start) =~= s@.subrange(start as int, i as int));
                assert(rest.skip(i - start + 1) =~= s@.skip(i + 1));
                assert(texts(out@.push(piece)) =~= texts(out@) + seq![piece@]);
            }
            out.push(piece);
            start = i + 1;
        }
        i += 1;
    }
    let piece = s.substring_char(start, chars.len()).to_owned();
    proof {
        let rest = s@.skip(start as int);
        lemma_first_position_unique(rest, sep, rest.len() as int);
        assert(rest =~= s@.subrange(start as int, s@.len() as int));
        assert(texts(out@.push(piece)) =~= texts(out@) + seq![piece@]);
    }
    out.push(piece);
    out
}

/// Whether `needle` stands in `hay` at position `at`.
fn occurs_here(hay: &Vec<char>, needle: &Vec<char>, at: usize) -> (out: bool)
    requires
        at + needle@.len() <= hay@.len(),
    ensures
        out == occurs_at(hay@, needle@, at as int),
{
    let hay_len = hay.len();
    let mut k: usize = 0;
    while k < needle.len()
        invariant
            k <= needle@.len(),
            at + needle@.len() <= hay@.len() == hay_len,
            forall|j: int| 0 <= j < k ==> hay@[at + j] == needle@[j],
        decreases needle@.len() - k,
    {
        if hay[at + k] != needle[k] {
            proof {
                let window = hay@.subrange(at as int, at + needle@.len());
                assert(window[k as int] != needle@[k as int]);
            }
            return false;
        }
        k += 1;
    }
    assert(hay@.subrange(at as int, at + needle@.len()) =~= needle@);
    true
}

/// Whether `needle` stands somewhere in `hay`, as `str::contains` with a
/// string does: by characters, with nothing folded or normalised.
pub fn contains(hay: &str, needle: &str) -> (out: bool)
    ensures
        out == has_substring(hay@, needle@),
{
    let hay_chars = chars_of(hay);
    let needle_chars = chars_of(needle);
    if needle_chars.len() > hay_chars.len() {
        return false;
    }
    let last = hay_chars.len() - needle_chars.len();
    let mut at: usize = 0;
    while at < last
        invariant
            hay_chars@ == hay@,
            needle_chars@ == needle@,
            last + needle@.len() == hay@.len(),
            at <= last,
            forall|j: int| 0 <= j < at ==> !occurs_at(hay@, needle@, j),
        decreases last - at,
    {
        if occurs_here(&hay_chars, &needle_chars, at) {
            return true;
        }
        at += 1;
    }
    occurs_here(&hay_chars, &needle_chars, last)
}

} // verus!
