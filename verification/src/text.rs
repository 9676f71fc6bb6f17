//! The model of text that the search is stated over, and the three string
//! operations of the standard library that the search is built from.

use vstd::prelude::*;

verus! {

/// Position of the first line feed in `s`, or `s.len()` where it holds none.
pub open spec fn line_end(s: Seq<char>) -> nat
    decreases s.len(),
{
    if s.len() == 0 || s[0] == '\n' {
        0
    } else {
        1 + line_end(s.skip(1))
    }
}

/// `s` without one carriage return at its end, if it ends in one.
pub open spec fn without_carriage_return(s: Seq<char>) -> Seq<char> {
    if s.len() > 0 && s.last() == '\r' {
        s.drop_last()
    } else {
        s
    }
}

/// The lines of a text.
///
/// A line ends at a line feed. Neither the line feed nor a carriage return
/// directly before it belongs to the line. What follows the last line feed is
/// a line of its own unless it is empty, and is kept as it stands: a carriage
/// return without a line feed behind it is part of the line.
pub open spec fn lines(s: Seq<char>) -> Seq<Seq<char>>
    decreases s.len(),
{
    let end = line_end(s);
    if s.len() == 0 {
        Seq::empty()
    } else if end >= s.len() {
        seq![s]
    } else {
        seq![without_carriage_return(s.take(end as int))] + lines(s.skip(end as int + 1))
    }
}

/// Whether `needle` stands in `hay` from position `at` on.
pub open spec fn occurs_at(needle: Seq<char>, hay: Seq<char>, at: int) -> bool {
    &&& 0 <= at
    &&& at + needle.len() <= hay.len()
    &&& hay.subrange(at, at + needle.len()) == needle
}

/// Whether `needle` occurs in `hay` as a run of consecutive characters.
pub open spec fn is_substring(needle: Seq<char>, hay: Seq<char>) -> bool {
    exists|at: int| occurs_at(needle, hay, at)
}

/// The lowercase form of `s` that `str::to_lowercase` computes: Unicode's
/// mapping, the same in every locale.
pub uninterp spec fn lowercase(s: Seq<char>) -> Seq<char>;

/// The texts that a sequence of string slices stands for.
pub open spec fn texts(slices: Seq<&str>) -> Seq<Seq<char>> {
    Seq::new(slices.len(), |i: int| slices[i]@)
}

/// The empty sequence occurs in every sequence.
pub proof fn lemma_empty_is_substring(hay: Seq<char>)
    ensures
        is_substring(Seq::empty(), hay),
{
    assert(hay.subrange(0, 0) =~= Seq::<char>::empty());
    assert(occurs_at(Seq::empty(), hay, 0));
}

/// Trusted: `str::lines`, collected. The slices returned are the lines of
/// `content` as [`lines`] defines them, in order, each a part of `content`.
#[verifier::external_body]
pub(crate) fn split_lines<'a>(content: &'a str) -> (parts: Vec<&'a str>)
    ensures
        texts(parts@) == lines(content@),
{
    content.lines().collect()
}

/// Trusted: `str::contains` with a string pattern. It says whether `query`
/// occurs in `line` as a run of consecutive characters.
#[verifier::external_body]
pub(crate) fn contains(line: &str, query: &str) -> (found: bool)
    ensures
        found == is_substring(query@, line@),
{
    line.contains(query)
}

/// Trusted: `str::to_lowercase`. The result is named [`lowercase`]; all that is
/// claimed of it beyond the name is that an empty text stays empty.
#[verifier::external_body]
pub(crate) fn to_lowercase(s: &str) -> (folded: String)
    ensures
        folded@ == lowercase(s@),
        s@.len() == 0 ==> folded@.len() == 0,
{
    s.to_lowercase()
}

} // verus!
