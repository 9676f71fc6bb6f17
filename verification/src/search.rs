//! The search: which lines of a text are reported for a query.

use crate::config::Config;
use crate::text::{
    contains, is_substring, lemma_empty_is_substring, lines, lowercase, split_lines, texts,
    to_lowercase,
};
use vstd::prelude::*;

verus! {

/// The form in which a text is compared: itself, or its lowercase form where
/// case is ignored.
pub open spec fn comparison_key(s: Seq<char>, case_sensitive: bool) -> Seq<char> {
    if case_sensitive {
        s
    } else {
        lowercase(s)
    }
}

/// Whether a line is reported for a query.
pub open spec fn line_matches(line: Seq<char>, query: Seq<char>, case_sensitive: bool) -> bool {
    is_substring(comparison_key(query, case_sensitive), comparison_key(line, case_sensitive))
}

/// [`line_matches`] for a fixed query, as a predicate on lines.
pub open spec fn matcher(query: Seq<char>, case_sensitive: bool) -> spec_fn(Seq<char>) -> bool {
    |line: Seq<char>| line_matches(line, query, case_sensitive)
}

/// The lines of `content` that are reported for `query`: those that match, in
/// the order of the text, each as often as it occurs.
pub open spec fn matching_lines(query: Seq<char>, content: Seq<char>, case_sensitive: bool) -> Seq<
    Seq<char>,
> {
    lines(content).filter(matcher(query, case_sensitive))
}

/// The positions, in increasing order, of the items of `s` that `keep` holds of.
pub open spec fn kept_positions<A>(s: Seq<A>, keep: spec_fn(A) -> bool) -> Seq<int>
    decreases s.len(),
{
    if s.len() == 0 {
        Seq::empty()
    } else if keep(s.last()) {
        kept_positions(s.drop_last(), keep).push(s.len() - 1)
    } else {
        kept_positions(s.drop_last(), keep)
    }
}

/// The positions among the lines of `content` of those reported for `query`.
pub open spec fn matching_positions(
    query: Seq<char>,
    content: Seq<char>,
    case_sensitive: bool,
) -> Seq<int> {
    kept_positions(lines(content), matcher(query, case_sensitive))
}

/// Lines paired with the keys by which they are compared, as plain values.
pub open spec fn keyed_texts(entries: Seq<(&str, String)>) -> Seq<(Seq<char>, Seq<char>)> {
    Seq::new(entries.len(), |i: int| (entries[i].0@, entries[i].1@))
}

/// Of lines paired with keys, the lines whose key contains `query_key`, in
/// the order given.
pub open spec fn selected_by_key(
    entries: Seq<(Seq<char>, Seq<char>)>,
    query_key: Seq<char>,
) -> Seq<Seq<char>>
    decreases entries.len(),
{
    if entries.len() == 0 {
        Seq::empty()
    } else if is_substring(query_key, entries.last().1) {
        selected_by_key(entries.drop_last(), query_key).push(entries.last().0)
    } else {
        selected_by_key(entries.drop_last(), query_key)
    }
}

/// Each line paired with its lowercase form.
pub open spec fn folded_entries(all: Seq<Seq<char>>) -> Seq<(Seq<char>, Seq<char>)> {
    Seq::new(all.len(), |j: int| (all[j], lowercase(all[j])))
}

proof fn lemma_filter_next<A>(s: Seq<A>, keep: spec_fn(A) -> bool, i: int)
    requires
        0 <= i < s.len(),
    ensures
        s.take(i + 1).filter(keep) == if keep(s[i]) {
            s.take(i).filter(keep).push(s[i])
        } else {
            s.take(i).filter(keep)
        },
{
    reveal(Seq::filter);
    assert(s.take(i + 1).drop_last() =~= s.take(i));
}

proof fn lemma_filter_keeps_all<A>(s: Seq<A>, keep: spec_fn(A) -> bool)
    requires
        forall|i: int| 0 <= i < s.len() ==> keep(#[trigger] s[i]),
    ensures
        s.filter(keep) == s,
    decreases s.len(),
{
    reveal(Seq::filter);
    if s.len() > 0 {
        lemma_filter_keeps_all(s.drop_last(), keep);
        assert(s.drop_last().push(s.last()) =~= s);
    }
}

/// What a filter keeps is what stands at the kept positions, and these
/// ascend and are the positions of all the items that the predicate holds of.
proof fn lemma_kept_positions<A>(s: Seq<A>, keep: spec_fn(A) -> bool)
    ensures
        kept_positions(s, keep).len() == s.filter(keep).len(),
        forall|k: int|
            0 <= k < kept_positions(s, keep).len() ==> {
                let j = #[trigger] kept_positions(s, keep)[k];
                0 <= j < s.len() && keep(s[j]) && s.filter(keep)[k] == s[j]
            },
        forall|k1: int, k2: int|
            0 <= k1 < k2 < kept_positions(s, keep).len() ==> #[trigger] kept_positions(s, keep)[k1]
                < #[trigger] kept_positions(s, keep)[k2],
        forall|j: int|
            0 <= j < s.len() && keep(#[trigger] s[j]) ==> kept_positions(s, keep).contains(j),
    decreases s.len(),
{
    reveal(Seq::filter);
    if s.len() > 0 {
        let front = s.drop_last();
        let at = kept_positions(s, keep);
        let before = kept_positions(front, keep);
        lemma_kept_positions(front, keep);
        assert forall|j: int| 0 <= j < s.len() && keep(#[trigger] s[j]) implies at.contains(
            j,
        ) by {
            if j < s.len() - 1 {
                assert(keep(front[j]));
                let k = choose|k: int| 0 <= k < before.len() && before[k] == j;
                assert(at[k] == j);
            } else {
                assert(at[at.len() - 1] == j);
            }
        }
    }
}

/// Of `entries`, lines paired with the keys by which they are compared, the
/// lines whose key contains `query_key`.
pub fn select_by_key<'a>(entries: &[(&'a str, String)], query_key: &str) -> (result: Vec<&'a str>)
    ensures
        texts(result@) == selected_by_key(keyed_texts(entries@), query_key@),
{
    let mut result: Vec<&'a str> = Vec::new();
    let mut i: usize = 0;
    assert(texts(result@) =~= Seq::empty());
    assert(keyed_texts(entries@).take(0) =~= Seq::empty());
    while i < entries.len()
        invariant
            i <= entries.len(),
            texts(result@) == selected_by_key(keyed_texts(entries@).take(i as int), query_key@),
        decreases entries.len() - i,
    {
        let line: &'a str = entries[i].0;
        let ghost before = result@;
        assert(keyed_texts(entries@).take(i + 1).drop_last() =~= keyed_texts(entries@).take(
            i as int,
        ));
        if contains(entries[i].1.as_str(), query_key) {
            result.push(line);
            assert(texts(result@) =~= texts(before).push(line@));
        }
        i += 1;
    }
    assert(keyed_texts(entries@).take(i as int) =~= keyed_texts(entries@));
    result
}

/// The lines of `content` that contain `query`, letter for letter. An empty
/// query is contained in every line.
pub fn search<'a>(query: &str, content: &'a str) -> (result: Vec<&'a str>)
    ensures
        texts(result@) == matching_lines(query@, content@, true),
        query@.len() == 0 ==> texts(result@) == lines(content@),
{
    let all = split_lines(content);
    let mut result: Vec<&'a str> = Vec::new();
    let ghost keep = matcher(query@, true);
    let mut i: usize = 0;
    proof {
        reveal(Seq::filter);
        assert(texts(all@).take(0) =~= Seq::empty());
        assert(texts(result@) =~= Seq::empty());
    }
    while i < all.len()
        invariant
            i <= all.len(),
            keep == matcher(query@, true),
            texts(all@) == lines(content@),
            texts(result@) == texts(all@).take(i as int).filter(keep),
        decreases all.len() - i,
    {
        let line: &'a str = all[i];
        let ghost before = result@;
        proof {
            lemma_filter_next(texts(all@), keep, i as int);
        }
        if contains(line, query) {
            result.push(line);
            assert(texts(result@) =~= texts(before).push(line@));
        }
        i += 1;
    }
    proof {
        assert(texts(all@).take(i as int) =~= texts(all@));
        if query@.len() == 0 {
            lemma_empty_query_reports_all(content@);
            assert(query@ =~= Seq::empty());
        }
    }
    result
}

/// The lines of `content` whose lowercase form contains the lowercase form of
/// `query`. The lines come back as they stand in `content`, not folded. An
/// empty query is contained in every line.
pub fn search_case_insensitive<'a>(query: &str, content: &'a str) -> (result: Vec<&'a str>)
    ensures
        texts(result@) == matching_lines(query@, content@, false),
        query@.len() == 0 ==> texts(result@) == lines(content@),
{
    let all = split_lines(content);
    let key = to_lowercase(query);
    let mut entries: Vec<(&'a str, String)> = Vec::new();
    let mut i: usize = 0;
    assert(keyed_texts(entries@) =~= folded_entries(texts(all@).take(0)));
    while i < all.len()
        invariant
            i <= all.len(),
            keyed_texts(entries@) == folded_entries(texts(all@).take(i as int)),
        decreases all.len() - i,
    {
        let line: &'a str = all[i];
        let ghost before = entries@;
        entries.push((line, to_lowercase(line)));
        i += 1;
        assert(keyed_texts(entries@) =~= keyed_texts(before).push((line@, lowercase(line@))));
        assert(keyed_texts(entries@) =~= folded_entries(texts(all@).take(i as int)));
    }
    let result = select_by_key(entries.as_slice(), key.as_str());
    proof {
        assert(texts(all@).take(i as int) =~= texts(all@));
        lemma_selected_by_folded_key(texts(all@), query@);
        if query@.len() == 0 {
            assert(key@ =~= Seq::empty());
            assert forall|j: int| 0 <= j < texts(all@).len() implies matcher(query@, false)(
                #[trigger] texts(all@)[j],
            ) by {
                lemma_empty_is_substring(lowercase(texts(all@)[j]));
            }
            lemma_filter_keeps_all(texts(all@), matcher(query@, false));
        }
    }
    result
}

/// Runs the search that `config` describes over `contents`, the text of the
/// file that it names, and returns the lines to report in the order in which
/// they are to be reported.
pub fn run<'a>(config: &Config, contents: &'a str) -> (result: Vec<&'a str>)
    ensures
        texts(result@) == matching_lines(config.query@, contents@, config.case_sensitive),
        config.query@.len() == 0 ==> texts(result@) == lines(contents@),
{
    if config.case_sensitive {
        search(config.query.as_str(), contents)
    } else {
        search_case_insensitive(config.query.as_str(), contents)
    }
}

/// Selecting by lowercase keys is searching without regard to case: of lines
/// paired with their lowercase forms, those whose key contains the lowercase
/// form of the query are the lines that match the query when case is ignored.
pub proof fn lemma_selected_by_folded_key(all: Seq<Seq<char>>, query: Seq<char>)
    ensures
        selected_by_key(folded_entries(all), lowercase(query)) == all.filter(
            matcher(query, false),
        ),
    decreases all.len(),
{
    reveal(Seq::filter);
    if all.len() > 0 {
        lemma_selected_by_folded_key(all.drop_last(), query);
        assert(folded_entries(all).drop_last() =~= folded_entries(all.drop_last()));
    }
}

/// With an empty key every entry is selected.
pub proof fn lemma_empty_key_selects_all(entries: Seq<(Seq<char>, Seq<char>)>)
    ensures
        selected_by_key(entries, Seq::empty()) == entries.map_values(
            |e: (Seq<char>, Seq<char>)| e.0,
        ),
    decreases entries.len(),
{
    if entries.len() > 0 {
        lemma_empty_key_selects_all(entries.drop_last());
        lemma_empty_is_substring(entries.last().1);
        assert(entries.drop_last().map_values(|e: (Seq<char>, Seq<char>)| e.0).push(
            entries.last().0,
        ) =~= entries.map_values(|e: (Seq<char>, Seq<char>)| e.0));
    } else {
        assert(entries.map_values(|e: (Seq<char>, Seq<char>)| e.0) =~= Seq::empty());
    }
}

/// A case-sensitive search for the empty query reports every line.
pub proof fn lemma_empty_query_reports_all(content: Seq<char>)
    ensures
        matching_lines(Seq::empty(), content, true) == lines(content),
{
    let all = lines(content);
    assert forall|j: int| 0 <= j < all.len() implies matcher(Seq::empty(), true)(
        #[trigger] all[j],
    ) by {
        lemma_empty_is_substring(all[j]);
    }
    lemma_filter_keeps_all(all, matcher(Seq::empty(), true));
}

/// A case-sensitive search reports exactly the lines that contain the query,
/// in the order of the text: what is reported is what stands at the matching
/// positions, these ascend, every line reported contains the query, and the
/// position of every line that contains the query is among them.
pub proof fn lemma_search_reports_exactly(query: Seq<char>, content: Seq<char>)
    ensures
        ({
            let all = lines(content);
            let found = matching_lines(query, content, true);
            let at = matching_positions(query, content, true);
            &&& at.len() == found.len()
            &&& forall|k: int|
                0 <= k < found.len() ==> 0 <= #[trigger] at[k] < all.len() && found[k] == all[at[k]]
                    && is_substring(query, found[k])
            &&& forall|k1: int, k2: int|
                0 <= k1 < k2 < at.len() ==> #[trigger] at[k1] < #[trigger] at[k2]
            &&& forall|j: int|
                0 <= j < all.len() && is_substring(query, #[trigger] all[j]) ==> at.contains(j)
        }),
{
    lemma_kept_positions(lines(content), matcher(query, true));
}

/// A search without regard to case reports lines as they stand in the text,
/// in its order, and exactly those whose lowercase form contains the
/// lowercase form of the query.
pub proof fn lemma_search_case_insensitive_reports_exactly(query: Seq<char>, content: Seq<char>)
    ensures
        ({
            let all = lines(content);
            let found = matching_lines(query, content, false);
            let at = matching_positions(query, content, false);
            &&& at.len() == found.len()
            &&& forall|k: int|
                0 <= k < found.len() ==> 0 <= #[trigger] at[k] < all.len() && found[k] == all[at[k]]
                    && is_substring(lowercase(query), lowercase(found[k]))
            &&& forall|k1: int, k2: int|
                0 <= k1 < k2 < at.len() ==> #[trigger] at[k1] < #[trigger] at[k2]
            &&& forall|j: int|
                0 <= j < all.len() && is_substring(lowercase(query), lowercase(#[trigger] all[j]))
                    ==> at.contains(j)
        }),
{
    lemma_kept_positions(lines(content), matcher(query, false));
}

} // verus!
