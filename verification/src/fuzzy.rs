//! Fuzzy search: which texts a query matches, and in what order.

use nucleo::pattern::{CaseMatching, Normalization, Pattern};
use nucleo::{Matcher, Utf32String};
use vstd::prelude::*;

use crate::order::{law_ranking_is_stable, numbers, rank, ranked, stands_before};
use crate::text::{chars_of, texts};

verus! {

/// Longest pattern that is scored without overflow.
pub const QUERY_MAX: usize = 2500;

/// Longest text that is searched.
pub const FIELD_MAX: usize = 0xffff_ffff;

/// Length of the pattern that `nucleo` makes of a query, at most: of a
/// backslash it may make two.
pub open spec fn pattern_len(query: Seq<char>) -> nat
    decreases query.len(),
{
    if query.len() == 0 {
        0
    } else {
        pattern_len(query.drop_last()) + if query.last() == '\\' {
            2nat
        } else {
            1nat
        }
    }
}

/// Whether a character stands where `nucleo` has its table of accented Latin
/// letters. A query without one has accents ignored in what it searches.
pub open spec fn may_be_accented(c: char) -> bool {
    ||| '\u{c0}' <= c <= '\u{36f}'
    ||| '\u{1d00}' <= c <= '\u{1ef1}'
    ||| '\u{2071}' <= c <= '\u{2184}'
}

/// Whether a character is a lower-case letter that folds to another letter, as
/// the final sigma does. Where accents count, `nucleo` folds these in one of
/// its two passes only.
pub open spec fn folds_unevenly(c: char) -> bool {
    ||| c == '\u{b5}'
    ||| c == '\u{17f}'
    ||| c == '\u{345}'
    ||| c == '\u{3c2}'
    ||| '\u{3d0}' <= c <= '\u{3d1}'
    ||| '\u{3d5}' <= c <= '\u{3d6}'
    ||| '\u{3f0}' <= c <= '\u{3f1}'
    ||| c == '\u{3f5}'
    ||| '\u{13f8}' <= c <= '\u{13fd}'
    ||| '\u{1c80}' <= c <= '\u{1c88}'
    ||| c == '\u{1e9b}'
    ||| c == '\u{1fbe}'
    ||| '\u{ab70}' <= c <= '\u{abbf}'
}

/// Whether a query ignores accents.
pub open spec fn ignores_accents(query: Seq<char>) -> bool {
    forall|i: int| 0 <= i < query.len() ==> !may_be_accented(#[trigger] query[i])
}

/// Whether every letter of a text is folded alike in both passes.
pub open spec fn folds_evenly(field: Seq<char>) -> bool {
    forall|i: int| 0 <= i < field.len() ==> !folds_unevenly(#[trigger] field[i])
}

/// Whether `nucleo` can score a text for a query.
pub open spec fn scorable(query: Seq<char>, field: Seq<char>) -> bool {
    &&& pattern_len(query) <= QUERY_MAX
    &&& field.len() <= FIELD_MAX
    &&& field.len() <= usize::MAX / QUERY_MAX
    &&& ignores_accents(query) || folds_evenly(field)
}

/// The memory that `nucleo` matches in.
#[verifier::external_type_specification]
#[verifier::external_body]
pub struct ExMatcher(nucleo::Matcher);

/// The score of a text for a query, as `nucleo` computes it; none where the
/// text does not match.
pub uninterp spec fn fuzzy_score(query: Seq<char>, field: Seq<char>) -> Option<u32>;

/// `nucleo::Matcher::default`: memory for matching, with the default
/// configuration.
#[verifier::external_body]
fn scratch() -> Matcher {
    Matcher::default()
}

/// `nucleo::pattern::Pattern::score` of the pattern that `Pattern::parse`
/// makes of `query`, with smart case and smart normalization, on `field`, in
/// memory that `scratch` made. The score is a function of both texts, whatever
/// was matched in that memory before, and is named, not restated. Left out is
/// what makes the matcher panic: a text of more than 2^32 - 1 characters, or
/// one whose length times that of the pattern does not fit in a `usize`; a
/// pattern of more than about 2500 characters, for which its 16-bit scores
/// overflow; and a text with letters that it folds unevenly, for a query that
/// may make accents count, on which its two passes find different first
/// matches.
#[verifier::external_body]
fn score(query: &str, field: &str, matcher: &mut Matcher) -> (r: Option<u32>)
    requires
        scorable(query@, field@),
    ensures
        r == fuzzy_score(query@, field@),
{
    let pattern = Pattern::parse(query, CaseMatching::Smart, Normalization::Smart);
    let haystack = Utf32String::from(field);
    pattern.score(haystack.slice(..), matcher)
}

/// The greater of two scores; any score is greater than none.
pub open spec fn better(a: Option<u32>, b: Option<u32>) -> Option<u32> {
    match (a, b) {
        (Some(x), Some(y)) => Some(
            if x >= y {
                x
            } else {
                y
            },
        ),
        (Some(x), None) => Some(x),
        (None, y) => y,
    }
}

/// The greater of two scores.
pub fn better_of(a: Option<u32>, b: Option<u32>) -> (r: Option<u32>)
    ensures
        r == better(a, b),
{
    match (a, b) {
        (Some(x), Some(y)) => Some(
            if x >= y {
                x
            } else {
                y
            },
        ),
        (Some(x), None) => Some(x),
        (None, y) => y,
    }
}

/// The best score of a query over texts; an empty text is not searched.
pub open spec fn best_score(query: Seq<char>, fields: Seq<Seq<char>>) -> Option<u32>
    decreases fields.len(),
{
    if fields.len() == 0 {
        None
    } else {
        let f = fields.last();
        let rest = best_score(query, fields.drop_last());
        if f.len() == 0 {
            rest
        } else {
            better(rest, fuzzy_score(query, f))
        }
    }
}

/// Whether texts can be searched for a query.
pub open spec fn searchable(query: Seq<char>, fields: Seq<Seq<char>>) -> bool {
    forall|i: int| 0 <= i < fields.len() ==> scorable(query, #[trigger] fields[i])
}

/// Whether candidates can be searched for a query.
pub open spec fn all_searchable(query: Seq<char>, fields: Seq<Seq<Seq<char>>>) -> bool {
    forall|i: int| 0 <= i < fields.len() ==> searchable(query, #[trigger] fields[i])
}

/// Whether a character stands where the table of accented Latin letters is.
fn accentable(c: char) -> (r: bool)
    ensures
        r == may_be_accented(c),
{
    ('\u{c0}' <= c && c <= '\u{36f}') || ('\u{1d00}' <= c && c <= '\u{1ef1}') || ('\u{2071}' <= c
        && c <= '\u{2184}')
}

/// Whether a character is a lower-case letter that folds to another letter.
fn uneven(c: char) -> (r: bool)
    ensures
        r == folds_unevenly(c),
{
    c == '\u{b5}' || c == '\u{17f}' || c == '\u{345}' || c == '\u{3c2}' || ('\u{3d0}' <= c && c
        <= '\u{3d1}') || ('\u{3d5}' <= c && c <= '\u{3d6}') || ('\u{3f0}' <= c && c <= '\u{3f1}')
        || c == '\u{3f5}' || ('\u{13f8}' <= c && c <= '\u{13fd}') || ('\u{1c80}' <= c && c
        <= '\u{1c88}') || c == '\u{1e9b}' || c == '\u{1fbe}' || ('\u{ab70}' <= c && c <= '\u{abbf}')
}

/// Whether a query is short enough to be scored.
fn is_short(query: &Vec<char>) -> (r: bool)
    ensures
        r == (pattern_len(query@) <= QUERY_MAX),
{
    let mut n: usize = 0;
    let mut i: usize = 0;
    while i < query.len()
        invariant
            i <= query@.len(),
            n == pattern_len(query@.take(i as int)),
            n <= QUERY_MAX,
        decreases query@.len() - i,
    {
        assert(query@.take(i + 1).drop_last() =~= query@.take(i as int));
        n = n + if query[i] == '\\' {
            2
        } else {
            1
        };
        i = i + 1;
        if n > QUERY_MAX {
            proof {
                lemma_pattern_len_grows(query@, i as int);
            }
            return false;
        }
    }
    assert(query@.take(i as int) =~= query@);
    true
}

/// The pattern of a query is no shorter than that of a part of it.
proof fn lemma_pattern_len_grows(query: Seq<char>, n: int)
    requires
        0 <= n <= query.len(),
    ensures
        pattern_len(query.take(n)) <= pattern_len(query),
    decreases query.len(),
{
    if n < query.len() {
        assert(query.drop_last().take(n) =~= query.take(n));
        lemma_pattern_len_grows(query.drop_last(), n);
    } else {
        assert(query.take(n) =~= query);
    }
}

/// Whether a query ignores accents.
fn is_plain(query: &Vec<char>) -> (r: bool)
    ensures
        r == ignores_accents(query@),
{
    let mut i: usize = 0;
    while i < query.len()
        invariant
            i <= query@.len(),
            forall|k: int| 0 <= k < i ==> !may_be_accented(#[trigger] query@[k]),
        decreases query@.len() - i,
    {
        if accentable(query[i]) {
            return false;
        }
        i = i + 1;
    }
    true
}

/// Whether every letter of a text is folded alike.
fn is_even(field: &Vec<char>) -> (r: bool)
    ensures
        r == folds_evenly(field@),
{
    let mut i: usize = 0;
    while i < field.len()
        invariant
            i <= field@.len(),
            forall|k: int| 0 <= k < i ==> !folds_unevenly(#[trigger] field@[k]),
        decreases field@.len() - i,
    {
        if uneven(field[i]) {
            return false;
        }
        i = i + 1;
    }
    true
}

/// Whether texts can be searched for a query.
fn can_search(query: &Vec<char>, fields: &Vec<String>) -> (r: bool)
    ensures
        r == searchable(query@, texts(fields@)),
{
    let ghost all = texts(fields@);
    let short = is_short(query);
    let plain = is_plain(query);
    let mut i: usize = 0;
    while i < fields.len()
        invariant
            i <= fields@.len(),
            all == texts(fields@),
            short == (pattern_len(query@) <= QUERY_MAX),
            plain == ignores_accents(query@),
            forall|k: int| 0 <= k < i ==> scorable(query@, #[trigger] all[k]),
        decreases fields@.len() - i,
    {
        let f = chars_of(fields[i].as_str());
        assert(all[i as int] == f@);
        if !short || f.len() > FIELD_MAX || f.len() > usize::MAX / QUERY_MAX || !(plain || is_even(&f)) {
            return false;
        }
        i = i + 1;
    }
    true
}

/// Whether candidates can be searched for a query.
pub fn can_search_all(query: &str, fields: &Vec<Vec<String>>) -> (r: bool)
    ensures
        r == all_searchable(query@, field_texts(fields@)),
{
    let q = chars_of(query);
    let ghost all = field_texts(fields@);
    let mut i: usize = 0;
    while i < fields.len()
        invariant
            i <= fields@.len(),
            all == field_texts(fields@),
            q@ == query@,
            forall|k: int| 0 <= k < i ==> searchable(query@, #[trigger] all[k]),
        decreases fields@.len() - i,
    {
        assert(all[i as int] == texts(fields@[i as int]@));
        if !can_search(&q, &fields[i]) {
            return false;
        }
        i = i + 1;
    }
    true
}

/// The best score of a query over texts.
fn best(query: &str, fields: &Vec<String>, matcher: &mut Matcher) -> (r: Option<u32>)
    requires
        searchable(query@, texts(fields@)),
    ensures
        r == best_score(query@, texts(fields@)),
{
    let ghost all = texts(fields@);
    let mut r: Option<u32> = None;
    let mut i: usize = 0;
    while i < fields.len()
        invariant
            i <= fields@.len(),
            all == texts(fields@),
            searchable(query@, all),
            r == best_score(query@, all.take(i as int)),
        decreases fields@.len() - i,
    {
        assert(all.take(i + 1).drop_last() =~= all.take(i as int));
        assert(all[i as int] == fields@[i as int]@);
        if !fields[i].as_str().is_empty() {
            let s = score(query, fields[i].as_str(), matcher);
            r = better_of(r, s);
        }
        i = i + 1;
    }
    assert(all.take(i as int) =~= all);
    r
}

/// The texts of each candidate, as characters.
pub open spec fn field_texts(v: Seq<Vec<String>>) -> Seq<Seq<Seq<char>>> {
    v.map_values(|f: Vec<String>| texts(f@))
}

/// The best score of each candidate.
pub open spec fn best_scores(query: Seq<char>, fields: Seq<Seq<Seq<char>>>) -> Seq<Option<u32>> {
    fields.map_values(|f: Seq<Seq<char>>| best_score(query, f))
}

/// The best score of each candidate.
pub fn scores(query: &str, fields: &Vec<Vec<String>>) -> (r: Vec<Option<u32>>)
    requires
        all_searchable(query@, field_texts(fields@)),
    ensures
        r@ == best_scores(query@, field_texts(fields@)),
{
    let mut matcher = scratch();
    let mut r: Vec<Option<u32>> = Vec::new();
    let mut i: usize = 0;
    while i < fields.len()
        invariant
            i <= fields@.len(),
            all_searchable(query@, field_texts(fields@)),
            r@.len() == i,
            forall|k: int|
                0 <= k < i ==> #[trigger] r@[k] == best_score(query@, texts(fields@[k]@)),
        decreases fields@.len() - i,
    {
        assert(field_texts(fields@)[i as int] == texts(fields@[i as int]@));
        r.push(best(query, &fields[i], &mut matcher));
        i = i + 1;
    }
    assert(r@ =~= best_scores(query@, field_texts(fields@)));
    r
}

/// Scores to rank by.
pub open spec fn as_keys(scores: Seq<Option<u32>>) -> Seq<Option<i128>> {
    scores.map_values(
        |s: Option<u32>|
            match s {
                Some(x) => Some(x as i128),
                None => None,
            },
    )
}

/// The candidates that match, the best first, equal ones in their order.
pub open spec fn matched(scores: Seq<Option<u32>>) -> Seq<int> {
    ranked(as_keys(scores), scores.len())
}

/// The candidates that match, the best first, equal ones in their order.
pub fn rank_matches(scores: &Vec<Option<u32>>) -> (r: Vec<usize>)
    ensures
        numbers(r@) == matched(scores@),
        forall|i: int| 0 <= i < r@.len() ==> #[trigger] r@[i] < scores@.len(),
{
    let mut keys: Vec<Option<i128>> = Vec::new();
    let mut i: usize = 0;
    while i < scores.len()
        invariant
            i <= scores@.len(),
            keys@ == as_keys(scores@.take(i as int)),
        decreases scores@.len() - i,
    {
        let k: Option<i128> = match scores[i] {
            Some(x) => Some(x as i128),
            None => None,
        };
        keys.push(k);
        assert(keys@ =~= as_keys(scores@.take(i + 1)));
        i = i + 1;
    }
    assert(scores@.take(i as int) =~= scores@);
    rank(&keys)
}

/// The best score is the score of one of the texts and no less than that of
/// any: a candidate matches where one of its texts does.
pub proof fn law_best_score_is_the_greatest(query: Seq<char>, fields: Seq<Seq<char>>)
    ensures
        forall|i: int|
            0 <= i < fields.len() && (#[trigger] fields[i]).len() > 0 && fuzzy_score(
                query,
                fields[i],
            ) is Some ==> best_score(query, fields) is Some && best_score(query, fields)->0
                >= fuzzy_score(query, fields[i])->0,
        best_score(query, fields) is Some ==> exists|i: int|
            0 <= i < fields.len() && (#[trigger] fields[i]).len() > 0 && fuzzy_score(
                query,
                fields[i],
            ) == best_score(query, fields),
    decreases fields.len(),
{
    if fields.len() > 0 {
        let rest = fields.drop_last();
        law_best_score_is_the_greatest(query, rest);
        let last = fields.len() - 1;
        assert forall|i: int|
            0 <= i < fields.len() && (#[trigger] fields[i]).len() > 0 && fuzzy_score(
                query,
                fields[i],
            ) is Some implies best_score(query, fields) is Some && best_score(query, fields)->0
            >= fuzzy_score(query, fields[i])->0 by {
            if i < last {
                assert(rest[i] == fields[i]);
            }
        }
        if best_score(query, fields) is Some {
            if best_score(query, fields) == best_score(query, rest) {
                let i = choose|i: int|
                    0 <= i < rest.len() && (#[trigger] rest[i]).len() > 0 && fuzzy_score(
                        query,
                        rest[i],
                    ) == best_score(query, rest);
                assert(fields[i] == rest[i]);
            } else {
                assert(fields[last] == fields.last());
            }
        }
    }
}

/// The candidates that match are those with a score, each once, the best
/// first, and of equal ones the one that came first.
pub proof fn law_matches_are_the_best_first(scores: Seq<Option<u32>>)
    ensures
        forall|k: int|
            0 <= k < matched(scores).len() ==> 0 <= #[trigger] matched(scores)[k] < scores.len()
                && scores[matched(scores)[k]] is Some,
        forall|i: int|
            0 <= i < scores.len() && (#[trigger] scores[i]) is Some ==> matched(scores).contains(i),
        forall|a: int, b: int|
            0 <= a < b < matched(scores).len() ==> {
                let x = #[trigger] matched(scores)[a];
                let y = #[trigger] matched(scores)[b];
                scores[x]->0 > scores[y]->0 || (scores[x]->0 == scores[y]->0 && x < y)
            },
{
    let keys = as_keys(scores);
    law_ranking_is_stable(keys, scores.len());
    assert forall|k: int| 0 <= k < matched(scores).len() implies 0 <= #[trigger] matched(scores)[k]
        < scores.len() && scores[matched(scores)[k]] is Some by {
        assert(keys[matched(scores)[k]] is Some);
    }
    assert forall|i: int| 0 <= i < scores.len() && (#[trigger] scores[i]) is Some implies matched(
        scores,
    ).contains(i) by {
        assert(keys[i] is Some);
    }
    assert forall|a: int, b: int| 0 <= a < b < matched(scores).len() implies {
        let x = #[trigger] matched(scores)[a];
        let y = #[trigger] matched(scores)[b];
        scores[x]->0 > scores[y]->0 || (scores[x]->0 == scores[y]->0 && x < y)
    } by {
        let x = matched(scores)[a];
        let y = matched(scores)[b];
        assert(stands_before(keys, x, y));
        assert(scores[x] is Some && scores[y] is Some);
    }
}

} // verus!
