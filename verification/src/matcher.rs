//! Matching a file name to a catalog entry, and confirming the match by the
//! image's digest.
//!
//! The similarity ranking is computed by the `rust_fuzzy_search` crate and
//! named here by `fuzzy_ranking`. The search compares characters as they
//! are, so it is handed the file name and the titles with their ASCII capital
//! letters folded to lower case: a file is ranked whatever the case of its
//! name. Each candidate is then given back the title of the entry it came
//! from, and from there on titles are compared exactly. A score is carried
//! as the bit pattern of the single-precision number that the crate returns.
//! Its scores lie between 0.0 and 1.0, and for such numbers the order of the
//! bit patterns, read as unsigned integers, is the order of the numbers.
//! What is done with the ranking is verified: which candidates are passed
//! over, which entry is matched, and when the match counts as confirmed.

use vstd::prelude::*;
use crate::catalog::{
    CatalogEntry, CatalogEntryView, find_title, first_with_title, folded_titles, folded_titles_of,
    lemma_first_with_title,
};
use crate::text::{
    contains, find_nth, has_substring, lemma_nth_occurrence, lower, nth_occurrence,
    occurrences_before, to_chars, to_lower_string,
};

verus! {

/// How many of the best candidates are considered.
pub const MATCH_LIMIT: usize = 5;

/// The bit pattern of the acceptance threshold: that of the single-precision
/// number nearest to 0.4.
pub const SCORE_THRESHOLD_BITS: u32 = 0x3ECC_CCCD;

/// The bit pattern of the score 1.0, the highest there is.
pub const SCORE_ONE_BITS: u32 = 0x3F80_0000;

/// A title that the similarity search proposes.
#[derive(Clone, Debug)]
pub struct Candidate {
    pub title: String,
    /// The bit pattern of the similarity score.
    pub score_bits: u32,
}

impl DeepView for Candidate {
    type V = (Seq<char>, u32);

    open spec fn deep_view(&self) -> (Seq<char>, u32) {
        (self.title@, self.score_bits)
    }
}

/// The outcome of matching one file against a catalog.
#[derive(Clone, Copy, Debug, PartialEq, Eq, Structural)]
pub enum MatchResult {
    /// No candidate survived, or none is the title of an entry.
    Unmatched,
    /// The entry at this index of the catalog has the best surviving title;
    /// `confirmed` says whether the image's digest is one of its digests.
    Matched { entry: usize, confirmed: bool },
}

/// The ranking that the similarity search gives for `query` among `titles`:
/// at most `limit` titles, each with the bit pattern of its score, the best
/// first.
pub uninterp spec fn fuzzy_ranking(query: Seq<char>, titles: Seq<Seq<char>>, limit: nat) -> Seq<
    (Seq<char>, u32),
>;

/// The form of a ranking: at most `limit` candidates, every score the
/// pattern of a number between 0.0 and 1.0, no score above one before it.
pub open spec fn is_ranking(ranking: Seq<(Seq<char>, u32)>, limit: nat) -> bool {
    &&& ranking.len() <= limit
    &&& forall|i: int| 0 <= i < ranking.len() ==> (#[trigger] ranking[i]).1 <= SCORE_ONE_BITS
    &&& forall|i: int, j: int|
        0 <= i <= j < ranking.len() ==> (#[trigger] ranking[i]).1 >= (#[trigger] ranking[j]).1
}

/// `rust_fuzzy_search::fuzzy_search_best_n`. Trusted: the titles and scores
/// it returns, in its order, are the ranking that `fuzzy_ranking` names for
/// these arguments; there are at most `limit` of them, no score is above 1.0
/// or below 0.0, and the scores do not rise along the ranking.
#[verifier::external_body]
fn best_titles(query: &str, titles: &Vec<String>, limit: usize) -> (ranking: Vec<Candidate>)
    ensures
        ranking.deep_view() == fuzzy_ranking(query@, titles.deep_view(), limit as nat),
        is_ranking(ranking.deep_view(), limit as nat),
{
    let list: Vec<&str> = titles.iter().map(|title| title.as_str()).collect();
    rust_fuzzy_search::fuzzy_search_best_n(query, &list, limit)
        .into_iter()
        .map(|(title, score)| Candidate { title: title.to_string(), score_bits: score.to_bits() })
        .collect()
}

/// A score at the threshold or above is accepted. A pattern above that of
/// 1.0 is that of no score, and is not accepted.
pub open spec fn score_accepted(score_bits: u32) -> bool {
    SCORE_THRESHOLD_BITS <= score_bits <= SCORE_ONE_BITS
}

/// The title marks a variant that is never matched: a subset, a hack or a
/// homebrew release.
pub open spec fn is_excluded_title(title: Seq<char>) -> bool {
    contains(title, "[Subset"@) || contains(title, "~Hack~"@) || contains(title, "~Homebrew~"@)
}

/// The entry that a candidate leads to: the first whose title is exactly
/// the candidate's, where the score is accepted and the title is not
/// excluded.
pub open spec fn candidate_match(
    candidate: (Seq<char>, u32),
    entries: Seq<CatalogEntryView>,
) -> Option<int> {
    if score_accepted(candidate.1) && !is_excluded_title(candidate.0) {
        first_with_title(entries, candidate.0, 0)
    } else {
        None
    }
}

/// The entry that the first candidate at or after `from` leads to, among
/// those that lead to one.
pub open spec fn first_match(
    candidates: Seq<(Seq<char>, u32)>,
    entries: Seq<CatalogEntryView>,
    from: int,
) -> Option<int>
    decreases candidates.len() - from,
{
    if from < 0 || from >= candidates.len() {
        None
    } else if candidate_match(candidates[from], entries) is Some {
        candidate_match(candidates[from], entries)
    } else {
        first_match(candidates, entries, from + 1)
    }
}

/// The digest is present and is one of `hashes`.
pub open spec fn hash_confirms(hash: Option<Seq<char>>, hashes: Seq<Seq<char>>) -> bool {
    hash matches Some(digest) && hashes.contains(digest)
}

/// The outcome for a ranking of candidates: the entry that the best
/// surviving candidate leads to, confirmed where the digest is one of the
/// entry's.
pub open spec fn match_outcome(
    candidates: Seq<(Seq<char>, u32)>,
    entries: Seq<CatalogEntryView>,
    hash: Option<Seq<char>>,
) -> MatchResult {
    match first_match(candidates, entries, 0) {
        Some(index) => MatchResult::Matched {
            entry: index as usize,
            confirmed: hash_confirms(hash, entries[index].hashes),
        },
        None => MatchResult::Unmatched,
    }
}

/// The titles of a ranking, in its order.
pub open spec fn ranked_titles(ranking: Seq<(Seq<char>, u32)>) -> Seq<Seq<char>> {
    Seq::new(ranking.len(), |k: int| ranking[k].0)
}

/// The entry that the candidate at `position` of a ranking of folded titles
/// came from: candidates with one folded title stand for the entries with
/// that folded title, the first for the first, the second for the second.
pub open spec fn entry_of_candidate(
    ranking: Seq<(Seq<char>, u32)>,
    entries: Seq<CatalogEntryView>,
    position: int,
) -> Option<int> {
    nth_occurrence(
        folded_titles_of(entries),
        ranking[position].0,
        occurrences_before(ranked_titles(ranking), ranking[position].0, position),
        0,
    )
}

/// The candidate at `position` of a ranking of folded titles, with the title
/// of the entry it came from as the catalog writes it. A candidate that came
/// from no entry is left as it is.
pub open spec fn restored_candidate(
    ranking: Seq<(Seq<char>, u32)>,
    entries: Seq<CatalogEntryView>,
    position: int,
) -> (Seq<char>, u32) {
    match entry_of_candidate(ranking, entries, position) {
        Some(index) => (entries[index].title, ranking[position].1),
        None => ranking[position],
    }
}

/// A ranking of folded titles with each candidate's title restored.
pub open spec fn restored_ranking(
    ranking: Seq<(Seq<char>, u32)>,
    entries: Seq<CatalogEntryView>,
) -> Seq<(Seq<char>, u32)> {
    Seq::new(ranking.len(), |k: int| restored_candidate(ranking, entries, k))
}

/// The ranking of the catalog's titles for a file name: that of the
/// similarity search for the folded name among the folded titles, with the
/// titles restored.
pub open spec fn title_ranking(file_name: Seq<char>, entries: Seq<CatalogEntryView>) -> Seq<
    (Seq<char>, u32),
> {
    restored_ranking(
        fuzzy_ranking(lower(file_name), folded_titles_of(entries), MATCH_LIMIT as nat),
        entries,
    )
}

/// The entry matched to a file name: that of the best surviving candidate
/// of the ranking of the catalog's titles.
pub open spec fn title_match(file_name: Seq<char>, entries: Seq<CatalogEntryView>) -> Option<int> {
    first_match(title_ranking(file_name, entries), entries, 0)
}

/// The digest as the contracts speak of it.
pub open spec fn hash_view(hash: Option<&str>) -> Option<Seq<char>> {
    match hash {
        Some(digest) => Some(digest@),
        None => None,
    }
}

/// Every candidate before the one that `first_match` follows leads to no
/// entry, and the entry found is in the catalog.
pub proof fn lemma_first_match(
    candidates: Seq<(Seq<char>, u32)>,
    entries: Seq<CatalogEntryView>,
    from: int,
)
    requires
        0 <= from,
    ensures
        match first_match(candidates, entries, from) {
            Some(index) => 0 <= index < entries.len() && exists|k: int|
                from <= k < candidates.len() && #[trigger] candidate_match(candidates[k], entries)
                    == Some(index) && forall|j: int|
                    from <= j < k ==> candidate_match(#[trigger] candidates[j], entries) is None,
            None => forall|k: int|
                from <= k < candidates.len() ==> candidate_match(#[trigger] candidates[k], entries)
                    is None,
        },
    decreases candidates.len() - from,
{
    if from < candidates.len() {
        if candidate_match(candidates[from], entries) is Some {
            lemma_first_with_title(entries, candidates[from].0, 0);
        } else {
            lemma_first_match(candidates, entries, from + 1);
            match first_match(candidates, entries, from + 1) {
                Some(index) => {
                    let k = choose|k: int|
                        from + 1 <= k < candidates.len() && #[trigger] candidate_match(
                            candidates[k],
                            entries,
                        ) == Some(index) && forall|j: int|
                            from + 1 <= j < k ==> candidate_match(
                                #[trigger] candidates[j],
                                entries,
                            ) is None;
                    assert(from <= k < candidates.len() && candidate_match(candidates[k], entries)
                        == Some(index) && forall|j: int|
                        from <= j < k ==> candidate_match(#[trigger] candidates[j], entries)
                            is None);
                },
                None => {},
            }
        }
    }
}

/// Whether the title marks a variant that is never matched.
pub fn title_is_excluded(title: &str) -> (excluded: bool)
    ensures
        excluded == is_excluded_title(title@),
{
    let chars = to_chars(title);
    let subset = to_chars("[Subset");
    let hack = to_chars("~Hack~");
    let homebrew = to_chars("~Homebrew~");
    has_substring(chars.as_slice(), subset.as_slice()) || has_substring(
        chars.as_slice(),
        hack.as_slice(),
    ) || has_substring(chars.as_slice(), homebrew.as_slice())
}

/// The entry that a candidate leads to: the first whose title is exactly
/// the candidate's. A candidate below the threshold leads to none, and so
/// does one with an excluded title.
pub fn match_candidate(candidate: &Candidate, entries: &Vec<CatalogEntry>) -> (found: Option<usize>)
    ensures
        match found {
            Some(index) => index < entries.len() && candidate_match(
                candidate.deep_view(),
                entries.deep_view(),
            ) == Some(index as int),
            None => candidate_match(candidate.deep_view(), entries.deep_view()) is None,
        },
{
    if candidate.score_bits < SCORE_THRESHOLD_BITS || candidate.score_bits > SCORE_ONE_BITS {
        return None;
    }
    if title_is_excluded(candidate.title.as_str()) {
        return None;
    }
    find_title(entries, candidate.title.as_str())
}

/// The entry that the best surviving candidate leads to. The candidates are
/// taken in their order; one below the threshold, one with an excluded
/// title and one whose title no entry has are passed over.
pub fn select_match(candidates: &Vec<Candidate>, entries: &Vec<CatalogEntry>) -> (found: Option<
    usize,
>)
    ensures
        match found {
            Some(index) => index < entries.len() && first_match(
                candidates.deep_view(),
                entries.deep_view(),
                0,
            ) == Some(index as int),
            None => first_match(candidates.deep_view(), entries.deep_view(), 0) is None,
        },
{
    let mut i: usize = 0;
    while i < candidates.len()
        invariant
            i <= candidates.len(),
            first_match(candidates.deep_view(), entries.deep_view(), 0) == first_match(
                candidates.deep_view(),
                entries.deep_view(),
                i as int,
            ),
        decreases candidates.len() - i,
    {
        match match_candidate(&candidates[i], entries) {
            Some(index) => {
                return Some(index);
            },
            None => {},
        }
        i += 1;
    }
    None
}

/// Whether the digest confirms the entry: it is present and is one of the
/// entry's known digests.
pub fn confirm_hash(hash: Option<&str>, entry: &CatalogEntry) -> (confirmed: bool)
    ensures
        confirmed == hash_confirms(hash_view(hash), entry.deep_view().hashes),
{
    match hash {
        Some(digest) => entry.has_hash(digest),
        None => false,
    }
}

/// The outcome for a ranking of candidates and the digest of the image, if
/// one could be computed. A match by title stands whether or not the digest
/// confirms it.
pub fn match_candidates(
    candidates: &Vec<Candidate>,
    entries: &Vec<CatalogEntry>,
    hash: Option<&str>,
) -> (outcome: MatchResult)
    ensures
        outcome == match_outcome(candidates.deep_view(), entries.deep_view(), hash_view(hash)),
        outcome matches MatchResult::Matched { entry, .. } ==> entry < entries.len(),
{
    match select_match(candidates, entries) {
        Some(index) => {
            MatchResult::Matched { entry: index, confirmed: confirm_hash(hash, &entries[index]) }
        },
        None => MatchResult::Unmatched,
    }
}

/// How often the title of the candidate at `position` stands in the ranking
/// before it.
fn count_before(ranking: &Vec<Candidate>, position: usize) -> (count: usize)
    requires
        position < ranking.len(),
    ensures
        count <= position,
        count == occurrences_before(
            ranked_titles(ranking.deep_view()),
            ranking.deep_view()[position as int].0,
            position as int,
        ),
{
    let ghost titles = ranked_titles(ranking.deep_view());
    let ghost title = ranking.deep_view()[position as int].0;
    let mut count: usize = 0;
    let mut j: usize = 0;
    while j < position
        invariant
            j <= position < ranking.len(),
            count <= j,
            titles == ranked_titles(ranking.deep_view()),
            title == ranking@[position as int].title@,
            count == occurrences_before(titles, title, j as int),
        decreases position - j,
    {
        assert(titles[j as int] == ranking@[j as int].title@);
        if ranking[j].title == ranking[position].title {
            count += 1;
        }
        j += 1;
    }
    count
}

/// The candidates that the similarity search proposes for a file name: at
/// most five, the best first. The search is made with the case folded; each
/// candidate then carries the title of the entry it came from, as the
/// catalog writes it.
pub fn rank_titles(file_name: &str, entries: &Vec<CatalogEntry>) -> (candidates: Vec<Candidate>)
    ensures
        candidates.deep_view() == title_ranking(file_name@, entries.deep_view()),
        is_ranking(candidates.deep_view(), MATCH_LIMIT as nat),
{
    let folded_name = to_lower_string(file_name);
    let folded = folded_titles(entries);
    let ranking = best_titles(folded_name.as_str(), &folded, MATCH_LIMIT);
    let mut candidates: Vec<Candidate> = Vec::new();
    let mut k: usize = 0;
    while k < ranking.len()
        invariant
            k <= ranking.len(),
            candidates@.len() == k,
            folded.deep_view() == folded_titles_of(entries.deep_view()),
            forall|i: int|
                0 <= i < k ==> (#[trigger] candidates@[i]).deep_view() == restored_candidate(
                    ranking.deep_view(),
                    entries.deep_view(),
                    i,
                ),
        decreases ranking.len() - k,
    {
        assert(ranking.deep_view()[k as int] == ranking@[k as int].deep_view());
        let skip = count_before(&ranking, k);
        let title = match find_nth(&folded, ranking[k].title.as_str(), skip) {
            Some(index) => {
                assert(entries.deep_view()[index as int].title == entries@[index as int].title@);
                entries[index].title.clone()
            },
            None => ranking[k].title.clone(),
        };
        candidates.push(Candidate { title, score_bits: ranking[k].score_bits });
        k += 1;
    }
    proof {
        assert(candidates.deep_view() =~= restored_ranking(
            ranking.deep_view(),
            entries.deep_view(),
        ));
        lemma_restored_ranking_is_a_ranking(
            ranking.deep_view(),
            entries.deep_view(),
            MATCH_LIMIT as nat,
        );
    }
    candidates
}

/// The entry matched to a file name by its title alone.
pub fn match_title(file_name: &str, entries: &Vec<CatalogEntry>) -> (found: Option<usize>)
    ensures
        match found {
            Some(index) => index < entries.len() && title_match(file_name@, entries.deep_view())
                == Some(index as int),
            None => title_match(file_name@, entries.deep_view()) is None,
        },
{
    let candidates = rank_titles(file_name, entries);
    select_match(&candidates, entries)
}

/// Matches a file name against the catalog and confirms the match by the
/// image's digest, if one could be computed. The titles are ranked with the
/// case folded; the best surviving candidate is matched with the first entry
/// of exactly its title.
pub fn match_rom(file_name: &str, entries: &Vec<CatalogEntry>, hash: Option<&str>) -> (outcome:
    MatchResult)
    ensures
        outcome == match_outcome(
            restored_ranking(
                fuzzy_ranking(
                    lower(file_name@),
                    folded_titles_of(entries.deep_view()),
                    MATCH_LIMIT as nat,
                ),
                entries.deep_view(),
            ),
            entries.deep_view(),
            hash_view(hash),
        ),
        outcome matches MatchResult::Matched { entry, .. } ==> entry < entries.len(),
{
    let candidates = rank_titles(file_name, entries);
    match_candidates(&candidates, entries, hash)
}

/// The threshold is a closed bound: a candidate whose score is at the
/// threshold, or above it up to 1.0, leads to the first entry of exactly its
/// title, unless its title is excluded; one below the threshold leads to no
/// entry.
pub proof fn lemma_threshold_boundary(candidate: (Seq<char>, u32), entries: Seq<CatalogEntryView>)
    ensures
        SCORE_THRESHOLD_BITS <= candidate.1 <= SCORE_ONE_BITS && !is_excluded_title(candidate.0)
            ==> candidate_match(candidate, entries) == first_with_title(entries, candidate.0, 0),
        candidate.1 < SCORE_THRESHOLD_BITS ==> candidate_match(candidate, entries) is None,
{
}

/// A matched entry has exactly the title of the candidate that led to it,
/// and no entry before it has that title.
pub proof fn lemma_matched_entry_has_the_title(
    candidate: (Seq<char>, u32),
    entries: Seq<CatalogEntryView>,
)
    ensures
        candidate_match(candidate, entries) matches Some(index) ==> 0 <= index < entries.len()
            && entries[index].title == candidate.0 && forall|k: int|
            0 <= k < index ==> entries[k].title != candidate.0,
{
    lemma_first_with_title(entries, candidate.0, 0);
}

/// A restored candidate carries the title of a catalog entry whose folded
/// title is the one that the search ranked, and keeps its score.
pub proof fn lemma_restored_candidate_has_a_catalog_title(
    ranking: Seq<(Seq<char>, u32)>,
    entries: Seq<CatalogEntryView>,
    position: int,
)
    requires
        0 <= position < ranking.len(),
    ensures
        restored_ranking(ranking, entries).len() == ranking.len(),
        restored_ranking(ranking, entries)[position].1 == ranking[position].1,
        entry_of_candidate(ranking, entries, position) matches Some(index) ==> 0 <= index
            < entries.len() && restored_ranking(ranking, entries)[position].0
            == entries[index].title && lower(entries[index].title) == ranking[position].0,
{
    lemma_nth_occurrence(
        folded_titles_of(entries),
        ranking[position].0,
        occurrences_before(ranked_titles(ranking), ranking[position].0, position),
        0,
    );
}

/// Restoring the titles leaves the form of a ranking as it is.
pub proof fn lemma_restored_ranking_is_a_ranking(
    ranking: Seq<(Seq<char>, u32)>,
    entries: Seq<CatalogEntryView>,
    limit: nat,
)
    requires
        is_ranking(ranking, limit),
    ensures
        is_ranking(restored_ranking(ranking, entries), limit),
{
    let restored = restored_ranking(ranking, entries);
    assert forall|i: int| 0 <= i < restored.len() implies (#[trigger] restored[i]).1
        == ranking[i].1 by {}
}

/// A file is matched whatever the case of its name: two names that fold to
/// the same text are matched with the same entry.
pub proof fn lemma_file_name_matches_whatever_its_case(
    file_name: Seq<char>,
    other: Seq<char>,
    entries: Seq<CatalogEntryView>,
)
    requires
        lower(file_name) == lower(other),
    ensures
        title_match(file_name, entries) == title_match(other, entries),
{
}

/// An entry with an excluded title is never matched.
pub proof fn lemma_matched_entry_is_not_excluded(
    candidates: Seq<(Seq<char>, u32)>,
    entries: Seq<CatalogEntryView>,
)
    ensures
        first_match(candidates, entries, 0) matches Some(index) ==> 0 <= index < entries.len()
            && !is_excluded_title(entries[index].title),
{
    lemma_first_match(candidates, entries, 0);
    if first_match(candidates, entries, 0) is Some {
        let index = first_match(candidates, entries, 0)->0;
        let k = choose|k: int|
            0 <= k < candidates.len() && #[trigger] candidate_match(candidates[k], entries)
                == Some(index);
        lemma_first_with_title(entries, candidates[k].0, 0);
    }
}

/// A candidate with an excluded title is passed over whatever its score:
/// the outcome is that of the candidates behind it.
pub proof fn lemma_excluded_title_is_passed_over(
    candidates: Seq<(Seq<char>, u32)>,
    entries: Seq<CatalogEntryView>,
    hash: Option<Seq<char>>,
)
    requires
        candidates.len() > 0,
        is_excluded_title(candidates[0].0),
    ensures
        match_outcome(candidates, entries, hash) == match_outcome(
            candidates.subrange(1, candidates.len() as int),
            entries,
            hash,
        ),
{
    let rest = candidates.subrange(1, candidates.len() as int);
    lemma_first_match_of_tail(candidates, rest, entries, 1, 0);
}

/// `first_match` looks only at the candidates from `from` on.
proof fn lemma_first_match_of_tail(
    candidates: Seq<(Seq<char>, u32)>,
    rest: Seq<(Seq<char>, u32)>,
    entries: Seq<CatalogEntryView>,
    from: int,
    rest_from: int,
)
    requires
        0 <= rest_from <= from,
        rest.len() == candidates.len() - (from - rest_from),
        forall|k: int|
            rest_from <= k < rest.len() ==> rest[k] == candidates[k + (from - rest_from)],
    ensures
        first_match(candidates, entries, from) == first_match(rest, entries, rest_from),
    decreases candidates.len() - from,
{
    if from < candidates.len() {
        if candidate_match(candidates[from], entries) is None {
            lemma_first_match_of_tail(candidates, rest, entries, from + 1, rest_from + 1);
        }
    }
}

/// A match by title does not depend on the digest: the same entry is matched
/// with any digest and with none, and without a digest the match is
/// reported as unconfirmed, not dropped.
pub proof fn lemma_match_stands_without_hash(
    candidates: Seq<(Seq<char>, u32)>,
    entries: Seq<CatalogEntryView>,
    hash: Option<Seq<char>>,
)
    ensures
        match match_outcome(candidates, entries, hash) {
            MatchResult::Matched { entry, .. } => match_outcome(candidates, entries, None)
                == (MatchResult::Matched { entry, confirmed: false }),
            MatchResult::Unmatched => match_outcome(candidates, entries, None)
                == MatchResult::Unmatched,
        },
{
}

/// A confirmed match is a match whose digest is present and is one of the
/// matched entry's digests.
pub proof fn lemma_confirmed_means_known_hash(
    candidates: Seq<(Seq<char>, u32)>,
    entries: Seq<CatalogEntryView>,
    hash: Option<Seq<char>>,
)
    requires
        entries.len() <= usize::MAX,
    ensures
        match_outcome(candidates, entries, hash) matches MatchResult::Matched { entry, confirmed }
            ==> entry < entries.len() && confirmed == hash_confirms(
            hash,
            entries[entry as int].hashes,
        ),
{
    lemma_first_match(candidates, entries, 0);
}

/// In a ranking every score is one between 0.0 and 1.0, so a candidate of a
/// ranking is accepted exactly where its score is at the threshold or above.
pub proof fn lemma_ranked_score_is_accepted_from_threshold(
    ranking: Seq<(Seq<char>, u32)>,
    limit: nat,
    position: int,
)
    requires
        is_ranking(ranking, limit),
        0 <= position < ranking.len(),
    ensures
        score_accepted(ranking[position].1) <==> ranking[position].1 >= SCORE_THRESHOLD_BITS,
{
}

/// In a ranking, the candidate that is followed has the highest score of
/// all candidates that lead to an entry.
pub proof fn lemma_followed_candidate_scores_highest(
    ranking: Seq<(Seq<char>, u32)>,
    limit: nat,
    entries: Seq<CatalogEntryView>,
    followed: int,
    other: int,
)
    requires
        is_ranking(ranking, limit),
        0 <= followed < ranking.len(),
        candidate_match(ranking[followed], entries) is Some,
        forall|j: int|
            0 <= j < followed ==> candidate_match(#[trigger] ranking[j], entries) is None,
        0 <= other < ranking.len(),
        candidate_match(ranking[other], entries) is Some,
    ensures
        first_match(ranking, entries, 0) == candidate_match(ranking[followed], entries),
        ranking[other].1 <= ranking[followed].1,
{
    lemma_first_match(ranking, entries, 0);
}

} // verus!
