//! Choice of one image out of a responsive candidate set: a list of entries
//! separated by commas, each an address and a density descriptor separated by
//! white space.

use vstd::prelude::*;
use crate::text::{
    is_part_of, is_white_space, joined, lemma_part_of_part, lemma_split_concat,
    lemma_split_is_not_empty, lemma_split_pieces_are_parts, lemma_split_pieces_have_no_separator,
    lemma_split_without_separator, lemma_tokens_after_space, lemma_tokens_are_parts,
    lemma_tokens_are_runs, lemma_tokens_of_trimmed, lemma_tokens_skip_leading_space,
    lemma_trimmed_is_part, same_text, split, split_on, tokens, tokens_of, trim, trimmed, views_of,
};

verus! {

/// The density descriptor that the last candidate is expected to carry.
pub const MAX_DENSITY: &'static str = "3x";

/// Why no image could be chosen.
#[derive(Debug, Clone, Copy, PartialEq, Eq)]
pub enum ImageError {
    /// The candidate set is empty.
    NoCandidates,
    /// An entry is not an address and a descriptor.
    MalformedCandidate,
}

/// One entry of a candidate set.
#[derive(Debug, Clone, PartialEq, Eq)]
pub struct Candidate {
    pub url: String,
    pub density: String,
}

/// The two tokens of a candidate.
pub struct CandidateView {
    pub url: Seq<char>,
    pub density: Seq<char>,
}

impl View for Candidate {
    type V = CandidateView;

    open spec fn view(&self) -> CandidateView {
        CandidateView { url: self.url@, density: self.density@ }
    }
}

/// The entries of a candidate set.
pub open spec fn entries_of(src_set: Seq<char>) -> Seq<Seq<char>> {
    split_on(src_set, ',')
}

/// The tokens of one entry.
pub open spec fn entry_tokens(entry: Seq<char>) -> Seq<Seq<char>> {
    tokens_of(trimmed(entry))
}

/// Whether every entry of the candidate set is made of exactly two tokens.
pub open spec fn all_entries_well_formed(src_set: Seq<char>) -> bool {
    forall|i: int|
        0 <= i < entries_of(src_set).len() ==> (#[trigger] entry_tokens(
            entries_of(src_set)[i],
        )).len() == 2
}

/// The candidate chosen from a candidate set: the last entry, provided that
/// the set is not empty and every entry is well formed.
pub open spec fn chosen_candidate(src_set: Seq<char>) -> Result<CandidateView, ImageError> {
    if src_set.len() == 0 {
        Err(ImageError::NoCandidates)
    } else if !all_entries_well_formed(src_set) {
        Err(ImageError::MalformedCandidate)
    } else {
        let last = entry_tokens(entries_of(src_set).last());
        Ok(CandidateView { url: last[0], density: last[1] })
    }
}

impl Candidate {
    /// Whether this candidate carries the highest density descriptor known.
    pub fn has_max_density(&self) -> (highest: bool)
        ensures
            highest == (self.density@ == MAX_DENSITY@),
    {
        same_text(self.density.as_str(), MAX_DENSITY)
    }
}

/// The last candidate of the set, which is taken to be the one of highest
/// density.
pub fn select_candidate(src_set: &str) -> (out: Result<Candidate, ImageError>)
    ensures
        match out {
            Ok(candidate) => chosen_candidate(src_set@) == Ok::<CandidateView, ImageError>(
                candidate@,
            ),
            Err(e) => chosen_candidate(src_set@) == Err::<CandidateView, ImageError>(e),
        },
{
    if src_set.unicode_len() == 0 {
        return Err(ImageError::NoCandidates);
    }
    let entries = split(src_set, ',');
    proof {
        lemma_split_is_not_empty(src_set@, ',');
    }
    let mut chosen = Candidate { url: String::new(), density: String::new() };
    let mut i: usize = 0;
    while i < entries.len()
        invariant
            i <= entries.len(),
            src_set@.len() > 0,
            entries.len() >= 1,
            views_of(entries@) == entries_of(src_set@),
            forall|k: int|
                0 <= k < i ==> (#[trigger] entry_tokens(entries_of(src_set@)[k])).len() == 2,
            i > 0 ==> chosen.url@ == entry_tokens(entries_of(src_set@)[i - 1])[0],
            i > 0 ==> chosen.density@ == entry_tokens(entries_of(src_set@)[i - 1])[1],
        decreases entries.len() - i,
    {
        let entry = trim(entries[i].as_str());
        let parts = tokens(entry.as_str());
        proof {
            assert(views_of(entries@)[i as int] == entries@[i as int]@);
            assert(views_of(parts@) == entry_tokens(entries_of(src_set@)[i as int]));
        }
        if parts.len() != 2 {
            assert(entry_tokens(entries_of(src_set@)[i as int]).len() != 2);
            return Err(ImageError::MalformedCandidate);
        }
        proof {
            assert(views_of(parts@)[0] == parts@[0]@);
            assert(views_of(parts@)[1] == parts@[1]@);
        }
        chosen = Candidate { url: parts[0].clone(), density: parts[1].clone() };
        i += 1;
    }
    proof {
        assert(entries_of(src_set@).last() == entries_of(src_set@)[i - 1]);
    }
    Ok(chosen)
}

/// The address of the image of highest density in the candidate set.
pub fn extract_highest_res_img(src_set: &str) -> (out: Result<String, ImageError>)
    ensures
        match out {
            Ok(url) => chosen_candidate(src_set@) matches Ok(candidate) && candidate.url == url@,
            Err(e) => chosen_candidate(src_set@) == Err::<CandidateView, ImageError>(e),
        },
{
    match select_candidate(src_set) {
        Ok(candidate) => Ok(candidate.url),
        Err(e) => Err(e),
    }
}

/// A token of a well-formed candidate: not empty, and free of white space and
/// of commas.
pub open spec fn is_plain_token(t: Seq<char>) -> bool {
    &&& t.len() > 0
    &&& forall|i: int| 0 <= i < t.len() ==> !is_white_space(#[trigger] t[i]) && t[i] != ','
}

/// Whether every candidate is made of two plain tokens.
pub open spec fn all_plain(candidates: Seq<CandidateView>) -> bool {
    forall|i: int|
        0 <= i < candidates.len() ==> is_plain_token(#[trigger] candidates[i].url)
            && is_plain_token(candidates[i].density)
}

/// The text of one entry: the address, a space and the descriptor.
pub open spec fn entry_text(candidate: CandidateView) -> Seq<char> {
    candidate.url + seq![' '] + candidate.density
}

/// The text of a candidate set: its entries with a comma and a space between
/// them.
pub open spec fn candidate_set_text(candidates: Seq<CandidateView>) -> Seq<char> {
    joined(Seq::new(candidates.len(), |i: int| entry_text(candidates[i])), seq![',', ' '])
}

/// The tokens of an entry of two plain tokens, with or without a space before
/// it, are those two tokens.
proof fn lemma_tokens_of_entry(candidate: CandidateView)
    requires
        is_plain_token(candidate.url),
        is_plain_token(candidate.density),
    ensures
        entry_tokens(entry_text(candidate)) == seq![candidate.url, candidate.density],
        entry_tokens(seq![' '] + entry_text(candidate)) == seq![
            candidate.url,
            candidate.density,
        ],
{
    let url = candidate.url;
    let density = candidate.density;
    let none = Seq::<char>::empty();
    lemma_tokens_after_space(none, ' ', url);
    assert(none + seq![' '] + url =~= seq![' '] + url);
    assert(tokens_of(none).push(url) =~= seq![url]);
    lemma_tokens_skip_leading_space(' ', url);
    lemma_tokens_after_space(url, ' ', density);
    lemma_tokens_after_space(seq![' '] + url, ' ', density);
    assert(seq![' '] + url + seq![' '] + density =~= seq![' '] + entry_text(candidate));
    assert(seq![url].push(density) =~= seq![url, density]);
    lemma_tokens_of_trimmed(entry_text(candidate));
    lemma_tokens_of_trimmed(seq![' '] + entry_text(candidate));
}

/// The entries of the text of a candidate set are the texts of its
/// candidates, each but the first behind a space.
proof fn lemma_entries_of_set_text(candidates: Seq<CandidateView>)
    requires
        candidates.len() >= 1,
        all_plain(candidates),
    ensures
        entries_of(candidate_set_text(candidates)).len() == candidates.len(),
        entries_of(candidate_set_text(candidates))[0] == entry_text(candidates[0]),
        forall|i: int|
            1 <= i < candidates.len() ==> #[trigger] entries_of(candidate_set_text(candidates))[i]
                == seq![' '] + entry_text(candidates[i]),
    decreases candidates.len(),
{
    let texts = Seq::new(candidates.len(), |i: int| entry_text(candidates[i]));
    let last = candidates.last();
    assert(last == candidates[candidates.len() - 1]);
    assert(is_plain_token(candidates[candidates.len() - 1].url));
    if candidates.len() == 1 {
        assert(candidate_set_text(candidates) == entry_text(candidates[0]));
        lemma_split_without_separator(entry_text(candidates[0]), ',');
    } else {
        let before = candidates.drop_last();
        assert(all_plain(before)) by {
            assert forall|i: int| 0 <= i < before.len() implies is_plain_token(
                #[trigger] before[i].url,
            ) && is_plain_token(before[i].density) by {
                assert(before[i] == candidates[i]);
                assert(is_plain_token(candidates[i].url));
            }
        }
        lemma_entries_of_set_text(before);
        let texts_before = Seq::new(before.len(), |i: int| entry_text(before[i]));
        assert(texts.drop_last() =~= texts_before);
        let head = candidate_set_text(before);
        let tail = seq![' '] + entry_text(last);
        assert(candidate_set_text(candidates) =~= head + seq![','] + tail);
        lemma_split_concat(head, tail, ',');
        lemma_split_without_separator(tail, ',');
        assert(entries_of(candidate_set_text(candidates)) =~= entries_of(head).push(tail));
    }
}

/// From a candidate set written as addresses and descriptors in the usual
/// way, the address of the last candidate is chosen, whatever the set holds
/// before it.
pub proof fn lemma_last_candidate_is_chosen(candidates: Seq<CandidateView>)
    requires
        candidates.len() >= 1,
        all_plain(candidates),
    ensures
        chosen_candidate(candidate_set_text(candidates)) == Ok::<CandidateView, ImageError>(
            candidates.last(),
        ),
{
    let text = candidate_set_text(candidates);
    let entries = entries_of(text);
    lemma_entries_of_set_text(candidates);
    assert(entries.len() == candidates.len());
    assert forall|i: int| 0 <= i < entries.len() implies (#[trigger] entry_tokens(
        entries_of(text)[i],
    )) == seq![candidates[i].url, candidates[i].density] by {
        let candidate = candidates[i];
        assert(is_plain_token(candidates[i].url));
        lemma_tokens_of_entry(candidate);
        if i >= 1 {
            assert(entries_of(text)[i] == seq![' '] + entry_text(candidate));
        }
    }
    assert(all_entries_well_formed(text));
    assert(entries.last() == entries_of(text)[entries.len() - 1]);
    lemma_set_text_is_not_empty(candidates);
}

/// The text of a candidate set with a candidate in it is not empty.
proof fn lemma_set_text_is_not_empty(candidates: Seq<CandidateView>)
    requires
        candidates.len() >= 1,
    ensures
        candidate_set_text(candidates).len() > 0,
{
    let texts = Seq::new(candidates.len(), |i: int| entry_text(candidates[i]));
    assert(texts.last().len() > 0);
}

/// The empty candidate set has no candidates.
pub proof fn lemma_empty_set_has_no_candidates()
    ensures
        chosen_candidate(Seq::<char>::empty()) == Err::<CandidateView, ImageError>(
            ImageError::NoCandidates,
        ),
{
}

/// The address chosen from a candidate set is not empty, holds neither white
/// space nor a comma, and is a stretch of the candidate set.
pub proof fn lemma_chosen_address_is_plain(src_set: Seq<char>)
    requires
        chosen_candidate(src_set) is Ok,
    ensures
        is_plain_token(chosen_candidate(src_set)->Ok_0.url),
        is_part_of(chosen_candidate(src_set)->Ok_0.url, src_set),
{
    let entries = entries_of(src_set);
    lemma_split_pieces_are_parts(src_set, ',');
    lemma_split_pieces_have_no_separator(src_set, ',');
    let entry = entries.last();
    assert(entry == entries_of(src_set)[entries.len() - 1]);
    assert(entry_tokens(entries_of(src_set)[entries.len() - 1]).len() == 2);
    let text = trimmed(entry);
    let url = tokens_of(text)[0];
    assert(url == chosen_candidate(src_set)->Ok_0.url);
    lemma_tokens_are_runs(text);
    lemma_tokens_are_parts(text);
    lemma_trimmed_is_part(entry);
    lemma_part_of_part(url, text, entry);
    lemma_part_of_part(url, entry, src_set);
    let (from, to) = choose|from: int, to: int|
        0 <= from <= to <= entry.len() && url == #[trigger] entry.subrange(from, to);
    assert forall|i: int| 0 <= i < url.len() implies !is_white_space(#[trigger] url[i]) && url[i]
        != ',' by {
        assert(url[i] == tokens_of(text)[0][i]);
        assert(url[i] == entry[from + i]);
        assert(split_on(src_set, ',')[entries.len() - 1][from + i] != ',');
    }
}

} // verus!
