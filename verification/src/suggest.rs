//! "Did you mean ...?" suggestions for misspelled names.
use vstd::prelude::*;
use crate::text::push_str;

verus! {

/// The bit pattern of the Jaro-Winkler similarity of `a` and `b`, as
/// `strsim::jaro_winkler` computes it.
pub uninterp spec fn jaro_winkler_bits(a: Seq<char>, b: Seq<char>) -> u64;

/// `strsim::jaro_winkler(a, b)`, handed over as the bit pattern of the `f64`
/// it returns (`f64::to_bits`). The similarity is never negative, and for
/// non-negative floats the order of the bit patterns is the order of the
/// numbers, so the library compares similarities by comparing these bits.
#[verifier::external_body]
fn similarity_bits(a: &str, b: &str) -> (r: u64)
    ensures
        r == jaro_winkler_bits(a@, b@),
{
    strsim::jaro_winkler(a, b).to_bits()
}

/// The bit pattern of the `f64` closest to 0.7: a candidate is only suggested
/// when its similarity is strictly above it.
pub const SUGGESTION_THRESHOLD_BITS: u64 = 0x3FE6_6666_6666_6666u64;

/// The index of the best of `scores[0..n]`: the highest one above the
/// threshold, the last one on a tie; `None` when none is above it.
pub open spec fn best_score_index(scores: Seq<u64>, n: int) -> Option<int>
    decreases n,
{
    if n <= 0 {
        None
    } else {
        let prev = best_score_index(scores, n - 1);
        if scores[n - 1] > SUGGESTION_THRESHOLD_BITS && (prev is None || scores[n - 1] >= scores[prev->0]) {
            Some(n - 1)
        } else {
            prev
        }
    }
}

/// The similarity of `found` to each candidate, in order.
pub open spec fn similarities(found: Seq<char>, candidates: Seq<Seq<char>>) -> Seq<u64> {
    Seq::new(candidates.len(), |i: int| jaro_winkler_bits(found, candidates[i]))
}

/// The candidate suggested for `found`, if any.
pub open spec fn suggestion(found: Seq<char>, candidates: Seq<Seq<char>>) -> Option<Seq<char>> {
    match best_score_index(similarities(found, candidates), candidates.len() as int) {
        Some(i) => Some(candidates[i]),
        None => None,
    }
}

pub proof fn lemma_best_score_index_in_range(scores: Seq<u64>, n: int)
    ensures
        best_score_index(scores, n) matches Some(i) ==> 0 <= i < n,
    decreases n,
{
    if n > 0 {
        lemma_best_score_index_in_range(scores, n - 1);
    }
}

/// The index of the best of `scores`: the highest one above the
/// suggestion threshold, the last one on a tie; `None` when none is above.
pub fn best_scoring(scores: &Vec<u64>) -> (r: Option<usize>)
    ensures
        r matches Some(k) ==> best_score_index(scores@, scores@.len() as int) == Some(k as int),
        r is None ==> best_score_index(scores@, scores@.len() as int) is None,
{
    let mut best: Option<usize> = None;
    let mut i: usize = 0;
    while i < scores.len()
        invariant
            i <= scores@.len(),
            best matches Some(k) ==> best_score_index(scores@, i as int) == Some(k as int) && k < i,
            best is None ==> best_score_index(scores@, i as int) is None,
        decreases scores@.len() - i,
    {
        let score = scores[i];
        let better = match best {
            Some(k) => score >= scores[k],
            None => true,
        };
        if score > SUGGESTION_THRESHOLD_BITS && better {
            best = Some(i);
        }
        i = i + 1;
    }
    best
}

/// Suggests the candidate closest to `found`: the one with the highest
/// Jaro-Winkler similarity above 0.7 (the last one on a tie), or `None`.
pub fn did_you_mean(found: &str, candidates: &Vec<&'static str>) -> (r: Option<String>)
    ensures
        r matches Some(s) ==> suggestion(found@, candidates@.map_values(|c: &'static str| c@)) == Some(s@),
        r is None ==> suggestion(found@, candidates@.map_values(|c: &'static str| c@)) is None,
{
    let ghost names = candidates@.map_values(|c: &'static str| c@);
    let mut scores: Vec<u64> = Vec::new();
    let mut i: usize = 0;
    while i < candidates.len()
        invariant
            i <= candidates@.len(),
            names == candidates@.map_values(|c: &'static str| c@),
            scores@ =~= similarities(found@, names).take(i as int),
        decreases candidates@.len() - i,
    {
        assert(names[i as int] == candidates@[i as int]@);
        scores.push(similarity_bits(found, candidates[i]));
        i = i + 1;
    }
    assert(scores@ =~= similarities(found@, names));
    let best = best_scoring(&scores);
    proof {
        lemma_best_score_index_in_range(scores@, scores@.len() as int);
    }
    match best {
        Some(k) => {
            let mut s = String::new();
            push_str(&mut s, candidates[k]);
            assert(s@ == names[k as int]);
            Some(s)
        },
        None => None,
    }
}

} // verus!
