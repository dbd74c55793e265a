//! The picker: which of an actor's scored behaviours wins.

use vstd::prelude::*;

verus! {

/// Picks the first choice, in priority order, whose score reaches the
/// threshold.
#[derive(Clone, Copy, Debug, PartialEq, Eq, Structural)]
pub struct FirstToScore {
    /// The score a choice must reach, in thousandths.
    pub threshold: u32,
}

/// The index of the first score that reaches `threshold`, if any does.
pub open spec fn first_to_score(scores: Seq<u32>, threshold: u32) -> Option<int>
    decreases scores.len(),
{
    if scores.len() == 0 {
        None
    } else if scores[0] >= threshold {
        Some(0)
    } else {
        match first_to_score(scores.drop_first(), threshold) {
            Some(i) => Some(i + 1),
            None => None,
        }
    }
}

/// `first_to_score` names a score that reaches the threshold and has no such
/// score before it; it names none only where no score reaches the threshold.
pub proof fn lemma_first_to_score(scores: Seq<u32>, threshold: u32)
    ensures
        match first_to_score(scores, threshold) {
            Some(i) => {
                &&& 0 <= i < scores.len()
                &&& scores[i] >= threshold
                &&& forall|j: int| 0 <= j < i ==> #[trigger] scores[j] < threshold
            },
            None => forall|j: int| 0 <= j < scores.len() ==> #[trigger] scores[j] < threshold,
        },
    decreases scores.len(),
{
    if scores.len() > 0 && scores[0] < threshold {
        let rest = scores.drop_first();
        lemma_first_to_score(rest, threshold);
        match first_to_score(rest, threshold) {
            Some(i) => {
                assert(rest[i] == scores[i + 1]);
                assert forall|j: int| 0 <= j < i + 1 implies #[trigger] scores[j] < threshold by {
                    if j > 0 {
                        assert(rest[j - 1] == scores[j]);
                    }
                }
            },
            None => {
                assert forall|j: int| 0 <= j < scores.len() implies #[trigger] scores[j]
                    < threshold by {
                    if j > 0 {
                        assert(rest[j - 1] == scores[j]);
                    }
                }
            },
        }
    }
}

/// Where no score before `k` reaches the threshold, the pick among all scores
/// is the pick among those from `k` on, moved up by `k`.
pub proof fn lemma_first_to_score_skip(scores: Seq<u32>, threshold: u32, k: int)
    requires
        0 <= k <= scores.len(),
        forall|j: int| 0 <= j < k ==> #[trigger] scores[j] < threshold,
    ensures
        first_to_score(scores, threshold) == match first_to_score(scores.skip(k), threshold) {
            Some(i) => Some(i + k),
            None => None,
        },
    decreases k,
{
    if k == 0 {
        assert(scores.skip(0) =~= scores);
    } else {
        lemma_first_to_score_skip(scores, threshold, k - 1);
        let tail = scores.skip(k - 1);
        assert(tail[0] == scores[k - 1]);
        assert(tail.drop_first() =~= scores.skip(k));
    }
}

impl FirstToScore {
    /// A picker with the given threshold, in thousandths.
    pub fn new(threshold: u32) -> (r: FirstToScore)
        ensures
            r.threshold == threshold,
    {
        FirstToScore { threshold }
    }

    /// Picks among `scores`, which stand in priority order.
    pub fn pick(&self, scores: &Vec<u32>) -> (r: Option<usize>)
        ensures
            match r {
                Some(i) => first_to_score(scores@, self.threshold) == Some(i as int),
                None => first_to_score(scores@, self.threshold).is_none(),
            },
    {
        let mut k: usize = 0;
        while k < scores.len()
            invariant
                k <= scores.len(),
                forall|j: int| 0 <= j < k ==> #[trigger] scores@[j] < self.threshold,
            decreases scores.len() - k,
        {
            if scores[k] >= self.threshold {
                proof {
                    lemma_first_to_score_skip(scores@, self.threshold, k as int);
                    assert(scores@.skip(k as int)[0] == scores@[k as int]);
                }
                return Some(k);
            }
            k = k + 1;
        }
        proof {
            lemma_first_to_score_skip(scores@, self.threshold, k as int);
            assert(scores@.skip(k as int).len() == 0);
        }
        None
    }
}

} // verus!
