use vstd::prelude::*;

verus! {

/// The positive scores, in their order; a score of 0 is not a valid score.
pub open spec fn positive_scores(s: Seq<u32>) -> Seq<u32>
    decreases s.len(),
{
    if s.len() == 0 {
        Seq::empty()
    } else {
        let prev = positive_scores(s.drop_last());
        if s.last() > 0 {
            prev.push(s.last())
        } else {
            prev
        }
    }
}

/// The sum of the scores.
pub open spec fn score_sum(s: Seq<u32>) -> nat
    decreases s.len(),
{
    if s.len() == 0 {
        0
    } else {
        score_sum(s.drop_last()) + s.last() as nat
    }
}

/// Every positive score is valid and no other: no scores hold no valid
/// ones, one more positive score is appended to the valid ones, and one more
/// zero score changes nothing.
pub proof fn lemma_positive_scores_push(s: Seq<u32>, x: u32)
    ensures
        positive_scores(Seq::<u32>::empty()) == Seq::<u32>::empty(),
        x > 0 ==> positive_scores(s.push(x)) == positive_scores(s).push(x),
        x == 0 ==> positive_scores(s.push(x)) == positive_scores(s),
{
    assert(s.push(x).drop_last() =~= s);
}

/// The sum adds each score once: no scores sum to 0, and one more score adds
/// its value.
pub proof fn lemma_score_sum_push(s: Seq<u32>, x: u32)
    ensures
        score_sum(Seq::<u32>::empty()) == 0,
        score_sum(s.push(x)) == score_sum(s) + x,
{
    assert(s.push(x).drop_last() =~= s);
}

/// When all scores are positive, all are valid: the summary counts them all
/// and adds them all.
pub proof fn lemma_all_positive_scores_valid(s: Seq<u32>)
    requires
        forall|i: int| 0 <= i < s.len() ==> #[trigger] s[i] > 0,
    ensures
        positive_scores(s) == s,
    decreases s.len(),
{
    if s.len() > 0 {
        lemma_all_positive_scores_valid(s.drop_last());
        assert(s.drop_last().push(s.last()) =~= s);
    }
}

/// A valid score is one of the scores, and every valid score is positive.
pub proof fn lemma_positive_scores_are_positive_members(s: Seq<u32>)
    ensures
        positive_scores(s).len() <= s.len(),
        forall|i: int|
            0 <= i < positive_scores(s).len() ==> #[trigger] positive_scores(s)[i] > 0
                && s.contains(positive_scores(s)[i]),
    decreases s.len(),
{
    if s.len() > 0 {
        let p = s.drop_last();
        lemma_positive_scores_are_positive_members(p);
        assert forall|i: int| 0 <= i < positive_scores(s).len() implies #[trigger] positive_scores(
            s,
        )[i] > 0 && s.contains(positive_scores(s)[i]) by {
            if i < positive_scores(p).len() {
                let j = choose|j: int| 0 <= j < p.len() && p[j] == positive_scores(p)[i];
                assert(s[j] == p[j]);
            } else {
                assert(s[s.len() - 1] == s.last());
            }
        }
    }
}

/// How many valid scores there are and what they add up to.
pub struct ScoreSummary {
    pub total: usize,
    pub sum: u32,
}

/// The sum of the valid scores of a longer prefix is no smaller.
proof fn lemma_positive_sum_monotone(s: Seq<u32>, i: int, j: int)
    requires
        0 <= i <= j <= s.len(),
    ensures
        score_sum(positive_scores(s.take(i))) <= score_sum(positive_scores(s.take(j))),
    decreases j - i,
{
    if i < j {
        lemma_positive_sum_monotone(s, i, j - 1);
        let prev = positive_scores(s.take(j - 1));
        assert(s.take(j).drop_last() =~= s.take(j - 1));
        if s[j - 1] > 0 {
            assert(prev.push(s[j - 1]).drop_last() =~= prev);
        }
    }
}

/// Counts and adds up the valid (positive) scores. `None` when their sum does
/// not fit in a `u32`.
pub fn summarize_scores(scores: &Vec<u32>) -> (r: Option<ScoreSummary>)
    ensures
        match r {
            Some(m) => {
                &&& m.total == positive_scores(scores@).len()
                &&& m.sum == score_sum(positive_scores(scores@))
            },
            None => score_sum(positive_scores(scores@)) > u32::MAX,
        },
{
    let mut total: usize = 0;
    let mut sum: u32 = 0;
    let n = scores.len();
    for i in 0..n
        invariant
            n == scores@.len(),
            total == positive_scores(scores@.take(i as int)).len(),
            sum == score_sum(positive_scores(scores@.take(i as int))),
            total <= i,
    {
        let x = scores[i];
        let ghost prev = positive_scores(scores@.take(i as int));
        assert(scores@.take(i + 1).drop_last() =~= scores@.take(i as int));
        if x > 0 {
            assert(prev.push(x).drop_last() =~= prev);
            match sum.checked_add(x) {
                Some(s) => {
                    sum = s;
                    total = total + 1;
                },
                None => {
                    proof {
                        lemma_positive_sum_monotone(scores@, i + 1, n as int);
                        assert(scores@.take(n as int) =~= scores@);
                    }
                    return None;
                },
            }
        }
    }
    assert(scores@.take(n as int) =~= scores@);
    Some(ScoreSummary { total, sum })
}

/// What `serde_json::from_str::<Vec<u32>>` returns for text with these
/// characters: the numbers when the text is a JSON array of `u32`, `None` otherwise.
pub uninterp spec fn parsed_scores(raw: Seq<char>) -> Option<Seq<u32>>;

/// Wraps `serde_json::from_str::<Vec<u32>>`: its result, with the error
/// turned into `None`, is `parsed_scores` of the text. Nothing is stated of
/// which texts parse or of the error.
#[verifier::external_body]
fn parse_scores(raw: &str) -> (r: Option<Vec<u32>>)
    ensures
        match r {
            Some(v) => parsed_scores(raw@) == Some(v@),
            None => parsed_scores(raw@) is None,
        },
{
    serde_json::from_str::<Vec<u32>>(raw).ok()
}

/// Reads the scores from JSON text and summarizes the valid ones. `None` when
/// the text is not a JSON array of `u32`; `Some(None)` when the sum of the
/// valid scores does not fit in a `u32`.
pub fn summarize_score_text(raw: &str) -> (r: Option<Option<ScoreSummary>>)
    ensures
        match parsed_scores(raw@) {
            None => r is None,
            Some(s) => r matches Some(m) && match m {
                Some(x) => {
                    &&& x.total == positive_scores(s).len()
                    &&& x.sum == score_sum(positive_scores(s))
                },
                None => score_sum(positive_scores(s)) > u32::MAX,
            },
        },
{
    match parse_scores(raw) {
        None => None,
        Some(scores) => Some(summarize_scores(&scores)),
    }
}

} // verus!
