//! The aggregator: folds the question counts of the subjects of one test
//! into grand totals and the two grand percentages.

use vstd::prelude::*;
use crate::marking::{
    lemma_subject_scores_bounded, ratio_pct, spec_ratio_pct, spec_subject_max_score,
    spec_subject_raw_score, subject_max_score, subject_raw_score, subject_score_bound,
};
use crate::models::{MarkingConfig, SubjectRaw};

verus! {

/// Sum of the raw scores of the subjects, in hundredths of a point.
pub open spec fn sum_raw_score(raws: Seq<SubjectRaw>, marking: MarkingConfig) -> int
    decreases raws.len(),
{
    if raws.len() == 0 {
        0
    } else {
        sum_raw_score(raws.drop_last(), marking) + spec_subject_raw_score(raws.last(), marking)
    }
}

/// Sum of the highest possible scores of the subjects.
pub open spec fn sum_max_score(raws: Seq<SubjectRaw>, marking: MarkingConfig) -> int
    decreases raws.len(),
{
    if raws.len() == 0 {
        0
    } else {
        sum_max_score(raws.drop_last(), marking) + spec_subject_max_score(raws.last(), marking)
    }
}

/// Number of correct answers over all subjects.
pub open spec fn sum_correct(raws: Seq<SubjectRaw>) -> int
    decreases raws.len(),
{
    if raws.len() == 0 {
        0
    } else {
        sum_correct(raws.drop_last()) + raws.last().correct
    }
}

/// Number of attempted questions over all subjects.
pub open spec fn sum_attempted(raws: Seq<SubjectRaw>) -> int
    decreases raws.len(),
{
    if raws.len() == 0 {
        0
    } else {
        sum_attempted(raws.drop_last()) + raws.last().attempted
    }
}

/// Grand score percentage of a test: the summed raw score as a share of the
/// summed highest possible score.
pub open spec fn spec_grand_score_pct(raws: Seq<SubjectRaw>, marking: MarkingConfig) -> int {
    spec_ratio_pct(sum_raw_score(raws, marking), sum_max_score(raws, marking))
}

/// Grand accuracy percentage of a test: the correct answers as a share of
/// the attempted questions, over all subjects.
pub open spec fn spec_grand_accuracy_pct(raws: Seq<SubjectRaw>) -> int {
    spec_ratio_pct(sum_correct(raws), sum_attempted(raws))
}

/// The two percentages derived for a whole test.
#[derive(Clone, Copy, Debug, PartialEq, Eq)]
pub struct GrandTotals {
    pub score_pct: i128,
    pub accuracy_pct: i128,
}

/// What the four sums become when one more subject is appended.
pub proof fn lemma_sums_push(raws: Seq<SubjectRaw>, raw: SubjectRaw, marking: MarkingConfig)
    ensures
        sum_raw_score(raws.push(raw), marking) == sum_raw_score(raws, marking)
            + spec_subject_raw_score(raw, marking),
        sum_max_score(raws.push(raw), marking) == sum_max_score(raws, marking)
            + spec_subject_max_score(raw, marking),
        sum_correct(raws.push(raw)) == sum_correct(raws) + raw.correct,
        sum_attempted(raws.push(raw)) == sum_attempted(raws) + raw.attempted,
{
    assert(raws.push(raw).drop_last() =~= raws);
}

/// What the four sums are without one of the subjects.
pub proof fn lemma_sums_remove(raws: Seq<SubjectRaw>, k: int, marking: MarkingConfig)
    requires
        0 <= k < raws.len(),
    ensures
        sum_raw_score(raws, marking) == sum_raw_score(raws.remove(k), marking)
            + spec_subject_raw_score(raws[k], marking),
        sum_max_score(raws, marking) == sum_max_score(raws.remove(k), marking)
            + spec_subject_max_score(raws[k], marking),
        sum_correct(raws) == sum_correct(raws.remove(k)) + raws[k].correct,
        sum_attempted(raws) == sum_attempted(raws.remove(k)) + raws[k].attempted,
    decreases raws.len(),
{
    if k == raws.len() - 1 {
        assert(raws.remove(k) =~= raws.drop_last());
    } else {
        lemma_sums_remove(raws.drop_last(), k, marking);
        assert(raws.remove(k).drop_last() =~= raws.drop_last().remove(k));
        assert(raws.remove(k).last() == raws.last());
    }
}

/// The sums, and with them the grand percentages of a test, do not depend
/// on the order of its subjects: two sequences that hold the same subjects
/// the same number of times give the same sums.
pub proof fn law_grand_totals_ignore_order(
    a: Seq<SubjectRaw>,
    b: Seq<SubjectRaw>,
    marking: MarkingConfig,
)
    requires
        a.to_multiset() == b.to_multiset(),
    ensures
        sum_raw_score(a, marking) == sum_raw_score(b, marking),
        sum_max_score(a, marking) == sum_max_score(b, marking),
        sum_correct(a) == sum_correct(b),
        sum_attempted(a) == sum_attempted(b),
        spec_grand_score_pct(a, marking) == spec_grand_score_pct(b, marking),
        spec_grand_accuracy_pct(a) == spec_grand_accuracy_pct(b),
    decreases a.len(),
{
    broadcast use vstd::seq_lib::group_to_multiset_ensures;
    broadcast use vstd::multiset::group_multiset_axioms;

    if a.len() == 0 {
        assert(b.len() == b.to_multiset().len());
        assert(a.len() == a.to_multiset().len());
    } else {
        let x = a.last();
        let rest = a.drop_last();
        assert(rest.push(x) =~= a);
        assert(a.to_multiset() =~= rest.to_multiset().insert(x));
        assert(b.to_multiset().count(x) > 0);
        assert(b.contains(x));
        let k = choose|k: int| 0 <= k < b.len() && b[k] == x;
        let others = b.remove(k);
        assert(others.to_multiset() =~= b.to_multiset().remove(x));
        assert(rest.to_multiset() =~= others.to_multiset());
        law_grand_totals_ignore_order(rest, others, marking);
        lemma_sums_remove(b, k, marking);
    }
}

/// The sums grow at most linearly with the number of subjects.
pub proof fn lemma_sums_bounded(raws: Seq<SubjectRaw>, marking: MarkingConfig)
    ensures
        -raws.len() * subject_score_bound() <= sum_raw_score(raws, marking) <= raws.len()
            * subject_score_bound(),
        -raws.len() * subject_score_bound() <= sum_max_score(raws, marking) <= raws.len()
            * subject_score_bound(),
        0 <= sum_correct(raws) <= raws.len() * 0xffff_ffff,
        0 <= sum_attempted(raws) <= raws.len() * 0xffff_ffff,
    decreases raws.len(),
{
    if raws.len() > 0 {
        lemma_sums_bounded(raws.drop_last(), marking);
        lemma_subject_scores_bounded(raws.last(), marking);
    }
}

/// Grand percentages of a test from the question counts of its subjects.
/// No subjects, or sums of zero, give percentages of zero.
pub fn grand_totals(raws: &Vec<SubjectRaw>, marking: MarkingConfig) -> (totals: GrandTotals)
    ensures
        totals.score_pct == spec_grand_score_pct(raws@, marking),
        totals.accuracy_pct == spec_grand_accuracy_pct(raws@),
{
    let mut score: i128 = 0;
    let mut max: i128 = 0;
    let mut correct: i128 = 0;
    let mut attempted: i128 = 0;
    let mut i: usize = 0;
    while i < raws.len()
        invariant
            0 <= i <= raws.len(),
            score == sum_raw_score(raws@.take(i as int), marking),
            max == sum_max_score(raws@.take(i as int), marking),
            correct == sum_correct(raws@.take(i as int)),
            attempted == sum_attempted(raws@.take(i as int)),
        decreases raws.len() - i,
    {
        let raw: SubjectRaw = raws[i];
        proof {
            lemma_sums_bounded(raws@.take(i as int), marking);
            lemma_subject_scores_bounded(raw, marking);
            lemma_sums_push(raws@.take(i as int), raw, marking);
            assert(raws@.take(i as int).push(raw) =~= raws@.take(i as int + 1));
        }
        score = score + subject_raw_score(raw, marking) as i128;
        max = max + subject_max_score(raw, marking) as i128;
        correct = correct + raw.correct as i128;
        attempted = attempted + raw.attempted as i128;
        i = i + 1;
    }
    proof {
        assert(raws@.take(i as int) =~= raws@);
        lemma_sums_bounded(raws@, marking);
    }
    GrandTotals {
        score_pct: ratio_pct(score, max),
        accuracy_pct: ratio_pct(correct, attempted),
    }
}

} // verus!
