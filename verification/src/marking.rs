//! The marking model: wrong answers, raw and maximal scores of one subject,
//! and the percentage rule shared by every derived ratio.

use vstd::prelude::*;
use vstd::arithmetic::div_mod::{lemma_fundamental_div_mod, lemma_fundamental_div_mod_converse};
use crate::models::{MarkingConfig, SubjectRaw};

verus! {

/// Number of percentage units in a ratio of one: a percentage is held in
/// hundredths of a percent.
pub const PCT_UNITS: i128 = 10000;

/// Largest magnitude of a numerator that `ratio_pct` accepts.
pub const RATIO_LIMIT: i128 = 17014118346046923173168730371588410;

/// Wrong answers of a subject: the attempted questions that were not
/// answered correctly, never less than zero.
pub open spec fn spec_wrong_answers(attempted: int, correct: int) -> int {
    if attempted > correct {
        attempted - correct
    } else {
        0
    }
}

/// Score of one subject in hundredths of a point. With negative marking the
/// deduction for wrong answers is taken off, and the score may fall below
/// zero.
pub open spec fn spec_subject_raw_score(raw: SubjectRaw, marking: MarkingConfig) -> int {
    let gained = raw.correct * marking.correct_points;
    if marking.is_negative {
        gained - spec_wrong_answers(raw.attempted as int, raw.correct as int) * marking.wrong_points
    } else {
        gained
    }
}

/// Highest score that one subject can reach, in hundredths of a point.
pub open spec fn spec_subject_max_score(raw: SubjectRaw, marking: MarkingConfig) -> int {
    raw.total * marking.correct_points
}

/// The percentage rule: the ratio in hundredths of a percent, rounded
/// toward negative infinity, and zero where the denominator is not positive.
pub open spec fn spec_ratio_pct(numerator: int, denominator: int) -> int {
    if denominator > 0 {
        (numerator * PCT_UNITS) / denominator
    } else {
        0
    }
}

/// Share of the questions of a subject that were attempted.
pub open spec fn spec_attempts_pct(raw: SubjectRaw) -> int {
    spec_ratio_pct(raw.attempted as int, raw.total as int)
}

/// Share of the attempted questions of a subject that were answered
/// correctly.
pub open spec fn spec_accuracy_pct(raw: SubjectRaw) -> int {
    spec_ratio_pct(raw.correct as int, raw.attempted as int)
}

/// Score of a subject as a share of its highest possible score.
pub open spec fn spec_subject_score_pct(raw: SubjectRaw, marking: MarkingConfig) -> int {
    spec_ratio_pct(spec_subject_raw_score(raw, marking), spec_subject_max_score(raw, marking))
}

/// Bound on the magnitude of the raw and the maximal score of one subject.
pub open spec fn subject_score_bound() -> int {
    0x8000_0000_0000
}

/// Neither score of a subject leaves the range that the sums rely on.
pub proof fn lemma_subject_scores_bounded(raw: SubjectRaw, marking: MarkingConfig)
    ensures
        -subject_score_bound() <= spec_subject_raw_score(raw, marking) <= subject_score_bound(),
        -subject_score_bound() <= spec_subject_max_score(raw, marking) <= subject_score_bound(),
{
    let c = raw.correct as int;
    let w = spec_wrong_answers(raw.attempted as int, raw.correct as int);
    let t = raw.total as int;
    let pc = marking.correct_points as int;
    let pw = marking.wrong_points as int;
    assert(-0x8000 * c <= c * pc <= 0x8000 * c) by (nonlinear_arith)
        requires
            0 <= c,
            -0x8000 <= pc <= 0x8000,
    ;
    assert(-0x8000 * w <= w * pw <= 0x8000 * w) by (nonlinear_arith)
        requires
            0 <= w,
            -0x8000 <= pw <= 0x8000,
    ;
    assert(-0x8000 * t <= t * pc <= 0x8000 * t) by (nonlinear_arith)
        requires
            0 <= t,
            -0x8000 <= pc <= 0x8000,
    ;
    assert(c + w <= 0xffff_ffff);
}

/// Wrong answers of a subject, by saturating subtraction.
pub fn wrong_answers(attempted: u32, correct: u32) -> (wrong: u32)
    ensures
        wrong == spec_wrong_answers(attempted as int, correct as int),
        wrong == 0 <==> attempted <= correct,
{
    attempted.saturating_sub(correct)
}

/// Score of one subject in hundredths of a point.
pub fn subject_raw_score(raw: SubjectRaw, marking: MarkingConfig) -> (score: i64)
    ensures
        score == spec_subject_raw_score(raw, marking),
{
    proof {
        lemma_subject_scores_bounded(raw, marking);
        lemma_subject_scores_bounded(raw, MarkingConfig { is_negative: false, ..marking });
    }
    let gained: i64 = (raw.correct as i64) * (marking.correct_points as i64);
    if marking.is_negative {
        let wrong: u32 = wrong_answers(raw.attempted, raw.correct);
        proof {
            let w = wrong as int;
            let pw = marking.wrong_points as int;
            assert(-0x8000 * w <= w * pw <= 0x8000 * w) by (nonlinear_arith)
                requires
                    0 <= w,
                    -0x8000 <= pw <= 0x8000,
            ;
        }
        let lost: i64 = (wrong as i64) * (marking.wrong_points as i64);
        gained - lost
    } else {
        gained
    }
}

/// Highest score that one subject can reach, in hundredths of a point.
pub fn subject_max_score(raw: SubjectRaw, marking: MarkingConfig) -> (score: i64)
    ensures
        score == spec_subject_max_score(raw, marking),
{
    proof {
        lemma_subject_scores_bounded(raw, marking);
    }
    (raw.total as i64) * (marking.correct_points as i64)
}

/// Floor division of a negative value, from the quotient and remainder of
/// its magnitude.
proof fn lemma_floor_of_negated(value: int, divisor: int, quotient: int, remainder: int)
    requires
        divisor > 0,
        0 <= remainder < divisor,
        -value == divisor * quotient + remainder,
    ensures
        remainder == 0 ==> value / divisor == -quotient,
        remainder != 0 ==> value / divisor == -quotient - 1,
{
    if remainder == 0 {
        assert(value == (-quotient) * divisor + 0) by (nonlinear_arith)
            requires
                -value == divisor * quotient + remainder,
                remainder == 0,
        ;
        lemma_fundamental_div_mod_converse(value, divisor, -quotient, 0);
    } else {
        assert(value == (-quotient - 1) * divisor + (divisor - remainder)) by (nonlinear_arith)
            requires
                -value == divisor * quotient + remainder,
        ;
        lemma_fundamental_div_mod_converse(value, divisor, -quotient - 1, divisor - remainder);
    }
}

/// The percentage rule on machine integers. The numerator must leave room
/// for the scaling by `PCT_UNITS`.
pub fn ratio_pct(numerator: i128, denominator: i128) -> (pct: i128)
    requires
        -RATIO_LIMIT <= numerator <= RATIO_LIMIT,
    ensures
        pct == spec_ratio_pct(numerator as int, denominator as int),
        denominator <= 0 ==> pct == 0,
{
    if denominator <= 0 {
        return 0;
    }
    let scaled: i128 = numerator * PCT_UNITS;
    if scaled >= 0 {
        scaled / denominator
    } else {
        let magnitude: i128 = -scaled;
        let quotient: i128 = magnitude / denominator;
        let remainder: i128 = magnitude % denominator;
        proof {
            lemma_fundamental_div_mod(magnitude as int, denominator as int);
        }
        if remainder == 0 {
            proof {
                lemma_floor_of_negated(
                    scaled as int,
                    denominator as int,
                    quotient as int,
                    remainder as int,
                );
            }
            -quotient
        } else {
            proof {
                lemma_floor_of_negated(
                    scaled as int,
                    denominator as int,
                    quotient as int,
                    remainder as int,
                );
            }
            -quotient - 1
        }
    }
}

/// Share of the questions of a subject that were attempted.
pub fn attempts_pct(raw: SubjectRaw) -> (pct: i128)
    ensures
        pct == spec_attempts_pct(raw),
        raw.total == 0 ==> pct == 0,
{
    ratio_pct(raw.attempted as i128, raw.total as i128)
}

/// Share of the attempted questions of a subject that were answered
/// correctly.
pub fn accuracy_pct(raw: SubjectRaw) -> (pct: i128)
    ensures
        pct == spec_accuracy_pct(raw),
        raw.attempted == 0 ==> pct == 0,
{
    ratio_pct(raw.correct as i128, raw.attempted as i128)
}

/// Score of a subject as a share of its highest possible score.
pub fn subject_score_pct(raw: SubjectRaw, marking: MarkingConfig) -> (pct: i128)
    ensures
        pct == spec_subject_score_pct(raw, marking),
        spec_subject_max_score(raw, marking) <= 0 ==> pct == 0,
{
    let score: i64 = subject_raw_score(raw, marking);
    let max: i64 = subject_max_score(raw, marking);
    proof {
        lemma_subject_scores_bounded(raw, marking);
    }
    ratio_pct(score as i128, max as i128)
}

} // verus!
