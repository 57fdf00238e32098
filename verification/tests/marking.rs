use exam_tracker::aggregate::{grand_totals, GrandTotals};
use exam_tracker::marking::{
    accuracy_pct, attempts_pct, ratio_pct, subject_max_score, subject_raw_score,
    subject_score_pct, wrong_answers, PCT_UNITS, RATIO_LIMIT,
};
use exam_tracker::models::{MarkingConfig, SubjectRaw};

fn negative(correct_points: i16, wrong_points: i16) -> MarkingConfig {
    MarkingConfig { correct_points, wrong_points, is_negative: true }
}

fn flat(correct_points: i16) -> MarkingConfig {
    MarkingConfig { correct_points, wrong_points: 100, is_negative: false }
}

fn raw(total: u32, attempted: u32, correct: u32) -> SubjectRaw {
    SubjectRaw { total, attempted, correct }
}

#[test]
fn wrong_answers_is_attempted_less_correct() {
    assert_eq!(wrong_answers(8, 6), 2);
    assert_eq!(wrong_answers(6, 6), 0);
    assert_eq!(wrong_answers(u32::MAX, 0), u32::MAX);
}

#[test]
fn wrong_answers_never_falls_below_zero() {
    assert_eq!(wrong_answers(5, 8), 0);
    assert_eq!(wrong_answers(0, u32::MAX), 0);
}

#[test]
fn raw_score_takes_the_deduction_off_under_negative_marking() {
    assert_eq!(subject_raw_score(raw(10, 8, 6), negative(400, 100)), 2200);
    assert_eq!(subject_raw_score(raw(10, 8, 6), negative(100, 25)), 550);
}

#[test]
fn raw_score_ignores_wrong_answers_under_flat_marking() {
    assert_eq!(subject_raw_score(raw(10, 8, 6), flat(400)), 2400);
}

#[test]
fn raw_score_may_fall_below_zero() {
    assert_eq!(subject_raw_score(raw(10, 10, 1), negative(100, 100)), -800);
    assert_eq!(subject_score_pct(raw(10, 10, 1), negative(100, 100)), -8000);
}

#[test]
fn raw_score_counts_no_wrong_answers_where_correct_exceeds_attempted() {
    assert_eq!(subject_raw_score(raw(10, 5, 8), negative(400, 100)), 3200);
}

#[test]
fn raw_score_at_the_limits_of_the_inputs() {
    let all = raw(u32::MAX, u32::MAX, u32::MAX);
    assert_eq!(subject_raw_score(all, negative(i16::MAX, i16::MAX)), 4294967295 * 32767);
    assert_eq!(subject_raw_score(all, negative(i16::MIN, i16::MIN)), 4294967295 * -32768);
    let none = raw(u32::MAX, u32::MAX, 0);
    assert_eq!(subject_raw_score(none, negative(i16::MAX, i16::MIN)), 4294967295 * 32768);
    assert_eq!(subject_raw_score(none, negative(i16::MAX, i16::MAX)), 4294967295 * -32767);
    assert_eq!(subject_max_score(all, negative(i16::MIN, 0)), 4294967295 * -32768);
}

#[test]
fn max_score_is_total_times_points() {
    assert_eq!(subject_max_score(raw(10, 8, 6), negative(400, 100)), 4000);
    assert_eq!(subject_max_score(raw(0, 8, 6), negative(400, 100)), 0);
}

#[test]
fn ratio_is_in_hundredths_of_a_percent() {
    assert_eq!(PCT_UNITS, 10000);
    assert_eq!(ratio_pct(22, 40), 5500);
    assert_eq!(ratio_pct(6, 8), 7500);
    assert_eq!(ratio_pct(22, 80), 2750);
    assert_eq!(ratio_pct(1, 1), 10000);
    assert_eq!(ratio_pct(3, 2), 15000);
    assert_eq!(ratio_pct(0, 7), 0);
}

#[test]
fn ratio_rounds_toward_negative_infinity() {
    assert_eq!(ratio_pct(1, 3), 3333);
    assert_eq!(ratio_pct(2, 3), 6666);
    assert_eq!(ratio_pct(-1, 3), -3334);
    assert_eq!(ratio_pct(-2, 3), -6667);
    assert_eq!(ratio_pct(-3, 3), -10000);
    assert_eq!(ratio_pct(-1, 20000), -1);
    assert_eq!(ratio_pct(1, 20000), 0);
}

#[test]
fn ratio_over_zero_is_zero() {
    assert_eq!(ratio_pct(0, 0), 0);
    assert_eq!(ratio_pct(5, 0), 0);
    assert_eq!(ratio_pct(-5, 0), 0);
    assert_eq!(ratio_pct(RATIO_LIMIT, 0), 0);
}

#[test]
fn ratio_over_a_negative_denominator_is_zero() {
    assert_eq!(ratio_pct(5, -1), 0);
    assert_eq!(ratio_pct(-5, -10), 0);
}

#[test]
fn ratio_at_the_limit_of_the_numerator() {
    assert_eq!(RATIO_LIMIT, i128::MAX / 10000);
    assert_eq!(ratio_pct(RATIO_LIMIT, 1), RATIO_LIMIT * 10000);
    assert_eq!(ratio_pct(-RATIO_LIMIT, 1), -RATIO_LIMIT * 10000);
    assert_eq!(ratio_pct(RATIO_LIMIT, RATIO_LIMIT), 10000);
    assert_eq!(ratio_pct(-RATIO_LIMIT, RATIO_LIMIT), -10000);
}

#[test]
fn subject_percentages() {
    let math = raw(10, 8, 6);
    assert_eq!(attempts_pct(math), 8000);
    assert_eq!(accuracy_pct(math), 7500);
    assert_eq!(subject_score_pct(math, negative(400, 100)), 5500);
    assert_eq!(subject_score_pct(math, flat(400)), 6000);
}

#[test]
fn subject_percentages_over_zero_are_zero() {
    assert_eq!(attempts_pct(raw(0, 5, 3)), 0);
    assert_eq!(accuracy_pct(raw(10, 0, 3)), 0);
    assert_eq!(subject_score_pct(raw(0, 5, 3), negative(400, 100)), 0);
    assert_eq!(subject_score_pct(raw(10, 5, 3), negative(0, 100)), 0);
    assert_eq!(subject_score_pct(raw(10, 5, 3), negative(-400, 100)), 0);
}

#[test]
fn attempts_may_exceed_the_total() {
    assert_eq!(attempts_pct(raw(4, 6, 0)), 15000);
}

#[test]
fn grand_totals_of_one_subject() {
    let totals = grand_totals(&vec![raw(10, 8, 6)], negative(400, 100));
    assert_eq!(totals, GrandTotals { score_pct: 5500, accuracy_pct: 7500 });
}

#[test]
fn grand_totals_sum_before_dividing() {
    let raws = vec![raw(10, 8, 6), raw(10, 0, 0)];
    let totals = grand_totals(&raws, negative(400, 100));
    assert_eq!(totals, GrandTotals { score_pct: 2750, accuracy_pct: 7500 });
    let raws = vec![raw(10, 10, 10), raw(30, 30, 0)];
    let totals = grand_totals(&raws, negative(100, 25));
    assert_eq!(totals, GrandTotals { score_pct: 625, accuracy_pct: 2500 });
}

#[test]
fn grand_totals_do_not_depend_on_the_order_of_subjects() {
    let marking = negative(400, 133);
    let a = vec![raw(10, 8, 6), raw(25, 20, 7), raw(3, 3, 3)];
    let b = vec![raw(3, 3, 3), raw(10, 8, 6), raw(25, 20, 7)];
    assert_eq!(grand_totals(&a, marking), grand_totals(&b, marking));
    assert_eq!(grand_totals(&a, marking).score_pct, 2898);
    assert_eq!(grand_totals(&a, marking).accuracy_pct, 5161);
}

#[test]
fn grand_totals_of_no_subjects_are_zero() {
    let totals = grand_totals(&Vec::new(), negative(400, 100));
    assert_eq!(totals, GrandTotals { score_pct: 0, accuracy_pct: 0 });
}

#[test]
fn grand_totals_under_flat_marking() {
    let raws = vec![raw(10, 8, 6), raw(10, 10, 4)];
    let totals = grand_totals(&raws, flat(200));
    assert_eq!(totals, GrandTotals { score_pct: 5000, accuracy_pct: 5555 });
}
