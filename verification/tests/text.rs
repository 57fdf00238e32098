use exam_tracker::models::{MarkingConfig, StoreError};
use exam_tracker::text::{marking_display, points_text, push_points, text_less};

#[test]
fn text_order_goes_by_the_first_difference() {
    assert!(text_less("2024-01-01", "2024-01-02"));
    assert!(!text_less("2024-01-02", "2024-01-01"));
    assert!(text_less("2023-12-31", "2024-01-01"));
    assert!(text_less("10", "9"));
}

#[test]
fn text_order_puts_a_prefix_first() {
    assert!(text_less("2024", "2024-01-01"));
    assert!(!text_less("2024-01-01", "2024"));
    assert!(text_less("", "a"));
    assert!(!text_less("a", ""));
}

#[test]
fn text_order_is_strict() {
    assert!(!text_less("2024-01-01", "2024-01-01"));
    assert!(!text_less("", ""));
}

#[test]
fn text_order_is_that_of_the_bytes() {
    assert!(text_less("Z", "a"));
    assert!(text_less("z", "é"));
    assert!(text_less("é", "日"));
    assert!(text_less("日", "😀"));
    assert!(!text_less("😀", "日"));
    assert_eq!(text_less("Zebra", "apple"), "Zebra" < "apple");
    assert_eq!(text_less("é", "f"), "é" < "f");
}

#[test]
fn points_are_written_as_decimals() {
    assert_eq!(points_text(400), "4");
    assert_eq!(points_text(100), "1");
    assert_eq!(points_text(25), "0.25");
    assert_eq!(points_text(150), "1.5");
    assert_eq!(points_text(5), "0.05");
    assert_eq!(points_text(10), "0.1");
    assert_eq!(points_text(33), "0.33");
    assert_eq!(points_text(1000), "10");
    assert_eq!(points_text(1001), "10.01");
    assert_eq!(points_text(0), "0");
}

#[test]
fn negative_points_carry_a_sign() {
    assert_eq!(points_text(-100), "-1");
    assert_eq!(points_text(-25), "-0.25");
    assert_eq!(points_text(-1050), "-10.5");
}

#[test]
fn points_at_the_limits() {
    assert_eq!(points_text(i16::MAX), "327.67");
    assert_eq!(points_text(i16::MIN), "-327.68");
}

#[test]
fn points_are_appended_to_what_is_there() {
    let mut out = String::from("x=");
    push_points(&mut out, 125);
    assert_eq!(out, "x=1.25");
}

#[test]
fn marking_is_shown_with_the_deduction_under_negative_marking() {
    let marking = MarkingConfig { correct_points: 400, wrong_points: 100, is_negative: true };
    assert_eq!(marking_display(marking), "+4/-1");
    let marking = MarkingConfig { correct_points: 100, wrong_points: 25, is_negative: true };
    assert_eq!(marking_display(marking), "+1/-0.25");
    let marking = MarkingConfig { correct_points: 400, wrong_points: -100, is_negative: true };
    assert_eq!(marking_display(marking), "+4/--1");
}

#[test]
fn marking_is_shown_without_the_deduction_under_flat_marking() {
    let marking = MarkingConfig { correct_points: 400, wrong_points: 100, is_negative: false };
    assert_eq!(marking_display(marking), "Flat 4");
    let marking = MarkingConfig { correct_points: 250, wrong_points: 0, is_negative: false };
    assert_eq!(marking_display(marking), "Flat 2.5");
}

#[test]
fn every_failure_has_a_message() {
    assert_eq!(StoreError::NotFound.message(), "Query returned no rows");
    assert_eq!(
        StoreError::DuplicateName.message(),
        "UNIQUE constraint failed: templates.name"
    );
    assert_eq!(StoreError::StorageError.message(), "database or disk is full");
    assert_eq!(StoreError::LockContention.message(), "Failed to lock DB");
}
