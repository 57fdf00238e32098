use exam_tracker::db::{
    add_subject, create_entry, delete_subject, delete_test, update_subject, update_test,
};
use exam_tracker::history::get_history;
use exam_tracker::models::{
    AddSubjectInput, StoreError, SubjectInput, SubjectRaw, TestInput, UpdateSubjectInput,
    UpdateTestInput,
};
use exam_tracker::store::{EntryRow, Store, TestRow};
use exam_tracker::templates::get_templates;

fn subject(name: &str, total_q: u32, attempted_q: u32, correct_q: u32) -> SubjectInput {
    SubjectInput { name: String::from(name), total_q, attempted_q, correct_q }
}

fn test_on(date: &str, subjects: Vec<SubjectInput>) -> TestInput {
    TestInput {
        date: String::from(date),
        name: Some(String::from("Mock")),
        correct_points: 400,
        wrong_points: 100,
        is_negative: true,
        subjects,
    }
}

fn two_tests() -> Store {
    let mut store = Store::new();
    let first = test_on("2024-01-01", vec![subject("Math", 10, 8, 6), subject("Physics", 10, 0, 0)]);
    let second = test_on("2024-02-01", vec![subject("Chemistry", 20, 20, 5)]);
    assert_eq!(create_entry(&mut store, first), Ok(()));
    assert_eq!(create_entry(&mut store, second), Ok(()));
    store
}

#[test]
fn new_store_is_empty() {
    let store = Store::new();
    assert!(get_history(&store).is_empty());
    assert!(get_templates(&store).is_empty());
    let (tests, entries, templates) = store.rows();
    assert!(tests.is_empty());
    assert!(entries.is_empty());
    assert!(templates.is_empty());
}

#[test]
fn create_assigns_ascending_ids() {
    let store = two_tests();
    let (tests, entries, _) = store.rows();
    assert_eq!(tests.len(), 2);
    assert_eq!(tests[0].id, 1);
    assert_eq!(tests[1].id, 2);
    assert_eq!(entries.len(), 3);
    assert_eq!(
        entries[0],
        EntryRow {
            id: 1,
            test_id: 1,
            name: String::from("Math"),
            raw: SubjectRaw { total: 10, attempted: 8, correct: 6 },
        }
    );
    assert_eq!(entries[1].id, 2);
    assert_eq!(entries[1].test_id, 1);
    assert_eq!(entries[2].id, 3);
    assert_eq!(entries[2].test_id, 2);
    assert_eq!(entries[2].name, "Chemistry");
}

#[test]
fn create_stores_the_derived_percentages() {
    let store = two_tests();
    let (tests, _, _) = store.rows();
    assert_eq!(tests[0].score_pct, 2750);
    assert_eq!(tests[0].accuracy_pct, 7500);
    // 5 * 4 - 15 * 1 = 5 of 80 points; 5 of 20 attempted.
    assert_eq!(tests[1].score_pct, 625);
    assert_eq!(tests[1].accuracy_pct, 2500);
    assert_eq!(tests[1].date, "2024-02-01");
    assert_eq!(tests[1].name, Some(String::from("Mock")));
    assert_eq!(tests[1].marking.correct_points, 400);
    assert_eq!(tests[1].marking.wrong_points, 100);
    assert!(tests[1].marking.is_negative);
}

#[test]
fn create_without_subjects_gives_zero_percentages() {
    let mut store = Store::new();
    assert_eq!(create_entry(&mut store, test_on("2024-03-01", Vec::new())), Ok(()));
    let (tests, entries, _) = store.rows();
    assert_eq!(tests.len(), 1);
    assert_eq!(tests[0].score_pct, 0);
    assert_eq!(tests[0].accuracy_pct, 0);
    assert!(entries.is_empty());
    let history = get_history(&store);
    assert_eq!(history.len(), 1);
    assert!(history[0].subjects.is_empty());
    assert_eq!(history[0].total_score_pct, 0);
    assert_eq!(history[0].total_accuracy_pct, 0);
}

#[test]
fn create_reuses_the_id_after_the_highest_was_deleted() {
    let mut store = two_tests();
    assert_eq!(delete_test(&mut store, 2), Ok(()));
    assert_eq!(create_entry(&mut store, test_on("2024-04-01", vec![subject("Bio", 5, 5, 5)])), Ok(()));
    let (tests, entries, _) = store.rows();
    assert_eq!(tests[1].id, 2);
    assert_eq!(entries[2].id, 3);
    assert_eq!(entries[2].test_id, 2);
    assert_eq!(entries[2].name, "Bio");
}

#[test]
fn create_fails_where_the_test_ids_have_run_out() {
    let last = TestRow {
        id: i64::MAX,
        date: String::from("2024-01-01"),
        name: None,
        marking: exam_tracker::models::MarkingConfig {
            correct_points: 100,
            wrong_points: 0,
            is_negative: false,
        },
        score_pct: 0,
        accuracy_pct: 0,
    };
    let mut store = Store::from_rows(vec![last], Vec::new(), Vec::new()).unwrap();
    let before = get_history(&store);
    let res = create_entry(&mut store, test_on("2024-05-01", vec![subject("Math", 1, 1, 1)]));
    assert_eq!(res, Err(StoreError::StorageError));
    assert_eq!(get_history(&store), before);
}

#[test]
fn create_fails_where_the_entry_ids_would_run_out() {
    let marking = exam_tracker::models::MarkingConfig {
        correct_points: 100,
        wrong_points: 0,
        is_negative: false,
    };
    let test = TestRow {
        id: 1,
        date: String::from("2024-01-01"),
        name: None,
        marking,
        score_pct: 0,
        accuracy_pct: 0,
    };
    let entry = EntryRow {
        id: i64::MAX - 1,
        test_id: 1,
        name: String::from("Math"),
        raw: SubjectRaw { total: 1, attempted: 1, correct: 1 },
    };
    let mut store = Store::from_rows(vec![test], vec![entry], Vec::new()).unwrap();
    let two = test_on("2024-05-01", vec![subject("A", 1, 1, 1), subject("B", 1, 1, 1)]);
    assert_eq!(create_entry(&mut store, two), Err(StoreError::StorageError));
    assert_eq!(store.rows().0.len(), 1);
    assert_eq!(store.rows().1.len(), 1);
    let one = test_on("2024-05-01", vec![subject("A", 1, 1, 1)]);
    assert_eq!(create_entry(&mut store, one), Ok(()));
    assert_eq!(store.rows().1[1].id, i64::MAX);
    let none = test_on("2024-05-02", Vec::new());
    assert_eq!(create_entry(&mut store, none), Ok(()));
    let add = AddSubjectInput {
        test_id: 1,
        name: String::from("C"),
        total_q: 1,
        attempted_q: 1,
        correct_q: 1,
    };
    assert_eq!(add_subject(&mut store, add), Err(StoreError::StorageError));
    assert_eq!(store.rows().1.len(), 2);
}

#[test]
fn update_test_replaces_the_marking_and_refreshes() {
    let mut store = two_tests();
    let data = UpdateTestInput {
        id: 1,
        date: String::from("2024-01-15"),
        name: None,
        correct_points: 100,
        wrong_points: 0,
        is_negative: false,
    };
    assert_eq!(update_test(&mut store, data), Ok(()));
    let (tests, entries, _) = store.rows();
    assert_eq!(tests[0].id, 1);
    assert_eq!(tests[0].date, "2024-01-15");
    assert_eq!(tests[0].name, None);
    assert_eq!(tests[0].marking.correct_points, 100);
    assert!(!tests[0].marking.is_negative);
    // 6 of 20 points under flat marking.
    assert_eq!(tests[0].score_pct, 3000);
    assert_eq!(tests[0].accuracy_pct, 7500);
    assert_eq!(tests[1].score_pct, 625);
    assert_eq!(entries.len(), 3);
}

#[test]
fn update_test_with_current_values_changes_nothing() {
    let mut store = two_tests();
    let before = get_history(&store);
    let rows_before = store.rows().0.clone();
    let data = UpdateTestInput {
        id: 1,
        date: String::from("2024-01-01"),
        name: Some(String::from("Mock")),
        correct_points: 400,
        wrong_points: 100,
        is_negative: true,
    };
    assert_eq!(update_test(&mut store, data), Ok(()));
    assert_eq!(get_history(&store), before);
    assert_eq!(store.rows().0, &rows_before);
}

#[test]
fn update_test_fails_where_the_test_is_missing() {
    let mut store = two_tests();
    let before = get_history(&store);
    let data = UpdateTestInput {
        id: 3,
        date: String::from("2025-01-01"),
        name: None,
        correct_points: 100,
        wrong_points: 0,
        is_negative: false,
    };
    assert_eq!(update_test(&mut store, data), Err(StoreError::NotFound));
    assert_eq!(get_history(&store), before);
}

#[test]
fn delete_test_removes_its_entries() {
    let mut store = two_tests();
    assert_eq!(delete_test(&mut store, 1), Ok(()));
    let (tests, entries, _) = store.rows();
    assert_eq!(tests.len(), 1);
    assert_eq!(tests[0].id, 2);
    assert_eq!(entries.len(), 1);
    assert_eq!(entries[0].id, 3);
    assert_eq!(entries[0].test_id, 2);
    let history = get_history(&store);
    assert_eq!(history.len(), 1);
    assert_eq!(history[0].id, 2);
    assert_eq!(history[0].subjects.len(), 1);
    assert_eq!(history[0].subjects[0].name, "Chemistry");
    assert_eq!(history[0].total_score_pct, 625);
}

#[test]
fn delete_test_of_an_unknown_id_is_no_failure() {
    let mut store = two_tests();
    let before = get_history(&store);
    let rows_before = (store.rows().0.clone(), store.rows().1.clone());
    assert_eq!(delete_test(&mut store, 9999), Ok(()));
    assert_eq!(get_history(&store), before);
    assert_eq!(store.rows().0, &rows_before.0);
    assert_eq!(store.rows().1, &rows_before.1);
}

#[test]
fn delete_test_on_an_empty_store() {
    let mut store = Store::new();
    assert_eq!(delete_test(&mut store, 9999), Ok(()));
    assert!(get_history(&store).is_empty());
}

#[test]
fn add_subject_fails_where_the_test_is_missing() {
    let mut store = two_tests();
    let before = get_history(&store);
    let data = AddSubjectInput {
        test_id: 7,
        name: String::from("Bio"),
        total_q: 10,
        attempted_q: 10,
        correct_q: 10,
    };
    assert_eq!(add_subject(&mut store, data), Err(StoreError::NotFound));
    assert_eq!(get_history(&store), before);
    assert_eq!(store.rows().1.len(), 3);
}

#[test]
fn add_subject_leaves_other_tests_alone() {
    let mut store = two_tests();
    let data = AddSubjectInput {
        test_id: 2,
        name: String::from("Bio"),
        total_q: 20,
        attempted_q: 10,
        correct_q: 10,
    };
    assert_eq!(add_subject(&mut store, data), Ok(()));
    let (tests, entries, _) = store.rows();
    assert_eq!(tests[0].score_pct, 2750);
    assert_eq!(tests[0].accuracy_pct, 7500);
    // 15 * 4 - 15 * 1 = 45 of 160 points; 15 of 30 attempted.
    assert_eq!(tests[1].score_pct, 2812);
    assert_eq!(tests[1].accuracy_pct, 5000);
    assert_eq!(entries[3].id, 4);
    assert_eq!(entries[3].test_id, 2);
}

#[test]
fn update_subject_refreshes_its_test() {
    let mut store = two_tests();
    let data = UpdateSubjectInput {
        id: 2,
        name: String::from("Physics II"),
        total_q: 10,
        attempted_q: 10,
        correct_q: 10,
    };
    assert_eq!(update_subject(&mut store, data), Ok(()));
    let (tests, entries, _) = store.rows();
    assert_eq!(entries[1].id, 2);
    assert_eq!(entries[1].test_id, 1);
    assert_eq!(entries[1].name, "Physics II");
    assert_eq!(entries[1].raw, SubjectRaw { total: 10, attempted: 10, correct: 10 });
    // 16 * 4 - 2 * 1 = 62 of 80 points; 16 of 18 attempted.
    assert_eq!(tests[0].score_pct, 7750);
    assert_eq!(tests[0].accuracy_pct, 8888);
    assert_eq!(tests[1].score_pct, 625);
    let history = get_history(&store);
    assert_eq!(history[1].subjects[1].name, "Physics II");
    assert_eq!(history[1].subjects[1].score_pct, 10000);
}

#[test]
fn update_subject_fails_where_the_entry_is_missing() {
    let mut store = two_tests();
    let before = get_history(&store);
    let data = UpdateSubjectInput {
        id: 4,
        name: String::from("Bio"),
        total_q: 1,
        attempted_q: 1,
        correct_q: 1,
    };
    assert_eq!(update_subject(&mut store, data), Err(StoreError::NotFound));
    assert_eq!(get_history(&store), before);
}

#[test]
fn delete_subject_refreshes_its_test() {
    let mut store = two_tests();
    assert_eq!(delete_subject(&mut store, 2), Ok(()));
    let (tests, entries, _) = store.rows();
    assert_eq!(entries.len(), 2);
    assert_eq!(entries[0].id, 1);
    assert_eq!(entries[1].id, 3);
    assert_eq!(tests[0].score_pct, 5500);
    assert_eq!(tests[0].accuracy_pct, 7500);
    assert_eq!(tests[1].score_pct, 625);
}

#[test]
fn delete_subject_of_the_last_entry_leaves_zero_percentages() {
    let mut store = two_tests();
    assert_eq!(delete_subject(&mut store, 3), Ok(()));
    let (tests, _, _) = store.rows();
    assert_eq!(tests.len(), 2);
    assert_eq!(tests[1].score_pct, 0);
    assert_eq!(tests[1].accuracy_pct, 0);
    let history = get_history(&store);
    assert_eq!(history[0].id, 2);
    assert!(history[0].subjects.is_empty());
}

#[test]
fn delete_subject_fails_where_the_entry_is_missing() {
    let mut store = two_tests();
    let before = get_history(&store);
    assert_eq!(delete_subject(&mut store, 9999), Err(StoreError::NotFound));
    assert_eq!(get_history(&store), before);
    assert_eq!(store.rows().1.len(), 3);
}

#[test]
fn percentages_follow_a_sequence_of_operations() {
    let mut store = two_tests();
    let add = AddSubjectInput {
        test_id: 1,
        name: String::from("Bio"),
        total_q: 10,
        attempted_q: 10,
        correct_q: 9,
    };
    assert_eq!(add_subject(&mut store, add), Ok(()));
    let change = UpdateSubjectInput {
        id: 1,
        name: String::from("Math"),
        total_q: 10,
        attempted_q: 10,
        correct_q: 10,
    };
    assert_eq!(update_subject(&mut store, change), Ok(()));
    assert_eq!(delete_subject(&mut store, 2), Ok(()));
    // Math 10/10/10 and Bio 10/10/9: 19 * 4 - 1 = 75 of 80 points; 19 of 20.
    let history = get_history(&store);
    let record = &history[1];
    assert_eq!(record.id, 1);
    assert_eq!(record.total_score_pct, 9375);
    assert_eq!(record.total_accuracy_pct, 9500);
    let raws: Vec<SubjectRaw> = record.subjects.iter().map(|s| s.raw).collect();
    let marking = exam_tracker::models::MarkingConfig {
        correct_points: 400,
        wrong_points: 100,
        is_negative: true,
    };
    let again = exam_tracker::aggregate::grand_totals(&raws, marking);
    assert_eq!(record.total_score_pct, again.score_pct);
    assert_eq!(record.total_accuracy_pct, again.accuracy_pct);
}
