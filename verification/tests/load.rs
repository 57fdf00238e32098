use exam_tracker::db::create_entry;
use exam_tracker::history::get_history;
use exam_tracker::models::{MarkingConfig, StoreError, SubjectInput, SubjectRaw, TestInput};
use exam_tracker::store::{EntryRow, Store, TemplateRow, TestRow};
use exam_tracker::templates::get_templates;

fn marking() -> MarkingConfig {
    MarkingConfig { correct_points: 400, wrong_points: 100, is_negative: true }
}

fn test_row(id: i64, date: &str) -> TestRow {
    TestRow {
        id,
        date: String::from(date),
        name: None,
        marking: marking(),
        score_pct: 123,
        accuracy_pct: 456,
    }
}

fn entry_row(id: i64, test_id: i64, correct: u32) -> EntryRow {
    EntryRow {
        id,
        test_id,
        name: String::from("Math"),
        raw: SubjectRaw { total: 10, attempted: 8, correct },
    }
}

fn template_row(id: i64, name: &str) -> TemplateRow {
    TemplateRow { id, name: String::from(name), marking: marking(), subjects: Vec::new() }
}

fn error_of(res: Result<Store, StoreError>) -> Option<StoreError> {
    match res {
        Ok(_) => None,
        Err(e) => Some(e),
    }
}

#[test]
fn loading_computes_the_percentages_anew() {
    let tests = vec![test_row(3, "2024-01-01"), test_row(8, "2024-01-02")];
    let entries = vec![entry_row(2, 8, 6), entry_row(5, 3, 8)];
    let store = Store::from_rows(tests, entries, vec![template_row(4, "JEE")]).unwrap();
    let (tests, entries, templates) = store.rows();
    assert_eq!(tests[0].id, 3);
    // 8 * 4 = 32 of 40 points, none wrong.
    assert_eq!(tests[0].score_pct, 8000);
    assert_eq!(tests[0].accuracy_pct, 10000);
    assert_eq!(tests[1].score_pct, 5500);
    assert_eq!(tests[1].accuracy_pct, 7500);
    assert_eq!(entries.len(), 2);
    assert_eq!(templates.len(), 1);
    assert_eq!(get_history(&store)[0].id, 8);
    assert_eq!(get_templates(&store)[0].id, Some(4));
}

#[test]
fn loading_the_rows_of_a_store_gives_the_store_back() {
    let mut store = Store::new();
    let test = TestInput {
        date: String::from("2024-01-01"),
        name: Some(String::from("Mock")),
        correct_points: 400,
        wrong_points: 100,
        is_negative: true,
        subjects: vec![SubjectInput {
            name: String::from("Math"),
            total_q: 10,
            attempted_q: 8,
            correct_q: 6,
        }],
    };
    assert_eq!(create_entry(&mut store, test), Ok(()));
    let (tests, entries, templates) = store.rows();
    let again = Store::from_rows(tests.clone(), entries.clone(), templates.clone()).unwrap();
    assert_eq!(again.rows(), store.rows());
    assert_eq!(get_history(&again), get_history(&store));
}

#[test]
fn loading_continues_the_ids() {
    let mut store =
        Store::from_rows(vec![test_row(7, "2024-01-01")], vec![entry_row(20, 7, 1)], Vec::new())
            .unwrap();
    let test = TestInput {
        date: String::from("2024-01-02"),
        name: None,
        correct_points: 100,
        wrong_points: 0,
        is_negative: false,
        subjects: vec![SubjectInput {
            name: String::from("Art"),
            total_q: 1,
            attempted_q: 1,
            correct_q: 1,
        }],
    };
    assert_eq!(create_entry(&mut store, test), Ok(()));
    assert_eq!(store.rows().0[1].id, 8);
    assert_eq!(store.rows().1[1].id, 21);
    assert_eq!(store.rows().1[1].test_id, 8);
}

#[test]
fn loading_fails_on_ids_out_of_order() {
    let tests = vec![test_row(2, "a"), test_row(1, "b")];
    assert_eq!(error_of(Store::from_rows(tests, Vec::new(), Vec::new())), Some(StoreError::StorageError));
    let tests = vec![test_row(1, "a"), test_row(1, "b")];
    assert_eq!(error_of(Store::from_rows(tests, Vec::new(), Vec::new())), Some(StoreError::StorageError));
    let entries = vec![entry_row(2, 1, 1), entry_row(2, 1, 1)];
    assert_eq!(
        error_of(Store::from_rows(vec![test_row(1, "a")], entries, Vec::new())),
        Some(StoreError::StorageError)
    );
    let templates = vec![template_row(2, "a"), template_row(1, "b")];
    assert_eq!(error_of(Store::from_rows(Vec::new(), Vec::new(), templates)), Some(StoreError::StorageError));
}

#[test]
fn loading_fails_on_ids_below_one() {
    assert_eq!(
        error_of(Store::from_rows(vec![test_row(0, "a")], Vec::new(), Vec::new())),
        Some(StoreError::StorageError)
    );
    assert_eq!(
        error_of(Store::from_rows(vec![test_row(1, "a")], vec![entry_row(-1, 1, 1)], Vec::new())),
        Some(StoreError::StorageError)
    );
    assert_eq!(
        error_of(Store::from_rows(Vec::new(), Vec::new(), vec![template_row(0, "a")])),
        Some(StoreError::StorageError)
    );
}

#[test]
fn loading_fails_on_an_entry_without_its_test() {
    let res = Store::from_rows(vec![test_row(1, "a")], vec![entry_row(1, 2, 1)], Vec::new());
    assert_eq!(error_of(res), Some(StoreError::StorageError));
}

#[test]
fn loading_fails_on_two_templates_of_one_name() {
    let templates = vec![template_row(1, "JEE"), template_row(2, "SAT"), template_row(3, "JEE")];
    assert_eq!(error_of(Store::from_rows(Vec::new(), Vec::new(), templates)), Some(StoreError::StorageError));
}

#[test]
fn loading_nothing_gives_the_empty_store() {
    let store = Store::from_rows(Vec::new(), Vec::new(), Vec::new()).unwrap();
    assert!(get_history(&store).is_empty());
    assert!(get_templates(&store).is_empty());
}
