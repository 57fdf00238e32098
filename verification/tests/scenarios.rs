use exam_tracker::db::{add_subject, create_entry};
use exam_tracker::history::get_history;
use exam_tracker::models::{AddSubjectInput, SubjectInput, SubjectRaw, TestInput};
use exam_tracker::store::Store;

fn math_test() -> TestInput {
    TestInput {
        date: String::from("2024-01-01"),
        name: None,
        correct_points: 400,
        wrong_points: 100,
        is_negative: true,
        subjects: vec![SubjectInput {
            name: String::from("Math"),
            total_q: 10,
            attempted_q: 8,
            correct_q: 6,
        }],
    }
}

#[test]
fn create_test_computes_grand_percentages() {
    let mut store = Store::new();
    assert_eq!(create_entry(&mut store, math_test()), Ok(()));
    let history = get_history(&store);
    assert_eq!(history.len(), 1);
    let record = &history[0];
    assert_eq!(record.id, 1);
    assert_eq!(record.date, "2024-01-01");
    assert_eq!(record.name, None);
    assert_eq!(record.marking_config, "+4/-1");
    assert_eq!(record.total_score_pct, 5500);
    assert_eq!(record.total_accuracy_pct, 7500);
    assert_eq!(record.subjects.len(), 1);
    let math = &record.subjects[0];
    assert_eq!(math.id, 1);
    assert_eq!(math.name, "Math");
    assert_eq!(math.raw, SubjectRaw { total: 10, attempted: 8, correct: 6 });
    assert_eq!(math.attempts_pct, 8000);
    assert_eq!(math.accuracy_pct, 7500);
    assert_eq!(math.score_pct, 5500);
}

#[test]
fn add_subject_refreshes_grand_percentages() {
    let mut store = Store::new();
    assert_eq!(create_entry(&mut store, math_test()), Ok(()));
    let physics = AddSubjectInput {
        test_id: 1,
        name: String::from("Physics"),
        total_q: 10,
        attempted_q: 0,
        correct_q: 0,
    };
    assert_eq!(add_subject(&mut store, physics), Ok(()));
    let history = get_history(&store);
    assert_eq!(history.len(), 1);
    let record = &history[0];
    assert_eq!(record.total_score_pct, 2750);
    assert_eq!(record.total_accuracy_pct, 7500);
    assert_eq!(record.subjects.len(), 2);
    assert_eq!(record.subjects[0].name, "Math");
    assert_eq!(record.subjects[1].name, "Physics");
    assert_eq!(record.subjects[1].id, 2);
    assert_eq!(record.subjects[1].attempts_pct, 0);
    assert_eq!(record.subjects[1].accuracy_pct, 0);
    assert_eq!(record.subjects[1].score_pct, 0);
}

#[test]
fn delete_of_a_test_never_created_succeeds() {
    let mut store = Store::new();
    assert_eq!(create_entry(&mut store, math_test()), Ok(()));
    let before = get_history(&store);
    assert_eq!(exam_tracker::db::delete_test(&mut store, 9999), Ok(()));
    assert_eq!(get_history(&store), before);
    assert_eq!(before.len(), 1);
}
