use exam_tracker::history::get_history;
use exam_tracker::models::{StoreError, TemplateDTO, TemplateSubjectJson};
use exam_tracker::store::Store;
use exam_tracker::templates::{
    create_template, delete_template, get_templates, update_template,
};

fn preset(name: &str, default_total: u32) -> TemplateSubjectJson {
    TemplateSubjectJson { name: String::from(name), default_total }
}

fn template(id: Option<i64>, name: &str, subjects: Vec<TemplateSubjectJson>) -> TemplateDTO {
    TemplateDTO {
        id,
        name: String::from(name),
        correct_points: 400,
        wrong_points: 100,
        is_negative: true,
        subjects,
    }
}

fn three_templates() -> Store {
    let mut store = Store::new();
    for name in ["NEET", "JEE", "SAT"] {
        let data = template(None, name, vec![preset("Physics", 45), preset("Chemistry", 45)]);
        assert_eq!(create_template(&mut store, data), Ok(()));
    }
    store
}

#[test]
fn templates_are_listed_by_name() {
    let store = three_templates();
    let list = get_templates(&store);
    assert_eq!(list.len(), 3);
    assert_eq!(list[0], template(Some(2), "JEE", vec![preset("Physics", 45), preset("Chemistry", 45)]));
    assert_eq!(list[1].name, "NEET");
    assert_eq!(list[1].id, Some(1));
    assert_eq!(list[2].name, "SAT");
    assert_eq!(list[2].id, Some(3));
}

#[test]
fn templates_are_listed_in_the_order_of_bytes() {
    let mut store = Store::new();
    for name in ["b", "B", "a", "", "ab"] {
        assert_eq!(create_template(&mut store, template(None, name, Vec::new())), Ok(()));
    }
    let names: Vec<String> = get_templates(&store).into_iter().map(|t| t.name).collect();
    assert_eq!(names, vec!["", "B", "a", "ab", "b"]);
}

#[test]
fn create_template_ignores_the_id_given() {
    let mut store = Store::new();
    assert_eq!(create_template(&mut store, template(Some(40), "JEE", Vec::new())), Ok(()));
    assert_eq!(get_templates(&store)[0].id, Some(1));
}

#[test]
fn create_template_fails_on_a_name_in_use() {
    let mut store = three_templates();
    let before = get_templates(&store);
    let data = TemplateDTO {
        id: None,
        name: String::from("JEE"),
        correct_points: 100,
        wrong_points: 0,
        is_negative: false,
        subjects: vec![preset("Maths", 30)],
    };
    assert_eq!(create_template(&mut store, data), Err(StoreError::DuplicateName));
    assert_eq!(get_templates(&store), before);
    assert_eq!(before[0].correct_points, 400);
    assert_eq!(before[0].subjects.len(), 2);
}

#[test]
fn create_template_tells_names_apart_by_case() {
    let mut store = three_templates();
    assert_eq!(create_template(&mut store, template(None, "jee", Vec::new())), Ok(()));
    assert_eq!(get_templates(&store).len(), 4);
}

#[test]
fn update_template_replaces_every_field() {
    let mut store = three_templates();
    let data = TemplateDTO {
        id: Some(2),
        name: String::from("JEE Advanced"),
        correct_points: 300,
        wrong_points: 50,
        is_negative: false,
        subjects: vec![preset("Maths", 18)],
    };
    assert_eq!(update_template(&mut store, data.clone()), Ok(()));
    let list = get_templates(&store);
    assert_eq!(list.len(), 3);
    assert_eq!(list[0], data);
    assert_eq!(list[1].name, "NEET");
}

#[test]
fn update_template_may_keep_its_own_name() {
    let mut store = three_templates();
    let data = template(Some(1), "NEET", vec![preset("Biology", 90)]);
    assert_eq!(update_template(&mut store, data.clone()), Ok(()));
    assert_eq!(get_templates(&store)[1], data);
}

#[test]
fn update_template_fails_on_the_name_of_another() {
    let mut store = three_templates();
    let before = get_templates(&store);
    let data = template(Some(1), "SAT", Vec::new());
    assert_eq!(update_template(&mut store, data), Err(StoreError::DuplicateName));
    assert_eq!(get_templates(&store), before);
}

#[test]
fn update_template_fails_where_the_template_is_missing() {
    let mut store = three_templates();
    let before = get_templates(&store);
    assert_eq!(update_template(&mut store, template(Some(4), "GRE", Vec::new())), Err(StoreError::NotFound));
    assert_eq!(update_template(&mut store, template(Some(4), "SAT", Vec::new())), Err(StoreError::NotFound));
    assert_eq!(get_templates(&store), before);
}

#[test]
fn update_template_fails_without_an_id() {
    let mut store = three_templates();
    let before = get_templates(&store);
    assert_eq!(update_template(&mut store, template(None, "GRE", Vec::new())), Err(StoreError::NotFound));
    assert_eq!(get_templates(&store), before);
}

#[test]
fn delete_template_removes_it() {
    let mut store = three_templates();
    assert_eq!(delete_template(&mut store, 1), Ok(()));
    let list = get_templates(&store);
    assert_eq!(list.len(), 2);
    assert_eq!(list[0].name, "JEE");
    assert_eq!(list[1].name, "SAT");
    assert_eq!(create_template(&mut store, template(None, "NEET", Vec::new())), Ok(()));
    assert_eq!(get_templates(&store)[1].id, Some(4));
}

#[test]
fn delete_template_of_an_unknown_id_is_no_failure() {
    let mut store = three_templates();
    let before = get_templates(&store);
    assert_eq!(delete_template(&mut store, 9999), Ok(()));
    assert_eq!(get_templates(&store), before);
}

#[test]
fn templates_and_tests_do_not_touch_each_other() {
    let mut store = three_templates();
    assert!(get_history(&store).is_empty());
    assert_eq!(delete_template(&mut store, 2), Ok(()));
    assert!(get_history(&store).is_empty());
    assert!(store.rows().0.is_empty());
    assert!(store.rows().1.is_empty());
    assert_eq!(store.rows().2.len(), 2);
}

#[test]
fn create_template_fails_where_the_ids_have_run_out() {
    let row = exam_tracker::store::TemplateRow {
        id: i64::MAX,
        name: String::from("JEE"),
        marking: exam_tracker::models::MarkingConfig {
            correct_points: 400,
            wrong_points: 100,
            is_negative: true,
        },
        subjects: Vec::new(),
    };
    let mut store = Store::from_rows(Vec::new(), Vec::new(), vec![row]).unwrap();
    assert_eq!(create_template(&mut store, template(None, "SAT", Vec::new())), Err(StoreError::StorageError));
    assert_eq!(create_template(&mut store, template(None, "JEE", Vec::new())), Err(StoreError::DuplicateName));
    assert_eq!(get_templates(&store).len(), 1);
}
