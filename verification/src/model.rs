//! The mathematical model of the store: three relations held as sequences,
//! what it means for them to be consistent, and what each operation makes
//! of them.

use vstd::prelude::*;
use crate::aggregate::{spec_grand_accuracy_pct, spec_grand_score_pct};
use crate::marking::{spec_accuracy_pct, spec_attempts_pct, spec_subject_score_pct};
use crate::models::{
    MarkingConfig, NewTestModel, RecordModel, StatsModel, SubjectModel, SubjectRaw, TemplateModel,
};
use crate::seq_lemmas::sorted_by;
use crate::text::{spec_marking_display, spec_text_less};

verus! {

/// One stored test: its identity, what the caller gave, and the two derived
/// percentages that the store keeps beside them.
pub struct TestModel {
    pub id: int,
    pub date: Seq<char>,
    pub name: Option<Seq<char>>,
    pub marking: MarkingConfig,
    pub score_pct: int,
    pub accuracy_pct: int,
}

/// One stored subject entry and the test it belongs to.
pub struct EntryModel {
    pub id: int,
    pub test_id: int,
    pub name: Seq<char>,
    pub raw: SubjectRaw,
}

/// The three relations of the store, each in ascending order of id.
pub struct StoreModel {
    pub tests: Seq<TestModel>,
    pub entries: Seq<EntryModel>,
    pub templates: Seq<TemplateModel>,
}

/// Holds of the entries that belong to the test.
pub open spec fn of_test(test_id: int) -> spec_fn(EntryModel) -> bool {
    |e: EntryModel| e.test_id == test_id
}

/// Holds of the entries that do not belong to the test.
pub open spec fn not_of_test(test_id: int) -> spec_fn(EntryModel) -> bool {
    |e: EntryModel| e.test_id != test_id
}

/// Holds of the tests with another id.
pub open spec fn other_test(id: int) -> spec_fn(TestModel) -> bool {
    |t: TestModel| t.id != id
}

/// Holds of the entries with another id.
pub open spec fn other_entry(id: int) -> spec_fn(EntryModel) -> bool {
    |e: EntryModel| e.id != id
}

/// Holds of the templates with another id.
pub open spec fn other_template(id: int) -> spec_fn(TemplateModel) -> bool {
    |t: TemplateModel| t.id != Some(id)
}

/// The question counts of an entry.
pub open spec fn raw_of() -> spec_fn(EntryModel) -> SubjectRaw {
    |e: EntryModel| e.raw
}

/// The question counts of a subject of a new test.
pub open spec fn raw_of_subject() -> spec_fn(SubjectModel) -> SubjectRaw {
    |m: SubjectModel| m.raw
}

/// The entries that belong to a test, in stored order.
pub open spec fn entries_of(entries: Seq<EntryModel>, test_id: int) -> Seq<EntryModel> {
    entries.filter(of_test(test_id))
}

/// The entries that do not belong to a test, in stored order.
pub open spec fn entries_not_of(entries: Seq<EntryModel>, test_id: int) -> Seq<EntryModel> {
    entries.filter(not_of_test(test_id))
}

/// The question counts of the entries that belong to a test.
pub open spec fn raws_of(entries: Seq<EntryModel>, test_id: int) -> Seq<SubjectRaw> {
    entries_of(entries, test_id).map_values(raw_of())
}

/// The test with its two percentages computed from the entries.
pub open spec fn derived(entries: Seq<EntryModel>, test: TestModel) -> TestModel {
    TestModel {
        score_pct: spec_grand_score_pct(raws_of(entries, test.id), test.marking),
        accuracy_pct: spec_grand_accuracy_pct(raws_of(entries, test.id)),
        ..test
    }
}

/// Every test with its two percentages computed from the entries.
pub open spec fn derive_all(tests: Seq<TestModel>, entries: Seq<EntryModel>) -> Seq<TestModel> {
    tests.map_values(|t: TestModel| derived(entries, t))
}

/// The tests with the percentages of one of them computed from the entries.
pub open spec fn refreshed(tests: Seq<TestModel>, entries: Seq<EntryModel>, test_id: int) -> Seq<
    TestModel,
> {
    tests.map_values(
        |t: TestModel|
            if t.id == test_id {
                derived(entries, t)
            } else {
                t
            },
    )
}

/// The tests with date, name and marking scheme of one of them replaced.
pub open spec fn reconfigured(
    tests: Seq<TestModel>,
    id: int,
    date: Seq<char>,
    name: Option<Seq<char>>,
    marking: MarkingConfig,
) -> Seq<TestModel> {
    tests.map_values(
        |t: TestModel|
            if t.id == id {
                TestModel { date, name, marking, ..t }
            } else {
                t
            },
    )
}

/// The entries with name and question counts of one of them replaced.
pub open spec fn rewritten(entries: Seq<EntryModel>, id: int, name: Seq<char>, raw: SubjectRaw)
    -> Seq<EntryModel> {
    entries.map_values(
        |e: EntryModel|
            if e.id == id {
                EntryModel { name, raw, ..e }
            } else {
                e
            },
    )
}

/// The templates with one of them replaced, under the id it had.
pub open spec fn replaced(templates: Seq<TemplateModel>, id: int, data: TemplateModel) -> Seq<
    TemplateModel,
> {
    templates.map_values(
        |t: TemplateModel|
            if t.id == Some(id) {
                TemplateModel { id: Some(id), ..data }
            } else {
                t
            },
    )
}

/// Whether an entry with this id is among the entries.
pub open spec fn entry_stored(entries: Seq<EntryModel>, id: int) -> bool {
    exists|j: int| 0 <= j < entries.len() && (#[trigger] entries[j]).id == id
}

/// Whether a test with this id is among the tests.
pub open spec fn test_stored(tests: Seq<TestModel>, id: int) -> bool {
    exists|i: int| 0 <= i < tests.len() && (#[trigger] tests[i]).id == id
}

/// The ids of the tests are positive and ascend.
pub open spec fn tests_keyed(tests: Seq<TestModel>) -> bool {
    &&& forall|i: int| 0 <= i < tests.len() ==> (#[trigger] tests[i]).id >= 1
    &&& forall|i: int, j: int|
        0 <= i < j < tests.len() ==> (#[trigger] tests[i]).id < (#[trigger] tests[j]).id
}

/// The ids of the entries are positive and ascend.
pub open spec fn entries_keyed(entries: Seq<EntryModel>) -> bool {
    &&& forall|i: int| 0 <= i < entries.len() ==> (#[trigger] entries[i]).id >= 1
    &&& forall|i: int, j: int|
        0 <= i < j < entries.len() ==> (#[trigger] entries[i]).id < (#[trigger] entries[j]).id
}

/// Every entry belongs to one of the tests.
pub open spec fn entries_owned(tests: Seq<TestModel>, entries: Seq<EntryModel>) -> bool {
    forall|j: int| 0 <= j < entries.len() ==> test_stored(tests, (#[trigger] entries[j]).test_id)
}

/// The derived percentages of every test are those of its entries.
pub open spec fn all_fresh(tests: Seq<TestModel>, entries: Seq<EntryModel>) -> bool {
    forall|i: int| 0 <= i < tests.len() ==> #[trigger] tests[i] == derived(entries, tests[i])
}

/// Every template has an id, the ids are positive and ascend, and no two
/// templates have one name.
pub open spec fn templates_keyed(templates: Seq<TemplateModel>) -> bool {
    &&& forall|i: int|
        0 <= i < templates.len() ==> (#[trigger] templates[i]).id is Some
            && templates[i].id.unwrap() >= 1
    &&& forall|i: int, j: int|
        0 <= i < j < templates.len() ==> (#[trigger] templates[i]).id.unwrap() < (
        #[trigger] templates[j]).id.unwrap()
    &&& forall|i: int, j: int|
        0 <= i < j < templates.len() ==> (#[trigger] templates[i]).name != (
        #[trigger] templates[j]).name
}

/// The entries of a new test: one for each subject, with consecutive ids.
pub open spec fn new_entries(first_id: int, test_id: int, subjects: Seq<SubjectModel>) -> Seq<
    EntryModel,
> {
    Seq::new(
        subjects.len(),
        |k: int|
            EntryModel { id: first_id + k, test_id, name: subjects[k].name, raw: subjects[k].raw },
    )
}

/// One entry as a listing shows it, with its three percentages.
pub open spec fn stats_of(entry: EntryModel, marking: MarkingConfig) -> StatsModel {
    StatsModel {
        id: entry.id,
        name: entry.name,
        attempts_pct: spec_attempts_pct(entry.raw),
        accuracy_pct: spec_accuracy_pct(entry.raw),
        score_pct: spec_subject_score_pct(entry.raw, marking),
        raw: entry.raw,
    }
}

/// One entry as a listing shows it under a marking scheme.
pub open spec fn stats_under(marking: MarkingConfig) -> spec_fn(EntryModel) -> StatsModel {
    |e: EntryModel| stats_of(e, marking)
}

/// The order of a listing as a relation.
pub open spec fn listing_order() -> spec_fn(RecordModel, RecordModel) -> bool {
    |a: RecordModel, b: RecordModel| listed_before(a, b)
}

/// The order of a list of templates: ascending by name.
pub open spec fn name_order() -> spec_fn(TemplateModel, TemplateModel) -> bool {
    |a: TemplateModel, b: TemplateModel| spec_text_less(a.name, b.name)
}

/// The order of a listing: later dates first, and of two tests of one date
/// the one with the higher id first.
pub open spec fn listed_before(a: RecordModel, b: RecordModel) -> bool {
    spec_text_less(b.date, a.date) || (a.date == b.date && a.id > b.id)
}

impl StoreModel {
    /// Whether rows can be taken into a store: ids are positive and ascend
    /// within each relation, every entry belongs to one of the tests, and
    /// no two templates have one name.
    pub open spec fn loadable(
        tests: Seq<TestModel>,
        entries: Seq<EntryModel>,
        templates: Seq<TemplateModel>,
    ) -> bool {
        &&& tests_keyed(tests)
        &&& entries_keyed(entries)
        &&& entries_owned(tests, entries)
        &&& templates_keyed(templates)
    }

    /// The store that holds the rows given, with the percentages of every
    /// test computed from its entries.
    pub open spec fn loaded(
        tests: Seq<TestModel>,
        entries: Seq<EntryModel>,
        templates: Seq<TemplateModel>,
    ) -> StoreModel {
        StoreModel { tests: derive_all(tests, entries), entries, templates }
    }

    /// The store that holds nothing.
    pub open spec fn empty() -> StoreModel {
        StoreModel { tests: Seq::empty(), entries: Seq::empty(), templates: Seq::empty() }
    }

    /// Whether a test with this id is stored.
    pub open spec fn has_test(self, id: int) -> bool {
        test_stored(self.tests, id)
    }

    /// Whether an entry with this id is stored.
    pub open spec fn has_entry(self, id: int) -> bool {
        entry_stored(self.entries, id)
    }

    /// Whether a template with this id is stored.
    pub open spec fn has_template(self, id: int) -> bool {
        exists|i: int| 0 <= i < self.templates.len() && (#[trigger] self.templates[i]).id == Some(id)
    }

    /// Whether a template has this name.
    pub open spec fn name_taken(self, name: Seq<char>) -> bool {
        exists|i: int| 0 <= i < self.templates.len() && (#[trigger] self.templates[i]).name == name
    }

    /// Whether a template other than the one with this id has this name.
    pub open spec fn name_taken_by_other(self, name: Seq<char>, id: int) -> bool {
        exists|i: int|
            0 <= i < self.templates.len() && (#[trigger] self.templates[i]).name == name
                && self.templates[i].id != Some(id)
    }

    /// The id that the next test gets: one more than the highest in use.
    pub open spec fn next_test_id(self) -> int {
        if self.tests.len() == 0 {
            1
        } else {
            self.tests.last().id + 1
        }
    }

    /// The id that the next entry gets.
    pub open spec fn next_entry_id(self) -> int {
        if self.entries.len() == 0 {
            1
        } else {
            self.entries.last().id + 1
        }
    }

    /// The id that the next template gets.
    pub open spec fn next_template_id(self) -> int {
        if self.templates.len() == 0 {
            1
        } else {
            self.templates.last().id.unwrap() + 1
        }
    }

    /// Consistency of the store. Ids are positive and ascend within each
    /// relation, so none occurs twice. Every entry belongs to a stored test.
    /// The derived percentages of every test are those of its entries. No
    /// two templates have one name.
    pub open spec fn wf(self) -> bool {
        &&& tests_keyed(self.tests)
        &&& entries_keyed(self.entries)
        &&& entries_owned(self.tests, self.entries)
        &&& all_fresh(self.tests, self.entries)
        &&& templates_keyed(self.templates)
    }

    /// Whether the store has ids left for one more test with `subjects`
    /// entries.
    pub open spec fn can_take_test(self, subjects: nat) -> bool {
        &&& self.next_test_id() <= i64::MAX
        &&& self.next_entry_id() + subjects <= i64::MAX + 1
    }

    /// The store after a test was created with all its subjects.
    pub open spec fn with_test_created(self, data: NewTestModel) -> StoreModel {
        let id = self.next_test_id();
        let test = TestModel {
            id,
            date: data.date,
            name: data.name,
            marking: data.marking,
            score_pct: 0,
            accuracy_pct: 0,
        };
        let entries = self.entries + new_entries(self.next_entry_id(), id, data.subjects);
        StoreModel {
            tests: derive_all(self.tests.push(test), entries),
            entries,
            templates: self.templates,
        }
    }

    /// The store after date, name and marking scheme of a test were
    /// replaced.
    pub open spec fn with_test_updated(
        self,
        id: int,
        date: Seq<char>,
        name: Option<Seq<char>>,
        marking: MarkingConfig,
    ) -> StoreModel {
        StoreModel {
            tests: derive_all(reconfigured(self.tests, id, date, name, marking), self.entries),
            entries: self.entries,
            templates: self.templates,
        }
    }

    /// The store after a test was deleted, and with it its entries.
    pub open spec fn without_test(self, id: int) -> StoreModel {
        StoreModel {
            tests: self.tests.filter(other_test(id)),
            entries: entries_not_of(self.entries, id),
            templates: self.templates,
        }
    }

    /// The store after one more entry was added to a test.
    pub open spec fn with_subject_added(self, test_id: int, name: Seq<char>, raw: SubjectRaw)
        -> StoreModel {
        let entry = EntryModel { id: self.next_entry_id(), test_id, name, raw };
        let entries = self.entries.push(entry);
        StoreModel {
            tests: derive_all(self.tests, entries),
            entries,
            templates: self.templates,
        }
    }

    /// The store after name and question counts of an entry were replaced.
    pub open spec fn with_subject_updated(self, id: int, name: Seq<char>, raw: SubjectRaw)
        -> StoreModel {
        let entries = rewritten(self.entries, id, name, raw);
        StoreModel {
            tests: derive_all(self.tests, entries),
            entries,
            templates: self.templates,
        }
    }

    /// The store after an entry was deleted.
    pub open spec fn without_subject(self, id: int) -> StoreModel {
        let entries = self.entries.filter(other_entry(id));
        StoreModel {
            tests: derive_all(self.tests, entries),
            entries,
            templates: self.templates,
        }
    }

    /// The store after a template was created.
    pub open spec fn with_template_created(self, data: TemplateModel) -> StoreModel {
        let template = TemplateModel { id: Some(self.next_template_id()), ..data };
        StoreModel {
            tests: self.tests,
            entries: self.entries,
            templates: self.templates.push(template),
        }
    }

    /// The store after the template with this id was replaced.
    pub open spec fn with_template_updated(self, id: int, data: TemplateModel) -> StoreModel {
        StoreModel {
            tests: self.tests,
            entries: self.entries,
            templates: replaced(self.templates, id, data),
        }
    }

    /// The store after a template was deleted.
    pub open spec fn without_template(self, id: int) -> StoreModel {
        StoreModel {
            tests: self.tests,
            entries: self.entries,
            templates: self.templates.filter(other_template(id)),
        }
    }

    /// One test as a listing shows it: its grand percentages computed from
    /// its entries, and its subjects in stored order.
    pub open spec fn record_of(self, test: TestModel) -> RecordModel {
        RecordModel {
            id: test.id,
            date: test.date,
            name: test.name,
            marking_config: spec_marking_display(test.marking),
            total_score_pct: spec_grand_score_pct(raws_of(self.entries, test.id), test.marking),
            total_accuracy_pct: spec_grand_accuracy_pct(raws_of(self.entries, test.id)),
            subjects: entries_of(self.entries, test.id).map_values(stats_under(test.marking)),
        }
    }

    /// Whether `records` is the listing of the store: one record for each
    /// test, later dates first and higher ids first within one date.
    pub open spec fn is_history(self, records: Seq<RecordModel>) -> bool {
        &&& records.len() == self.tests.len()
        &&& forall|i: int|
            0 <= i < records.len() ==> exists|k: int|
                0 <= k < self.tests.len() && #[trigger] records[i] == self.record_of(
                    self.tests[k],
                )
        &&& forall|k: int|
            0 <= k < self.tests.len() ==> records.contains(
                self.record_of(#[trigger] self.tests[k]),
            )
        &&& sorted_by(records, listing_order())
    }

    /// Whether `list` is the listing of the templates: each template once,
    /// in ascending order of name.
    pub open spec fn is_template_list(self, list: Seq<TemplateModel>) -> bool {
        &&& list.len() == self.templates.len()
        &&& forall|i: int| 0 <= i < list.len() ==> self.templates.contains(#[trigger] list[i])
        &&& forall|k: int|
            0 <= k < self.templates.len() ==> list.contains(#[trigger] self.templates[k])
        &&& sorted_by(list, name_order())
    }
}

} // verus!
