//! The record store and the template store as they are held in memory:
//! three vectors of rows, each in ascending order of id.

use vstd::prelude::*;
use crate::aggregate::{grand_totals, GrandTotals};
use crate::db::{collect_raws, find_test};
use crate::invariants::lemma_derive_all;
use crate::model::{
    derive_all, derived, entries_keyed, entries_owned, templates_keyed, test_stored, tests_keyed,
    EntryModel, StoreModel, TestModel,
};
use crate::models::{
    opt_text, preset_models, MarkingConfig, StoreError, SubjectRaw, TemplateModel,
    TemplateSubjectJson,
};

verus! {

/// One row of the tests. The two percentages are derived: a store computes
/// them itself and takes none from a caller.
#[derive(Clone, Debug, PartialEq, Eq)]
pub struct TestRow {
    pub id: i64,
    pub date: String,
    pub name: Option<String>,
    pub marking: MarkingConfig,
    pub score_pct: i128,
    pub accuracy_pct: i128,
}

impl TestRow {
    /// The row as the model holds it.
    pub open spec fn model(self) -> TestModel {
        TestModel {
            id: self.id as int,
            date: self.date@,
            name: opt_text(self.name),
            marking: self.marking,
            score_pct: self.score_pct as int,
            accuracy_pct: self.accuracy_pct as int,
        }
    }
}

/// One row of the subject entries.
#[derive(Clone, Debug, PartialEq, Eq)]
pub struct EntryRow {
    pub id: i64,
    pub test_id: i64,
    pub name: String,
    pub raw: SubjectRaw,
}

impl EntryRow {
    /// The row as the model holds it.
    pub open spec fn model(self) -> EntryModel {
        EntryModel {
            id: self.id as int,
            test_id: self.test_id as int,
            name: self.name@,
            raw: self.raw,
        }
    }
}

/// One row of the templates.
#[derive(Clone, Debug, PartialEq, Eq)]
pub struct TemplateRow {
    pub id: i64,
    pub name: String,
    pub marking: MarkingConfig,
    pub subjects: Vec<TemplateSubjectJson>,
}

impl TemplateRow {
    /// The row as the model holds it.
    pub open spec fn model(self) -> TemplateModel {
        TemplateModel {
            id: Some(self.id as int),
            name: self.name@,
            marking: self.marking,
            subjects: preset_models(self.subjects@),
        }
    }
}

/// The models of the rows of the tests.
pub open spec fn test_models(rows: Seq<TestRow>) -> Seq<TestModel> {
    rows.map_values(|r: TestRow| r.model())
}

/// The models of the rows of the entries.
pub open spec fn entry_models(rows: Seq<EntryRow>) -> Seq<EntryModel> {
    rows.map_values(|r: EntryRow| r.model())
}

/// The models of the rows of the templates.
pub open spec fn template_row_models(rows: Seq<TemplateRow>) -> Seq<TemplateModel> {
    rows.map_values(|r: TemplateRow| r.model())
}

/// The model of three vectors of rows.
pub open spec fn rows_model(
    tests: Seq<TestRow>,
    entries: Seq<EntryRow>,
    templates: Seq<TemplateRow>,
) -> StoreModel {
    StoreModel {
        tests: test_models(tests),
        entries: entry_models(entries),
        templates: template_row_models(templates),
    }
}

/// Whether the ids of the rows are positive and ascend.
fn tests_are_keyed(tests: &Vec<TestRow>) -> (keyed: bool)
    ensures
        keyed == tests_keyed(test_models(tests@)),
{
    let mut i: usize = 0;
    while i < tests.len()
        invariant
            0 <= i <= tests.len(),
            tests_keyed(test_models(tests@).take(i as int)),
        decreases tests.len() - i,
    {
        let ghost all = test_models(tests@);
        if tests[i].id < 1 || (i > 0 && tests[i - 1].id >= tests[i].id) {
            proof {
                if tests_keyed(all) {
                    assert(all[i as int].id >= 1);
                    assert(all[i as int - 1].id < all[i as int].id);
                }
            }
            return false;
        }
        proof {
            let next = all.take(i as int + 1);
            assert forall|a: int, b: int| 0 <= a < b < next.len() implies (#[trigger] next[a]).id < (
            #[trigger] next[b]).id by {
                let seen = all.take(i as int);
                if b < i {
                    assert(seen[a].id < seen[b].id);
                } else if a < i - 1 {
                    assert(seen[a].id < seen[i as int - 1].id);
                }
            }
            assert forall|a: int| 0 <= a < next.len() implies (#[trigger] next[a]).id >= 1 by {
                if a < i {
                    assert(all.take(i as int)[a].id >= 1);
                }
            }
        }
        i = i + 1;
    }
    proof {
        assert(test_models(tests@).take(i as int) =~= test_models(tests@));
    }
    true
}

/// Whether the ids of the rows are positive and ascend.
fn entries_are_keyed(entries: &Vec<EntryRow>) -> (keyed: bool)
    ensures
        keyed == entries_keyed(entry_models(entries@)),
{
    let mut i: usize = 0;
    while i < entries.len()
        invariant
            0 <= i <= entries.len(),
            entries_keyed(entry_models(entries@).take(i as int)),
        decreases entries.len() - i,
    {
        let ghost all = entry_models(entries@);
        if entries[i].id < 1 || (i > 0 && entries[i - 1].id >= entries[i].id) {
            proof {
                if entries_keyed(all) {
                    assert(all[i as int].id >= 1);
                    assert(all[i as int - 1].id < all[i as int].id);
                }
            }
            return false;
        }
        proof {
            let next = all.take(i as int + 1);
            assert forall|a: int, b: int| 0 <= a < b < next.len() implies (#[trigger] next[a]).id < (
            #[trigger] next[b]).id by {
                let seen = all.take(i as int);
                if b < i {
                    assert(seen[a].id < seen[b].id);
                } else if a < i - 1 {
                    assert(seen[a].id < seen[i as int - 1].id);
                }
            }
            assert forall|a: int| 0 <= a < next.len() implies (#[trigger] next[a]).id >= 1 by {
                if a < i {
                    assert(all.take(i as int)[a].id >= 1);
                }
            }
        }
        i = i + 1;
    }
    proof {
        assert(entry_models(entries@).take(i as int) =~= entry_models(entries@));
    }
    true
}

/// Whether every entry belongs to one of the tests.
fn entries_are_owned(tests: &Vec<TestRow>, entries: &Vec<EntryRow>) -> (owned: bool)
    ensures
        owned == entries_owned(test_models(tests@), entry_models(entries@)),
{
    let mut j: usize = 0;
    while j < entries.len()
        invariant
            0 <= j <= entries.len(),
            forall|a: int|
                0 <= a < j ==> test_stored(
                    test_models(tests@),
                    (#[trigger] entry_models(entries@)[a]).test_id,
                ),
        decreases entries.len() - j,
    {
        let ghost owners = test_models(tests@);
        let ghost owner = entry_models(entries@)[j as int].test_id;
        match find_test(tests, entries[j].test_id) {
            Some(k) => {
                proof {
                    assert(owners[k as int].id == owner);
                }
            },
            None => {
                proof {
                    if test_stored(owners, owner) {
                        let k = choose|k: int|
                            0 <= k < owners.len() && (#[trigger] owners[k]).id == owner;
                        assert(tests[k].id != entries[j as int].test_id);
                    }
                }
                return false;
            },
        }
        j = j + 1;
    }
    true
}

/// Whether the ids of the rows are positive and ascend and no two rows have
/// one name.
fn templates_are_keyed(templates: &Vec<TemplateRow>) -> (keyed: bool)
    ensures
        keyed == templates_keyed(template_row_models(templates@)),
{
    let mut i: usize = 0;
    while i < templates.len()
        invariant
            0 <= i <= templates.len(),
            templates_keyed(template_row_models(templates@).take(i as int)),
        decreases templates.len() - i,
    {
        let ghost all = template_row_models(templates@);
        if templates[i].id < 1 || (i > 0 && templates[i - 1].id >= templates[i].id) {
            proof {
                if templates_keyed(all) {
                    assert(all[i as int].id.unwrap() >= 1);
                    assert(all[i as int - 1].id.unwrap() < all[i as int].id.unwrap());
                }
            }
            return false;
        }
        let mut j: usize = 0;
        while j < i
            invariant
                0 <= j <= i < templates.len(),
                all == template_row_models(templates@),
                forall|a: int| 0 <= a < j ==> (#[trigger] all[a]).name != all[i as int].name,
            decreases i - j,
        {
            if templates[j].name == templates[i].name {
                proof {
                    assert(all[j as int].name == all[i as int].name);
                }
                return false;
            }
            j = j + 1;
        }
        proof {
            let next = all.take(i as int + 1);
            let seen = all.take(i as int);
            assert forall|a: int, b: int| 0 <= a < b < next.len() implies (
            #[trigger] next[a]).id.unwrap() < (#[trigger] next[b]).id.unwrap() by {
                if b < i {
                    assert(seen[a].id.unwrap() < seen[b].id.unwrap());
                } else if a < i - 1 {
                    assert(seen[a].id.unwrap() < seen[i as int - 1].id.unwrap());
                }
            }
            assert forall|a: int, b: int| 0 <= a < b < next.len() implies (#[trigger] next[a]).name
                != (#[trigger] next[b]).name by {
                if b < i {
                    assert(seen[a].name != seen[b].name);
                } else {
                    assert(all[a].name != all[i as int].name);
                }
            }
            assert forall|a: int| 0 <= a < next.len() implies (#[trigger] next[a]).id is Some
                && next[a].id.unwrap() >= 1 by {
                if a < i {
                    assert(seen[a].id is Some);
                }
            }
        }
        i = i + 1;
    }
    proof {
        assert(template_row_models(templates@).take(i as int) =~= template_row_models(
            templates@,
        ));
    }
    true
}

/// Tests with their subject entries, and templates. A store is consistent
/// at all times: see `StoreModel::wf`.
#[derive(Debug)]
pub struct Store {
    pub(crate) tests: Vec<TestRow>,
    pub(crate) entries: Vec<EntryRow>,
    pub(crate) templates: Vec<TemplateRow>,
}

impl View for Store {
    type V = StoreModel;

    closed spec fn view(&self) -> StoreModel {
        rows_model(self.tests@, self.entries@, self.templates@)
    }
}

impl Store {
    /// What holds of every store at all times.
    #[verifier::type_invariant]
    pub(crate) closed spec fn consistent(self) -> bool {
        self@.wf()
    }

    /// A store that holds nothing.
    pub fn new() -> (store: Store)
        ensures
            store@ == StoreModel::empty(),
            store@.wf(),
    {
        let store = Store { tests: Vec::new(), entries: Vec::new(), templates: Vec::new() };
        assert(store@.tests =~= Seq::empty());
        assert(store@.entries =~= Seq::empty());
        assert(store@.templates =~= Seq::empty());
        store
    }

    /// A store that holds the rows given, with the percentages of every test
    /// computed from its entries. Fails where the rows are not consistent
    /// with each other.
    pub fn from_rows(tests: Vec<TestRow>, entries: Vec<EntryRow>, templates: Vec<TemplateRow>) -> (res:
        Result<Store, StoreError>)
        ensures
            res is Ok <==> StoreModel::loadable(
                test_models(tests@),
                entry_models(entries@),
                template_row_models(templates@),
            ),
            res is Ok ==> res.unwrap()@ == StoreModel::loaded(
                test_models(tests@),
                entry_models(entries@),
                template_row_models(templates@),
            ) && res.unwrap()@.wf(),
            res is Err ==> res->Err_0 == StoreError::StorageError,
    {
        if !tests_are_keyed(&tests) || !entries_are_keyed(&entries) || !entries_are_owned(
            &tests,
            &entries,
        ) || !templates_are_keyed(&templates) {
            return Err(StoreError::StorageError);
        }
        let mut tests = tests;
        let ghost given = test_models(tests@);
        let mut i: usize = 0;
        while i < tests.len()
            invariant
                0 <= i <= tests.len(),
                tests.len() == given.len(),
                forall|k: int|
                    0 <= k < i ==> (#[trigger] test_models(tests@)[k]) == derived(
                        entry_models(entries@),
                        given[k],
                    ),
                forall|k: int| i <= k < tests.len() ==> (#[trigger] test_models(tests@)[k]) == given[k],
            decreases tests.len() - i,
        {
            let ghost rows = tests@;
            let raws: Vec<SubjectRaw> = collect_raws(&entries, tests[i].id);
            let totals: GrandTotals = grand_totals(&raws, tests[i].marking);
            tests[i].score_pct = totals.score_pct;
            tests[i].accuracy_pct = totals.accuracy_pct;
            proof {
                assert(test_models(rows)[i as int] == given[i as int]);
                assert forall|k: int| 0 <= k < tests.len() && k != i implies (
                #[trigger] test_models(tests@)[k]) == test_models(rows)[k] by {
                    assert(tests@[k] == rows[k]);
                }
            }
            i = i + 1;
        }
        proof {
            assert(test_models(tests@) =~= derive_all(given, entry_models(entries@)));
            lemma_derive_all(given, entry_models(entries@));
        }
        Ok(Store { tests, entries, templates })
    }

    /// Takes the rows out of the store and leaves it empty.
    pub(crate) fn take_rows(&mut self) -> (rows: (Vec<TestRow>, Vec<EntryRow>, Vec<TemplateRow>))
        ensures
            rows_model(rows.0@, rows.1@, rows.2@) == old(self)@,
            old(self)@.wf(),
            final(self)@ == StoreModel::empty(),
    {
        proof {
            use_type_invariant(&*self);
        }
        let mut taken = Store::new();
        std::mem::swap(self, &mut taken);
        let Store { tests, entries, templates } = taken;
        (tests, entries, templates)
    }

    /// Puts rows into the store in place of what it holds.
    pub(crate) fn put_rows(
        &mut self,
        tests: Vec<TestRow>,
        entries: Vec<EntryRow>,
        templates: Vec<TemplateRow>,
    )
        requires
            rows_model(tests@, entries@, templates@).wf(),
        ensures
            final(self)@ == rows_model(tests@, entries@, templates@),
    {
        *self = Store { tests, entries, templates };
    }

    /// The rows of the store, each relation in ascending order of id.
    pub fn rows(&self) -> (rows: (&Vec<TestRow>, &Vec<EntryRow>, &Vec<TemplateRow>))
        ensures
            rows_model(rows.0@, rows.1@, rows.2@) == self@,
            self@.wf(),
    {
        proof {
            use_type_invariant(self);
        }
        (&self.tests, &self.entries, &self.templates)
    }
}

} // verus!
