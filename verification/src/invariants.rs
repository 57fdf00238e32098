//! Why the operations of the store keep it consistent: facts about the
//! model on which the proofs of the operations rest.

use vstd::prelude::*;
use crate::model::{
    all_fresh, derive_all, derived, entries_keyed, entries_of, entries_owned, listed_before,
    new_entries, not_of_test, of_test, other_entry, other_template, other_test, raw_of,
    raw_of_subject, raws_of, reconfigured, refreshed, replaced, rewritten, templates_keyed,
    test_stored, tests_keyed, EntryModel, StoreModel, TestModel,
};
use crate::models::{
    MarkingConfig, NewTestModel, RecordModel, SubjectModel, SubjectRaw, TemplateModel,
};
use crate::seq_lemmas::{
    lemma_filter_all, lemma_filter_keeps_order, lemma_filter_none, lemma_filter_one_out,
    lemma_filter_push, lemma_filter_twice, lemma_filter_update_out,
};
use crate::text::{lemma_text_less_total, lemma_text_less_transitive, spec_text_less};

verus! {

/// The question counts of a test after an entry was appended.
pub proof fn lemma_raws_of_push(entries: Seq<EntryModel>, entry: EntryModel, test_id: int)
    ensures
        raws_of(entries.push(entry), test_id) == if entry.test_id == test_id {
            raws_of(entries, test_id).push(entry.raw)
        } else {
            raws_of(entries, test_id)
        },
{
    lemma_filter_push(entries, entry, of_test(test_id));
    if entry.test_id == test_id {
        assert(entries_of(entries, test_id).push(entry).map_values(raw_of()) =~= raws_of(
            entries,
            test_id,
        ).push(entry.raw));
    }
}

/// Computing the percentages of every test anew keeps ids, dates, names
/// and marking schemes, and leaves every test with the percentages of its
/// entries.
pub proof fn lemma_derive_all(tests: Seq<TestModel>, entries: Seq<EntryModel>)
    ensures
        all_fresh(derive_all(tests, entries), entries),
        tests_keyed(tests) ==> tests_keyed(derive_all(tests, entries)),
        entries_owned(tests, entries) ==> entries_owned(derive_all(tests, entries), entries),
        forall|id: int| test_stored(tests, id) <==> test_stored(derive_all(tests, entries), id),
{
    let all = derive_all(tests, entries);
    assert forall|id: int| test_stored(tests, id) <==> test_stored(all, id) by {
        if test_stored(tests, id) {
            let k = choose|k: int| 0 <= k < tests.len() && (#[trigger] tests[k]).id == id;
            assert(all[k].id == id);
        }
        if test_stored(all, id) {
            let k = choose|k: int| 0 <= k < all.len() && (#[trigger] all[k]).id == id;
            assert(tests[k].id == id);
        }
    }
    if tests_keyed(tests) {
        assert forall|i: int, j: int| 0 <= i < j < all.len() implies (#[trigger] all[i]).id < (
        #[trigger] all[j]).id by {
            assert(tests[i].id < tests[j].id);
        }
        assert forall|i: int| 0 <= i < all.len() implies (#[trigger] all[i]).id >= 1 by {
            assert(tests[i].id >= 1);
        }
    }
}

/// Where every test but one already has the percentages of its entries,
/// computing those of that one anew is computing all anew.
pub proof fn lemma_refreshed_is_derive_all(
    tests: Seq<TestModel>,
    entries: Seq<EntryModel>,
    test_id: int,
)
    requires
        forall|i: int|
            0 <= i < tests.len() && (#[trigger] tests[i]).id != test_id ==> tests[i] == derived(
                entries,
                tests[i],
            ),
    ensures
        refreshed(tests, entries, test_id) == derive_all(tests, entries),
{
    assert(refreshed(tests, entries, test_id) =~= derive_all(tests, entries));
}

/// Adding an entry to a stored test keeps the store consistent.
pub proof fn lemma_with_subject_added_wf(
    s: StoreModel,
    test_id: int,
    name: Seq<char>,
    raw: SubjectRaw,
)
    requires
        s.wf(),
        s.has_test(test_id),
    ensures
        s.with_subject_added(test_id, name, raw).wf(),
{
    let next = s.with_subject_added(test_id, name, raw);
    lemma_derive_all(s.tests, next.entries);
    assert forall|j: int| 0 <= j < next.entries.len() implies test_stored(
        s.tests,
        (#[trigger] next.entries[j]).test_id,
    ) by {
        if j < s.entries.len() {
            assert(s.entries[j].test_id == next.entries[j].test_id);
        }
    }
}

/// Adding an entry to one test leaves the percentages of the others as they
/// are.
pub proof fn lemma_with_subject_added_others(
    s: StoreModel,
    entry: EntryModel,
)
    requires
        s.wf(),
    ensures
        forall|i: int|
            0 <= i < s.tests.len() && (#[trigger] s.tests[i]).id != entry.test_id ==> s.tests[i]
                == derived(s.entries.push(entry), s.tests[i]),
{
    assert forall|i: int|
        0 <= i < s.tests.len() && (#[trigger] s.tests[i]).id != entry.test_id implies s.tests[i]
        == derived(s.entries.push(entry), s.tests[i]) by {
        lemma_raws_of_push(s.entries, entry, s.tests[i].id);
    }
}

/// In a consistent store the last test has the highest id.
pub proof fn lemma_last_test_highest(tests: Seq<TestModel>, i: int)
    requires
        tests_keyed(tests),
        0 <= i < tests.len(),
    ensures
        1 <= tests[i].id <= tests.last().id,
{
    if i < tests.len() - 1 {
        assert(tests[i].id < tests[tests.len() - 1].id);
    }
}

/// In a consistent store the last entry has the highest id.
pub proof fn lemma_last_entry_highest(entries: Seq<EntryModel>, i: int)
    requires
        entries_keyed(entries),
        0 <= i < entries.len(),
    ensures
        1 <= entries[i].id <= entries.last().id,
{
    if i < entries.len() - 1 {
        assert(entries[i].id < entries[entries.len() - 1].id);
    }
}

/// No entry of a consistent store belongs to a test whose id is above
/// those in use.
pub proof fn lemma_no_entry_of_unused(s: StoreModel, id: int)
    requires
        s.wf(),
        id >= s.next_test_id(),
    ensures
        entries_of(s.entries, id) == Seq::<EntryModel>::empty(),
{
    assert forall|j: int| 0 <= j < s.entries.len() implies !of_test(id)(#[trigger] s.entries[j]) by {
        let owner = s.entries[j].test_id;
        assert(test_stored(s.tests, owner));
        let k = choose|k: int| 0 <= k < s.tests.len() && (#[trigger] s.tests[k]).id == owner;
        lemma_last_test_highest(s.tests, k);
    }
    lemma_filter_none(s.entries, of_test(id));
}

/// The entries of a test after the entries of another test were appended.
pub proof fn lemma_entries_of_appended(
    entries: Seq<EntryModel>,
    first_id: int,
    owner: int,
    subjects: Seq<SubjectModel>,
    test_id: int,
)
    ensures
        entries_of(entries + new_entries(first_id, owner, subjects), test_id) == if test_id
            == owner {
            entries_of(entries, test_id) + new_entries(first_id, owner, subjects)
        } else {
            entries_of(entries, test_id)
        },
{
    let added = new_entries(first_id, owner, subjects);
    Seq::filter_distributes_over_add(entries, added, of_test(test_id));
    if test_id == owner {
        lemma_filter_all(added, of_test(test_id));
    } else {
        lemma_filter_none(added, of_test(test_id));
        assert(entries_of(entries, test_id) + Seq::<EntryModel>::empty() =~= entries_of(
            entries,
            test_id,
        ));
    }
}

/// The question counts of a new test are those of the subjects given.
pub proof fn lemma_created_raws(s: StoreModel, data: NewTestModel)
    requires
        s.wf(),
    ensures
        raws_of(s.with_test_created(data).entries, s.next_test_id()) == data.subjects.map_values(
            raw_of_subject(),
        ),
{
    let id = s.next_test_id();
    let added = new_entries(s.next_entry_id(), id, data.subjects);
    lemma_no_entry_of_unused(s, id);
    lemma_entries_of_appended(s.entries, s.next_entry_id(), id, data.subjects, id);
    assert(Seq::<EntryModel>::empty() + added =~= added);
    assert(added.map_values(raw_of()) =~= data.subjects.map_values(raw_of_subject()));
}

/// Creating a test leaves every other test as it was.
pub proof fn lemma_created_others(s: StoreModel, data: NewTestModel)
    requires
        s.wf(),
    ensures
        forall|i: int|
            0 <= i < s.tests.len() ==> #[trigger] s.with_test_created(data).tests[i] == s.tests[i],
{
    let next = s.with_test_created(data);
    assert forall|i: int| 0 <= i < s.tests.len() implies #[trigger] next.tests[i]
        == s.tests[i] by {
        lemma_last_test_highest(s.tests, i);
        lemma_entries_of_appended(
            s.entries,
            s.next_entry_id(),
            s.next_test_id(),
            data.subjects,
            s.tests[i].id,
        );
    }
}

/// The ids of the tests still ascend when a test with the next id is
/// appended.
pub proof fn lemma_tests_keyed_push(tests: Seq<TestModel>, test: TestModel)
    requires
        tests_keyed(tests),
        tests.len() == 0 ==> test.id >= 1,
        tests.len() > 0 ==> test.id > tests.last().id,
    ensures
        tests_keyed(tests.push(test)),
{
    let all = tests.push(test);
    assert forall|i: int, j: int| 0 <= i < j < all.len() implies (#[trigger] all[i]).id < (
    #[trigger] all[j]).id by {
        lemma_last_test_highest(tests, i);
        if j < tests.len() {
            assert(tests[i].id < tests[j].id);
        }
    }
    assert forall|i: int| 0 <= i < all.len() implies (#[trigger] all[i]).id >= 1 by {
        if i < tests.len() {
            lemma_last_test_highest(tests, i);
        } else if tests.len() > 0 {
            lemma_last_test_highest(tests, 0);
        }
    }
}

/// The ids of the entries still ascend when entries with the next ids are
/// appended.
pub proof fn lemma_entries_keyed_append(
    entries: Seq<EntryModel>,
    first_id: int,
    owner: int,
    subjects: Seq<SubjectModel>,
)
    requires
        entries_keyed(entries),
        entries.len() == 0 ==> first_id >= 1,
        entries.len() > 0 ==> first_id > entries.last().id,
    ensures
        entries_keyed(entries + new_entries(first_id, owner, subjects)),
{
    let all = entries + new_entries(first_id, owner, subjects);
    assert forall|i: int, j: int| 0 <= i < j < all.len() implies (#[trigger] all[i]).id < (
    #[trigger] all[j]).id by {
        if i < entries.len() {
            lemma_last_entry_highest(entries, i);
            if j < entries.len() {
                assert(entries[i].id < entries[j].id);
            }
        }
    }
    assert forall|i: int| 0 <= i < all.len() implies (#[trigger] all[i]).id >= 1 by {
        if i < entries.len() {
            lemma_last_entry_highest(entries, i);
        } else if entries.len() > 0 {
            lemma_last_entry_highest(entries, 0);
        }
    }
}

/// Every entry still has its test when a test and entries of that test are
/// appended.
pub proof fn lemma_entries_owned_append(
    tests: Seq<TestModel>,
    entries: Seq<EntryModel>,
    test: TestModel,
    first_id: int,
    subjects: Seq<SubjectModel>,
)
    requires
        entries_owned(tests, entries),
    ensures
        entries_owned(tests.push(test), entries + new_entries(first_id, test.id, subjects)),
{
    let all = entries + new_entries(first_id, test.id, subjects);
    let owners = tests.push(test);
    assert forall|j: int| 0 <= j < all.len() implies test_stored(
        owners,
        (#[trigger] all[j]).test_id,
    ) by {
        if j < entries.len() {
            let owner = entries[j].test_id;
            assert(test_stored(tests, owner));
            let k = choose|k: int| 0 <= k < tests.len() && (#[trigger] tests[k]).id == owner;
            assert(owners[k].id == owner);
        } else {
            assert(owners[owners.len() - 1].id == test.id);
        }
    }
}

/// Creating a test keeps the store consistent.
pub proof fn lemma_with_test_created_wf(s: StoreModel, data: NewTestModel)
    requires
        s.wf(),
    ensures
        s.with_test_created(data).wf(),
{
    let id = s.next_test_id();
    let test = TestModel {
        id,
        date: data.date,
        name: data.name,
        marking: data.marking,
        score_pct: 0,
        accuracy_pct: 0,
    };
    let entries = s.entries + new_entries(s.next_entry_id(), id, data.subjects);
    lemma_tests_keyed_push(s.tests, test);
    lemma_entries_keyed_append(s.entries, s.next_entry_id(), id, data.subjects);
    lemma_entries_owned_append(s.tests, s.entries, test, s.next_entry_id(), data.subjects);
    lemma_derive_all(s.tests.push(test), entries);
}

/// Replacing date, name and marking scheme of a test keeps the store
/// consistent, and leaves every other test with the percentages of its
/// entries.
pub proof fn lemma_with_test_updated(
    s: StoreModel,
    id: int,
    date: Seq<char>,
    name: Option<Seq<char>>,
    marking: MarkingConfig,
)
    requires
        s.wf(),
    ensures
        s.with_test_updated(id, date, name, marking).wf(),
        forall|i: int|
            0 <= i < s.tests.len() && (#[trigger] reconfigured(
                s.tests,
                id,
                date,
                name,
                marking,
            )[i]).id != id ==> reconfigured(s.tests, id, date, name, marking)[i] == derived(
                s.entries,
                reconfigured(s.tests, id, date, name, marking)[i],
            ),
{
    let tests = reconfigured(s.tests, id, date, name, marking);
    assert forall|i: int| 0 <= i < tests.len() && (#[trigger] tests[i]).id != id implies tests[i]
        == derived(s.entries, tests[i]) by {
        assert(tests[i] == s.tests[i]);
    }
    assert(tests_keyed(tests)) by {
        assert forall|i: int, j: int| 0 <= i < j < tests.len() implies (#[trigger] tests[i]).id < (
        #[trigger] tests[j]).id by {
            assert(s.tests[i].id < s.tests[j].id);
        }
        assert forall|i: int| 0 <= i < tests.len() implies (#[trigger] tests[i]).id >= 1 by {
            assert(s.tests[i].id >= 1);
        }
    }
    assert(entries_owned(tests, s.entries)) by {
        assert forall|j: int| 0 <= j < s.entries.len() implies test_stored(
            tests,
            (#[trigger] s.entries[j]).test_id,
        ) by {
            let owner = s.entries[j].test_id;
            assert(test_stored(s.tests, owner));
            let k = choose|k: int| 0 <= k < s.tests.len() && (#[trigger] s.tests[k]).id == owner;
            assert(tests[k].id == owner);
        }
    }
    lemma_derive_all(tests, s.entries);
}

/// Where an entry with the id is stored, rewriting it is replacing the
/// entry at its place.
pub proof fn lemma_rewritten_is_update(
    entries: Seq<EntryModel>,
    j: int,
    name: Seq<char>,
    raw: SubjectRaw,
)
    requires
        entries_keyed(entries),
        0 <= j < entries.len(),
    ensures
        rewritten(entries, entries[j].id, name, raw) == entries.update(
            j,
            EntryModel { name, raw, ..entries[j] },
        ),
{
    let id = entries[j].id;
    assert forall|i: int| 0 <= i < entries.len() && i != j implies (#[trigger] entries[i]).id
        != id by {
        if i < j {
            assert(entries[i].id < entries[j].id);
        } else {
            assert(entries[j].id < entries[i].id);
        }
    }
    assert(rewritten(entries, id, name, raw) =~= entries.update(
        j,
        EntryModel { name, raw, ..entries[j] },
    ));
}

/// Replacing name and question counts of an entry keeps the store
/// consistent, and leaves every test but its own with the percentages of
/// its entries.
pub proof fn lemma_with_subject_updated(
    s: StoreModel,
    j: int,
    name: Seq<char>,
    raw: SubjectRaw,
)
    requires
        s.wf(),
        0 <= j < s.entries.len(),
    ensures
        s.with_subject_updated(s.entries[j].id, name, raw).wf(),
        forall|i: int|
            0 <= i < s.tests.len() && (#[trigger] s.tests[i]).id != s.entries[j].test_id
                ==> s.tests[i] == derived(
                rewritten(s.entries, s.entries[j].id, name, raw),
                s.tests[i],
            ),
{
    let entries = rewritten(s.entries, s.entries[j].id, name, raw);
    let entry = EntryModel { name, raw, ..s.entries[j] };
    lemma_rewritten_is_update(s.entries, j, name, raw);
    assert forall|i: int|
        0 <= i < s.tests.len() && (#[trigger] s.tests[i]).id != s.entries[j].test_id implies s.tests[i]
        == derived(entries, s.tests[i]) by {
        lemma_filter_update_out(s.entries, j, entry, of_test(s.tests[i].id));
    }
    assert(entries_keyed(entries)) by {
        assert forall|a: int, b: int| 0 <= a < b < entries.len() implies (#[trigger] entries[a]).id
            < (#[trigger] entries[b]).id by {
            assert(s.entries[a].id < s.entries[b].id);
        }
        assert forall|a: int| 0 <= a < entries.len() implies (#[trigger] entries[a]).id >= 1 by {
            assert(s.entries[a].id >= 1);
        }
    }
    assert(entries_owned(s.tests, entries)) by {
        assert forall|a: int| 0 <= a < entries.len() implies test_stored(
            s.tests,
            (#[trigger] entries[a]).test_id,
        ) by {
            assert(s.entries[a].test_id == entries[a].test_id);
        }
    }
    lemma_derive_all(s.tests, entries);
}

/// The ids of the tests that pass a filter ascend as those of all tests do.
pub proof fn lemma_tests_keyed_filter(tests: Seq<TestModel>, pred: spec_fn(TestModel) -> bool)
    requires
        tests_keyed(tests),
    ensures
        tests_keyed(tests.filter(pred)),
{
    let kept = tests.filter(pred);
    let at = lemma_filter_keeps_order(tests, pred);
    assert forall|i: int, j: int| 0 <= i < j < kept.len() implies (#[trigger] kept[i]).id < (
    #[trigger] kept[j]).id by {
        assert(at[i] < at[j]);
        assert(tests[at[i]].id < tests[at[j]].id);
    }
    assert forall|i: int| 0 <= i < kept.len() implies (#[trigger] kept[i]).id >= 1 by {
        assert(tests[at[i]].id >= 1);
    }
}

/// The ids of the entries that pass a filter ascend as those of all entries
/// do.
pub proof fn lemma_entries_keyed_filter(
    entries: Seq<EntryModel>,
    pred: spec_fn(EntryModel) -> bool,
)
    requires
        entries_keyed(entries),
    ensures
        entries_keyed(entries.filter(pred)),
{
    let kept = entries.filter(pred);
    let at = lemma_filter_keeps_order(entries, pred);
    assert forall|i: int, j: int| 0 <= i < j < kept.len() implies (#[trigger] kept[i]).id < (
    #[trigger] kept[j]).id by {
        assert(at[i] < at[j]);
        assert(entries[at[i]].id < entries[at[j]].id);
    }
    assert forall|i: int| 0 <= i < kept.len() implies (#[trigger] kept[i]).id >= 1 by {
        assert(entries[at[i]].id >= 1);
    }
}

/// The entries that pass a filter have their tests as all entries do.
pub proof fn lemma_entries_owned_filter(
    tests: Seq<TestModel>,
    entries: Seq<EntryModel>,
    pred: spec_fn(EntryModel) -> bool,
)
    requires
        entries_owned(tests, entries),
    ensures
        entries_owned(tests, entries.filter(pred)),
{
    let kept = entries.filter(pred);
    let at = lemma_filter_keeps_order(entries, pred);
    assert forall|j: int| 0 <= j < kept.len() implies test_stored(
        tests,
        (#[trigger] kept[j]).test_id,
    ) by {
        assert(entries[at[j]].test_id == kept[j].test_id);
    }
}

/// Where an entry is stored at a place, the entries with another id are all
/// but the one at that place.
pub proof fn lemma_other_entries_is_remove(entries: Seq<EntryModel>, j: int)
    requires
        entries_keyed(entries),
        0 <= j < entries.len(),
    ensures
        entries.filter(other_entry(entries[j].id)) == entries.remove(j),
{
    let id = entries[j].id;
    assert forall|i: int| 0 <= i < entries.len() && i != j implies other_entry(id)(
        #[trigger] entries[i],
    ) by {
        if i < j {
            assert(entries[i].id < entries[j].id);
        } else {
            assert(entries[j].id < entries[i].id);
        }
    }
    lemma_filter_one_out(entries, other_entry(id), j);
}

/// Deleting an entry keeps the store consistent, and leaves every test but
/// its own with the percentages of its entries.
pub proof fn lemma_without_subject(s: StoreModel, j: int)
    requires
        s.wf(),
        0 <= j < s.entries.len(),
    ensures
        s.without_subject(s.entries[j].id).wf(),
        forall|i: int|
            0 <= i < s.tests.len() && (#[trigger] s.tests[i]).id != s.entries[j].test_id
                ==> s.tests[i] == derived(s.entries.filter(other_entry(s.entries[j].id)), s.tests[i]),
{
    let id = s.entries[j].id;
    let entries = s.entries.filter(other_entry(id));
    assert forall|i: int|
        0 <= i < s.tests.len() && (#[trigger] s.tests[i]).id != s.entries[j].test_id implies s.tests[i]
        == derived(entries, s.tests[i]) by {
        let other = s.tests[i].id;
        assert forall|a: int|
            0 <= a < s.entries.len() && of_test(other)(#[trigger] s.entries[a]) implies other_entry(
            id,
        )(s.entries[a]) by {
            if a < j {
                assert(s.entries[a].id < s.entries[j].id);
            } else if a > j {
                assert(s.entries[j].id < s.entries[a].id);
            }
        }
        lemma_filter_twice(s.entries, other_entry(id), of_test(other));
    }
    lemma_entries_keyed_filter(s.entries, other_entry(id));
    lemma_entries_owned_filter(s.tests, s.entries, other_entry(id));
    lemma_derive_all(s.tests, entries);
}

/// Deleting a test, and with it its entries, keeps the store consistent.
pub proof fn lemma_without_test_wf(s: StoreModel, id: int)
    requires
        s.wf(),
    ensures
        s.without_test(id).wf(),
{
    let next = s.without_test(id);
    lemma_tests_keyed_filter(s.tests, other_test(id));
    lemma_entries_keyed_filter(s.entries, not_of_test(id));
    let test_at = lemma_filter_keeps_order(s.tests, other_test(id));
    let entry_at = lemma_filter_keeps_order(s.entries, not_of_test(id));
    assert(entries_owned(next.tests, next.entries)) by {
        assert forall|j: int| 0 <= j < next.entries.len() implies test_stored(
            next.tests,
            (#[trigger] next.entries[j]).test_id,
        ) by {
            let owner = next.entries[j].test_id;
            assert(s.entries[entry_at[j]].test_id == owner);
            assert(test_stored(s.tests, owner));
            let k = choose|k: int| 0 <= k < s.tests.len() && (#[trigger] s.tests[k]).id == owner;
            assert(other_test(id)(s.tests[k]));
            let i = choose|i: int| 0 <= i < test_at.len() && test_at[i] == k;
            assert(next.tests[i].id == owner);
        }
    }
    assert(all_fresh(next.tests, next.entries)) by {
        assert forall|i: int| 0 <= i < next.tests.len() implies #[trigger] next.tests[i]
            == derived(next.entries, next.tests[i]) by {
            let test = s.tests[test_at[i]];
            assert(test == next.tests[i]);
            assert(test == derived(s.entries, test));
            lemma_filter_twice(s.entries, not_of_test(id), of_test(test.id));
        }
    }
}

/// After a test was deleted the store holds neither the test nor an entry
/// of it.
pub proof fn lemma_without_test_gone(s: StoreModel, id: int)
    ensures
        !s.without_test(id).has_test(id),
        forall|j: int|
            0 <= j < s.without_test(id).entries.len() ==> (#[trigger] s.without_test(
                id,
            ).entries[j]).test_id != id,
        entries_of(s.without_test(id).entries, id) == Seq::<EntryModel>::empty(),
{
    let next = s.without_test(id);
    let test_at = lemma_filter_keeps_order(s.tests, other_test(id));
    let entry_at = lemma_filter_keeps_order(s.entries, not_of_test(id));
    assert forall|i: int| 0 <= i < next.tests.len() implies (#[trigger] next.tests[i]).id
        != id by {
        assert(other_test(id)(s.tests[test_at[i]]));
    }
    assert forall|j: int| 0 <= j < next.entries.len() implies (#[trigger] next.entries[j]).test_id
        != id by {
        assert(not_of_test(id)(s.entries[entry_at[j]]));
    }
    lemma_filter_none(next.entries, of_test(id));
}

/// After an entry was deleted the store does not hold it, and holds one
/// entry less where it held the entry before.
pub proof fn lemma_without_subject_gone(s: StoreModel, id: int)
    requires
        s.wf(),
    ensures
        !s.without_subject(id).has_entry(id),
        s.has_entry(id) ==> s.without_subject(id).entries.len() == s.entries.len() - 1,
{
    let next = s.without_subject(id);
    let at = lemma_filter_keeps_order(s.entries, other_entry(id));
    assert forall|j: int| 0 <= j < next.entries.len() implies (#[trigger] next.entries[j]).id
        != id by {
        assert(other_entry(id)(s.entries[at[j]]));
    }
    if s.has_entry(id) {
        let j = choose|j: int| 0 <= j < s.entries.len() && (#[trigger] s.entries[j]).id == id;
        lemma_other_entries_is_remove(s.entries, j);
    }
}

/// After a template was deleted the store does not hold it.
pub proof fn lemma_without_template_gone(s: StoreModel, id: int)
    ensures
        !s.without_template(id).has_template(id),
{
    let next = s.without_template(id);
    let at = lemma_filter_keeps_order(s.templates, other_template(id));
    assert forall|i: int| 0 <= i < next.templates.len() implies (#[trigger] next.templates[i]).id
        != Some(id) by {
        assert(other_template(id)(s.templates[at[i]]));
    }
}

/// In a consistent store the last template has the highest id.
pub proof fn lemma_last_template_highest(templates: Seq<TemplateModel>, i: int)
    requires
        templates_keyed(templates),
        0 <= i < templates.len(),
    ensures
        templates[i].id is Some,
        1 <= templates[i].id.unwrap() <= templates.last().id.unwrap(),
{
    if i < templates.len() - 1 {
        assert(templates[i].id.unwrap() < templates[templates.len() - 1].id.unwrap());
    }
}

/// Creating a template under a name that no template has keeps the store
/// consistent.
pub proof fn lemma_with_template_created_wf(s: StoreModel, data: TemplateModel)
    requires
        s.wf(),
        !s.name_taken(data.name),
    ensures
        s.with_template_created(data).wf(),
{
    let next = s.with_template_created(data).templates;
    assert forall|i: int, j: int| 0 <= i < j < next.len() implies (#[trigger] next[i]).id.unwrap()
        < (#[trigger] next[j]).id.unwrap() && next[i].name != next[j].name by {
        lemma_last_template_highest(s.templates, i);
        if j < s.templates.len() {
            assert(s.templates[i].id.unwrap() < s.templates[j].id.unwrap());
            assert(s.templates[i].name != s.templates[j].name);
        } else {
            assert(s.templates[i].name != data.name);
        }
    }
    assert forall|i: int| 0 <= i < next.len() implies (#[trigger] next[i]).id is Some
        && next[i].id.unwrap() >= 1 by {
        if i < s.templates.len() {
            lemma_last_template_highest(s.templates, i);
        } else if s.templates.len() > 0 {
            lemma_last_template_highest(s.templates, 0);
        }
    }
}

/// Where a template is stored at a place, replacing the template with its
/// id is replacing the one at that place.
pub proof fn lemma_replaced_is_update(templates: Seq<TemplateModel>, k: int, data: TemplateModel)
    requires
        templates_keyed(templates),
        0 <= k < templates.len(),
    ensures
        replaced(templates, templates[k].id.unwrap(), data) == templates.update(
            k,
            TemplateModel { id: templates[k].id, ..data },
        ),
{
    let id = templates[k].id.unwrap();
    assert forall|i: int| 0 <= i < templates.len() && i != k implies (#[trigger] templates[i]).id
        != Some(id) by {
        if i < k {
            assert(templates[i].id.unwrap() < templates[k].id.unwrap());
        } else {
            assert(templates[k].id.unwrap() < templates[i].id.unwrap());
        }
    }
    assert(replaced(templates, id, data) =~= templates.update(
        k,
        TemplateModel { id: templates[k].id, ..data },
    ));
}

/// Replacing a template under a name that no other template has keeps the
/// store consistent.
pub proof fn lemma_with_template_updated_wf(s: StoreModel, id: int, data: TemplateModel)
    requires
        s.wf(),
        !s.name_taken_by_other(data.name, id),
    ensures
        s.with_template_updated(id, data).wf(),
{
    let next = replaced(s.templates, id, data);
    assert forall|i: int, j: int| 0 <= i < j < next.len() implies (#[trigger] next[i]).id.unwrap()
        < (#[trigger] next[j]).id.unwrap() && next[i].name != next[j].name by {
        assert(s.templates[i].id.unwrap() < s.templates[j].id.unwrap());
        assert(s.templates[i].name != s.templates[j].name);
    }
    assert forall|i: int| 0 <= i < next.len() implies (#[trigger] next[i]).id is Some
        && next[i].id.unwrap() >= 1 by {
        assert(s.templates[i].id is Some);
    }
}

/// Deleting a template keeps the store consistent.
pub proof fn lemma_without_template_wf(s: StoreModel, id: int)
    requires
        s.wf(),
    ensures
        s.without_template(id).wf(),
{
    let kept = s.templates.filter(other_template(id));
    let at = lemma_filter_keeps_order(s.templates, other_template(id));
    assert forall|i: int, j: int| 0 <= i < j < kept.len() implies (#[trigger] kept[i]).id.unwrap()
        < (#[trigger] kept[j]).id.unwrap() && kept[i].name != kept[j].name by {
        assert(at[i] < at[j]);
        assert(s.templates[at[i]].id.unwrap() < s.templates[at[j]].id.unwrap());
        assert(s.templates[at[i]].name != s.templates[at[j]].name);
    }
    assert forall|i: int| 0 <= i < kept.len() implies (#[trigger] kept[i]).id is Some
        && kept[i].id.unwrap() >= 1 by {
        assert(s.templates[at[i]].id is Some);
    }
}

/// Where a template is stored at a place, the templates with another id
/// are all but the one at that place.
pub proof fn lemma_other_templates_is_remove(templates: Seq<TemplateModel>, k: int)
    requires
        templates_keyed(templates),
        0 <= k < templates.len(),
    ensures
        templates.filter(other_template(templates[k].id.unwrap())) == templates.remove(k),
{
    let id = templates[k].id.unwrap();
    assert forall|i: int| 0 <= i < templates.len() && i != k implies other_template(id)(
        #[trigger] templates[i],
    ) by {
        if i < k {
            assert(templates[i].id.unwrap() < templates[k].id.unwrap());
        } else {
            assert(templates[k].id.unwrap() < templates[i].id.unwrap());
        }
    }
    lemma_filter_one_out(templates, other_template(id), k);
}

/// Of two listed tests with different ids one comes before the other.
pub proof fn lemma_listed_total(a: RecordModel, b: RecordModel)
    requires
        a.id != b.id,
    ensures
        listed_before(a, b) || listed_before(b, a),
{
    if a.date != b.date {
        lemma_text_less_total(a.date, b.date);
    }
}

/// The order of a listing is transitive.
pub proof fn lemma_listed_transitive(a: RecordModel, b: RecordModel, c: RecordModel)
    requires
        listed_before(a, b),
        listed_before(b, c),
    ensures
        listed_before(a, c),
{
    if spec_text_less(b.date, a.date) && spec_text_less(c.date, b.date) {
        lemma_text_less_transitive(c.date, b.date, a.date);
    }
}

} // verus!
