//! The operations of the record store on tests and on their subject
//! entries. Each one either takes place in full, with the derived
//! percentages of the test it touches computed anew, or leaves the store as
//! it was.

use vstd::prelude::*;
use crate::aggregate::{grand_totals, GrandTotals};
use crate::invariants::{
    lemma_created_others, lemma_created_raws, lemma_last_entry_highest, lemma_last_test_highest,
    lemma_other_entries_is_remove, lemma_raws_of_push, lemma_refreshed_is_derive_all,
    lemma_rewritten_is_update, lemma_with_subject_added_others, lemma_with_subject_added_wf,
    lemma_with_subject_updated, lemma_with_test_created_wf, lemma_with_test_updated,
    lemma_without_subject, lemma_without_subject_gone, lemma_without_test_gone,
    lemma_without_test_wf,
};
use crate::model::{
    derived, entries_not_of, new_entries, not_of_test, other_test, raw_of_subject, raws_of,
    reconfigured, refreshed, rewritten, test_stored, EntryModel,
};
use crate::models::{
    opt_text, subject_models, AddSubjectInput, MarkingConfig, StoreError, SubjectInput,
    SubjectRaw, TestInput, UpdateSubjectInput, UpdateTestInput,
};
use crate::seq_lemmas::{lemma_filter_all, lemma_filter_one_out, lemma_filter_push};
use crate::store::{entry_models, rows_model, test_models, EntryRow, Store, TestRow};

verus! {

/// Where the test with this id stands among the rows.
pub(crate) fn find_test(tests: &Vec<TestRow>, id: i64) -> (at: Option<usize>)
    ensures
        match at {
            Some(k) => k < tests.len() && tests[k as int].id == id,
            None => forall|i: int| 0 <= i < tests.len() ==> (#[trigger] tests[i]).id != id,
        },
{
    let mut i: usize = 0;
    while i < tests.len()
        invariant
            0 <= i <= tests.len(),
            forall|j: int| 0 <= j < i ==> (#[trigger] tests[j]).id != id,
        decreases tests.len() - i,
    {
        if tests[i].id == id {
            return Some(i);
        }
        i = i + 1;
    }
    None
}

/// The question counts of the entries that belong to a test.
pub(crate) fn collect_raws(entries: &Vec<EntryRow>, test_id: i64) -> (raws: Vec<SubjectRaw>)
    ensures
        raws@ == raws_of(entry_models(entries@), test_id as int),
{
    let mut raws: Vec<SubjectRaw> = Vec::new();
    let mut j: usize = 0;
    proof {
        assert(entry_models(entries@).take(0) =~= Seq::empty());
        reveal(Seq::filter);
        assert(raws@ =~= raws_of(entry_models(entries@).take(0), test_id as int));
    }
    while j < entries.len()
        invariant
            0 <= j <= entries.len(),
            raws@ == raws_of(entry_models(entries@).take(j as int), test_id as int),
        decreases entries.len() - j,
    {
        proof {
            let all = entry_models(entries@);
            lemma_raws_of_push(all.take(j as int), all[j as int], test_id as int);
            assert(all.take(j as int).push(all[j as int]) =~= all.take(j as int + 1));
        }
        if entries[j].test_id == test_id {
            raws.push(entries[j].raw);
        }
        j = j + 1;
    }
    proof {
        assert(entry_models(entries@).take(j as int) =~= entry_models(entries@));
    }
    raws
}

/// Computes the two percentages of a test anew from its entries and stores
/// them in its row. Fails, and changes nothing, where no test has the id.
pub(crate) fn recalculate_test_stats(
    tests: &mut Vec<TestRow>,
    entries: &Vec<EntryRow>,
    test_id: i64,
) -> (res: Result<(), StoreError>)
    ensures
        res is Ok <==> test_stored(test_models(old(tests)@), test_id as int),
        res is Ok ==> test_models(final(tests)@) == refreshed(
            test_models(old(tests)@),
            entry_models(entries@),
            test_id as int,
        ),
        res is Err ==> res == Err::<(), StoreError>(StoreError::NotFound) && final(tests)@ == old(
            tests,
        )@,
{
    let mut k: usize = 0;
    let mut found: bool = false;
    while k < tests.len()
        invariant
            0 <= k <= tests.len(),
            tests@.len() == old(tests)@.len(),
            found <==> exists|i: int| 0 <= i < k && (#[trigger] old(tests)@[i]).id == test_id,
            !found ==> tests@ == old(tests)@,
            forall|i: int| k <= i < tests.len() ==> tests@[i] == old(tests)@[i],
            forall|i: int|
                0 <= i < k ==> (#[trigger] tests@[i]).model() == if old(tests)@[i].id == test_id {
                    derived(entry_models(entries@), old(tests)@[i].model())
                } else {
                    old(tests)@[i].model()
                },
        decreases tests.len() - k,
    {
        if tests[k].id == test_id {
            let raws: Vec<SubjectRaw> = collect_raws(entries, test_id);
            let totals: GrandTotals = grand_totals(&raws, tests[k].marking);
            tests[k].score_pct = totals.score_pct;
            tests[k].accuracy_pct = totals.accuracy_pct;
            found = true;
        }
        k = k + 1;
    }
    proof {
        let before = test_models(old(tests)@);
        if found {
            let i = choose|i: int| 0 <= i < k && (#[trigger] old(tests)@[i]).id == test_id;
            assert(before[i].id == test_id);
        }
        if test_stored(before, test_id as int) {
            let i = choose|i: int| 0 <= i < before.len() && (#[trigger] before[i]).id == test_id;
            assert(old(tests)@[i].id == test_id);
        }
        assert(test_models(tests@) =~= refreshed(before, entry_models(entries@), test_id as int));
    }
    if found {
        Ok(())
    } else {
        Err(StoreError::NotFound)
    }
}

/// The question counts of the subjects of a new test, in the order given.
fn input_raws(subjects: &Vec<SubjectInput>) -> (raws: Vec<SubjectRaw>)
    ensures
        raws@ == subject_models(subjects@).map_values(raw_of_subject()),
{
    let mut raws: Vec<SubjectRaw> = Vec::new();
    let mut k: usize = 0;
    while k < subjects.len()
        invariant
            0 <= k <= subjects.len(),
            raws@ == subject_models(subjects@).take(k as int).map_values(raw_of_subject()),
        decreases subjects.len() - k,
    {
        raws.push(
            SubjectRaw {
                total: subjects[k].total_q,
                attempted: subjects[k].attempted_q,
                correct: subjects[k].correct_q,
            },
        );
        proof {
            let all = subject_models(subjects@);
            assert(all.take(k as int + 1) =~= all.take(k as int).push(all[k as int]));
            assert(raws@ =~= all.take(k as int + 1).map_values(raw_of_subject()));
        }
        k = k + 1;
    }
    proof {
        assert(subject_models(subjects@).take(k as int) =~= subject_models(subjects@));
    }
    raws
}

/// Creates a test with all its subjects. The percentages of the test are
/// computed from the subjects given. The test gets the next test id and the
/// subjects the next entry ids, in the order given. Fails, and changes
/// nothing, where the ids have run out.
pub fn create_entry(store: &mut Store, data: TestInput) -> (res: Result<(), StoreError>)
    ensures
        final(store)@.wf(),
        res is Ok <==> old(store)@.can_take_test(data.subjects@.len()),
        res is Ok ==> final(store)@ == old(store)@.with_test_created(data@),
        res is Err ==> res == Err::<(), StoreError>(StoreError::StorageError) && final(store)@
            == old(store)@,
{
    let (mut tests, mut entries, templates) = store.take_rows();
    let ghost before = rows_model(tests@, entries@, templates@);
    let last_test: i64 = if tests.len() == 0 {
        0
    } else {
        tests[tests.len() - 1].id
    };
    let last_entry: i64 = if entries.len() == 0 {
        0
    } else {
        entries[entries.len() - 1].id
    };
    proof {
        if tests.len() > 0 {
            assert(before.tests.last() == tests@.last().model());
            lemma_last_test_highest(before.tests, 0);
        }
        if entries.len() > 0 {
            assert(before.entries.last() == entries@.last().model());
            lemma_last_entry_highest(before.entries, 0);
        }
        assert(before.next_test_id() == last_test + 1);
        assert(before.next_entry_id() == last_entry + 1);
    }
    if last_test == i64::MAX || last_entry as i128 + data.subjects.len() as i128 > i64::MAX as i128 {
        store.put_rows(tests, entries, templates);
        return Err(StoreError::StorageError);
    }
    let id: i64 = last_test + 1;
    let marking = MarkingConfig {
        correct_points: data.correct_points,
        wrong_points: data.wrong_points,
        is_negative: data.is_negative,
    };
    let raws: Vec<SubjectRaw> = input_raws(&data.subjects);
    let totals: GrandTotals = grand_totals(&raws, marking);
    let ghost added = new_entries(last_entry + 1, id as int, data@.subjects);
    let mut k: usize = 0;
    while k < data.subjects.len()
        invariant
            0 <= k <= data.subjects.len(),
            0 <= last_entry,
            last_entry + data.subjects.len() <= i64::MAX,
            added == new_entries(last_entry + 1, id as int, data@.subjects),
            entry_models(entries@) == before.entries + added.take(k as int),
        decreases data.subjects.len() - k,
    {
        let ghost so_far = entry_models(entries@);
        let subject = &data.subjects[k];
        let row = EntryRow {
            id: last_entry + 1 + k as i64,
            test_id: id,
            name: subject.name.clone(),
            raw: SubjectRaw {
                total: subject.total_q,
                attempted: subject.attempted_q,
                correct: subject.correct_q,
            },
        };
        proof {
            assert(row.model() == added[k as int]);
        }
        entries.push(row);
        proof {
            assert(entry_models(entries@) =~= so_far.push(added[k as int]));
            assert(added.take(k as int + 1) =~= added.take(k as int).push(added[k as int]));
            assert(so_far.push(added[k as int]) =~= before.entries + added.take(k as int + 1));
        }
        k = k + 1;
    }
    tests.push(
        TestRow {
            id,
            date: data.date,
            name: data.name,
            marking,
            score_pct: totals.score_pct,
            accuracy_pct: totals.accuracy_pct,
        },
    );
    proof {
        let after = before.with_test_created(data@);
        assert(added.take(k as int) =~= added);
        assert(entry_models(entries@) == after.entries);
        lemma_with_test_created_wf(before, data@);
        lemma_created_raws(before, data@);
        lemma_created_others(before, data@);
        assert(test_models(tests@) =~= after.tests);
    }
    store.put_rows(tests, entries, templates);
    Ok(())
}

/// Adds one subject entry to a stored test and computes the percentages of
/// the test anew.
pub fn add_subject(store: &mut Store, data: AddSubjectInput) -> (res: Result<(), StoreError>)
    ensures
        final(store)@.wf(),
        res is Ok <==> old(store)@.has_test(data.test_id as int) && old(store)@.next_entry_id()
            <= i64::MAX,
        res is Ok ==> final(store)@ == old(store)@.with_subject_added(
            data.test_id as int,
            data.name@,
            data.raw(),
        ),
        res is Err ==> final(store)@ == old(store)@,
        res == Err::<(), StoreError>(StoreError::NotFound) <==> !old(store)@.has_test(
            data.test_id as int,
        ),
        res == Err::<(), StoreError>(StoreError::StorageError) <==> old(store)@.has_test(
            data.test_id as int,
        ) && old(store)@.next_entry_id() > i64::MAX,
{
    let (mut tests, mut entries, templates) = store.take_rows();
    let ghost before = rows_model(tests@, entries@, templates@);
    let found: Option<usize> = find_test(&tests, data.test_id);
    if found.is_none() {
        store.put_rows(tests, entries, templates);
        return Err(StoreError::NotFound);
    }
    proof {
        assert(before.tests[found.unwrap() as int].id == data.test_id);
        if entries.len() > 0 {
            assert(before.entries.last() == entries@.last().model());
        }
    }
    if entries.len() > 0 && entries[entries.len() - 1].id == i64::MAX {
        store.put_rows(tests, entries, templates);
        return Err(StoreError::StorageError);
    }
    let id: i64 = if entries.len() == 0 {
        1
    } else {
        entries[entries.len() - 1].id + 1
    };
    let raw = SubjectRaw {
        total: data.total_q,
        attempted: data.attempted_q,
        correct: data.correct_q,
    };
    let ghost entry = EntryModel { id: id as int, test_id: data.test_id as int, name: data.name@, raw };
    entries.push(EntryRow { id, test_id: data.test_id, name: data.name, raw });
    let refreshed = recalculate_test_stats(&mut tests, &entries, data.test_id);
    proof {
        let after = before.with_subject_added(data.test_id as int, data.name@, data.raw());
        assert(entry_models(entries@) =~= before.entries.push(entry));
        lemma_with_subject_added_wf(before, data.test_id as int, data.name@, data.raw());
        lemma_with_subject_added_others(before, entry);
        lemma_refreshed_is_derive_all(before.tests, after.entries, data.test_id as int);
    }
    store.put_rows(tests, entries, templates);
    refreshed
}

/// Where the entry with this id stands among the rows.
pub(crate) fn find_entry(entries: &Vec<EntryRow>, id: i64) -> (at: Option<usize>)
    ensures
        match at {
            Some(j) => j < entries.len() && entries[j as int].id == id,
            None => forall|i: int| 0 <= i < entries.len() ==> (#[trigger] entries[i]).id != id,
        },
{
    let mut i: usize = 0;
    while i < entries.len()
        invariant
            0 <= i <= entries.len(),
            forall|j: int| 0 <= j < i ==> (#[trigger] entries[j]).id != id,
        decreases entries.len() - i,
    {
        if entries[i].id == id {
            return Some(i);
        }
        i = i + 1;
    }
    None
}

/// Replaces date, name and marking scheme of a stored test and computes its
/// percentages anew from its entries.
pub fn update_test(store: &mut Store, data: UpdateTestInput) -> (res: Result<(), StoreError>)
    ensures
        final(store)@.wf(),
        res is Ok <==> old(store)@.has_test(data.id as int),
        res is Ok ==> final(store)@ == old(store)@.with_test_updated(
            data.id as int,
            data.date@,
            opt_text(data.name),
            data.marking(),
        ),
        res is Err ==> res == Err::<(), StoreError>(StoreError::NotFound) && final(store)@ == old(
            store,
        )@,
{
    let (mut tests, entries, templates) = store.take_rows();
    let ghost before = rows_model(tests@, entries@, templates@);
    let found: Option<usize> = find_test(&tests, data.id);
    if found.is_none() {
        proof {
            if before.has_test(data.id as int) {
                let i = choose|i: int|
                    0 <= i < before.tests.len() && (#[trigger] before.tests[i]).id == data.id;
                assert(tests[i].id == data.id);
            }
        }
        store.put_rows(tests, entries, templates);
        return Err(StoreError::NotFound);
    }
    let k: usize = found.unwrap();
    let ghost date = data.date@;
    let ghost name = opt_text(data.name);
    let ghost marking = data.marking();
    tests[k].date = data.date;
    tests[k].name = data.name;
    tests[k].marking = MarkingConfig {
        correct_points: data.correct_points,
        wrong_points: data.wrong_points,
        is_negative: data.is_negative,
    };
    proof {
        assert(before.tests[k as int].id == data.id);
        assert forall|i: int| 0 <= i < before.tests.len() && i != k implies (
        #[trigger] before.tests[i]).id != data.id by {
            if i < k {
                assert(before.tests[i].id < before.tests[k as int].id);
            } else {
                assert(before.tests[k as int].id < before.tests[i].id);
            }
        }
        assert(test_models(tests@) =~= reconfigured(
            before.tests,
            data.id as int,
            date,
            name,
            marking,
        ));
    }
    let refreshed = recalculate_test_stats(&mut tests, &entries, data.id);
    proof {
        let set = reconfigured(before.tests, data.id as int, date, name, marking);
        assert(set[k as int].id == data.id);
        lemma_with_test_updated(before, data.id as int, date, name, marking);
        lemma_refreshed_is_derive_all(set, before.entries, data.id as int);
    }
    store.put_rows(tests, entries, templates);
    refreshed
}

/// Deletes a test and, with it, its entries. Where no test has the id the
/// store stays as it is, and that is no failure.
pub fn delete_test(store: &mut Store, id: i64) -> (res: Result<(), StoreError>)
    ensures
        final(store)@.wf(),
        res is Ok,
        final(store)@ == old(store)@.without_test(id as int),
        !old(store)@.has_test(id as int) ==> final(store)@ == old(store)@,
        !final(store)@.has_test(id as int),
        forall|j: int|
            0 <= j < final(store)@.entries.len() ==> (#[trigger] final(store)@.entries[j]).test_id
                != id,
{
    let (mut tests, mut entries, templates) = store.take_rows();
    let ghost before = rows_model(tests@, entries@, templates@);
    let found: Option<usize> = find_test(&tests, id);
    match found {
        Some(k) => {
            proof {
                assert(before.tests[k as int].id == id);
                assert forall|i: int| 0 <= i < before.tests.len() && i != k implies other_test(
                    id as int,
                )(#[trigger] before.tests[i]) by {
                    if i < k {
                        assert(before.tests[i].id < before.tests[k as int].id);
                    } else {
                        assert(before.tests[k as int].id < before.tests[i].id);
                    }
                }
                lemma_filter_one_out(before.tests, other_test(id as int), k as int);
            }
            tests.remove(k);
            proof {
                assert(test_models(tests@) =~= before.tests.remove(k as int));
            }
        },
        None => {
            proof {
                assert forall|i: int| 0 <= i < before.tests.len() implies other_test(id as int)(
                    #[trigger] before.tests[i],
                ) by {
                    assert(tests[i].id != id);
                }
                lemma_filter_all(before.tests, other_test(id as int));
                assert forall|j: int| 0 <= j < before.entries.len() implies not_of_test(
                    id as int,
                )(#[trigger] before.entries[j]) by {
                    let owner = before.entries[j].test_id;
                    assert(test_stored(before.tests, owner));
                    let i = choose|i: int|
                        0 <= i < before.tests.len() && (#[trigger] before.tests[i]).id == owner;
                    assert(tests[i].id != id);
                }
                lemma_filter_all(before.entries, not_of_test(id as int));
                assert(!before.has_test(id as int)) by {
                    if before.has_test(id as int) {
                        let i = choose|i: int|
                            0 <= i < before.tests.len() && (#[trigger] before.tests[i]).id == id;
                        assert(tests[i].id != id);
                    }
                }
            }
        },
    }
    let mut j: usize = 0;
    let ghost mut done: int = 0;
    proof {
        reveal(Seq::filter);
        assert(before.entries.take(0) =~= Seq::empty());
        assert(entry_models(entries@).take(0) =~= Seq::empty());
    }
    while j < entries.len()
        invariant
            0 <= j <= entries.len(),
            0 <= done <= before.entries.len(),
            entries.len() - j == before.entries.len() - done,
            entry_models(entries@).take(j as int) == entries_not_of(
                before.entries.take(done),
                id as int,
            ),
            forall|m: int|
                j <= m < entries.len() ==> (#[trigger] entries@[m]).model() == before.entries[m - j
                    + done],
        decreases entries.len() - j,
    {
        let ghost rows = entry_models(entries@);
        proof {
            lemma_filter_push(
                before.entries.take(done),
                before.entries[done],
                not_of_test(id as int),
            );
            assert(before.entries.take(done).push(before.entries[done]) =~= before.entries.take(
                done + 1,
            ));
            assert(entries@[j as int].model() == before.entries[done]);
        }
        if entries[j].test_id == id {
            entries.remove(j);
            proof {
                assert(entry_models(entries@).take(j as int) =~= rows.take(j as int));
                assert forall|m: int| j <= m < entries.len() implies (
                #[trigger] entries@[m]).model() == before.entries[m - j + done + 1] by {
                    assert(entries@[m].model() == rows[m + 1]);
                }
            }
        } else {
            proof {
                assert(rows.take(j as int + 1) =~= rows.take(j as int).push(rows[j as int]));
            }
            j = j + 1;
        }
        proof {
            done = done + 1;
        }
    }
    proof {
        assert(before.entries.take(done) =~= before.entries);
        assert(entry_models(entries@).take(j as int) =~= entry_models(entries@));
        lemma_without_test_wf(before, id as int);
        lemma_without_test_gone(before, id as int);
    }
    store.put_rows(tests, entries, templates);
    Ok(())
}

/// Replaces name and question counts of a stored entry and computes the
/// percentages of its test anew.
pub fn update_subject(store: &mut Store, data: UpdateSubjectInput) -> (res: Result<
    (),
    StoreError,
>)
    ensures
        final(store)@.wf(),
        res is Ok <==> old(store)@.has_entry(data.id as int),
        res is Ok ==> final(store)@ == old(store)@.with_subject_updated(
            data.id as int,
            data.name@,
            data.raw(),
        ),
        res is Err ==> res == Err::<(), StoreError>(StoreError::NotFound) && final(store)@ == old(
            store,
        )@,
{
    let (mut tests, mut entries, templates) = store.take_rows();
    let ghost before = rows_model(tests@, entries@, templates@);
    let found: Option<usize> = find_entry(&entries, data.id);
    if found.is_none() {
        proof {
            if before.has_entry(data.id as int) {
                let i = choose|i: int|
                    0 <= i < before.entries.len() && (#[trigger] before.entries[i]).id == data.id;
                assert(entries[i].id == data.id);
            }
        }
        store.put_rows(tests, entries, templates);
        return Err(StoreError::NotFound);
    }
    let j: usize = found.unwrap();
    let owner: i64 = entries[j].test_id;
    let ghost name = data.name@;
    entries[j].name = data.name;
    entries[j].raw = SubjectRaw {
        total: data.total_q,
        attempted: data.attempted_q,
        correct: data.correct_q,
    };
    proof {
        assert(before.entries[j as int].id == data.id);
        lemma_rewritten_is_update(before.entries, j as int, name, data.raw());
        assert(entry_models(entries@) =~= rewritten(
            before.entries,
            data.id as int,
            name,
            data.raw(),
        ));
        assert(test_stored(before.tests, before.entries[j as int].test_id));
    }
    let refreshed = recalculate_test_stats(&mut tests, &entries, owner);
    proof {
        lemma_with_subject_updated(before, j as int, name, data.raw());
        lemma_refreshed_is_derive_all(before.tests, entry_models(entries@), owner as int);
    }
    store.put_rows(tests, entries, templates);
    refreshed
}

/// Deletes a stored entry and computes the percentages of its test anew.
pub fn delete_subject(store: &mut Store, id: i64) -> (res: Result<(), StoreError>)
    ensures
        final(store)@.wf(),
        res is Ok <==> old(store)@.has_entry(id as int),
        res is Ok ==> final(store)@ == old(store)@.without_subject(id as int),
        res is Ok ==> final(store)@.entries.len() == old(store)@.entries.len() - 1,
        res is Err ==> res == Err::<(), StoreError>(StoreError::NotFound) && final(store)@ == old(
            store,
        )@,
        !final(store)@.has_entry(id as int),
{
    let (mut tests, mut entries, templates) = store.take_rows();
    let ghost before = rows_model(tests@, entries@, templates@);
    let found: Option<usize> = find_entry(&entries, id);
    if found.is_none() {
        proof {
            if before.has_entry(id as int) {
                let i = choose|i: int|
                    0 <= i < before.entries.len() && (#[trigger] before.entries[i]).id == id;
                assert(entries[i].id == id);
            }
        }
        store.put_rows(tests, entries, templates);
        return Err(StoreError::NotFound);
    }
    let j: usize = found.unwrap();
    let owner: i64 = entries[j].test_id;
    proof {
        assert(before.entries[j as int].id == id);
        assert(test_stored(before.tests, before.entries[j as int].test_id));
        lemma_other_entries_is_remove(before.entries, j as int);
    }
    entries.remove(j);
    proof {
        assert(entry_models(entries@) =~= before.entries.remove(j as int));
    }
    let refreshed = recalculate_test_stats(&mut tests, &entries, owner);
    proof {
        lemma_without_subject(before, j as int);
        lemma_without_subject_gone(before, id as int);
        lemma_refreshed_is_derive_all(before.tests, entry_models(entries@), owner as int);
    }
    store.put_rows(tests, entries, templates);
    refreshed
}

} // verus!
