//! The listing of the stored tests.

use vstd::prelude::*;
use crate::invariants::{lemma_listed_total, lemma_listed_transitive};
use crate::marking::{accuracy_pct, attempts_pct, subject_score_pct};
use crate::model::{
    entries_of, listed_before, listing_order, of_test, stats_of, stats_under,
};
use crate::models::{
    opt_text, record_models, stats_models, MarkingConfig, RecordModel, SubjectStats, TestRecord,
};
use crate::seq_lemmas::{
    lemma_filter_push, lemma_insert_contains, lemma_insert_keeps_sorted, sorted_by,
};
use crate::store::{entry_models, EntryRow, Store, TestRow};
use crate::text::{marking_display, spec_marking_display, text_less};

verus! {

/// One entry as a listing shows it, with its three percentages.
fn subject_stats(entry: &EntryRow, marking: MarkingConfig) -> (stats: SubjectStats)
    ensures
        stats@ == stats_of(entry.model(), marking),
{
    SubjectStats {
        id: entry.id,
        name: entry.name.clone(),
        attempts_pct: attempts_pct(entry.raw),
        accuracy_pct: accuracy_pct(entry.raw),
        score_pct: subject_score_pct(entry.raw, marking),
        raw: entry.raw,
    }
}

/// The record of one test: what its row holds, the form in which its
/// marking scheme is shown, and its subjects in stored order.
fn record_for(test: &TestRow, entries: &Vec<EntryRow>) -> (record: TestRecord)
    ensures
        record@ == (RecordModel {
            id: test.id as int,
            date: test.date@,
            name: opt_text(test.name),
            marking_config: spec_marking_display(test.marking),
            total_score_pct: test.score_pct as int,
            total_accuracy_pct: test.accuracy_pct as int,
            subjects: entries_of(entry_models(entries@), test.id as int).map_values(
                stats_under(test.marking),
            ),
        }),
{
    let mut subjects: Vec<SubjectStats> = Vec::new();
    let mut j: usize = 0;
    proof {
        reveal(Seq::filter);
        assert(entry_models(entries@).take(0) =~= Seq::empty());
        assert(stats_models(subjects@) =~= entries_of(
            entry_models(entries@).take(0),
            test.id as int,
        ).map_values(stats_under(test.marking)));
    }
    while j < entries.len()
        invariant
            0 <= j <= entries.len(),
            stats_models(subjects@) == entries_of(
                entry_models(entries@).take(j as int),
                test.id as int,
            ).map_values(stats_under(test.marking)),
        decreases entries.len() - j,
    {
        let ghost all = entry_models(entries@);
        let ghost listed = stats_models(subjects@);
        proof {
            lemma_filter_push(all.take(j as int), all[j as int], of_test(test.id as int));
            assert(all.take(j as int).push(all[j as int]) =~= all.take(j as int + 1));
        }
        if entries[j].test_id == test.id {
            let stats = subject_stats(&entries[j], test.marking);
            subjects.push(stats);
            proof {
                assert(stats_models(subjects@) =~= listed.push(stats@));
                assert(entries_of(all.take(j as int), test.id as int).push(
                    all[j as int],
                ).map_values(stats_under(test.marking)) =~= listed.push(stats@));
            }
        }
        j = j + 1;
    }
    proof {
        assert(entry_models(entries@).take(j as int) =~= entry_models(entries@));
    }
    let name: Option<String> = match &test.name {
        Some(n) => Some(n.clone()),
        None => None,
    };
    TestRecord {
        id: test.id,
        date: test.date.clone(),
        name,
        marking_config: marking_display(test.marking),
        total_score_pct: test.score_pct,
        total_accuracy_pct: test.accuracy_pct,
        subjects,
    }
}

/// Whether a record comes before another in a listing.
fn comes_before(a: &TestRecord, b: &TestRecord) -> (before: bool)
    ensures
        before == listed_before(a@, b@),
{
    text_less(b.date.as_str(), a.date.as_str()) || (a.date == b.date && a.id > b.id)
}

/// Lists every stored test with its subjects and percentages: later dates
/// first, and of two tests of one date the one with the higher id first.
/// The subjects of a test stand in the order in which they were entered.
pub fn get_history(store: &Store) -> (records: Vec<TestRecord>)
    ensures
        store@.wf(),
        store@.is_history(record_models(records@)),
{
    let (tests, entries, _templates) = store.rows();
    let ghost s = store@;
    let mut records: Vec<TestRecord> = Vec::new();
    let mut i: usize = 0;
    while i < tests.len()
        invariant
            0 <= i <= tests.len(),
            s.wf(),
            s.tests.len() == tests.len(),
            s.entries == entry_models(entries@),
            forall|k: int| 0 <= k < tests.len() ==> (#[trigger] tests[k]).model() == s.tests[k],
            records.len() == i,
            forall|p: int|
                0 <= p < records.len() ==> exists|k: int|
                    0 <= k < i && #[trigger] record_models(records@)[p] == s.record_of(
                        s.tests[k],
                    ),
            forall|k: int|
                0 <= k < i ==> record_models(records@).contains(
                    s.record_of(#[trigger] s.tests[k]),
                ),
            sorted_by(record_models(records@), listing_order()),
        decreases tests.len() - i,
    {
        let record: TestRecord = record_for(&tests[i], entries);
        let ghost listed = record_models(records@);
        proof {
            assert(s.tests[i as int] == tests[i as int].model());
            assert(record@ == s.record_of(s.tests[i as int]));
        }
        let mut at: usize = 0;
        while at < records.len() && !comes_before(&record, &records[at])
            invariant
                0 <= at <= records.len(),
                listed == record_models(records@),
                forall|q: int| 0 <= q < at ==> !listed_before(record@, #[trigger] listed[q]),
            decreases records.len() - at,
        {
            at = at + 1;
        }
        proof {
            assert forall|q: int| 0 <= q < at implies listing_order()(
                #[trigger] listed[q],
                record@,
            ) by {
                let k = choose|k: int|
                    0 <= k < i && #[trigger] record_models(records@)[q] == s.record_of(s.tests[k]);
                assert(s.tests[k].id < s.tests[i as int].id);
                lemma_listed_total(listed[q], record@);
            }
            assert forall|q: int| at <= q < listed.len() implies listing_order()(
                record@,
                #[trigger] listed[q],
            ) by {
                if q > at {
                    assert(listing_order()(listed[at as int], listed[q]));
                    lemma_listed_transitive(record@, listed[at as int], listed[q]);
                }
            }
            lemma_insert_keeps_sorted(listed, record@, at as int, listing_order());
            lemma_insert_contains(listed, record@, at as int);
        }
        records.insert(at, record);
        proof {
            let after = record_models(records@);
            assert(after =~= listed.insert(at as int, record@));
            assert forall|p: int| 0 <= p < after.len() implies exists|k: int|
                0 <= k < i + 1 && #[trigger] after[p] == s.record_of(s.tests[k]) by {
                if after[p] == record@ {
                    assert(after[p] == s.record_of(s.tests[i as int]));
                } else {
                    let q = choose|q: int| 0 <= q < listed.len() && listed[q] == after[p];
                    let k = choose|k: int|
                        0 <= k < i && #[trigger] listed[q] == s.record_of(s.tests[k]);
                    assert(after[p] == s.record_of(s.tests[k]));
                }
            }
        }
        i = i + 1;
    }
    records
}

} // verus!
