//! What holds of the store and of the percentages whatever the inputs:
//! each statement is proved from the definitions of the model.

use vstd::prelude::*;
use crate::aggregate::{
    spec_grand_accuracy_pct, spec_grand_score_pct, sum_attempted, sum_max_score,
};
use crate::invariants::{
    lemma_derive_all, lemma_with_test_created_wf, lemma_without_test_gone, lemma_without_test_wf,
};
use crate::marking::{
    spec_accuracy_pct, spec_attempts_pct, spec_ratio_pct, spec_subject_max_score,
    spec_subject_score_pct, spec_wrong_answers,
};
use crate::model::{
    all_fresh, derive_all, entries_of, listing_order, name_order, not_of_test, other_entry,
    other_test, raws_of, reconfigured, rewritten, test_stored, EntryModel, StoreModel,
};
use crate::models::{
    MarkingConfig, NewTestModel, RecordModel, StatsModel, SubjectRaw, TemplateModel,
};
use crate::seq_lemmas::{lemma_filter_all, lemma_sorted_is_unique};
use crate::text::{lemma_text_less_asymmetric, spec_text_less};

verus! {

/// The question counts that a listing shows for the subjects of a test.
pub open spec fn listed_raws(subjects: Seq<StatsModel>) -> Seq<SubjectRaw> {
    subjects.map_values(|stats: StatsModel| stats.raw)
}

/// A ratio over a denominator of zero is zero, whatever the numerator. So
/// the score percentage of a subject without a possible score, its accuracy
/// where nothing was attempted, its share of attempts where it has no
/// questions, and both grand percentages of a test whose sums are zero, are
/// all zero.
pub proof fn law_zero_denominator_gives_zero(
    numerator: int,
    raw: SubjectRaw,
    raws: Seq<SubjectRaw>,
    marking: MarkingConfig,
)
    ensures
        spec_ratio_pct(numerator, 0) == 0,
        spec_subject_max_score(raw, marking) == 0 ==> spec_subject_score_pct(raw, marking) == 0,
        raw.attempted == 0 ==> spec_accuracy_pct(raw) == 0,
        raw.total == 0 ==> spec_attempts_pct(raw) == 0,
        sum_max_score(raws, marking) == 0 ==> spec_grand_score_pct(raws, marking) == 0,
        sum_attempted(raws) == 0 ==> spec_grand_accuracy_pct(raws) == 0,
        spec_grand_score_pct(Seq::empty(), marking) == 0,
        spec_grand_accuracy_pct(Seq::empty()) == 0,
{
}

/// The wrong answers of a subject are the attempted questions less the
/// correct ones where that is not negative, and zero else.
pub proof fn law_wrong_answers_saturate(attempted: int, correct: int)
    ensures
        spec_wrong_answers(attempted, correct) >= 0,
        spec_wrong_answers(attempted, correct) >= attempted - correct,
        spec_wrong_answers(attempted, correct) == 0 || spec_wrong_answers(attempted, correct)
            == attempted - correct,
{
}

/// Whatever is added to, changed in or deleted from the entries, and
/// whatever test is created, changed or deleted, every test of the store
/// that results has the percentages that the aggregator gives for its
/// entries.
pub proof fn law_operations_leave_no_drift(
    s: StoreModel,
    created: NewTestModel,
    id: int,
    name: Seq<char>,
    raw: SubjectRaw,
    date: Seq<char>,
    test_name: Option<Seq<char>>,
    marking: MarkingConfig,
)
    requires
        s.wf(),
    ensures
        all_fresh(s.with_test_created(created).tests, s.with_test_created(created).entries),
        all_fresh(
            s.with_subject_added(id, name, raw).tests,
            s.with_subject_added(id, name, raw).entries,
        ),
        all_fresh(
            s.with_subject_updated(id, name, raw).tests,
            s.with_subject_updated(id, name, raw).entries,
        ),
        all_fresh(s.without_subject(id).tests, s.without_subject(id).entries),
        all_fresh(
            s.with_test_updated(id, date, test_name, marking).tests,
            s.with_test_updated(id, date, test_name, marking).entries,
        ),
        all_fresh(s.without_test(id).tests, s.without_test(id).entries),
{
    lemma_with_test_created_wf(s, created);
    lemma_derive_all(s.tests, s.with_subject_added(id, name, raw).entries);
    lemma_derive_all(s.tests, rewritten(s.entries, id, name, raw));
    lemma_derive_all(s.tests, s.entries.filter(other_entry(id)));
    lemma_derive_all(reconfigured(s.tests, id, date, test_name, marking), s.entries);
    lemma_without_test_wf(s, id);
}

/// In a listing of a consistent store, the grand percentages of every test
/// are those that the aggregator gives for the question counts listed with
/// that test, under the marking scheme of the test.
pub proof fn law_listing_matches_aggregator(s: StoreModel, records: Seq<RecordModel>, i: int)
    requires
        s.wf(),
        s.is_history(records),
        0 <= i < records.len(),
    ensures
        exists|k: int|
            0 <= k < s.tests.len() && (#[trigger] s.tests[k]).id == records[i].id
                && records[i].total_score_pct == s.tests[k].score_pct
                && records[i].total_accuracy_pct == s.tests[k].accuracy_pct
                && records[i].total_score_pct == spec_grand_score_pct(
                listed_raws(records[i].subjects),
                s.tests[k].marking,
            ) && records[i].total_accuracy_pct == spec_grand_accuracy_pct(
                listed_raws(records[i].subjects),
            ),
{
    let k = choose|k: int|
        0 <= k < s.tests.len() && #[trigger] records[i] == s.record_of(s.tests[k]);
    let test = s.tests[k];
    assert(listed_raws(records[i].subjects) =~= raws_of(s.entries, test.id));
    assert(s.tests[k].id == records[i].id);
}

/// Updating a test with the date, name and marking scheme that it has
/// leaves the store as it is, derived percentages included.
pub proof fn law_update_with_current_values_changes_nothing(s: StoreModel, k: int)
    requires
        s.wf(),
        0 <= k < s.tests.len(),
    ensures
        s.with_test_updated(s.tests[k].id, s.tests[k].date, s.tests[k].name, s.tests[k].marking)
            == s,
{
    let test = s.tests[k];
    let set = reconfigured(s.tests, test.id, test.date, test.name, test.marking);
    assert forall|i: int| 0 <= i < s.tests.len() implies set[i] == s.tests[i] by {
        if i < k {
            assert(s.tests[i].id < s.tests[k].id);
        } else if i > k {
            assert(s.tests[k].id < s.tests[i].id);
        }
    }
    assert(set =~= s.tests);
    assert(derive_all(s.tests, s.entries) =~= s.tests);
}

/// After a test was deleted the store holds neither the test nor an entry
/// of it, and no listing of the store shows a test with that id.
pub proof fn law_delete_test_cascades(s: StoreModel, id: int, records: Seq<RecordModel>)
    requires
        s.wf(),
        s.without_test(id).is_history(records),
    ensures
        s.without_test(id).wf(),
        !s.without_test(id).has_test(id),
        forall|j: int|
            0 <= j < s.without_test(id).entries.len() ==> (#[trigger] s.without_test(
                id,
            ).entries[j]).test_id != id,
        entries_of(s.without_test(id).entries, id) == Seq::<EntryModel>::empty(),
        forall|i: int| 0 <= i < records.len() ==> (#[trigger] records[i]).id != id,
{
    let next = s.without_test(id);
    lemma_without_test_wf(s, id);
    lemma_without_test_gone(s, id);
    assert forall|i: int| 0 <= i < records.len() implies (#[trigger] records[i]).id != id by {
        let k = choose|k: int|
            0 <= k < next.tests.len() && #[trigger] records[i] == next.record_of(next.tests[k]);
        assert(next.tests[k].id != id);
    }
}

/// A store has one listing of its tests and no other: the order of a
/// listing and what it holds leave nothing open.
pub proof fn law_history_is_unique(s: StoreModel, first: Seq<RecordModel>, second: Seq<RecordModel>)
    requires
        s.is_history(first),
        s.is_history(second),
    ensures
        first == second,
{
    assert forall|x: RecordModel| first.contains(x) <==> second.contains(x) by {
        if first.contains(x) {
            let i = choose|i: int| 0 <= i < first.len() && first[i] == x;
            let k = choose|k: int|
                0 <= k < s.tests.len() && #[trigger] first[i] == s.record_of(s.tests[k]);
            assert(second.contains(s.record_of(s.tests[k])));
        }
        if second.contains(x) {
            let i = choose|i: int| 0 <= i < second.len() && second[i] == x;
            let k = choose|k: int|
                0 <= k < s.tests.len() && #[trigger] second[i] == s.record_of(s.tests[k]);
            assert(first.contains(s.record_of(s.tests[k])));
        }
    }
    assert forall|a: RecordModel, b: RecordModel| #[trigger]
        listing_order()(a, b) implies !listing_order()(b, a) by {
        if spec_text_less(b.date, a.date) {
            lemma_text_less_asymmetric(b.date, a.date);
        }
        if spec_text_less(a.date, b.date) {
            lemma_text_less_asymmetric(a.date, b.date);
        }
    }
    lemma_sorted_is_unique(first, second, listing_order());
}

/// A store has one listing of its templates and no other.
pub proof fn law_template_list_is_unique(
    s: StoreModel,
    first: Seq<TemplateModel>,
    second: Seq<TemplateModel>,
)
    requires
        s.is_template_list(first),
        s.is_template_list(second),
    ensures
        first == second,
{
    assert forall|x: TemplateModel| first.contains(x) <==> second.contains(x) by {
        if first.contains(x) {
            let i = choose|i: int| 0 <= i < first.len() && first[i] == x;
            assert(s.templates.contains(first[i]));
            let k = choose|k: int| 0 <= k < s.templates.len() && s.templates[k] == x;
            assert(second.contains(s.templates[k]));
        }
        if second.contains(x) {
            let i = choose|i: int| 0 <= i < second.len() && second[i] == x;
            assert(s.templates.contains(second[i]));
            let k = choose|k: int| 0 <= k < s.templates.len() && s.templates[k] == x;
            assert(first.contains(s.templates[k]));
        }
    }
    assert forall|a: TemplateModel, b: TemplateModel| #[trigger]
        name_order()(a, b) implies !name_order()(b, a) by {
        lemma_text_less_asymmetric(a.name, b.name);
    }
    lemma_sorted_is_unique(first, second, name_order());
}

/// The rows of a consistent store can be taken into a store, and the store
/// that holds them is the one they came from: the percentages computed on
/// loading are those that were stored.
pub proof fn law_reload_changes_nothing(s: StoreModel)
    requires
        s.wf(),
    ensures
        StoreModel::loadable(s.tests, s.entries, s.templates),
        StoreModel::loaded(s.tests, s.entries, s.templates) == s,
{
    assert(derive_all(s.tests, s.entries) =~= s.tests);
}

/// Deleting a test that the store does not hold leaves the store as it is.
pub proof fn law_delete_of_unknown_test_changes_nothing(s: StoreModel, id: int)
    requires
        s.wf(),
        !s.has_test(id),
    ensures
        s.without_test(id) == s,
{
    assert forall|i: int| 0 <= i < s.tests.len() implies other_test(id)(#[trigger] s.tests[i]) by {}
    lemma_filter_all(s.tests, other_test(id));
    assert forall|j: int| 0 <= j < s.entries.len() implies not_of_test(id)(
        #[trigger] s.entries[j],
    ) by {
        assert(test_stored(s.tests, s.entries[j].test_id));
    }
    lemma_filter_all(s.entries, not_of_test(id));
}

} // verus!
