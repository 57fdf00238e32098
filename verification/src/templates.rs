//! The operations of the template store. A template is a named preset of a
//! marking scheme and a list of subjects; no two templates have one name.

use vstd::prelude::*;
use crate::invariants::{
    lemma_other_templates_is_remove, lemma_replaced_is_update, lemma_with_template_created_wf,
    lemma_with_template_updated_wf, lemma_without_template_gone, lemma_without_template_wf,
};
use crate::model::{name_order, other_template, replaced};
use crate::models::{
    preset_models, template_models, MarkingConfig, StoreError, TemplateDTO, TemplateSubjectJson,
};
use crate::seq_lemmas::{
    lemma_filter_all, lemma_insert_contains, lemma_insert_keeps_sorted, sorted_by,
};
use crate::store::{rows_model, template_row_models, Store, TemplateRow};
use crate::text::{
    lemma_text_less_total, lemma_text_less_transitive, spec_text_less, text_less,
};

verus! {

/// Where the template with this id stands among the rows.
pub(crate) fn find_template(templates: &Vec<TemplateRow>, id: i64) -> (at: Option<usize>)
    ensures
        match at {
            Some(k) => k < templates.len() && templates[k as int].id == id,
            None => forall|i: int| 0 <= i < templates.len() ==> (#[trigger] templates[i]).id != id,
        },
{
    let mut i: usize = 0;
    while i < templates.len()
        invariant
            0 <= i <= templates.len(),
            forall|j: int| 0 <= j < i ==> (#[trigger] templates[j]).id != id,
        decreases templates.len() - i,
    {
        if templates[i].id == id {
            return Some(i);
        }
        i = i + 1;
    }
    None
}

/// Whether a template other than the one at `skip` has the name.
fn name_in_use(templates: &Vec<TemplateRow>, name: &String, skip: Option<usize>) -> (used: bool)
    ensures
        used <==> exists|i: int|
            0 <= i < templates.len() && Some(i as usize) != skip && (#[trigger] templates[i]).name@
                == name@,
{
    let mut i: usize = 0;
    while i < templates.len()
        invariant
            0 <= i <= templates.len(),
            forall|j: int|
                0 <= j < i && Some(j as usize) != skip ==> (#[trigger] templates[j]).name@
                    != name@,
        decreases templates.len() - i,
    {
        let skipped: bool = match skip {
            Some(k) => k == i,
            None => false,
        };
        if !skipped && templates[i].name == *name {
            return true;
        }
        i = i + 1;
    }
    false
}

/// Creates a template under the next template id; an id that the data
/// carries is not used. Fails, and changes nothing, where a template
/// already has the name, or where the ids have run out.
pub fn create_template(store: &mut Store, data: TemplateDTO) -> (res: Result<(), StoreError>)
    ensures
        final(store)@.wf(),
        res is Ok <==> !old(store)@.name_taken(data.name@) && old(store)@.next_template_id()
            <= i64::MAX,
        res is Ok ==> final(store)@ == old(store)@.with_template_created(data@),
        res is Err ==> final(store)@ == old(store)@,
        res == Err::<(), StoreError>(StoreError::DuplicateName) <==> old(store)@.name_taken(
            data.name@,
        ),
        res == Err::<(), StoreError>(StoreError::StorageError) <==> !old(store)@.name_taken(
            data.name@,
        ) && old(store)@.next_template_id() > i64::MAX,
{
    let (tests, entries, mut templates) = store.take_rows();
    let ghost before = rows_model(tests@, entries@, templates@);
    let taken: bool = name_in_use(&templates, &data.name, None);
    proof {
        if taken {
            let i = choose|i: int|
                0 <= i < templates.len() && (#[trigger] templates[i]).name@ == data.name@;
            assert(before.templates[i].name == data.name@);
        }
        if before.name_taken(data.name@) {
            let i = choose|i: int|
                0 <= i < before.templates.len() && (#[trigger] before.templates[i]).name
                    == data.name@;
            assert(templates[i].name@ == data.name@);
        }
        if templates.len() > 0 {
            assert(before.templates.last() == templates@.last().model());
        }
    }
    if taken {
        store.put_rows(tests, entries, templates);
        return Err(StoreError::DuplicateName);
    }
    if templates.len() > 0 && templates[templates.len() - 1].id == i64::MAX {
        store.put_rows(tests, entries, templates);
        return Err(StoreError::StorageError);
    }
    let id: i64 = if templates.len() == 0 {
        1
    } else {
        templates[templates.len() - 1].id + 1
    };
    let row = TemplateRow {
        id,
        name: data.name,
        marking: MarkingConfig {
            correct_points: data.correct_points,
            wrong_points: data.wrong_points,
            is_negative: data.is_negative,
        },
        subjects: data.subjects,
    };
    templates.push(row);
    proof {
        let after = before.with_template_created(data@);
        assert(template_row_models(templates@) =~= after.templates);
        lemma_with_template_created_wf(before, data@);
    }
    store.put_rows(tests, entries, templates);
    Ok(())
}

/// Replaces name, marking scheme and subjects of the template whose id the
/// data carries. Fails, and changes nothing, where the data carries no id
/// or no template has it, and where another template has the name.
pub fn update_template(store: &mut Store, data: TemplateDTO) -> (res: Result<(), StoreError>)
    ensures
        final(store)@.wf(),
        res is Ok <==> data.id is Some && old(store)@.has_template(data.id.unwrap() as int)
            && !old(store)@.name_taken_by_other(data.name@, data.id.unwrap() as int),
        res is Ok ==> final(store)@ == old(store)@.with_template_updated(
            data.id.unwrap() as int,
            data@,
        ),
        res is Err ==> final(store)@ == old(store)@,
        res == Err::<(), StoreError>(StoreError::NotFound) <==> data.id is None || !old(
            store,
        )@.has_template(data.id.unwrap() as int),
        res == Err::<(), StoreError>(StoreError::DuplicateName) <==> data.id is Some && old(
            store,
        )@.has_template(data.id.unwrap() as int) && old(store)@.name_taken_by_other(
            data.name@,
            data.id.unwrap() as int,
        ),
{
    let (tests, entries, mut templates) = store.take_rows();
    let ghost before = rows_model(tests@, entries@, templates@);
    let found: Option<usize> = match data.id {
        Some(id) => find_template(&templates, id),
        None => None,
    };
    proof {
        if data.id is Some {
            let id = data.id.unwrap();
            if found is Some {
                assert(before.templates[found.unwrap() as int].id == Some(id as int));
            }
            if before.has_template(id as int) {
                let i = choose|i: int|
                    0 <= i < before.templates.len() && (#[trigger] before.templates[i]).id == Some(
                        id as int,
                    );
                assert(templates[i].id == id);
            }
        }
    }
    if found.is_none() {
        store.put_rows(tests, entries, templates);
        return Err(StoreError::NotFound);
    }
    let k: usize = found.unwrap();
    let id: i64 = templates[k].id;
    let taken: bool = name_in_use(&templates, &data.name, Some(k));
    proof {
        assert forall|i: int| 0 <= i < before.templates.len() && i != k implies (
        #[trigger] before.templates[i]).id != Some(id as int) by {
            if i < k {
                assert(before.templates[i].id.unwrap() < before.templates[k as int].id.unwrap());
            } else {
                assert(before.templates[k as int].id.unwrap() < before.templates[i].id.unwrap());
            }
        }
        if taken {
            let i = choose|i: int|
                0 <= i < templates.len() && Some(i as usize) != Some(k) && (
                #[trigger] templates[i]).name@ == data.name@;
            assert(before.templates[i].name == data.name@);
        }
        if before.name_taken_by_other(data.name@, id as int) {
            let i = choose|i: int|
                0 <= i < before.templates.len() && (#[trigger] before.templates[i]).name
                    == data.name@ && before.templates[i].id != Some(id as int);
            assert(templates[i].name@ == data.name@);
        }
    }
    if taken {
        store.put_rows(tests, entries, templates);
        return Err(StoreError::DuplicateName);
    }
    proof {
        lemma_replaced_is_update(before.templates, k as int, data@);
    }
    templates[k].name = data.name;
    templates[k].marking = MarkingConfig {
        correct_points: data.correct_points,
        wrong_points: data.wrong_points,
        is_negative: data.is_negative,
    };
    templates[k].subjects = data.subjects;
    proof {
        assert(template_row_models(templates@) =~= replaced(before.templates, id as int, data@));
        lemma_with_template_updated_wf(before, id as int, data@);
    }
    store.put_rows(tests, entries, templates);
    Ok(())
}

/// Deletes a template. Where no template has the id the store stays as it
/// is, and that is no failure.
pub fn delete_template(store: &mut Store, id: i64) -> (res: Result<(), StoreError>)
    ensures
        final(store)@.wf(),
        res is Ok,
        final(store)@ == old(store)@.without_template(id as int),
        !old(store)@.has_template(id as int) ==> final(store)@ == old(store)@,
        !final(store)@.has_template(id as int),
{
    let (tests, entries, mut templates) = store.take_rows();
    let ghost before = rows_model(tests@, entries@, templates@);
    match find_template(&templates, id) {
        Some(k) => {
            proof {
                assert(before.templates[k as int].id == Some(id as int));
                lemma_other_templates_is_remove(before.templates, k as int);
            }
            templates.remove(k);
            proof {
                assert(template_row_models(templates@) =~= before.templates.remove(k as int));
            }
        },
        None => {
            proof {
                assert forall|i: int| 0 <= i < before.templates.len() implies other_template(
                    id as int,
                )(#[trigger] before.templates[i]) by {
                    assert(templates[i].id != id);
                }
                lemma_filter_all(before.templates, other_template(id as int));
            }
        },
    }
    proof {
        lemma_without_template_wf(before, id as int);
        lemma_without_template_gone(before, id as int);
        if !before.has_template(id as int) {
            assert forall|i: int| 0 <= i < before.templates.len() implies other_template(
                id as int,
            )(#[trigger] before.templates[i]) by {}
            lemma_filter_all(before.templates, other_template(id as int));
        }
    }
    store.put_rows(tests, entries, templates);
    Ok(())
}

/// A copy of subject presets.
fn copy_presets(presets: &Vec<TemplateSubjectJson>) -> (copy: Vec<TemplateSubjectJson>)
    ensures
        preset_models(copy@) == preset_models(presets@),
{
    let mut copy: Vec<TemplateSubjectJson> = Vec::new();
    let mut i: usize = 0;
    while i < presets.len()
        invariant
            0 <= i <= presets.len(),
            preset_models(copy@) == preset_models(presets@).take(i as int),
        decreases presets.len() - i,
    {
        let ghost so_far = preset_models(copy@);
        copy.push(
            TemplateSubjectJson {
                name: presets[i].name.clone(),
                default_total: presets[i].default_total,
            },
        );
        proof {
            let all = preset_models(presets@);
            assert(preset_models(copy@) =~= so_far.push(all[i as int]));
            assert(all.take(i as int + 1) =~= all.take(i as int).push(all[i as int]));
        }
        i = i + 1;
    }
    proof {
        assert(preset_models(presets@).take(i as int) =~= preset_models(presets@));
    }
    copy
}

/// Lists every stored template once, in ascending order of name.
pub fn get_templates(store: &Store) -> (list: Vec<TemplateDTO>)
    ensures
        store@.wf(),
        store@.is_template_list(template_models(list@)),
{
    let (_tests, _entries, templates) = store.rows();
    let ghost s = store@;
    let mut list: Vec<TemplateDTO> = Vec::new();
    let mut i: usize = 0;
    while i < templates.len()
        invariant
            0 <= i <= templates.len(),
            s.wf(),
            s.templates == template_row_models(templates@),
            list.len() == i,
            forall|p: int|
                0 <= p < list.len() ==> exists|k: int|
                    0 <= k < i && #[trigger] template_models(list@)[p] == s.templates[k],
            forall|k: int|
                0 <= k < i ==> template_models(list@).contains(#[trigger] s.templates[k]),
            sorted_by(template_models(list@), name_order()),
        decreases templates.len() - i,
    {
        let row = &templates[i];
        let template = TemplateDTO {
            id: Some(row.id),
            name: row.name.clone(),
            correct_points: row.marking.correct_points,
            wrong_points: row.marking.wrong_points,
            is_negative: row.marking.is_negative,
            subjects: copy_presets(&row.subjects),
        };
        let ghost listed = template_models(list@);
        proof {
            assert(template@ == s.templates[i as int]);
        }
        let mut at: usize = 0;
        while at < list.len() && !text_less(template.name.as_str(), list[at].name.as_str())
            invariant
                0 <= at <= list.len(),
                listed == template_models(list@),
                forall|q: int|
                    0 <= q < at ==> !spec_text_less(template@.name, (#[trigger] listed[q]).name),
            decreases list.len() - at,
        {
            at = at + 1;
        }
        proof {
            assert forall|q: int| 0 <= q < at implies name_order()(
                #[trigger] listed[q],
                template@,
            ) by {
                let k = choose|k: int|
                    0 <= k < i && #[trigger] template_models(list@)[q] == s.templates[k];
                assert(s.templates[k].name != s.templates[i as int].name);
                lemma_text_less_total(listed[q].name, template@.name);
            }
            assert forall|q: int| at <= q < listed.len() implies name_order()(
                template@,
                #[trigger] listed[q],
            ) by {
                if q > at {
                    assert(name_order()(listed[at as int], listed[q]));
                    lemma_text_less_transitive(
                        template@.name,
                        listed[at as int].name,
                        listed[q].name,
                    );
                }
            }
            lemma_insert_keeps_sorted(listed, template@, at as int, name_order());
            lemma_insert_contains(listed, template@, at as int);
        }
        list.insert(at, template);
        proof {
            let after = template_models(list@);
            assert(after =~= listed.insert(at as int, template@));
            assert forall|p: int| 0 <= p < after.len() implies exists|k: int|
                0 <= k < i + 1 && #[trigger] after[p] == s.templates[k] by {
                if after[p] == template@ {
                    assert(after[p] == s.templates[i as int]);
                } else {
                    let q = choose|q: int| 0 <= q < listed.len() && listed[q] == after[p];
                    let k = choose|k: int| 0 <= k < i && #[trigger] listed[q] == s.templates[k];
                    assert(after[p] == s.templates[k]);
                }
            }
        }
        i = i + 1;
    }
    proof {
        assert forall|p: int| 0 <= p < list.len() implies s.templates.contains(
            #[trigger] template_models(list@)[p],
        ) by {
            let k = choose|k: int|
                0 <= k < i && #[trigger] template_models(list@)[p] == s.templates[k];
            assert(s.templates[k] == template_models(list@)[p]);
        }
    }
    list
}

} // verus!
