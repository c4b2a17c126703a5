//! Laws of the state machine, stated over the transition functions and
//! proved once for all states.

use vstd::prelude::*;
use crate::input::{spec_chart_step, spec_form_step, spec_list_step, KeyEvent};
use crate::state::{
    AppV, Screen, FormModeV, FormField, ChartType, spec_select_previous, spec_select_next,
    spec_commit_form, spec_commit_saves, spec_delete_selected,
};

verus! {

/// On a non-empty collection, stepping the cursor down then up (or up then
/// down) from an interior position returns to the original cursor, and the
/// whole state; at either boundary the outward step changes nothing.
pub proof fn lemma_select_round_trip(s: AppV)
    requires
        s.wf(),
        s.applications.len() > 0,
    ensures
        s.list_selected < s.applications.len() - 1 ==> spec_select_previous(spec_select_next(s))
            == s,
        s.list_selected > 0 ==> spec_select_next(spec_select_previous(s)) == s,
        s.list_selected == s.applications.len() - 1 ==> spec_select_next(s) == s,
        s.list_selected == 0 ==> spec_select_previous(s) == s,
{
    if s.list_selected < s.applications.len() - 1 {
        assert(spec_select_previous(spec_select_next(s)) =~= s);
    }
    if s.list_selected > 0 {
        assert(spec_select_next(spec_select_previous(s)) =~= s);
    }
}

/// Committing the form in add mode with a company name that does not trim
/// to nothing appends the draft at the end, growing the collection by
/// exactly one; with a blank company name the whole state is unchanged,
/// the form still open.
pub proof fn lemma_commit_add(s: AppV)
    requires
        s.wf(),
        s.form_mode == Option::Some(FormModeV::Add),
    ensures
        spec_commit_saves(s) ==> spec_commit_form(s).applications == s.applications.push(
            s.form_data,
        ),
        spec_commit_saves(s) ==> spec_commit_form(s).applications.len() == s.applications.len()
            + 1,
        spec_commit_saves(s) ==> spec_commit_form(s).applications.last() == s.form_data,
        !spec_commit_saves(s) ==> spec_commit_form(s) == s,
{
}

/// Committing the form in edit mode with a company name that does not trim
/// to nothing replaces exactly the record at the captured index: the
/// length is kept, and every other record keeps its value and position;
/// with a blank company name the whole state is unchanged.
pub proof fn lemma_commit_edit(s: AppV, i: int)
    requires
        s.wf(),
        s.screen == Screen::Form,
        s.form_mode == Option::Some(FormModeV::Edit(i)),
    ensures
        spec_commit_saves(s) ==> spec_commit_form(s).applications.len()
            == s.applications.len(),
        spec_commit_saves(s) ==> spec_commit_form(s).applications[i] == s.form_data,
        spec_commit_saves(s) ==> forall|j: int|
            0 <= j < s.applications.len() && j != i ==> spec_commit_form(s).applications[j]
                == s.applications[j],
        !spec_commit_saves(s) ==> spec_commit_form(s) == s,
{
}

/// Deleting from a one-record collection leaves an empty collection with
/// the cursor at zero; deleting while the cursor sits on the last of
/// several records moves the cursor back by exactly one.
pub proof fn lemma_delete_cursor(s: AppV)
    requires
        s.wf(),
    ensures
        s.applications.len() == 1 ==> spec_delete_selected(s).applications.len() == 0
            && spec_delete_selected(s).list_selected == 0,
        s.applications.len() > 1 && s.list_selected == s.applications.len() - 1
            ==> spec_delete_selected(s).list_selected == s.list_selected - 1,
        s.applications.len() > 1 && s.list_selected < s.applications.len() - 1
            ==> spec_delete_selected(s).list_selected == s.list_selected,
        s.applications.len() > 0 ==> spec_delete_selected(s).applications
            == s.applications.remove(s.list_selected),
{
}

/// Committing the form never moves the list cursor.
pub proof fn lemma_commit_keeps_cursor(s: AppV)
    ensures
        spec_commit_form(s).list_selected == s.list_selected,
{
}

/// The committed collection changes only through a step that asks for a
/// save: whenever a dispatched key reports no save, the collection is
/// exactly what it was.
pub proof fn lemma_unsaved_steps_keep_collection(s: AppV, key: KeyEvent, s2: AppV, saved: bool)
    requires
        s.wf(),
        s.screen == Screen::List ==> spec_list_step(s, key, s2, saved),
        s.screen == Screen::Form ==> (s2, saved) == spec_form_step(s, key),
        s.screen == Screen::Chart ==> s2 == spec_chart_step(s, key) && !saved,
    ensures
        !saved ==> s2.applications == s.applications,
{
}

/// Stepping the form field forward seven times returns to the same field,
/// and stepping back inverts stepping forward, from every field.
pub proof fn lemma_field_cycle(f: FormField)
    ensures
        f.next_spec().next_spec().next_spec().next_spec().next_spec().next_spec().next_spec()
            == f,
        f.next_spec().prev_spec() == f,
        f.prev_spec().next_spec() == f,
{
}

/// Stepping the chart type forward three times returns to the same chart
/// type, from every chart type.
pub proof fn lemma_chart_cycle(c: ChartType)
    ensures
        c.next_spec().next_spec().next_spec() == c,
{
}

} // verus!
