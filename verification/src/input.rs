//! The key dispatcher: maps one key event, conditioned on the current
//! screen and form field, to exactly one state-machine operation.

use vstd::prelude::*;
use crate::model::{ApplicationV, Platform, PlatformV, Status};
use crate::state::{
    App, AppV, Screen, FormField, spec_quit, spec_start_add_with,
    spec_start_edit, spec_delete_selected, spec_show_chart, spec_select_previous, spec_select_next,
    spec_cancel_form, spec_commit_form, spec_commit_saves, spec_next_field, spec_prev_field,
    spec_show_list, spec_next_chart, spec_dropdown_previous, spec_dropdown_next, spec_text_input,
    spec_backspace, spec_platform_of_dd, spec_status_of_dd,
};
use crate::text::{exec_is_digit_char, push_char, pop_char};
use crate::date::{render_date, parse_date_chars};

verus! {

/// A key, as the dispatcher sees it.
#[derive(Clone, Copy, PartialEq, Eq, Structural, Debug)]
pub enum KeyCode {
    Char(char),
    Up,
    Down,
    Enter,
    Esc,
    Backspace,
    Tab,
    Other,
}

/// One key event: the key and whether the control modifier was held.
#[derive(Clone, Copy, PartialEq, Eq, Structural, Debug)]
pub struct KeyEvent {
    pub code: KeyCode,
    pub ctrl: bool,
}

// ---------------------------------------------------------------------------
// The dispatch tables, as functions on the view
// ---------------------------------------------------------------------------

/// What one key does on the list screen. `spec_start_add` draws the current
/// date, so this is a relation: `s2` is a possible next state.
pub open spec fn spec_list_step(s: AppV, key: KeyEvent, s2: AppV, saved: bool) -> bool {
    match key.code {
        KeyCode::Char(c) => {
            if c == 'q' {
                s2 == spec_quit(s) && !saved
            } else if c == 'a' {
                s2 == spec_start_add_with(s, s2.form_data) && s2.form_data.is_fresh() && !saved
            } else if c == 'e' {
                s2 == spec_start_edit(s) && !saved
            } else if c == 'd' {
                s2 == spec_delete_selected(s) && saved == (s.applications.len() > 0)
            } else if c == 'g' {
                s2 == spec_show_chart(s) && !saved
            } else if c == 'k' {
                s2 == spec_select_previous(s) && !saved
            } else if c == 'j' {
                s2 == spec_select_next(s) && !saved
            } else {
                s2 == s && !saved
            }
        },
        KeyCode::Up => s2 == spec_select_previous(s) && !saved,
        KeyCode::Down => s2 == spec_select_next(s) && !saved,
        _ => s2 == s && !saved,
    }
}

/// What the enter key does on the form: a dropdown field copies the option
/// under its cursor into the draft and advances; the last field commits;
/// any other field just advances.
pub open spec fn spec_form_enter(s: AppV) -> (AppV, bool) {
    match s.form_field {
        FormField::Platform => (
            spec_next_field(
                AppV {
                    form_data: ApplicationV {
                        platform: spec_platform_of_dd(s.platform_dropdown_selected),
                        ..s.form_data
                    },
                    ..s
                },
            ),
            false,
        ),
        FormField::Status => (
            spec_next_field(
                AppV {
                    form_data: ApplicationV {
                        status: spec_status_of_dd(s.status_dropdown_selected),
                        ..s.form_data
                    },
                    ..s
                },
            ),
            false,
        ),
        FormField::ResumeModified => (
            spec_next_field(
                AppV {
                    form_data: ApplicationV {
                        resume_modified: s.resume_modified_dropdown_selected == 0,
                        ..s.form_data
                    },
                    ..s
                },
            ),
            false,
        ),
        FormField::Notes => (spec_commit_form(s), spec_commit_saves(s)),
        _ => (spec_next_field(s), false),
    }
}

/// What one key does on the form screen.
pub open spec fn spec_form_step(s: AppV, key: KeyEvent) -> (AppV, bool) {
    match key.code {
        KeyCode::Esc => (spec_cancel_form(s), false),
        KeyCode::Enter => spec_form_enter(s),
        KeyCode::Up => (spec_prev_field(s), false),
        KeyCode::Down => (spec_next_field(s), false),
        KeyCode::Char(c) => {
            if c == 's' && key.ctrl {
                (spec_commit_form(s), spec_commit_saves(s))
            } else if c == 'k' {
                (spec_dropdown_previous(s), false)
            } else if c == 'j' {
                (spec_dropdown_next(s), false)
            } else {
                (spec_text_input(s, c), false)
            }
        },
        KeyCode::Backspace => (spec_backspace(s), false),
        _ => (s, false),
    }
}

/// What one key does on the chart screen.
pub open spec fn spec_chart_step(s: AppV, key: KeyEvent) -> AppV {
    match key.code {
        KeyCode::Esc => spec_show_list(s),
        KeyCode::Tab => spec_next_chart(s),
        _ => s,
    }
}

// ---------------------------------------------------------------------------
// The executable dispatcher
// ---------------------------------------------------------------------------

/// Handle one key on the list screen.
pub fn handle_list_keys(app: &mut App, key: KeyEvent) -> (saved: bool)
    requires
        old(app)@.wf(),
        old(app)@.screen == Screen::List,
    ensures
        final(app)@.wf(),
        spec_list_step(old(app)@, key, final(app)@, saved),
{
    match key.code {
        KeyCode::Char(c) => {
            if c == 'q' {
                app.quit();
                false
            } else if c == 'a' {
                app.start_add();
                false
            } else if c == 'e' {
                app.start_edit();
                false
            } else if c == 'd' {
                app.delete_selected()
            } else if c == 'g' {
                app.show_chart();
                false
            } else if c == 'k' {
                app.select_previous();
                false
            } else if c == 'j' {
                app.select_next();
                false
            } else {
                false
            }
        },
        KeyCode::Up => {
            app.select_previous();
            false
        },
        KeyCode::Down => {
            app.select_next();
            false
        },
        _ => false,
    }
}

/// Handle one key on the form screen.
pub fn handle_form_keys(app: &mut App, key: KeyEvent) -> (saved: bool)
    requires
        old(app)@.wf(),
        old(app)@.screen == Screen::Form,
    ensures
        final(app)@.wf(),
        (final(app)@, saved) == spec_form_step(old(app)@, key),
{
    match key.code {
        KeyCode::Esc => {
            app.cancel_form();
            false
        },
        KeyCode::Enter => {
            match app.form_field {
                FormField::Platform => {
                    app.form_data.platform = if app.platform_dropdown_selected == 0 {
                        Platform::LinkedIn
                    } else if app.platform_dropdown_selected == 1 {
                        Platform::Indeed
                    } else if app.platform_dropdown_selected == 2 {
                        Platform::CompanyWebsite
                    } else {
                        Platform::Other(String::from_str("Other"))
                    };
                    app.next_field();
                    proof {
                        assert((final(app)@, false) =~= spec_form_enter(old(app)@));
                    }
                    false
                },
                FormField::Status => {
                    app.form_data.status = if app.status_dropdown_selected == 0 {
                        Status::Applied
                    } else if app.status_dropdown_selected == 1 {
                        Status::Interview
                    } else if app.status_dropdown_selected == 2 {
                        Status::Offer
                    } else {
                        Status::Rejected
                    };
                    app.next_field();
                    proof {
                        assert((final(app)@, false) =~= spec_form_enter(old(app)@));
                    }
                    false
                },
                FormField::ResumeModified => {
                    app.form_data.resume_modified = app.resume_modified_dropdown_selected == 0;
                    app.next_field();
                    proof {
                        assert((final(app)@, false) =~= spec_form_enter(old(app)@));
                    }
                    false
                },
                FormField::Notes => app.save_form(),
                _ => {
                    app.next_field();
                    false
                },
            }
        },
        KeyCode::Up => {
            app.prev_field();
            false
        },
        KeyCode::Down => {
            app.next_field();
            false
        },
        KeyCode::Char(c) => {
            if c == 's' && key.ctrl {
                app.save_form()
            } else if c == 'k' {
                dropdown_previous(app);
                false
            } else if c == 'j' {
                dropdown_next(app);
                false
            } else {
                handle_text_input(app, c);
                false
            }
        },
        KeyCode::Backspace => {
            handle_backspace(app);
            false
        },
        _ => false,
    }
}

/// Handle one key on the chart screen.
pub fn handle_chart_keys(app: &mut App, key: KeyEvent) -> (saved: bool)
    requires
        old(app)@.wf(),
        old(app)@.screen == Screen::Chart,
    ensures
        final(app)@.wf(),
        final(app)@ == spec_chart_step(old(app)@, key),
        !saved,
{
    match key.code {
        KeyCode::Esc => app.show_list(),
        KeyCode::Tab => app.next_chart(),
        _ => {},
    }
    false
}

/// Handle one key event: dispatch on the current screen. The result says
/// whether the collection changed and must be persisted.
pub fn handle_key_event(app: &mut App, key: KeyEvent) -> (saved: bool)
    requires
        old(app)@.wf(),
    ensures
        final(app)@.wf(),
        old(app)@.screen == Screen::List ==> spec_list_step(old(app)@, key, final(app)@, saved),
        old(app)@.screen == Screen::Form ==> (final(app)@, saved) == spec_form_step(
            old(app)@,
            key,
        ),
        old(app)@.screen == Screen::Chart ==> final(app)@ == spec_chart_step(old(app)@, key)
            && !saved,
    {
    match app.screen {
        Screen::List => handle_list_keys(app, key),
        Screen::Form => handle_form_keys(app, key),
        Screen::Chart => handle_chart_keys(app, key),
    }
}

/// One step up within the active dropdown field's options.
fn dropdown_previous(app: &mut App)
    requires
        old(app)@.wf(),
    ensures
        final(app)@.wf(),
        final(app)@ == spec_dropdown_previous(old(app)@),
{
    match app.form_field {
        FormField::Platform => {
            if app.platform_dropdown_selected > 0 {
                app.platform_dropdown_selected = app.platform_dropdown_selected - 1;
            }
        },
        FormField::Status => {
            if app.status_dropdown_selected > 0 {
                app.status_dropdown_selected = app.status_dropdown_selected - 1;
            }
        },
        FormField::ResumeModified => {
            if app.resume_modified_dropdown_selected > 0 {
                app.resume_modified_dropdown_selected = app.resume_modified_dropdown_selected - 1;
            }
        },
        _ => {},
    }
    proof {
        assert(final(app)@ =~= spec_dropdown_previous(old(app)@));
    }
}

/// One step down within the active dropdown field's options.
fn dropdown_next(app: &mut App)
    requires
        old(app)@.wf(),
    ensures
        final(app)@.wf(),
        final(app)@ == spec_dropdown_next(old(app)@),
{
    match app.form_field {
        FormField::Platform => {
            if app.platform_dropdown_selected < 3 {
                app.platform_dropdown_selected = app.platform_dropdown_selected + 1;
            }
        },
        FormField::Status => {
            if app.status_dropdown_selected < 3 {
                app.status_dropdown_selected = app.status_dropdown_selected + 1;
            }
        },
        FormField::ResumeModified => {
            if app.resume_modified_dropdown_selected < 1 {
                app.resume_modified_dropdown_selected = app.resume_modified_dropdown_selected + 1;
            }
        },
        _ => {},
    }
    proof {
        assert(final(app)@ =~= spec_dropdown_next(old(app)@));
    }
}

/// Append one typed character to the draft, by the active field's rule.
pub fn handle_text_input(app: &mut App, c: char)
    requires
        old(app)@.wf(),
    ensures
        final(app)@.wf(),
        final(app)@ == spec_text_input(old(app)@, c),
{
    if c == 'j' || c == 'k' {
        return ;
    }
    match app.form_field {
        FormField::CompanyName => {
            push_char(&mut app.form_data.company_name, c);
        },
        FormField::ResumeVersion => {
            push_char(&mut app.form_data.resume_version, c);
        },
        FormField::Notes => {
            push_char(&mut app.form_data.notes, c);
        },
        FormField::Platform => {
            if app.platform_dropdown_selected == 3 {
                match &mut app.form_data.platform {
                    Platform::Other(custom) => {
                        push_char(custom, c);
                    },
                    _ => {
                        let mut t = String::new();
                        push_char(&mut t, c);
                        app.form_data.platform = Platform::Other(t);
                        proof {
                            assert(app@.form_data.platform =~= PlatformV::Other(seq![c]));
                        }
                    },
                }
            }
        },
        FormField::Date => {
            if exec_is_digit_char(c) || c == '-' {
                let mut text = render_date(&app.form_data.applied_date);
                text.push(c);
                match parse_date_chars(&text) {
                    Some(d) => {
                        app.form_data.applied_date = d;
                    },
                    None => {},
                }
            }
        },
        _ => {},
    }
    proof {
        assert(final(app)@ =~= spec_text_input(old(app)@, c));
    }
}

/// Remove the last character of the active field's text.
pub fn handle_backspace(app: &mut App)
    requires
        old(app)@.wf(),
    ensures
        final(app)@.wf(),
        final(app)@ == spec_backspace(old(app)@),
{
    match app.form_field {
        FormField::CompanyName => {
            pop_char(&mut app.form_data.company_name);
        },
        FormField::ResumeVersion => {
            pop_char(&mut app.form_data.resume_version);
        },
        FormField::Notes => {
            pop_char(&mut app.form_data.notes);
        },
        FormField::Platform => {
            if app.platform_dropdown_selected == 3 {
                match &mut app.form_data.platform {
                    Platform::Other(custom) => {
                        pop_char(custom);
                    },
                    _ => {},
                }
            }
        },
        _ => {},
    }
    proof {
        assert(final(app)@ =~= spec_backspace(old(app)@));
    }
}

} // verus!
