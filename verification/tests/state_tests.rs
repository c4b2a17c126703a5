use jobtrack::date::Date;
use jobtrack::input::{handle_key_event, handle_text_input, handle_backspace, KeyCode, KeyEvent};
use jobtrack::model::{Application, Platform, Status};
use jobtrack::state::{App, ChartType, FormField, FormMode, Screen};

fn date(year: u32, month: u32, day: u32) -> Date {
    Date { year, month, day }
}

fn record(company: &str, platform: Platform, status: Status) -> Application {
    Application {
        company_name: company.to_string(),
        platform,
        resume_modified: false,
        resume_version: String::new(),
        status,
        applied_date: date(2024, 1, 15),
        notes: String::new(),
    }
}

fn app_with(records: Vec<Application>) -> App {
    App::new(records)
}

fn key(code: KeyCode) -> KeyEvent {
    KeyEvent { code, ctrl: false }
}

#[test]
fn new_app_starts_on_list() {
    let app = app_with(vec![]);
    assert_eq!(app.screen, Screen::List);
    assert_eq!(app.list_selected, 0);
    assert!(app.form_mode.is_none());
    assert_eq!(app.chart_type, ChartType::ByResumeVersion);
    assert!(!app.should_quit);
}

#[test]
fn select_round_trip_interior() {
    let mut app = app_with(vec![
        record("A", Platform::LinkedIn, Status::Applied),
        record("B", Platform::Indeed, Status::Offer),
        record("C", Platform::LinkedIn, Status::Applied),
    ]);
    app.select_next();
    assert_eq!(app.list_selected, 1);
    app.select_next();
    app.select_previous();
    assert_eq!(app.list_selected, 1);
    app.select_previous();
    assert_eq!(app.list_selected, 0);
}

#[test]
fn select_clamps_at_boundaries() {
    let mut app = app_with(vec![
        record("A", Platform::LinkedIn, Status::Applied),
        record("B", Platform::Indeed, Status::Offer),
    ]);
    app.select_previous();
    assert_eq!(app.list_selected, 0);
    app.select_next();
    app.select_next();
    app.select_next();
    assert_eq!(app.list_selected, 1);
}

#[test]
fn select_ignores_empty_collection() {
    let mut app = app_with(vec![]);
    app.select_next();
    app.select_previous();
    assert_eq!(app.list_selected, 0);
}

#[test]
fn commit_add_appends_one_record() {
    let mut app = app_with(vec![record("A", Platform::LinkedIn, Status::Applied)]);
    app.start_add();
    assert_eq!(app.screen, Screen::Form);
    assert_eq!(app.form_mode, Some(FormMode::Add));
    for c in "Acme".chars() {
        handle_text_input(&mut app, c);
    }
    let saved = app.save_form();
    assert!(saved);
    assert_eq!(app.applications.len(), 2);
    assert_eq!(app.applications[1].company_name, "Acme");
    assert_eq!(app.screen, Screen::List);
    assert!(app.form_mode.is_none());
}

#[test]
fn commit_blank_company_is_silent_noop() {
    let mut app = app_with(vec![record("A", Platform::LinkedIn, Status::Applied)]);
    app.start_add();
    for c in " \t \u{00A0} ".chars() {
        handle_text_input(&mut app, c);
    }
    let saved = app.save_form();
    assert!(!saved);
    assert_eq!(app.applications.len(), 1);
    assert_eq!(app.screen, Screen::Form);
    assert_eq!(app.form_mode, Some(FormMode::Add));
}

#[test]
fn commit_edit_replaces_only_target_index() {
    let mut app = app_with(vec![
        record("A", Platform::LinkedIn, Status::Applied),
        record("B", Platform::Indeed, Status::Offer),
        record("C", Platform::LinkedIn, Status::Rejected),
    ]);
    app.select_next();
    app.start_edit();
    assert_eq!(app.form_mode, Some(FormMode::Edit(1)));
    for c in "eta2".chars() {
        handle_text_input(&mut app, c);
    }
    let saved = app.save_form();
    assert!(saved);
    assert_eq!(app.applications.len(), 3);
    assert_eq!(app.applications[0].company_name, "A");
    assert_eq!(app.applications[1].company_name, "Beta2");
    assert_eq!(app.applications[2].company_name, "C");
    assert_eq!(app.applications[1].status, Status::Offer);
}

#[test]
fn start_edit_on_empty_collection_is_noop() {
    let mut app = app_with(vec![]);
    app.start_edit();
    assert_eq!(app.screen, Screen::List);
    assert!(app.form_mode.is_none());
}

#[test]
fn start_edit_sets_dropdowns_from_record() {
    let mut app = app_with(vec![Application {
        company_name: "A".to_string(),
        platform: Platform::Other("MyBoard".to_string()),
        resume_modified: true,
        resume_version: "v2".to_string(),
        status: Status::Offer,
        applied_date: date(2024, 3, 1),
        notes: String::new(),
    }]);
    app.start_edit();
    assert_eq!(app.platform_dropdown_selected, 3);
    assert_eq!(app.status_dropdown_selected, 2);
    assert_eq!(app.resume_modified_dropdown_selected, 0);
}

#[test]
fn start_edit_custom_text_spelling_a_preset_maps_to_preset_position() {
    let mut app = app_with(vec![record(
        "A",
        Platform::Other("LinkedIn".to_string()),
        Status::Applied,
    )]);
    app.start_edit();
    assert_eq!(app.platform_dropdown_selected, 0);
}

#[test]
fn delete_single_record_leaves_empty_and_cursor_zero() {
    let mut app = app_with(vec![record("A", Platform::LinkedIn, Status::Applied)]);
    let saved = app.delete_selected();
    assert!(saved);
    assert!(app.applications.is_empty());
    assert_eq!(app.list_selected, 0);
}

#[test]
fn delete_last_of_many_decrements_cursor() {
    let mut app = app_with(vec![
        record("A", Platform::LinkedIn, Status::Applied),
        record("B", Platform::Indeed, Status::Offer),
        record("C", Platform::LinkedIn, Status::Applied),
    ]);
    app.select_next();
    app.select_next();
    assert_eq!(app.list_selected, 2);
    let saved = app.delete_selected();
    assert!(saved);
    assert_eq!(app.applications.len(), 2);
    assert_eq!(app.list_selected, 1);
    assert_eq!(app.applications[1].company_name, "B");
}

#[test]
fn delete_interior_keeps_cursor() {
    let mut app = app_with(vec![
        record("A", Platform::LinkedIn, Status::Applied),
        record("B", Platform::Indeed, Status::Offer),
        record("C", Platform::LinkedIn, Status::Applied),
    ]);
    app.select_next();
    app.delete_selected();
    assert_eq!(app.list_selected, 1);
    assert_eq!(app.applications[1].company_name, "C");
}

#[test]
fn delete_on_empty_collection_reports_no_save() {
    let mut app = app_with(vec![]);
    let saved = app.delete_selected();
    assert!(!saved);
}

#[test]
fn field_cycle_returns_after_seven_steps() {
    let all = FormField::all();
    for f in all {
        let mut g = f;
        for _ in 0..7 {
            g = g.next();
        }
        assert_eq!(g, f);
        assert_eq!(f.next().prev(), f);
        assert_eq!(f.prev().next(), f);
    }
}

#[test]
fn field_order_is_fixed() {
    assert_eq!(FormField::CompanyName.next(), FormField::Platform);
    assert_eq!(FormField::Platform.next(), FormField::ResumeModified);
    assert_eq!(FormField::ResumeModified.next(), FormField::ResumeVersion);
    assert_eq!(FormField::ResumeVersion.next(), FormField::Status);
    assert_eq!(FormField::Status.next(), FormField::Date);
    assert_eq!(FormField::Date.next(), FormField::Notes);
    assert_eq!(FormField::Notes.next(), FormField::CompanyName);
    assert_eq!(FormField::CompanyName.prev(), FormField::Notes);
}

#[test]
fn chart_cycle_returns_after_three_steps() {
    for c in ChartType::all() {
        assert_eq!(c.next().next().next(), c);
    }
    assert_eq!(ChartType::ByResumeVersion.next(), ChartType::ByPlatform);
    assert_eq!(ChartType::ByPlatform.next(), ChartType::ByStatus);
    assert_eq!(ChartType::ByStatus.next(), ChartType::ByResumeVersion);
}

#[test]
fn typing_invalid_date_leaves_date_unchanged() {
    let mut app = app_with(vec![]);
    app.start_add();
    app.form_data.applied_date = date(2024, 1, 15);
    app.form_field = FormField::Date;
    for c in "2024-13-45".chars() {
        handle_text_input(&mut app, c);
    }
    assert_eq!(app.form_data.applied_date, date(2024, 1, 15));
}

#[test]
fn typing_letters_into_date_field_is_ignored() {
    let mut app = app_with(vec![]);
    app.start_add();
    app.form_data.applied_date = date(2024, 1, 15);
    app.form_field = FormField::Date;
    for c in "abc".chars() {
        handle_text_input(&mut app, c);
    }
    assert_eq!(app.form_data.applied_date, date(2024, 1, 15));
}

#[test]
fn backspace_edits_company_name() {
    let mut app = app_with(vec![]);
    app.start_add();
    for c in "Acme".chars() {
        handle_text_input(&mut app, c);
    }
    handle_backspace(&mut app);
    assert_eq!(app.form_data.company_name, "Acm");
    handle_backspace(&mut app);
    handle_backspace(&mut app);
    handle_backspace(&mut app);
    handle_backspace(&mut app);
    assert_eq!(app.form_data.company_name, "");
}

#[test]
fn j_and_k_are_never_inserted_as_text() {
    let mut app = app_with(vec![]);
    app.start_add();
    for c in "jak".chars() {
        handle_text_input(&mut app, c);
    }
    assert_eq!(app.form_data.company_name, "a");
}

#[test]
fn platform_text_input_only_on_custom_position() {
    let mut app = app_with(vec![]);
    app.start_add();
    app.form_field = FormField::Platform;
    handle_text_input(&mut app, 'x');
    assert_eq!(app.form_data.platform, Platform::LinkedIn);
    app.platform_dropdown_selected = 3;
    handle_text_input(&mut app, 'x');
    assert_eq!(app.form_data.platform, Platform::Other("x".to_string()));
    handle_text_input(&mut app, 'y');
    assert_eq!(app.form_data.platform, Platform::Other("xy".to_string()));
    handle_backspace(&mut app);
    assert_eq!(app.form_data.platform, Platform::Other("x".to_string()));
}

#[test]
fn dispatcher_list_keys() {
    let mut app = app_with(vec![
        record("A", Platform::LinkedIn, Status::Applied),
        record("B", Platform::Indeed, Status::Offer),
    ]);
    handle_key_event(&mut app, key(KeyCode::Down));
    assert_eq!(app.list_selected, 1);
    handle_key_event(&mut app, key(KeyCode::Up));
    assert_eq!(app.list_selected, 0);
    handle_key_event(&mut app, key(KeyCode::Char('j')));
    assert_eq!(app.list_selected, 1);
    handle_key_event(&mut app, key(KeyCode::Char('k')));
    assert_eq!(app.list_selected, 0);
    handle_key_event(&mut app, key(KeyCode::Char('g')));
    assert_eq!(app.screen, Screen::Chart);
    handle_key_event(&mut app, key(KeyCode::Tab));
    assert_eq!(app.chart_type, ChartType::ByPlatform);
    handle_key_event(&mut app, key(KeyCode::Esc));
    assert_eq!(app.screen, Screen::List);
    handle_key_event(&mut app, key(KeyCode::Char('q')));
    assert!(app.should_quit);
}

#[test]
fn dispatcher_form_enter_selects_dropdown_and_advances() {
    let mut app = app_with(vec![]);
    handle_key_event(&mut app, key(KeyCode::Char('a')));
    assert_eq!(app.screen, Screen::Form);
    assert_eq!(app.form_field, FormField::CompanyName);
    handle_key_event(&mut app, key(KeyCode::Enter));
    assert_eq!(app.form_field, FormField::Platform);
    handle_key_event(&mut app, key(KeyCode::Char('j')));
    assert_eq!(app.platform_dropdown_selected, 1);
    handle_key_event(&mut app, key(KeyCode::Enter));
    assert_eq!(app.form_data.platform, Platform::Indeed);
    assert_eq!(app.form_field, FormField::ResumeModified);
    handle_key_event(&mut app, key(KeyCode::Enter));
    assert!(app.form_data.resume_modified);
    assert_eq!(app.form_field, FormField::ResumeVersion);
}

#[test]
fn dispatcher_selecting_trailing_platform_option_sets_custom_branch() {
    let mut app = app_with(vec![]);
    app.start_add();
    app.form_field = FormField::Platform;
    for _ in 0..5 {
        handle_key_event(&mut app, key(KeyCode::Char('j')));
    }
    assert_eq!(app.platform_dropdown_selected, 3);
    handle_key_event(&mut app, key(KeyCode::Enter));
    assert_eq!(app.form_data.platform, Platform::Other("Other".to_string()));
}

#[test]
fn dispatcher_enter_on_notes_commits() {
    let mut app = app_with(vec![]);
    app.start_add();
    for c in "Acme".chars() {
        handle_text_input(&mut app, c);
    }
    app.form_field = FormField::Notes;
    let saved = handle_key_event(&mut app, key(KeyCode::Enter));
    assert!(saved);
    assert_eq!(app.applications.len(), 1);
    assert_eq!(app.screen, Screen::List);
}

#[test]
fn dispatcher_ctrl_s_commits_from_any_field() {
    let mut app = app_with(vec![]);
    app.start_add();
    for c in "Acme".chars() {
        handle_text_input(&mut app, c);
    }
    app.form_field = FormField::Status;
    let saved = handle_key_event(&mut app, KeyEvent { code: KeyCode::Char('s'), ctrl: true });
    assert!(saved);
    assert_eq!(app.applications.len(), 1);
}

#[test]
fn dispatcher_plain_s_is_text_input() {
    let mut app = app_with(vec![]);
    app.start_add();
    handle_key_event(&mut app, key(KeyCode::Char('s')));
    assert_eq!(app.form_data.company_name, "s");
    assert_eq!(app.applications.len(), 0);
}

#[test]
fn dispatcher_esc_cancels_form_and_discards_draft() {
    let mut app = app_with(vec![]);
    app.start_add();
    for c in "Acme".chars() {
        handle_text_input(&mut app, c);
    }
    handle_key_event(&mut app, key(KeyCode::Esc));
    assert_eq!(app.screen, Screen::List);
    assert!(app.form_mode.is_none());
    assert_eq!(app.applications.len(), 0);
}

#[test]
fn dropdown_cursors_clamp_without_wrap() {
    let mut app = app_with(vec![]);
    app.start_add();
    app.form_field = FormField::Status;
    handle_key_event(&mut app, key(KeyCode::Char('k')));
    assert_eq!(app.status_dropdown_selected, 0);
    for _ in 0..6 {
        handle_key_event(&mut app, key(KeyCode::Char('j')));
    }
    assert_eq!(app.status_dropdown_selected, 3);
    app.form_field = FormField::ResumeModified;
    for _ in 0..4 {
        handle_key_event(&mut app, key(KeyCode::Char('j')));
    }
    assert_eq!(app.resume_modified_dropdown_selected, 1);
}

#[test]
fn dropdown_cursor_positions_survive_field_navigation() {
    let mut app = app_with(vec![]);
    app.start_add();
    app.form_field = FormField::Status;
    handle_key_event(&mut app, key(KeyCode::Char('j')));
    assert_eq!(app.status_dropdown_selected, 1);
    handle_key_event(&mut app, key(KeyCode::Down));
    handle_key_event(&mut app, key(KeyCode::Up));
    assert_eq!(app.status_dropdown_selected, 1);
}

#[test]
fn fresh_draft_has_defaults_and_real_date() {
    let a = Application::new();
    assert_eq!(a.company_name, "");
    assert_eq!(a.platform, Platform::LinkedIn);
    assert!(!a.resume_modified);
    assert_eq!(a.resume_version, "");
    assert_eq!(a.status, Status::Applied);
    assert_eq!(a.notes, "");
    assert!(a.applied_date.ok());
}

#[test]
fn labels_and_titles() {
    assert_eq!(FormField::CompanyName.label(), "Company Name");
    assert_eq!(FormField::Date.label(), "Application Date");
    assert_eq!(ChartType::ByStatus.title(), "Applications by Status");
    assert_eq!(Status::Offer.as_str(), "Offer");
    assert_eq!(
        Platform::Other("MyBoard".to_string()).as_str(),
        "MyBoard".to_string()
    );
    assert_eq!(Platform::CompanyWebsite.as_str(), "Company Website".to_string());
}

#[test]
fn platform_from_str_maps_presets_and_custom() {
    assert_eq!(Platform::from_str("LinkedIn"), Platform::LinkedIn);
    assert_eq!(Platform::from_str("Indeed"), Platform::Indeed);
    assert_eq!(Platform::from_str("Company Website"), Platform::CompanyWebsite);
    assert_eq!(
        Platform::from_str("Other"),
        Platform::Other("Other".to_string())
    );
    assert_eq!(
        Platform::from_str("MyBoard"),
        Platform::Other("MyBoard".to_string())
    );
    let presets = Platform::presets();
    assert_eq!(presets, vec!["LinkedIn", "Indeed", "Company Website", "Other"]);
}

#[test]
fn unmatched_keys_change_nothing() {
    let mut app = app_with(vec![record("A", Platform::LinkedIn, Status::Applied)]);
    let saved = handle_key_event(&mut app, key(KeyCode::Other));
    assert!(!saved);
    assert_eq!(app.screen, Screen::List);
    assert_eq!(app.list_selected, 0);
    assert_eq!(app.applications.len(), 1);
    handle_key_event(&mut app, key(KeyCode::Char('g')));
    handle_key_event(&mut app, key(KeyCode::Char('x')));
    assert_eq!(app.screen, Screen::Chart);
    assert_eq!(app.chart_type, ChartType::ByResumeVersion);
}

#[test]
fn show_chart_always_starts_at_first_chart_type() {
    let mut app = app_with(vec![]);
    app.show_chart();
    app.next_chart();
    assert_eq!(app.chart_type, ChartType::ByPlatform);
    app.show_list();
    assert_eq!(app.screen, Screen::List);
    app.show_chart();
    assert_eq!(app.chart_type, ChartType::ByResumeVersion);
}

#[test]
fn typing_a_full_date_over_the_shown_text_never_sticks() {
    // the date field appends to the shown ten-character text, so no
    // keystroke can complete a fresh valid date over it
    let mut app = app_with(vec![]);
    app.start_add();
    app.form_data.applied_date = date(2024, 1, 15);
    app.form_field = FormField::Date;
    for c in "2025-06-07".chars() {
        handle_text_input(&mut app, c);
    }
    assert_eq!(app.form_data.applied_date, date(2024, 1, 15));
}

#[test]
fn status_all_in_fixed_order() {
    assert_eq!(
        Status::all(),
        vec![Status::Applied, Status::Interview, Status::Offer, Status::Rejected]
    );
}
