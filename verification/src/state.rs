//! The application state machine: the current screen, the list cursor, the
//! in-progress form draft with its dropdown cursors, and the chart type,
//! with one transition per user operation.

use vstd::prelude::*;
use crate::model::{Application, ApplicationV, Platform, PlatformV, Status};
use crate::date::{date_chars, parse_date};
use crate::text::{spec_is_blank, is_blank, is_digit_char};

verus! {

/// Which screen is shown.
#[derive(Clone, Copy, PartialEq, Eq, Structural, Debug)]
pub enum Screen {
    List,
    Form,
    Chart,
}

/// Whether the form adds a new record or edits the one at a captured index.
#[derive(Clone, Copy, PartialEq, Eq, Structural, Debug)]
pub enum FormMode {
    Add,
    Edit(usize),
}

/// The form mode with a mathematical index.
pub enum FormModeV {
    Add,
    Edit(int),
}

/// The form's fields, in their fixed cyclic order.
#[derive(Clone, Copy, PartialEq, Eq, Structural, Debug)]
pub enum FormField {
    CompanyName,
    Platform,
    ResumeModified,
    ResumeVersion,
    Status,
    Date,
    Notes,
}

impl FormField {
    pub open spec fn index_spec(self) -> int {
        match self {
            FormField::CompanyName => 0,
            FormField::Platform => 1,
            FormField::ResumeModified => 2,
            FormField::ResumeVersion => 3,
            FormField::Status => 4,
            FormField::Date => 5,
            FormField::Notes => 6,
        }
    }

    pub open spec fn next_spec(self) -> FormField {
        match self {
            FormField::CompanyName => FormField::Platform,
            FormField::Platform => FormField::ResumeModified,
            FormField::ResumeModified => FormField::ResumeVersion,
            FormField::ResumeVersion => FormField::Status,
            FormField::Status => FormField::Date,
            FormField::Date => FormField::Notes,
            FormField::Notes => FormField::CompanyName,
        }
    }

    pub open spec fn prev_spec(self) -> FormField {
        match self {
            FormField::CompanyName => FormField::Notes,
            FormField::Platform => FormField::CompanyName,
            FormField::ResumeModified => FormField::Platform,
            FormField::ResumeVersion => FormField::ResumeModified,
            FormField::Status => FormField::ResumeVersion,
            FormField::Date => FormField::Status,
            FormField::Notes => FormField::Date,
        }
    }

    /// The fields in their cyclic order.
    pub fn all() -> (v: Vec<FormField>)
        ensures
            v@.len() == 7,
            forall|i: int| 0 <= i < 7 ==> (#[trigger] v@[i]).index_spec() == i,
    {
        let v = vec![
            FormField::CompanyName,
            FormField::Platform,
            FormField::ResumeModified,
            FormField::ResumeVersion,
            FormField::Status,
            FormField::Date,
            FormField::Notes,
        ];
        proof {
            assert forall|i: int| 0 <= i < 7 implies (#[trigger] v@[i]).index_spec() == i by {
                assert(v@[0] == FormField::CompanyName);
                assert(v@[1] == FormField::Platform);
                assert(v@[2] == FormField::ResumeModified);
                assert(v@[3] == FormField::ResumeVersion);
                assert(v@[4] == FormField::Status);
                assert(v@[5] == FormField::Date);
                assert(v@[6] == FormField::Notes);
            }
        }
        v
    }

    /// The field after this one; the order wraps after the last.
    pub fn next(&self) -> (r: FormField)
        ensures
            r == self.next_spec(),
            r.index_spec() == (self.index_spec() + 1) % 7,
    {
        match self {
            FormField::CompanyName => FormField::Platform,
            FormField::Platform => FormField::ResumeModified,
            FormField::ResumeModified => FormField::ResumeVersion,
            FormField::ResumeVersion => FormField::Status,
            FormField::Status => FormField::Date,
            FormField::Date => FormField::Notes,
            FormField::Notes => FormField::CompanyName,
        }
    }

    /// The field before this one; the order wraps before the first.
    pub fn prev(&self) -> (r: FormField)
        ensures
            r == self.prev_spec(),
            r.next_spec() == *self,
    {
        match self {
            FormField::CompanyName => FormField::Notes,
            FormField::Platform => FormField::CompanyName,
            FormField::ResumeModified => FormField::Platform,
            FormField::ResumeVersion => FormField::ResumeModified,
            FormField::Status => FormField::ResumeVersion,
            FormField::Date => FormField::Status,
            FormField::Notes => FormField::Date,
        }
    }

    pub open spec fn label_spec(self) -> Seq<char> {
        match self {
            FormField::CompanyName => "Company Name"@,
            FormField::Platform => "Platform"@,
            FormField::ResumeModified => "Resume Modified"@,
            FormField::ResumeVersion => "Resume Version"@,
            FormField::Status => "Status"@,
            FormField::Date => "Application Date"@,
            FormField::Notes => "Notes"@,
        }
    }

    /// The field's display label.
    pub fn label(&self) -> (r: &'static str)
        ensures
            r@ == self.label_spec(),
    {
        match self {
            FormField::CompanyName => "Company Name",
            FormField::Platform => "Platform",
            FormField::ResumeModified => "Resume Modified",
            FormField::ResumeVersion => "Resume Version",
            FormField::Status => "Status",
            FormField::Date => "Application Date",
            FormField::Notes => "Notes",
        }
    }
}

/// The three derived chart views, in their cyclic order.
#[derive(Clone, Copy, PartialEq, Eq, Structural, Debug)]
pub enum ChartType {
    ByResumeVersion,
    ByPlatform,
    ByStatus,
}

impl ChartType {
    pub open spec fn index_spec(self) -> int {
        match self {
            ChartType::ByResumeVersion => 0,
            ChartType::ByPlatform => 1,
            ChartType::ByStatus => 2,
        }
    }

    pub open spec fn next_spec(self) -> ChartType {
        match self {
            ChartType::ByResumeVersion => ChartType::ByPlatform,
            ChartType::ByPlatform => ChartType::ByStatus,
            ChartType::ByStatus => ChartType::ByResumeVersion,
        }
    }

    /// The chart types in their cyclic order.
    pub fn all() -> (v: Vec<ChartType>)
        ensures
            v@.len() == 3,
            forall|i: int| 0 <= i < 3 ==> (#[trigger] v@[i]).index_spec() == i,
    {
        let v = vec![ChartType::ByResumeVersion, ChartType::ByPlatform, ChartType::ByStatus];
        proof {
            assert(v@[0] == ChartType::ByResumeVersion);
            assert(v@[1] == ChartType::ByPlatform);
            assert(v@[2] == ChartType::ByStatus);
        }
        v
    }

    /// The chart type after this one, cyclically.
    pub fn next(&self) -> (r: ChartType)
        ensures
            r == self.next_spec(),
            r.index_spec() == (self.index_spec() + 1) % 3,
    {
        match self {
            ChartType::ByResumeVersion => ChartType::ByPlatform,
            ChartType::ByPlatform => ChartType::ByStatus,
            ChartType::ByStatus => ChartType::ByResumeVersion,
        }
    }

    pub open spec fn title_spec(self) -> Seq<char> {
        match self {
            ChartType::ByResumeVersion => "Applications by Resume Version"@,
            ChartType::ByPlatform => "Applications by Platform"@,
            ChartType::ByStatus => "Applications by Status"@,
        }
    }

    /// The chart's display title.
    pub fn title(&self) -> (r: &'static str)
        ensures
            r@ == self.title_spec(),
    {
        match self {
            ChartType::ByResumeVersion => "Applications by Resume Version",
            ChartType::ByPlatform => "Applications by Platform",
            ChartType::ByStatus => "Applications by Status",
        }
    }
}

// ---------------------------------------------------------------------------
// The state itself
// ---------------------------------------------------------------------------

/// The whole interactive state.
pub struct App {
    pub applications: Vec<Application>,
    pub screen: Screen,
    pub list_selected: usize,
    pub form_mode: Option<FormMode>,
    pub form_field: FormField,
    pub form_data: Application,
    pub platform_dropdown_selected: usize,
    pub status_dropdown_selected: usize,
    pub resume_modified_dropdown_selected: usize,
    pub chart_type: ChartType,
    pub should_quit: bool,
}

/// The mathematical view of the whole state.
#[verifier::ext_equal]
pub struct AppV {
    pub applications: Seq<ApplicationV>,
    pub screen: Screen,
    pub list_selected: int,
    pub form_mode: Option<FormModeV>,
    pub form_field: FormField,
    pub form_data: ApplicationV,
    pub platform_dropdown_selected: int,
    pub status_dropdown_selected: int,
    pub resume_modified_dropdown_selected: int,
    pub chart_type: ChartType,
    pub should_quit: bool,
}

impl View for App {
    type V = AppV;

    open spec fn view(&self) -> AppV {
        AppV {
            applications: self.applications@.map_values(|a: Application| a@),
            screen: self.screen,
            list_selected: self.list_selected as int,
            form_mode: match self.form_mode {
                Option::None => Option::None,
                Option::Some(FormMode::Add) => Option::Some(FormModeV::Add),
                Option::Some(FormMode::Edit(i)) => Option::Some(FormModeV::Edit(i as int)),
            },
            form_field: self.form_field,
            form_data: self.form_data@,
            platform_dropdown_selected: self.platform_dropdown_selected as int,
            status_dropdown_selected: self.status_dropdown_selected as int,
            resume_modified_dropdown_selected: self.resume_modified_dropdown_selected as int,
            chart_type: self.chart_type,
            should_quit: self.should_quit,
        }
    }
}

impl AppV {
    /// The state invariant: the cursor in bounds (or zero when the
    /// collection is empty), the dropdown cursors within their option
    /// counts, a captured edit index in bounds while the form is open, and
    /// every record's date a real day.
    pub open spec fn wf(self) -> bool {
        &&& (self.applications.len() == 0 ==> self.list_selected == 0)
        &&& (self.applications.len() > 0 ==> 0 <= self.list_selected < self.applications.len())
        &&& 0 <= self.platform_dropdown_selected < 4
        &&& 0 <= self.status_dropdown_selected < 4
        &&& 0 <= self.resume_modified_dropdown_selected < 2
        &&& (match self.form_mode {
            Option::Some(FormModeV::Edit(i)) => self.screen == Screen::Form ==> 0 <= i
                < self.applications.len(),
            _ => true,
        })
        &&& self.form_data.wf()
        &&& (forall|i: int|
            0 <= i < self.applications.len() ==> (#[trigger] self.applications[i]).wf())
    }
}

// ---------------------------------------------------------------------------
// Transition functions on the view
// ---------------------------------------------------------------------------

/// Cursor one up, clamped at the first record; nothing else changes.
pub open spec fn spec_select_previous(s: AppV) -> AppV {
    if s.applications.len() > 0 && s.list_selected > 0 {
        AppV { list_selected: s.list_selected - 1, ..s }
    } else {
        s
    }
}

/// Cursor one down, clamped at the last record; nothing else changes.
pub open spec fn spec_select_next(s: AppV) -> AppV {
    if s.applications.len() > 0 && s.list_selected < s.applications.len() - 1 {
        AppV { list_selected: s.list_selected + 1, ..s }
    } else {
        s
    }
}

/// To the chart screen, starting at the first chart type.
pub open spec fn spec_show_chart(s: AppV) -> AppV {
    AppV { screen: Screen::Chart, chart_type: ChartType::ByResumeVersion, ..s }
}

/// The next chart type, cyclically.
pub open spec fn spec_next_chart(s: AppV) -> AppV {
    AppV { chart_type: s.chart_type.next_spec(), ..s }
}

/// Back to the list screen.
pub open spec fn spec_show_list(s: AppV) -> AppV {
    AppV { screen: Screen::List, ..s }
}

/// The next form field, cyclically.
pub open spec fn spec_next_field(s: AppV) -> AppV {
    AppV { form_field: s.form_field.next_spec(), ..s }
}

/// The previous form field, cyclically.
pub open spec fn spec_prev_field(s: AppV) -> AppV {
    AppV { form_field: s.form_field.prev_spec(), ..s }
}

/// Stop processing input.
pub open spec fn spec_quit(s: AppV) -> AppV {
    AppV { should_quit: true, ..s }
}

/// Close the form, discarding the draft.
pub open spec fn spec_cancel_form(s: AppV) -> AppV {
    AppV { screen: Screen::List, form_mode: Option::None, ..s }
}

/// The dropdown position that shows the given platform: a preset's own
/// position, also for custom text that spells a preset's label, and the
/// trailing custom position for anything else.
pub open spec fn spec_platform_dd(p: PlatformV) -> int {
    match p {
        PlatformV::LinkedIn => 0,
        PlatformV::Indeed => 1,
        PlatformV::CompanyWebsite => 2,
        PlatformV::Other(t) => if t == "LinkedIn"@ {
            0
        } else if t == "Indeed"@ {
            1
        } else if t == "Company Website"@ {
            2
        } else {
            3
        },
    }
}

/// Open the form over a copy of the record under the cursor, the dropdown
/// cursors set to the positions of the record's current values; nothing
/// happens when the collection is empty.
pub open spec fn spec_start_edit(s: AppV) -> AppV {
    if s.applications.len() == 0 {
        s
    } else {
        let rec = s.applications[s.list_selected];
        AppV {
            screen: Screen::Form,
            form_mode: Option::Some(FormModeV::Edit(s.list_selected)),
            form_field: FormField::CompanyName,
            form_data: rec,
            status_dropdown_selected: rec.status.index_spec(),
            platform_dropdown_selected: spec_platform_dd(rec.platform),
            resume_modified_dropdown_selected: if rec.resume_modified {
                0
            } else {
                1
            },
            ..s
        }
    }
}

/// Open the form over a fresh draft: everything but the draft's date is
/// pinned; the date is the current day, so only its well-formedness is
/// stated.
pub open spec fn spec_start_add_with(s: AppV, d: ApplicationV) -> AppV {
    AppV {
        screen: Screen::Form,
        form_mode: Option::Some(FormModeV::Add),
        form_field: FormField::CompanyName,
        form_data: d,
        platform_dropdown_selected: 0,
        status_dropdown_selected: 0,
        resume_modified_dropdown_selected: 0,
        ..s
    }
}

/// Remove the record under the cursor; the cursor moves back one step only
/// when it would otherwise fall off the shrunk end. Nothing happens on an
/// empty collection.
pub open spec fn spec_delete_selected(s: AppV) -> AppV {
    if s.applications.len() == 0 {
        s
    } else {
        let apps = s.applications.remove(s.list_selected);
        let sel = if s.list_selected >= apps.len() && s.list_selected > 0 {
            s.list_selected - 1
        } else {
            s.list_selected
        };
        AppV { applications: apps, list_selected: sel, ..s }
    }
}

/// Whether committing the form would write: the draft's company name does
/// not trim to nothing.
pub open spec fn spec_commit_saves(s: AppV) -> bool {
    !spec_is_blank(s.form_data.company_name)
}

/// Commit the form: with a blank company name nothing changes and the form
/// stays open; otherwise the draft is appended (add) or replaces the record
/// at the captured index (edit), and the form closes onto the list.
pub open spec fn spec_commit_form(s: AppV) -> AppV {
    if !spec_commit_saves(s) {
        s
    } else {
        let apps = match s.form_mode {
            Option::Some(FormModeV::Add) => s.applications.push(s.form_data),
            Option::Some(FormModeV::Edit(i)) => s.applications.update(i, s.form_data),
            Option::None => s.applications,
        };
        AppV { applications: apps, screen: Screen::List, form_mode: Option::None, ..s }
    }
}

/// One step up within the active dropdown field's options, clamped;
/// elsewhere nothing changes.
pub open spec fn spec_dropdown_previous(s: AppV) -> AppV {
    match s.form_field {
        FormField::Platform => if s.platform_dropdown_selected > 0 {
            AppV { platform_dropdown_selected: s.platform_dropdown_selected - 1, ..s }
        } else {
            s
        },
        FormField::Status => if s.status_dropdown_selected > 0 {
            AppV { status_dropdown_selected: s.status_dropdown_selected - 1, ..s }
        } else {
            s
        },
        FormField::ResumeModified => if s.resume_modified_dropdown_selected > 0 {
            AppV {
                resume_modified_dropdown_selected: s.resume_modified_dropdown_selected - 1,
                ..s
            }
        } else {
            s
        },
        _ => s,
    }
}

/// One step down within the active dropdown field's options, clamped;
/// elsewhere nothing changes.
pub open spec fn spec_dropdown_next(s: AppV) -> AppV {
    match s.form_field {
        FormField::Platform => if s.platform_dropdown_selected < 3 {
            AppV { platform_dropdown_selected: s.platform_dropdown_selected + 1, ..s }
        } else {
            s
        },
        FormField::Status => if s.status_dropdown_selected < 3 {
            AppV { status_dropdown_selected: s.status_dropdown_selected + 1, ..s }
        } else {
            s
        },
        FormField::ResumeModified => if s.resume_modified_dropdown_selected < 1 {
            AppV {
                resume_modified_dropdown_selected: s.resume_modified_dropdown_selected + 1,
                ..s
            }
        } else {
            s
        },
        _ => s,
    }
}

/// The platform the dropdown position selects; the trailing position
/// selects the custom branch carrying its own label as initial text.
pub open spec fn spec_platform_of_dd(i: int) -> PlatformV {
    if i == 0 {
        PlatformV::LinkedIn
    } else if i == 1 {
        PlatformV::Indeed
    } else if i == 2 {
        PlatformV::CompanyWebsite
    } else {
        PlatformV::Other("Other"@)
    }
}

/// The status the dropdown position selects.
pub open spec fn spec_status_of_dd(i: int) -> Status {
    if i == 0 {
        Status::Applied
    } else if i == 1 {
        Status::Interview
    } else if i == 2 {
        Status::Offer
    } else {
        Status::Rejected
    }
}

/// Append one typed character to the draft, by the active field's rule:
/// free text appends directly; the date field tries the shown date text
/// plus the character and keeps the old date unless the whole parses; the
/// platform field accepts text only on the custom position; `j` and `k`
/// are reserved for dropdown navigation and never inserted.
pub open spec fn spec_text_input(s: AppV, c: char) -> AppV {
    if c == 'j' || c == 'k' {
        s
    } else {
        match s.form_field {
            FormField::CompanyName => AppV {
                form_data: ApplicationV { company_name: s.form_data.company_name.push(c), ..s.form_data },
                ..s
            },
            FormField::ResumeVersion => AppV {
                form_data: ApplicationV {
                    resume_version: s.form_data.resume_version.push(c),
                    ..s.form_data
                },
                ..s
            },
            FormField::Notes => AppV {
                form_data: ApplicationV { notes: s.form_data.notes.push(c), ..s.form_data },
                ..s
            },
            FormField::Platform => if s.platform_dropdown_selected == 3 {
                match s.form_data.platform {
                    PlatformV::Other(t) => AppV {
                        form_data: ApplicationV {
                            platform: PlatformV::Other(t.push(c)),
                            ..s.form_data
                        },
                        ..s
                    },
                    _ => AppV {
                        form_data: ApplicationV {
                            platform: PlatformV::Other(seq![c]),
                            ..s.form_data
                        },
                        ..s
                    },
                }
            } else {
                s
            },
            FormField::Date => if is_digit_char(c) || c == '-' {
                match parse_date(date_chars(s.form_data.applied_date).push(c)) {
                    Option::Some(d) => AppV {
                        form_data: ApplicationV { applied_date: d, ..s.form_data },
                        ..s
                    },
                    Option::None => s,
                }
            } else {
                s
            },
            _ => s,
        }
    }
}

/// Remove the last character of the active field's text, by the same rules
/// as typing; nothing happens when there is nothing to remove.
pub open spec fn spec_backspace(s: AppV) -> AppV {
    match s.form_field {
        FormField::CompanyName => AppV {
            form_data: ApplicationV {
                company_name: if s.form_data.company_name.len() > 0 {
                    s.form_data.company_name.drop_last()
                } else {
                    s.form_data.company_name
                },
                ..s.form_data
            },
            ..s
        },
        FormField::ResumeVersion => AppV {
            form_data: ApplicationV {
                resume_version: if s.form_data.resume_version.len() > 0 {
                    s.form_data.resume_version.drop_last()
                } else {
                    s.form_data.resume_version
                },
                ..s.form_data
            },
            ..s
        },
        FormField::Notes => AppV {
            form_data: ApplicationV {
                notes: if s.form_data.notes.len() > 0 {
                    s.form_data.notes.drop_last()
                } else {
                    s.form_data.notes
                },
                ..s.form_data
            },
            ..s
        },
        FormField::Platform => if s.platform_dropdown_selected == 3 {
            match s.form_data.platform {
                PlatformV::Other(t) => AppV {
                    form_data: ApplicationV {
                        platform: PlatformV::Other(
                            if t.len() > 0 {
                                t.drop_last()
                            } else {
                                t
                            },
                        ),
                        ..s.form_data
                    },
                    ..s
                },
                _ => s,
            }
        } else {
            s
        },
        _ => s,
    }
}

// ---------------------------------------------------------------------------
// The executable transitions
// ---------------------------------------------------------------------------

impl App {
    /// A fresh state over an already-loaded collection: list screen, cursor
    /// at the start, no form in flight, first chart type, not quitting.
    pub fn new(applications: Vec<Application>) -> (a: App)
        requires
            forall|i: int|
                0 <= i < applications@.len() ==> (#[trigger] applications@[i])@.wf(),
        ensures
            a@.wf(),
            a@.applications == applications@.map_values(|r: Application| r@),
            a@.screen == Screen::List,
            a@.list_selected == 0,
            a@.form_mode is None,
            a@.form_field == FormField::CompanyName,
            a@.form_data.is_fresh(),
            a@.platform_dropdown_selected == 0,
            a@.status_dropdown_selected == 0,
            a@.resume_modified_dropdown_selected == 0,
            a@.chart_type == ChartType::ByResumeVersion,
            !a@.should_quit,
    {
        App {
            applications,
            screen: Screen::List,
            list_selected: 0,
            form_mode: Option::None,
            form_field: FormField::CompanyName,
            form_data: Application::new(),
            platform_dropdown_selected: 0,
            status_dropdown_selected: 0,
            resume_modified_dropdown_selected: 0,
            chart_type: ChartType::ByResumeVersion,
            should_quit: false,
        }
    }

    /// Open the form to add a new record over a fresh default draft.
    pub fn start_add(&mut self)
        requires
            old(self)@.wf(),
        ensures
            final(self)@.wf(),
            final(self)@ == spec_start_add_with(old(self)@, final(self)@.form_data),
            final(self)@.form_data.is_fresh(),
    {
        self.form_mode = Some(FormMode::Add);
        self.screen = Screen::Form;
        self.form_field = FormField::CompanyName;
        self.form_data = Application::new();
        self.platform_dropdown_selected = 0;
        self.status_dropdown_selected = 0;
        self.resume_modified_dropdown_selected = 0;
        proof {
            assert(self@ =~= spec_start_add_with(old(self)@, self@.form_data));
        }
    }

    /// Open the form to edit the record under the cursor; a no-op when the
    /// collection is empty.
    pub fn start_edit(&mut self)
        requires
            old(self)@.wf(),
        ensures
            final(self)@.wf(),
            final(self)@ == spec_start_edit(old(self)@),
    {
        if self.applications.is_empty() {
            return ;
        }
        let index = self.list_selected;
        self.form_mode = Some(FormMode::Edit(index));
        self.screen = Screen::Form;
        self.form_field = FormField::CompanyName;
        self.form_data = self.applications[index].clone();

        self.status_dropdown_selected = match self.form_data.status {
            Status::Applied => 0,
            Status::Interview => 1,
            Status::Offer => 2,
            Status::Rejected => 3,
        };

        self.platform_dropdown_selected = match &self.form_data.platform {
            Platform::LinkedIn => 0,
            Platform::Indeed => 1,
            Platform::CompanyWebsite => 2,
            Platform::Other(t) => {
                if *t == String::from_str("LinkedIn") {
                    0
                } else if *t == String::from_str("Indeed") {
                    1
                } else if *t == String::from_str("Company Website") {
                    2
                } else {
                    3
                }
            },
        };

        self.resume_modified_dropdown_selected = if self.form_data.resume_modified {
            0
        } else {
            1
        };
        proof {
            assert(self@ =~= spec_start_edit(old(self)@));
        }
    }

    /// Commit the form, as `spec_commit_form` says; the result reports
    /// whether the collection must be persisted.
    pub fn save_form(&mut self) -> (saved: bool)
        requires
            old(self)@.wf(),
            old(self)@.screen == Screen::Form,
        ensures
            final(self)@.wf(),
            final(self)@ == spec_commit_form(old(self)@),
            saved == spec_commit_saves(old(self)@),
    {
        if is_blank(&self.form_data.company_name) {
            return false;
        }
        match self.form_mode {
            Some(FormMode::Add) => {
                let rec = self.form_data.clone();
                self.applications.push(rec);
            },
            Some(FormMode::Edit(index)) => {
                let rec = self.form_data.clone();
                self.applications[index] = rec;
            },
            None => {},
        }
        self.screen = Screen::List;
        self.form_mode = None;
        proof {
            let o = old(self)@;
            match o.form_mode {
                Option::Some(FormModeV::Add) => {
                    assert(self@.applications =~= o.applications.push(o.form_data));
                },
                Option::Some(FormModeV::Edit(i)) => {
                    assert(self@.applications =~= o.applications.update(i, o.form_data));
                },
                Option::None => {},
            }
            assert(self@ =~= spec_commit_form(old(self)@));
        }
        true
    }

    /// Close the form, discarding the draft.
    pub fn cancel_form(&mut self)
        requires
            old(self)@.wf(),
        ensures
            final(self)@.wf(),
            final(self)@ == spec_cancel_form(old(self)@),
    {
        self.screen = Screen::List;
        self.form_mode = None;
        proof {
            assert(self@ =~= spec_cancel_form(old(self)@));
        }
    }

    /// Delete the record under the cursor, as `spec_delete_selected` says;
    /// the result reports whether the collection must be persisted.
    pub fn delete_selected(&mut self) -> (saved: bool)
        requires
            old(self)@.wf(),
            old(self)@.screen == Screen::List,
        ensures
            final(self)@.wf(),
            final(self)@ == spec_delete_selected(old(self)@),
            saved == (old(self)@.applications.len() > 0),
    {
        if !self.applications.is_empty() {
            self.applications.remove(self.list_selected);
            if self.list_selected >= self.applications.len() && self.list_selected > 0 {
                self.list_selected = self.list_selected - 1;
            }
            proof {
                let o = old(self)@;
                assert(self@.applications =~= o.applications.remove(o.list_selected));
                assert(self@ =~= spec_delete_selected(o));
            }
            true
        } else {
            false
        }
    }

    /// Cursor one up, clamped.
    pub fn select_previous(&mut self)
        requires
            old(self)@.wf(),
        ensures
            final(self)@.wf(),
            final(self)@ == spec_select_previous(old(self)@),
    {
        if !self.applications.is_empty() {
            if self.list_selected > 0 {
                self.list_selected = self.list_selected - 1;
            }
        }
        proof {
            assert(self@ =~= spec_select_previous(old(self)@));
        }
    }

    /// Cursor one down, clamped.
    pub fn select_next(&mut self)
        requires
            old(self)@.wf(),
        ensures
            final(self)@.wf(),
            final(self)@ == spec_select_next(old(self)@),
    {
        if !self.applications.is_empty() {
            if self.list_selected < self.applications.len() - 1 {
                self.list_selected = self.list_selected + 1;
            }
        }
        proof {
            assert(self@ =~= spec_select_next(old(self)@));
        }
    }

    /// To the chart screen, starting at the first chart type.
    pub fn show_chart(&mut self)
        requires
            old(self)@.wf(),
        ensures
            final(self)@.wf(),
            final(self)@ == spec_show_chart(old(self)@),
    {
        self.screen = Screen::Chart;
        self.chart_type = ChartType::ByResumeVersion;
        proof {
            assert(self@ =~= spec_show_chart(old(self)@));
        }
    }

    /// The next chart type, cyclically.
    pub fn next_chart(&mut self)
        requires
            old(self)@.wf(),
        ensures
            final(self)@.wf(),
            final(self)@ == spec_next_chart(old(self)@),
    {
        self.chart_type = self.chart_type.next();
        proof {
            assert(self@ =~= spec_next_chart(old(self)@));
        }
    }

    /// Back to the list screen.
    pub fn show_list(&mut self)
        requires
            old(self)@.wf(),
        ensures
            final(self)@.wf(),
            final(self)@ == spec_show_list(old(self)@),
    {
        self.screen = Screen::List;
        proof {
            assert(self@ =~= spec_show_list(old(self)@));
        }
    }

    /// The next form field, cyclically.
    pub fn next_field(&mut self)
        requires
            old(self)@.wf(),
        ensures
            final(self)@.wf(),
            final(self)@ == spec_next_field(old(self)@),
    {
        self.form_field = self.form_field.next();
        proof {
            assert(self@ =~= spec_next_field(old(self)@));
        }
    }

    /// The previous form field, cyclically.
    pub fn prev_field(&mut self)
        requires
            old(self)@.wf(),
        ensures
            final(self)@.wf(),
            final(self)@ == spec_prev_field(old(self)@),
    {
        self.form_field = self.form_field.prev();
        proof {
            assert(self@ =~= spec_prev_field(old(self)@));
        }
    }

    /// Stop processing input.
    pub fn quit(&mut self)
        requires
            old(self)@.wf(),
        ensures
            final(self)@.wf(),
            final(self)@ == spec_quit(old(self)@),
    {
        self.should_quit = true;
        proof {
            assert(self@ =~= spec_quit(old(self)@));
        }
    }
}

} // verus!
