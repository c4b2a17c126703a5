//! The record model: application status, platform, and the application
//! record itself, with their mathematical views.

use vstd::prelude::*;
use crate::date::Date;

verus! {

// ---------------------------------------------------------------------------
// Status
// ---------------------------------------------------------------------------

/// Where an application stands.
#[derive(Clone, Copy, PartialEq, Eq, Structural, Debug)]
pub enum Status {
    Applied,
    Interview,
    Offer,
    Rejected,
}

impl Status {
    /// The four statuses in their fixed display order.
    pub open spec fn all_spec() -> Seq<Status> {
        seq![Status::Applied, Status::Interview, Status::Offer, Status::Rejected]
    }

    /// The statuses in their fixed display order.
    pub fn all() -> (v: Vec<Status>)
        ensures
            v@ == Status::all_spec(),
    {
        let v = vec![Status::Applied, Status::Interview, Status::Offer, Status::Rejected];
        proof {
            assert(v@ =~= Status::all_spec());
        }
        v
    }

    /// The status's position in the display order.
    pub open spec fn index_spec(self) -> int {
        match self {
            Status::Applied => 0,
            Status::Interview => 1,
            Status::Offer => 2,
            Status::Rejected => 3,
        }
    }

    pub open spec fn label_spec(self) -> Seq<char> {
        match self {
            Status::Applied => "Applied"@,
            Status::Interview => "Interview"@,
            Status::Offer => "Offer"@,
            Status::Rejected => "Rejected"@,
        }
    }

    /// The status's display label.
    pub fn as_str(&self) -> (r: &'static str)
        ensures
            r@ == self.label_spec(),
    {
        match self {
            Status::Applied => "Applied",
            Status::Interview => "Interview",
            Status::Offer => "Offer",
            Status::Rejected => "Rejected",
        }
    }
}

// ---------------------------------------------------------------------------
// Platform
// ---------------------------------------------------------------------------

/// Where the application was made: three named presets, or any custom text.
#[derive(Debug)]
pub enum Platform {
    LinkedIn,
    Indeed,
    CompanyWebsite,
    Other(String),
}

/// The mathematical view of a platform.
pub enum PlatformV {
    LinkedIn,
    Indeed,
    CompanyWebsite,
    Other(Seq<char>),
}

impl View for Platform {
    type V = PlatformV;

    open spec fn view(&self) -> PlatformV {
        match self {
            Platform::LinkedIn => PlatformV::LinkedIn,
            Platform::Indeed => PlatformV::Indeed,
            Platform::CompanyWebsite => PlatformV::CompanyWebsite,
            Platform::Other(s) => PlatformV::Other(s@),
        }
    }
}

impl Clone for Platform {
    fn clone(&self) -> (r: Self)
        ensures
            r == *self,
    {
        match self {
            Platform::LinkedIn => Platform::LinkedIn,
            Platform::Indeed => Platform::Indeed,
            Platform::CompanyWebsite => Platform::CompanyWebsite,
            Platform::Other(s) => Platform::Other(s.clone()),
        }
    }
}

impl PartialEq for Platform {
    fn eq(&self, other: &Platform) -> (r: bool) {
        match (self, other) {
            (Platform::LinkedIn, Platform::LinkedIn) => true,
            (Platform::Indeed, Platform::Indeed) => true,
            (Platform::CompanyWebsite, Platform::CompanyWebsite) => true,
            (Platform::Other(a), Platform::Other(b)) => *a == *b,
            _ => false,
        }
    }
}

impl vstd::std_specs::cmp::PartialEqSpecImpl for Platform {
    open spec fn obeys_eq_spec() -> bool {
        true
    }

    open spec fn eq_spec(&self, other: &Platform) -> bool {
        self@ == other@
    }
}

impl PlatformV {
    /// The display text: the preset's name, or the custom text itself.
    pub open spec fn label_spec(self) -> Seq<char> {
        match self {
            PlatformV::LinkedIn => "LinkedIn"@,
            PlatformV::Indeed => "Indeed"@,
            PlatformV::CompanyWebsite => "Company Website"@,
            PlatformV::Other(s) => s,
        }
    }
}

/// The platform a given display text names: one of the presets, or custom.
pub open spec fn spec_platform_from(s: Seq<char>) -> PlatformV {
    if s == "LinkedIn"@ {
        PlatformV::LinkedIn
    } else if s == "Indeed"@ {
        PlatformV::Indeed
    } else if s == "Company Website"@ {
        PlatformV::CompanyWebsite
    } else {
        PlatformV::Other(s)
    }
}

impl Platform {
    /// The dropdown's option labels, in order; the last is the custom branch.
    pub fn presets() -> (v: Vec<&'static str>)
        ensures
            v@.len() == 4,
            v@[0]@ == "LinkedIn"@,
            v@[1]@ == "Indeed"@,
            v@[2]@ == "Company Website"@,
            v@[3]@ == "Other"@,
    {
        vec!["LinkedIn", "Indeed", "Company Website", "Other"]
    }

    /// The platform a display text names.
    pub fn from_str(s: &str) -> (p: Platform)
        ensures
            p@ == spec_platform_from(s@),
    {
        let owned: String = s.to_owned();
        if owned == String::from_str("LinkedIn") {
            Platform::LinkedIn
        } else if owned == String::from_str("Indeed") {
            Platform::Indeed
        } else if owned == String::from_str("Company Website") {
            Platform::CompanyWebsite
        } else {
            Platform::Other(owned)
        }
    }

    /// The display text of the platform.
    pub fn as_str(&self) -> (r: String)
        ensures
            r@ == self@.label_spec(),
    {
        match self {
            Platform::LinkedIn => String::from_str("LinkedIn"),
            Platform::Indeed => String::from_str("Indeed"),
            Platform::CompanyWebsite => String::from_str("Company Website"),
            Platform::Other(s) => s.clone(),
        }
    }
}

// ---------------------------------------------------------------------------
// Application record
// ---------------------------------------------------------------------------

/// One job application record.
#[derive(Debug)]
pub struct Application {
    pub company_name: String,
    pub platform: Platform,
    pub resume_modified: bool,
    pub resume_version: String,
    pub status: Status,
    pub applied_date: Date,
    pub notes: String,
}

/// The mathematical view of a record.
#[verifier::ext_equal]
pub struct ApplicationV {
    pub company_name: Seq<char>,
    pub platform: PlatformV,
    pub resume_modified: bool,
    pub resume_version: Seq<char>,
    pub status: Status,
    pub applied_date: Date,
    pub notes: Seq<char>,
}

impl View for Application {
    type V = ApplicationV;

    open spec fn view(&self) -> ApplicationV {
        ApplicationV {
            company_name: self.company_name@,
            platform: self.platform@,
            resume_modified: self.resume_modified,
            resume_version: self.resume_version@,
            status: self.status,
            applied_date: self.applied_date,
            notes: self.notes@,
        }
    }
}

impl Clone for Application {
    fn clone(&self) -> (r: Self)
        ensures
            r == *self,
    {
        Application {
            company_name: self.company_name.clone(),
            platform: self.platform.clone(),
            resume_modified: self.resume_modified,
            resume_version: self.resume_version.clone(),
            status: self.status,
            applied_date: self.applied_date,
            notes: self.notes.clone(),
        }
    }
}

impl PartialEq for Application {
    fn eq(&self, other: &Application) -> (r: bool) {
        self.company_name == other.company_name && self.platform == other.platform
            && self.resume_modified == other.resume_modified && self.resume_version
            == other.resume_version && self.status == other.status && self.applied_date
            == other.applied_date && self.notes == other.notes
    }
}

impl vstd::std_specs::cmp::PartialEqSpecImpl for Application {
    open spec fn obeys_eq_spec() -> bool {
        true
    }

    open spec fn eq_spec(&self, other: &Application) -> bool {
        self@ == other@
    }
}

impl ApplicationV {
    /// A record as the form first offers it: everything empty or at its
    /// default, the date some real day.
    pub open spec fn is_fresh(self) -> bool {
        self.company_name.len() == 0 && self.platform == PlatformV::LinkedIn
            && !self.resume_modified && self.resume_version.len() == 0 && self.status
            == Status::Applied && self.applied_date.wf() && self.notes.len() == 0
    }

    /// A structurally sound record: its date names a real day.
    pub open spec fn wf(self) -> bool {
        self.applied_date.wf()
    }
}

impl Application {
    /// A fresh default record; its date is the current local date.
    pub fn new() -> (a: Application)
        ensures
            a@.is_fresh(),
    {
        Application {
            company_name: String::new(),
            platform: Platform::LinkedIn,
            resume_modified: false,
            resume_version: String::new(),
            status: Status::Applied,
            applied_date: crate::date::current_date(),
            notes: String::new(),
        }
    }
}

} // verus!
