use jobtrack::chart::{
    aggregate_by_platform, aggregate_by_resume_version, aggregate_by_status, chart_has_data,
};
use jobtrack::date::Date;
use jobtrack::model::{Application, Platform, Status};

fn record(company: &str, platform: Platform, status: Status, version: &str) -> Application {
    Application {
        company_name: company.to_string(),
        platform,
        resume_modified: false,
        resume_version: version.to_string(),
        status,
        applied_date: Date { year: 2024, month: 1, day: 15 },
        notes: String::new(),
    }
}

#[test]
fn by_status_on_empty_collection_reports_all_four_at_zero() {
    let apps: Vec<Application> = vec![];
    let data = aggregate_by_status(&apps);
    assert_eq!(
        data,
        vec![
            ("Applied".to_string(), 0),
            ("Interview".to_string(), 0),
            ("Offer".to_string(), 0),
            ("Rejected".to_string(), 0),
        ]
    );
    assert!(!chart_has_data(&data));
}

#[test]
fn grouped_charts_on_empty_collection_are_empty() {
    let apps: Vec<Application> = vec![];
    let by_platform = aggregate_by_platform(&apps);
    let by_version = aggregate_by_resume_version(&apps);
    assert!(by_platform.is_empty());
    assert!(by_version.is_empty());
    assert!(!chart_has_data(&by_platform));
    assert!(!chart_has_data(&by_version));
}

#[test]
fn two_records_scenario() {
    let apps = vec![
        record("Acme", Platform::LinkedIn, Status::Applied, ""),
        record("Beta", Platform::LinkedIn, Status::Offer, ""),
    ];
    let by_platform = aggregate_by_platform(&apps);
    assert_eq!(by_platform, vec![("LinkedIn".to_string(), 2)]);
    let by_status = aggregate_by_status(&apps);
    assert_eq!(
        by_status,
        vec![
            ("Applied".to_string(), 1),
            ("Interview".to_string(), 0),
            ("Offer".to_string(), 1),
            ("Rejected".to_string(), 0),
        ]
    );
    assert!(chart_has_data(&by_platform));
    assert!(chart_has_data(&by_status));
}

#[test]
fn platform_counts_sort_by_count_descending_then_label_ascending() {
    let apps = vec![
        record("A", Platform::Indeed, Status::Applied, ""),
        record("B", Platform::LinkedIn, Status::Applied, ""),
        record("C", Platform::Indeed, Status::Applied, ""),
        record("D", Platform::Other("Referral".to_string()), Status::Applied, ""),
        record("E", Platform::LinkedIn, Status::Applied, ""),
        record("F", Platform::CompanyWebsite, Status::Applied, ""),
    ];
    let data = aggregate_by_platform(&apps);
    assert_eq!(
        data,
        vec![
            ("Indeed".to_string(), 2),
            ("LinkedIn".to_string(), 2),
            ("Company Website".to_string(), 1),
            ("Referral".to_string(), 1),
        ]
    );
}

#[test]
fn empty_resume_version_counts_under_the_none_label() {
    let apps = vec![
        record("A", Platform::LinkedIn, Status::Applied, ""),
        record("B", Platform::LinkedIn, Status::Applied, "v1"),
        record("C", Platform::LinkedIn, Status::Applied, ""),
    ];
    let data = aggregate_by_resume_version(&apps);
    assert_eq!(
        data,
        vec![("None".to_string(), 2), ("v1".to_string(), 1)]
    );
}

#[test]
fn resume_version_chart_truncates_to_top_ten() {
    let mut apps = Vec::new();
    for name in ["a", "b", "c", "d", "e", "f", "g", "h", "i", "j", "k", "l"] {
        apps.push(record("X", Platform::LinkedIn, Status::Applied, name));
    }
    apps.push(record("Y", Platform::LinkedIn, Status::Applied, "l"));
    let data = aggregate_by_resume_version(&apps);
    assert_eq!(data.len(), 10);
    assert_eq!(data[0], ("l".to_string(), 2));
    assert_eq!(data[1], ("a".to_string(), 1));
    assert_eq!(data[9], ("i".to_string(), 1));
}

#[test]
fn custom_platform_texts_group_by_their_text() {
    let apps = vec![
        record("A", Platform::Other("Referral".to_string()), Status::Applied, ""),
        record("B", Platform::Other("Referral".to_string()), Status::Applied, ""),
        record("C", Platform::Other("Fair".to_string()), Status::Applied, ""),
    ];
    let data = aggregate_by_platform(&apps);
    assert_eq!(
        data,
        vec![("Referral".to_string(), 2), ("Fair".to_string(), 1)]
    );
}
