use jobtrack::codec::{decode_records, encode_records};
use jobtrack::date::{parse_date_chars, render_date, Date};
use jobtrack::model::{Application, Platform, Status};

fn record(
    company: &str,
    platform: Platform,
    resume_modified: bool,
    version: &str,
    status: Status,
    d: Date,
    notes: &str,
) -> Application {
    Application {
        company_name: company.to_string(),
        platform,
        resume_modified,
        resume_version: version.to_string(),
        status,
        applied_date: d,
        notes: notes.to_string(),
    }
}

fn chars(s: &str) -> Vec<char> {
    s.chars().collect()
}

#[test]
fn round_trip_empty_collection() {
    let apps: Vec<Application> = vec![];
    let text = encode_records(&apps);
    let back = decode_records(&text);
    assert_eq!(back, Some(vec![]));
}

#[test]
fn round_trip_full_collection() {
    let apps = vec![
        record(
            "Acme",
            Platform::LinkedIn,
            true,
            "v2",
            Status::Applied,
            Date { year: 2024, month: 2, day: 29 },
            "phone screen done",
        ),
        record(
            "Beta GmbH",
            Platform::Other("Referral: Zoë".to_string()),
            false,
            "",
            Status::Interview,
            Date { year: 999, month: 12, day: 31 },
            "notes with\nnewline and 1:2 colons",
        ),
        record(
            "",
            Platform::CompanyWebsite,
            false,
            "v1",
            Status::Offer,
            Date { year: 2025, month: 1, day: 1 },
            "",
        ),
        record(
            "Delta",
            Platform::Indeed,
            true,
            "v3",
            Status::Rejected,
            Date { year: 2024, month: 6, day: 30 },
            "—",
        ),
    ];
    let text = encode_records(&apps);
    let back = decode_records(&text);
    assert_eq!(back, Some(apps));
}

#[test]
fn decode_rejects_garbage() {
    assert_eq!(decode_records(&chars("hello")), None);
    assert_eq!(decode_records(&chars("")), None);
    assert_eq!(decode_records(&chars(":")), None);
    assert_eq!(decode_records(&chars("1:")), None);
}

#[test]
fn decode_rejects_trailing_text() {
    let apps: Vec<Application> = vec![];
    let mut text = encode_records(&apps);
    text.push('x');
    assert_eq!(decode_records(&text), None);
}

#[test]
fn decode_rejects_truncated_record() {
    let apps = vec![record(
        "Acme",
        Platform::LinkedIn,
        false,
        "v1",
        Status::Applied,
        Date { year: 2024, month: 1, day: 2 },
        "n",
    )];
    let mut text = encode_records(&apps);
    text.pop();
    assert_eq!(decode_records(&text), None);
}

#[test]
fn decode_rejects_impossible_date() {
    // one record, all fields empty but the date, which names no real day
    let text = chars("1:0:L00:A2023-02-290:");
    assert_eq!(decode_records(&text), None);
}

#[test]
fn render_date_is_zero_padded() {
    let d = Date { year: 987, month: 3, day: 5 };
    let text: String = render_date(&d).into_iter().collect();
    assert_eq!(text, "0987-03-05");
}

#[test]
fn parse_date_accepts_real_days_only() {
    assert_eq!(
        parse_date_chars(&chars("2024-02-29")),
        Some(Date { year: 2024, month: 2, day: 29 })
    );
    assert_eq!(parse_date_chars(&chars("2023-02-29")), None);
    assert_eq!(parse_date_chars(&chars("2024-13-01")), None);
    assert_eq!(parse_date_chars(&chars("2024-00-10")), None);
    assert_eq!(parse_date_chars(&chars("2024-04-31")), None);
    assert_eq!(parse_date_chars(&chars("2024-1-31")), None);
    assert_eq!(parse_date_chars(&chars("2024-01-311")), None);
    assert_eq!(
        parse_date_chars(&chars("1900-02-28")),
        Some(Date { year: 1900, month: 2, day: 28 })
    );
    assert_eq!(parse_date_chars(&chars("1900-02-29")), None);
    assert_eq!(
        parse_date_chars(&chars("2000-02-29")),
        Some(Date { year: 2000, month: 2, day: 29 })
    );
}
