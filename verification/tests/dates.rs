use chrono::Datelike;
use uriel::digest::{
    digest_channel_id, digest_dates, digest_prompt, digest_request, digest_section, digest_text,
};
use uriel::json::Json;
use uriel::vault_io::{
    date_heading, date_text_of, dated_note_name, days_before, log_entry, LogDate, LOG_DIR,
};

fn day(y: i32, m: u32, d: u32) -> LogDate {
    LogDate::new(y, m, d).expect("valid date")
}

#[test]
fn log_date_validity_follows_calendar() {
    assert!(LogDate::new(2023, 2, 29).is_none());
    assert!(LogDate::new(2024, 2, 29).is_some());
    assert!(LogDate::new(1900, 2, 29).is_none());
    assert!(LogDate::new(2000, 2, 29).is_some());
    assert!(LogDate::new(2023, 4, 31).is_none());
    assert!(LogDate::new(2023, 13, 1).is_none());
    assert!(LogDate::new(2023, 0, 1).is_none());
    assert!(LogDate::new(400000, 1, 1).is_none());
    assert!(LogDate::new(-4, 2, 29).is_some());
}

#[test]
fn log_date_validity_agrees_with_chrono() {
    for y in [-262144, -262143, -4, 0, 1900, 2000, 2023, 2024, 262142, 262143] {
        for m in 0..=13u32 {
            for d in [0u32, 1, 28, 29, 30, 31, 32] {
                assert_eq!(
                    LogDate::new(y, m, d).is_some(),
                    chrono::NaiveDate::from_ymd_opt(y, m, d).is_some(),
                    "{} {} {}",
                    y,
                    m,
                    d
                );
            }
        }
    }
}

#[test]
fn date_text_is_iso() {
    assert_eq!(date_text_of(&day(2023, 10, 25)), "2023-10-25");
    assert_eq!(date_text_of(&day(12345, 6, 7)), "+12345-06-07");
    assert_eq!(date_text_of(&day(-1, 1, 1)), "-0001-01-01");
    assert_eq!(date_text_of(&day(5, 1, 9)), "0005-01-09");
    assert_eq!(date_heading(&day(2023, 10, 25)), "2023-10-25");
    assert_eq!(date_heading(&day(12345, 6, 7)), "+12345-06-07");
}

#[test]
fn days_before_crosses_month_and_year() {
    let d = days_before(&day(2024, 3, 1), 1);
    assert_eq!((d.year(), d.month(), d.day()), (2024, 2, 29));
    let d = days_before(&day(2023, 1, 1), 7);
    assert_eq!((d.year(), d.month(), d.day()), (2022, 12, 25));
    let d = days_before(&day(2023, 5, 10), 0);
    assert_eq!((d.year(), d.month(), d.day()), (2023, 5, 10));
}

#[test]
fn days_before_goes_back_any_number_of_days() {
    let d = days_before(&day(2024, 3, 1), 365);
    assert_eq!((d.year(), d.month(), d.day()), (2023, 3, 2));
    let d = days_before(&day(2024, 1, 1), 1000);
    assert_eq!((d.year(), d.month(), d.day()), (2021, 4, 6));
}

#[test]
fn note_name_and_entry() {
    assert_eq!(dated_note_name(&day(2023, 10, 25)), "2023-10-25.md");
    assert_eq!(log_entry("hello"), "hello\n");
    assert_eq!(LOG_DIR, "Log");
}

#[test]
fn digest_reads_eight_days() {
    let today = day(2024, 3, 3);
    let dates = digest_dates(&today);
    assert_eq!(dates.len(), 8);
    let texts: Vec<String> = dates.iter().map(|d| date_text_of(d)).collect();
    assert_eq!(texts[0], "2024-03-03");
    assert_eq!(texts[2], "2024-03-01");
    assert_eq!(texts[3], "2024-02-29");
    assert_eq!(texts[7], "2024-02-25");
    let start = chrono::NaiveDate::from_ymd_opt(2024, 3, 3).unwrap();
    for (i, d) in dates.iter().enumerate() {
        let c = start - chrono::Duration::days(i as i64);
        assert_eq!((d.year(), d.month(), d.day()), (c.year(), c.month(), c.day()));
    }
}

#[test]
fn digest_section_and_prompt() {
    assert_eq!(
        digest_section(&day(2024, 1, 2), "did things"),
        "--- Log for 2024-01-02 ---\ndid things\n\n"
    );
    assert_eq!(digest_prompt(""), None);
    assert_eq!(
        digest_prompt("LOGS").unwrap(),
        "Here are my logs for the past 7 days:\n\nLOGS\n\nIdentify 3 core patterns and 1 crucial objective for today. Format nicely."
    );
}

#[test]
fn digest_request_uses_pro_model() {
    let (url, body) = digest_request("KEY", "P");
    assert_eq!(
        url,
        "https://generativelanguage.googleapis.com/v1beta/models/gemini-1.5-pro:generateContent?key=KEY"
    );
    let expected = Json::Object(vec![(
        "contents".to_string(),
        Json::Array(vec![Json::Object(vec![(
            "parts".to_string(),
            Json::Array(vec![Json::Object(vec![("text".to_string(), Json::Str("P".to_string()))])]),
        )])]),
    )]);
    assert_eq!(body, expected);
}

#[test]
fn digest_text_falls_back() {
    assert_eq!(digest_text(None), "Failed to generate digest.");
    assert_eq!(digest_text(Some(&Json::Null)), "Failed to generate digest.");
    let body = Json::Object(vec![(
        "candidates".to_string(),
        Json::Array(vec![Json::Object(vec![(
            "content".to_string(),
            Json::Object(vec![(
                "parts".to_string(),
                Json::Array(vec![Json::Object(vec![("text".to_string(), Json::Str("D".to_string()))])]),
            )]),
        )])]),
    )]);
    assert_eq!(digest_text(Some(&body)), "D");
}

#[test]
fn digest_channel_id_parses_like_std() {
    assert_eq!(digest_channel_id("3333333333333333333"), Some(3333333333333333333));
    assert_eq!(digest_channel_id("+5"), Some(5));
    assert_eq!(digest_channel_id("007"), Some(7));
    assert_eq!(digest_channel_id("-1"), None);
    assert_eq!(digest_channel_id(""), None);
    assert_eq!(digest_channel_id("+"), None);
    assert_eq!(digest_channel_id(" 1"), None);
    assert_eq!(digest_channel_id("18446744073709551615"), Some(u64::MAX));
    assert_eq!(digest_channel_id("18446744073709551616"), None);
}
