use tagthing::dates::{
    formats, keep, opens_with_day_name, parse_date, parse_date_detailed, prefer, resolve, settle,
    stamp, stamp_at_default, DateFormat, Precedence, Timestamp, Trial, DATE_PRECEDENCE,
    DEFAULT_OFFSET,
};

fn at(secs: i64, offset: i32) -> Timestamp {
    Timestamp { secs, nanos: 0, offset }
}

#[test]
fn last_parseable_candidate_wins() {
    let candidates = vec![
        Some("2022-01-01T00:00:00+00:00".to_string()),
        Some("2023-06-15T10:20:30+02:00".to_string()),
        Some("garbage".to_string()),
    ];
    assert_eq!(resolve(&candidates), Some(at(1686817230, 7200)));
    assert_eq!(resolve(&candidates), parse_date("2023-06-15T10:20:30+02:00"));
}

#[test]
fn later_candidate_replaces_earlier_one() {
    let candidates = vec![
        Some("2022-01-01T00:00:00+00:00".to_string()),
        None,
        Some("2022-03-02".to_string()),
    ];
    assert_eq!(resolve(&candidates), Some(at(1646179200, 0)));
}

#[test]
fn no_candidate_gives_no_date() {
    assert_eq!(resolve(&vec![None, None, None]), None);
    assert_eq!(resolve(&vec![Some("garbage".to_string()), None, Some(String::new())]), None);
    assert_eq!(resolve(&Vec::new()), None);
}

#[test]
fn precedence_is_last_wins() {
    assert_eq!(DATE_PRECEDENCE, Precedence::LastWins);
    assert_eq!(DEFAULT_OFFSET, 0);
}

#[test]
fn keep_follows_the_precedence() {
    let dates = vec![None, Some(at(1, 0)), None, Some(at(2, 3600)), None];
    assert_eq!(keep(&dates, Precedence::LastWins), Some(at(2, 3600)));
    assert_eq!(keep(&dates, Precedence::FirstWins), Some(at(1, 0)));
    assert_eq!(keep(&vec![None, None], Precedence::LastWins), None);
    assert_eq!(keep(&vec![None, None], Precedence::FirstWins), None);
    assert_eq!(keep(&Vec::new(), Precedence::FirstWins), None);
}

#[test]
fn internet_timestamp_keeps_its_offset() {
    assert_eq!(parse_date("2023-06-15T10:20:30+02:00"), Some(at(1686817230, 7200)));
    assert_eq!(parse_date("2022-01-01T00:00:00+00:00"), Some(at(1640995200, 0)));
    assert_eq!(
        parse_date("2023-06-15T10:20:30.5-01:30"),
        Some(Timestamp { secs: 1686829830, nanos: 500_000_000, offset: -5400 })
    );
}

#[test]
fn text_without_offset_is_read_as_utc() {
    assert_eq!(parse_date("2022-03-02T22:37:46"), Some(at(1646260666, 0)));
    assert_eq!(DateFormat::Rfc3339.read("2022-03-02T22:37:46").ok(), None);
    assert_eq!(DateFormat::Rfc2822.read("2022-03-02T22:37:46").ok(), None);
    assert_eq!(DateFormat::DateTime.read("2022-03-02T22:37:46").ok(), Some(at(1646260666, 0)));
}

#[test]
fn email_timestamp_is_read() {
    assert_eq!(parse_date("Thu, 02 Mar 2022 22:37:46 +0000"), Some(at(1646260666, 0)));
    assert_eq!(
        DateFormat::Rfc2822.read("Thu, 02 Mar 2022 22:37:46 +0000").ok(),
        Some(at(1646260666, 0))
    );
    assert_eq!(DateFormat::Rfc3339.read("Thu, 02 Mar 2022 22:37:46 +0000").ok(), None);
    assert_eq!(parse_date("Tue, 1 Jul 2003 10:52:37 +0200"), Some(at(1057049557, 7200)));
    assert_eq!(parse_date("Wed, 18 Feb 2015 23:16:09 GMT"), Some(at(1424301369, 0)));
    assert_eq!(parse_date("18 Feb 2015 23:16:09 GMT"), Some(at(1424301369, 0)));
}

#[test]
fn day_name_is_not_held_against_the_date() {
    assert_eq!(parse_date("Wed, 02 Mar 2022 22:37:46 +0000"), Some(at(1646260666, 0)));
    assert_eq!(parse_date("mon, 02 Mar 2022 22:37:46 +0000"), Some(at(1646260666, 0)));
    assert_eq!(parse_date("SUN, 02 Mar 2022 22:37:46 +0000"), Some(at(1646260666, 0)));
    assert_eq!(parse_date("Xyz, 02 Mar 2022 22:37:46 +0000"), None);
    assert_eq!(parse_date("Thu; 02 Mar 2022 22:37:46 +0000"), None);
    assert_eq!(parse_date("Thu, 32 Mar 2022 22:37:46 +0000"), None);
    assert_eq!(parse_date("Thu,"), None);
}

#[test]
fn unreadable_text_has_no_date() {
    assert_eq!(parse_date("not-a-date"), None);
    assert_eq!(parse_date(""), None);
    assert_eq!(parse_date("garbage"), None);
}

#[test]
fn unreadable_text_reports_every_format() {
    let error = parse_date_detailed("not-a-date").unwrap_err();
    let order = formats();
    assert_eq!(order.len(), 8);
    assert_eq!(error.attempts.len(), order.len());
    for (attempt, format) in error.attempts.iter().zip(order.iter()) {
        assert_eq!(attempt.format, *format);
        assert!(!attempt.detail.is_empty());
        assert_eq!(format.read("not-a-date").unwrap_err(), attempt.detail);
    }
}

#[test]
fn detailed_parse_agrees_with_plain_parse() {
    for text in ["2022-03-02T22:37:46", "2023-06-15T10:20:30+02:00", "2022", "x", ""] {
        assert_eq!(parse_date_detailed(text).ok(), parse_date(text));
    }
}

#[test]
fn cascade_order() {
    assert_eq!(
        formats(),
        vec![
            DateFormat::Rfc3339,
            DateFormat::Rfc2822,
            DateFormat::DateTime,
            DateFormat::CameraDateTime,
            DateFormat::DateHourMinute,
            DateFormat::DateOnly,
            DateFormat::YearMonth,
            DateFormat::YearOnly,
        ]
    );
}

#[test]
fn camera_date_time() {
    assert_eq!(parse_date("2022:03:02 22:37:46"), Some(at(1646260666, 0)));
    assert_eq!(
        DateFormat::CameraDateTime.read("2022:03:02 22:37:46").ok(),
        Some(at(1646260666, 0))
    );
    assert_eq!(DateFormat::DateTime.read("2022:03:02 22:37:46").ok(), None);
}

#[test]
fn date_with_hour_and_minute() {
    assert_eq!(parse_date("2022-03-02T22:37"), Some(at(1646260620, 0)));
    assert_eq!(DateFormat::DateHourMinute.read("2022-03-02T22:37").ok(), Some(at(1646260620, 0)));
    assert_eq!(DateFormat::DateTime.read("2022-03-02T22:37").ok(), None);
}

#[test]
fn date_only_is_midnight() {
    assert_eq!(parse_date("2022-03-02"), Some(at(1646179200, 0)));
    assert_eq!(DateFormat::DateOnly.read("2022-03-02").ok(), Some(at(1646179200, 0)));
    assert_eq!(DateFormat::YearMonth.read("2022-03-02").ok(), None);
    assert_eq!(parse_date("2022-02-30"), None);
}

#[test]
fn year_and_month_is_the_first_day() {
    assert_eq!(parse_date("2022-03"), Some(at(1646092800, 0)));
    assert_eq!(DateFormat::YearMonth.read("2022-03").ok(), Some(at(1646092800, 0)));
    assert_eq!(DateFormat::DateOnly.read("2022-03").ok(), None);
    assert_eq!(parse_date("2022-13"), None);
}

#[test]
fn year_only_is_the_first_of_january() {
    assert_eq!(parse_date("2022"), Some(at(1640995200, 0)));
    assert_eq!(DateFormat::YearOnly.read("2022").ok(), Some(at(1640995200, 0)));
    assert_eq!(DateFormat::YearMonth.read("2022").ok(), None);
}

#[test]
fn settle_takes_the_first_accepted_trial() {
    let trials = vec![
        Trial { format: DateFormat::Rfc3339, outcome: Err("first".to_string()) },
        Trial { format: DateFormat::DateOnly, outcome: Ok(at(5, 0)) },
        Trial { format: DateFormat::YearOnly, outcome: Ok(at(9, 0)) },
    ];
    assert_eq!(settle(trials).ok(), Some(at(5, 0)));
}

#[test]
fn settle_reports_all_failures_in_order() {
    let trials = vec![
        Trial { format: DateFormat::Rfc2822, outcome: Err("first".to_string()) },
        Trial { format: DateFormat::YearOnly, outcome: Err("second".to_string()) },
    ];
    let error = settle(trials).unwrap_err();
    assert_eq!(error.attempts.len(), 2);
    assert_eq!(error.attempts[0].format, DateFormat::Rfc2822);
    assert_eq!(error.attempts[0].detail, "first");
    assert_eq!(error.attempts[1].format, DateFormat::YearOnly);
    assert_eq!(error.attempts[1].detail, "second");
    assert!(settle(Vec::new()).unwrap_err().attempts.is_empty());
}

#[test]
fn format_names_and_patterns() {
    assert_eq!(DateFormat::Rfc3339.name(), "rfc3339");
    assert_eq!(DateFormat::Rfc2822.name(), "rfc2822");
    assert_eq!(DateFormat::DateTime.pattern(), "%Y-%m-%dT%H:%M:%S");
    assert_eq!(DateFormat::CameraDateTime.pattern(), "%Y:%m:%d %H:%M:%S");
    assert_eq!(DateFormat::DateHourMinute.pattern(), "%Y-%m-%dT%H:%M");
    assert_eq!(DateFormat::DateOnly.completion(), "T00:00:00");
    assert_eq!(DateFormat::YearMonth.completion(), "-01T00:00:00");
    assert_eq!(DateFormat::YearOnly.completion(), "-01-01T00:00:00");
    assert_eq!(DateFormat::DateTime.completion(), "");
}

#[test]
fn day_name_is_recognised_in_any_case() {
    for text in ["Mon, x", "tue,", "WED, 1", "tHu,2", "Fri, ", "sat,", "SUN,"] {
        assert!(opens_with_day_name(text), "{}", text);
    }
    for text in ["", "Mon", "Mon ", "Mo,", "Mon;", "Xyz,", "Mun,", " Mon,", "Thursday,", "\u{e9}on,"] {
        assert!(!opens_with_day_name(text), "{}", text);
    }
}

#[test]
fn strict_reading_is_preferred() {
    let strict: Result<Timestamp, String> = Ok(at(1, 0));
    let lenient: Result<Timestamp, String> = Ok(at(2, 0));
    let failed: Result<Timestamp, String> = Err("strict".to_string());
    let failed_too: Result<Timestamp, String> = Err("lenient".to_string());
    assert_eq!(prefer(strict.clone(), lenient.clone()), strict);
    assert_eq!(prefer(strict.clone(), failed_too.clone()), strict);
    assert_eq!(prefer(failed.clone(), lenient.clone()), lenient);
    assert_eq!(prefer(failed.clone(), failed_too), failed);
}

#[test]
fn failed_email_reading_reports_the_strict_failure() {
    let with_name = DateFormat::Rfc2822.read("Thu, 32 Mar 2022 22:37:46 +0000").unwrap_err();
    let without = DateFormat::Rfc2822.read(" 32 Mar 2022 22:37:46 +0000").unwrap_err();
    assert_eq!(with_name, without);
    let mismatch = DateFormat::Rfc2822.read("Thu, 02 Mar 2022 22:37:46").unwrap_err();
    assert!(!mismatch.is_empty());
}

#[test]
fn readings_become_timestamps() {
    assert_eq!(stamp(Ok((5, 6, 7))), Ok(Timestamp { secs: 5, nanos: 6, offset: 7 }));
    assert_eq!(stamp(Err("no".to_string())), Err("no".to_string()));
    assert_eq!(stamp_at_default(Ok((5, 6))), Ok(Timestamp { secs: 5, nanos: 6, offset: 0 }));
    assert_eq!(stamp_at_default(Err("no".to_string())), Err("no".to_string()));
}
