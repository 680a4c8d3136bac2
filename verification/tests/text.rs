use exam_calendar::dates::{
    ics_date_text, ics_datetime_text, parse_date, parse_datetime, parse_rfc3339, Date, Moment,
};
use exam_calendar::files::{calendar_of_file, exported_file, generated_file, is_json_file};
use exam_calendar::json::{find_text, parse_i64_vec, write_i64_vec};
use exam_calendar::model::is_false;
use exam_calendar::text::{
    chars_of, decimal_text, ends_with, find_first, find_last, is_blank, is_text_before,
    is_white_space, same_text, starts_with, text_of, trim,
};
use exam_calendar::{CalendarFile, Event, EventStatus, GenerationOptions, Source};

fn calendar() -> CalendarFile {
    CalendarFile {
        id: "a.b-c_1".to_string(),
        title: "Title".to_string(),
        year: 2026,
        region: "CN".to_string(),
        exam_type: "exam".to_string(),
        timezone: "UTC".to_string(),
        updated_at: None,
        source: Some(Source { name: "n".to_string(), url: "u".to_string() }),
        default_alarm_minutes: Vec::new(),
        events: Vec::new(),
    }
}

#[test]
fn white_space_is_that_of_unicode() {
    for code in 0..=0x10ffffu32 {
        if let Some(c) = char::from_u32(code) {
            assert_eq!(is_white_space(c), c.is_whitespace(), "{:x}", code);
        }
    }
}

#[test]
fn trims_like_the_standard_library() {
    for s in ["", " ", "\u{3000}\t", "a", " a b\n", "a ", "\u{85}é\u{2028}", "\r\nx y\r\n", "考 "] {
        assert_eq!(trim(s), s.trim());
        assert_eq!(is_blank(s), s.trim().is_empty());
    }
}

#[test]
fn finds_characters_and_ends() {
    let chars = chars_of("a=é=b");
    assert_eq!(chars, vec!['a', '=', 'é', '=', 'b']);
    assert_eq!(find_first(&chars, '='), Some(1));
    assert_eq!(find_last(&chars, '='), Some(3));
    assert_eq!(find_first(&chars, 'x'), None);
    assert_eq!(find_last(&chars, 'x'), None);
    assert_eq!(text_of(&chars, 2, 4), "é=");
    assert_eq!(text_of(&chars, 5, 5), "");
    assert!(ends_with("考试", "试") && !ends_with("试", "考试") && ends_with("x", ""));
    assert!(starts_with("考试", "考") && !starts_with("考", "考试") && starts_with("", ""));
    assert!(same_text("a", "a") && !same_text("a", "b"));
}

#[test]
fn texts_are_ordered() {
    let texts = ["", "A", "a", "a.", "aa", "b", "\u{e9}", "考", "考试", "\u{1f600}"];
    for (i, a) in texts.iter().enumerate() {
        for (j, b) in texts.iter().enumerate() {
            assert_eq!(is_text_before(a, b), i < j);
            assert_eq!(a < b, i < j);
        }
    }
}

#[test]
fn decimal_numbers() {
    for n in [0, 7, 10, 99, 100, -1, -10, i64::MAX, i64::MIN] {
        assert_eq!(decimal_text(n), n.to_string());
    }
}

#[test]
fn reads_dates() {
    assert_eq!(parse_date("2024-02-29"), Ok(Date { year: 2024, month: 2, day: 29 }));
    assert_eq!(
        parse_date("2023-02-29"),
        Err("invalid date '2023-02-29', expected YYYY-MM-DD".to_string())
    );
    assert_eq!(parse_date("0000-01-01"), Ok(Date { year: 0, month: 1, day: 1 }));
    assert_eq!(parse_date("9999-12-31"), Ok(Date { year: 9999, month: 12, day: 31 }));
    assert_eq!(
        parse_datetime("2026-06-07T09:08:07"),
        Ok(Moment {
            date: Date { year: 2026, month: 6, day: 7 },
            hour: 9,
            minute: 8,
            second: 7,
            nano: 0
        })
    );
    assert_eq!(
        parse_datetime("2026-06-07 09:08:07"),
        Err("invalid datetime '2026-06-07 09:08:07', expected YYYY-MM-DDTHH:MM:SS".to_string())
    );
    assert_eq!(
        parse_rfc3339("2026-01-01T00:30:00.5+01:00"),
        Ok(Moment {
            date: Date { year: 2025, month: 12, day: 31 },
            hour: 23,
            minute: 30,
            second: 0,
            nano: 500_000_000
        })
    );
    assert_eq!(
        parse_rfc3339(""),
        Err("invalid updated_at '', expected RFC3339".to_string())
    );
}

#[test]
fn leap_seconds_are_kept() {
    let leap = parse_datetime("2016-12-31T23:59:60").unwrap();
    assert_eq!((leap.second, leap.nano), (59, 1_000_000_000));
    assert_eq!(ics_datetime_text(&leap), "20161231T235960");
    let before = parse_datetime("2016-12-31T23:59:59").unwrap();
    let after = parse_datetime("2017-01-01T00:00:00").unwrap();
    assert!(before.is_before(&leap) && leap.is_before(&after) && !leap.is_before(&leap));
}

#[test]
fn every_day_of_some_years_is_read_back() {
    for year in [0, 1, 1900, 2000, 2024, 2026, 9999] {
        let mut last: Option<Date> = None;
        for month in 1..=12u32 {
            for day in 1..=31u32 {
                let text = format!("{:04}-{:02}-{:02}", year, month, day);
                if let Ok(date) = parse_date(&text) {
                    assert_eq!(date, Date { year, month, day });
                    assert_eq!(
                        ics_date_text(&date),
                        format!("{:04}{:02}{:02}", year, month, day)
                    );
                    if let Some(last) = last {
                        assert!(last.is_before(&date) && !date.is_before(&last));
                    }
                    last = Some(date);
                }
            }
        }
    }
}

#[test]
fn writes_years_of_any_size() {
    let text = |year: i32| ics_date_text(&Date { year, month: 1, day: 2 });
    assert_eq!(text(12), "00120102");
    assert_eq!(text(10000), "+100000102");
    assert_eq!(text(-5), "-00050102");
    assert_eq!(text(262142), "+2621420102");
    assert_eq!(text(-262143), "-2621430102");
}

#[test]
fn lists_of_numbers() {
    for list in [vec![], vec![0], vec![1440, 60], vec![i64::MIN, -1, i64::MAX]] {
        let json = write_i64_vec(&list).unwrap();
        assert_eq!(parse_i64_vec(&json), Ok(list));
    }
    assert_eq!(write_i64_vec(&vec![1440, 60]).unwrap(), "[1440,60]");
    assert_eq!(write_i64_vec(&vec![]).unwrap(), "[]");
    assert_eq!(parse_i64_vec(" [ 1 , 2 ] "), Ok(vec![1, 2]));
    assert!(parse_i64_vec("[1.5]").is_err());
    assert!(parse_i64_vec("{}").unwrap_err().contains("invalid type: map"));
}

#[test]
fn texts_in_json() {
    let json = r#"{"a":[{"b":"found"},1]}"#;
    assert_eq!(find_text(json, "/a/0/b"), Some("found".to_string()));
    assert_eq!(find_text(json, "/a/1"), None);
    assert_eq!(find_text(json, "/a/2"), None);
    assert_eq!(find_text("no json", ""), None);
}

#[test]
fn json_files_by_name() {
    for name in ["a.json", "..json", "a.b.json", "考.json"] {
        assert!(is_json_file(name), "{}", name);
    }
    for name in [".json", "json", "a.JSON", "a.json5", "a.ics", ""] {
        assert!(!is_json_file(name), "{}", name);
        assert_ne!(
            std::path::Path::new(name).extension().and_then(|e| e.to_str()),
            Some("json")
        );
    }
}

#[test]
fn exported_calendars() {
    let file = exported_file(&calendar(), "{}");
    assert_eq!(file.name, "a.b-c_1.json");
    assert_eq!(file.contents, "{}\n");
    assert!(is_json_file(&file.name));
}

#[test]
fn generated_calendars() {
    let file = generated_file("in/a.json", &calendar()).unwrap();
    assert_eq!(file.name, "a.b-c_1.ics");
    assert_eq!(file.contents, exam_calendar::render_calendar(&calendar()).unwrap());
    let mut bad = calendar();
    bad.id = "../up".to_string();
    assert_eq!(
        generated_file("in/a.json", &bad).unwrap_err(),
        "in/a.json: calendar id can only contain ASCII letters, numbers, '-', '_', '.'"
    );
}

#[test]
fn files_without_a_calendar() {
    assert_eq!(
        calendar_of_file("in/a.json", Err("EOF".to_string())).unwrap_err(),
        "in/a.json: invalid JSON: EOF"
    );
    assert_eq!(calendar_of_file("in/a.json", Ok(calendar())).unwrap().id, "a.b-c_1");
}

#[test]
fn copies_are_equal() {
    let mut original = calendar();
    original.events.push(Event {
        id: "e".to_string(),
        title: "t".to_string(),
        start: "2026-01-01".to_string(),
        end: "2026-01-02".to_string(),
        all_day: true,
        description: None,
        location: Some("l".to_string()),
        url: None,
        source: Some(Source { name: "n".to_string(), url: "u".to_string() }),
        status: Some(EventStatus::Cancelled),
        alarm_minutes: Some(vec![3]),
    });
    assert_eq!(format!("{:?}", original.clone()), format!("{:?}", original));
    assert!(is_false(&false) && !is_false(&true));
    let options = GenerationOptions { input_dir: "a".into(), output_dir: "b".into() };
    assert_eq!(options.input_dir, std::path::PathBuf::from("a"));
}
