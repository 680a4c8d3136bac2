use exam_calendar::dates::{Date, Moment};
use exam_calendar::fold::{fold_line, write_lines};
use exam_calendar::render::{
    calendar_dtstamp, calendar_dtstamp_read, property, property_raw, render_calendar_read,
    render_event, render_event_read,
};
use exam_calendar::validate::{
    read_calendar, read_event, require_token, validate_alarm, validate_calendar_read,
    validate_event, validate_event_read, validate_span, EventReading,
};
use exam_calendar::{
    escape_text, render_calendar, validate_calendar, CalendarFile, Event, EventStatus, Source,
};

fn sample_calendar() -> CalendarFile {
    CalendarFile {
        id: "shanghai-gaokao".to_string(),
        title: "上海高考日程 2026".to_string(),
        year: 2026,
        region: "CN-SH".to_string(),
        exam_type: "gaokao".to_string(),
        timezone: "Asia/Shanghai".to_string(),
        updated_at: Some("2026-03-16T00:00:00Z".to_string()),
        source: None,
        default_alarm_minutes: vec![1440],
        events: vec![Event {
            id: "main".to_string(),
            title: "普通高校招生全国统一考试".to_string(),
            start: "2026-06-07".to_string(),
            end: "2026-06-10".to_string(),
            all_day: true,
            description: Some("以上海市教育考试院最终发布为准。".to_string()),
            location: None,
            url: None,
            source: None,
            status: Some(EventStatus::Confirmed),
            alarm_minutes: Some(vec![1440, 60]),
        }],
    }
}

fn timed_event() -> Event {
    Event {
        id: "oral.1".to_string(),
        title: "Oral, part 1".to_string(),
        start: "2026-01-08T09:00:00".to_string(),
        end: "2026-01-08T17:30:05".to_string(),
        all_day: false,
        description: Some("Bring:\r\n- card;\r- pen\\cil\n".to_string()),
        location: Some("Hall A; gate 2".to_string()),
        url: Some("https://example.com/a,b;c".to_string()),
        source: Some(Source {
            name: "Office, main".to_string(),
            url: "https://example.com/x;y".to_string(),
        }),
        status: Some(EventStatus::Tentative),
        alarm_minutes: None,
    }
}

fn complaint(calendar: &CalendarFile) -> String {
    let refused = validate_calendar(calendar).unwrap_err();
    assert_eq!(render_calendar(calendar).unwrap_err(), refused);
    refused
}

/// Undoes the folding of content lines.
fn unfold(ics: &str) -> String {
    ics.replace("\r\n ", "")
}

#[test]
fn renders_all_day_event_with_exclusive_end_date() {
    let ics = render_calendar(&sample_calendar()).unwrap();

    assert!(ics.contains("BEGIN:VCALENDAR\r\n"));
    assert!(ics.contains("UID:shanghai-gaokao.2026.main@exam-calendar\r\n"));
    assert!(ics.contains("DTSTART;VALUE=DATE:20260607\r\n"));
    assert!(ics.contains("DTEND;VALUE=DATE:20260610\r\n"));
}

#[test]
fn event_alarm_overrides_calendar_default() {
    let ics = render_calendar(&sample_calendar()).unwrap();

    assert!(ics.contains("TRIGGER:-PT1440M\r\n"));
    assert!(ics.contains("TRIGGER:-PT60M\r\n"));
}

#[test]
fn rejects_non_exclusive_all_day_end() {
    let mut calendar = sample_calendar();
    calendar.events[0].end = "2026-06-07".to_string();

    let err = render_calendar(&calendar).unwrap_err().to_string();

    assert!(err.contains("end must be after start"));
}

#[test]
fn escapes_ics_text() {
    assert_eq!(escape_text("a,b;c\\d\nnext"), "a\\,b\\;c\\\\d\\nnext");
}

#[test]
fn renders_the_whole_sample() {
    let expected = "BEGIN:VCALENDAR\r\n\
        VERSION:2.0\r\n\
        PRODID:-//exam-calendar//exam-calendar 0.1//EN\r\n\
        CALSCALE:GREGORIAN\r\n\
        METHOD:PUBLISH\r\n\
        X-WR-CALNAME:上海高考日程 2026\r\n\
        X-WR-TIMEZONE:Asia/Shanghai\r\n\
        X-EXAM-REGION:CN-SH\r\n\
        X-EXAM-TYPE:gaokao\r\n\
        BEGIN:VEVENT\r\n\
        UID:shanghai-gaokao.2026.main@exam-calendar\r\n\
        DTSTAMP:20260316T000000Z\r\n\
        SUMMARY:普通高校招生全国统一考试\r\n\
        DTSTART;VALUE=DATE:20260607\r\n\
        DTEND;VALUE=DATE:20260610\r\n\
        DESCRIPTION:以上海市教育考试院最终发布为准。\r\n\
        STATUS:CONFIRMED\r\n\
        BEGIN:VALARM\r\n\
        ACTION:DISPLAY\r\n\
        DESCRIPTION:普通高校招生全国统一考试\r\n\
        TRIGGER:-PT1440M\r\n\
        END:VALARM\r\n\
        BEGIN:VALARM\r\n\
        ACTION:DISPLAY\r\n\
        DESCRIPTION:普通高校招生全国统一考试\r\n\
        TRIGGER:-PT60M\r\n\
        END:VALARM\r\n\
        END:VEVENT\r\n\
        END:VCALENDAR\r\n";
    assert_eq!(render_calendar(&sample_calendar()).unwrap(), expected);
}

#[test]
fn renders_timed_events_with_all_details() {
    let mut calendar = sample_calendar();
    calendar.updated_at = None;
    calendar.source = Some(Source {
        name: "Exam; board".to_string(),
        url: "https://example.com/s,t".to_string(),
    });
    calendar.events = vec![timed_event()];
    let expected = "BEGIN:VCALENDAR\r\n\
        VERSION:2.0\r\n\
        PRODID:-//exam-calendar//exam-calendar 0.1//EN\r\n\
        CALSCALE:GREGORIAN\r\n\
        METHOD:PUBLISH\r\n\
        X-WR-CALNAME:上海高考日程 2026\r\n\
        X-WR-TIMEZONE:Asia/Shanghai\r\n\
        X-EXAM-REGION:CN-SH\r\n\
        X-EXAM-TYPE:gaokao\r\n\
        X-EXAM-SOURCE:Exam\\; board\r\n\
        X-EXAM-SOURCE-URL:https://example.com/s\\,t\r\n\
        BEGIN:VEVENT\r\n\
        UID:shanghai-gaokao.2026.oral.1@exam-calendar\r\n\
        DTSTAMP:19700101T000000Z\r\n\
        SUMMARY:Oral\\, part 1\r\n\
        DTSTART;TZID=Asia/Shanghai:20260108T090000\r\n\
        DTEND;TZID=Asia/Shanghai:20260108T173005\r\n\
        DESCRIPTION:Bring:\\n- card\\;\\n- pen\\\\cil\\n\r\n\
        LOCATION:Hall A\\; gate 2\r\n\
        URL:https://example.com/a,b;c\r\n\
        X-EXAM-SOURCE:Office\\, main\r\n\
        X-EXAM-SOURCE-URL:https://example.com/x;y\r\n\
        STATUS:TENTATIVE\r\n\
        BEGIN:VALARM\r\n\
        ACTION:DISPLAY\r\n\
        DESCRIPTION:Oral\\, part 1\r\n\
        TRIGGER:-PT1440M\r\n\
        END:VALARM\r\n\
        END:VEVENT\r\n\
        END:VCALENDAR\r\n";
    assert_eq!(render_calendar(&calendar).unwrap(), expected);
}

#[test]
fn unfolding_a_rendering_gives_back_its_lines() {
    let mut calendar = sample_calendar();
    calendar.title = "考".repeat(60);
    calendar.events[0].description = Some("x".repeat(300));
    let ics = render_calendar(&calendar).unwrap();
    for line in ics.split("\r\n") {
        assert!(line.len() <= 75);
    }
    let plain = unfold(&ics);
    assert!(plain.contains(&format!("\r\nX-WR-CALNAME:{}\r\n", calendar.title)));
    assert!(plain.contains(&format!("\r\nDESCRIPTION:{}\r\n", "x".repeat(300))));
}

#[test]
fn own_alarms_replace_the_calendars() {
    let mut calendar = sample_calendar();
    let before = render_calendar(&calendar).unwrap();
    calendar.default_alarm_minutes = vec![5, 15];
    assert_eq!(render_calendar(&calendar).unwrap(), before);
    calendar.events[0].alarm_minutes = Some(Vec::new());
    assert!(!render_calendar(&calendar).unwrap().contains("VALARM"));
    calendar.events[0].alarm_minutes = None;
    let ics = render_calendar(&calendar).unwrap();
    assert!(ics.contains("TRIGGER:-PT5M\r\n"));
    assert!(ics.contains("TRIGGER:-PT15M\r\n"));
    assert!(!ics.contains("TRIGGER:-PT60M\r\n"));
}

#[test]
fn different_events_have_different_identifiers() {
    let mut calendar = sample_calendar();
    let mut second = calendar.events[0].clone();
    second.id = "main2".to_string();
    calendar.events.push(second);
    let ics = render_calendar(&calendar).unwrap();
    assert!(ics.contains("UID:shanghai-gaokao.2026.main@exam-calendar\r\n"));
    assert!(ics.contains("UID:shanghai-gaokao.2026.main2@exam-calendar\r\n"));
}

#[test]
fn dtstamp_is_given_in_utc() {
    let mut calendar = sample_calendar();
    calendar.updated_at = Some("2026-03-16T08:00:01+08:00".to_string());
    assert_eq!(calendar_dtstamp(&calendar).unwrap(), "20260316T000001Z");
    calendar.updated_at = Some("yesterday".to_string());
    assert_eq!(
        calendar_dtstamp(&calendar).unwrap_err(),
        "invalid updated_at 'yesterday', expected RFC3339"
    );
    assert_eq!(
        calendar_dtstamp_read(&calendar, None).unwrap_err(),
        "invalid updated_at 'yesterday', expected RFC3339"
    );
    let read = Moment {
        date: Date { year: 2026, month: 3, day: 16 },
        hour: 1,
        minute: 2,
        second: 3,
        nano: 0,
    };
    assert_eq!(calendar_dtstamp_read(&calendar, Some(read)).unwrap(), "20260316T010203Z");
    calendar.updated_at = None;
    assert_eq!(calendar_dtstamp(&calendar).unwrap(), "19700101T000000Z");
}

#[test]
fn accepts_the_samples() {
    assert_eq!(validate_calendar(&sample_calendar()), Ok(()));
    let mut calendar = sample_calendar();
    calendar.events.push(timed_event());
    assert_eq!(validate_calendar(&calendar), Ok(()));
    calendar.events.clear();
    assert_eq!(validate_calendar(&calendar), Ok(()));
}

#[test]
fn refuses_identifiers_that_are_no_tokens() {
    let mut calendar = sample_calendar();
    calendar.id = " \t".to_string();
    assert_eq!(complaint(&calendar), "calendar id is required");
    calendar.id = "a/b".to_string();
    assert_eq!(
        complaint(&calendar),
        "calendar id can only contain ASCII letters, numbers, '-', '_', '.'"
    );
    let mut calendar = sample_calendar();
    calendar.events[0].id = String::new();
    assert_eq!(complaint(&calendar), "event id is required");
    calendar.events[0].id = "主".to_string();
    assert_eq!(
        complaint(&calendar),
        "event id can only contain ASCII letters, numbers, '-', '_', '.'"
    );
    assert_eq!(require_token("x", "Az09-_."), Ok(()));
    assert_eq!(require_token("x", "\u{3000}"), Err("x is required".to_string()));
}

#[test]
fn refuses_missing_texts() {
    let mut calendar = sample_calendar();
    calendar.title = "\u{3000}".to_string();
    assert_eq!(complaint(&calendar), "calendar title is required");
    let mut calendar = sample_calendar();
    calendar.region = String::new();
    assert_eq!(complaint(&calendar), "calendar region is required");
    let mut calendar = sample_calendar();
    calendar.exam_type = " ".to_string();
    assert_eq!(complaint(&calendar), "calendar exam_type is required");
    let mut calendar = sample_calendar();
    calendar.timezone = "\n".to_string();
    assert_eq!(complaint(&calendar), "calendar timezone is required");
    let mut calendar = sample_calendar();
    calendar.events[0].title = String::new();
    assert_eq!(complaint(&calendar), "event main title is required");
}

#[test]
fn refuses_years_out_of_range() {
    let mut calendar = sample_calendar();
    for year in [1899, 10000, -1] {
        calendar.year = year;
        assert_eq!(complaint(&calendar), "calendar year must be between 1900 and 9999");
    }
    for year in [1900, 9999] {
        calendar.year = year;
        assert_eq!(validate_calendar(&calendar), Ok(()));
    }
}

#[test]
fn refuses_timestamps_dates_and_times() {
    let mut calendar = sample_calendar();
    calendar.updated_at = Some("2026-03-16".to_string());
    assert_eq!(complaint(&calendar), "invalid updated_at '2026-03-16', expected RFC3339");
    let mut calendar = sample_calendar();
    calendar.events[0].start = "2026-02-30".to_string();
    assert_eq!(complaint(&calendar), "invalid date '2026-02-30', expected YYYY-MM-DD");
    let mut calendar = sample_calendar();
    calendar.events[0].end = "2026-06-10T00:00:00".to_string();
    assert_eq!(
        complaint(&calendar),
        "invalid date '2026-06-10T00:00:00', expected YYYY-MM-DD"
    );
    calendar.events = vec![timed_event()];
    calendar.events[0].start = "2026-01-08".to_string();
    assert_eq!(
        complaint(&calendar),
        "invalid datetime '2026-01-08', expected YYYY-MM-DDTHH:MM:SS"
    );
    calendar.events = vec![timed_event()];
    calendar.events[0].end = "2026-01-08T24:00:00".to_string();
    assert_eq!(
        complaint(&calendar),
        "invalid datetime '2026-01-08T24:00:00', expected YYYY-MM-DDTHH:MM:SS"
    );
}

#[test]
fn refuses_spans_that_do_not_end_after_their_start() {
    let mut calendar = sample_calendar();
    calendar.events[0].end = "2026-06-06".to_string();
    assert_eq!(complaint(&calendar), "event main end must be after start");
    calendar.events = vec![timed_event()];
    calendar.events[0].end = calendar.events[0].start.clone();
    assert_eq!(complaint(&calendar), "event oral.1 end must be after start");
    calendar.events[0].end = "2026-01-08T09:00:01".to_string();
    assert_eq!(validate_calendar(&calendar), Ok(()));
}

#[test]
fn refuses_alarms_that_are_not_positive() {
    let mut calendar = sample_calendar();
    calendar.default_alarm_minutes = vec![10, 0];
    assert_eq!(complaint(&calendar), "alarm minutes must be positive");
    let mut calendar = sample_calendar();
    calendar.events[0].alarm_minutes = Some(vec![-5]);
    assert_eq!(complaint(&calendar), "alarm minutes must be positive");
    assert_eq!(validate_alarm(1), Ok(()));
    assert_eq!(validate_alarm(0), Err("alarm minutes must be positive".to_string()));
    assert_eq!(validate_alarm(i64::MIN), Err("alarm minutes must be positive".to_string()));
}

#[test]
fn reports_the_first_broken_rule() {
    let mut calendar = sample_calendar();
    calendar.title = String::new();
    calendar.year = 0;
    calendar.events[0].id = String::new();
    assert_eq!(complaint(&calendar), "calendar title is required");
    let mut calendar = sample_calendar();
    let mut second = calendar.events[0].clone();
    second.id = "second".to_string();
    second.title = String::new();
    calendar.events.push(second);
    calendar.events.push(timed_event());
    calendar.events[2].id = "?".to_string();
    assert_eq!(complaint(&calendar), "event second title is required");
}

#[test]
fn rules_are_decided_on_what_was_read() {
    let calendar = sample_calendar();
    let day = |day: u32| Date { year: 2026, month: 6, day };
    let event = &calendar.events[0];
    assert_eq!(read_event(event), EventReading::AllDay(Some(day(7)), Some(day(10))));
    let reading = EventReading::AllDay(Some(day(7)), Some(day(7)));
    assert_eq!(
        validate_event_read(&calendar, event, &reading).unwrap_err(),
        "event main end must be after start"
    );
    let unread = EventReading::AllDay(Some(day(7)), None);
    assert_eq!(
        validate_span(event, &unread).unwrap_err(),
        "invalid date '2026-06-10', expected YYYY-MM-DD"
    );
    assert_eq!(validate_event(&calendar, event), Ok(()));
    let mut readings = read_calendar(&calendar);
    assert_eq!(validate_calendar_read(&calendar, &readings), Ok(()));
    assert_eq!(
        render_calendar_read(&calendar, &readings).unwrap(),
        render_calendar(&calendar).unwrap()
    );
    readings.events[0] = EventReading::AllDay(Some(day(8)), Some(day(9)));
    assert!(render_calendar_read(&calendar, &readings)
        .unwrap()
        .contains("DTSTART;VALUE=DATE:20260608\r\n"));
}

#[test]
fn renders_one_event() {
    let mut calendar = sample_calendar();
    calendar.default_alarm_minutes.clear();
    let mut event = calendar.events[0].clone();
    event.description = None;
    event.status = None;
    event.alarm_minutes = None;
    let expected = vec![
        "BEGIN:VEVENT",
        "UID:shanghai-gaokao.2026.main@exam-calendar",
        "DTSTAMP:stamp",
        "SUMMARY:普通高校招生全国统一考试",
        "DTSTART;VALUE=DATE:20260607",
        "DTEND;VALUE=DATE:20260610",
        "END:VEVENT",
    ];
    let mut lines = Vec::new();
    render_event(&calendar, &event, "stamp", &mut lines).unwrap();
    assert_eq!(lines, expected);
    let mut lines = Vec::new();
    render_event_read(&calendar, &event, &read_event(&event), "stamp", &mut lines).unwrap();
    assert_eq!(lines, expected);
    event.start = "soon".to_string();
    let mut lines = Vec::new();
    assert_eq!(
        render_event(&calendar, &event, "stamp", &mut lines).unwrap_err(),
        "invalid date 'soon', expected YYYY-MM-DD"
    );
}

#[test]
fn properties_are_escaped_or_raw() {
    let mut lines = vec!["first".to_string()];
    property(&mut lines, "A", "x;y");
    property_raw(&mut lines, "B", "x;y");
    assert_eq!(lines, vec!["first", "A:x\\;y", "B:x;y"]);
}

#[test]
fn escapes_every_kind_of_line_end() {
    assert_eq!(escape_text("a\r\nb\rc\nd\r\r\n"), "a\\nb\\nc\\nd\\n\\n");
    assert_eq!(escape_text("\\n"), "\\\\n");
    assert_eq!(escape_text(""), "");
    assert_eq!(escape_text("考试: \"x\""), "考试: \"x\"");
}

/// The text that a text value stands for.
fn unescape(value: &str) -> String {
    let mut text = String::new();
    let mut chars = value.chars();
    while let Some(c) = chars.next() {
        if c == '\\' {
            match chars.next() {
                Some('n') => text.push('\n'),
                Some(other) => text.push(other),
                None => text.push(c),
            }
        } else {
            text.push(c);
        }
    }
    text
}

#[test]
fn escaping_is_undone() {
    for text in ["", "a,b;c", "\\", "\\n", "x\r\ny\rz\n", "\r\r\n\n", "考,试;\\,"] {
        let value = escape_text(text);
        assert!(!value.contains('\n') && !value.contains('\r'));
        assert_eq!(unescape(&value), text.replace("\r\n", "\n").replace('\r', "\n"));
    }
}

#[test]
fn folds_at_the_last_character_that_fits() {
    assert_eq!(fold_line(""), "");
    assert_eq!(fold_line(&"a".repeat(75)), "a".repeat(75));
    assert_eq!(fold_line(&"a".repeat(76)), format!("{}\r\n a", "a".repeat(75)));
    assert_eq!(
        fold_line(&"a".repeat(75 + 74 + 1)),
        format!("{}\r\n {}\r\n a", "a".repeat(75), "a".repeat(74))
    );
    // Three bytes each: 25 characters fill the first line, 24 each of the others.
    assert_eq!(
        fold_line(&"考".repeat(50)),
        format!("{}\r\n {}\r\n 考", "考".repeat(25), "考".repeat(24))
    );
    // The first line has room for one more byte, which no character fits into.
    assert_eq!(
        fold_line(&format!("a{}", "考".repeat(25))),
        format!("a{}\r\n 考", "考".repeat(24))
    );
    let line = "é".repeat(200);
    assert_eq!(unfold(&fold_line(&line)), line);
}

#[test]
fn writes_lines_with_their_ends() {
    assert_eq!(write_lines(&Vec::new()), "");
    assert_eq!(write_lines(&vec!["a".to_string(), "b".to_string()]), "a\r\nb\r\n");
}

#[test]
fn status_texts() {
    let all = [
        (EventStatus::Confirmed, "CONFIRMED", "confirmed"),
        (EventStatus::Tentative, "TENTATIVE", "tentative"),
        (EventStatus::Cancelled, "CANCELLED", "cancelled"),
    ];
    for (status, ics, json) in all {
        assert_eq!(status.as_ics(), ics);
        assert_eq!(status.as_json_value(), json);
        assert_eq!(EventStatus::try_from(json), Ok(status));
    }
    assert_eq!(
        EventStatus::try_from("Confirmed"),
        Err("invalid event status 'Confirmed'".to_string())
    );
}
