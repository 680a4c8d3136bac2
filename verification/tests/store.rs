use exam_calendar::generate::{
    exported_files, input_calendar, sort_files, stop_at_failure, Exportable, FileReading, InputFile,
};
use exam_calendar::rows::{
    calendar_from_row, calendar_from_row_read, calendar_row, event_from_row, event_from_row_read,
    event_row, source_columns, source_from_columns, CalendarRow, EventRow, SummaryRow,
};
use exam_calendar::store::{
    gather_calendar, init_schema, merge_events, summaries_from_rows, Query, SqlValue, Statement,
    Store, StoreError,
};
use exam_calendar::{generate_all, render_calendar, CalendarFile, Event, EventStatus, Source};
use rusqlite::types::Value;
use rusqlite::{Connection, OptionalExtension};

fn sample_calendar() -> CalendarFile {
    CalendarFile {
        id: "test-gaokao".to_string(),
        title: "测试高考日程 2026".to_string(),
        year: 2026,
        region: "CN-TS".to_string(),
        exam_type: "gaokao".to_string(),
        timezone: "Asia/Shanghai".to_string(),
        updated_at: Some("2026-03-16T00:00:00Z".to_string()),
        source: Some(Source {
            name: "测试来源".to_string(),
            url: "https://example.com".to_string(),
        }),
        default_alarm_minutes: vec![1440],
        events: vec![Event {
            id: "main".to_string(),
            title: "测试考试".to_string(),
            start: "2026-06-07".to_string(),
            end: "2026-06-10".to_string(),
            all_day: true,
            description: Some("测试说明".to_string()),
            location: None,
            url: Some("https://example.com".to_string()),
            source: None,
            status: Some(EventStatus::Confirmed),
            alarm_minutes: Some(vec![60]),
        }],
    }
}

fn plain_event(id: &str, start: &str, end: &str) -> Event {
    Event {
        id: id.to_string(),
        title: format!("Event {}", id),
        start: start.to_string(),
        end: end.to_string(),
        all_day: true,
        description: None,
        location: None,
        url: None,
        source: None,
        status: None,
        alarm_minutes: None,
    }
}

fn store() -> Store {
    Store::new("calendars.sqlite".into())
}

fn open() -> Connection {
    let conn = Connection::open_in_memory().unwrap();
    conn.execute_batch(init_schema()).unwrap();
    conn
}

fn values(params: Vec<SqlValue>) -> Vec<Value> {
    params
        .into_iter()
        .map(|param| match param {
            SqlValue::Null => Value::Null,
            SqlValue::Integer(n) => Value::Integer(n),
            SqlValue::Text(text) => Value::Text(text),
        })
        .collect()
}

fn run(conn: &mut Connection, statements: &[Statement]) {
    let tx = conn.transaction().unwrap();
    for statement in statements {
        tx.execute(statement.sql(), rusqlite::params_from_iter(values(statement.params())))
            .unwrap();
    }
    tx.commit().unwrap();
}

fn find(conn: &Connection, id: &str) -> (Option<CalendarRow>, Vec<EventRow>) {
    let query = Query::Calendar(id.to_string());
    let row = conn
        .query_row(query.sql(), rusqlite::params_from_iter(values(query.params())), |row| {
            Ok(CalendarRow {
                id: row.get(0)?,
                title: row.get(1)?,
                year: row.get(2)?,
                region: row.get(3)?,
                exam_type: row.get(4)?,
                timezone: row.get(5)?,
                updated_at: row.get(6)?,
                source_name: row.get(7)?,
                source_url: row.get(8)?,
                default_alarm_minutes_json: row.get(9)?,
            })
        })
        .optional()
        .unwrap();
    let query = Query::Events(id.to_string());
    let mut statement = conn.prepare(query.sql()).unwrap();
    let events = statement
        .query_map(rusqlite::params_from_iter(values(query.params())), |row| {
            Ok(EventRow {
                id: row.get(0)?,
                title: row.get(1)?,
                start: row.get(2)?,
                end: row.get(3)?,
                all_day: row.get(4)?,
                description: row.get(5)?,
                location: row.get(6)?,
                url: row.get(7)?,
                source_name: row.get(8)?,
                source_url: row.get(9)?,
                status: row.get(10)?,
                alarm_minutes_json: row.get(11)?,
            })
        })
        .unwrap()
        .map(|row| row.unwrap())
        .collect();
    (row, events)
}

fn load(conn: &Connection, id: &str) -> Result<CalendarFile, StoreError> {
    let (row, events) = find(conn, id);
    store().load_calendar(id, row, events)
}

fn save(conn: &mut Connection, calendar: &CalendarFile) {
    let statements = store().save_calendar(calendar).unwrap();
    run(conn, &statements);
}

fn refused(error: StoreError) -> String {
    match error {
        StoreError::Refused(message) => message,
        StoreError::Column(error) => panic!("{:?}", error),
    }
}

fn shown(calendar: &CalendarFile) -> String {
    format!("{:?}", calendar)
}

#[test]
fn saves_and_loads_calendar() {
    let mut conn = open();
    let calendar = sample_calendar();

    save(&mut conn, &calendar);
    let loaded = load(&conn, "test-gaokao").unwrap();

    assert_eq!(loaded.id, calendar.id);
    assert_eq!(loaded.events.len(), 1);
    assert_eq!(loaded.events[0].id, "main");
    assert_eq!(loaded.events[0].alarm_minutes, Some(vec![60]));
    assert_eq!(shown(&loaded), shown(&calendar));
}

#[test]
fn rejects_invalid_event_before_writing() {
    let mut conn = open();
    save(&mut conn, &sample_calendar());

    let invalid = Event {
        id: "bad".to_string(),
        title: "坏日期".to_string(),
        start: "2026-06-07".to_string(),
        end: "2026-06-07".to_string(),
        all_day: true,
        description: None,
        location: None,
        url: None,
        source: None,
        status: None,
        alarm_minutes: None,
    };

    let (row, events) = find(&conn, "test-gaokao");
    let result = store().upsert_events("test-gaokao", row, events, &[invalid]);
    assert!(result.is_err());
    assert_eq!(refused(result.unwrap_err()), "event bad end must be after start");
    let loaded = load(&conn, "test-gaokao").unwrap();
    assert_eq!(loaded.events.len(), 1);
    assert_eq!(loaded.events[0].id, "main");
}

#[test]
fn events_are_read_in_order_and_the_last_of_an_identifier_counts() {
    let mut conn = open();
    let mut calendar = sample_calendar();
    calendar.events = vec![
        plain_event("b", "2026-02-01", "2026-02-02"),
        plain_event("c", "2026-01-01", "2026-01-02"),
        plain_event("a", "2026-02-01", "2026-02-03"),
        plain_event("c", "2026-03-01", "2026-03-02"),
    ];
    save(&mut conn, &calendar);
    let loaded = load(&conn, "test-gaokao").unwrap();
    let listed: Vec<(&str, &str)> =
        loaded.events.iter().map(|e| (e.id.as_str(), e.start.as_str())).collect();
    assert_eq!(listed, vec![("a", "2026-02-01"), ("b", "2026-02-01"), ("c", "2026-03-01")]);
}

#[test]
fn texts_are_ordered_by_their_characters() {
    let mut conn = open();
    let mut calendar = sample_calendar();
    calendar.events = vec![
        plain_event("a.b", "2026-02-01", "2026-02-02"),
        plain_event("a", "2026-02-01", "2026-02-02"),
        plain_event("Z", "2026-02-01", "2026-02-02"),
        plain_event("a-", "2026-02-01", "2026-02-02"),
    ];
    save(&mut conn, &calendar);
    let loaded = load(&conn, "test-gaokao").unwrap();
    let ids: Vec<&str> = loaded.events.iter().map(|e| e.id.as_str()).collect();
    assert_eq!(ids, vec!["Z", "a", "a-", "a.b"]);
}

#[test]
fn saving_again_replaces_the_events() {
    let mut conn = open();
    let mut calendar = sample_calendar();
    save(&mut conn, &calendar);
    calendar.title = "New".to_string();
    calendar.source = None;
    calendar.events = vec![plain_event("other", "2026-01-01", "2026-01-02")];
    save(&mut conn, &calendar);
    assert_eq!(shown(&load(&conn, "test-gaokao").unwrap()), shown(&calendar));
}

#[test]
fn other_calendars_are_left_alone() {
    let mut conn = open();
    let first = sample_calendar();
    let mut second = sample_calendar();
    second.id = "second".to_string();
    save(&mut conn, &first);
    save(&mut conn, &second);
    second.events = vec![plain_event("x", "2026-01-01", "2026-01-02")];
    save(&mut conn, &second);
    let (row, events) = find(&conn, "second");
    let accepted = store()
        .upsert_events("second", row, events, &[plain_event("y", "2026-01-01", "2026-01-02")])
        .unwrap();
    run(&mut conn, &accepted.statements);
    assert_eq!(shown(&load(&conn, "test-gaokao").unwrap()), shown(&first));
    assert_eq!(load(&conn, "second").unwrap().events.len(), 2);
}

#[test]
fn written_events_replace_those_of_their_identifiers() {
    let mut conn = open();
    save(&mut conn, &sample_calendar());
    let updates = [
        plain_event("new", "2026-01-01", "2026-01-02"),
        plain_event("main", "2026-06-08", "2026-06-09"),
        plain_event("new", "2026-01-03", "2026-01-04"),
    ];
    let (row, events) = find(&conn, "test-gaokao");
    let accepted = store().upsert_events("test-gaokao", row, events, &updates).unwrap();
    assert_eq!(accepted.count, 3);
    assert_eq!(accepted.statements.len(), 3);
    run(&mut conn, &accepted.statements);
    let loaded = load(&conn, "test-gaokao").unwrap();
    let expected = merge_events(sample_calendar(), &updates);
    assert_eq!(loaded.events.len(), 2);
    assert_eq!(format!("{:?}", loaded.events[0]), format!("{:?}", expected.events[1]));
    assert_eq!(format!("{:?}", loaded.events[1]), format!("{:?}", expected.events[0]));
}

#[test]
fn merging_keeps_places() {
    let mut calendar = sample_calendar();
    calendar.events = vec![
        plain_event("a", "2026-01-01", "2026-01-02"),
        plain_event("b", "2026-01-01", "2026-01-02"),
        plain_event("a", "2026-01-05", "2026-01-06"),
    ];
    let merged = merge_events(
        calendar,
        &[plain_event("a", "2026-02-01", "2026-02-02"), plain_event("c", "2026-01-01", "2026-01-02")],
    );
    let listed: Vec<(&str, &str)> =
        merged.events.iter().map(|e| (e.id.as_str(), e.start.as_str())).collect();
    assert_eq!(
        listed,
        vec![("a", "2026-02-01"), ("b", "2026-01-01"), ("a", "2026-01-05"), ("c", "2026-01-01")]
    );
}

#[test]
fn missing_calendars_are_reported() {
    let conn = open();
    assert_eq!(refused(load(&conn, "nope").unwrap_err()), "calendar 'nope' not found");
    let result = store().upsert_events("nope", None, Vec::new(), &[]);
    assert_eq!(refused(result.unwrap_err()), "calendar 'nope' not found");
}

#[test]
fn invalid_calendars_are_neither_saved_nor_loaded() {
    let mut conn = open();
    let mut calendar = sample_calendar();
    save(&mut conn, &calendar);
    calendar.year = 1;
    assert_eq!(
        store().save_calendar(&calendar).unwrap_err(),
        "calendar year must be between 1900 and 9999"
    );
    conn.execute("UPDATE calendars SET title = ' '", []).unwrap();
    assert_eq!(refused(load(&conn, "test-gaokao").unwrap_err()), "calendar title is required");
}

#[test]
fn unreadable_columns_are_reported() {
    let mut conn = open();
    let mut calendar = sample_calendar();
    calendar.events.push(plain_event("z", "2026-07-01", "2026-07-02"));
    save(&mut conn, &calendar);
    let column = |conn: &Connection| match load(conn, "test-gaokao").unwrap_err() {
        StoreError::Column(error) => (error.column, error.message),
        StoreError::Refused(message) => panic!("{}", message),
    };
    conn.execute("UPDATE events SET alarm_minutes_json = 'x' WHERE id = 'z'", []).unwrap();
    assert_eq!(column(&conn).0, 11);
    conn.execute("UPDATE events SET status = 'lost' WHERE id = 'z'", []).unwrap();
    assert_eq!(column(&conn), (10, "invalid event status 'lost'".to_string()));
    conn.execute("UPDATE events SET alarm_minutes_json = '{}' WHERE id = 'main'", []).unwrap();
    assert_eq!(column(&conn).0, 11);
    conn.execute("UPDATE calendars SET default_alarm_minutes_json = '[a]'", []).unwrap();
    assert_eq!(column(&conn).0, 9);
}

#[test]
fn calendars_are_listed_in_order() {
    let mut conn = open();
    for (id, region, exam_type, year) in [
        ("d", "CN-SH", "gaokao", 2027),
        ("b", "CN-SH", "gaokao", 2026),
        ("a", "CN-SH", "gaokao", 2026),
        ("c", "CN-BJ", "zhongkao", 2026),
    ] {
        let mut calendar = sample_calendar();
        calendar.id = id.to_string();
        calendar.region = region.to_string();
        calendar.exam_type = exam_type.to_string();
        calendar.year = year;
        save(&mut conn, &calendar);
    }
    let query = store().list_calendars();
    assert!(query.params().is_empty());
    let mut statement = conn.prepare(query.sql()).unwrap();
    let found: Vec<SummaryRow> = statement
        .query_map([], |row| {
            Ok(SummaryRow {
                id: row.get(0)?,
                title: row.get(1)?,
                year: row.get(2)?,
                region: row.get(3)?,
                exam_type: row.get(4)?,
            })
        })
        .unwrap()
        .map(|row| row.unwrap())
        .collect();
    let listed = summaries_from_rows(&found);
    let ids: Vec<&str> = listed.iter().map(|line| line.id.as_str()).collect();
    assert_eq!(ids, vec!["c", "a", "b", "d"]);
    assert_eq!(listed[3].title, "测试高考日程 2026");
    assert_eq!(listed[3].year, 2027);
    assert_eq!(listed[0].region, "CN-BJ");
    assert_eq!(listed[0].exam_type, "zhongkao");
    assert!(summaries_from_rows(&Vec::new()).is_empty());
}

/// Everything that the tables hold but for the times of imports.
fn dump(conn: &Connection) -> Vec<String> {
    let mut all = Vec::new();
    for sql in [
        "SELECT id || title || year || region || exam_type || timezone FROM calendars ORDER BY id",
        "SELECT calendar_id || id || title || start || end FROM events ORDER BY calendar_id, id",
        "SELECT id || calendar_id || raw_text || (applied_at IS NULL) FROM imports ORDER BY id",
    ] {
        let mut statement = conn.prepare(sql).unwrap();
        for row in statement.query_map([], |row| row.get(0)).unwrap() {
            all.push(row.unwrap());
        }
    }
    all
}

#[test]
fn saving_again_changes_nothing() {
    let mut conn = open();
    let mut calendar = sample_calendar();
    calendar.events.push(plain_event("main", "2026-01-01", "2026-01-02"));
    save(&mut conn, &calendar);
    run(&mut conn, &[store().record_import("test-gaokao", None, "raw", "[]")]);
    let once = dump(&conn);
    assert_eq!(once.len(), 3);
    save(&mut conn, &calendar);
    assert_eq!(dump(&conn), once);
}

#[test]
fn imports_get_new_numbers() {
    let mut conn = open();
    save(&mut conn, &sample_calendar());
    run(&mut conn, &[store().record_import("test-gaokao", None, "one", "[]")]);
    let first = conn.last_insert_rowid();
    run(&mut conn, &[store().record_import("test-gaokao", None, "two", "[]")]);
    let second = conn.last_insert_rowid();
    assert_eq!(second, first + 1);
    run(&mut conn, &[store().mark_import_applied(second)]);
    run(&mut conn, &[store().mark_import_applied(second + 5)]);
    let imports: Vec<String> = dump(&conn).into_iter().skip(2).collect();
    assert_eq!(imports, vec!["1test-gaokaoone1", "2test-gaokaotwo0"]);
}

#[test]
fn imports_are_recorded_and_marked() {
    let mut conn = open();
    save(&mut conn, &sample_calendar());
    let record = store().record_import("test-gaokao", Some("https://example.com"), "raw", "[]");
    run(&mut conn, &[record]);
    let id = conn.last_insert_rowid();
    let state = |conn: &Connection| -> (String, Option<String>, String, String, bool) {
        conn.query_row(
            "SELECT calendar_id, source_url, raw_text, extracted_json, applied_at IS NULL FROM imports",
            [],
            |row| Ok((row.get(0)?, row.get(1)?, row.get(2)?, row.get(3)?, row.get(4)?)),
        )
        .unwrap()
    };
    let recorded = (
        "test-gaokao".to_string(),
        Some("https://example.com".to_string()),
        "raw".to_string(),
        "[]".to_string(),
    );
    let (a, b, c, d, open) = state(&conn);
    assert_eq!((a, b, c, d), recorded);
    assert!(open);
    let before = shown(&load(&conn, "test-gaokao").unwrap());
    run(&mut conn, &[store().mark_import_applied(id)]);
    assert!(!state(&conn).4);
    assert_eq!(shown(&load(&conn, "test-gaokao").unwrap()), before);
    let without = store().record_import("test-gaokao", None, "", "");
    assert!(matches!(without.params()[1], SqlValue::Null));
}

#[test]
fn rows_give_back_their_values() {
    let calendar = sample_calendar();
    let row = calendar_row(&calendar).unwrap();
    assert_eq!(row.default_alarm_minutes_json, "[1440]");
    assert_eq!(row.source_name.as_deref(), Some("测试来源"));
    let mut back = calendar_from_row(row).unwrap();
    assert!(back.events.is_empty());
    back.events = calendar.events.clone();
    assert_eq!(shown(&back), shown(&calendar));
    for status in [None, Some(EventStatus::Tentative), Some(EventStatus::Cancelled)] {
        let mut event = calendar.events[0].clone();
        event.status = status;
        event.all_day = status.is_none();
        event.alarm_minutes = None;
        event.source = Some(Source { name: "n".to_string(), url: "u".to_string() });
        let row = event_row(&event).unwrap();
        assert_eq!(row.all_day, if event.all_day { 1 } else { 0 });
        assert_eq!(row.alarm_minutes_json, None);
        assert_eq!(
            format!("{:?}", event_from_row(row).unwrap()),
            format!("{:?}", event)
        );
    }
}

#[test]
fn rows_of_which_something_was_read() {
    let row = calendar_row(&sample_calendar()).unwrap();
    assert_eq!(calendar_from_row_read(row, Ok(vec![7])).unwrap().default_alarm_minutes, vec![7]);
    let row = calendar_row(&sample_calendar()).unwrap();
    let error = calendar_from_row_read(row, Err("bad".to_string())).unwrap_err();
    assert_eq!((error.column, error.message.as_str()), (9, "bad"));
    let mut row = event_row(&sample_calendar().events[0]).unwrap();
    row.all_day = -3;
    let event = event_from_row_read(row, Ok(None)).unwrap();
    assert!(event.all_day);
    assert_eq!(event.alarm_minutes, None);
    let row = event_row(&sample_calendar().events[0]).unwrap();
    let error = event_from_row_read(row, Err("bad".to_string())).unwrap_err();
    assert_eq!((error.column, error.message.as_str()), (11, "bad"));
}

#[test]
fn sources_take_two_columns() {
    let source = Source { name: "n".to_string(), url: "u".to_string() };
    assert_eq!(source_columns(Some(&source)), (Some("n"), Some("u")));
    assert_eq!(source_columns(None), (None, None));
    let back = source_from_columns(Some("n".to_string()), Some("u".to_string())).unwrap();
    assert_eq!((back.name.as_str(), back.url.as_str()), ("n", "u"));
    assert!(source_from_columns(Some("n".to_string()), None).is_none());
    assert!(source_from_columns(None, Some("u".to_string())).is_none());
}

#[test]
fn calendars_are_gathered_from_what_was_read() {
    let calendar = || calendar_from_row(calendar_row(&sample_calendar()).unwrap());
    let event = || event_from_row(event_row(&sample_calendar().events[0]).unwrap());
    let gathered = gather_calendar("x", Some(calendar()), vec![event()]).unwrap();
    assert_eq!(shown(&gathered), shown(&sample_calendar()));
    assert_eq!(
        refused(gather_calendar("x", None, vec![event()]).unwrap_err()),
        "calendar 'x' not found"
    );
}

#[test]
fn the_store_knows_its_file() {
    let store = store();
    assert_eq!(store.path(), &std::path::PathBuf::from("calendars.sqlite"));
    assert_eq!(store.clone().path(), store.path());
}

#[test]
fn exports_are_generated_in_the_order_of_their_files() {
    // The list of calendars is ordered by region first, the files by their names.
    let mut calendars = Vec::new();
    for id in ["b", "a.x", "a", "a-"] {
        let mut calendar = sample_calendar();
        calendar.id = id.to_string();
        calendars.push(Exportable { calendar, json: format!("{{{}}}", id) });
    }
    let export =
        store().export_json_and_generate(&"data".into(), &"public".into(), &calendars);
    assert_eq!(export.options.input_dir, std::path::PathBuf::from("data"));
    assert_eq!(export.options.output_dir, std::path::PathBuf::from("public"));
    let exported: Vec<(&str, &str)> =
        export.files.iter().map(|f| (f.name.as_str(), f.contents.as_str())).collect();
    assert_eq!(
        exported,
        vec![
            ("b.json", "{b}\n"),
            ("a.x.json", "{a.x}\n"),
            ("a.json", "{a}\n"),
            ("a-.json", "{a-}\n")
        ]
    );
    let found = export
        .files
        .iter()
        .zip(calendars)
        .map(|(file, item)| InputFile {
            name: file.name.clone(),
            path: format!("data/{}", file.name),
            reading: FileReading::Calendar(item.calendar),
        })
        .collect();
    let generation = generate_all(found);
    assert_eq!(generation.failure, None);
    let names: Vec<&str> = generation.files.iter().map(|f| f.name.as_str()).collect();
    assert_eq!(names, vec!["a-.ics", "a.ics", "a.x.ics", "b.ics"]);
    let mut expected = sample_calendar();
    expected.id = "a.x".to_string();
    assert_eq!(generation.files[2].contents, render_calendar(&expected).unwrap());
}

#[test]
fn generation_stops_at_the_first_failure() {
    let input = |name: &str, reading: FileReading| InputFile {
        name: name.to_string(),
        path: format!("in/{}", name),
        reading,
    };
    let good = |id: &str| {
        let mut calendar = sample_calendar();
        calendar.id = id.to_string();
        FileReading::Calendar(calendar)
    };
    let mut bad = sample_calendar();
    bad.title.clear();
    let generation = generate_all(vec![
        input("c.json", FileReading::NoCalendar("EOF".to_string())),
        input("d.json", good("d")),
        input("a.json", good("zz")),
    ]);
    assert_eq!(generation.files.len(), 1);
    assert_eq!(generation.files[0].name, "zz.ics");
    assert_eq!(generation.failure.as_deref(), Some("in/c.json: invalid JSON: EOF"));
    let generation = generate_all(vec![input("a.json", FileReading::Calendar(bad))]);
    assert!(generation.files.is_empty());
    assert_eq!(generation.failure.as_deref(), Some("in/a.json: calendar title is required"));
    let unreadable = input("a.json", FileReading::Unreadable("denied".to_string()));
    assert_eq!(input_calendar(unreadable).unwrap_err(), "denied");
    let files = sort_files(vec![
        input("b", good("1")),
        input("a", good("2")),
        input("\u{e9}", good("3")),
        input("B", good("4")),
    ]);
    let names: Vec<&str> = files.iter().map(|f| f.name.as_str()).collect();
    assert_eq!(names, vec!["B", "a", "b", "\u{e9}"]);
    let stopped = stop_at_failure(vec![Err("x".to_string()), Err("y".to_string())]);
    assert_eq!(stopped.failure.as_deref(), Some("x"));
    assert!(exported_files(&Vec::new()).is_empty());
}

#[test]
fn unusual_rows_are_read_after_events_were_written() {
    let mut conn = open();
    let mut calendar = sample_calendar();
    calendar.events.push(plain_event("z", "2026-07-01", "2026-07-02"));
    save(&mut conn, &calendar);
    conn.execute("UPDATE events SET all_day = 7, alarm_minutes_json = ' [ 60 ] '", []).unwrap();
    conn.execute("UPDATE calendars SET default_alarm_minutes_json = '[1440 ]'", []).unwrap();
    let old = load(&conn, "test-gaokao").unwrap();
    let updates = [
        plain_event("z", "2026-07-05", "2026-07-01"),
        plain_event("z", "2026-07-03", "2026-07-04"),
    ];
    let (row, events) = find(&conn, "test-gaokao");
    let accepted = store().upsert_events("test-gaokao", row, events, &updates).unwrap();
    assert_eq!(accepted.count, 2);
    run(&mut conn, &accepted.statements);
    let new = load(&conn, "test-gaokao").unwrap();
    assert_eq!(shown(&new), shown(&merge_events(old, &updates)));
    assert_eq!(new.events[1].start, "2026-07-03");
    let (row, events) = find(&conn, "test-gaokao");
    let reversed = [updates[1].clone(), updates[0].clone()];
    let result = store().upsert_events("test-gaokao", row, events, &reversed);
    assert_eq!(refused(result.unwrap_err()), "event z end must be after start");
}

#[test]
fn imports_and_events_need_their_calendar() {
    let conn = open();
    let import = store().record_import("nope", None, "raw", "[]");
    let event = Statement::UpsertEvent(
        "nope".to_string(),
        event_row(&sample_calendar().events[0]).unwrap(),
    );
    for statement in [import, event] {
        let params = rusqlite::params_from_iter(values(statement.params()));
        assert!(conn.execute(statement.sql(), params).is_err());
    }
    assert!(dump(&conn).is_empty());
}
