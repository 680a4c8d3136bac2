//! The store of calendars in a SQLite database.
//!
//! The store decides what is asked of the database and what is made of its answers. A
//! [`Query`] or a [`Statement`] gives the text and the parameters to run; the rows that come
//! back are handed to the store.

use vstd::prelude::*;

use crate::files::OutputFile;
use crate::generate;
use crate::generate::Exportable;
use crate::model;
use crate::model::{CalendarFile, CalendarView, Event, EventView, GenerationOptions};
use crate::rows;
use crate::rows::{
    CalendarRow, CalendarRowView, ColumnError, ColumnErrorView, EventRow, EventRowView, SummaryRow,
    SummaryView,
};
use crate::tables;
use crate::text;
use crate::validate;

verus! {

// ---------------------------------------------------------------------------
// The text of the database
// ---------------------------------------------------------------------------

/// The tables of the database.
pub const SCHEMA_SQL: &'static str = "
        PRAGMA foreign_keys = ON;

        CREATE TABLE IF NOT EXISTS calendars (
            id TEXT PRIMARY KEY,
            title TEXT NOT NULL,
            year INTEGER NOT NULL,
            region TEXT NOT NULL,
            exam_type TEXT NOT NULL,
            timezone TEXT NOT NULL,
            updated_at TEXT,
            source_name TEXT,
            source_url TEXT,
            default_alarm_minutes_json TEXT NOT NULL DEFAULT '[]'
        );

        CREATE TABLE IF NOT EXISTS events (
            calendar_id TEXT NOT NULL,
            id TEXT NOT NULL,
            title TEXT NOT NULL,
            start TEXT NOT NULL,
            end TEXT NOT NULL,
            all_day INTEGER NOT NULL,
            description TEXT,
            location TEXT,
            url TEXT,
            source_name TEXT,
            source_url TEXT,
            status TEXT,
            alarm_minutes_json TEXT,
            PRIMARY KEY (calendar_id, id),
            FOREIGN KEY (calendar_id) REFERENCES calendars(id) ON DELETE CASCADE
        );

        CREATE TABLE IF NOT EXISTS imports (
            id INTEGER PRIMARY KEY AUTOINCREMENT,
            calendar_id TEXT NOT NULL,
            source_url TEXT,
            raw_text TEXT NOT NULL,
            extracted_json TEXT NOT NULL,
            created_at TEXT NOT NULL,
            applied_at TEXT,
            FOREIGN KEY (calendar_id) REFERENCES calendars(id) ON DELETE CASCADE
        );
        ";

/// Lists the calendars.
pub const LIST_CALENDARS_SQL: &'static str = "SELECT id, title, year, region, exam_type
             FROM calendars
             ORDER BY region, exam_type, year, id";

/// Finds a calendar.
pub const SELECT_CALENDAR_SQL: &'static str =
    "SELECT id, title, year, region, exam_type, timezone, updated_at,
                        source_name, source_url, default_alarm_minutes_json
                 FROM calendars
                 WHERE id = ?1";

/// Finds the events of a calendar.
pub const SELECT_EVENTS_SQL: &'static str =
    "SELECT id, title, start, end, all_day, description, location, url,
                source_name, source_url, status, alarm_minutes_json
         FROM events
         WHERE calendar_id = ?1
         ORDER BY start, id";

/// Writes a calendar, over the one of the same identifier if there is one.
pub const UPSERT_CALENDAR_SQL: &'static str = "INSERT INTO calendars
            (id, title, year, region, exam_type, timezone, updated_at,
             source_name, source_url, default_alarm_minutes_json)
         VALUES (?1, ?2, ?3, ?4, ?5, ?6, ?7, ?8, ?9, ?10)
         ON CONFLICT(id) DO UPDATE SET
            title = excluded.title,
            year = excluded.year,
            region = excluded.region,
            exam_type = excluded.exam_type,
            timezone = excluded.timezone,
            updated_at = excluded.updated_at,
            source_name = excluded.source_name,
            source_url = excluded.source_url,
            default_alarm_minutes_json = excluded.default_alarm_minutes_json";

/// Removes the events of a calendar.
pub const DELETE_EVENTS_SQL: &'static str = "DELETE FROM events WHERE calendar_id = ?1";

/// Writes an event, over the one of the same identifier in its calendar if there is one.
pub const UPSERT_EVENT_SQL: &'static str = "INSERT INTO events
            (calendar_id, id, title, start, end, all_day, description, location,
             url, source_name, source_url, status, alarm_minutes_json)
         VALUES (?1, ?2, ?3, ?4, ?5, ?6, ?7, ?8, ?9, ?10, ?11, ?12, ?13)
         ON CONFLICT(calendar_id, id) DO UPDATE SET
            title = excluded.title,
            start = excluded.start,
            end = excluded.end,
            all_day = excluded.all_day,
            description = excluded.description,
            location = excluded.location,
            url = excluded.url,
            source_name = excluded.source_name,
            source_url = excluded.source_url,
            status = excluded.status,
            alarm_minutes_json = excluded.alarm_minutes_json";

/// Records an import.
pub const RECORD_IMPORT_SQL: &'static str =
    "INSERT INTO imports (calendar_id, source_url, raw_text, extracted_json, created_at)
             VALUES (?1, ?2, ?3, ?4, datetime('now'))";

/// Marks an import as applied.
pub const MARK_IMPORT_APPLIED_SQL: &'static str =
    "UPDATE imports SET applied_at = datetime('now') WHERE id = ?1";

// ---------------------------------------------------------------------------
// The columns of the database
// ---------------------------------------------------------------------------

/// The columns from which a calendar is read, in their order.
pub open spec fn calendar_columns() -> Seq<Seq<char>> {
    seq![
        "id"@,
        "title"@,
        "year"@,
        "region"@,
        "exam_type"@,
        "timezone"@,
        "updated_at"@,
        "source_name"@,
        "source_url"@,
        "default_alarm_minutes_json"@,
    ]
}

/// The columns from which an event is read, in their order.
pub open spec fn event_columns() -> Seq<Seq<char>> {
    seq![
        "id"@,
        "title"@,
        "start"@,
        "end"@,
        "all_day"@,
        "description"@,
        "location"@,
        "url"@,
        "source_name"@,
        "source_url"@,
        "status"@,
        "alarm_minutes_json"@,
    ]
}

/// The columns to which an event is written: its calendar, and those from which it is read.
pub open spec fn written_event_columns() -> Seq<Seq<char>> {
    seq![
        "calendar_id"@,
        "id"@,
        "title"@,
        "start"@,
        "end"@,
        "all_day"@,
        "description"@,
        "location"@,
        "url"@,
        "source_name"@,
        "source_url"@,
        "status"@,
        "alarm_minutes_json"@,
    ]
}

/// The names of the first parameters.
pub open spec fn parameter_names(n: nat) -> Seq<Seq<char>> {
    Seq::new(n, |i: int| "?"@ + text::decimal(i + 1))
}

/// The assignments that overwrite columns with their new values.
pub open spec fn overwriting(columns: Seq<Seq<char>>) -> Seq<Seq<char>> {
    columns.map_values(|column: Seq<char>| column + " = excluded."@ + column)
}

proof fn lemma_parameter_names()
    ensures
        parameter_names(13) == seq![
            "?1"@,
            "?2"@,
            "?3"@,
            "?4"@,
            "?5"@,
            "?6"@,
            "?7"@,
            "?8"@,
            "?9"@,
            "?10"@,
            "?11"@,
            "?12"@,
            "?13"@,
        ],
{
    reveal_with_fuel(text::digits, 3);
    reveal_strlit("?");
    reveal_strlit("?1");
    assert("?"@ + text::decimal(1) =~= "?1"@);
    reveal_strlit("?2");
    assert("?"@ + text::decimal(2) =~= "?2"@);
    reveal_strlit("?3");
    assert("?"@ + text::decimal(3) =~= "?3"@);
    reveal_strlit("?4");
    assert("?"@ + text::decimal(4) =~= "?4"@);
    reveal_strlit("?5");
    assert("?"@ + text::decimal(5) =~= "?5"@);
    reveal_strlit("?6");
    assert("?"@ + text::decimal(6) =~= "?6"@);
    reveal_strlit("?7");
    assert("?"@ + text::decimal(7) =~= "?7"@);
    reveal_strlit("?8");
    assert("?"@ + text::decimal(8) =~= "?8"@);
    reveal_strlit("?9");
    assert("?"@ + text::decimal(9) =~= "?9"@);
    reveal_strlit("?10");
    assert("?"@ + text::decimal(10) =~= "?10"@);
    reveal_strlit("?11");
    assert("?"@ + text::decimal(11) =~= "?11"@);
    reveal_strlit("?12");
    assert("?"@ + text::decimal(12) =~= "?12"@);
    reveal_strlit("?13");
    assert("?"@ + text::decimal(13) =~= "?13"@);
}

/// The list of the calendars has their first five columns.
#[verifier::rlimit(60)]
#[verifier::spinoff_prover]
pub proof fn calendars_are_listed_from_their_columns()
    ensures
        LIST_CALENDARS_SQL@ == "SELECT "@ + text::joined(calendar_columns().take(5), ", "@)
            + "\n             FROM calendars\n             ORDER BY region, exam_type, year, id"@,
{
    reveal_strlit(
        "SELECT id, title, year, region, exam_type
             FROM calendars
             ORDER BY region, exam_type, year, id",
    );
    reveal_strlit("SELECT ");
    reveal_strlit(", ");
    reveal_strlit(
        "\n             FROM calendars\n             ORDER BY region, exam_type, year, id",
    );
    reveal_strlit("id");
    reveal_strlit("title");
    reveal_strlit("year");
    reveal_strlit("region");
    reveal_strlit("exam_type");
    reveal_with_fuel(text::joined, 6);
    assert(calendar_columns().take(5) =~= seq![
        "id"@,
        "title"@,
        "year"@,
        "region"@,
        "exam_type"@,
    ]);
}

/// A calendar is read from its columns.
#[verifier::rlimit(60)]
#[verifier::spinoff_prover]
pub proof fn calendars_are_read_from_their_columns()
    ensures
        SELECT_CALENDAR_SQL@ == "SELECT "@ + text::joined(calendar_columns().take(7), ", "@)
            + ",\n                        "@ + text::joined(calendar_columns().skip(7), ", "@)
            + "\n                 FROM calendars\n                 WHERE id = ?1"@,
{
    reveal_strlit(
        "SELECT id, title, year, region, exam_type, timezone, updated_at,
                        source_name, source_url, default_alarm_minutes_json
                 FROM calendars
                 WHERE id = ?1",
    );
    reveal_strlit("SELECT ");
    reveal_strlit(", ");
    reveal_strlit(",\n                        ");
    reveal_strlit("\n                 FROM calendars\n                 WHERE id = ?1");
    reveal_strlit("id");
    reveal_strlit("title");
    reveal_strlit("year");
    reveal_strlit("region");
    reveal_strlit("exam_type");
    reveal_strlit("timezone");
    reveal_strlit("updated_at");
    reveal_strlit("source_name");
    reveal_strlit("source_url");
    reveal_strlit("default_alarm_minutes_json");
    reveal_with_fuel(text::joined, 8);
    assert(calendar_columns().take(7) =~= seq![
        "id"@,
        "title"@,
        "year"@,
        "region"@,
        "exam_type"@,
        "timezone"@,
        "updated_at"@,
    ]);
    assert(calendar_columns().skip(7) =~= seq![
        "source_name"@,
        "source_url"@,
        "default_alarm_minutes_json"@,
    ]);
}

/// The events of a calendar are read from their columns.
#[verifier::rlimit(60)]
#[verifier::spinoff_prover]
pub proof fn events_are_read_from_their_columns()
    ensures
        SELECT_EVENTS_SQL@ == "SELECT "@ + text::joined(event_columns().take(8), ", "@)
            + ",\n                "@ + text::joined(event_columns().skip(8), ", "@)
            + "\n         FROM events\n         WHERE calendar_id = ?1\n         ORDER BY start, id"@,
{
    reveal_strlit(
        "SELECT id, title, start, end, all_day, description, location, url,
                source_name, source_url, status, alarm_minutes_json
         FROM events
         WHERE calendar_id = ?1
         ORDER BY start, id",
    );
    reveal_strlit("SELECT ");
    reveal_strlit(", ");
    reveal_strlit(",\n                ");
    reveal_strlit(
        "\n         FROM events\n         WHERE calendar_id = ?1\n         ORDER BY start, id",
    );
    reveal_strlit("id");
    reveal_strlit("title");
    reveal_strlit("start");
    reveal_strlit("end");
    reveal_strlit("all_day");
    reveal_strlit("description");
    reveal_strlit("location");
    reveal_strlit("url");
    reveal_strlit("source_name");
    reveal_strlit("source_url");
    reveal_strlit("status");
    reveal_strlit("alarm_minutes_json");
    reveal_with_fuel(text::joined, 9);
    assert(event_columns().take(8) =~= seq![
        "id"@,
        "title"@,
        "start"@,
        "end"@,
        "all_day"@,
        "description"@,
        "location"@,
        "url"@,
    ]);
    assert(event_columns().skip(8) =~= seq![
        "source_name"@,
        "source_url"@,
        "status"@,
        "alarm_minutes_json"@,
    ]);
}

/// A calendar is written to its columns, from as many parameters; one that is there already is
/// overwritten in all of them but its identifier.
#[verifier::rlimit(60)]
#[verifier::spinoff_prover]
pub proof fn calendars_are_written_to_their_columns()
    ensures
        UPSERT_CALENDAR_SQL@ == "INSERT INTO calendars\n            ("@ + text::joined(
            calendar_columns().take(7),
            ", "@,
        ) + ",\n             "@ + text::joined(calendar_columns().skip(7), ", "@)
            + ")\n         VALUES ("@ + text::joined(parameter_names(10), ", "@)
            + ")\n         ON CONFLICT(id) DO UPDATE SET\n            "@ + text::joined(
            overwriting(calendar_columns().skip(1)),
            ",\n            "@,
        ),
{
    reveal_strlit(
        "INSERT INTO calendars
            (id, title, year, region, exam_type, timezone, updated_at,
             source_name, source_url, default_alarm_minutes_json)
         VALUES (?1, ?2, ?3, ?4, ?5, ?6, ?7, ?8, ?9, ?10)
         ON CONFLICT(id) DO UPDATE SET
            title = excluded.title,
            year = excluded.year,
            region = excluded.region,
            exam_type = excluded.exam_type,
            timezone = excluded.timezone,
            updated_at = excluded.updated_at,
            source_name = excluded.source_name,
            source_url = excluded.source_url,
            default_alarm_minutes_json = excluded.default_alarm_minutes_json",
    );
    reveal_strlit("INSERT INTO calendars\n            (");
    reveal_strlit(", ");
    reveal_strlit(",\n             ");
    reveal_strlit(")\n         VALUES (");
    reveal_strlit(")\n         ON CONFLICT(id) DO UPDATE SET\n            ");
    reveal_strlit(",\n            ");
    reveal_strlit(" = excluded.");
    reveal_strlit("id");
    reveal_strlit("title");
    reveal_strlit("year");
    reveal_strlit("region");
    reveal_strlit("exam_type");
    reveal_strlit("timezone");
    reveal_strlit("updated_at");
    reveal_strlit("source_name");
    reveal_strlit("source_url");
    reveal_strlit("default_alarm_minutes_json");
    reveal_strlit("?1");
    reveal_strlit("?2");
    reveal_strlit("?3");
    reveal_strlit("?4");
    reveal_strlit("?5");
    reveal_strlit("?6");
    reveal_strlit("?7");
    reveal_strlit("?8");
    reveal_strlit("?9");
    reveal_strlit("?10");
    reveal_with_fuel(text::joined, 11);
    assert(calendar_columns().take(7) =~= seq![
        "id"@,
        "title"@,
        "year"@,
        "region"@,
        "exam_type"@,
        "timezone"@,
        "updated_at"@,
    ]);
    assert(calendar_columns().skip(7) =~= seq![
        "source_name"@,
        "source_url"@,
        "default_alarm_minutes_json"@,
    ]);
    lemma_parameter_names();
    assert(parameter_names(10) =~= parameter_names(13).take(10));
    assert(overwriting(calendar_columns().skip(1)) =~= seq![
        "title"@ + " = excluded."@ + "title"@,
        "year"@ + " = excluded."@ + "year"@,
        "region"@ + " = excluded."@ + "region"@,
        "exam_type"@ + " = excluded."@ + "exam_type"@,
        "timezone"@ + " = excluded."@ + "timezone"@,
        "updated_at"@ + " = excluded."@ + "updated_at"@,
        "source_name"@ + " = excluded."@ + "source_name"@,
        "source_url"@ + " = excluded."@ + "source_url"@,
        "default_alarm_minutes_json"@ + " = excluded."@ + "default_alarm_minutes_json"@,
    ]);
}

/// An event is written to its columns, from as many parameters; one that is there already is
/// overwritten in all of them but its calendar and its identifier.
#[verifier::rlimit(60)]
#[verifier::spinoff_prover]
pub proof fn events_are_written_to_their_columns()
    ensures
        UPSERT_EVENT_SQL@ == "INSERT INTO events\n            ("@ + text::joined(
            written_event_columns().take(8),
            ", "@,
        ) + ",\n             "@ + text::joined(written_event_columns().skip(8), ", "@)
            + ")\n         VALUES ("@ + text::joined(parameter_names(13), ", "@)
            + ")\n         ON CONFLICT(calendar_id, id) DO UPDATE SET\n            "@
            + text::joined(
            overwriting(written_event_columns().skip(2)),
            ",\n            "@,
        ),
{
    reveal_strlit(
        "INSERT INTO events
            (calendar_id, id, title, start, end, all_day, description, location,
             url, source_name, source_url, status, alarm_minutes_json)
         VALUES (?1, ?2, ?3, ?4, ?5, ?6, ?7, ?8, ?9, ?10, ?11, ?12, ?13)
         ON CONFLICT(calendar_id, id) DO UPDATE SET
            title = excluded.title,
            start = excluded.start,
            end = excluded.end,
            all_day = excluded.all_day,
            description = excluded.description,
            location = excluded.location,
            url = excluded.url,
            source_name = excluded.source_name,
            source_url = excluded.source_url,
            status = excluded.status,
            alarm_minutes_json = excluded.alarm_minutes_json",
    );
    reveal_strlit("INSERT INTO events\n            (");
    reveal_strlit(", ");
    reveal_strlit(",\n             ");
    reveal_strlit(")\n         VALUES (");
    reveal_strlit(")\n         ON CONFLICT(calendar_id, id) DO UPDATE SET\n            ");
    reveal_strlit(",\n            ");
    reveal_strlit(" = excluded.");
    reveal_strlit("calendar_id");
    reveal_strlit("id");
    reveal_strlit("title");
    reveal_strlit("start");
    reveal_strlit("end");
    reveal_strlit("all_day");
    reveal_strlit("description");
    reveal_strlit("location");
    reveal_strlit("url");
    reveal_strlit("source_name");
    reveal_strlit("source_url");
    reveal_strlit("status");
    reveal_strlit("alarm_minutes_json");
    reveal_strlit("?1");
    reveal_strlit("?2");
    reveal_strlit("?3");
    reveal_strlit("?4");
    reveal_strlit("?5");
    reveal_strlit("?6");
    reveal_strlit("?7");
    reveal_strlit("?8");
    reveal_strlit("?9");
    reveal_strlit("?10");
    reveal_strlit("?11");
    reveal_strlit("?12");
    reveal_strlit("?13");
    reveal_with_fuel(text::joined, 14);
    assert(written_event_columns().take(8) =~= seq![
        "calendar_id"@,
        "id"@,
        "title"@,
        "start"@,
        "end"@,
        "all_day"@,
        "description"@,
        "location"@,
    ]);
    assert(written_event_columns().skip(8) =~= seq![
        "url"@,
        "source_name"@,
        "source_url"@,
        "status"@,
        "alarm_minutes_json"@,
    ]);
    lemma_parameter_names();
    assert(overwriting(written_event_columns().skip(2)) =~= seq![
        "title"@ + " = excluded."@ + "title"@,
        "start"@ + " = excluded."@ + "start"@,
        "end"@ + " = excluded."@ + "end"@,
        "all_day"@ + " = excluded."@ + "all_day"@,
        "description"@ + " = excluded."@ + "description"@,
        "location"@ + " = excluded."@ + "location"@,
        "url"@ + " = excluded."@ + "url"@,
        "source_name"@ + " = excluded."@ + "source_name"@,
        "source_url"@ + " = excluded."@ + "source_url"@,
        "status"@ + " = excluded."@ + "status"@,
        "alarm_minutes_json"@ + " = excluded."@ + "alarm_minutes_json"@,
    ]);
}

/// A parameter of a query or a statement.
#[derive(Debug)]
pub enum SqlValue {
    Null,
    Integer(i64),
    Text(String),
}

/// The model of a [`SqlValue`].
#[verifier::ext_equal]
pub enum SqlView {
    Null,
    Integer(int),
    Text(Seq<char>),
}

impl View for SqlValue {
    type V = SqlView;

    open spec fn view(&self) -> SqlView {
        match self {
            SqlValue::Null => SqlView::Null,
            SqlValue::Integer(n) => SqlView::Integer(*n as int),
            SqlValue::Text(text) => SqlView::Text(text@),
        }
    }
}

/// The models of a list of parameters.
pub open spec fn param_views(params: Seq<SqlValue>) -> Seq<SqlView> {
    params.map_values(|param: SqlValue| param@)
}

/// The parameter of an optional text.
pub open spec fn text_param(text: Option<Seq<char>>) -> SqlView {
    match text {
        Some(text) => SqlView::Text(text),
        None => SqlView::Null,
    }
}

fn text_value(text: &Option<String>) -> (res: SqlValue)
    ensures
        res@ == text_param(model::optional_text(*text)),
{
    match text {
        Some(text) => SqlValue::Text(text.clone()),
        None => SqlValue::Null,
    }
}

/// A question to the database.
#[derive(Debug)]
pub enum Query {
    /// All calendars, in the order of region, type, year and identifier.
    ListCalendars,
    /// The calendar of an identifier.
    Calendar(String),
    /// The events of a calendar, in the order of start and identifier.
    Events(String),
}

/// A change of the database.
#[derive(Debug)]
pub enum Statement {
    /// Writes a calendar without its events.
    UpsertCalendar(CalendarRow),
    /// Removes all events of a calendar.
    DeleteEvents(String),
    /// Writes an event of a calendar.
    UpsertEvent(String, EventRow),
    /// Records what was imported for a calendar: where it came from, its text and the events
    /// that were found in it.
    RecordImport(String, Option<String>, String, String),
    /// Marks an import as applied.
    MarkImportApplied(i64),
}

/// The model of a [`Statement`].
#[verifier::ext_equal]
pub enum StatementView {
    UpsertCalendar(CalendarRowView),
    DeleteEvents(Seq<char>),
    UpsertEvent(Seq<char>, EventRowView),
    RecordImport(Seq<char>, Option<Seq<char>>, Seq<char>, Seq<char>),
    MarkImportApplied(int),
}

impl View for Statement {
    type V = StatementView;

    open spec fn view(&self) -> StatementView {
        match self {
            Statement::UpsertCalendar(row) => StatementView::UpsertCalendar(row@),
            Statement::DeleteEvents(calendar_id) => StatementView::DeleteEvents(calendar_id@),
            Statement::UpsertEvent(calendar_id, row) => StatementView::UpsertEvent(
                calendar_id@,
                row@,
            ),
            Statement::RecordImport(
                calendar_id,
                source_url,
                raw_text,
                extracted_json,
            ) => StatementView::RecordImport(
                calendar_id@,
                model::optional_text(*source_url),
                raw_text@,
                extracted_json@,
            ),
            Statement::MarkImportApplied(id) => StatementView::MarkImportApplied(*id as int),
        }
    }
}

/// The models of a list of statements.
pub open spec fn statement_views(statements: Seq<Statement>) -> Seq<StatementView> {
    statements.map_values(|statement: Statement| statement@)
}

impl Query {
    /// The text of the query.
    pub open spec fn sql_text(self) -> Seq<char> {
        match self {
            Query::ListCalendars => LIST_CALENDARS_SQL@,
            Query::Calendar(_) => SELECT_CALENDAR_SQL@,
            Query::Events(_) => SELECT_EVENTS_SQL@,
        }
    }

    /// The parameters of the query.
    pub open spec fn sql_params(self) -> Seq<SqlView> {
        match self {
            Query::ListCalendars => Seq::empty(),
            Query::Calendar(id) => seq![SqlView::Text(id@)],
            Query::Events(calendar_id) => seq![SqlView::Text(calendar_id@)],
        }
    }

    /// The text of the query.
    pub fn sql(&self) -> (res: &'static str)
        ensures
            res@ == self.sql_text(),
    {
        match self {
            Query::ListCalendars => LIST_CALENDARS_SQL,
            Query::Calendar(_) => SELECT_CALENDAR_SQL,
            Query::Events(_) => SELECT_EVENTS_SQL,
        }
    }

    /// The parameters of the query.
    pub fn params(&self) -> (res: Vec<SqlValue>)
        ensures
            param_views(res@) == self.sql_params(),
    {
        let mut params: Vec<SqlValue> = Vec::new();
        match self {
            Query::ListCalendars => {},
            Query::Calendar(id) => params.push(SqlValue::Text(id.clone())),
            Query::Events(calendar_id) => params.push(SqlValue::Text(calendar_id.clone())),
        }
        proof {
            assert(param_views(params@) =~= self.sql_params());
        }
        params
    }
}

/// The parameters that write a calendar.
pub open spec fn calendar_params(row: CalendarRowView) -> Seq<SqlView> {
    seq![
        SqlView::Text(row.id),
        SqlView::Text(row.title),
        SqlView::Integer(row.year),
        SqlView::Text(row.region),
        SqlView::Text(row.exam_type),
        SqlView::Text(row.timezone),
        text_param(row.updated_at),
        text_param(row.source_name),
        text_param(row.source_url),
        SqlView::Text(row.default_alarm_minutes_json),
    ]
}

/// The parameters that write an event.
pub open spec fn event_params(calendar_id: Seq<char>, row: EventRowView) -> Seq<SqlView> {
    seq![
        SqlView::Text(calendar_id),
        SqlView::Text(row.id),
        SqlView::Text(row.title),
        SqlView::Text(row.start),
        SqlView::Text(row.end),
        SqlView::Integer(row.all_day),
        text_param(row.description),
        text_param(row.location),
        text_param(row.url),
        text_param(row.source_name),
        text_param(row.source_url),
        text_param(row.status),
        text_param(row.alarm_minutes_json),
    ]
}

impl StatementView {
    /// The text of the statement.
    pub open spec fn sql_text(self) -> Seq<char> {
        match self {
            StatementView::UpsertCalendar(_) => UPSERT_CALENDAR_SQL@,
            StatementView::DeleteEvents(_) => DELETE_EVENTS_SQL@,
            StatementView::UpsertEvent(_, _) => UPSERT_EVENT_SQL@,
            StatementView::RecordImport(_, _, _, _) => RECORD_IMPORT_SQL@,
            StatementView::MarkImportApplied(_) => MARK_IMPORT_APPLIED_SQL@,
        }
    }

    /// The parameters of the statement.
    pub open spec fn sql_params(self) -> Seq<SqlView> {
        match self {
            StatementView::UpsertCalendar(row) => calendar_params(row),
            StatementView::DeleteEvents(calendar_id) => seq![SqlView::Text(calendar_id)],
            StatementView::UpsertEvent(calendar_id, row) => event_params(calendar_id, row),
            StatementView::RecordImport(calendar_id, source_url, raw_text, extracted_json) => seq![
                SqlView::Text(calendar_id),
                text_param(source_url),
                SqlView::Text(raw_text),
                SqlView::Text(extracted_json),
            ],
            StatementView::MarkImportApplied(id) => seq![SqlView::Integer(id)],
        }
    }
}

/// Each question and each statement is put to the database in the text that is for it.
pub proof fn texts_of_questions_and_statements(
    question: Query,
    id: Seq<char>,
    other: Option<Seq<char>>,
    raw_text: Seq<char>,
    number: int,
    calendar: CalendarRowView,
    event: EventRowView,
)
    ensures
        question is ListCalendars ==> question.sql_text() == LIST_CALENDARS_SQL@,
        question is Calendar ==> question.sql_text() == SELECT_CALENDAR_SQL@,
        question is Events ==> question.sql_text() == SELECT_EVENTS_SQL@,
        StatementView::UpsertCalendar(calendar).sql_text() == UPSERT_CALENDAR_SQL@,
        StatementView::DeleteEvents(id).sql_text() == "DELETE FROM events WHERE calendar_id = ?1"@,
        StatementView::UpsertEvent(id, event).sql_text() == UPSERT_EVENT_SQL@,
        StatementView::RecordImport(id, other, raw_text, raw_text).sql_text() == RECORD_IMPORT_SQL@,
        StatementView::MarkImportApplied(number).sql_text()
            == "UPDATE imports SET applied_at = datetime('now') WHERE id = ?1"@,
{
}

/// The models of parameters, statements and lists of them show all that they hold.
pub proof fn statement_models_show_everything(
    number: i64,
    text: String,
    other: Option<String>,
    raw_text: String,
    json: String,
    row: EventRow,
    calendar: CalendarRow,
    params: Seq<SqlValue>,
    statements: Seq<Statement>,
)
    ensures
        SqlValue::Null@ == SqlView::Null,
        SqlValue::Integer(number)@ == SqlView::Integer(number as int),
        SqlValue::Text(text)@ == SqlView::Text(text@),
        Statement::UpsertCalendar(calendar)@ == StatementView::UpsertCalendar(calendar@),
        Statement::DeleteEvents(text)@ == StatementView::DeleteEvents(text@),
        Statement::UpsertEvent(text, row)@ == StatementView::UpsertEvent(text@, row@),
        Statement::RecordImport(text, other, raw_text, json)@ == StatementView::RecordImport(
            text@,
            model::optional_text(other),
            raw_text@,
            json@,
        ),
        Statement::MarkImportApplied(number)@ == StatementView::MarkImportApplied(number as int),
        param_views(params).len() == params.len(),
        forall|i: int| 0 <= i < params.len() ==> #[trigger] param_views(params)[i] == params[i]@,
        statement_views(statements).len() == statements.len(),
        forall|i: int|
            0 <= i < statements.len() ==> #[trigger] statement_views(statements)[i]
                == statements[i]@,
{
}

/// A text is given as a text, and a missing one as nothing.
pub open spec fn gives_text(param: SqlView, text: Option<Seq<char>>) -> bool {
    match text {
        Some(text) => param == SqlView::Text(text),
        None => param == SqlView::Null,
    }
}

/// The parameters that write an event are its calendar and the columns of its row, each in its
/// place: the thirteen that the statement names.
pub proof fn event_parameters_are_the_columns(calendar_id: Seq<char>, row: EventRowView)
    ensures
        ({
            let params = StatementView::UpsertEvent(calendar_id, row).sql_params();
            &&& params.len() == 13
            &&& params[0] == SqlView::Text(calendar_id)
            &&& params[1] == SqlView::Text(row.id)
            &&& params[2] == SqlView::Text(row.title)
            &&& params[3] == SqlView::Text(row.start)
            &&& params[4] == SqlView::Text(row.end)
            &&& params[5] == SqlView::Integer(row.all_day)
            &&& gives_text(params[6], row.description)
            &&& gives_text(params[7], row.location)
            &&& gives_text(params[8], row.url)
            &&& gives_text(params[9], row.source_name)
            &&& gives_text(params[10], row.source_url)
            &&& gives_text(params[11], row.status)
            &&& gives_text(params[12], row.alarm_minutes_json)
        }),
{
}

/// The parameters that write a calendar are the columns of its row, each in its place: the ten
/// that the statement names.
pub proof fn calendar_parameters_are_the_columns(row: CalendarRowView)
    ensures
        ({
            let params = StatementView::UpsertCalendar(row).sql_params();
            &&& params.len() == 10
            &&& params[0] == SqlView::Text(row.id)
            &&& params[1] == SqlView::Text(row.title)
            &&& params[2] == SqlView::Integer(row.year)
            &&& params[3] == SqlView::Text(row.region)
            &&& params[4] == SqlView::Text(row.exam_type)
            &&& params[5] == SqlView::Text(row.timezone)
            &&& gives_text(params[6], row.updated_at)
            &&& gives_text(params[7], row.source_name)
            &&& gives_text(params[8], row.source_url)
            &&& params[9] == SqlView::Text(row.default_alarm_minutes_json)
        }),
{
}

/// The parameters of the other statements and of the queries.
pub proof fn other_parameters(
    id: Seq<char>,
    source_url: Option<Seq<char>>,
    raw_text: Seq<char>,
    extracted_json: Seq<char>,
    number: int,
    text: String,
)
    ensures
        StatementView::DeleteEvents(id).sql_params() == seq![SqlView::Text(id)],
        StatementView::MarkImportApplied(number).sql_params() == seq![SqlView::Integer(number)],
        ({
            let params = StatementView::RecordImport(
                id,
                source_url,
                raw_text,
                extracted_json,
            ).sql_params();
            &&& params.len() == 4
            &&& params[0] == SqlView::Text(id)
            &&& gives_text(params[1], source_url)
            &&& params[2] == SqlView::Text(raw_text)
            &&& params[3] == SqlView::Text(extracted_json)
        }),
        Query::ListCalendars.sql_params() == Seq::<SqlView>::empty(),
        Query::Calendar(text).sql_params() == seq![SqlView::Text(text@)],
        Query::Events(text).sql_params() == seq![SqlView::Text(text@)],
{
}

/// Statements of one kind with the same parameters are the same: nothing of a row is lost on the
/// way into the database.
pub proof fn parameters_determine_the_statement(a: StatementView, b: StatementView)
    requires
        a.sql_params() == b.sql_params(),
        match (a, b) {
            (StatementView::UpsertCalendar(_), StatementView::UpsertCalendar(_)) => true,
            (StatementView::DeleteEvents(_), StatementView::DeleteEvents(_)) => true,
            (StatementView::UpsertEvent(_, _), StatementView::UpsertEvent(_, _)) => true,
            (
                StatementView::RecordImport(_, _, _, _),
                StatementView::RecordImport(_, _, _, _),
            ) => true,
            (StatementView::MarkImportApplied(_), StatementView::MarkImportApplied(_)) => true,
            _ => false,
        },
    ensures
        a == b,
{
    let p = a.sql_params();
    let q = b.sql_params();
    match (a, b) {
        (StatementView::UpsertCalendar(row), StatementView::UpsertCalendar(other)) => {
            calendar_parameters_are_the_columns(row);
            calendar_parameters_are_the_columns(other);
            assert(row =~= other);
        },
        (StatementView::UpsertEvent(id, row), StatementView::UpsertEvent(other_id, other)) => {
            event_parameters_are_the_columns(id, row);
            event_parameters_are_the_columns(other_id, other);
            assert(row =~= other);
        },
        (
            StatementView::RecordImport(id, url, text, json),
            StatementView::RecordImport(other_id, other_url, other_text, other_json),
        ) => {
            assert(p[0] == q[0] && p[1] == q[1] && p[2] == q[2] && p[3] == q[3]);
        },
        (StatementView::DeleteEvents(id), StatementView::DeleteEvents(other)) => {
            assert(p[0] == q[0]);
        },
        (StatementView::MarkImportApplied(id), StatementView::MarkImportApplied(other)) => {
            assert(p[0] == q[0]);
        },
        _ => {},
    }
}

impl Statement {
    /// The text of the statement.
    pub fn sql(&self) -> (res: &'static str)
        ensures
            res@ == self@.sql_text(),
    {
        match self {
            Statement::UpsertCalendar(_) => UPSERT_CALENDAR_SQL,
            Statement::DeleteEvents(_) => DELETE_EVENTS_SQL,
            Statement::UpsertEvent(_, _) => UPSERT_EVENT_SQL,
            Statement::RecordImport(_, _, _, _) => RECORD_IMPORT_SQL,
            Statement::MarkImportApplied(_) => MARK_IMPORT_APPLIED_SQL,
        }
    }

    /// The parameters of the statement.
    pub fn params(&self) -> (res: Vec<SqlValue>)
        ensures
            param_views(res@) == self@.sql_params(),
    {
        let mut params: Vec<SqlValue> = Vec::new();
        match self {
            Statement::UpsertCalendar(row) => {
                params.push(SqlValue::Text(row.id.clone()));
                params.push(SqlValue::Text(row.title.clone()));
                params.push(SqlValue::Integer(row.year as i64));
                params.push(SqlValue::Text(row.region.clone()));
                params.push(SqlValue::Text(row.exam_type.clone()));
                params.push(SqlValue::Text(row.timezone.clone()));
                params.push(text_value(&row.updated_at));
                params.push(text_value(&row.source_name));
                params.push(text_value(&row.source_url));
                params.push(SqlValue::Text(row.default_alarm_minutes_json.clone()));
            },
            Statement::DeleteEvents(calendar_id) => {
                params.push(SqlValue::Text(calendar_id.clone()));
            },
            Statement::UpsertEvent(calendar_id, row) => {
                params.push(SqlValue::Text(calendar_id.clone()));
                params.push(SqlValue::Text(row.id.clone()));
                params.push(SqlValue::Text(row.title.clone()));
                params.push(SqlValue::Text(row.start.clone()));
                params.push(SqlValue::Text(row.end.clone()));
                params.push(SqlValue::Integer(row.all_day));
                params.push(text_value(&row.description));
                params.push(text_value(&row.location));
                params.push(text_value(&row.url));
                params.push(text_value(&row.source_name));
                params.push(text_value(&row.source_url));
                params.push(text_value(&row.status));
                params.push(text_value(&row.alarm_minutes_json));
            },
            Statement::RecordImport(calendar_id, source_url, raw_text, extracted_json) => {
                params.push(SqlValue::Text(calendar_id.clone()));
                params.push(text_value(source_url));
                params.push(SqlValue::Text(raw_text.clone()));
                params.push(SqlValue::Text(extracted_json.clone()));
            },
            Statement::MarkImportApplied(id) => {
                params.push(SqlValue::Integer(*id));
            },
        }
        proof {
            assert(param_views(params@) =~= self@.sql_params());
        }
        params
    }
}

/// The tables of the database.
pub fn init_schema() -> (res: &'static str)
    ensures
        res@ == SCHEMA_SQL@,
{
    SCHEMA_SQL
}

// ---------------------------------------------------------------------------
// The store
// ---------------------------------------------------------------------------

/// The statements that write events of a calendar.
pub open spec fn event_upserts(calendar_id: Seq<char>, events: Seq<EventView>) -> Seq<
    StatementView,
> {
    events.map_values(
        |event: EventView| StatementView::UpsertEvent(calendar_id, rows::event_row_of(event)),
    )
}

/// The statements that save a calendar: its row, then its events in place of all that were
/// there.
pub open spec fn save_statements(calendar: CalendarView) -> Seq<StatementView> {
    seq![
        StatementView::UpsertCalendar(rows::calendar_row_of(calendar)),
        StatementView::DeleteEvents(calendar.id),
    ] + event_upserts(calendar.id, calendar.events)
}

/// Why the store gives no calendar or writes nothing.
#[derive(Debug)]
pub enum StoreError {
    /// A column holds a text that could not be read.
    Column(ColumnError),
    /// What was asked for is not there or breaks a rule.
    Refused(String),
}

/// The model of a [`StoreError`].
#[verifier::ext_equal]
pub enum StoreErrorView {
    Column(ColumnErrorView),
    Refused(Seq<char>),
}

impl View for StoreError {
    type V = StoreErrorView;

    open spec fn view(&self) -> StoreErrorView {
        match self {
            StoreError::Column(error) => StoreErrorView::Column(error@),
            StoreError::Refused(message) => StoreErrorView::Refused(message@),
        }
    }
}

/// The outcome of loading a calendar.
pub open spec fn load_outcome(res: Result<CalendarFile, StoreError>) -> Result<
    CalendarView,
    StoreErrorView,
> {
    match res {
        Ok(calendar) => Ok(calendar@),
        Err(error) => Err(error@),
    }
}

/// The outcome of reading a calendar's row, if there was one.
pub open spec fn optional_outcome(calendar: Option<Result<CalendarFile, ColumnError>>) -> Option<
    Result<CalendarView, ColumnErrorView>,
> {
    match calendar {
        Some(calendar) => Some(rows::calendar_outcome(calendar)),
        None => None,
    }
}

/// The outcomes of reading a list of events' rows.
pub open spec fn event_outcomes(events: Seq<Result<Event, ColumnError>>) -> Seq<
    Result<EventView, ColumnErrorView>,
> {
    events.map_values(|event: Result<Event, ColumnError>| rows::event_outcome(event))
}

/// The events of a list of which all could be read, or the first complaint.
pub open spec fn all_read(events: Seq<Result<EventView, ColumnErrorView>>) -> Result<
    Seq<EventView>,
    ColumnErrorView,
>
    decreases events.len(),
{
    if events.len() == 0 {
        Ok(Seq::empty())
    } else {
        match all_read(events.drop_last()) {
            Err(error) => Err(error),
            Ok(read) => match events.last() {
                Err(error) => Err(error),
                Ok(event) => Ok(read.push(event)),
            },
        }
    }
}

/// The calendar of which these rows were read.
pub open spec fn gathered(
    id: Seq<char>,
    calendar: Option<Result<CalendarView, ColumnErrorView>>,
    events: Seq<Result<EventView, ColumnErrorView>>,
) -> Result<CalendarView, StoreErrorView> {
    match calendar {
        None => Err(StoreErrorView::Refused("calendar '"@ + id + "' not found"@)),
        Some(Err(error)) => Err(StoreErrorView::Column(error)),
        Some(Ok(calendar)) => match all_read(events) {
            Err(error) => Err(StoreErrorView::Column(error)),
            Ok(events) => Ok(CalendarView { events, ..calendar }),
        },
    }
}

/// Outcomes are told as they are.
pub proof fn outcomes_are_told_as_they_are(
    calendar: CalendarFile,
    error: StoreError,
    column: ColumnError,
    message: String,
    row: CalendarRow,
    read: Result<CalendarFile, ColumnError>,
    events: Seq<Result<Event, ColumnError>>,
    accepted: AcceptedEvents,
    summary: CalendarSummary,
    summaries: Seq<CalendarSummary>,
)
    ensures
        load_outcome(Ok(calendar)) == Ok::<_, StoreErrorView>(calendar@),
        load_outcome(Err(error)) == Err::<CalendarView, _>(error@),
        StoreError::Column(column)@ == StoreErrorView::Column(column@),
        StoreError::Refused(message)@ == StoreErrorView::Refused(message@),
        optional_outcome(Some(read)) == Some(rows::calendar_outcome(read)),
        optional_outcome(None) is None,
        event_outcomes(events).len() == events.len(),
        forall|i: int|
            0 <= i < events.len() ==> #[trigger] event_outcomes(events)[i] == rows::event_outcome(
                events[i],
            ),
        optional_row(Some(row)) == Some(row@),
        optional_row(None) is None,
        accepted_outcome(Ok(accepted)) == Ok::<_, StoreErrorView>(
            (statement_views(accepted.statements@), accepted.count as int),
        ),
        accepted_outcome(Err(error)) == Err::<(Seq<StatementView>, int), _>(error@),
        summary@.id == summary.id@ && summary@.title == summary.title@,
        summary@.year == summary.year && summary@.region == summary.region@,
        summary@.exam_type == summary.exam_type@,
        summary_views(summaries).len() == summaries.len(),
        forall|i: int|
            0 <= i < summaries.len() ==> #[trigger] summary_views(summaries)[i] == summaries[i]@,
{
}

/// What is loaded is what was gathered of the rows, where that is a valid calendar, and else what
/// is wrong with it.
pub proof fn only_valid_calendars_are_loaded(
    id: Seq<char>,
    row: Option<CalendarRowView>,
    event_rows: Seq<EventRowView>,
)
    ensures
        ({
            let found = gathered(
                id,
                match row {
                    Some(row) => Some(rows::read_row(row)),
                    None => None,
                },
                event_rows.map_values(|row: EventRowView| rows::read_event_row(row)),
            );
            match found {
                Err(error) => loaded(id, row, event_rows) == Err::<CalendarView, _>(error),
                Ok(calendar) => match validate::calendar_defect(
                    calendar,
                    validate::calendar_readings(calendar),
                ) {
                    None => loaded(id, row, event_rows) == Ok::<_, StoreErrorView>(calendar),
                    Some(message) => loaded(id, row, event_rows) == Err::<CalendarView, _>(
                        StoreErrorView::Refused(message),
                    ),
                },
            }
        }),
        row is None ==> loaded(id, row, event_rows) == Err::<CalendarView, _>(
            StoreErrorView::Refused("calendar '"@ + id + "' not found"@),
        ),
{
}

/// Events are accepted, all of them, where the calendar was loaded and is valid with them.
pub proof fn only_valid_events_are_accepted(
    id: Seq<char>,
    error: StoreErrorView,
    calendar: CalendarView,
    updates: Seq<EventView>,
)
    ensures
        accepted(id, Err(error), updates) == Err::<(Seq<StatementView>, int), _>(error),
        ({
            let new = CalendarView { events: merged(calendar.events, updates), ..calendar };
            match validate::calendar_defect(new, validate::calendar_readings(new)) {
                Some(message) => accepted(id, Ok(calendar), updates) == Err::<
                    (Seq<StatementView>, int),
                    _,
                >(StoreErrorView::Refused(message)),
                None => accepted(id, Ok(calendar), updates) matches Ok((statements, count))
                    && count == updates.len() && statements.len() == updates.len() && forall|
                    i: int,
                |
                    0 <= i < updates.len() ==> #[trigger] statements[i]
                        == StatementView::UpsertEvent(id, rows::event_row_of(updates[i])),
            }
        }),
{
}

/// The calendar of the rows that the database found.
pub open spec fn loaded(
    id: Seq<char>,
    row: Option<CalendarRowView>,
    event_rows: Seq<EventRowView>,
) -> Result<CalendarView, StoreErrorView> {
    let gathered = gathered(
        id,
        match row {
            Some(row) => Some(rows::read_row(row)),
            None => None,
        },
        event_rows.map_values(|row: EventRowView| rows::read_event_row(row)),
    );
    match gathered {
        Err(error) => Err(error),
        Ok(calendar) => match validate::calendar_defect(
            calendar,
            validate::calendar_readings(calendar),
        ) {
            Some(message) => Err(StoreErrorView::Refused(message)),
            None => Ok(calendar),
        },
    }
}

/// The model of an optional row.
pub open spec fn optional_row(row: Option<CalendarRow>) -> Option<CalendarRowView> {
    match row {
        Some(row) => Some(row@),
        None => None,
    }
}

/// Puts a calendar together from what was read of its rows.
pub fn gather_calendar(
    id: &str,
    calendar: Option<Result<CalendarFile, ColumnError>>,
    events: Vec<Result<Event, ColumnError>>,
) -> (res: Result<CalendarFile, StoreError>)
    ensures
        load_outcome(res) == gathered(
            id@,
            optional_outcome(calendar),
            event_outcomes(events@),
        ),
{
    let mut found = match calendar {
        None => return Err(
            StoreError::Refused("calendar '".to_string().concat(id).concat("' not found")),
        ),
        Some(Err(error)) => return Err(StoreError::Column(error)),
        Some(Ok(calendar)) => calendar,
    };
    let ghost outcomes = event_outcomes(events@);
    let mut read: Vec<Event> = Vec::new();
    proof {
        assert(model::event_views(read@) =~= Seq::<EventView>::empty());
    }
    for event in iter: events
        invariant
            iter.seq() == events@,
            calendar matches Some(Ok(_)),
            outcomes == event_outcomes(events@),
            all_read(outcomes.take(iter.index() as int)) == Ok::<_, ColumnErrorView>(
                model::event_views(read@),
            ),
    {
        proof {
            let i = iter.index() as int;
            assert(outcomes.take(i + 1).drop_last() =~= outcomes.take(i));
            assert(outcomes.take(i + 1).last() == rows::event_outcome(event));
        }
        match event {
            Ok(event) => {
                let ghost before = read@;
                read.push(event);
                proof {
                    assert(model::event_views(read@) =~= model::event_views(before).push(event@));
                }
            },
            Err(error) => {
                proof {
                    lemma_error_stays(outcomes, iter.index() + 1);
                }
                return Err(StoreError::Column(error));
            },
        }
    }
    proof {
        assert(outcomes.take(outcomes.len() as int) =~= outcomes);
    }
    found.events = read;
    Ok(found)
}

proof fn lemma_error_stays(events: Seq<Result<EventView, ColumnErrorView>>, n: int)
    requires
        0 <= n <= events.len(),
        all_read(events.take(n)) is Err,
    ensures
        all_read(events) == all_read(events.take(n)),
    decreases events.len(),
{
    if n == events.len() {
        assert(events.take(n) =~= events);
    } else {
        assert(events.drop_last().take(n) =~= events.take(n));
        lemma_error_stays(events.drop_last(), n);
    }
}

/// Where every row gives an event, these events are read.
pub proof fn all_read_of_events(
    outcomes: Seq<Result<EventView, ColumnErrorView>>,
    events: Seq<EventView>,
)
    requires
        outcomes.len() == events.len(),
        forall|i: int|
            0 <= i < outcomes.len() ==> #[trigger] outcomes[i] == Ok::<_, ColumnErrorView>(
                events[i],
            ),
    ensures
        all_read(outcomes) == Ok::<_, ColumnErrorView>(events),
    decreases outcomes.len(),
{
    if outcomes.len() == 0 {
        assert(events =~= Seq::empty());
    } else {
        all_read_of_events(outcomes.drop_last(), events.drop_last());
        assert(events.drop_last().push(events.last()) =~= events);
    }
}

/// Where events are read, every row gives its event.
pub proof fn all_read_gives_every_event(outcomes: Seq<Result<EventView, ColumnErrorView>>)
    ensures
        all_read(outcomes) matches Ok(events) ==> {
            &&& events.len() == outcomes.len()
            &&& forall|i: int|
                0 <= i < outcomes.len() ==> #[trigger] outcomes[i] == Ok::<_, ColumnErrorView>(
                    events[i],
                )
        },
    decreases outcomes.len(),
{
    if outcomes.len() > 0 {
        all_read_gives_every_event(outcomes.drop_last());
        assert forall|i: int| 0 <= i < outcomes.len() - 1 implies outcomes[i]
            == #[trigger] outcomes.drop_last()[i] by {}
        if let Ok(events) = all_read(outcomes) {
            assert forall|i: int| 0 <= i < outcomes.len() implies #[trigger] outcomes[i] == Ok::<
                _,
                ColumnErrorView,
            >(events[i]) by {
                if i < outcomes.len() - 1 {
                    assert(outcomes.drop_last()[i] == outcomes[i]);
                }
            }
        }
    }
}

/// The position of the first event of an identifier, if there is one.
pub open spec fn event_position(events: Seq<EventView>, id: Seq<char>) -> Option<int>
    decreases events.len(),
{
    if events.len() == 0 {
        None
    } else {
        match event_position(events.drop_last(), id) {
            Some(i) => Some(i),
            None => if events.last().id == id {
                Some(events.len() - 1)
            } else {
                None
            },
        }
    }
}

/// A list of events with an event in the place of the first one of its identifier, or at the
/// end where there is none.
pub open spec fn merged_one(events: Seq<EventView>, event: EventView) -> Seq<EventView> {
    match event_position(events, event.id) {
        Some(i) => events.update(i, event),
        None => events.push(event),
    }
}

/// A list of events with other events put into it one after the other.
pub open spec fn merged(events: Seq<EventView>, updates: Seq<EventView>) -> Seq<EventView>
    decreases updates.len(),
{
    if updates.len() == 0 {
        events
    } else {
        merged_one(merged(events, updates.drop_last()), updates.last())
    }
}

/// The position of an identifier is that of its first event.
pub proof fn event_position_is_first(events: Seq<EventView>, id: Seq<char>)
    ensures
        match event_position(events, id) {
            Some(p) => 0 <= p < events.len() && events[p].id == id && forall|i: int|
                0 <= i < p ==> (#[trigger] events[i]).id != id,
            None => forall|i: int| 0 <= i < events.len() ==> (#[trigger] events[i]).id != id,
        },
    decreases events.len(),
{
    if events.len() > 0 {
        let rest = events.drop_last();
        event_position_is_first(rest, id);
        assert(forall|i: int| 0 <= i < rest.len() ==> #[trigger] events[i] == rest[i]);
    }
}

/// An event that is put into a list takes the place of the first one of its identifier, or the
/// end where there is none; all other events stay where they are.
pub proof fn merging_keeps_places(events: Seq<EventView>, event: EventView, p: int)
    requires
        0 <= p <= events.len(),
        forall|i: int| 0 <= i < p ==> (#[trigger] events[i]).id != event.id,
        p < events.len() ==> events[p].id == event.id,
    ensures
        ({
            let after = merged(events, seq![event]);
            &&& p < events.len() ==> after.len() == events.len()
            &&& p == events.len() ==> after.len() == events.len() + 1
            &&& after[p] == event
            &&& forall|i: int| 0 <= i < events.len() && i != p ==> #[trigger] after[i] == events[i]
        }),
{
    event_position_is_first(events, event.id);
    assert(seq![event].drop_last() =~= Seq::<EventView>::empty());
    assert(merged(events, Seq::<EventView>::empty()) == events);
    assert(merged(events, seq![event]) == merged_one(events, event));
    match event_position(events, event.id) {
        Some(q) => {
            if q < p {
                assert(events[q].id != event.id);
            }
            if p < q {
                assert(events[p].id != event.id);
            }
        },
        None => {
            if p < events.len() {
                assert(events[p].id != event.id);
            }
        },
    }
}

/// Events are put into a list one after the other.
pub proof fn merging_goes_one_by_one(
    events: Seq<EventView>,
    updates: Seq<EventView>,
    last: EventView,
)
    ensures
        merged(events, Seq::<EventView>::empty()) == events,
        merged(events, updates.push(last)) == merged(merged(events, updates), seq![last]),
{
    assert(updates.push(last).drop_last() =~= updates);
    assert(seq![last].drop_last() =~= Seq::<EventView>::empty());
    let before = merged(events, updates);
    assert(merged(before, Seq::<EventView>::empty()) == before);
}

/// The statements that save a calendar write its row, remove all its events, and write each of
/// its events, in their order; those that write events write each of them.
pub proof fn every_event_is_written(calendar: CalendarView, i: int)
    requires
        0 <= i < calendar.events.len(),
    ensures
        save_statements(calendar).len() == 2 + calendar.events.len(),
        save_statements(calendar)[0] == StatementView::UpsertCalendar(
            rows::calendar_row_of(calendar),
        ),
        save_statements(calendar)[1] == StatementView::DeleteEvents(calendar.id),
        save_statements(calendar)[2 + i] == StatementView::UpsertEvent(
            calendar.id,
            rows::event_row_of(calendar.events[i]),
        ),
        event_upserts(calendar.id, calendar.events).len() == calendar.events.len(),
        event_upserts(calendar.id, calendar.events)[i] == StatementView::UpsertEvent(
            calendar.id,
            rows::event_row_of(calendar.events[i]),
        ),
{
}

/// The first row of a list that cannot be read is reported.
pub proof fn the_first_unreadable_row_is_reported(
    outcomes: Seq<Result<EventView, ColumnErrorView>>,
    k: int,
)
    requires
        0 <= k < outcomes.len(),
        outcomes[k] is Err,
        forall|i: int| 0 <= i < k ==> (#[trigger] outcomes[i]) is Ok,
    ensures
        all_read(outcomes) == Err::<Seq<EventView>, _>(outcomes[k]->Err_0),
    decreases outcomes.len(),
{
    let rest = outcomes.drop_last();
    assert(forall|i: int| 0 <= i < rest.len() ==> #[trigger] rest[i] == outcomes[i]);
    if k < rest.len() {
        the_first_unreadable_row_is_reported(rest, k);
    } else {
        let events = rest.map_values(|outcome: Result<EventView, ColumnErrorView>| outcome->Ok_0);
        assert forall|i: int| 0 <= i < rest.len() implies #[trigger] rest[i] == Ok::<
            _,
            ColumnErrorView,
        >(events[i]) by {
            assert(outcomes[i] is Ok);
        }
        all_read_of_events(rest, events);
    }
}

/// What is gathered: nothing for an identifier without a row, the calendar's unreadable column
/// before the events', and else the calendar with all its events.
pub proof fn calendars_are_gathered_whole(
    id: Seq<char>,
    calendar: CalendarView,
    error: ColumnErrorView,
    events: Seq<EventView>,
    outcomes: Seq<Result<EventView, ColumnErrorView>>,
)
    requires
        outcomes.len() == events.len(),
        forall|i: int|
            0 <= i < outcomes.len() ==> #[trigger] outcomes[i] == Ok::<_, ColumnErrorView>(
                events[i],
            ),
    ensures
        gathered(id, None, outcomes) == Err::<CalendarView, _>(
            StoreErrorView::Refused("calendar '"@ + id + "' not found"@),
        ),
        gathered(id, Some(Err(error)), outcomes) == Err::<CalendarView, _>(
            StoreErrorView::Column(error),
        ),
        gathered(id, Some(Ok(calendar)), outcomes) == Ok::<_, StoreErrorView>(
            CalendarView { events, ..calendar },
        ),
{
    all_read_of_events(outcomes, events);
}

/// A line of the list of calendars.
#[derive(Debug)]
pub struct CalendarSummary {
    pub id: String,
    pub title: String,
    pub year: i32,
    pub region: String,
    pub exam_type: String,
}

impl View for CalendarSummary {
    type V = SummaryView;

    open spec fn view(&self) -> SummaryView {
        SummaryView {
            id: self.id@,
            title: self.title@,
            year: self.year as int,
            region: self.region@,
            exam_type: self.exam_type@,
        }
    }
}

/// The events that were accepted for a calendar.
#[derive(Debug)]
pub struct AcceptedEvents {
    /// What writes them.
    pub statements: Vec<Statement>,
    /// How many they are.
    pub count: usize,
}

/// An export of the store's calendars.
#[derive(Debug)]
pub struct Export {
    /// The JSON files to write.
    pub files: Vec<OutputFile>,
    /// What to generate from them.
    pub options: GenerationOptions,
}

/// A store of calendars in a database file.
#[derive(Debug)]
pub struct Store {
    path: std::path::PathBuf,
}

impl Clone for Store {
    fn clone(&self) -> (res: Self)
        ensures
            res.file() == self.file(),
    {
        Store { path: self.path.clone() }
    }
}

/// The models of the lines of a list of calendars.
pub open spec fn summary_views(summaries: Seq<CalendarSummary>) -> Seq<SummaryView> {
    summaries.map_values(|summary: CalendarSummary| summary@)
}

/// The list of calendars of the rows that the database found, line by line.
///
/// The last clause speaks of tables whose calendars these rows list: what is given lists them.
pub fn summaries_from_rows(found: &Vec<SummaryRow>) -> (res: Vec<CalendarSummary>)
    ensures
        res@.len() == found@.len(),
        forall|i: int| 0 <= i < res@.len() ==> (#[trigger] res@[i])@ == found@[i]@,
        forall|held: tables::Tables| #[trigger]
            tables::lists(held, rows::summary_row_views(found@)) ==> tables::lists(
                held,
                summary_views(res@),
            ),
{
    let mut summaries: Vec<CalendarSummary> = Vec::new();
    for i in 0..found.len()
        invariant
            summaries@.len() == i,
            forall|j: int| 0 <= j < i ==> (#[trigger] summaries@[j])@ == found@[j]@,
    {
        let row = &found[i];
        summaries.push(
            CalendarSummary {
                id: row.id.clone(),
                title: row.title.clone(),
                year: row.year,
                region: row.region.clone(),
                exam_type: row.exam_type.clone(),
            },
        );
    }
    proof {
        assert(summary_views(summaries@) =~= rows::summary_row_views(found@));
    }
    summaries
}

/// The outcome of writing events: what writes them and how many they are.
pub open spec fn accepted_outcome(res: Result<AcceptedEvents, StoreError>) -> Result<
    (Seq<StatementView>, int),
    StoreErrorView,
> {
    match res {
        Ok(accepted) => Ok((statement_views(accepted.statements@), accepted.count as int)),
        Err(error) => Err(error@),
    }
}

/// What becomes of events that are written to a calendar that was loaded so.
pub open spec fn accepted(
    calendar_id: Seq<char>,
    calendar: Result<CalendarView, StoreErrorView>,
    updates: Seq<EventView>,
) -> Result<(Seq<StatementView>, int), StoreErrorView> {
    match calendar {
        Err(error) => Err(error),
        Ok(calendar) => {
            let new = tables::with_events(calendar, updates);
            match validate::calendar_defect(new, validate::calendar_readings(new)) {
                Some(message) => Err(StoreErrorView::Refused(message)),
                None => Ok((event_upserts(calendar_id, updates), updates.len() as int)),
            }
        },
    }
}

/// The result of writing events to a calendar that was loaded from tables.
pub open spec fn written(
    res: Result<AcceptedEvents, StoreError>,
    held: tables::Tables,
    calendar: CalendarView,
    updates: Seq<EventView>,
) -> bool {
    &&& res is Ok <==> tables::last_events_are_valid(calendar, updates)
    &&& match res {
        Ok(accepted) => {
            &&& accepted.count == updates.len()
            &&& tables::keeps(
                tables::run_all(held, statement_views(accepted.statements@)),
                tables::with_events(calendar, updates),
            )
        },
        Err(error) => error is Refused,
    }
}

/// Puts events into a calendar, each in the place of the first event of its identifier, or at
/// the end where there is none.
pub fn merge_events(calendar: CalendarFile, events: &[Event]) -> (res: CalendarFile)
    ensures
        res@ == tables::with_events(calendar@, model::event_views(events@)),
{
    let ghost given = model::event_views(calendar.events@);
    let ghost updates = model::event_views(events@);
    let mut calendar = calendar;
    let mut merging: Vec<Event> = Vec::new();
    merging.append(&mut calendar.events);
    proof {
        assert(model::event_views(merging@) =~= given);
    }
    for i in 0..events.len()
        invariant
            updates == model::event_views(events@),
            model::event_views(merging@) == merged(given, updates.take(i as int)),
    {
        merge_event(&mut merging, &events[i]);
        proof {
            assert(updates.take(i + 1).drop_last() =~= updates.take(i as int));
        }
    }
    proof {
        assert(updates.take(events@.len() as int) =~= updates);
    }
    calendar.events = merging;
    calendar
}

fn merge_event(events: &mut Vec<Event>, event: &Event)
    ensures
        model::event_views(final(events)@) == merged_one(
            model::event_views(old(events)@),
            event@,
        ),
{
    let ghost before = model::event_views(events@);
    proof {
        event_position_is_first(before, event@.id);
    }
    let mut i: usize = 0;
    while i < events.len()
        invariant
            i <= events@.len(),
            events@ == old(events)@,
            before == model::event_views(old(events)@),
            forall|j: int| 0 <= j < i ==> (#[trigger] before[j]).id != event@.id,
            match event_position(before, event@.id) {
                Some(p) => 0 <= p < before.len() && before[p].id == event@.id && forall|j: int|
                    0 <= j < p ==> (#[trigger] before[j]).id != event@.id,
                None => forall|j: int|
                    0 <= j < before.len() ==> (#[trigger] before[j]).id != event@.id,
            },
        decreases events@.len() - i,
    {
        if events[i].id == event.id {
            proof {
                assert(before[i as int].id == event@.id);
                assert(event_position(before, event@.id) == Some(i as int));
            }
            events.set(i, event.clone());
            proof {
                assert(model::event_views(events@) =~= before.update(i as int, event@));
            }
            return;
        }
        proof {
            assert(before[i as int] == events@[i as int]@);
        }
        i = i + 1;
    }
    events.push(event.clone());
    proof {
        assert(model::event_views(events@) =~= before.push(event@));
    }
}

fn event_statements(calendar_id: &str, events: &[Event]) -> (res: Result<
    Vec<Statement>,
    String,
>)
    ensures
        res matches Ok(statements) && statement_views(statements@) == event_upserts(
            calendar_id@,
            model::event_views(events@),
        ),
        tables::events_read_back(model::event_views(events@)),
{
    let mut statements: Vec<Statement> = Vec::new();
    let ghost upserts = event_upserts(calendar_id@, model::event_views(events@));
    for i in 0..events.len()
        invariant
            upserts == event_upserts(calendar_id@, model::event_views(events@)),
            upserts.len() == events@.len(),
            tables::events_read_back(model::event_views(events@).take(i as int)),
            statement_views(statements@) == upserts.take(i as int),
    {
        let ghost before = statements@;
        match rows::event_row(&events[i]) {
            Ok(row) => statements.push(Statement::UpsertEvent(calendar_id.to_string(), row)),
            Err(message) => return Err(message),
        }
        proof {
            assert(statement_views(statements@) =~= statement_views(before).push(
                statements@[i as int]@,
            ));
            assert(model::event_views(events@).take(i + 1) =~= model::event_views(events@).take(
                i as int,
            ).push(events@[i as int]@));
            assert(upserts.take(i + 1) =~= upserts.take(i as int).push(upserts[i as int]));
        }
    }
    proof {
        assert(model::event_views(events@).take(events@.len() as int) =~= model::event_views(
            events@,
        ));
        assert(upserts.take(events@.len() as int) =~= upserts);
    }
    Ok(statements)
}

impl Store {
    /// The database file.
    pub closed spec fn file(self) -> std::path::PathBuf {
        self.path
    }

    /// The store in a database file.
    pub fn new(path: std::path::PathBuf) -> (res: Self)
        ensures
            res.file() == path,
    {
        Store { path }
    }

    /// The database file.
    pub fn path(&self) -> (res: &std::path::PathBuf)
        ensures
            *res == self.file(),
    {
        &self.path
    }

    /// The question for all calendars.
    pub fn list_calendars(&self) -> (res: Query)
        ensures
            res is ListCalendars,
    {
        Query::ListCalendars
    }

    /// Loads a calendar from the rows that the database found for its identifier.
    ///
    /// The second clause speaks of tables that hold a valid calendar: it is read back.
    pub fn load_calendar(
        &self,
        id: &str,
        row: Option<CalendarRow>,
        event_rows: Vec<EventRow>,
    ) -> (res: Result<CalendarFile, StoreError>)
        ensures
            load_outcome(res) == loaded(id@, optional_row(row), rows::row_views(event_rows@)),
            forall|held: tables::Tables, saved: CalendarView|
                #[trigger] tables::holds(held, saved) && saved.id == id@
                    && validate::valid_calendar(saved) && tables::finds(
                    held,
                    id@,
                    optional_row(row),
                    rows::row_views(event_rows@),
                ) ==> (res matches Ok(calendar) && tables::is_reading_of(saved, calendar@)),
    {
        let ghost found_row = optional_row(row);
        let ghost found_rows = rows::row_views(event_rows@);
        let calendar = match row {
            Some(row) => Some(rows::calendar_from_row(row)),
            None => None,
        };
        let ghost read = optional_outcome(calendar);
        let mut events: Vec<Result<Event, ColumnError>> = Vec::new();
        for event_row in iter: event_rows
            invariant
                iter.seq() == event_rows@,
                found_rows == rows::row_views(event_rows@),
                events@.len() == iter.index(),
                forall|j: int|
                    0 <= j < iter.index() ==> {
                        &&& rows::event_outcome(#[trigger] events@[j]) == rows::read_event_row(
                            found_rows[j],
                        )
                        &&& forall|event: EventView| #[trigger]
                            rows::event_row_of(event) == found_rows[j] ==> rows::event_outcome(
                                events@[j],
                            ) == Ok::<_, ColumnErrorView>(event)
                    },
        {
            proof {
                assert(found_rows[iter.index() as int] == event_row@);
            }
            events.push(rows::event_from_row(event_row));
        }
        let ghost outcomes = event_outcomes(events@);
        proof {
            assert(outcomes =~= found_rows.map_values(
                |row: EventRowView| rows::read_event_row(row),
            ));
            assert forall|held: tables::Tables, saved: CalendarView|
                #[trigger] tables::holds(held, saved) && saved.id == id@ && tables::finds(
                    held,
                    id@,
                    found_row,
                    found_rows,
                ) implies gathered(id@, read, outcomes) == Ok::<_, StoreErrorView>(
                CalendarView { events: tables::versions(saved.events, found_rows), ..saved },
            ) && tables::is_listing(saved.events, tables::versions(saved.events, found_rows)) by {
                tables::found_rows_list_the_events(held, saved, found_row, found_rows);
                let listed = tables::versions(saved.events, found_rows);
                assert forall|i: int| 0 <= i < outcomes.len() implies #[trigger] outcomes[i] == Ok::<
                    _,
                    ColumnErrorView,
                >(listed[i]) by {
                    assert(rows::event_row_of(listed[i]) == found_rows[i]);
                    assert(rows::event_outcome(events@[i]) == Ok::<_, ColumnErrorView>(listed[i]));
                }
                all_read_of_events(outcomes, listed);
            }
        }
        let calendar = match gather_calendar(id, calendar, events) {
            Ok(calendar) => calendar,
            Err(error) => return Err(error),
        };
        proof {
            assert forall|held: tables::Tables, saved: CalendarView|
                #[trigger] tables::holds(held, saved) && saved.id == id@
                    && validate::valid_calendar(saved) && tables::finds(
                    held,
                    id@,
                    found_row,
                    found_rows,
                ) implies tables::is_reading_of(saved, calendar@) && validate::valid_calendar(
                calendar@,
            ) by {
                tables::reading_is_valid(saved, calendar@);
            }
        }
        match validate::validate_calendar(&calendar) {
            Ok(()) => Ok(calendar),
            Err(message) => Err(StoreError::Refused(message)),
        }
    }

    /// What saves a calendar, if it is valid.
    ///
    /// The last clause speaks of what the tables then keep: whatever they held before, the
    /// calendar is loaded from them.
    pub fn save_calendar(&self, calendar: &CalendarFile) -> (res: Result<Vec<Statement>, String>)
        ensures
            match validate::calendar_defect(
                calendar@,
                validate::calendar_readings(calendar@),
            ) {
                Some(message) => res matches Err(found) && found@ == message,
                None => res matches Ok(statements) && statement_views(statements@)
                    == save_statements(calendar@),
            },
            forall|readings: validate::ReadingsView| #[trigger]
                readings.written(calendar@) ==> match validate::calendar_defect(
                    calendar@,
                    readings,
                ) {
                    Some(message) => res matches Err(found) && found@ == message,
                    None => res matches Ok(statements) && statement_views(statements@)
                        == save_statements(calendar@),
                },
            res matches Ok(statements) ==> forall|held: tables::Tables|
                tables::keeps(
                    #[trigger] tables::run_all(held, statement_views(statements@)),
                    calendar@,
                ),
    {
        match validate::validate_calendar(calendar) {
            Ok(()) => {},
            Err(message) => return Err(message),
        }
        let row = match rows::calendar_row(calendar) {
            Ok(row) => row,
            Err(message) => return Err(message),
        };
        let mut events = match event_statements(&calendar.id, calendar.events.as_slice()) {
            Ok(events) => events,
            Err(message) => return Err(message),
        };
        let mut statements: Vec<Statement> = Vec::new();
        statements.push(Statement::UpsertCalendar(row));
        statements.push(Statement::DeleteEvents(calendar.id.clone()));
        let ghost head = statements@;
        let ghost tail = events@;
        statements.append(&mut events);
        proof {
            assert(statement_views(statements@) =~= statement_views(head) + statement_views(tail));
            assert(statement_views(statements@) =~= save_statements(calendar@));
            assert forall|held: tables::Tables|
                tables::keeps(
                    #[trigger] tables::run_all(held, statement_views(statements@)),
                    calendar@,
                ) by {
                let after = tables::run_all(held, save_statements(calendar@));
                tables::saving_stores_the_calendar(held, calendar@);
                tables::held_calendars_are_shown(after, calendar@);
                tables::shown_calendars_are_kept(after, calendar@);
            }
        }
        Ok(statements)
    }

    /// What writes events to a calendar of which the database found these rows, if the calendar
    /// can be loaded and is valid with them.
    ///
    /// The second clause speaks of tables in which a calendar was found that loads. The events
    /// are accepted exactly when the last one of each identifier is valid; the calendar with the
    /// events put into it is then loaded from the tables. What is not accepted breaks a rule.
    pub fn upsert_events(
        &self,
        calendar_id: &str,
        row: Option<CalendarRow>,
        event_rows: Vec<EventRow>,
        events: &[Event],
    ) -> (res: Result<AcceptedEvents, StoreError>)
        ensures
            accepted_outcome(res) == accepted(
                calendar_id@,
                loaded(calendar_id@, optional_row(row), rows::row_views(event_rows@)),
                model::event_views(events@),
            ),
            forall|held: tables::Tables| #[trigger]
                tables::finds(
                    held,
                    calendar_id@,
                    optional_row(row),
                    rows::row_views(event_rows@),
                ) ==> (loaded(
                    calendar_id@,
                    optional_row(row),
                    rows::row_views(event_rows@),
                ) matches Ok(calendar) ==> written(
                    res,
                    held,
                    calendar,
                    model::event_views(events@),
                )),
    {
        let ghost found_row = optional_row(row);
        let ghost found_rows = rows::row_views(event_rows@);
        let calendar = match self.load_calendar(calendar_id, row, event_rows) {
            Ok(calendar) => calendar,
            Err(error) => return Err(error),
        };
        let ghost before = calendar@;
        let ghost updates = model::event_views(events@);
        let calendar = merge_events(calendar, events);
        match validate::validate_calendar(&calendar) {
            Ok(()) => {},
            Err(message) => {
                proof {
                    assert forall|held: tables::Tables| #[trigger]
                        tables::finds(held, calendar_id@, found_row, found_rows)
                            implies !tables::last_events_are_valid(before, updates) by {
                        tables::loaded_calendars_are_shown(
                            held,
                            calendar_id@,
                            found_row,
                            found_rows,
                            before,
                        );
                        tables::merged_calendars_are_valid_with_valid_events(before, updates);
                    }
                }
                return Err(StoreError::Refused(message));
            },
        }
        let statements = match event_statements(calendar_id, events) {
            Ok(statements) => statements,
            Err(message) => return Err(StoreError::Refused(message)),
        };
        proof {
            assert forall|held: tables::Tables| #[trigger]
                tables::finds(held, calendar_id@, found_row, found_rows) implies tables::keeps(
                tables::run_all(held, statement_views(statements@)),
                tables::with_events(before, updates),
            ) && tables::last_events_are_valid(before, updates) by {
                let after = tables::run_all(held, statement_views(statements@));
                let new = tables::with_events(before, updates);
                tables::loaded_calendars_are_shown(
                    held,
                    calendar_id@,
                    found_row,
                    found_rows,
                    before,
                );
                tables::merged_calendars_are_valid_with_valid_events(before, updates);
                tables::writing_events_shows_the_merged_calendar(held, before, updates);
                tables::shown_calendars_are_kept(after, new);
            }
        }
        Ok(AcceptedEvents { statements, count: events.len() })
    }

    /// What records an import.
    pub fn record_import(
        &self,
        calendar_id: &str,
        source_url: Option<&str>,
        raw_text: &str,
        extracted_json: &str,
    ) -> (res: Statement)
        ensures
            res@ == StatementView::RecordImport(
                calendar_id@,
                match source_url {
                    Some(source_url) => Some(source_url@),
                    None => None,
                },
                raw_text@,
                extracted_json@,
            ),
    {
        Statement::RecordImport(
            calendar_id.to_string(),
            match source_url {
                Some(source_url) => Some(source_url.to_string()),
                None => None,
            },
            raw_text.to_string(),
            extracted_json.to_string(),
        )
    }

    /// What marks an import as applied.
    pub fn mark_import_applied(&self, import_id: i64) -> (res: Statement)
        ensures
            res@ == StatementView::MarkImportApplied(import_id as int),
    {
        Statement::MarkImportApplied(import_id)
    }

    /// What is written to a directory to export the store's calendars, and what is generated
    /// afterwards: the renderings of that directory's JSON files.
    ///
    /// The last clause speaks of a directory that then holds the exports of the calendars and no
    /// other JSON file: the rendering of each calendar is generated, once, in the ascending order
    /// of the names of the JSON files.
    pub fn export_json_and_generate(
        &self,
        data_dir: &std::path::PathBuf,
        output_dir: &std::path::PathBuf,
        calendars: &Vec<Exportable>,
    ) -> (res: Export)
        ensures
            generate::output_views(res.files@) == generate::exports(
                generate::exportable_views(calendars@),
            ),
            res.options.input_dir == *data_dir,
            res.options.output_dir == *output_dir,
            ({
                let exported = generate::exported_calendars(
                    generate::exportable_views(calendars@),
                );
                generate::distinct_calendars(exported) && generate::valid_calendars(exported)
                    ==> forall|found: Seq<generate::InputView>| #[trigger]
                    generate::are_exports(found, exported) ==> generate::generates_each(
                        found,
                        exported,
                    )
            }),
    {
        proof {
            let exported = generate::exported_calendars(generate::exportable_views(calendars@));
            assert forall|found: Seq<generate::InputView>|
                generate::distinct_calendars(exported) && generate::valid_calendars(exported)
                    && #[trigger] generate::are_exports(
                    found,
                    exported,
                ) implies generate::generates_each(found, exported) by {
                generate::exported_calendars_are_generated(exported, found);
            }
        }
        Export {
            files: generate::exported_files(calendars),
            options: GenerationOptions {
                input_dir: data_dir.clone(),
                output_dir: output_dir.clone(),
            },
        }
    }
}

/// A parameter holds an optional text: the text, or nothing where there is none.
pub open spec fn holds_text(param: SqlValue, text: Option<String>) -> bool {
    match text {
        Some(text) => param matches SqlValue::Text(value) && value@ == text@,
        None => param is Null,
    }
}

/// The parameters that a statement hands to the database when it writes an event hold the event's
/// calendar and every column of its row.
pub proof fn params_hold_every_column(
    calendar_id: String,
    row: EventRow,
    statement: &Statement,
    res: Vec<SqlValue>,
)
    requires
        *statement == Statement::UpsertEvent(calendar_id, row),
        call_ensures(Statement::params, (statement,), res),
    ensures
        res@.len() == 13,
        res@[0] matches SqlValue::Text(value) && value@ == calendar_id@,
        res@[1] matches SqlValue::Text(value) && value@ == row.id@,
        res@[2] matches SqlValue::Text(value) && value@ == row.title@,
        res@[3] matches SqlValue::Text(value) && value@ == row.start@,
        res@[4] matches SqlValue::Text(value) && value@ == row.end@,
        res@[5] matches SqlValue::Integer(value) && value == row.all_day,
        holds_text(res@[6], row.description),
        holds_text(res@[7], row.location),
        holds_text(res@[8], row.url),
        holds_text(res@[9], row.source_name),
        holds_text(res@[10], row.source_url),
        holds_text(res@[11], row.status),
        holds_text(res@[12], row.alarm_minutes_json),
{
    event_parameters_are_the_columns(calendar_id@, row@);
    let params = param_views(res@);
    assert(params.len() == res@.len());
    assert(forall|i: int| 0 <= i < res@.len() ==> #[trigger] params[i] == res@[i]@);
    assert(params[0] == res@[0]@ && params[1] == res@[1]@ && params[2] == res@[2]@);
    assert(params[3] == res@[3]@ && params[4] == res@[4]@ && params[5] == res@[5]@);
    assert(params[6] == res@[6]@ && params[7] == res@[7]@ && params[8] == res@[8]@);
    assert(params[9] == res@[9]@ && params[10] == res@[10]@ && params[11] == res@[11]@);
    assert(params[12] == res@[12]@);
}

} // verus!
