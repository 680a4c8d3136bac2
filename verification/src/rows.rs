//! The rows in which the store keeps calendars and events.

use vstd::prelude::*;

use crate::json;
use crate::model;
use crate::model::{
    CalendarFile, CalendarView, Event, EventStatus, EventView, Source, SourceView,
};

verus! {

/// A row of the table of calendars.
#[derive(Debug)]
pub struct CalendarRow {
    pub id: String,
    pub title: String,
    pub year: i32,
    pub region: String,
    pub exam_type: String,
    pub timezone: String,
    pub updated_at: Option<String>,
    pub source_name: Option<String>,
    pub source_url: Option<String>,
    pub default_alarm_minutes_json: String,
}

/// A row of the table of events, without the calendar that it belongs to.
#[derive(Debug)]
pub struct EventRow {
    pub id: String,
    pub title: String,
    pub start: String,
    pub end: String,
    pub all_day: i64,
    pub description: Option<String>,
    pub location: Option<String>,
    pub url: Option<String>,
    pub source_name: Option<String>,
    pub source_url: Option<String>,
    pub status: Option<String>,
    pub alarm_minutes_json: Option<String>,
}

/// A row of the list of calendars.
#[derive(Debug)]
pub struct SummaryRow {
    pub id: String,
    pub title: String,
    pub year: i32,
    pub region: String,
    pub exam_type: String,
}

/// A column, by its position in the query, whose text could not be read.
#[derive(Debug)]
pub struct ColumnError {
    pub column: usize,
    pub message: String,
}

/// The position of the default alarms in the query for a calendar.
pub const CALENDAR_ALARMS_COLUMN: usize = 9;

/// The position of the status in the query for events.
pub const EVENT_STATUS_COLUMN: usize = 10;

/// The position of the alarms in the query for events.
pub const EVENT_ALARMS_COLUMN: usize = 11;

/// The model of a [`CalendarRow`].
#[verifier::ext_equal]
pub struct CalendarRowView {
    pub id: Seq<char>,
    pub title: Seq<char>,
    pub year: int,
    pub region: Seq<char>,
    pub exam_type: Seq<char>,
    pub timezone: Seq<char>,
    pub updated_at: Option<Seq<char>>,
    pub source_name: Option<Seq<char>>,
    pub source_url: Option<Seq<char>>,
    pub default_alarm_minutes_json: Seq<char>,
}

/// The model of an [`EventRow`].
#[verifier::ext_equal]
pub struct EventRowView {
    pub id: Seq<char>,
    pub title: Seq<char>,
    pub start: Seq<char>,
    pub end: Seq<char>,
    pub all_day: int,
    pub description: Option<Seq<char>>,
    pub location: Option<Seq<char>>,
    pub url: Option<Seq<char>>,
    pub source_name: Option<Seq<char>>,
    pub source_url: Option<Seq<char>>,
    pub status: Option<Seq<char>>,
    pub alarm_minutes_json: Option<Seq<char>>,
}

/// The model of a [`SummaryRow`] and of the line that is made of it.
#[verifier::ext_equal]
pub struct SummaryView {
    pub id: Seq<char>,
    pub title: Seq<char>,
    pub year: int,
    pub region: Seq<char>,
    pub exam_type: Seq<char>,
}

/// The model of a [`ColumnError`].
#[verifier::ext_equal]
pub struct ColumnErrorView {
    pub column: int,
    pub message: Seq<char>,
}

impl View for CalendarRow {
    type V = CalendarRowView;

    open spec fn view(&self) -> CalendarRowView {
        CalendarRowView {
            id: self.id@,
            title: self.title@,
            year: self.year as int,
            region: self.region@,
            exam_type: self.exam_type@,
            timezone: self.timezone@,
            updated_at: model::optional_text(self.updated_at),
            source_name: model::optional_text(self.source_name),
            source_url: model::optional_text(self.source_url),
            default_alarm_minutes_json: self.default_alarm_minutes_json@,
        }
    }
}

impl View for EventRow {
    type V = EventRowView;

    open spec fn view(&self) -> EventRowView {
        EventRowView {
            id: self.id@,
            title: self.title@,
            start: self.start@,
            end: self.end@,
            all_day: self.all_day as int,
            description: model::optional_text(self.description),
            location: model::optional_text(self.location),
            url: model::optional_text(self.url),
            source_name: model::optional_text(self.source_name),
            source_url: model::optional_text(self.source_url),
            status: model::optional_text(self.status),
            alarm_minutes_json: model::optional_text(self.alarm_minutes_json),
        }
    }
}

impl View for SummaryRow {
    type V = SummaryView;

    open spec fn view(&self) -> SummaryView {
        SummaryView {
            id: self.id@,
            title: self.title@,
            year: self.year as int,
            region: self.region@,
            exam_type: self.exam_type@,
        }
    }
}

impl View for ColumnError {
    type V = ColumnErrorView;

    open spec fn view(&self) -> ColumnErrorView {
        ColumnErrorView { column: self.column as int, message: self.message@ }
    }
}

/// The models of rows show every column.
pub proof fn row_models_show_every_column(row: EventRow, calendar: CalendarRow, line: SummaryRow)
    ensures
        row@.id == row.id@ && row@.title == row.title@ && row@.start == row.start@,
        row@.end == row.end@ && row@.all_day == row.all_day,
        row@.description == model::optional_text(row.description),
        row@.location == model::optional_text(row.location),
        row@.url == model::optional_text(row.url),
        row@.source_name == model::optional_text(row.source_name),
        row@.source_url == model::optional_text(row.source_url),
        row@.status == model::optional_text(row.status),
        row@.alarm_minutes_json == model::optional_text(row.alarm_minutes_json),
        calendar@.id == calendar.id@ && calendar@.title == calendar.title@,
        calendar@.year == calendar.year && calendar@.region == calendar.region@,
        calendar@.exam_type == calendar.exam_type@ && calendar@.timezone == calendar.timezone@,
        calendar@.updated_at == model::optional_text(calendar.updated_at),
        calendar@.source_name == model::optional_text(calendar.source_name),
        calendar@.source_url == model::optional_text(calendar.source_url),
        calendar@.default_alarm_minutes_json == calendar.default_alarm_minutes_json@,
        line@.id == line.id@ && line@.title == line.title@ && line@.year == line.year,
        line@.region == line.region@ && line@.exam_type == line.exam_type@,
{
}

/// The models of the rows of the list of calendars.
pub open spec fn summary_row_views(rows: Seq<SummaryRow>) -> Seq<SummaryView> {
    rows.map_values(|row: SummaryRow| row@)
}

/// The models of the rows in a list.
pub open spec fn row_views(rows: Seq<EventRow>) -> Seq<EventRowView> {
    rows.map_values(|row: EventRow| row@)
}

// ---------------------------------------------------------------------------
// Sources
// ---------------------------------------------------------------------------

/// The two columns of a source: both empty where there is none.
pub open spec fn columns_of_source(source: Option<SourceView>) -> (
    Option<Seq<char>>,
    Option<Seq<char>>,
) {
    match source {
        Some(source) => (Some(source.name), Some(source.url)),
        None => (None, None),
    }
}

/// The source of two columns: none unless both are filled.
pub open spec fn source_of_columns(name: Option<Seq<char>>, url: Option<Seq<char>>) -> Option<
    SourceView,
> {
    match (name, url) {
        (Some(name), Some(url)) => Some(SourceView { name, url }),
        _ => None,
    }
}

/// A source that is put into columns is found there again.
pub proof fn source_is_read_back(source: Option<SourceView>)
    ensures
        source_of_columns(columns_of_source(source).0, columns_of_source(source).1) == source,
{
}

/// A source takes two columns; it is one only where both are filled.
pub proof fn sources_take_two_columns(name: Seq<char>, url: Seq<char>, other: Option<Seq<char>>)
    ensures
        columns_of_source(Some(SourceView { name, url })) == (Some(name), Some(url)),
        columns_of_source(None) == (None::<Seq<char>>, None::<Seq<char>>),
        source_of_columns(Some(name), Some(url)) == Some(SourceView { name, url }),
        source_of_columns(None, other) is None,
        source_of_columns(other, None) is None,
{
}

/// The columns of a source.
pub fn source_columns(source: Option<&Source>) -> (res: (Option<&str>, Option<&str>))
    ensures
        match source {
            Some(source) => {
                &&& res.0 matches Some(name) && name@ == source@.name
                &&& res.1 matches Some(url) && url@ == source@.url
            },
            None => res.0 is None && res.1 is None,
        },
{
    match source {
        Some(source) => (Some(source.name.as_str()), Some(source.url.as_str())),
        None => (None, None),
    }
}

/// The source of two columns.
pub fn source_from_columns(name: Option<String>, url: Option<String>) -> (res: Option<Source>)
    ensures
        model::optional_source(res) == source_of_columns(
            model::optional_text(name),
            model::optional_text(url),
        ),
{
    match (name, url) {
        (Some(name), Some(url)) => Some(Source { name, url }),
        _ => None,
    }
}

fn owned(text: Option<&str>) -> (res: Option<String>)
    ensures
        match text {
            Some(text) => res matches Some(copy) && copy@ == text@,
            None => res is None,
        },
{
    match text {
        Some(text) => Some(text.to_string()),
        None => None,
    }
}

// ---------------------------------------------------------------------------
// From values to rows
// ---------------------------------------------------------------------------

/// The row of a calendar.
pub open spec fn calendar_row_of(calendar: CalendarView) -> CalendarRowView {
    CalendarRowView {
        id: calendar.id,
        title: calendar.title,
        year: calendar.year,
        region: calendar.region,
        exam_type: calendar.exam_type,
        timezone: calendar.timezone,
        updated_at: calendar.updated_at,
        source_name: columns_of_source(calendar.source).0,
        source_url: columns_of_source(calendar.source).1,
        default_alarm_minutes_json: json::i64_list_json(calendar.default_alarm_minutes),
    }
}

/// The row of an event.
pub open spec fn event_row_of(event: EventView) -> EventRowView {
    EventRowView {
        id: event.id,
        title: event.title,
        start: event.start,
        end: event.end,
        all_day: if event.all_day {
            1
        } else {
            0
        },
        description: event.description,
        location: event.location,
        url: event.url,
        source_name: columns_of_source(event.source).0,
        source_url: columns_of_source(event.source).1,
        status: match event.status {
            Some(status) => Some(status.json_text()),
            None => None,
        },
        alarm_minutes_json: match event.alarm_minutes {
            Some(minutes) => Some(json::i64_list_json(minutes)),
            None => None,
        },
    }
}

/// The row of a calendar. It is always made, and the calendar is read back from it.
pub fn calendar_row(calendar: &CalendarFile) -> (res: Result<CalendarRow, String>)
    ensures
        res matches Ok(row) && row@ == calendar_row_of(calendar@) && read_row(row@) == Ok::<
            _,
            ColumnErrorView,
        >(CalendarView { events: Seq::empty(), ..calendar@ }),
{
    let (source_name, source_url) = source_columns(calendar.source.as_ref());
    let alarms = match json::write_i64_vec(&calendar.default_alarm_minutes) {
        Ok(alarms) => alarms,
        Err(message) => return Err(message),
    };
    Ok(
        CalendarRow {
            id: calendar.id.clone(),
            title: calendar.title.clone(),
            year: calendar.year,
            region: calendar.region.clone(),
            exam_type: calendar.exam_type.clone(),
            timezone: calendar.timezone.clone(),
            updated_at: model::copy_text(&calendar.updated_at),
            source_name: owned(source_name),
            source_url: owned(source_url),
            default_alarm_minutes_json: alarms,
        },
    )
}

/// The row of an event. It is always made, and the event is read back from it.
pub fn event_row(event: &Event) -> (res: Result<EventRow, String>)
    ensures
        res matches Ok(row) && row@ == event_row_of(event@) && read_event_row(row@) == Ok::<
            _,
            ColumnErrorView,
        >(event@),
{
    proof {
        if let Some(status) = event@.status {
            EventStatus::written_status_is_read_back(status);
        }
        source_is_read_back(event@.source);
    }
    let (source_name, source_url) = source_columns(event.source.as_ref());
    let status = match &event.status {
        Some(status) => Some(status.as_json_value().to_string()),
        None => None,
    };
    let alarms = match &event.alarm_minutes {
        Some(minutes) => match json::write_i64_vec(minutes) {
            Ok(alarms) => Some(alarms),
            Err(message) => return Err(message),
        },
        None => None,
    };
    Ok(
        EventRow {
            id: event.id.clone(),
            title: event.title.clone(),
            start: event.start.clone(),
            end: event.end.clone(),
            all_day: if event.all_day {
                1
            } else {
                0
            },
            description: model::copy_text(&event.description),
            location: model::copy_text(&event.location),
            url: model::copy_text(&event.url),
            source_name: owned(source_name),
            source_url: owned(source_url),
            status,
            alarm_minutes_json: alarms,
        },
    )
}

// ---------------------------------------------------------------------------
// From rows to values
// ---------------------------------------------------------------------------

/// The calendar of a row of whose default alarms this was read, without its events.
pub open spec fn calendar_of_row(
    row: CalendarRowView,
    alarms: Result<Seq<i64>, Seq<char>>,
) -> Result<CalendarView, ColumnErrorView> {
    match alarms {
        Err(message) => Err(
            ColumnErrorView { column: CALENDAR_ALARMS_COLUMN as int, message },
        ),
        Ok(default_alarm_minutes) => Ok(
            CalendarView {
                id: row.id,
                title: row.title,
                year: row.year,
                region: row.region,
                exam_type: row.exam_type,
                timezone: row.timezone,
                updated_at: row.updated_at,
                source: source_of_columns(row.source_name, row.source_url),
                default_alarm_minutes,
                events: Seq::empty(),
            },
        ),
    }
}

/// The status of a column.
pub open spec fn status_of_column(status: Option<Seq<char>>) -> Result<
    Option<EventStatus>,
    Seq<char>,
> {
    match status {
        None => Ok(None),
        Some(text) => match EventStatus::named(text) {
            Some(status) => Ok(Some(status)),
            None => Err("invalid event status '"@ + text + "'"@),
        },
    }
}

/// The event of a row of whose alarms this was read.
pub open spec fn event_of_row(
    row: EventRowView,
    alarms: Result<Option<Seq<i64>>, Seq<char>>,
) -> Result<EventView, ColumnErrorView> {
    match status_of_column(row.status) {
        Err(message) => Err(ColumnErrorView { column: EVENT_STATUS_COLUMN as int, message }),
        Ok(status) => match alarms {
            Err(message) => Err(ColumnErrorView { column: EVENT_ALARMS_COLUMN as int, message }),
            Ok(alarm_minutes) => Ok(
                EventView {
                    id: row.id,
                    title: row.title,
                    start: row.start,
                    end: row.end,
                    all_day: row.all_day != 0,
                    description: row.description,
                    location: row.location,
                    url: row.url,
                    source: source_of_columns(row.source_name, row.source_url),
                    status,
                    alarm_minutes,
                },
            ),
        },
    }
}

/// What serde_json reads from an optional column of alarms.
pub open spec fn alarms_of_column(column: Option<Seq<char>>) -> Result<
    Option<Seq<i64>>,
    Seq<char>,
> {
    match column {
        None => Ok(None),
        Some(text) => match json::parsed_i64_list(text) {
            Ok(minutes) => Ok(Some(minutes)),
            Err(message) => Err(message),
        },
    }
}

/// The alarms of an event are what its column is read as: a list that is empty stays a list, an
/// empty column is none, and what is said of a column that holds no list is said of the event.
pub proof fn alarms_have_what_their_column_holds(
    column: Seq<char>,
    minutes: Seq<i64>,
    complaint: Seq<char>,
)
    ensures
        alarms_of_column(None) == Ok::<Option<Seq<i64>>, Seq<char>>(None),
        json::parsed_i64_list(column) == Ok::<_, Seq<char>>(minutes) ==> alarms_of_column(
            Some(column),
        ) == Ok::<_, Seq<char>>(Some(minutes)),
        json::parsed_i64_list(column) == Err::<Seq<i64>, _>(complaint) ==> alarms_of_column(
            Some(column),
        ) == Err::<Option<Seq<i64>>, _>(complaint),
        status_of_column(None) == Ok::<Option<EventStatus>, Seq<char>>(None),
{
}

/// What serde_json reads from a calendar's row.
pub open spec fn read_row(row: CalendarRowView) -> Result<CalendarView, ColumnErrorView> {
    calendar_of_row(row, json::parsed_i64_list(row.default_alarm_minutes_json))
}

/// What serde_json reads from an event's row.
pub open spec fn read_event_row(row: EventRowView) -> Result<EventView, ColumnErrorView> {
    event_of_row(row, alarms_of_column(row.alarm_minutes_json))
}

/// The outcome of reading a calendar's row.
pub open spec fn calendar_outcome(res: Result<CalendarFile, ColumnError>) -> Result<
    CalendarView,
    ColumnErrorView,
> {
    match res {
        Ok(calendar) => Ok(calendar@),
        Err(error) => Err(error@),
    }
}

/// The outcome of reading an event's row.
pub open spec fn event_outcome(res: Result<Event, ColumnError>) -> Result<
    EventView,
    ColumnErrorView,
> {
    match res {
        Ok(event) => Ok(event@),
        Err(error) => Err(error@),
    }
}

/// The outcome of reading an optional column of alarms.
pub open spec fn alarms_outcome(res: Result<Option<Vec<i64>>, String>) -> Result<
    Option<Seq<i64>>,
    Seq<char>,
> {
    match res {
        Ok(minutes) => Ok(model::optional_minutes(minutes)),
        Err(message) => Err(message@),
    }
}

/// Outcomes are told as they are.
pub proof fn outcomes_are_told_as_they_are(
    calendar: CalendarFile,
    event: Event,
    minutes: Option<Vec<i64>>,
    message: String,
    error: ColumnError,
)
    ensures
        calendar_outcome(Ok(calendar)) == Ok::<_, ColumnErrorView>(calendar@),
        calendar_outcome(Err(error)) == Err::<CalendarView, _>(error@),
        event_outcome(Ok(event)) == Ok::<_, ColumnErrorView>(event@),
        event_outcome(Err(error)) == Err::<EventView, _>(error@),
        alarms_outcome(Ok(minutes)) == Ok::<_, Seq<char>>(model::optional_minutes(minutes)),
        alarms_outcome(Err(message)) == Err::<Option<Seq<i64>>, _>(message@),
        error@.column == error.column && error@.message == error.message@,
{
}

/// A row of an event gives all that it holds: its texts as they are, an all-day event for every
/// number but zero, a source where both columns are filled.
pub proof fn events_have_what_their_rows_hold(row: EventRowView, alarms: Option<Seq<i64>>)
    requires
        row.status matches Some(status) ==> status == "confirmed"@ || status == "tentative"@
            || status == "cancelled"@,
    ensures
        event_of_row(row, Ok(alarms)) matches Ok(event) && {
            &&& event.id == row.id && event.title == row.title
            &&& event.start == row.start && event.end == row.end
            &&& event.all_day == (row.all_day != 0)
            &&& event.description == row.description && event.location == row.location
            &&& event.url == row.url && event.alarm_minutes == alarms
            &&& event.source is Some <==> row.source_name is Some && row.source_url is Some
            &&& event.source matches Some(source) ==> row.source_name == Some(source.name)
                && row.source_url == Some(source.url)
            &&& event.status is Some <==> row.status is Some
            &&& event.status matches Some(status) ==> row.status == Some(
                match status {
                    EventStatus::Confirmed => "confirmed"@,
                    EventStatus::Tentative => "tentative"@,
                    EventStatus::Cancelled => "cancelled"@,
                },
            )
        },
{
}

/// A row of an event is refused for its status first and then for its alarms, each with its
/// column.
pub proof fn refused_rows_name_their_column(
    row: EventRowView,
    calendar_row: CalendarRowView,
    status: Seq<char>,
    complaint: Seq<char>,
)
    requires
        status != "confirmed"@ && status != "tentative"@ && status != "cancelled"@,
    ensures
        event_of_row(EventRowView { status: Some(status), ..row }, Err(complaint)) == Err::<
            EventView,
            _,
        >(ColumnErrorView { column: 10, message: "invalid event status '"@ + status + "'"@ }),
        event_of_row(EventRowView { status: None, ..row }, Err(complaint)) == Err::<EventView, _>(
            ColumnErrorView { column: 11, message: complaint },
        ),
        calendar_of_row(calendar_row, Err(complaint)) == Err::<CalendarView, _>(
            ColumnErrorView { column: 9, message: complaint },
        ),
{
}

/// A row of a calendar gives all that it holds.
pub proof fn calendars_have_what_their_rows_hold(row: CalendarRowView, alarms: Seq<i64>)
    ensures
        calendar_of_row(row, Ok(alarms)) matches Ok(calendar) && {
            &&& calendar.id == row.id && calendar.title == row.title
            &&& calendar.year == row.year && calendar.region == row.region
            &&& calendar.exam_type == row.exam_type && calendar.timezone == row.timezone
            &&& calendar.updated_at == row.updated_at
            &&& calendar.source is Some <==> row.source_name is Some && row.source_url is Some
            &&& calendar.source matches Some(source) ==> row.source_name == Some(source.name)
                && row.source_url == Some(source.url)
            &&& calendar.default_alarm_minutes == alarms
            &&& calendar.events.len() == 0
        },
{
}

/// The row of an event holds all that the event gives.
pub proof fn rows_hold_what_their_events_have(event: EventView)
    ensures
        ({
            let row = event_row_of(event);
            &&& row.id == event.id && row.title == event.title
            &&& row.start == event.start && row.end == event.end
            &&& row.all_day == (if event.all_day {
                1int
            } else {
                0int
            })
            &&& row.description == event.description && row.location == event.location
            &&& row.url == event.url
            &&& event.source matches Some(source) ==> row.source_name == Some(source.name)
                && row.source_url == Some(source.url)
            &&& event.source is None ==> row.source_name is None && row.source_url is None
            &&& event.status is None ==> row.status is None
            &&& event.status matches Some(status) ==> row.status == Some(
                match status {
                    EventStatus::Confirmed => "confirmed"@,
                    EventStatus::Tentative => "tentative"@,
                    EventStatus::Cancelled => "cancelled"@,
                },
            )
            &&& event.alarm_minutes is None ==> row.alarm_minutes_json is None
            &&& event.alarm_minutes matches Some(minutes) ==> row.alarm_minutes_json == Some(
                json::i64_list_json(minutes),
            )
        }),
{
}

/// The row of a calendar holds all that the calendar gives but its events.
pub proof fn rows_hold_what_their_calendars_have(calendar: CalendarView)
    ensures
        ({
            let row = calendar_row_of(calendar);
            &&& row.id == calendar.id && row.title == calendar.title
            &&& row.year == calendar.year && row.region == calendar.region
            &&& row.exam_type == calendar.exam_type && row.timezone == calendar.timezone
            &&& row.updated_at == calendar.updated_at
            &&& calendar.source matches Some(source) ==> row.source_name == Some(source.name)
                && row.source_url == Some(source.url)
            &&& calendar.source is None ==> row.source_name is None && row.source_url is None
            &&& row.default_alarm_minutes_json == json::i64_list_json(
                calendar.default_alarm_minutes,
            )
        }),
{
}

/// The calendar of a row of whose default alarms this was read, without its events.
pub fn calendar_from_row_read(row: CalendarRow, alarms: Result<Vec<i64>, String>) -> (res: Result<
    CalendarFile,
    ColumnError,
>)
    ensures
        calendar_outcome(res) == calendar_of_row(row@, json::list_outcome(alarms)),
{
    match alarms {
        Err(message) => Err(ColumnError { column: CALENDAR_ALARMS_COLUMN, message }),
        Ok(default_alarm_minutes) => {
            let events: Vec<Event> = Vec::new();
            proof {
                assert(model::event_views(events@) =~= Seq::<EventView>::empty());
            }
            Ok(
                CalendarFile {
                    id: row.id,
                    title: row.title,
                    year: row.year,
                    region: row.region,
                    exam_type: row.exam_type,
                    timezone: row.timezone,
                    updated_at: row.updated_at,
                    source: source_from_columns(row.source_name, row.source_url),
                    default_alarm_minutes,
                    events,
                },
            )
        },
    }
}

/// The calendar of a row, without its events. The row of a calendar gives that calendar back.
pub fn calendar_from_row(row: CalendarRow) -> (res: Result<CalendarFile, ColumnError>)
    ensures
        calendar_outcome(res) == calendar_of_row(
            row@,
            json::parsed_i64_list(row@.default_alarm_minutes_json),
        ),
        forall|calendar: CalendarView| #[trigger]
            calendar_row_of(calendar) == row@ ==> calendar_outcome(res) == Ok::<
                _,
                ColumnErrorView,
            >(CalendarView { events: Seq::empty(), ..calendar }),
{
    let alarms = json::parse_i64_vec(&row.default_alarm_minutes_json);
    calendar_from_row_read(row, alarms)
}

/// The event of a row of whose alarms this was read.
pub fn event_from_row_read(row: EventRow, alarms: Result<Option<Vec<i64>>, String>) -> (res: Result<
    Event,
    ColumnError,
>)
    ensures
        event_outcome(res) == event_of_row(row@, alarms_outcome(alarms)),
{
    let status = match &row.status {
        None => None,
        Some(text) => match EventStatus::try_from(text.as_str()) {
            Ok(status) => Some(status),
            Err(message) => return Err(ColumnError { column: EVENT_STATUS_COLUMN, message }),
        },
    };
    let alarm_minutes = match alarms {
        Ok(alarm_minutes) => alarm_minutes,
        Err(message) => return Err(ColumnError { column: EVENT_ALARMS_COLUMN, message }),
    };
    Ok(
        Event {
            id: row.id,
            title: row.title,
            start: row.start,
            end: row.end,
            all_day: row.all_day != 0,
            description: row.description,
            location: row.location,
            url: row.url,
            source: source_from_columns(row.source_name, row.source_url),
            status,
            alarm_minutes,
        },
    )
}

/// The event of a row. The row of an event gives that event back.
pub fn event_from_row(row: EventRow) -> (res: Result<Event, ColumnError>)
    ensures
        event_outcome(res) == event_of_row(row@, alarms_of_column(row@.alarm_minutes_json)),
        forall|event: EventView| #[trigger]
            event_row_of(event) == row@ ==> event_outcome(res) == Ok::<_, ColumnErrorView>(event),
{
    let alarms = match &row.alarm_minutes_json {
        None => Ok(None),
        Some(text) => match json::parse_i64_vec(text) {
            Ok(minutes) => Ok(Some(minutes)),
            Err(message) => Err(message),
        },
    };
    let res = event_from_row_read(row, alarms);
    proof {
        assert forall|event: EventView| #[trigger] event_row_of(event) == row@ implies event_outcome(
            res,
        ) == Ok::<_, ColumnErrorView>(event) by {
            if let Some(status) = event.status {
                EventStatus::written_status_is_read_back(status);
            }
            source_is_read_back(event.source);
        }
    }
    res
}

} // verus!
