//! Calendars, their events and their sources.

use vstd::prelude::*;

use crate::text::same_text;

verus! {

/// An exam calendar with its events.
#[derive(Debug)]
pub struct CalendarFile {
    pub id: String,
    pub title: String,
    pub year: i32,
    pub region: String,
    pub exam_type: String,
    pub timezone: String,
    pub updated_at: Option<String>,
    pub source: Option<Source>,
    pub default_alarm_minutes: Vec<i64>,
    pub events: Vec<Event>,
}

/// Where a calendar or an event was taken from.
#[derive(Debug)]
pub struct Source {
    pub name: String,
    pub url: String,
}

/// An event of a calendar.
///
/// The end is exclusive. An all-day event gives dates, a timed one gives dates and times in the
/// calendar's time zone.
#[derive(Debug)]
pub struct Event {
    pub id: String,
    pub title: String,
    pub start: String,
    pub end: String,
    pub all_day: bool,
    pub description: Option<String>,
    pub location: Option<String>,
    pub url: Option<String>,
    pub source: Option<Source>,
    pub status: Option<EventStatus>,
    pub alarm_minutes: Option<Vec<i64>>,
}

/// How certain an event is.
#[derive(Debug, Clone, Copy, PartialEq, Eq, Structural)]
pub enum EventStatus {
    Confirmed,
    Tentative,
    Cancelled,
}

/// Where calendars are read from and where their renderings are written to.
#[derive(Debug)]
pub struct GenerationOptions {
    pub input_dir: std::path::PathBuf,
    pub output_dir: std::path::PathBuf,
}

/// The type `std::path::PathBuf`, of which nothing but its identity is known.
#[verifier::external_type_specification]
#[verifier::external_body]
pub struct ExPathBuf(std::path::PathBuf);

/// `PathBuf::clone` gives the same path.
pub assume_specification[ <std::path::PathBuf as Clone>::clone ](path: &std::path::PathBuf) -> (res:
    std::path::PathBuf)
    ensures
        res == *path,
;

// ---------------------------------------------------------------------------
// Mathematical models
// ---------------------------------------------------------------------------

/// The model of a [`Source`].
#[verifier::ext_equal]
pub struct SourceView {
    pub name: Seq<char>,
    pub url: Seq<char>,
}

/// The model of an [`Event`].
#[verifier::ext_equal]
pub struct EventView {
    pub id: Seq<char>,
    pub title: Seq<char>,
    pub start: Seq<char>,
    pub end: Seq<char>,
    pub all_day: bool,
    pub description: Option<Seq<char>>,
    pub location: Option<Seq<char>>,
    pub url: Option<Seq<char>>,
    pub source: Option<SourceView>,
    pub status: Option<EventStatus>,
    pub alarm_minutes: Option<Seq<i64>>,
}

/// The model of a [`CalendarFile`].
#[verifier::ext_equal]
pub struct CalendarView {
    pub id: Seq<char>,
    pub title: Seq<char>,
    pub year: int,
    pub region: Seq<char>,
    pub exam_type: Seq<char>,
    pub timezone: Seq<char>,
    pub updated_at: Option<Seq<char>>,
    pub source: Option<SourceView>,
    pub default_alarm_minutes: Seq<i64>,
    pub events: Seq<EventView>,
}

/// The characters of an optional text.
pub open spec fn optional_text(text: Option<String>) -> Option<Seq<char>> {
    match text {
        Some(text) => Some(text@),
        None => None,
    }
}

/// The model of an optional source.
pub open spec fn optional_source(source: Option<Source>) -> Option<SourceView> {
    match source {
        Some(source) => Some(source@),
        None => None,
    }
}

/// The elements of an optional list of minutes.
pub open spec fn optional_minutes(minutes: Option<Vec<i64>>) -> Option<Seq<i64>> {
    match minutes {
        Some(minutes) => Some(minutes@),
        None => None,
    }
}

/// The models of the events in a list.
pub open spec fn event_views(events: Seq<Event>) -> Seq<EventView> {
    events.map_values(|event: Event| event@)
}

impl View for Source {
    type V = SourceView;

    open spec fn view(&self) -> SourceView {
        SourceView { name: self.name@, url: self.url@ }
    }
}

impl View for Event {
    type V = EventView;

    open spec fn view(&self) -> EventView {
        EventView {
            id: self.id@,
            title: self.title@,
            start: self.start@,
            end: self.end@,
            all_day: self.all_day,
            description: optional_text(self.description),
            location: optional_text(self.location),
            url: optional_text(self.url),
            source: optional_source(self.source),
            status: self.status,
            alarm_minutes: optional_minutes(self.alarm_minutes),
        }
    }
}

impl View for CalendarFile {
    type V = CalendarView;

    open spec fn view(&self) -> CalendarView {
        CalendarView {
            id: self.id@,
            title: self.title@,
            year: self.year as int,
            region: self.region@,
            exam_type: self.exam_type@,
            timezone: self.timezone@,
            updated_at: optional_text(self.updated_at),
            source: optional_source(self.source),
            default_alarm_minutes: self.default_alarm_minutes@,
            events: event_views(self.events@),
        }
    }
}

/// An optional text is modelled by its characters, an optional source by its model, an optional
/// list of minutes by its elements.
pub proof fn options_are_modelled_by_what_they_hold(
    text: Option<String>,
    source: Option<Source>,
    minutes: Option<Vec<i64>>,
)
    ensures
        text is None <==> optional_text(text) is None,
        text matches Some(text) ==> optional_text(Some(text)) == Some(text@),
        source is None <==> optional_source(source) is None,
        source matches Some(source) ==> optional_source(Some(source)) == Some(
            SourceView { name: source.name@, url: source.url@ },
        ),
        minutes is None <==> optional_minutes(minutes) is None,
        minutes matches Some(minutes) ==> optional_minutes(Some(minutes)) == Some(minutes@),
{
}

/// The model of a calendar shows all its fields, and that of each of its events all of the
/// event's.
pub proof fn models_show_every_field(calendar: CalendarFile, i: int)
    requires
        0 <= i < calendar.events@.len(),
    ensures
        calendar@.id == calendar.id@ && calendar@.title == calendar.title@,
        calendar@.year == calendar.year && calendar@.region == calendar.region@,
        calendar@.exam_type == calendar.exam_type@ && calendar@.timezone == calendar.timezone@,
        calendar@.updated_at == optional_text(calendar.updated_at),
        calendar@.source == optional_source(calendar.source),
        calendar@.default_alarm_minutes == calendar.default_alarm_minutes@,
        calendar@.events.len() == calendar.events@.len(),
        ({
            let event = calendar.events@[i];
            let shown = calendar@.events[i];
            &&& shown.id == event.id@ && shown.title == event.title@
            &&& shown.start == event.start@ && shown.end == event.end@
            &&& shown.all_day == event.all_day
            &&& shown.description == optional_text(event.description)
            &&& shown.location == optional_text(event.location)
            &&& shown.url == optional_text(event.url)
            &&& shown.source == optional_source(event.source)
            &&& shown.status == event.status
            &&& shown.alarm_minutes == optional_minutes(event.alarm_minutes)
        }),
{
}

/// The alarms of an event are its own, also where these are none, and else the calendar's.
pub proof fn own_alarms_come_first(event: EventView, defaults: Seq<i64>, own: Seq<i64>)
    ensures
        (EventView { alarm_minutes: Some(own), ..event }).alarms(defaults) == own,
        (EventView { alarm_minutes: None, ..event }).alarms(defaults) == defaults,
{
}

impl EventView {
    /// The alarms of the event in a calendar: its own, or the calendar's where it has none.
    pub open spec fn alarms(self, default_alarm_minutes: Seq<i64>) -> Seq<i64> {
        match self.alarm_minutes {
            Some(minutes) => minutes,
            None => default_alarm_minutes,
        }
    }
}

// ---------------------------------------------------------------------------
// Copies
// ---------------------------------------------------------------------------

/// Copies an optional text.
pub fn copy_text(text: &Option<String>) -> (res: Option<String>)
    ensures
        optional_text(res) == optional_text(*text),
{
    match text {
        Some(text) => Some(text.clone()),
        None => None,
    }
}

/// Copies a list of minutes.
pub fn copy_minutes(minutes: &Vec<i64>) -> (res: Vec<i64>)
    ensures
        res@ == minutes@,
{
    let mut res: Vec<i64> = Vec::new();
    for i in 0..minutes.len()
        invariant
            res@ == minutes@.take(i as int),
    {
        res.push(minutes[i]);
    }
    res
}

/// Copies an optional source.
pub fn copy_source(source: &Option<Source>) -> (res: Option<Source>)
    ensures
        optional_source(res) == optional_source(*source),
{
    match source {
        Some(source) => Some(source.clone()),
        None => None,
    }
}

impl Clone for Source {
    fn clone(&self) -> (res: Self)
        ensures
            res@ == self@,
    {
        Source { name: self.name.clone(), url: self.url.clone() }
    }
}

impl Clone for Event {
    fn clone(&self) -> (res: Self)
        ensures
            res@ == self@,
    {
        Event {
            id: self.id.clone(),
            title: self.title.clone(),
            start: self.start.clone(),
            end: self.end.clone(),
            all_day: self.all_day,
            description: copy_text(&self.description),
            location: copy_text(&self.location),
            url: copy_text(&self.url),
            source: copy_source(&self.source),
            status: self.status,
            alarm_minutes: match &self.alarm_minutes {
                Some(minutes) => Some(copy_minutes(minutes)),
                None => None,
            },
        }
    }
}

/// Copies a list of events.
pub fn copy_events(events: &Vec<Event>) -> (res: Vec<Event>)
    ensures
        event_views(res@) == event_views(events@),
{
    let mut res: Vec<Event> = Vec::new();
    for i in 0..events.len()
        invariant
            event_views(res@) == event_views(events@).take(i as int),
    {
        res.push(events[i].clone());
        proof {
            assert(event_views(res@) =~= event_views(events@).take(i as int).push(
                events@[i as int]@,
            ));
        }
    }
    res
}

impl Clone for CalendarFile {
    fn clone(&self) -> (res: Self)
        ensures
            res@ == self@,
    {
        CalendarFile {
            id: self.id.clone(),
            title: self.title.clone(),
            year: self.year,
            region: self.region.clone(),
            exam_type: self.exam_type.clone(),
            timezone: self.timezone.clone(),
            updated_at: copy_text(&self.updated_at),
            source: copy_source(&self.source),
            default_alarm_minutes: copy_minutes(&self.default_alarm_minutes),
            events: copy_events(&self.events),
        }
    }
}

// ---------------------------------------------------------------------------
// Event status
// ---------------------------------------------------------------------------

impl EventStatus {
    /// The status in iCalendar notation.
    pub open spec fn ics_text(self) -> Seq<char> {
        match self {
            EventStatus::Confirmed => "CONFIRMED"@,
            EventStatus::Tentative => "TENTATIVE"@,
            EventStatus::Cancelled => "CANCELLED"@,
        }
    }

    /// The status as calendar files and the store write it.
    pub open spec fn json_text(self) -> Seq<char> {
        match self {
            EventStatus::Confirmed => "confirmed"@,
            EventStatus::Tentative => "tentative"@,
            EventStatus::Cancelled => "cancelled"@,
        }
    }

    /// The status in iCalendar notation.
    pub fn as_ics(&self) -> (res: &'static str)
        ensures
            res@ == self.ics_text(),
    {
        match self {
            EventStatus::Confirmed => "CONFIRMED",
            EventStatus::Tentative => "TENTATIVE",
            EventStatus::Cancelled => "CANCELLED",
        }
    }

    /// The status as calendar files and the store write it.
    pub fn as_json_value(&self) -> (res: &'static str)
        ensures
            res@ == self.json_text(),
    {
        match self {
            EventStatus::Confirmed => "confirmed",
            EventStatus::Tentative => "tentative",
            EventStatus::Cancelled => "cancelled",
        }
    }

    /// The status that a text names, if it names one.
    pub open spec fn named(value: Seq<char>) -> Option<EventStatus> {
        if value == "confirmed"@ {
            Some(EventStatus::Confirmed)
        } else if value == "tentative"@ {
            Some(EventStatus::Tentative)
        } else if value == "cancelled"@ {
            Some(EventStatus::Cancelled)
        } else {
            None
        }
    }

    /// The texts of the three statuses; no other text names one.
    pub proof fn statuses_have_their_texts(value: Seq<char>)
        ensures
            EventStatus::Confirmed.ics_text() == "CONFIRMED"@,
            EventStatus::Tentative.ics_text() == "TENTATIVE"@,
            EventStatus::Cancelled.ics_text() == "CANCELLED"@,
            EventStatus::Confirmed.json_text() == "confirmed"@,
            EventStatus::Tentative.json_text() == "tentative"@,
            EventStatus::Cancelled.json_text() == "cancelled"@,
            EventStatus::named(value) matches Some(status) ==> value == status.json_text(),
            EventStatus::named(value) is None <==> value != "confirmed"@ && value
                != "tentative"@ && value != "cancelled"@,
    {
    }

    /// A status that is written is read back.
    pub proof fn written_status_is_read_back(status: EventStatus)
        ensures
            EventStatus::named(status.json_text()) == Some(status),
    {
        reveal_strlit("confirmed");
        reveal_strlit("tentative");
        reveal_strlit("cancelled");
        assert("confirmed"@[1] == 'o');
        assert("tentative"@[1] == 'e');
        assert("cancelled"@[1] == 'a');
    }
}

impl TryFrom<&str> for EventStatus {
    type Error = String;

    /// Reads a status as calendar files and the store write it.
    fn try_from(value: &str) -> (res: Result<EventStatus, String>)
        ensures
            match EventStatus::named(value@) {
                Some(status) => res == Ok::<EventStatus, String>(status),
                None => res matches Err(message) && message@ == "invalid event status '"@ + value@
                    + "'"@,
            },
    {
        if same_text(value, "confirmed") {
            Ok(EventStatus::Confirmed)
        } else if same_text(value, "tentative") {
            Ok(EventStatus::Tentative)
        } else if same_text(value, "cancelled") {
            Ok(EventStatus::Cancelled)
        } else {
            Err("invalid event status '".to_string().concat(value).concat("'"))
        }
    }
}

/// The result of reading a status is given by the contract of `try_from` itself: its error is
/// known by its characters only.
impl vstd::std_specs::convert::TryFromSpecImpl<&str> for EventStatus {
    open spec fn obeys_try_from_spec() -> bool {
        false
    }

    open spec fn try_from_spec(value: &str) -> Result<EventStatus, String> {
        arbitrary()
    }
}

/// Whether a flag is not set.
pub fn is_false(value: &bool) -> (res: bool)
    ensures
        res == !*value,
{
    !*value
}

} // verus!
