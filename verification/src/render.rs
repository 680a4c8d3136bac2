//! Rendering of a calendar in iCalendar (RFC 5545) format.

use vstd::prelude::*;

use crate::dates;
use crate::dates::Moment;
use crate::fold;
use crate::model::{CalendarFile, CalendarView, Event, EventStatus, EventView, SourceView};
use crate::text;
use crate::validate;
use crate::validate::{EventReading, Readings, ReadingsView};

verus! {

// ---------------------------------------------------------------------------
// Content lines
// ---------------------------------------------------------------------------

/// A property whose value is taken as it is.
pub open spec fn raw_line(name: Seq<char>, value: Seq<char>) -> Seq<char> {
    name + ":"@ + value
}

/// A property whose value is a text.
pub open spec fn text_line(name: Seq<char>, value: Seq<char>) -> Seq<char> {
    raw_line(name, fold::escaped(value))
}

/// The line of an optional property whose value is taken as it is.
pub open spec fn optional_raw_line(name: Seq<char>, value: Option<Seq<char>>) -> Seq<Seq<char>> {
    match value {
        Some(value) => seq![raw_line(name, value)],
        None => Seq::empty(),
    }
}

/// The line of an optional property whose value is a text.
pub open spec fn optional_text_line(name: Seq<char>, value: Option<Seq<char>>) -> Seq<Seq<char>> {
    match value {
        Some(value) => seq![text_line(name, value)],
        None => Seq::empty(),
    }
}

/// The lines of a calendar before its events.
pub open spec fn calendar_head(calendar: CalendarView) -> Seq<Seq<char>> {
    seq![
        "BEGIN:VCALENDAR"@,
        "VERSION:2.0"@,
        "PRODID:-//exam-calendar//exam-calendar 0.1//EN"@,
        "CALSCALE:GREGORIAN"@,
        "METHOD:PUBLISH"@,
        text_line("X-WR-CALNAME"@, calendar.title),
        text_line("X-WR-TIMEZONE"@, calendar.timezone),
        text_line("X-EXAM-REGION"@, calendar.region),
        text_line("X-EXAM-TYPE"@, calendar.exam_type),
    ] + calendar_source(calendar.source)
}

/// The lines of a calendar's source.
pub open spec fn calendar_source(source: Option<SourceView>) -> Seq<Seq<char>> {
    match source {
        Some(source) => seq![
            text_line("X-EXAM-SOURCE"@, source.name),
            text_line("X-EXAM-SOURCE-URL"@, source.url),
        ],
        None => Seq::empty(),
    }
}

/// The lines of an event's source.
pub open spec fn event_source(source: Option<SourceView>) -> Seq<Seq<char>> {
    match source {
        Some(source) => seq![
            text_line("X-EXAM-SOURCE"@, source.name),
            raw_line("X-EXAM-SOURCE-URL"@, source.url),
        ],
        None => Seq::empty(),
    }
}

/// The identifier of an event among all events of all calendars.
pub open spec fn uid(calendar: CalendarView, event: EventView) -> Seq<char> {
    calendar.id + "."@ + text::decimal(calendar.year) + "."@ + event.id + "@exam-calendar"@
}

/// The first lines of an event.
pub open spec fn event_head(calendar: CalendarView, event: EventView, dtstamp: Seq<char>) -> Seq<
    Seq<char>,
> {
    seq![
        "BEGIN:VEVENT"@,
        raw_line("UID"@, uid(calendar, event)),
        raw_line("DTSTAMP"@, dtstamp),
        text_line("SUMMARY"@, event.title),
    ]
}

/// The lines that give the start and the end of an event.
pub open spec fn span_lines(timezone: Seq<char>, reading: EventReading) -> Seq<Seq<char>> {
    match reading {
        EventReading::AllDay(Some(start), Some(end)) => seq![
            raw_line("DTSTART;VALUE=DATE"@, dates::ics_date(start)),
            raw_line("DTEND;VALUE=DATE"@, dates::ics_date(end)),
        ],
        EventReading::Timed(Some(start), Some(end)) => seq![
            raw_line("DTSTART;TZID="@ + timezone, dates::ics_datetime(start)),
            raw_line("DTEND;TZID="@ + timezone, dates::ics_datetime(end)),
        ],
        _ => Seq::empty(),
    }
}

/// The text of an optional status.
pub open spec fn status_text(event: EventView) -> Option<Seq<char>> {
    match event.status {
        Some(status) => Some(status.ics_text()),
        None => None,
    }
}

/// The lines of an event between its span and its alarms.
pub open spec fn event_details(event: EventView) -> Seq<Seq<char>> {
    optional_text_line("DESCRIPTION"@, event.description) + optional_text_line(
        "LOCATION"@,
        event.location,
    ) + optional_raw_line("URL"@, event.url) + event_source(event.source) + optional_raw_line(
        "STATUS"@,
        status_text(event),
    )
}

/// The lines of an alarm some minutes before an event.
pub open spec fn alarm_lines(title: Seq<char>, minutes: i64) -> Seq<Seq<char>> {
    seq![
        "BEGIN:VALARM"@,
        raw_line("ACTION"@, "DISPLAY"@),
        text_line("DESCRIPTION"@, title),
        raw_line("TRIGGER"@, "-PT"@ + text::decimal(minutes as int) + "M"@),
        "END:VALARM"@,
    ]
}

/// The lines of a list of alarms.
pub open spec fn alarms_lines(title: Seq<char>, minutes: Seq<i64>) -> Seq<Seq<char>>
    decreases minutes.len(),
{
    if minutes.len() == 0 {
        Seq::empty()
    } else {
        alarms_lines(title, minutes.drop_last()) + alarm_lines(title, minutes.last())
    }
}

/// The lines of an event.
pub open spec fn event_lines(
    calendar: CalendarView,
    event: EventView,
    reading: EventReading,
    dtstamp: Seq<char>,
) -> Seq<Seq<char>> {
    event_head(calendar, event, dtstamp) + span_lines(calendar.timezone, reading) + event_details(
        event,
    ) + alarms_lines(event.title, event.alarms(calendar.default_alarm_minutes)) + seq![
        "END:VEVENT"@,
    ]
}

/// The lines of a list of events.
pub open spec fn events_lines(
    calendar: CalendarView,
    events: Seq<EventView>,
    readings: Seq<EventReading>,
    dtstamp: Seq<char>,
) -> Seq<Seq<char>>
    decreases events.len(),
{
    if events.len() == 0 {
        Seq::empty()
    } else {
        events_lines(calendar, events.drop_last(), readings.drop_last(), dtstamp) + event_lines(
            calendar,
            events.last(),
            readings.last(),
            dtstamp,
        )
    }
}

/// When a calendar was last changed: its timestamp in UTC, or the beginning of 1970 where it has
/// none.
pub open spec fn dtstamp_text(calendar: CalendarView, read: Option<Moment>) -> Seq<char> {
    match (calendar.updated_at, read) {
        (Some(_), Some(moment)) => dates::ics_datetime(moment) + "Z"@,
        _ => "19700101T000000Z"@,
    }
}

/// The lines of a calendar.
pub open spec fn calendar_lines(calendar: CalendarView, readings: ReadingsView) -> Seq<Seq<char>> {
    calendar_head(calendar) + events_lines(
        calendar,
        calendar.events,
        readings.events,
        dtstamp_text(calendar, readings.updated_at),
    ) + seq!["END:VCALENDAR"@]
}

/// A calendar in iCalendar format.
pub open spec fn rendered(calendar: CalendarView, readings: ReadingsView) -> Seq<char> {
    fold::ics_text(calendar_lines(calendar, readings))
}

// ---------------------------------------------------------------------------
// Rendering
// ---------------------------------------------------------------------------

fn push_line(lines: &mut Vec<String>, line: &str)
    ensures
        text::texts(final(lines)@) == text::texts(old(lines)@).push(line@),
{
    lines.push(line.to_string());
    proof {
        assert(text::texts(lines@) =~= text::texts(old(lines)@).push(line@));
    }
}

/// Adds a property whose value is a text.
pub fn property(lines: &mut Vec<String>, name: &str, value: &str)
    ensures
        text::texts(final(lines)@) == text::texts(old(lines)@).push(text_line(name@, value@)),
{
    property_raw(lines, name, fold::escape_text(value).as_str());
}

/// Adds a property whose value is taken as it is.
pub fn property_raw(lines: &mut Vec<String>, name: &str, value: &str)
    ensures
        text::texts(final(lines)@) == text::texts(old(lines)@).push(raw_line(name@, value@)),
{
    push_line(lines, name.to_string().concat(":").concat(value).as_str());
}

fn render_span(calendar: &CalendarFile, reading: &EventReading, lines: &mut Vec<String>)
    requires
        *reading matches EventReading::AllDay(Some(start), Some(end)) ==> start.valid()
            && end.valid(),
        *reading matches EventReading::Timed(Some(start), Some(end)) ==> start.valid()
            && end.valid(),
    ensures
        text::texts(final(lines)@) == text::texts(old(lines)@) + span_lines(
            calendar@.timezone,
            *reading,
        ),
{
    match *reading {
        EventReading::AllDay(Some(start), Some(end)) => {
            property_raw(lines, "DTSTART;VALUE=DATE", dates::ics_date_text(&start).as_str());
            property_raw(lines, "DTEND;VALUE=DATE", dates::ics_date_text(&end).as_str());
        },
        EventReading::Timed(Some(start), Some(end)) => {
            property_raw(
                lines,
                "DTSTART;TZID=".to_string().concat(&calendar.timezone).as_str(),
                dates::ics_datetime_text(&start).as_str(),
            );
            property_raw(
                lines,
                "DTEND;TZID=".to_string().concat(&calendar.timezone).as_str(),
                dates::ics_datetime_text(&end).as_str(),
            );
        },
        _ => {},
    }
    proof {
        assert(text::texts(lines@) =~= text::texts(old(lines)@) + span_lines(
            calendar@.timezone,
            *reading,
        ));
    }
}

fn render_details(event: &Event, lines: &mut Vec<String>)
    ensures
        text::texts(final(lines)@) == text::texts(old(lines)@) + event_details(event@),
{
    if let Some(description) = &event.description {
        property(lines, "DESCRIPTION", description);
    }
    if let Some(location) = &event.location {
        property(lines, "LOCATION", location);
    }
    if let Some(url) = &event.url {
        property_raw(lines, "URL", url);
    }
    if let Some(source) = &event.source {
        property(lines, "X-EXAM-SOURCE", &source.name);
        property_raw(lines, "X-EXAM-SOURCE-URL", &source.url);
    }
    if let Some(status) = &event.status {
        property_raw(lines, "STATUS", status.as_ics());
    }
    proof {
        assert(text::texts(lines@) =~= text::texts(old(lines)@) + event_details(event@));
    }
}

fn render_alarms(title: &str, minutes: &Vec<i64>, lines: &mut Vec<String>)
    ensures
        text::texts(final(lines)@) == text::texts(old(lines)@) + alarms_lines(title@, minutes@),
{
    proof {
        assert(text::texts(lines@) =~= text::texts(old(lines)@) + alarms_lines(
            title@,
            minutes@.take(0),
        ));
    }
    for i in 0..minutes.len()
        invariant
            text::texts(lines@) == text::texts(old(lines)@) + alarms_lines(
                title@,
                minutes@.take(i as int),
            ),
    {
        let ghost before = text::texts(lines@);
        push_line(lines, "BEGIN:VALARM");
        property_raw(lines, "ACTION", "DISPLAY");
        property(lines, "DESCRIPTION", title);
        property_raw(
            lines,
            "TRIGGER",
            "-PT".to_string().concat(text::decimal_text(minutes[i]).as_str()).concat("M").as_str(),
        );
        push_line(lines, "END:VALARM");
        proof {
            assert(text::texts(lines@) =~= before + alarm_lines(title@, minutes@[i as int]));
            assert(minutes@.take(i + 1).drop_last() =~= minutes@.take(i as int));
            assert(text::texts(lines@) =~= text::texts(old(lines)@) + alarms_lines(
                title@,
                minutes@.take(i + 1),
            ));
        }
    }
    proof {
        assert(minutes@.take(minutes@.len() as int) =~= minutes@);
    }
}

/// Adds the lines of an event of which this was read.
///
/// Where the start or the end could not be read, the complaint about it is returned, and only
/// the first lines are added.
pub fn render_event_read(
    calendar: &CalendarFile,
    event: &Event,
    reading: &EventReading,
    dtstamp: &str,
    lines: &mut Vec<String>,
) -> (res: Result<(), String>)
    requires
        reading.fits(event@),
    ensures
        validate::verdict(res, validate::unread_defect(event@, *reading)),
        text::texts(final(lines)@) == text::texts(old(lines)@) + (if res is Ok {
            event_lines(calendar@, event@, *reading, dtstamp@)
        } else {
            event_head(calendar@, event@, dtstamp@)
        }),
{
    push_line(lines, "BEGIN:VEVENT");
    property_raw(
        lines,
        "UID",
        calendar.id.clone().concat(".").concat(
            text::decimal_text(calendar.year as i64).as_str(),
        ).concat(".").concat(&event.id).concat("@exam-calendar").as_str(),
    );
    property_raw(lines, "DTSTAMP", dtstamp);
    property(lines, "SUMMARY", &event.title);
    proof {
        assert(text::texts(lines@) =~= text::texts(old(lines)@) + event_head(
            calendar@,
            event@,
            dtstamp@,
        ));
    }
    match *reading {
        EventReading::AllDay(start, end) => {
            match dates::date_or_error(&event.start, start) {
                Ok(_) => {},
                Err(message) => return Err(message),
            }
            match dates::date_or_error(&event.end, end) {
                Ok(_) => {},
                Err(message) => return Err(message),
            }
        },
        EventReading::Timed(start, end) => {
            match dates::datetime_or_error(&event.start, start) {
                Ok(_) => {},
                Err(message) => return Err(message),
            }
            match dates::datetime_or_error(&event.end, end) {
                Ok(_) => {},
                Err(message) => return Err(message),
            }
        },
    }
    render_span(calendar, reading, lines);
    render_details(event, lines);
    match &event.alarm_minutes {
        Some(minutes) => render_alarms(&event.title, minutes, lines),
        None => render_alarms(&event.title, &calendar.default_alarm_minutes, lines),
    }
    push_line(lines, "END:VEVENT");
    proof {
        assert(text::texts(lines@) =~= text::texts(old(lines)@) + event_lines(
            calendar@,
            event@,
            *reading,
            dtstamp@,
        ));
    }
    Ok(())
}

/// Adds the lines of an event.
///
/// Where the start or the end cannot be read, the complaint about it is returned, and only the
/// first lines are added.
pub fn render_event(
    calendar: &CalendarFile,
    event: &Event,
    dtstamp: &str,
    lines: &mut Vec<String>,
) -> (res: Result<(), String>)
    ensures
        validate::verdict(
            res,
            validate::unread_defect(event@, validate::event_reading(event@)),
        ),
        text::texts(final(lines)@) == text::texts(old(lines)@) + (if res is Ok {
            event_lines(calendar@, event@, validate::event_reading(event@), dtstamp@)
        } else {
            event_head(calendar@, event@, dtstamp@)
        }),
        forall|reading: EventReading| #[trigger]
            reading.written(event@) ==> res is Ok && text::texts(final(lines)@) == text::texts(
                old(lines)@,
            ) + event_lines(calendar@, event@, reading, dtstamp@),
{
    render_event_read(calendar, event, &validate::read_event(event), dtstamp, lines)
}

/// When a calendar of whose timestamp this was read was last changed.
pub fn calendar_dtstamp_read(calendar: &CalendarFile, read: Option<Moment>) -> (res: Result<
    String,
    String,
>)
    requires
        read matches Some(moment) ==> moment.valid(),
    ensures
        match validate::stamp_defect(calendar@, read) {
            Some(complaint) => res matches Err(message) && message@ == complaint,
            None => res matches Ok(stamp) && stamp@ == dtstamp_text(calendar@, read),
        },
{
    match &calendar.updated_at {
        Some(updated_at) => match dates::rfc3339_or_error(updated_at, read) {
            Ok(moment) => Ok(dates::ics_datetime_text(&moment).concat("Z")),
            Err(message) => Err(message),
        },
        None => Ok("19700101T000000Z".to_string()),
    }
}

/// When a calendar was last changed.
pub fn calendar_dtstamp(calendar: &CalendarFile) -> (res: Result<String, String>)
    ensures
        match validate::stamp_defect(
            calendar@,
            validate::calendar_readings(calendar@).updated_at,
        ) {
            Some(complaint) => res matches Err(message) && message@ == complaint,
            None => res matches Ok(stamp) && stamp@ == dtstamp_text(
                calendar@,
                validate::calendar_readings(calendar@).updated_at,
            ),
        },
        forall|moment: Moment|
            dates::plain_moment(moment) && calendar@.updated_at == Some(
                (#[trigger] dates::iso_datetime(moment)).push('Z'),
            ) ==> (res matches Ok(stamp) && stamp@ == dates::ics_datetime(moment) + "Z"@),
{
    let read = match &calendar.updated_at {
        Some(updated_at) => dates::chrono_parse_rfc3339(updated_at),
        None => None,
    };
    calendar_dtstamp_read(calendar, read)
}

fn render_head(calendar: &CalendarFile) -> (lines: Vec<String>)
    ensures
        text::texts(lines@) == calendar_head(calendar@),
{
    let mut lines: Vec<String> = Vec::new();
    proof {
        assert(text::texts(lines@) =~= Seq::<Seq<char>>::empty());
    }
    push_line(&mut lines, "BEGIN:VCALENDAR");
    push_line(&mut lines, "VERSION:2.0");
    push_line(&mut lines, "PRODID:-//exam-calendar//exam-calendar 0.1//EN");
    push_line(&mut lines, "CALSCALE:GREGORIAN");
    push_line(&mut lines, "METHOD:PUBLISH");
    property(&mut lines, "X-WR-CALNAME", &calendar.title);
    property(&mut lines, "X-WR-TIMEZONE", &calendar.timezone);
    property(&mut lines, "X-EXAM-REGION", &calendar.region);
    property(&mut lines, "X-EXAM-TYPE", &calendar.exam_type);
    if let Some(source) = &calendar.source {
        property(&mut lines, "X-EXAM-SOURCE", &source.name);
        property(&mut lines, "X-EXAM-SOURCE-URL", &source.url);
    }
    proof {
        assert(text::texts(lines@) =~= calendar_head(calendar@));
    }
    lines
}

/// The outcome of rendering: the complaint about the calendar, or its iCalendar format.
pub open spec fn rendering(
    res: Result<String, String>,
    calendar: CalendarView,
    readings: ReadingsView,
) -> bool {
    match validate::calendar_defect(calendar, readings) {
        Some(complaint) => res matches Err(message) && message@ == complaint,
        None => res matches Ok(ics) && ics@ == rendered(calendar, readings),
    }
}

/// Renders a calendar of whose dates and times these were read.
pub fn render_calendar_read(calendar: &CalendarFile, readings: &Readings) -> (res: Result<
    String,
    String,
>)
    requires
        readings@.fit(calendar@),
    ensures
        rendering(res, calendar@, readings@),
{
    match validate::validate_calendar_read(calendar, readings) {
        Ok(()) => {},
        Err(message) => return Err(message),
    }
    let mut lines = render_head(calendar);
    let dtstamp = match calendar_dtstamp_read(calendar, readings.updated_at) {
        Ok(dtstamp) => dtstamp,
        Err(message) => return Err(message),
    };
    let ghost events = calendar@.events;
    let ghost head = calendar_head(calendar@);
    proof {
        validate::events_are_valid_one_by_one(
            calendar@.default_alarm_minutes,
            events,
            readings@.events,
        );
        assert(text::texts(lines@) =~= head + events_lines(
            calendar@,
            events.take(0),
            readings@.events.take(0),
            dtstamp@,
        ));
    }
    for i in 0..calendar.events.len()
        invariant
            readings@.fit(calendar@),
            events == calendar@.events,
            events.len() == calendar.events@.len(),
            forall|j: int|
                0 <= j < events.len() ==> validate::event_defect(
                    calendar@.default_alarm_minutes,
                    #[trigger] events[j],
                    readings@.events[j],
                ) is None,
            text::texts(lines@) == head + events_lines(
                calendar@,
                events.take(i as int),
                readings@.events.take(i as int),
                dtstamp@,
            ),
    {
        proof {
            assert(readings@.events[i as int].fits(events[i as int]));
            assert(events[i as int] == calendar.events@[i as int]@);
        }
        match render_event_read(
            calendar,
            &calendar.events[i],
            &readings.events[i],
            &dtstamp,
            &mut lines,
        ) {
            Ok(()) => {},
            Err(message) => return Err(message),
        }
        proof {
            assert(events.take(i + 1).drop_last() =~= events.take(i as int));
            assert(readings@.events.take(i + 1).drop_last() =~= readings@.events.take(i as int));
            assert(text::texts(lines@) =~= head + events_lines(
                calendar@,
                events.take(i + 1),
                readings@.events.take(i + 1),
                dtstamp@,
            ));
        }
    }
    proof {
        assert(events.take(events.len() as int) =~= events);
        assert(readings@.events.take(events.len() as int) =~= readings@.events);
    }
    push_line(&mut lines, "END:VCALENDAR");
    proof {
        assert(text::texts(lines@) =~= calendar_lines(calendar@, readings@));
    }
    Ok(fold::write_lines(&lines))
}

/// Renders a calendar in iCalendar format.
///
/// The first clause speaks of whatever chrono reads from the calendar's dates and times; the
/// second one of a calendar that gives them all in the documented notation.
pub fn render_calendar(calendar: &CalendarFile) -> (res: Result<String, String>)
    ensures
        rendering(res, calendar@, validate::calendar_readings(calendar@)),
        forall|readings: ReadingsView| #[trigger]
            readings.written(calendar@) ==> rendering(res, calendar@, readings),
{
    render_calendar_read(calendar, &validate::read_calendar(calendar))
}

// ---------------------------------------------------------------------------
// Laws
// ---------------------------------------------------------------------------

/// A text without line feeds.
pub open spec fn one_line(s: Seq<char>) -> bool {
    !s.contains('\n')
}

/// An optional text without line feeds.
pub open spec fn optional_one_line(s: Option<Seq<char>>) -> bool {
    match s {
        Some(s) => one_line(s),
        None => true,
    }
}

/// All lines of a list are content lines.
pub open spec fn content_lines(lines: Seq<Seq<char>>) -> bool {
    forall|i: int| 0 <= i < lines.len() ==> fold::content_line(#[trigger] lines[i])
}

proof fn lemma_one_line_concat(a: Seq<char>, b: Seq<char>)
    requires
        one_line(a),
        one_line(b),
    ensures
        one_line(a + b),
{
    assert forall|i: int| 0 <= i < (a + b).len() implies (a + b)[i] != '\n' by {
        if i < a.len() {
            assert(a.contains(a[i]));
        } else {
            assert(b.contains(b[i - a.len()]));
        }
    }
}

proof fn lemma_content_lines_concat(a: Seq<Seq<char>>, b: Seq<Seq<char>>)
    requires
        content_lines(a),
        content_lines(b),
    ensures
        content_lines(a + b),
{
    assert forall|i: int| 0 <= i < (a + b).len() implies fold::content_line(
        #[trigger] (a + b)[i],
    ) by {
        if i < a.len() {
            assert((a + b)[i] == a[i]);
        } else {
            assert((a + b)[i] == b[i - a.len()]);
        }
    }
}

proof fn lemma_digits_one_line(n: nat)
    ensures
        one_line(text::digits(n)),
    decreases n,
{
    if n >= 10 {
        lemma_digits_one_line(n / 10);
        let head = text::digits(n / 10);
        let last = text::digit((n % 10) as int);
        assert forall|i: int| 0 <= i < text::digits(n).len() implies text::digits(n)[i]
            != '\n' by {
            if i < head.len() {
                assert(head.contains(head[i]));
            }
        }
    }
}

proof fn lemma_decimal_one_line(n: int)
    ensures
        one_line(text::decimal(n)),
{
    if n < 0 {
        lemma_digits_one_line((-n) as nat);
        lemma_one_line_concat(seq!['-'], text::digits((-n) as nat));
    } else {
        lemma_digits_one_line(n as nat);
    }
}

proof fn lemma_four_digits_one_line(n: nat)
    ensures
        one_line(dates::at_least_four_digits(n)),
{
    lemma_digits_one_line(n);
    lemma_one_line_concat(seq!['0', '0', '0'], text::digits(n));
    lemma_one_line_concat(seq!['0', '0'], text::digits(n));
    lemma_one_line_concat(seq!['0'], text::digits(n));
}

proof fn lemma_two_digits_one_line(n: int)
    requires
        0 <= n < 100,
    ensures
        one_line(dates::two_digits(n)),
{
}

proof fn lemma_ics_date_one_line(date: dates::Date)
    requires
        date.valid(),
    ensures
        one_line(dates::ics_date(date)),
{
    let year = date.year as int;
    lemma_four_digits_one_line((-year) as nat);
    lemma_four_digits_one_line(year as nat);
    lemma_one_line_concat(seq!['-'], dates::at_least_four_digits((-year) as nat));
    lemma_one_line_concat(seq!['+'], dates::at_least_four_digits(year as nat));
    lemma_two_digits_one_line(date.month as int);
    lemma_two_digits_one_line(date.day as int);
    lemma_one_line_concat(dates::year_text(year), dates::two_digits(date.month as int));
    lemma_one_line_concat(
        dates::year_text(year) + dates::two_digits(date.month as int),
        dates::two_digits(date.day as int),
    );
}

proof fn lemma_ics_datetime_one_line(moment: Moment)
    requires
        moment.valid(),
    ensures
        one_line(dates::ics_datetime(moment)),
{
    lemma_ics_date_one_line(moment.date);
    lemma_two_digits_one_line(moment.hour as int);
    lemma_two_digits_one_line(moment.minute as int);
    lemma_two_digits_one_line(dates::shown_second(moment));
    let a = dates::ics_date(moment.date) + seq!['T'];
    let b = a + dates::two_digits(moment.hour as int);
    let c = b + dates::two_digits(moment.minute as int);
    lemma_one_line_concat(dates::ics_date(moment.date), seq!['T']);
    lemma_one_line_concat(a, dates::two_digits(moment.hour as int));
    lemma_one_line_concat(b, dates::two_digits(moment.minute as int));
    lemma_one_line_concat(c, dates::two_digits(dates::shown_second(moment)));
}

proof fn lemma_raw_line(name: Seq<char>, value: Seq<char>)
    requires
        name.len() > 0,
        fold::content_line(name),
        one_line(value),
    ensures
        fold::content_line(raw_line(name, value)),
{
    reveal_strlit(":");
    lemma_one_line_concat(name, ":"@);
    lemma_one_line_concat(name + ":"@, value);
    assert(raw_line(name, value)[0] == name[0]);
}

proof fn lemma_text_line(name: Seq<char>, value: Seq<char>)
    requires
        name.len() > 0,
        fold::content_line(name),
    ensures
        fold::content_line(text_line(name, value)),
{
    fold::escaped_text_has_no_line_end(value);
    lemma_raw_line(name, fold::escaped(value));
}

proof fn lemma_head_content_lines(calendar: CalendarView)
    ensures
        content_lines(calendar_head(calendar)),
{
    reveal_strlit("BEGIN:VCALENDAR");
    reveal_strlit("VERSION:2.0");
    reveal_strlit("PRODID:-//exam-calendar//exam-calendar 0.1//EN");
    reveal_strlit("CALSCALE:GREGORIAN");
    reveal_strlit("METHOD:PUBLISH");
    reveal_strlit("X-WR-CALNAME");
    reveal_strlit("X-WR-TIMEZONE");
    reveal_strlit("X-EXAM-REGION");
    reveal_strlit("X-EXAM-TYPE");
    reveal_strlit("X-EXAM-SOURCE");
    reveal_strlit("X-EXAM-SOURCE-URL");
    lemma_text_line("X-WR-CALNAME"@, calendar.title);
    lemma_text_line("X-WR-TIMEZONE"@, calendar.timezone);
    lemma_text_line("X-EXAM-REGION"@, calendar.region);
    lemma_text_line("X-EXAM-TYPE"@, calendar.exam_type);
    if let Some(source) = calendar.source {
        lemma_text_line("X-EXAM-SOURCE"@, source.name);
        lemma_text_line("X-EXAM-SOURCE-URL"@, source.url);
    }
}

proof fn lemma_event_head_content_lines(
    calendar: CalendarView,
    event: EventView,
    dtstamp: Seq<char>,
)
    requires
        one_line(calendar.id),
        one_line(event.id),
        one_line(dtstamp),
    ensures
        content_lines(event_head(calendar, event, dtstamp)),
{
    reveal_strlit("BEGIN:VEVENT");
    reveal_strlit("UID");
    reveal_strlit("DTSTAMP");
    reveal_strlit("SUMMARY");
    reveal_strlit(".");
    reveal_strlit("@exam-calendar");
    lemma_decimal_one_line(calendar.year);
    let a = calendar.id + "."@;
    let b = a + text::decimal(calendar.year);
    let c = b + "."@;
    let d = c + event.id;
    lemma_one_line_concat(calendar.id, "."@);
    lemma_one_line_concat(a, text::decimal(calendar.year));
    lemma_one_line_concat(b, "."@);
    lemma_one_line_concat(c, event.id);
    lemma_one_line_concat(d, "@exam-calendar"@);
    lemma_raw_line("UID"@, uid(calendar, event));
    lemma_raw_line("DTSTAMP"@, dtstamp);
    lemma_text_line("SUMMARY"@, event.title);
}

proof fn lemma_span_content_lines(timezone: Seq<char>, event: EventView, reading: EventReading)
    requires
        one_line(timezone),
        reading.fits(event),
    ensures
        content_lines(span_lines(timezone, reading)),
{
    reveal_strlit("DTSTART;VALUE=DATE");
    reveal_strlit("DTEND;VALUE=DATE");
    reveal_strlit("DTSTART;TZID=");
    reveal_strlit("DTEND;TZID=");
    match reading {
        EventReading::AllDay(Some(start), Some(end)) => {
            lemma_ics_date_one_line(start);
            lemma_ics_date_one_line(end);
            lemma_raw_line("DTSTART;VALUE=DATE"@, dates::ics_date(start));
            lemma_raw_line("DTEND;VALUE=DATE"@, dates::ics_date(end));
        },
        EventReading::Timed(Some(start), Some(end)) => {
            lemma_ics_datetime_one_line(start);
            lemma_ics_datetime_one_line(end);
            lemma_one_line_concat("DTSTART;TZID="@, timezone);
            lemma_one_line_concat("DTEND;TZID="@, timezone);
            lemma_raw_line("DTSTART;TZID="@ + timezone, dates::ics_datetime(start));
            lemma_raw_line("DTEND;TZID="@ + timezone, dates::ics_datetime(end));
        },
        _ => {},
    }
}

proof fn lemma_details_content_lines(event: EventView)
    requires
        plain_links(event),
    ensures
        content_lines(event_details(event)),
{
    reveal_strlit("DESCRIPTION");
    reveal_strlit("LOCATION");
    reveal_strlit("URL");
    reveal_strlit("X-EXAM-SOURCE");
    reveal_strlit("X-EXAM-SOURCE-URL");
    reveal_strlit("STATUS");
    reveal_strlit("CONFIRMED");
    reveal_strlit("TENTATIVE");
    reveal_strlit("CANCELLED");
    if let Some(description) = event.description {
        lemma_text_line("DESCRIPTION"@, description);
    }
    if let Some(location) = event.location {
        lemma_text_line("LOCATION"@, location);
    }
    if let Some(url) = event.url {
        lemma_raw_line("URL"@, url);
    }
    if let Some(source) = event.source {
        lemma_text_line("X-EXAM-SOURCE"@, source.name);
        lemma_raw_line("X-EXAM-SOURCE-URL"@, source.url);
    }
    if let Some(status) = event.status {
        lemma_raw_line("STATUS"@, status.ics_text());
    }
    let a = optional_text_line("DESCRIPTION"@, event.description);
    let b = a + optional_text_line("LOCATION"@, event.location);
    let c = b + optional_raw_line("URL"@, event.url);
    let d = c + event_source(event.source);
    lemma_content_lines_concat(a, optional_text_line("LOCATION"@, event.location));
    lemma_content_lines_concat(b, optional_raw_line("URL"@, event.url));
    lemma_content_lines_concat(c, event_source(event.source));
    lemma_content_lines_concat(d, optional_raw_line("STATUS"@, status_text(event)));
}

proof fn lemma_alarms_content_lines(title: Seq<char>, minutes: Seq<i64>)
    ensures
        content_lines(alarms_lines(title, minutes)),
    decreases minutes.len(),
{
    if minutes.len() > 0 {
        reveal_strlit("BEGIN:VALARM");
        reveal_strlit("ACTION");
        reveal_strlit("DISPLAY");
        reveal_strlit("DESCRIPTION");
        reveal_strlit("TRIGGER");
        reveal_strlit("-PT");
        reveal_strlit("M");
        reveal_strlit("END:VALARM");
        let number = text::decimal(minutes.last() as int);
        lemma_decimal_one_line(minutes.last() as int);
        lemma_one_line_concat("-PT"@, number);
        lemma_one_line_concat("-PT"@ + number, "M"@);
        lemma_raw_line("ACTION"@, "DISPLAY"@);
        lemma_text_line("DESCRIPTION"@, title);
        lemma_raw_line("TRIGGER"@, "-PT"@ + number + "M"@);
        lemma_alarms_content_lines(title, minutes.drop_last());
        lemma_content_lines_concat(
            alarms_lines(title, minutes.drop_last()),
            alarm_lines(title, minutes.last()),
        );
    }
}

proof fn lemma_event_content_lines(
    calendar: CalendarView,
    event: EventView,
    reading: EventReading,
    dtstamp: Seq<char>,
)
    requires
        one_line(calendar.id),
        one_line(calendar.timezone),
        one_line(event.id),
        one_line(dtstamp),
        plain_links(event),
        reading.fits(event),
    ensures
        content_lines(event_lines(calendar, event, reading, dtstamp)),
{
    reveal_strlit("END:VEVENT");
    let alarms = event.alarms(calendar.default_alarm_minutes);
    lemma_event_head_content_lines(calendar, event, dtstamp);
    lemma_span_content_lines(calendar.timezone, event, reading);
    lemma_details_content_lines(event);
    lemma_alarms_content_lines(event.title, alarms);
    let a = event_head(calendar, event, dtstamp);
    let b = a + span_lines(calendar.timezone, reading);
    let c = b + event_details(event);
    let d = c + alarms_lines(event.title, alarms);
    lemma_content_lines_concat(a, span_lines(calendar.timezone, reading));
    lemma_content_lines_concat(b, event_details(event));
    lemma_content_lines_concat(c, alarms_lines(event.title, alarms));
    lemma_content_lines_concat(d, seq!["END:VEVENT"@]);
}

proof fn lemma_events_content_lines(
    calendar: CalendarView,
    events: Seq<EventView>,
    readings: Seq<EventReading>,
    dtstamp: Seq<char>,
)
    requires
        one_line(calendar.id),
        one_line(calendar.timezone),
        one_line(dtstamp),
        events.len() == readings.len(),
        forall|i: int|
            0 <= i < events.len() ==> one_line((#[trigger] events[i]).id) && plain_links(events[i])
                && readings[i].fits(events[i]),
    ensures
        content_lines(events_lines(calendar, events, readings, dtstamp)),
    decreases events.len(),
{
    if events.len() > 0 {
        let rest = events.drop_last();
        assert forall|i: int| 0 <= i < rest.len() implies one_line((#[trigger] rest[i]).id)
            && plain_links(rest[i]) && readings.drop_last()[i].fits(rest[i]) by {
            assert(rest[i] == events[i]);
        }
        lemma_events_content_lines(calendar, rest, readings.drop_last(), dtstamp);
        assert(events.last() == events[events.len() - 1]);
        lemma_event_content_lines(calendar, events.last(), readings.last(), dtstamp);
        lemma_content_lines_concat(
            events_lines(calendar, rest, readings.drop_last(), dtstamp),
            event_lines(calendar, events.last(), readings.last(), dtstamp),
        );
    }
}

proof fn lemma_token_one_line(label: Seq<char>, value: Seq<char>)
    requires
        validate::token_defect(label, value) is None,
    ensures
        one_line(value),
{
}

/// The addresses of an event, which are taken as they are, hold no line feed.
pub open spec fn plain_links(event: EventView) -> bool {
    &&& optional_one_line(event.url)
    &&& event.source matches Some(source) ==> one_line(source.url)
}

/// A reader that undoes the folding of a rendered calendar finds its lines again, each with a
/// line end behind it, where what is rendered as it is (the time zone and the addresses of the
/// events) holds no line feed.
pub proof fn rendered_lines_are_found_again(calendar: CalendarView, readings: ReadingsView)
    requires
        readings.fit(calendar),
        validate::calendar_defect(calendar, readings) is None,
        one_line(calendar.timezone),
        forall|i: int|
            0 <= i < calendar.events.len() ==> plain_links(#[trigger] calendar.events[i]),
    ensures
        fold::unfolded(rendered(calendar, readings)) == fold::plain_text(
            calendar_lines(calendar, readings),
        ),
{
    let dtstamp = dtstamp_text(calendar, readings.updated_at);
    reveal_strlit("Z");
    reveal_strlit("19700101T000000Z");
    reveal_strlit("END:VCALENDAR");
    if let Some(moment) = readings.updated_at {
        lemma_ics_datetime_one_line(moment);
        lemma_one_line_concat(dates::ics_datetime(moment), "Z"@);
    }
    validate::events_are_valid_one_by_one(
        calendar.default_alarm_minutes,
        calendar.events,
        readings.events,
    );
    lemma_token_one_line("calendar id"@, calendar.id);
    assert forall|i: int| 0 <= i < calendar.events.len() implies one_line(
        (#[trigger] calendar.events[i]).id,
    ) && plain_links(calendar.events[i]) && readings.events[i].fits(calendar.events[i]) by {
        lemma_token_one_line("event id"@, calendar.events[i].id);
        assert(readings.events[i].fits(calendar.events[i]));
    }
    lemma_head_content_lines(calendar);
    lemma_events_content_lines(calendar, calendar.events, readings.events, dtstamp);
    let events = events_lines(calendar, calendar.events, readings.events, dtstamp);
    lemma_content_lines_concat(calendar_head(calendar), events);
    lemma_content_lines_concat(calendar_head(calendar) + events, seq!["END:VCALENDAR"@]);
    fold::unfolding_gives_back_the_lines(calendar_lines(calendar, readings));
}

/// A rendered calendar is made of lines of at most 75 bytes, each with a line end behind it.
pub proof fn rendered_text_keeps_the_limit(calendar: CalendarView, readings: ReadingsView)
    ensures
        ({
            let lines = fold::physical_lines(calendar_lines(calendar, readings));
            &&& rendered(calendar, readings) == fold::plain_text(lines)
            &&& forall|i: int| 0 <= i < lines.len() ==> fold::bytes(#[trigger] lines[i]) <= 75
        }),
{
    fold::written_lines_keep_the_limit(calendar_lines(calendar, readings));
}

proof fn lemma_names()
    ensures
        forall|value: Seq<char>| #[trigger] raw_line("UID"@, value) == "UID:"@ + value,
        forall|value: Seq<char>| #[trigger] raw_line("DTSTAMP"@, value) == "DTSTAMP:"@ + value,
        forall|value: Seq<char>| #[trigger] raw_line("SUMMARY"@, value) == "SUMMARY:"@ + value,
        forall|value: Seq<char>| #[trigger]
            raw_line("DTSTART;VALUE=DATE"@, value) == "DTSTART;VALUE=DATE:"@ + value,
        forall|value: Seq<char>| #[trigger]
            raw_line("DTEND;VALUE=DATE"@, value) == "DTEND;VALUE=DATE:"@ + value,
        forall|value: Seq<char>| #[trigger]
            raw_line("DESCRIPTION"@, value) == "DESCRIPTION:"@ + value,
        forall|value: Seq<char>| #[trigger] raw_line("LOCATION"@, value) == "LOCATION:"@ + value,
        forall|value: Seq<char>| #[trigger] raw_line("URL"@, value) == "URL:"@ + value,
        forall|value: Seq<char>| #[trigger]
            raw_line("X-EXAM-SOURCE"@, value) == "X-EXAM-SOURCE:"@ + value,
        forall|value: Seq<char>| #[trigger]
            raw_line("X-EXAM-SOURCE-URL"@, value) == "X-EXAM-SOURCE-URL:"@ + value,
        forall|value: Seq<char>| #[trigger] raw_line("STATUS"@, value) == "STATUS:"@ + value,
        forall|value: Seq<char>| #[trigger] raw_line("ACTION"@, value) == "ACTION:"@ + value,
        forall|value: Seq<char>| #[trigger] raw_line("TRIGGER"@, value) == "TRIGGER:"@ + value,
        forall|value: Seq<char>| #[trigger]
            raw_line("X-WR-CALNAME"@, value) == "X-WR-CALNAME:"@ + value,
        forall|value: Seq<char>| #[trigger]
            raw_line("X-WR-TIMEZONE"@, value) == "X-WR-TIMEZONE:"@ + value,
        forall|value: Seq<char>| #[trigger]
            raw_line("X-EXAM-REGION"@, value) == "X-EXAM-REGION:"@ + value,
        forall|value: Seq<char>| #[trigger]
            raw_line("X-EXAM-TYPE"@, value) == "X-EXAM-TYPE:"@ + value,
{
    reveal_strlit(":");
    reveal_strlit("UID");
    reveal_strlit("UID:");
    assert("UID"@ + ":"@ =~= "UID:"@);
    reveal_strlit("DTSTAMP");
    reveal_strlit("DTSTAMP:");
    assert("DTSTAMP"@ + ":"@ =~= "DTSTAMP:"@);
    reveal_strlit("SUMMARY");
    reveal_strlit("SUMMARY:");
    assert("SUMMARY"@ + ":"@ =~= "SUMMARY:"@);
    reveal_strlit("DTSTART;VALUE=DATE");
    reveal_strlit("DTSTART;VALUE=DATE:");
    assert("DTSTART;VALUE=DATE"@ + ":"@ =~= "DTSTART;VALUE=DATE:"@);
    reveal_strlit("DTEND;VALUE=DATE");
    reveal_strlit("DTEND;VALUE=DATE:");
    assert("DTEND;VALUE=DATE"@ + ":"@ =~= "DTEND;VALUE=DATE:"@);
    reveal_strlit("DESCRIPTION");
    reveal_strlit("DESCRIPTION:");
    assert("DESCRIPTION"@ + ":"@ =~= "DESCRIPTION:"@);
    reveal_strlit("LOCATION");
    reveal_strlit("LOCATION:");
    assert("LOCATION"@ + ":"@ =~= "LOCATION:"@);
    reveal_strlit("URL");
    reveal_strlit("URL:");
    assert("URL"@ + ":"@ =~= "URL:"@);
    reveal_strlit("X-EXAM-SOURCE");
    reveal_strlit("X-EXAM-SOURCE:");
    assert("X-EXAM-SOURCE"@ + ":"@ =~= "X-EXAM-SOURCE:"@);
    reveal_strlit("X-EXAM-SOURCE-URL");
    reveal_strlit("X-EXAM-SOURCE-URL:");
    assert("X-EXAM-SOURCE-URL"@ + ":"@ =~= "X-EXAM-SOURCE-URL:"@);
    reveal_strlit("STATUS");
    reveal_strlit("STATUS:");
    assert("STATUS"@ + ":"@ =~= "STATUS:"@);
    reveal_strlit("ACTION");
    reveal_strlit("ACTION:");
    assert("ACTION"@ + ":"@ =~= "ACTION:"@);
    reveal_strlit("TRIGGER");
    reveal_strlit("TRIGGER:");
    assert("TRIGGER"@ + ":"@ =~= "TRIGGER:"@);
    reveal_strlit("X-WR-CALNAME");
    reveal_strlit("X-WR-CALNAME:");
    assert("X-WR-CALNAME"@ + ":"@ =~= "X-WR-CALNAME:"@);
    reveal_strlit("X-WR-TIMEZONE");
    reveal_strlit("X-WR-TIMEZONE:");
    assert("X-WR-TIMEZONE"@ + ":"@ =~= "X-WR-TIMEZONE:"@);
    reveal_strlit("X-EXAM-REGION");
    reveal_strlit("X-EXAM-REGION:");
    assert("X-EXAM-REGION"@ + ":"@ =~= "X-EXAM-REGION:"@);
    reveal_strlit("X-EXAM-TYPE");
    reveal_strlit("X-EXAM-TYPE:");
    assert("X-EXAM-TYPE"@ + ":"@ =~= "X-EXAM-TYPE:"@);
}

/// One for what is there, nothing for what is not.
pub open spec fn one_if(there: bool) -> int {
    if there {
        1
    } else {
        0
    }
}

/// How many lines an event takes: six, one for each optional text and for the status, two for a
/// source, five for each alarm, and one.
pub open spec fn event_line_count(event: EventView, default_alarm_minutes: Seq<i64>) -> int {
    6 + one_if(event.description is Some) + one_if(event.location is Some) + one_if(
        event.url is Some,
    ) + 2 * one_if(event.source is Some) + one_if(event.status is Some) + 5 * (
    match event.alarm_minutes {
        Some(minutes) => minutes.len(),
        None => default_alarm_minutes.len(),
    }) + 1
}

/// How many lines stand before an event of a calendar: nine, two for a source, and those of the
/// events before it.
pub open spec fn lines_before_event(calendar: CalendarView, i: int) -> int
    decreases i,
{
    if i <= 0 {
        9 + 2 * one_if(calendar.source is Some)
    } else {
        lines_before_event(calendar, i - 1) + event_line_count(
            calendar.events[i - 1],
            calendar.default_alarm_minutes,
        )
    }
}

/// Each alarm of an event takes five lines, in the order of the alarms.
pub proof fn lines_of_alarms(title: Seq<char>, minutes: Seq<i64>, k: int)
    requires
        0 <= k < minutes.len(),
    ensures
        alarms_lines(title, minutes).len() == 5 * minutes.len(),
        alarms_lines(title, minutes)[5 * k] == "BEGIN:VALARM"@,
        alarms_lines(title, minutes)[5 * k + 1] == "ACTION:"@ + "DISPLAY"@,
        alarms_lines(title, minutes)[5 * k + 2] == "DESCRIPTION:"@ + fold::escaped(title),
        alarms_lines(title, minutes)[5 * k + 3] == "TRIGGER:"@ + "-PT"@ + text::decimal(
            minutes[k] as int,
        ) + "M"@,
        alarms_lines(title, minutes)[5 * k + 4] == "END:VALARM"@,
    decreases minutes.len(),
{
    lemma_names();
    lemma_alarms_len(title, minutes);
    lemma_alarms_len(title, minutes.drop_last());
    let before = alarms_lines(title, minutes.drop_last());
    let last = alarm_lines(title, minutes.last());
    assert("TRIGGER:"@ + ("-PT"@ + text::decimal(minutes[k] as int) + "M"@) =~= "TRIGGER:"@ + "-PT"@
        + text::decimal(minutes[k] as int) + "M"@);
    if k < minutes.len() - 1 {
        lines_of_alarms(title, minutes.drop_last(), k);
        assert(forall|j: int| 0 <= j < before.len() ==> (before + last)[j] == before[j]);
    } else {
        assert(forall|j: int| 0 <= j < 5 ==> (before + last)[before.len() + j] == last[j]);
        assert((before + last)[5 * k] == last[0]);
        assert((before + last)[5 * k + 1] == last[1]);
        assert((before + last)[5 * k + 2] == last[2]);
        assert((before + last)[5 * k + 3] == last[3]);
        assert((before + last)[5 * k + 4] == last[4]);
    }
}

proof fn lemma_alarms_len(title: Seq<char>, minutes: Seq<i64>)
    ensures
        alarms_lines(title, minutes).len() == 5 * minutes.len(),
    decreases minutes.len(),
{
    if minutes.len() > 0 {
        lemma_alarms_len(title, minutes.drop_last());
    }
}

/// The lines of an event stand at these places: its identifier, timestamp and title, its span,
/// what it gives of its description, location, page, source and status, and then its alarms.
pub proof fn lines_of_an_event(
    calendar: CalendarView,
    event: EventView,
    reading: EventReading,
    dtstamp: Seq<char>,
)
    requires
        validate::in_order(reading),
    ensures
        ({
            let lines = event_lines(calendar, event, reading, dtstamp);
            let alarms = match event.alarm_minutes {
                Some(minutes) => minutes,
                None => calendar.default_alarm_minutes,
            };
            let description: int = 6;
            let location = description + one_if(event.description is Some);
            let url = location + one_if(event.location is Some);
            let source = url + one_if(event.url is Some);
            let status = source + 2 * one_if(event.source is Some);
            let alarm = status + one_if(event.status is Some);
            &&& lines.len() == event_line_count(event, calendar.default_alarm_minutes)
            &&& lines[0] == "BEGIN:VEVENT"@
            &&& lines[1] == "UID:"@ + calendar.id + "."@ + text::decimal(calendar.year) + "."@
                + event.id + "@exam-calendar"@
            &&& lines[2] == "DTSTAMP:"@ + dtstamp
            &&& lines[3] == "SUMMARY:"@ + fold::escaped(event.title)
            &&& match reading {
                EventReading::AllDay(Some(start), Some(end)) => lines[4]
                    == "DTSTART;VALUE=DATE:"@ + dates::ics_date(start) && lines[5]
                    == "DTEND;VALUE=DATE:"@ + dates::ics_date(end),
                EventReading::Timed(Some(start), Some(end)) => lines[4] == "DTSTART;TZID="@
                    + calendar.timezone + ":"@ + dates::ics_datetime(start) && lines[5]
                    == "DTEND;TZID="@ + calendar.timezone + ":"@ + dates::ics_datetime(end),
                _ => false,
            }
            &&& event.description matches Some(value) ==> lines[description] == "DESCRIPTION:"@
                + fold::escaped(value)
            &&& event.location matches Some(value) ==> lines[location] == "LOCATION:"@
                + fold::escaped(value)
            &&& event.url matches Some(value) ==> lines[url] == "URL:"@ + value
            &&& event.source matches Some(value) ==> lines[source] == "X-EXAM-SOURCE:"@
                + fold::escaped(value.name) && lines[source + 1] == "X-EXAM-SOURCE-URL:"@
                + value.url
            &&& event.status matches Some(value) ==> lines[status] == "STATUS:"@ + (match value {
                EventStatus::Confirmed => "CONFIRMED"@,
                EventStatus::Tentative => "TENTATIVE"@,
                EventStatus::Cancelled => "CANCELLED"@,
            })
            &&& lines.subrange(alarm, alarm + 5 * alarms.len()) == alarms_lines(
                event.title,
                alarms,
            )
            &&& alarm + 5 * alarms.len() == lines.len() - 1
            &&& lines.last() == "END:VEVENT"@
        }),
{
    lemma_names();
    let alarms = event.alarms(calendar.default_alarm_minutes);
    lemma_alarms_len(event.title, alarms);
    let lines = event_lines(calendar, event, reading, dtstamp);
    let head = event_head(calendar, event, dtstamp);
    let span = span_lines(calendar.timezone, reading);
    let details = event_details(event);
    let tail = alarms_lines(event.title, alarms);
    assert(span.len() == 2);
    assert(lines.len() == 6 + details.len() + tail.len() + 1);
    assert(lines[1] == raw_line("UID"@, uid(calendar, event)));
    assert("UID:"@ + uid(calendar, event) =~= "UID:"@ + calendar.id + "."@ + text::decimal(
        calendar.year,
    ) + "."@ + event.id + "@exam-calendar"@);
    assert(lines[4] == span[0]);
    assert(lines[5] == span[1]);
    assert(forall|j: int| 0 <= j < details.len() ==> lines[6 + j] == #[trigger] details[j]);
    let a = optional_text_line("DESCRIPTION"@, event.description);
    let b = optional_text_line("LOCATION"@, event.location);
    let c = optional_raw_line("URL"@, event.url);
    let d = event_source(event.source);
    let e = optional_raw_line("STATUS"@, status_text(event));
    assert(details.len() == a.len() + b.len() + c.len() + d.len() + e.len());
    if event.description is Some {
        assert(details[0] == a[0]);
    }
    if event.location is Some {
        assert(details[a.len() as int] == b[0]);
    }
    if event.url is Some {
        assert(details[a.len() as int + b.len()] == c[0]);
    }
    if event.source is Some {
        assert(details[a.len() as int + b.len() + c.len()] == d[0]);
        assert(details[a.len() as int + b.len() + c.len() + 1] == d[1]);
    }
    if event.status is Some {
        assert(details[a.len() as int + b.len() + c.len() + d.len()] == e[0]);
    }
    let alarm: int = 6 + details.len() as int;
    assert(lines.subrange(alarm, alarm + 5 * alarms.len()) =~= tail);
}

proof fn lemma_event_len(
    calendar: CalendarView,
    event: EventView,
    reading: EventReading,
    dtstamp: Seq<char>,
)
    requires
        validate::in_order(reading),
    ensures
        event_lines(calendar, event, reading, dtstamp).len() == event_line_count(
            event,
            calendar.default_alarm_minutes,
        ),
{
    lines_of_an_event(calendar, event, reading, dtstamp);
}

proof fn lemma_event_marks(
    calendar: CalendarView,
    event: EventView,
    reading: EventReading,
    dtstamp: Seq<char>,
)
    requires
        validate::in_order(reading),
    ensures
        ({
            let lines = event_lines(calendar, event, reading, dtstamp);
            &&& lines.len() >= 7
            &&& lines[0] == "BEGIN:VEVENT"@
            &&& lines[1] == "UID:"@ + calendar.id + "."@ + text::decimal(calendar.year) + "."@
                + event.id + "@exam-calendar"@
            &&& lines[3] == "SUMMARY:"@ + fold::escaped(event.title)
            &&& lines[lines.len() - 1] == "END:VEVENT"@
        }),
{
    lines_of_an_event(calendar, event, reading, dtstamp);
}

proof fn lemma_blocks_of_calendar(calendar: CalendarView, readings: ReadingsView, i: int)
    requires
        readings.fit(calendar),
        validate::calendar_defect(calendar, readings) is None,
        0 <= i < calendar.events.len(),
    ensures
        ({
            let lines = calendar_lines(calendar, readings);
            let start = lines_before_event(calendar, i);
            let block = event_lines(
                calendar,
                calendar.events[i],
                readings.events[i],
                dtstamp_text(calendar, readings.updated_at),
            );
            &&& 0 <= start
            &&& start + block.len() == lines_before_event(calendar, i + 1)
            &&& start + block.len() < lines.len()
            &&& lines.subrange(start, start + block.len()) == block
            &&& validate::in_order(readings.events[i])
        }),
{
    let n = calendar.events.len() as int;
    let dtstamp = dtstamp_text(calendar, readings.updated_at);
    lemma_all_in_order(calendar, readings);
    lemma_events_blocks(calendar, readings.events, dtstamp, n, i);
    assert(calendar.events.take(n) =~= calendar.events);
    assert(readings.events.take(n) =~= readings.events);
    let head = calendar_head(calendar);
    let events = events_lines(calendar, calendar.events, readings.events, dtstamp);
    let lines = calendar_lines(calendar, readings);
    let block = event_lines(calendar, calendar.events[i], readings.events[i], dtstamp);
    let start = lines_before_event(calendar, i);
    let end = start + block.len();
    assert(validate::in_order(readings.events[i]));
    lemma_event_len(calendar, calendar.events[i], readings.events[i], dtstamp);
    assert(head.len() == lines_before_event(calendar, 0));
    assert(lines.subrange(start, end) =~= events.subrange(start - head.len(), end - head.len()));
}

proof fn lemma_events_blocks(
    calendar: CalendarView,
    readings: Seq<EventReading>,
    dtstamp: Seq<char>,
    n: int,
    i: int,
)
    requires
        0 <= i < n <= calendar.events.len(),
        readings.len() == calendar.events.len(),
        forall|j: int| 0 <= j < readings.len() ==> validate::in_order(#[trigger] readings[j]),
    ensures
        ({
            let lines = events_lines(
                calendar,
                calendar.events.take(n),
                readings.take(n),
                dtstamp,
            );
            let start = lines_before_event(calendar, i) - lines_before_event(calendar, 0);
            let block = event_lines(calendar, calendar.events[i], readings[i], dtstamp);
            &&& lines.len() == lines_before_event(calendar, n) - lines_before_event(calendar, 0)
            &&& 0 <= start
            &&& start + block.len() <= lines.len()
            &&& lines.subrange(start, start + block.len()) == block
        }),
    decreases n,
{
    let events = calendar.events;
    let before = events_lines(calendar, events.take(n - 1), readings.take(n - 1), dtstamp);
    let last = event_lines(calendar, events[n - 1], readings[n - 1], dtstamp);
    let lines = events_lines(calendar, events.take(n), readings.take(n), dtstamp);
    assert(events.take(n).drop_last() =~= events.take(n - 1));
    assert(readings.take(n).drop_last() =~= readings.take(n - 1));
    assert(validate::in_order(readings[n - 1]));
    lemma_event_len(calendar, events[n - 1], readings[n - 1], dtstamp);
    assert(lines == before + last);
    if n - 1 > 0 {
        lemma_events_blocks(calendar, readings, dtstamp, n - 1, if i < n - 1 {
            i
        } else {
            0
        });
    } else {
        assert(events.take(0) =~= Seq::<EventView>::empty());
        assert(before =~= Seq::<Seq<char>>::empty());
    }
    let start = lines_before_event(calendar, i) - lines_before_event(calendar, 0);
    let block = event_lines(calendar, events[i], readings[i], dtstamp);
    if i < n - 1 {
        assert(lines.subrange(start, start + block.len()) =~= before.subrange(
            start,
            start + block.len(),
        ));
    } else {
        assert(lines.subrange(start, start + block.len()) =~= last);
    }
}

/// Every event of a valid calendar is rendered, in the order of the events: the lines of each
/// stand behind those of the events before it. The lines of the calendar stand before them, and
/// one line behind them.
pub proof fn every_event_is_rendered(calendar: CalendarView, readings: ReadingsView, i: int)
    requires
        readings.fit(calendar),
        validate::calendar_defect(calendar, readings) is None,
        0 <= i < calendar.events.len(),
    ensures
        ({
            let lines = calendar_lines(calendar, readings);
            let start = lines_before_event(calendar, i);
            let end = lines_before_event(calendar, i + 1);
            let dtstamp = dtstamp_text(calendar, readings.updated_at);
            &&& 0 <= start < end < lines.len()
            &&& lines.subrange(start, end) == event_lines(
                calendar,
                calendar.events[i],
                readings.events[i],
                dtstamp,
            )
            &&& lines[start] == "BEGIN:VEVENT"@
            &&& lines[start + 1] == "UID:"@ + calendar.id + "."@ + text::decimal(calendar.year)
                + "."@ + calendar.events[i].id + "@exam-calendar"@
            &&& lines[start + 3] == "SUMMARY:"@ + fold::escaped(calendar.events[i].title)
            &&& lines[end - 1] == "END:VEVENT"@
        }),
{
    let dtstamp = dtstamp_text(calendar, readings.updated_at);
    let lines = calendar_lines(calendar, readings);
    let block = event_lines(calendar, calendar.events[i], readings.events[i], dtstamp);
    let start = lines_before_event(calendar, i);
    let end = lines_before_event(calendar, i + 1);
    lemma_blocks_of_calendar(calendar, readings, i);
    lemma_event_marks(calendar, calendar.events[i], readings.events[i], dtstamp);
    let part = lines.subrange(start, end);
    assert(part == block);
    assert(lines[start] == part[0]);
    assert(lines[start + 1] == part[1]);
    assert(lines[start + 3] == part[3]);
    assert(lines[end - 1] == part[part.len() - 1]);
}

proof fn lemma_all_in_order(calendar: CalendarView, readings: ReadingsView)
    requires
        readings.fit(calendar),
        validate::calendar_defect(calendar, readings) is None,
    ensures
        forall|j: int|
            0 <= j < readings.events.len() ==> validate::in_order(#[trigger] readings.events[j]),
{
    validate::events_are_valid_one_by_one(
        calendar.default_alarm_minutes,
        calendar.events,
        readings.events,
    );
    assert forall|j: int| 0 <= j < readings.events.len() implies validate::in_order(
        #[trigger] readings.events[j],
    ) by {
        assert(validate::event_defect(
            calendar.default_alarm_minutes,
            calendar.events[j],
            readings.events[j],
        ) is None);
    }
}

/// The lines of a calendar before its events, and the whole number of lines.
pub proof fn lines_of_a_calendar(calendar: CalendarView, readings: ReadingsView)
    requires
        readings.fit(calendar),
        validate::calendar_defect(calendar, readings) is None,
    ensures
        ({
            let lines = calendar_lines(calendar, readings);
            &&& lines.len() == lines_before_event(calendar, calendar.events.len() as int) + 1
            &&& lines[0] == "BEGIN:VCALENDAR"@
            &&& lines[1] == "VERSION:2.0"@
            &&& lines[2] == "PRODID:-//exam-calendar//exam-calendar 0.1//EN"@
            &&& lines[3] == "CALSCALE:GREGORIAN"@
            &&& lines[4] == "METHOD:PUBLISH"@
            &&& lines[5] == "X-WR-CALNAME:"@ + fold::escaped(calendar.title)
            &&& lines[6] == "X-WR-TIMEZONE:"@ + fold::escaped(calendar.timezone)
            &&& lines[7] == "X-EXAM-REGION:"@ + fold::escaped(calendar.region)
            &&& lines[8] == "X-EXAM-TYPE:"@ + fold::escaped(calendar.exam_type)
            &&& calendar.source matches Some(source) ==> lines[9] == "X-EXAM-SOURCE:"@
                + fold::escaped(source.name) && lines[10] == "X-EXAM-SOURCE-URL:"@
                + fold::escaped(source.url)
            &&& lines.last() == "END:VCALENDAR"@
        }),
{
    lemma_names();
    let n = calendar.events.len() as int;
    let dtstamp = dtstamp_text(calendar, readings.updated_at);
    lemma_all_in_order(calendar, readings);
    if n > 0 {
        lemma_events_blocks(calendar, readings.events, dtstamp, n, 0);
    }
    assert(calendar.events.take(n) =~= calendar.events);
    assert(readings.events.take(n) =~= readings.events);
    let head = calendar_head(calendar);
    let lines = calendar_lines(calendar, readings);
    assert(head.len() == lines_before_event(calendar, 0));
    assert(forall|j: int| 0 <= j < head.len() ==> lines[j] == #[trigger] head[j]);
    assert(lines[0] == head[0] && lines[1] == head[1] && lines[2] == head[2]);
    assert(lines[3] == head[3] && lines[4] == head[4] && lines[5] == head[5]);
    assert(lines[6] == head[6] && lines[7] == head[7] && lines[8] == head[8]);
    if let Some(source) = calendar.source {
        assert(head[9] == calendar_source(calendar.source)[0]);
        assert(head[10] == calendar_source(calendar.source)[1]);
        assert(lines[9] == head[9] && lines[10] == head[10]);
    }
}

/// How often a line stands in a list.
pub open spec fn occurrences(lines: Seq<Seq<char>>, line: Seq<char>) -> int
    decreases lines.len(),
{
    if lines.len() == 0 {
        0
    } else {
        occurrences(lines.drop_last(), line) + one_if(lines.last() == line)
    }
}

proof fn lemma_occurrences_concat(a: Seq<Seq<char>>, b: Seq<Seq<char>>, line: Seq<char>)
    ensures
        occurrences(a + b, line) == occurrences(a, line) + occurrences(b, line),
    decreases b.len(),
{
    if b.len() == 0 {
        assert(a + b =~= a);
    } else {
        lemma_occurrences_concat(a, b.drop_last(), line);
        assert((a + b).drop_last() =~= a + b.drop_last());
    }
}

/// No line of a list begins an event.
spec fn none_begins(lines: Seq<Seq<char>>) -> bool {
    forall|i: int| 0 <= i < lines.len() ==> (#[trigger] lines[i]).len() > 0 && (lines[i][0] != 'B'
        || (lines[i].len() > 7 && lines[i][7] != 'E'))
}

proof fn lemma_none_begins(lines: Seq<Seq<char>>)
    requires
        none_begins(lines),
    ensures
        occurrences(lines, "BEGIN:VEVENT"@) == 0,
    decreases lines.len(),
{
    reveal_strlit("BEGIN:VEVENT");
    if lines.len() > 0 {
        let rest = lines.drop_last();
        assert forall|i: int| 0 <= i < rest.len() implies (#[trigger] rest[i]).len() > 0 && (
        rest[i][0] != 'B' || (rest[i].len() > 7 && rest[i][7] != 'E')) by {
            assert(rest[i] == lines[i]);
        }
        lemma_none_begins(rest);
        assert(lines.last() == lines[lines.len() - 1]);
        assert("BEGIN:VEVENT"@[0] == 'B' && "BEGIN:VEVENT"@[7] == 'E');
    }
}

proof fn lemma_alarms_begin_no_event(title: Seq<char>, minutes: Seq<i64>)
    ensures
        none_begins(alarms_lines(title, minutes)),
    decreases minutes.len(),
{
    reveal_strlit("BEGIN:VALARM");
    reveal_strlit("ACTION");
    reveal_strlit("DESCRIPTION");
    reveal_strlit("TRIGGER");
    reveal_strlit("END:VALARM");
    if minutes.len() > 0 {
        lemma_alarms_begin_no_event(title, minutes.drop_last());
        let before = alarms_lines(title, minutes.drop_last());
        let last = alarm_lines(title, minutes.last());
        assert(none_begins(last));
        assert forall|i: int| 0 <= i < (before + last).len() implies (
        #[trigger] (before + last)[i]).len() > 0 && ((before + last)[i][0] != 'B' || ((before
            + last)[i].len() > 7 && (before + last)[i][7] != 'E')) by {
            if i < before.len() {
                assert((before + last)[i] == before[i]);
            } else {
                assert((before + last)[i] == last[i - before.len()]);
            }
        }
    }
}

proof fn lemma_one_begin(
    calendar: CalendarView,
    event: EventView,
    reading: EventReading,
    dtstamp: Seq<char>,
)
    ensures
        occurrences(event_lines(calendar, event, reading, dtstamp), "BEGIN:VEVENT"@) == 1,
{
    let begin = "BEGIN:VEVENT"@;
    reveal_strlit("UID");
    reveal_strlit("DTSTAMP");
    reveal_strlit("SUMMARY");
    reveal_strlit("DTSTART;VALUE=DATE");
    reveal_strlit("DTEND;VALUE=DATE");
    reveal_strlit("DTSTART;TZID=");
    reveal_strlit("DTEND;TZID=");
    reveal_strlit("DESCRIPTION");
    reveal_strlit("LOCATION");
    reveal_strlit("URL");
    reveal_strlit("X-EXAM-SOURCE");
    reveal_strlit("X-EXAM-SOURCE-URL");
    reveal_strlit("STATUS");
    reveal_strlit("END:VEVENT");
    let alarms = event.alarms(calendar.default_alarm_minutes);
    let first = seq![begin];
    let head = seq![
        raw_line("UID"@, uid(calendar, event)),
        raw_line("DTSTAMP"@, dtstamp),
        text_line("SUMMARY"@, event.title),
    ];
    let span = span_lines(calendar.timezone, reading);
    let a = optional_text_line("DESCRIPTION"@, event.description);
    let b = optional_text_line("LOCATION"@, event.location);
    let c = optional_raw_line("URL"@, event.url);
    let d = event_source(event.source);
    let e = optional_raw_line("STATUS"@, status_text(event));
    let tail = alarms_lines(event.title, alarms);
    let end = seq!["END:VEVENT"@];
    assert(first.drop_last() =~= Seq::<Seq<char>>::empty());
    assert(occurrences(Seq::<Seq<char>>::empty(), begin) == 0);
    assert(occurrences(first, begin) == 1);
    assert(none_begins(head));
    assert(none_begins(span));
    assert(none_begins(a));
    assert(none_begins(b));
    assert(none_begins(c));
    assert(none_begins(d));
    assert(none_begins(e));
    assert(none_begins(end));
    lemma_alarms_begin_no_event(event.title, alarms);
    lemma_none_begins(head);
    lemma_none_begins(span);
    lemma_none_begins(a);
    lemma_none_begins(b);
    lemma_none_begins(c);
    lemma_none_begins(d);
    lemma_none_begins(e);
    lemma_none_begins(tail);
    lemma_none_begins(end);
    assert(event_head(calendar, event, dtstamp) =~= first + head);
    lemma_occurrences_concat(first, head, begin);
    lemma_occurrences_concat(first + head, span, begin);
    lemma_occurrences_concat(a, b, begin);
    lemma_occurrences_concat(a + b, c, begin);
    lemma_occurrences_concat(a + b + c, d, begin);
    lemma_occurrences_concat(a + b + c + d, e, begin);
    lemma_occurrences_concat(first + head + span, event_details(event), begin);
    lemma_occurrences_concat(first + head + span + event_details(event), tail, begin);
    lemma_occurrences_concat(first + head + span + event_details(event) + tail, end, begin);
}

proof fn lemma_begins_of_events(
    calendar: CalendarView,
    events: Seq<EventView>,
    readings: Seq<EventReading>,
    dtstamp: Seq<char>,
)
    ensures
        occurrences(events_lines(calendar, events, readings, dtstamp), "BEGIN:VEVENT"@)
            == events.len(),
    decreases events.len(),
{
    if events.len() > 0 {
        let before = events_lines(calendar, events.drop_last(), readings.drop_last(), dtstamp);
        let last = event_lines(calendar, events.last(), readings.last(), dtstamp);
        lemma_begins_of_events(calendar, events.drop_last(), readings.drop_last(), dtstamp);
        lemma_one_begin(calendar, events.last(), readings.last(), dtstamp);
        lemma_occurrences_concat(before, last, "BEGIN:VEVENT"@);
    }
}

/// As many lines begin an event as the calendar has events.
pub proof fn as_many_events_begin_as_there_are(calendar: CalendarView, readings: ReadingsView)
    ensures
        occurrences(calendar_lines(calendar, readings), "BEGIN:VEVENT"@)
            == calendar.events.len(),
{
    let dtstamp = dtstamp_text(calendar, readings.updated_at);
    let head = calendar_head(calendar);
    let events = events_lines(calendar, calendar.events, readings.events, dtstamp);
    let end = seq!["END:VCALENDAR"@];
    reveal_strlit("BEGIN:VCALENDAR");
    reveal_strlit("VERSION:2.0");
    reveal_strlit("PRODID:-//exam-calendar//exam-calendar 0.1//EN");
    reveal_strlit("CALSCALE:GREGORIAN");
    reveal_strlit("METHOD:PUBLISH");
    reveal_strlit("X-WR-CALNAME");
    reveal_strlit("X-WR-TIMEZONE");
    reveal_strlit("X-EXAM-REGION");
    reveal_strlit("X-EXAM-TYPE");
    reveal_strlit("X-EXAM-SOURCE");
    reveal_strlit("X-EXAM-SOURCE-URL");
    reveal_strlit("END:VCALENDAR");
    assert(none_begins(head));
    assert(none_begins(end));
    lemma_none_begins(head);
    lemma_none_begins(end);
    lemma_begins_of_events(calendar, calendar.events, readings.events, dtstamp);
    lemma_occurrences_concat(head, events, "BEGIN:VEVENT"@);
    lemma_occurrences_concat(head + events, end, "BEGIN:VEVENT"@);
}

/// The timestamp of the events is the one of the calendar in UTC, or the beginning of 1970.
pub proof fn timestamps_of_events(calendar: CalendarView, moment: Moment)
    ensures
        calendar.updated_at is Some ==> dtstamp_text(calendar, Some(moment))
            == dates::ics_datetime(moment) + "Z"@,
        calendar.updated_at is None ==> dtstamp_text(calendar, None) == "19700101T000000Z"@,
{
}

/// The result of rendering is the text of the calendar's lines where the calendar is valid, and
/// else the complaint about it.
pub proof fn renderings_are_the_lines(
    res: Result<String, String>,
    calendar: CalendarView,
    readings: ReadingsView,
)
    requires
        rendering(res, calendar, readings),
    ensures
        res matches Ok(ics) ==> validate::calendar_defect(calendar, readings) is None && ics@
            == fold::ics_text(calendar_lines(calendar, readings)),
        res matches Err(message) ==> validate::calendar_defect(calendar, readings) == Some(
            message@,
        ),
{
}

/// An event with alarms of its own is rendered the same whatever alarms its calendar has.
pub proof fn own_alarms_replace_the_defaults(
    calendar: CalendarView,
    event: EventView,
    reading: EventReading,
    dtstamp: Seq<char>,
    other_defaults: Seq<i64>,
)
    requires
        event.alarm_minutes is Some,
    ensures
        event_lines(calendar, event, reading, dtstamp) == event_lines(
            CalendarView { default_alarm_minutes: other_defaults, ..calendar },
            event,
            reading,
            dtstamp,
        ),
{
}

/// Events of one calendar with different identifiers are rendered with different identifiers.
pub proof fn event_identifiers_stay_different(
    calendar: CalendarView,
    a: EventView,
    b: EventView,
)
    requires
        a.id != b.id,
    ensures
        uid(calendar, a) != uid(calendar, b),
{
    let head = calendar.id + "."@ + text::decimal(calendar.year) + "."@;
    let tail = "@exam-calendar"@;
    if uid(calendar, a) == uid(calendar, b) {
        let n = head.len() as int;
        assert(uid(calendar, a).len() == n + a.id.len() + tail.len());
        assert(uid(calendar, b).len() == n + b.id.len() + tail.len());
        assert(uid(calendar, a).subrange(n, n + a.id.len()) =~= a.id);
        assert(uid(calendar, b).subrange(n, n + b.id.len()) =~= b.id);
    }
}

/// The lines of an event of a calendar begin at a place: with its identifier and its title.
pub open spec fn stands_at(
    lines: Seq<Seq<char>>,
    place: int,
    calendar: CalendarView,
    event: EventView,
) -> bool {
    let count = event_line_count(event, calendar.default_alarm_minutes);
    &&& 0 <= place && place + count < lines.len()
    &&& lines[place] == "BEGIN:VEVENT"@
    &&& lines[place + 1] == "UID:"@ + calendar.id + "."@ + text::decimal(calendar.year) + "."@
        + event.id + "@exam-calendar"@
    &&& lines[place + 3] == "SUMMARY:"@ + fold::escaped(event.title)
    &&& lines[place + count - 1] == "END:VEVENT"@
}

/// What `render_calendar_read` writes are lines among which every event of the calendar has its
/// own, in the order of the events, and no other event has any.
pub proof fn every_event_stands_in_the_rendering(
    calendar: &CalendarFile,
    readings: &Readings,
    res: Result<String, String>,
)
    requires
        readings@.fit(calendar@),
        call_ensures(render_calendar_read, (calendar, readings), res),
    ensures
        res is Ok <==> validate::calendar_defect(calendar@, readings@) is None,
        res matches Ok(ics) ==> exists|lines: Seq<Seq<char>>|
            #![trigger fold::ics_text(lines)]
            {
                &&& ics@ == fold::ics_text(lines)
                &&& occurrences(lines, "BEGIN:VEVENT"@) == calendar.events@.len()
                &&& lines.len() == lines_before_event(calendar@, calendar.events@.len() as int) + 1
                &&& forall|i: int|
                    0 <= i < calendar.events@.len() ==> stands_at(
                        lines,
                        lines_before_event(calendar@, i),
                        calendar@,
                        (#[trigger] calendar.events@[i])@,
                    )
            },
{
    renderings_are_the_lines(res, calendar@, readings@);
    if validate::calendar_defect(calendar@, readings@) is None {
        let lines = calendar_lines(calendar@, readings@);
        as_many_events_begin_as_there_are(calendar@, readings@);
        lines_of_a_calendar(calendar@, readings@);
        assert(calendar@.events.len() == calendar.events@.len());
        assert forall|i: int| 0 <= i < calendar.events@.len() implies stands_at(
            lines,
            lines_before_event(calendar@, i),
            calendar@,
            (#[trigger] calendar.events@[i])@,
        ) by {
            every_event_is_rendered(calendar@, readings@, i);
            assert(calendar@.events[i] == calendar.events@[i]@);
        }
        assert(res matches Ok(ics) && ics@ == fold::ics_text(lines));
    }
}

} // verus!
