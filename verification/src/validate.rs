//! The rules that a calendar has to meet.
//!
//! A rule that is broken is reported by a message; the first one in the order of the rules
//! counts. The texts that hold dates and times are read first, by chrono, into [`Readings`]; the
//! rules are then decided on what was read.

use vstd::prelude::*;

use crate::dates;
use crate::dates::{Date, Moment};
use crate::model::{CalendarFile, CalendarView, Event, EventView};
use crate::text;

verus! {

// ---------------------------------------------------------------------------
// Readings
// ---------------------------------------------------------------------------

/// What was read from the start and from the end of an event: nothing, where a text could not
/// be read.
#[derive(Debug, Clone, Copy, PartialEq, Eq, Structural)]
pub enum EventReading {
    AllDay(Option<Date>, Option<Date>),
    Timed(Option<Moment>, Option<Moment>),
}

/// What was read from the dates and times of a calendar.
#[derive(Debug)]
pub struct Readings {
    pub updated_at: Option<Moment>,
    pub events: Vec<EventReading>,
}

/// The model of [`Readings`].
#[verifier::ext_equal]
pub struct ReadingsView {
    pub updated_at: Option<Moment>,
    pub events: Seq<EventReading>,
}

impl View for Readings {
    type V = ReadingsView;

    open spec fn view(&self) -> ReadingsView {
        ReadingsView { updated_at: self.updated_at, events: self.events@ }
    }
}

impl EventReading {
    /// A reading of the event's kind that holds days and times that exist.
    pub open spec fn fits(self, event: EventView) -> bool {
        match self {
            EventReading::AllDay(start, end) => {
                &&& event.all_day
                &&& start matches Some(date) ==> date.valid()
                &&& end matches Some(date) ==> date.valid()
            },
            EventReading::Timed(start, end) => {
                &&& !event.all_day
                &&& start matches Some(moment) ==> moment.valid()
                &&& end matches Some(moment) ==> moment.valid()
            },
        }
    }

    /// The event gives its start and end in the notation of this reading.
    pub open spec fn written(self, event: EventView) -> bool {
        match self {
            EventReading::AllDay(Some(start), Some(end)) => {
                &&& event.all_day
                &&& dates::plain_date(start) && dates::iso_date(start) == event.start
                &&& dates::plain_date(end) && dates::iso_date(end) == event.end
            },
            EventReading::Timed(Some(start), Some(end)) => {
                &&& !event.all_day
                &&& dates::plain_moment(start) && dates::iso_datetime(start) == event.start
                &&& dates::plain_moment(end) && dates::iso_datetime(end) == event.end
            },
            _ => false,
        }
    }
}

impl ReadingsView {
    /// Readings of a calendar, one for each of its events.
    pub open spec fn fit(self, calendar: CalendarView) -> bool {
        &&& self.updated_at matches Some(moment) ==> moment.valid()
        &&& self.events.len() == calendar.events.len()
        &&& forall|i: int|
            0 <= i < self.events.len() ==> (#[trigger] self.events[i]).fits(calendar.events[i])
    }

    /// The calendar gives all its dates and times in the notation of these readings.
    pub open spec fn written(self, calendar: CalendarView) -> bool {
        &&& match calendar.updated_at {
            Some(text) => self.updated_at matches Some(moment) && dates::plain_moment(moment)
                && dates::iso_datetime(moment).push('Z') == text,
            None => self.updated_at is None,
        }
        &&& self.events.len() == calendar.events.len()
        &&& forall|i: int|
            0 <= i < self.events.len() ==> (#[trigger] self.events[i]).written(calendar.events[i])
    }
}

/// What chrono reads from an event.
pub open spec fn event_reading(event: EventView) -> EventReading {
    if event.all_day {
        EventReading::AllDay(
            dates::parsed_date(event.start, dates::DATE_FORMAT@),
            dates::parsed_date(event.end, dates::DATE_FORMAT@),
        )
    } else {
        EventReading::Timed(
            dates::parsed_datetime(event.start, dates::DATETIME_FORMAT@),
            dates::parsed_datetime(event.end, dates::DATETIME_FORMAT@),
        )
    }
}

/// What chrono reads from a calendar.
pub open spec fn calendar_readings(calendar: CalendarView) -> ReadingsView {
    ReadingsView {
        updated_at: match calendar.updated_at {
            Some(text) => dates::parsed_rfc3339(text),
            None => None,
        },
        events: calendar.events.map_values(|event: EventView| event_reading(event)),
    }
}

/// Reads the start and the end of an event.
pub fn read_event(event: &Event) -> (res: EventReading)
    ensures
        res == event_reading(event@),
        res.fits(event@),
        forall|reading: EventReading| #[trigger] reading.written(event@) ==> res == reading,
{
    if event.all_day {
        EventReading::AllDay(
            dates::chrono_parse_date(&event.start, dates::DATE_FORMAT),
            dates::chrono_parse_date(&event.end, dates::DATE_FORMAT),
        )
    } else {
        EventReading::Timed(
            dates::chrono_parse_datetime(&event.start, dates::DATETIME_FORMAT),
            dates::chrono_parse_datetime(&event.end, dates::DATETIME_FORMAT),
        )
    }
}

/// Reads the dates and times of a calendar.
pub fn read_calendar(calendar: &CalendarFile) -> (res: Readings)
    ensures
        res@ == calendar_readings(calendar@),
        res@.fit(calendar@),
        forall|readings: ReadingsView| #[trigger] readings.written(calendar@) ==> res@ == readings,
{
    let updated_at = match &calendar.updated_at {
        Some(text) => dates::chrono_parse_rfc3339(text),
        None => None,
    };
    let mut events: Vec<EventReading> = Vec::new();
    for i in 0..calendar.events.len()
        invariant
            events@.len() == i,
            calendar@.events.len() == calendar.events@.len(),
            forall|j: int|
                0 <= j < i ==> {
                    &&& #[trigger] events@[j] == event_reading(calendar@.events[j])
                    &&& events@[j].fits(calendar@.events[j])
                    &&& forall|reading: EventReading| #[trigger]
                        reading.written(calendar@.events[j]) ==> events@[j] == reading
                },
    {
        events.push(read_event(&calendar.events[i]));
    }
    let res = Readings { updated_at, events };
    proof {
        assert(res@.events =~= calendar_readings(calendar@).events);
        assert forall|readings: ReadingsView| #[trigger] readings.written(calendar@) implies res@
            == readings by {
            assert forall|j: int| 0 <= j < res@.events.len() implies res@.events[j]
                == readings.events[j] by {
                assert(readings.events[j].written(calendar@.events[j]));
                assert(events@[j] == event_reading(calendar@.events[j]));
            }
            assert(res@.events =~= readings.events);
        }
    }
    res
}

// ---------------------------------------------------------------------------
// Rules
// ---------------------------------------------------------------------------

/// A character that an identifier may hold.
pub open spec fn token_char(c: char) -> bool {
    ||| 'a' <= c <= 'z'
    ||| 'A' <= c <= 'Z'
    ||| '0' <= c <= '9'
    ||| c == '-'
    ||| c == '_'
    ||| c == '.'
}

/// What is wrong with an identifier.
pub open spec fn token_defect(label: Seq<char>, value: Seq<char>) -> Option<Seq<char>> {
    if text::blank(value) {
        Some(label + " is required"@)
    } else if exists|i: int| 0 <= i < value.len() && !token_char(#[trigger] value[i]) {
        Some(label + " can only contain ASCII letters, numbers, '-', '_', '.'"@)
    } else {
        None
    }
}

/// What is wrong with a list of alarms: each has to be positive.
pub open spec fn alarms_defect(minutes: Seq<i64>) -> Option<Seq<char>> {
    if exists|i: int| 0 <= i < minutes.len() && #[trigger] minutes[i] <= 0 {
        Some("alarm minutes must be positive"@)
    } else {
        None
    }
}

/// The complaint about an event that does not end after its start.
pub open spec fn order_error(id: Seq<char>) -> Seq<char> {
    "event "@ + id + " end must be after start"@
}

/// The complaint about a start or an end that could not be read.
pub open spec fn unread_defect(event: EventView, reading: EventReading) -> Option<Seq<char>> {
    match reading {
        EventReading::AllDay(None, _) => Some(dates::date_error(event.start)),
        EventReading::AllDay(_, None) => Some(dates::date_error(event.end)),
        EventReading::Timed(None, _) => Some(dates::datetime_error(event.start)),
        EventReading::Timed(_, None) => Some(dates::datetime_error(event.end)),
        _ => None,
    }
}

/// The end was read and comes after the start.
pub open spec fn in_order(reading: EventReading) -> bool {
    match reading {
        EventReading::AllDay(Some(start), Some(end)) => start.before(end),
        EventReading::Timed(Some(start), Some(end)) => start.before(end),
        _ => false,
    }
}

/// What is wrong with the start and the end of an event.
pub open spec fn span_defect(event: EventView, reading: EventReading) -> Option<Seq<char>> {
    if unread_defect(event, reading) is Some {
        unread_defect(event, reading)
    } else if !in_order(reading) {
        Some(order_error(event.id))
    } else {
        None
    }
}

/// What is wrong with an event of a calendar with the given default alarms.
pub open spec fn event_defect(
    default_alarm_minutes: Seq<i64>,
    event: EventView,
    reading: EventReading,
) -> Option<Seq<char>> {
    if token_defect("event id"@, event.id) is Some {
        token_defect("event id"@, event.id)
    } else if text::blank(event.title) {
        Some("event "@ + event.id + " title is required"@)
    } else if span_defect(event, reading) is Some {
        span_defect(event, reading)
    } else {
        alarms_defect(event.alarms(default_alarm_minutes))
    }
}

/// What is wrong with the first event of a list that is not in order.
pub open spec fn events_defect(
    default_alarm_minutes: Seq<i64>,
    events: Seq<EventView>,
    readings: Seq<EventReading>,
) -> Option<Seq<char>>
    decreases events.len(),
{
    if events.len() == 0 {
        None
    } else if event_defect(default_alarm_minutes, events[0], readings[0]) is Some {
        event_defect(default_alarm_minutes, events[0], readings[0])
    } else {
        events_defect(default_alarm_minutes, events.drop_first(), readings.drop_first())
    }
}

/// What is wrong with the timestamp of a calendar.
pub open spec fn stamp_defect(calendar: CalendarView, read: Option<Moment>) -> Option<Seq<char>> {
    match calendar.updated_at {
        Some(text) => if read is None {
            Some(dates::rfc3339_error(text))
        } else {
            None
        },
        None => None,
    }
}

/// What is wrong with a calendar of whose dates and times these were read.
pub open spec fn calendar_defect(calendar: CalendarView, readings: ReadingsView) -> Option<
    Seq<char>,
> {
    if token_defect("calendar id"@, calendar.id) is Some {
        token_defect("calendar id"@, calendar.id)
    } else if text::blank(calendar.title) {
        Some("calendar title is required"@)
    } else if !(1900 <= calendar.year <= 9999) {
        Some("calendar year must be between 1900 and 9999"@)
    } else if text::blank(calendar.region) {
        Some("calendar region is required"@)
    } else if text::blank(calendar.exam_type) {
        Some("calendar exam_type is required"@)
    } else if text::blank(calendar.timezone) {
        Some("calendar timezone is required"@)
    } else if stamp_defect(calendar, readings.updated_at) is Some {
        stamp_defect(calendar, readings.updated_at)
    } else if alarms_defect(calendar.default_alarm_minutes) is Some {
        alarms_defect(calendar.default_alarm_minutes)
    } else {
        events_defect(calendar.default_alarm_minutes, calendar.events, readings.events)
    }
}

/// What is read of an event are its own start and its own end, both as days where it lasts all day
/// and both as points in time where it does not.
pub proof fn events_are_read_by_their_kind(event: EventView)
    ensures
        event.all_day ==> event_reading(event) == EventReading::AllDay(
            dates::parsed_date(event.start, "%Y-%m-%d"@),
            dates::parsed_date(event.end, "%Y-%m-%d"@),
        ),
        !event.all_day ==> event_reading(event) == EventReading::Timed(
            dates::parsed_datetime(event.start, "%Y-%m-%dT%H:%M:%S"@),
            dates::parsed_datetime(event.end, "%Y-%m-%dT%H:%M:%S"@),
        ),
{
}

/// What is read of a calendar are its timestamp, if it has one, and all of its events in their
/// order.
pub proof fn calendars_are_read_whole(calendar: CalendarView)
    ensures
        calendar.updated_at is None ==> calendar_readings(calendar).updated_at is None,
        calendar.updated_at matches Some(text) ==> calendar_readings(calendar).updated_at
            == dates::parsed_rfc3339(text),
        calendar_readings(calendar).events.len() == calendar.events.len(),
        forall|i: int|
            0 <= i < calendar.events.len() ==> #[trigger] calendar_readings(calendar).events[i]
                == event_reading(calendar.events[i]),
{
}

/// A calendar that chrono can read and that meets all rules.
pub open spec fn valid_calendar(calendar: CalendarView) -> bool {
    calendar_defect(calendar, calendar_readings(calendar)) is None
}

/// The result of a check is the given defect.
pub open spec fn verdict(res: Result<(), String>, defect: Option<Seq<char>>) -> bool {
    match defect {
        Some(message) => res matches Err(found) && found@ == message,
        None => res is Ok,
    }
}

/// A list of events has no defect exactly when none of its events has one.
pub proof fn events_are_valid_one_by_one(
    default_alarm_minutes: Seq<i64>,
    events: Seq<EventView>,
    readings: Seq<EventReading>,
)
    requires
        events.len() == readings.len(),
    ensures
        events_defect(default_alarm_minutes, events, readings) is None <==> forall|i: int|
            0 <= i < events.len() ==> event_defect(
                default_alarm_minutes,
                #[trigger] events[i],
                readings[i],
            ) is None,
    decreases events.len(),
{
    if events.len() > 0 {
        let rest = events.drop_first();
        let rest_readings = readings.drop_first();
        events_are_valid_one_by_one(default_alarm_minutes, rest, rest_readings);
        assert(forall|i: int|
            0 <= i < rest.len() ==> #[trigger] rest[i] == events[i + 1] && rest_readings[i]
                == readings[i + 1]);
        if events_defect(default_alarm_minutes, events, readings) is None {
            assert forall|i: int| 0 <= i < events.len() implies event_defect(
                default_alarm_minutes,
                #[trigger] events[i],
                readings[i],
            ) is None by {
                if i > 0 {
                    assert(rest[i - 1] == events[i]);
                }
            }
        }
        if forall|i: int|
            0 <= i < events.len() ==> event_defect(
                default_alarm_minutes,
                #[trigger] events[i],
                readings[i],
            ) is None {
            assert(events[0] == events[0]);
            assert forall|i: int| 0 <= i < rest.len() implies event_defect(
                default_alarm_minutes,
                #[trigger] rest[i],
                rest_readings[i],
            ) is None by {
                assert(rest[i] == events[i + 1]);
            }
        }
    }
}

/// All alarms of a list are positive.
pub open spec fn positive(minutes: Seq<i64>) -> bool {
    forall|i: int| 0 <= i < minutes.len() ==> #[trigger] minutes[i] > 0
}

/// A text that is not blank and holds no other characters than an identifier may hold.
pub open spec fn token(value: Seq<char>) -> bool {
    &&& !text::blank(value)
    &&& forall|i: int| 0 <= i < value.len() ==> token_char(#[trigger] value[i])
}

/// The rules for an event of which this was read: an identifier, a title, an end after the
/// start, and positive alarms.
pub open spec fn event_rules(
    default_alarm_minutes: Seq<i64>,
    event: EventView,
    reading: EventReading,
) -> bool {
    &&& token(event.id)
    &&& !text::blank(event.title)
    &&& in_order(reading)
    &&& positive(event.alarms(default_alarm_minutes))
}

/// A calendar has no defect exactly when it meets every rule.
pub proof fn valid_calendars_meet_every_rule(calendar: CalendarView, readings: ReadingsView)
    requires
        readings.events.len() == calendar.events.len(),
    ensures
        calendar_defect(calendar, readings) is None <==> {
            &&& token(calendar.id)
            &&& !text::blank(calendar.title)
            &&& 1900 <= calendar.year <= 9999
            &&& !text::blank(calendar.region)
            &&& !text::blank(calendar.exam_type)
            &&& !text::blank(calendar.timezone)
            &&& calendar.updated_at is Some ==> readings.updated_at is Some
            &&& positive(calendar.default_alarm_minutes)
            &&& forall|i: int|
                0 <= i < calendar.events.len() ==> event_rules(
                    calendar.default_alarm_minutes,
                    #[trigger] calendar.events[i],
                    readings.events[i],
                )
        },
{
    let defaults = calendar.default_alarm_minutes;
    events_are_valid_one_by_one(defaults, calendar.events, readings.events);
    assert forall|i: int| 0 <= i < calendar.events.len() implies (event_rules(
        defaults,
        #[trigger] calendar.events[i],
        readings.events[i],
    ) <==> event_defect(defaults, calendar.events[i], readings.events[i]) is None) by {
        lemma_event_rules(defaults, calendar.events[i], readings.events[i]);
    }
}

proof fn lemma_event_rules(
    default_alarm_minutes: Seq<i64>,
    event: EventView,
    reading: EventReading,
)
    ensures
        event_rules(default_alarm_minutes, event, reading) <==> event_defect(
            default_alarm_minutes,
            event,
            reading,
        ) is None,
{
}

/// An identifier is accepted exactly when it is not empty and holds only letters and digits of
/// ASCII, hyphens, underscores and full stops. The complaint about another one says which of the
/// two it is.
pub proof fn identifiers_hold_only_token_characters(label: Seq<char>, value: Seq<char>)
    ensures
        token_defect(label, value) is None <==> value.len() > 0 && forall|i: int|
            0 <= i < value.len() ==> 'a' <= #[trigger] value[i] <= 'z' || 'A' <= value[i] <= 'Z'
                || '0' <= value[i] <= '9' || value[i] == '-' || value[i] == '_' || value[i] == '.',
        text::trimmed(value).len() == 0 ==> token_defect(label, value) == Some(
            label + " is required"@,
        ),
        text::trimmed(value).len() > 0 ==> token_defect(label, value) is None || token_defect(
            label,
            value,
        ) == Some(label + " can only contain ASCII letters, numbers, '-', '_', '.'"@),
{
    text::blank_iff_trimmed_empty(value);
    if token_defect(label, value) is None {
        assert(value.len() > 0);
    }
    if value.len() > 0 && text::blank(value) {
        assert(text::white_space(value[0]));
    }
}

/// Alarms are accepted exactly when all of them are positive.
pub proof fn alarms_are_positive(minutes: Seq<i64>)
    ensures
        alarms_defect(minutes) is None <==> forall|i: int|
            0 <= i < minutes.len() ==> 0 < #[trigger] minutes[i],
        alarms_defect(minutes) is None || alarms_defect(minutes) == Some(
            "alarm minutes must be positive"@,
        ),
{
}

/// A span is accepted exactly when its start and its end were read and fewer days, or less time,
/// went before the start than before the end.
pub proof fn spans_end_after_their_start(event: EventView, reading: EventReading)
    requires
        reading.fits(event),
    ensures
        span_defect(event, reading) is None <==> (match reading {
            EventReading::AllDay(Some(start), Some(end)) => start.number() < end.number(),
            EventReading::Timed(Some(start), Some(end)) => start.seconds() < end.seconds() || (
            start.seconds() == end.seconds() && start.nano < end.nano),
            _ => false,
        }),
        match reading {
            EventReading::AllDay(None, _) => span_defect(event, reading) == Some(
                "invalid date '"@ + event.start + "', expected YYYY-MM-DD"@,
            ),
            EventReading::AllDay(Some(_), None) => span_defect(event, reading) == Some(
                "invalid date '"@ + event.end + "', expected YYYY-MM-DD"@,
            ),
            EventReading::Timed(None, _) => span_defect(event, reading) == Some(
                "invalid datetime '"@ + event.start + "', expected YYYY-MM-DDTHH:MM:SS"@,
            ),
            EventReading::Timed(Some(_), None) => span_defect(event, reading) == Some(
                "invalid datetime '"@ + event.end + "', expected YYYY-MM-DDTHH:MM:SS"@,
            ),
            _ => span_defect(event, reading) is None || span_defect(event, reading) == Some(
                "event "@ + event.id + " end must be after start"@,
            ),
        },
{
    match reading {
        EventReading::AllDay(Some(start), Some(end)) => {
            dates::days_are_ordered_by_their_numbers(start, end);
        },
        EventReading::Timed(Some(start), Some(end)) => {
            dates::moments_are_ordered_by_the_clock(start, end);
        },
        _ => {},
    }
}

/// The complaint about an event is the one of the first of its rules that is broken: its
/// identifier, its title, its span, its alarms, which are its own where it has any and the
/// calendar's otherwise.
pub proof fn complaints_about_an_event(
    default_alarm_minutes: Seq<i64>,
    event: EventView,
    reading: EventReading,
)
    ensures
        ({
            let found = event_defect(default_alarm_minutes, event, reading);
            let id = token_defect("event id"@, event.id);
            let span = span_defect(event, reading);
            let alarms = alarms_defect(
                match event.alarm_minutes {
                    Some(minutes) => minutes,
                    None => default_alarm_minutes,
                },
            );
            let untitled = text::trimmed(event.title).len() == 0;
            &&& id is Some ==> found == id
            &&& id is None && untitled ==> found == Some(
                "event "@ + event.id + " title is required"@,
            )
            &&& id is None && !untitled && span is Some ==> found == span
            &&& id is None && !untitled && span is None ==> found == alarms
        }),
{
    text::blank_iff_trimmed_empty(event.title);
}

/// The complaint about a list of events is the one about the first event that has any.
pub proof fn complaints_about_events(
    default_alarm_minutes: Seq<i64>,
    events: Seq<EventView>,
    readings: Seq<EventReading>,
    k: int,
)
    requires
        events.len() == readings.len(),
        0 <= k < events.len(),
        event_defect(default_alarm_minutes, events[k], readings[k]) is Some,
        forall|i: int|
            0 <= i < k ==> event_defect(
                default_alarm_minutes,
                #[trigger] events[i],
                readings[i],
            ) is None,
    ensures
        events_defect(default_alarm_minutes, events, readings) == event_defect(
            default_alarm_minutes,
            events[k],
            readings[k],
        ),
    decreases k,
{
    if k > 0 {
        let rest = events.drop_first();
        assert(event_defect(default_alarm_minutes, events[0], readings[0]) is None);
        assert forall|i: int| 0 <= i < k - 1 implies event_defect(
            default_alarm_minutes,
            #[trigger] rest[i],
            readings.drop_first()[i],
        ) is None by {
            assert(rest[i] == events[i + 1]);
        }
        complaints_about_events(default_alarm_minutes, rest, readings.drop_first(), k - 1);
    }
}

/// The complaint about a calendar is the one of the first of its rules that is broken: its
/// identifier, title, year, region, type, time zone, timestamp, alarms and events.
pub proof fn complaints_about_a_calendar(calendar: CalendarView, readings: ReadingsView)
    ensures
        ({
            let found = calendar_defect(calendar, readings);
            let id = token_defect("calendar id"@, calendar.id);
            let untitled = text::trimmed(calendar.title).len() == 0;
            let no_year = calendar.year < 1900 || calendar.year > 9999;
            let no_region = text::trimmed(calendar.region).len() == 0;
            let no_type = text::trimmed(calendar.exam_type).len() == 0;
            let no_zone = text::trimmed(calendar.timezone).len() == 0;
            let no_stamp = calendar.updated_at is Some && readings.updated_at is None;
            let alarms = alarms_defect(calendar.default_alarm_minutes);
            let named = id is None && !untitled;
            let placed = named && !no_year && !no_region && !no_type && !no_zone;
            &&& id is Some ==> found == id
            &&& id is None && untitled ==> found == Some("calendar title is required"@)
            &&& named && no_year ==> found == Some(
                "calendar year must be between 1900 and 9999"@,
            )
            &&& named && !no_year && no_region ==> found == Some("calendar region is required"@)
            &&& named && !no_year && !no_region && no_type ==> found == Some(
                "calendar exam_type is required"@,
            )
            &&& named && !no_year && !no_region && !no_type && no_zone ==> found == Some(
                "calendar timezone is required"@,
            )
            &&& placed && no_stamp ==> found == Some(
                "invalid updated_at '"@ + calendar.updated_at->0 + "', expected RFC3339"@,
            )
            &&& placed && !no_stamp && alarms is Some ==> found == alarms
            &&& placed && !no_stamp && alarms is None ==> found == events_defect(
                calendar.default_alarm_minutes,
                calendar.events,
                readings.events,
            )
        }),
{
    text::blank_iff_trimmed_empty(calendar.title);
    text::blank_iff_trimmed_empty(calendar.region);
    text::blank_iff_trimmed_empty(calendar.exam_type);
    text::blank_iff_trimmed_empty(calendar.timezone);
}

/// Every event of a valid calendar has a title, ends after its start and has positive alarms.
pub proof fn events_of_valid_calendars(calendar: CalendarView, readings: ReadingsView, i: int)
    requires
        readings.fit(calendar),
        calendar_defect(calendar, readings) is None,
        0 <= i < calendar.events.len(),
    ensures
        ({
            let event = calendar.events[i];
            let alarms = match event.alarm_minutes {
                Some(minutes) => minutes,
                None => calendar.default_alarm_minutes,
            };
            &&& event.id.len() > 0
            &&& text::trimmed(event.title).len() > 0
            &&& match readings.events[i] {
                EventReading::AllDay(Some(start), Some(end)) => event.all_day && start.number()
                    < end.number(),
                EventReading::Timed(Some(start), Some(end)) => !event.all_day && (start.seconds()
                    < end.seconds() || (start.seconds() == end.seconds() && start.nano
                    < end.nano)),
                _ => false,
            }
            &&& forall|k: int| 0 <= k < alarms.len() ==> 0 < #[trigger] alarms[k]
        }),
{
    let defaults = calendar.default_alarm_minutes;
    let event = calendar.events[i];
    let reading = readings.events[i];
    events_are_valid_one_by_one(defaults, calendar.events, readings.events);
    assert(event_defect(defaults, event, reading) is None);
    assert(reading.fits(event));
    complaints_about_an_event(defaults, event, reading);
    spans_end_after_their_start(event, reading);
    identifiers_hold_only_token_characters("event id"@, event.id);
    alarms_are_positive(event.alarms(defaults));
}

/// A verdict is success where there is no defect, and else the defect's text.
pub proof fn verdicts_tell_the_defect(res: Result<(), String>, defect: Option<Seq<char>>)
    ensures
        verdict(res, defect) <==> (match res {
            Ok(_) => defect is None,
            Err(message) => defect == Some(message@),
        }),
{
}

// ---------------------------------------------------------------------------
// Checks
// ---------------------------------------------------------------------------

fn is_token_char(c: char) -> (res: bool)
    ensures
        res == token_char(c),
{
    ('a' <= c && c <= 'z') || ('A' <= c && c <= 'Z') || ('0' <= c && c <= '9') || c == '-' || c
        == '_' || c == '.'
}

/// Checks an identifier, named by a label in the complaint.
pub fn require_token(label: &str, value: &str) -> (res: Result<(), String>)
    ensures
        verdict(res, token_defect(label@, value@)),
{
    if text::is_blank(value) {
        return Err(label.to_string().concat(" is required"));
    }
    for c in iter: value.chars()
        invariant
            iter.seq() == value@,
            !text::blank(value@),
            forall|i: int| 0 <= i < iter.index() ==> token_char(#[trigger] value@[i]),
    {
        if !is_token_char(c) {
            proof {
                assert(!token_char(value@[iter.index() as int]));
            }
            return Err(
                label.to_string().concat(
                    " can only contain ASCII letters, numbers, '-', '_', '.'",
                ),
            );
        }
    }
    Ok(())
}

/// Checks an alarm.
pub fn validate_alarm(minutes: i64) -> (res: Result<(), String>)
    ensures
        verdict(
            res,
            if minutes <= 0 {
                Some("alarm minutes must be positive"@)
            } else {
                None
            },
        ),
{
    if minutes <= 0 {
        return Err("alarm minutes must be positive".to_string());
    }
    Ok(())
}

fn validate_alarms(minutes: &Vec<i64>) -> (res: Result<(), String>)
    ensures
        verdict(res, alarms_defect(minutes@)),
{
    for i in 0..minutes.len()
        invariant
            forall|j: int| 0 <= j < i ==> #[trigger] minutes@[j] > 0,
    {
        match validate_alarm(minutes[i]) {
            Ok(()) => {},
            Err(message) => {
                proof {
                    assert(minutes@[i as int] <= 0);
                }
                return Err(message);
            },
        }
    }
    Ok(())
}

fn order_complaint(id: &str) -> (res: String)
    ensures
        res@ == order_error(id@),
{
    "event ".to_string().concat(id).concat(" end must be after start")
}

/// Checks the start and the end of an event of which this was read.
pub fn validate_span(event: &Event, reading: &EventReading) -> (res: Result<(), String>)
    ensures
        verdict(res, span_defect(event@, *reading)),
{
    match *reading {
        EventReading::AllDay(start, end) => {
            let start = match dates::date_or_error(&event.start, start) {
                Ok(date) => date,
                Err(message) => return Err(message),
            };
            let end = match dates::date_or_error(&event.end, end) {
                Ok(date) => date,
                Err(message) => return Err(message),
            };
            if !start.is_before(&end) {
                return Err(order_complaint(&event.id));
            }
        },
        EventReading::Timed(start, end) => {
            let start = match dates::datetime_or_error(&event.start, start) {
                Ok(moment) => moment,
                Err(message) => return Err(message),
            };
            let end = match dates::datetime_or_error(&event.end, end) {
                Ok(moment) => moment,
                Err(message) => return Err(message),
            };
            if !start.is_before(&end) {
                return Err(order_complaint(&event.id));
            }
        },
    }
    Ok(())
}

/// Checks an event of a calendar of which this was read.
pub fn validate_event_read(
    calendar: &CalendarFile,
    event: &Event,
    reading: &EventReading,
) -> (res: Result<(), String>)
    ensures
        verdict(res, event_defect(calendar@.default_alarm_minutes, event@, *reading)),
{
    match require_token("event id", &event.id) {
        Ok(()) => {},
        Err(message) => return Err(message),
    }
    if text::is_blank(&event.title) {
        return Err("event ".to_string().concat(&event.id).concat(" title is required"));
    }
    match validate_span(event, reading) {
        Ok(()) => {},
        Err(message) => return Err(message),
    }
    match &event.alarm_minutes {
        Some(minutes) => validate_alarms(minutes),
        None => validate_alarms(&calendar.default_alarm_minutes),
    }
}

/// Checks an event of a calendar.
pub fn validate_event(calendar: &CalendarFile, event: &Event) -> (res: Result<(), String>)
    ensures
        verdict(
            res,
            event_defect(calendar@.default_alarm_minutes, event@, event_reading(event@)),
        ),
        forall|reading: EventReading| #[trigger]
            reading.written(event@) ==> verdict(
                res,
                event_defect(calendar@.default_alarm_minutes, event@, reading),
            ),
{
    validate_event_read(calendar, event, &read_event(event))
}

/// Checks a calendar of whose dates and times these were read.
pub fn validate_calendar_read(calendar: &CalendarFile, readings: &Readings) -> (res: Result<
    (),
    String,
>)
    requires
        readings@.events.len() == calendar@.events.len(),
    ensures
        verdict(res, calendar_defect(calendar@, readings@)),
{
    match require_token("calendar id", &calendar.id) {
        Ok(()) => {},
        Err(message) => return Err(message),
    }
    if text::is_blank(&calendar.title) {
        return Err("calendar title is required".to_string());
    }
    if !(1900 <= calendar.year && calendar.year <= 9999) {
        return Err("calendar year must be between 1900 and 9999".to_string());
    }
    if text::is_blank(&calendar.region) {
        return Err("calendar region is required".to_string());
    }
    if text::is_blank(&calendar.exam_type) {
        return Err("calendar exam_type is required".to_string());
    }
    if text::is_blank(&calendar.timezone) {
        return Err("calendar timezone is required".to_string());
    }
    match &calendar.updated_at {
        Some(updated_at) => match dates::rfc3339_or_error(updated_at, readings.updated_at) {
            Ok(_) => {},
            Err(message) => return Err(message),
        },
        None => {},
    }
    match validate_alarms(&calendar.default_alarm_minutes) {
        Ok(()) => {},
        Err(message) => return Err(message),
    }
    let ghost defaults = calendar@.default_alarm_minutes;
    proof {
        assert(calendar@.events.skip(0) =~= calendar@.events);
        assert(readings@.events.skip(0) =~= readings@.events);
    }
    for i in 0..calendar.events.len()
        invariant
            readings@.events.len() == calendar@.events.len(),
            calendar@.events.len() == calendar.events@.len(),
            defaults == calendar@.default_alarm_minutes,
            calendar_defect(calendar@, readings@) == events_defect(
                defaults,
                calendar@.events,
                readings@.events,
            ),
            events_defect(defaults, calendar@.events, readings@.events) == events_defect(
                defaults,
                calendar@.events.skip(i as int),
                readings@.events.skip(i as int),
            ),
    {
        proof {
            assert(calendar@.events.skip(i as int).drop_first() =~= calendar@.events.skip(i + 1));
            assert(readings@.events.skip(i as int).drop_first() =~= readings@.events.skip(i + 1));
        }
        match validate_event_read(calendar, &calendar.events[i], &readings.events[i]) {
            Ok(()) => {},
            Err(message) => return Err(message),
        }
    }
    Ok(())
}

/// Checks a calendar.
///
/// The first clause speaks of whatever chrono reads from the calendar's dates and times; the
/// second one of a calendar that gives them all in the documented notation.
pub fn validate_calendar(calendar: &CalendarFile) -> (res: Result<(), String>)
    ensures
        verdict(res, calendar_defect(calendar@, calendar_readings(calendar@))),
        forall|readings: ReadingsView| #[trigger]
            readings.written(calendar@) ==> verdict(res, calendar_defect(calendar@, readings)),
{
    validate_calendar_read(calendar, &read_calendar(calendar))
}

} // verus!
