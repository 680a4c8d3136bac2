//! Calendar dates and points in time, read and written by chrono.

use chrono::{Datelike, Timelike};
use vstd::prelude::*;

use crate::text;

verus! {

/// The notation of an all-day event's dates.
pub const DATE_FORMAT: &'static str = "%Y-%m-%d";

/// The notation of a timed event's start and end.
pub const DATETIME_FORMAT: &'static str = "%Y-%m-%dT%H:%M:%S";

/// The iCalendar notation of a date.
pub const ICS_DATE_FORMAT: &'static str = "%Y%m%d";

/// The iCalendar notation of a date and time.
pub const ICS_DATETIME_FORMAT: &'static str = "%Y%m%dT%H%M%S";

/// A day of the proleptic Gregorian calendar.
#[derive(Debug, Clone, Copy, PartialEq, Eq, Structural)]
pub struct Date {
    pub year: i32,
    pub month: u32,
    pub day: u32,
}

/// A point in time to the nanosecond.
///
/// A leap second is second 59 with a thousand million nanoseconds or more.
#[derive(Debug, Clone, Copy, PartialEq, Eq, Structural)]
pub struct Moment {
    pub date: Date,
    pub hour: u32,
    pub minute: u32,
    pub second: u32,
    pub nano: u32,
}

/// Whether a year has a 29th of February.
pub open spec fn leap_year(year: int) -> bool {
    year % 4 == 0 && (year % 100 != 0 || year % 400 == 0)
}

/// The number of days of a month.
pub open spec fn days_in_month(year: int, month: int) -> int {
    if month == 2 {
        if leap_year(year) {
            29
        } else {
            28
        }
    } else if month == 4 || month == 6 || month == 9 || month == 11 {
        30
    } else {
        31
    }
}

impl Date {
    /// A day that exists, in a year that chrono can hold.
    pub open spec fn valid(self) -> bool {
        &&& -262143 <= self.year <= 262142
        &&& 1 <= self.month <= 12
        &&& 1 <= self.day <= days_in_month(self.year as int, self.month as int)
    }

    /// The chronological order of days.
    pub open spec fn before(self, other: Date) -> bool {
        ||| self.year < other.year
        ||| self.year == other.year && self.month < other.month
        ||| self.year == other.year && self.month == other.month && self.day < other.day
    }

    /// Whether this day comes before another one.
    pub fn is_before(&self, other: &Date) -> (res: bool)
        ensures
            res == self.before(*other),
    {
        self.year < other.year || (self.year == other.year && self.month < other.month) || (
        self.year == other.year && self.month == other.month && self.day < other.day)
    }
}

impl Moment {
    /// A time of day that exists, on a day that exists.
    pub open spec fn valid(self) -> bool {
        &&& self.date.valid()
        &&& self.hour < 24
        &&& self.minute < 60
        &&& self.second < 60
        &&& self.nano < 1_000_000_000 || (self.second == 59 && self.nano < 2_000_000_000)
    }

    /// The chronological order of points in time.
    pub open spec fn before(self, other: Moment) -> bool {
        ||| self.date.before(other.date)
        ||| self.date == other.date && self.hour < other.hour
        ||| self.date == other.date && self.hour == other.hour && self.minute < other.minute
        ||| self.date == other.date && self.hour == other.hour && self.minute == other.minute
            && self.second < other.second
        ||| self.date == other.date && self.hour == other.hour && self.minute == other.minute
            && self.second == other.second && self.nano < other.nano
    }

    /// Whether this point in time comes before another one.
    pub fn is_before(&self, other: &Moment) -> (res: bool)
        ensures
            res == self.before(*other),
    {
        if self.date != other.date {
            return self.date.is_before(&other.date);
        }
        if self.hour != other.hour {
            return self.hour < other.hour;
        }
        if self.minute != other.minute {
            return self.minute < other.minute;
        }
        if self.second != other.second {
            return self.second < other.second;
        }
        self.nano < other.nano
    }
}

// ---------------------------------------------------------------------------
// The count of days and seconds
// ---------------------------------------------------------------------------

/// The days before the first day of a year, counted from the first day of the year 1.
pub open spec fn days_before_year(year: int) -> int {
    365 * (year - 1) + (year - 1) / 4 - (year - 1) / 100 + (year - 1) / 400
}

/// The days of a year before the first day of a month.
pub open spec fn days_before_month(year: int, month: int) -> int
    decreases month,
{
    if month <= 1 {
        0
    } else {
        days_before_month(year, month - 1) + days_in_month(year, month - 1)
    }
}

impl Date {
    /// The number of the day, counted from the first day of the year 1.
    pub open spec fn number(self) -> int {
        days_before_year(self.year as int) + days_before_month(
            self.year as int,
            self.month as int,
        ) + self.day
    }
}

impl Moment {
    /// The seconds since the beginning of the year 1, without leap seconds.
    pub open spec fn seconds(self) -> int {
        self.date.number() * 86400 + self.hour * 3600 + self.minute * 60 + self.second
    }
}

proof fn lemma_year_length(year: int)
    ensures
        days_before_month(year, 13) == (if leap_year(year) {
            366int
        } else {
            365int
        }),
        days_before_year(year + 1) == days_before_year(year) + days_before_month(year, 13),
{
    reveal_with_fuel(days_before_month, 14);
}

proof fn lemma_years(a: int, b: int)
    requires
        a < b,
    ensures
        days_before_year(a) + days_before_month(a, 13) <= days_before_year(b),
    decreases b - a,
{
    lemma_year_length(a);
    if a + 1 < b {
        lemma_years(a + 1, b);
        lemma_year_length(a + 1);
    }
}

proof fn lemma_months(year: int, a: int, b: int)
    requires
        1 <= a < b,
    ensures
        days_before_month(year, a) + days_in_month(year, a) <= days_before_month(year, b),
    decreases b - a,
{
    if a + 1 < b {
        lemma_months(year, a, b - 1);
    }
}

/// A year has 365 days, and 366 in a leap year.
pub proof fn years_have_365_or_366_days(year: int)
    ensures
        days_before_year(year + 1) - days_before_year(year) == (if year % 4 == 0 && (year % 100
            != 0 || year % 400 == 0) {
            366int
        } else {
            365int
        }),
        days_before_month(year, 13) == days_before_year(year + 1) - days_before_year(year),
{
    lemma_year_length(year);
}

/// A day comes before another one exactly when fewer days went before it.
pub proof fn days_are_ordered_by_their_numbers(a: Date, b: Date)
    requires
        a.valid(),
        b.valid(),
    ensures
        a.before(b) <==> a.number() < b.number(),
        a == b <==> a.number() == b.number(),
{
    lemma_date_numbers(a, b);
    lemma_date_numbers(b, a);
}

proof fn lemma_date_numbers(a: Date, b: Date)
    requires
        a.valid(),
        b.valid(),
    ensures
        a.before(b) ==> a.number() < b.number(),
        a.before(b) || b.before(a) || a == b,
{
    if a.year < b.year {
        lemma_months(a.year as int, a.month as int, 13);
        lemma_years(a.year as int, b.year as int);
        lemma_month_starts(b.year as int, b.month as int);
    } else if a.year == b.year && a.month < b.month {
        lemma_months(a.year as int, a.month as int, b.month as int);
    }
}

proof fn lemma_month_starts(year: int, month: int)
    ensures
        days_before_month(year, month) >= 0,
    decreases month,
{
    if month > 1 {
        lemma_month_starts(year, month - 1);
    }
}

/// A point in time comes before another one exactly when fewer seconds went before it, or the
/// same number of them and fewer nanoseconds.
pub proof fn moments_are_ordered_by_the_clock(a: Moment, b: Moment)
    requires
        a.valid(),
        b.valid(),
    ensures
        a.before(b) <==> a.seconds() < b.seconds() || (a.seconds() == b.seconds() && a.nano
            < b.nano),
        a == b <==> a.seconds() == b.seconds() && a.nano == b.nano,
{
    days_are_ordered_by_their_numbers(a.date, b.date);
}

/// The order of days and the one of points in time are strict total orders.
pub proof fn chronological_order_is_strict_and_total(a: Moment, b: Moment, c: Moment)
    ensures
        !a.before(a),
        a.before(b) ==> !b.before(a),
        a.before(b) && b.before(c) ==> a.before(c),
        a == b || a.before(b) || b.before(a),
        a.date.before(b.date) ==> !b.date.before(a.date),
        a.date.before(b.date) && b.date.before(c.date) ==> a.date.before(c.date),
        a.date == b.date || a.date.before(b.date) || b.date.before(a.date),
{
}

/// Asked whether one point in time, or one day, comes before another, `is_before` answers what the
/// count of seconds and nanoseconds, or of days, says.
pub proof fn is_before_goes_by_the_clock(a: &Moment, b: &Moment, earlier: bool, day_before: bool)
    requires
        a.valid(),
        b.valid(),
        call_ensures(Moment::is_before, (a, b), earlier),
        call_ensures(Date::is_before, (&a.date, &b.date), day_before),
    ensures
        earlier <==> a.seconds() < b.seconds() || (a.seconds() == b.seconds() && a.nano < b.nano),
        day_before <==> a.date.number() < b.date.number(),
{
    moments_are_ordered_by_the_clock(*a, *b);
    days_are_ordered_by_their_numbers(a.date, b.date);
}

// ---------------------------------------------------------------------------
// Notations
// ---------------------------------------------------------------------------

/// A number below a hundred in two digits.
pub open spec fn two_digits(n: int) -> Seq<char> {
    seq![text::digit(n / 10), text::digit(n % 10)]
}

/// The decimal digits of a number, with zeros in front up to four digits.
pub open spec fn at_least_four_digits(n: nat) -> Seq<char> {
    if n < 10 {
        seq!['0', '0', '0'] + text::digits(n)
    } else if n < 100 {
        seq!['0', '0'] + text::digits(n)
    } else if n < 1000 {
        seq!['0'] + text::digits(n)
    } else {
        text::digits(n)
    }
}

/// A year: four digits from 0 to 9999, otherwise a sign and at least four digits.
pub open spec fn year_text(year: int) -> Seq<char> {
    if year < 0 {
        seq!['-'] + at_least_four_digits((-year) as nat)
    } else if year > 9999 {
        seq!['+'] + at_least_four_digits(year as nat)
    } else {
        at_least_four_digits(year as nat)
    }
}

/// The second to be shown: a leap second is shown as one more than its second.
pub open spec fn shown_second(moment: Moment) -> int {
    moment.second + (if moment.nano >= 1_000_000_000 {
        1int
    } else {
        0int
    })
}

/// The date as iCalendar writes it: `20260607`.
pub open spec fn ics_date(date: Date) -> Seq<char> {
    year_text(date.year as int) + two_digits(date.month as int) + two_digits(date.day as int)
}

/// The date and time as iCalendar writes it: `20260607T090000`.
pub open spec fn ics_datetime(moment: Moment) -> Seq<char> {
    ics_date(moment.date) + seq!['T'] + two_digits(moment.hour as int) + two_digits(
        moment.minute as int,
    ) + two_digits(shown_second(moment))
}

/// The date as an event gives it: `2026-06-07`.
pub open spec fn iso_date(date: Date) -> Seq<char> {
    year_text(date.year as int) + seq!['-'] + two_digits(date.month as int) + seq!['-']
        + two_digits(date.day as int)
}

/// The date and time as an event gives it: `2026-06-07T09:00:00`.
pub open spec fn iso_datetime(moment: Moment) -> Seq<char> {
    iso_date(moment.date) + seq!['T'] + two_digits(moment.hour as int) + seq![':'] + two_digits(
        moment.minute as int,
    ) + seq![':'] + two_digits(shown_second(moment))
}

/// A date whose year has four digits.
pub open spec fn plain_date(date: Date) -> bool {
    date.valid() && 0 <= date.year <= 9999
}

/// A point in time whose year has four digits, on a full second.
pub open spec fn plain_moment(moment: Moment) -> bool {
    moment.valid() && 0 <= moment.date.year <= 9999 && moment.nano == 0
}

proof fn lemma_two_digits(n: int)
    requires
        0 <= n < 100,
    ensures
        text::all_digits(two_digits(n)),
        text::digits_value(two_digits(n)) == n,
{
    reveal_with_fuel(text::digits_value, 3);
    let s = two_digits(n);
    assert(s.drop_last() =~= seq![text::digit(n / 10)]);
    assert(s.drop_last().drop_last() =~= Seq::<char>::empty());
}

proof fn lemma_value_of_two_more(head: Seq<char>, n: int)
    requires
        text::all_digits(head),
        0 <= n < 100,
    ensures
        text::all_digits(head + two_digits(n)),
        text::digits_value(head + two_digits(n)) == 100 * text::digits_value(head) + n,
{
    reveal_with_fuel(text::digits_value, 3);
    let s = head + two_digits(n);
    assert(s.drop_last() =~= head.push(text::digit(n / 10)));
    assert(s.drop_last().drop_last() =~= head);
    assert forall|i: int| 0 <= i < s.len() implies '0' <= #[trigger] s[i] <= '9' by {
        if i < head.len() {
            assert(s[i] == head[i]);
        }
    }
}

proof fn lemma_leading_zeros(zeros: Seq<char>, s: Seq<char>)
    requires
        forall|i: int| 0 <= i < zeros.len() ==> #[trigger] zeros[i] == '0',
        text::all_digits(s),
    ensures
        text::all_digits(zeros + s),
        text::digits_value(zeros + s) == text::digits_value(s),
    decreases s.len() + zeros.len(),
{
    if s.len() > 0 {
        lemma_leading_zeros(zeros, s.drop_last());
        assert((zeros + s).drop_last() =~= zeros + s.drop_last());
        assert forall|i: int| 0 <= i < (zeros + s).len() implies '0' <= #[trigger] (zeros + s)[i]
            <= '9' by {
            if i >= zeros.len() {
                assert((zeros + s)[i] == s[i - zeros.len()]);
            }
        }
    } else {
        assert(zeros + s =~= zeros);
        if zeros.len() > 0 {
            lemma_leading_zeros(zeros.drop_last(), s);
            assert(zeros.drop_last() + s =~= zeros.drop_last());
        }
    }
}

/// A day in a four-digit year is written as the number of its year, month and day, and a point in
/// time as that number and the one of its hour, minute and second.
pub proof fn ics_notation_gives_the_numbers(moment: Moment)
    requires
        moment.valid(),
        0 <= moment.date.year <= 9999,
    ensures
        ({
            let date = moment.date;
            let day = ics_date(date);
            let whole = ics_datetime(moment);
            let time = whole.skip(day.len() as int + 1);
            &&& text::all_digits(day)
            &&& text::digits_value(day) == date.year * 10000 + date.month * 100 + date.day
            &&& whole.take(day.len() as int) == day
            &&& whole[day.len() as int] == 'T'
            &&& time.len() == 6
            &&& text::all_digits(time)
            &&& text::digits_value(time) == moment.hour * 10000 + moment.minute * 100
                + moment.second + (if moment.nano >= 1_000_000_000 {
                1int
            } else {
                0int
            })
        }),
{
    let date = moment.date;
    let year = date.year as nat;
    text::digits_stand_for_the_number(year);
    lemma_leading_zeros(seq!['0', '0', '0'], text::digits(year));
    lemma_leading_zeros(seq!['0', '0'], text::digits(year));
    lemma_leading_zeros(seq!['0'], text::digits(year));
    lemma_value_of_two_more(year_text(date.year as int), date.month as int);
    lemma_value_of_two_more(
        year_text(date.year as int) + two_digits(date.month as int),
        date.day as int,
    );
    let second = shown_second(moment);
    lemma_two_digits(moment.hour as int);
    lemma_value_of_two_more(two_digits(moment.hour as int), moment.minute as int);
    lemma_value_of_two_more(
        two_digits(moment.hour as int) + two_digits(moment.minute as int),
        second,
    );
    let day = ics_date(date);
    let whole = ics_datetime(moment);
    let time = two_digits(moment.hour as int) + two_digits(moment.minute as int) + two_digits(
        second,
    );
    assert(whole.take(day.len() as int) =~= day);
    assert(whole.skip(day.len() as int + 1) =~= time);
}

// ---------------------------------------------------------------------------
// Reading
// ---------------------------------------------------------------------------

/// What `chrono::NaiveDate::parse_from_str` reads from a text in a format: the day, or nothing
/// where it refuses the text.
pub uninterp spec fn parsed_date(value: Seq<char>, format: Seq<char>) -> Option<Date>;

/// What `chrono::NaiveDateTime::parse_from_str` reads from a text in a format: the point in
/// time, or nothing where it refuses the text.
pub uninterp spec fn parsed_datetime(value: Seq<char>, format: Seq<char>) -> Option<Moment>;

/// What `chrono::DateTime::parse_from_rfc3339` reads from a text, in UTC: the point in time, or
/// nothing where it refuses the text.
pub uninterp spec fn parsed_rfc3339(value: Seq<char>) -> Option<Moment>;

/// Calls `chrono::NaiveDate::parse_from_str`. What it reads is a function of the text and the
/// format, and a day that exists. A day with a four-digit year that is written year, month and
/// day with leading zeros is read back.
#[verifier::external_body]
pub(crate) fn chrono_parse_date(value: &str, format: &str) -> (res: Option<Date>)
    requires
        format@ == DATE_FORMAT@,
    ensures
        res == parsed_date(value@, format@),
        res matches Some(date) ==> date.valid(),
        forall|date: Date| #[trigger]
            iso_date(date) == value@ && plain_date(date) ==> res == Some(date),
{
    match chrono::NaiveDate::parse_from_str(value, format) {
        Ok(date) => Some(Date { year: date.year(), month: date.month(), day: date.day() }),
        Err(_) => None,
    }
}

/// Calls `chrono::NaiveDateTime::parse_from_str`. What it reads is a function of the text and
/// the format, and a point in time that exists. A full second in a four-digit year that is
/// written with leading zeros is read back.
#[verifier::external_body]
pub(crate) fn chrono_parse_datetime(value: &str, format: &str) -> (res: Option<Moment>)
    requires
        format@ == DATETIME_FORMAT@,
    ensures
        res == parsed_datetime(value@, format@),
        res matches Some(moment) ==> moment.valid(),
        forall|moment: Moment| #[trigger]
            iso_datetime(moment) == value@ && plain_moment(moment) ==> res == Some(moment),
{
    match chrono::NaiveDateTime::parse_from_str(value, format) {
        Ok(at) => Some(Moment {
            date: Date { year: at.year(), month: at.month(), day: at.day() },
            hour: at.hour(),
            minute: at.minute(),
            second: at.second(),
            nano: at.nanosecond(),
        }),
        Err(_) => None,
    }
}

/// Calls `chrono::DateTime::parse_from_rfc3339`, and `chrono::DateTime::naive_utc` on what it
/// gives. What is read is a function of the text, and a point in time that exists. A full second
/// in a four-digit year that is written in UTC, with a `Z` behind it, is read back.
#[verifier::external_body]
pub(crate) fn chrono_parse_rfc3339(value: &str) -> (res: Option<Moment>)
    ensures
        res == parsed_rfc3339(value@),
        res matches Some(moment) ==> moment.valid(),
        forall|moment: Moment|
            (#[trigger] iso_datetime(moment)).push('Z') == value@ && plain_moment(moment) ==> res
                == Some(moment),
{
    match chrono::DateTime::parse_from_rfc3339(value) {
        Ok(stamp) => {
            let at = stamp.naive_utc();
            Some(Moment {
                date: Date { year: at.year(), month: at.month(), day: at.day() },
                hour: at.hour(),
                minute: at.minute(),
                second: at.second(),
                nano: at.nanosecond(),
            })
        },
        Err(_) => None,
    }
}

/// The complaint about a text that is no date.
pub open spec fn date_error(value: Seq<char>) -> Seq<char> {
    "invalid date '"@ + value + "', expected YYYY-MM-DD"@
}

/// The complaint about a text that is no date and time.
pub open spec fn datetime_error(value: Seq<char>) -> Seq<char> {
    "invalid datetime '"@ + value + "', expected YYYY-MM-DDTHH:MM:SS"@
}

/// The complaint about a text that is no RFC 3339 timestamp.
pub open spec fn rfc3339_error(value: Seq<char>) -> Seq<char> {
    "invalid updated_at '"@ + value + "', expected RFC3339"@
}

/// The date that was read from a text, or the complaint that there was none.
pub fn date_or_error(value: &str, read: Option<Date>) -> (res: Result<Date, String>)
    ensures
        match read {
            Some(date) => res == Ok::<Date, String>(date),
            None => res matches Err(message) && message@ == date_error(value@),
        },
{
    match read {
        Some(date) => Ok(date),
        None => Err("invalid date '".to_string().concat(value).concat("', expected YYYY-MM-DD")),
    }
}

/// The date and time that was read from a text, or the complaint that there was none.
pub fn datetime_or_error(value: &str, read: Option<Moment>) -> (res: Result<Moment, String>)
    ensures
        match read {
            Some(moment) => res == Ok::<Moment, String>(moment),
            None => res matches Err(message) && message@ == datetime_error(value@),
        },
{
    match read {
        Some(moment) => Ok(moment),
        None => Err(
            "invalid datetime '".to_string().concat(value).concat(
                "', expected YYYY-MM-DDTHH:MM:SS",
            ),
        ),
    }
}

/// The timestamp that was read from a text, or the complaint that there was none.
pub fn rfc3339_or_error(value: &str, read: Option<Moment>) -> (res: Result<Moment, String>)
    ensures
        match read {
            Some(moment) => res == Ok::<Moment, String>(moment),
            None => res matches Err(message) && message@ == rfc3339_error(value@),
        },
{
    match read {
        Some(moment) => Ok(moment),
        None => Err("invalid updated_at '".to_string().concat(value).concat("', expected RFC3339")),
    }
}

/// Reads a date.
pub fn parse_date(value: &str) -> (res: Result<Date, String>)
    ensures
        match parsed_date(value@, DATE_FORMAT@) {
            Some(date) => res == Ok::<Date, String>(date) && date.valid(),
            None => res matches Err(message) && message@ == date_error(value@),
        },
        forall|date: Date| #[trigger]
            iso_date(date) == value@ && plain_date(date) ==> res == Ok::<Date, String>(date),
{
    date_or_error(value, chrono_parse_date(value, DATE_FORMAT))
}

/// Reads a date and time.
pub fn parse_datetime(value: &str) -> (res: Result<Moment, String>)
    ensures
        match parsed_datetime(value@, DATETIME_FORMAT@) {
            Some(moment) => res == Ok::<Moment, String>(moment) && moment.valid(),
            None => res matches Err(message) && message@ == datetime_error(value@),
        },
        forall|moment: Moment| #[trigger]
            iso_datetime(moment) == value@ && plain_moment(moment) ==> res == Ok::<Moment, String>(
                moment,
            ),
{
    datetime_or_error(value, chrono_parse_datetime(value, DATETIME_FORMAT))
}

/// Reads an RFC 3339 timestamp, in UTC.
pub fn parse_rfc3339(value: &str) -> (res: Result<Moment, String>)
    ensures
        match parsed_rfc3339(value@) {
            Some(moment) => res == Ok::<Moment, String>(moment) && moment.valid(),
            None => res matches Err(message) && message@ == rfc3339_error(value@),
        },
        forall|moment: Moment|
            (#[trigger] iso_datetime(moment)).push('Z') == value@ && plain_moment(moment) ==> res
                == Ok::<Moment, String>(moment),
{
    rfc3339_or_error(value, chrono_parse_rfc3339(value))
}

// ---------------------------------------------------------------------------
// Writing
// ---------------------------------------------------------------------------

/// Calls `chrono::NaiveDate::format`. For a day that exists, the iCalendar format gives the
/// year, the month and the day.
#[verifier::external_body]
fn chrono_format_date(date: &Date, format: &str) -> (res: String)
    requires
        date.valid(),
        format@ == ICS_DATE_FORMAT@,
    ensures
        res@ == ics_date(*date),
{
    chrono::NaiveDate::from_ymd_opt(date.year, date.month, date.day).unwrap()
        .format(format).to_string()
}

/// Calls `chrono::NaiveDateTime::format`. For a point in time that exists, the iCalendar format
/// gives the date, a `T`, the hour, the minute and the second.
#[verifier::external_body]
fn chrono_format_datetime(moment: &Moment, format: &str) -> (res: String)
    requires
        moment.valid(),
        format@ == ICS_DATETIME_FORMAT@,
    ensures
        res@ == ics_datetime(*moment),
{
    let date = &moment.date;
    chrono::NaiveDate::from_ymd_opt(date.year, date.month, date.day).unwrap()
        .and_hms_nano_opt(moment.hour, moment.minute, moment.second, moment.nano).unwrap()
        .format(format).to_string()
}

/// The date in iCalendar notation.
pub fn ics_date_text(date: &Date) -> (res: String)
    requires
        date.valid(),
    ensures
        res@ == ics_date(*date),
{
    chrono_format_date(date, ICS_DATE_FORMAT)
}

/// The date and time in iCalendar notation.
pub fn ics_datetime_text(moment: &Moment) -> (res: String)
    requires
        moment.valid(),
    ensures
        res@ == ics_datetime(*moment),
{
    chrono_format_datetime(moment, ICS_DATETIME_FORMAT)
}

} // verus!
