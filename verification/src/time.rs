//! Points in time and signed spans between them, in whole microseconds.

use crate::text::{to_two_digits, two_digits};
use chrono::{DateTime, Datelike, Local, NaiveDate, NaiveTime, Timelike};
use std::fmt::Write;
use vstd::prelude::*;
use vstd::string::StringExecFns;

verus! {

/// A point in time without a zone: microseconds since 1970-01-01 00:00:00.
#[derive(Clone, Copy, Debug, PartialEq, Eq, Structural)]
pub struct Timestamp {
    pub micros: i64,
}

/// A signed span of time in microseconds.
#[derive(Clone, Copy, Debug, PartialEq, Eq, Structural)]
pub struct Duration {
    pub micros: i128,
}

impl View for Timestamp {
    type V = int;

    open spec fn view(&self) -> int {
        self.micros as int
    }
}

impl View for Duration {
    type V = int;

    open spec fn view(&self) -> int {
        self.micros as int
    }
}

impl Timestamp {
    /// The span from `earlier` to `self`; negative where `self` comes first.
    pub fn signed_duration_since(self, earlier: Timestamp) -> (d: Duration)
        ensures
            d@ == self@ - earlier@,
    {
        let a: i128 = self.micros as i128;
        let b: i128 = earlier.micros as i128;
        Duration { micros: a - b }
    }
}

/// A day of the calendar.
#[derive(Clone, Copy, Debug, PartialEq, Eq, Structural)]
pub struct Date {
    pub year: i32,
    pub month: u32,
    pub day: u32,
}

/// The day that `text` writes in the format `format`, as chrono reads it, and `None`
/// where it writes none.
pub uninterp spec fn date_written(text: Seq<char>, format: Seq<char>) -> Option<Date>;

/// `NaiveDate::parse_from_str` of the crate chrono: the day that `text` writes in the
/// format `format`. The contract only names the result.
#[verifier::external_body]
pub(crate) fn parse_date(text: &str, format: &str) -> (date: Option<Date>)
    ensures
        date == date_written(text@, format@),
{
    match NaiveDate::parse_from_str(text, format) {
        Ok(day) => Some(Date { year: day.year(), month: day.month(), day: day.day() }),
        Err(_) => None,
    }
}

/// The time of day that `text` writes in the format `format`, as chrono reads it, in whole
/// seconds since midnight, and `None` where it writes none.
pub uninterp spec fn clock_written(text: Seq<char>, format: Seq<char>) -> Option<u32>;

/// `NaiveTime::parse_from_str` of the crate chrono: the time of day that `text` writes in
/// the format `format`, in whole seconds since midnight. The contract only names the
/// result.
#[verifier::external_body]
pub(crate) fn parse_clock(text: &str, format: &str) -> (seconds: Option<u32>)
    ensures
        seconds == clock_written(text@, format@),
{
    match NaiveTime::parse_from_str(text, format) {
        Ok(time) => Some(time.num_seconds_from_midnight()),
        Err(_) => None,
    }
}

/// The time `at` as chrono writes it in the format `format`: `None` where the time lies
/// outside of chrono's calendar or the format cannot be written.
pub uninterp spec fn time_written(at: int, format: Seq<char>) -> Option<Seq<char>>;

/// `DateTime::from_timestamp_micros` and `DateTime::format` of the crate chrono: the time
/// `at`, taken without a zone, written in the format `format`. The contract only names the
/// result.
#[verifier::external_body]
pub(crate) fn write_time(at: Timestamp, format: &str) -> (text: Option<String>)
    ensures
        text.deep_view() == time_written(at@, format@),
{
    let mut text = String::new();
    match DateTime::from_timestamp_micros(at.micros) {
        Some(time) => match write!(text, "{}", time.naive_utc().format(format)) {
            Ok(_) => Some(text),
            Err(_) => None,
        },
        None => None,
    }
}

/// `Local::now` of the crate chrono: the time that the clock shows in the local zone, to
/// the microsecond. Nothing is promised of it. The clock is taken to show a time within
/// chrono's calendar.
#[verifier::external_body]
pub(crate) fn local_now() -> (now: Timestamp) {
    Timestamp { micros: Local::now().naive_local().and_utc().timestamp_micros() }
}

/// `Local::now` of the crate chrono: the day that the clock shows in the local zone.
/// Nothing is promised of it. The clock is taken to show a time within chrono's calendar.
#[verifier::external_body]
pub(crate) fn local_today() -> (today: Date) {
    let day = Local::now().naive_local().date();
    Date { year: day.year(), month: day.month(), day: day.day() }
}

/// The quotient of `a` by `b`, rounded towards zero.
pub open spec fn truncated(a: int, b: int) -> int {
    if a >= 0 {
        a / b
    } else {
        -((-a) / b)
    }
}

fn truncate(a: i128, b: i128) -> (q: i128)
    requires
        b > 1,
    ensures
        q == truncated(a as int, b as int),
{
    if a >= 0 {
        a / b
    } else {
        let size: u128 = if a == i128::MIN {
            0x8000_0000_0000_0000_0000_0000_0000_0000
        } else {
            (-a) as u128
        };
        let part: u128 = size / (b as u128);
        assert(part <= size / 2) by (nonlinear_arith)
            requires
                part == size / (b as u128),
                b > 1,
        ;
        -(part as i128)
    }
}

/// The whole seconds of a span of microseconds, rounded towards zero.
pub open spec fn seconds_in(span: int) -> int {
    truncated(span, 1_000_000)
}

/// The whole minutes of a span of microseconds, rounded towards zero.
pub open spec fn minutes_in(span: int) -> int {
    truncated(seconds_in(span), 60)
}

/// The whole hours of a span of microseconds, rounded towards zero.
pub open spec fn hours_in(span: int) -> int {
    truncated(seconds_in(span), 3_600)
}

/// The whole days of a span of microseconds, rounded towards zero.
pub open spec fn days_in(span: int) -> int {
    truncated(seconds_in(span), 86_400)
}

impl Duration {
    /// The whole seconds of the span, rounded towards zero.
    pub fn num_seconds(&self) -> (n: i128)
        ensures
            n == seconds_in(self@),
    {
        truncate(self.micros, 1_000_000)
    }

    /// The whole minutes of the span, rounded towards zero.
    pub fn num_minutes(&self) -> (n: i128)
        ensures
            n == minutes_in(self@),
    {
        truncate(self.num_seconds(), 60)
    }

    /// The whole hours of the span, rounded towards zero.
    pub fn num_hours(&self) -> (n: i128)
        ensures
            n == hours_in(self@),
    {
        truncate(self.num_seconds(), 3_600)
    }

    /// The whole days of the span, rounded towards zero.
    pub fn num_days(&self) -> (n: i128)
        ensures
            n == days_in(self@),
    {
        truncate(self.num_seconds(), 86_400)
    }
}

/// Three numbers as `dd:hh:mm`, each of at least two characters.
pub open spec fn clock(days: int, hours: int, minutes: int) -> Seq<char> {
    two_digits(days) + seq![':'] + two_digits(hours) + seq![':'] + two_digits(minutes)
}

/// A span of microseconds as days, hours of the day and minutes of the hour.
pub open spec fn span_clock(span: int) -> Seq<char> {
    clock(days_in(span), hours_in(span) - 24 * days_in(span), minutes_in(span) - 60 * hours_in(span))
}

/// Three numbers as `dd:hh:mm`, each of at least two characters.
pub fn clock_text(days: i128, hours: i128, minutes: i128) -> (text: String)
    ensures
        text@ == clock(days as int, hours as int, minutes as int),
{
    proof {
        reveal_strlit(":");
        assert(":"@ =~= seq![':']);
    }
    let mut text = to_two_digits(days);
    text.append(":");
    text.append(to_two_digits(hours).as_str());
    text.append(":");
    text.append(to_two_digits(minutes).as_str());
    text
}

/// A span as `dd:hh:mm`: its days, its hours of the day and its minutes of the hour.
pub fn span_text(d: &Duration) -> (text: String)
    ensures
        text@ == span_clock(d@),
{
    let days = d.num_days();
    let hours = d.num_hours();
    let minutes = d.num_minutes();
    clock_text(days, hours - 24 * days, minutes - 60 * hours)
}

} // verus!
