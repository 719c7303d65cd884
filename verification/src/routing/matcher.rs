//! Condition matching for routing rules.

use vstd::prelude::*;
use vstd::string::*;
use chrono::{Datelike, Timelike};
use crate::numeral::{parse_number, parse_unsigned};
use crate::routing::{
    CallerIdCondition, DateRangeCondition, DayOfWeekCondition, DestinationCondition,
    RouteCondition, TimeCondition,
};
use crate::text::{chars_of, split, split_chars, views};

verus! {

/// A point in time as the routing conditions read it: the local date, the
/// clock of the day, and the day of the week (Monday = 1 ... Sunday = 7).
#[derive(Debug, Clone, Copy, PartialEq, Eq, Structural)]
pub struct Moment {
    pub year: i32,
    pub month: u32,
    pub day: u32,
    pub hour: u32,
    pub minute: u32,
    pub second: u32,
    pub weekday: u32,
}

/// Source of the current time (allows pinning the clock in tests).
pub trait TimeProvider {
    fn now(&self) -> Moment;
}

/// Default time provider using system time, in the local time zone.
#[derive(Debug, Clone)]
pub struct SystemTimeProvider;

/// Whether the fields of a moment are those of a date and a time of day:
/// a month from 1 to 12, a day from 1 to 31, an hour below 24, a minute and
/// a second below 60, and a weekday from 1, Monday, to 7, Sunday.
pub open spec fn is_moment(m: Moment) -> bool {
    &&& 1 <= m.month <= 12
    &&& 1 <= m.day <= 31
    &&& m.hour <= 23
    &&& m.minute <= 59
    &&& m.second <= 59
    &&& 1 <= m.weekday <= 7
}

/// The fields of the system clock as a local time, a `DateTime<Local>`
/// made from `SystemTime::now()`: date, clock and
/// `weekday().number_from_monday()`. Which moment it is cannot be said;
/// the fields are within the ranges that chrono documents for them.
#[verifier::external_body]
fn system_moment() -> (m: Moment)
    ensures
        is_moment(m),
{
    let n: chrono::DateTime<chrono::Local> = std::time::SystemTime::now().into();
    Moment {
        year: n.year(),
        month: n.month(),
        day: n.day(),
        hour: n.hour(),
        minute: n.minute(),
        second: n.second(),
        weekday: n.weekday().number_from_monday(),
    }
}

impl TimeProvider for SystemTimeProvider {
    /// The local date and time of the system clock.
    fn now(&self) -> (m: Moment)
        ensures
            is_moment(m),
    {
        system_moment()
    }
}

// ---------------------------------------------------------------------------
// Outside matchers
// ---------------------------------------------------------------------------

/// Whether `regex::Regex::new` accepts the pattern.
pub uninterp spec fn regex_valid(pattern: Seq<char>) -> bool;

/// Whether the regular expression compiled from `pattern` matches somewhere
/// in `text` (`regex::Regex::is_match`).
pub uninterp spec fn regex_matches(pattern: Seq<char>, text: Seq<char>) -> bool;

/// Compiles `pattern` with `regex::Regex::new` and asks `is_match` of
/// `text`; nothing where the pattern does not compile.
#[verifier::external_body]
fn regex_is_match(pattern: &str, text: &str) -> (r: Option<bool>)
    ensures
        r is Some <==> regex_valid(pattern@),
        r is Some ==> r->0 == regex_matches(pattern@, text@),
{
    match regex::Regex::new(pattern) {
        Ok(re) => Some(re.is_match(text)),
        Err(_) => None,
    }
}

/// The date that `chrono::NaiveDate::parse_from_str` reads from the text
/// under the format `%Y-%m-%d`, as year, month and day; nothing where it
/// rejects the text.
pub uninterp spec fn parsed_date(s: Seq<char>) -> Option<(i32, u32, u32)>;

/// Reads a date with `chrono::NaiveDate::parse_from_str` under the format
/// `%Y-%m-%d`.
#[verifier::external_body]
fn parse_date(s: &str) -> (r: Option<(i32, u32, u32)>)
    ensures
        r == parsed_date(s@),
{
    match chrono::NaiveDate::parse_from_str(s, "%Y-%m-%d") {
        Ok(d) => Some((d.year(), d.month(), d.day())),
        Err(_) => None,
    }
}

// ---------------------------------------------------------------------------
// Clock of the day
// ---------------------------------------------------------------------------

/// The time `HH:MM` as seconds of the day: exactly two parts around one
/// colon, an hour below 24 and a minute below 60.
pub open spec fn time_of_day(s: Seq<char>) -> Option<nat> {
    let p = split(s, ':');
    if p.len() != 2 {
        None
    } else {
        match (parse_unsigned(p[0], 0xffff_ffff), parse_unsigned(p[1], 0xffff_ffff)) {
            (Some(h), Some(m)) => if h < 24 && m < 60 {
                Some(h * 3600 + m * 60)
            } else {
                None
            },
            _ => None,
        }
    }
}

/// The seconds of the day that the clock of `now` shows; midnight where the
/// clock holds no time of day.
pub open spec fn clock_of(now: Moment) -> nat {
    if now.hour < 24 && now.minute < 60 && now.second < 60 {
        (now.hour * 3600 + now.minute * 60 + now.second) as nat
    } else {
        0
    }
}

/// Whether `t` lies in `[start, end]`, a range with `start > end` wrapping
/// at midnight.
pub open spec fn in_time_range(t: nat, start: nat, end: nat) -> bool {
    if start <= end {
        start <= t && t <= end
    } else {
        t >= start || t <= end
    }
}

/// Parse a time string in HH:MM format, as seconds of the day.
pub fn parse_time(time_str: &str) -> (r: Option<u32>)
    ensures
        match r {
            Some(t) => time_of_day(time_str@) == Some(t as nat) && t < 86400,
            None => time_of_day(time_str@) is None,
        },
{
    let v = chars_of(time_str);
    let parts = split_chars(&v, ':');
    if parts.len() != 2 {
        return None;
    }
    assert(views(parts@)[0] == parts@[0]@);
    assert(views(parts@)[1] == parts@[1]@);
    let hour = match parse_number(&parts[0], 0xffff_ffff) {
        Some(h) => h,
        None => {
            return None;
        },
    };
    let minute = match parse_number(&parts[1], 0xffff_ffff) {
        Some(m) => m,
        None => {
            return None;
        },
    };
    if hour < 24 && minute < 60 {
        Some(hour * 3600 + minute * 60)
    } else {
        None
    }
}

// ---------------------------------------------------------------------------
// Conditions
// ---------------------------------------------------------------------------

/// Whether the clock of `now` lies in the range of the condition; false
/// where a bound is no time.
pub open spec fn time_holds(c: TimeCondition, now: Moment) -> bool {
    match (time_of_day(c.start_time@), time_of_day(c.end_time@)) {
        (Some(start), Some(end)) => in_time_range(clock_of(now), start, end),
        _ => false,
    }
}

/// Whether the weekday of `now` is one of the days of the condition.
pub open spec fn day_holds(c: DayOfWeekCondition, now: Moment) -> bool {
    exists|i: int| 0 <= i < c.days@.len() && c.days@[i] as u32 == now.weekday
}

/// Whether date `a` is not after date `b`.
pub open spec fn date_le(a: (i32, u32, u32), b: (i32, u32, u32)) -> bool {
    a.0 < b.0 || (a.0 == b.0 && (a.1 < b.1 || (a.1 == b.1 && a.2 <= b.2)))
}

/// Whether `today` lies in `[start, end]`; false where a bound is no date.
pub open spec fn date_in_range(
    today: (i32, u32, u32),
    start: Option<(i32, u32, u32)>,
    end: Option<(i32, u32, u32)>,
) -> bool {
    match (start, end) {
        (Some(s), Some(e)) => date_le(s, today) && date_le(today, e),
        _ => false,
    }
}

/// Whether the date of `now` lies in the range of the condition.
pub open spec fn date_holds(c: DateRangeCondition, now: Moment) -> bool {
    date_in_range(
        (now.year, now.month, now.day),
        parsed_date(c.start_date@),
        parsed_date(c.end_date@),
    )
}

/// The verdict of a pattern condition: false where the pattern is no
/// regular expression; else whether it matches, reversed under `negate`.
pub open spec fn pattern_verdict(matched: Option<bool>, negate: bool) -> bool {
    match matched {
        None => false,
        Some(m) => m != negate,
    }
}

/// What matching `pattern` against `text` gives.
pub open spec fn match_of(pattern: Seq<char>, text: Seq<char>) -> Option<bool> {
    if regex_valid(pattern) {
        Some(regex_matches(pattern, text))
    } else {
        None
    }
}

/// Whether one condition holds.
pub open spec fn condition_holds(
    c: RouteCondition,
    caller_id: Seq<char>,
    destination: Seq<char>,
    now: Moment,
) -> bool {
    match c {
        RouteCondition::Time(t) => time_holds(t, now),
        RouteCondition::DayOfWeek(d) => day_holds(d, now),
        RouteCondition::DateRange(r) => date_holds(r, now),
        RouteCondition::CallerId(c) => pattern_verdict(match_of(c.pattern@, caller_id), c.negate),
        RouteCondition::Destination(d) => pattern_verdict(
            match_of(d.pattern@, destination),
            d.negate,
        ),
    }
}

/// Whether every condition holds.
pub open spec fn conditions_hold(
    conditions: Seq<RouteCondition>,
    caller_id: Seq<char>,
    destination: Seq<char>,
    now: Moment,
) -> bool {
    forall|i: int|
        0 <= i < conditions.len() ==> condition_holds(
            #[trigger] conditions[i],
            caller_id,
            destination,
            now,
        )
}

/// Whether `pattern` matches `text`; false where the pattern is no regular
/// expression.
pub fn matches_pattern(pattern: &str, text: &str) -> (b: bool)
    ensures
        b == (match_of(pattern@, text@) == Some(true)),
{
    match regex_is_match(pattern, text) {
        Some(m) => m,
        None => false,
    }
}

/// The verdict of a pattern condition from what the matcher gave.
pub fn verdict_of(matched: Option<bool>, negate: bool) -> (b: bool)
    ensures
        b == pattern_verdict(matched, negate),
{
    match matched {
        None => false,
        Some(m) => m != negate,
    }
}

/// Whether `today` lies between the two dates read.
pub fn date_between(
    today: (i32, u32, u32),
    start: Option<(i32, u32, u32)>,
    end: Option<(i32, u32, u32)>,
) -> (b: bool)
    ensures
        b == date_in_range(today, start, end),
{
    match (start, end) {
        (Some(s), Some(e)) => date_not_after(s, today) && date_not_after(today, e),
        _ => false,
    }
}

fn date_not_after(a: (i32, u32, u32), b: (i32, u32, u32)) -> (r: bool)
    ensures
        r == date_le(a, b),
{
    a.0 < b.0 || (a.0 == b.0 && (a.1 < b.1 || (a.1 == b.1 && a.2 <= b.2)))
}

/// Condition matcher for evaluating routing conditions.
pub struct ConditionMatcher<P: TimeProvider> {
    time_provider: P,
}

impl ConditionMatcher<SystemTimeProvider> {
    /// Create a new condition matcher with the system time provider.
    pub fn new() -> Self {
        ConditionMatcher { time_provider: SystemTimeProvider }
    }
}

impl<P: TimeProvider> ConditionMatcher<P> {
    /// Create a condition matcher with a custom time provider.
    pub fn with_time_provider(time_provider: P) -> Self {
        ConditionMatcher { time_provider }
    }

    /// The current time of the provider.
    pub fn now(&self) -> Moment {
        self.time_provider.now()
    }

    /// Check if all conditions match at the time of the provider.
    pub fn matches(&self, conditions: &Vec<RouteCondition>, caller_id: &str, destination: &str) -> (b:
        bool)
        ensures
            exists|now: Moment| b == conditions_hold(conditions@, caller_id@, destination@, now),
    {
        let now = self.time_provider.now();
        all_match(conditions, caller_id, destination, &now)
    }
}

/// Check if all conditions match at `now`.
pub fn all_match(
    conditions: &Vec<RouteCondition>,
    caller_id: &str,
    destination: &str,
    now: &Moment,
) -> (b: bool)
    ensures
        b == conditions_hold(conditions@, caller_id@, destination@, *now),
{
    let mut i: usize = 0;
    while i < conditions.len()
        invariant
            i <= conditions.len(),
            forall|j: int|
                0 <= j < i ==> condition_holds(
                    #[trigger] conditions@[j],
                    caller_id@,
                    destination@,
                    *now,
                ),
        decreases conditions.len() - i,
    {
        if !match_condition(&conditions[i], caller_id, destination, now) {
            return false;
        }
        i += 1;
    }
    true
}

/// Check if a single condition matches at `now`.
pub fn match_condition(
    condition: &RouteCondition,
    caller_id: &str,
    destination: &str,
    now: &Moment,
) -> (b: bool)
    ensures
        b == condition_holds(*condition, caller_id@, destination@, *now),
{
    match condition {
        RouteCondition::Time(tc) => match_time_condition(tc, now),
        RouteCondition::DayOfWeek(dow) => match_day_of_week(dow, now),
        RouteCondition::DateRange(dr) => match_date_range(dr, now),
        RouteCondition::CallerId(cid) => match_caller_id(cid, caller_id),
        RouteCondition::Destination(dest) => match_destination(dest, destination),
    }
}

/// Check if the clock of `now` is within the specified time range.
pub fn match_time_condition(condition: &TimeCondition, now: &Moment) -> (b: bool)
    ensures
        b == time_holds(*condition, *now),
{
    let current: u32 = if now.hour < 24 && now.minute < 60 && now.second < 60 {
        now.hour * 3600 + now.minute * 60 + now.second
    } else {
        0
    };
    let start = match parse_time(condition.start_time.as_str()) {
        Some(t) => t,
        None => {
            return false;
        },
    };
    let end = match parse_time(condition.end_time.as_str()) {
        Some(t) => t,
        None => {
            return false;
        },
    };
    if start <= end {
        current >= start && current <= end
    } else {
        current >= start || current <= end
    }
}

/// Check if the weekday of `now` matches.
pub fn match_day_of_week(condition: &DayOfWeekCondition, now: &Moment) -> (b: bool)
    ensures
        b == day_holds(*condition, *now),
{
    let mut i: usize = 0;
    while i < condition.days.len()
        invariant
            i <= condition.days.len(),
            forall|j: int| 0 <= j < i ==> condition.days@[j] as u32 != now.weekday,
        decreases condition.days.len() - i,
    {
        if condition.days[i] as u32 == now.weekday {
            return true;
        }
        i += 1;
    }
    false
}

/// Check if the date of `now` is within the specified range.
pub fn match_date_range(condition: &DateRangeCondition, now: &Moment) -> (b: bool)
    ensures
        b == date_holds(*condition, *now),
{
    let start = parse_date(condition.start_date.as_str());
    let end = parse_date(condition.end_date.as_str());
    date_between((now.year, now.month, now.day), start, end)
}

/// Check if caller ID matches the pattern.
pub fn match_caller_id(condition: &CallerIdCondition, caller_id: &str) -> (b: bool)
    ensures
        b == pattern_verdict(match_of(condition.pattern@, caller_id@), condition.negate),
{
    verdict_of(regex_is_match(condition.pattern.as_str(), caller_id), condition.negate)
}

/// Check if destination matches the pattern.
pub fn match_destination(condition: &DestinationCondition, destination: &str) -> (b: bool)
    ensures
        b == pattern_verdict(match_of(condition.pattern@, destination@), condition.negate),
{
    verdict_of(regex_is_match(condition.pattern.as_str(), destination), condition.negate)
}

} // verus!
