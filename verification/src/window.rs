use vstd::prelude::*;
use crate::calendar::{
    calendar_starts, lemma_calendar_nests, lemma_calendar_starts_truncate, month_start_of,
    quarter_start_of, week_start_of, year_start_of,
};
use crate::error::ReportError;
use crate::text::same_text;

verus! {

pub const MILLIS_PER_SECOND: i64 = 1_000;

pub const MILLIS_PER_MINUTE: i64 = 60_000;

pub const MILLIS_PER_HOUR: i64 = 3_600_000;

pub const MILLIS_PER_DAY: i64 = 86_400_000;

/// The day on which a timestamp falls. Timestamps count milliseconds from the
/// start of 1 January 1970, UTC; that day is day 0.
pub open spec fn day_of(timestamp: int) -> int {
    timestamp / 86_400_000
}

/// The start of the span of `length` milliseconds in which a timestamp lies,
/// the spans being laid out from the start of 1 January 1970.
pub open spec fn span_start(timestamp: int, length: int) -> int {
    timestamp - timestamp % length
}

/// The first millisecond of a day.
pub open spec fn day_start(day: int) -> int {
    day * 86_400_000
}

/// A unit of time by which timestamps are truncated into windows.
#[derive(Clone, Copy, Debug, PartialEq, Eq, Structural)]
pub enum WindowUnit {
    Millisecond,
    Second,
    Minute,
    Hour,
    Day,
    Week,
    Month,
    Quarter,
    Year,
}

impl WindowUnit {
    /// The word by which the store knows the unit.
    pub open spec fn name_spec(&self) -> Seq<char> {
        match self {
            WindowUnit::Millisecond => "millisecond"@,
            WindowUnit::Second => "second"@,
            WindowUnit::Minute => "minute"@,
            WindowUnit::Hour => "hour"@,
            WindowUnit::Day => "day"@,
            WindowUnit::Week => "week"@,
            WindowUnit::Month => "month"@,
            WindowUnit::Quarter => "quarter"@,
            WindowUnit::Year => "year"@,
        }
    }

    /// The word by which the store knows the unit.
    pub fn name(&self) -> (name: &'static str)
        ensures
            name@ == self.name_spec(),
    {
        match self {
            WindowUnit::Millisecond => "millisecond",
            WindowUnit::Second => "second",
            WindowUnit::Minute => "minute",
            WindowUnit::Hour => "hour",
            WindowUnit::Day => "day",
            WindowUnit::Week => "week",
            WindowUnit::Month => "month",
            WindowUnit::Quarter => "quarter",
            WindowUnit::Year => "year",
        }
    }

    /// The first millisecond of the window of this unit in which a timestamp
    /// lies. Windows are one unit wide and lie where the calendar puts them:
    /// a week begins on Sunday, a quarter with January, April, July or October.
    pub open spec fn window_start(&self, timestamp: int) -> int {
        match self {
            WindowUnit::Millisecond => timestamp,
            WindowUnit::Second => span_start(timestamp, 1_000),
            WindowUnit::Minute => span_start(timestamp, 60_000),
            WindowUnit::Hour => span_start(timestamp, 3_600_000),
            WindowUnit::Day => span_start(timestamp, 86_400_000),
            WindowUnit::Week => day_start(week_start_of(day_of(timestamp))),
            WindowUnit::Month => day_start(month_start_of(day_of(timestamp))),
            WindowUnit::Quarter => day_start(quarter_start_of(day_of(timestamp))),
            WindowUnit::Year => day_start(year_start_of(day_of(timestamp))),
        }
    }

    /// The start of the window in which `timestamp` lies, where a timestamp
    /// can hold it: none for the few timestamps so early that their window
    /// begins before the earliest one.
    pub fn truncate(&self, timestamp: i64) -> (start: Option<i64>)
        ensures
            match start {
                Some(s) => s == self.window_start(timestamp as int),
                None => self.window_start(timestamp as int) < i64::MIN,
            },
    {
        match self {
            WindowUnit::Millisecond => Some(timestamp),
            WindowUnit::Second => truncate_to_span(timestamp, MILLIS_PER_SECOND),
            WindowUnit::Minute => truncate_to_span(timestamp, MILLIS_PER_MINUTE),
            WindowUnit::Hour => truncate_to_span(timestamp, MILLIS_PER_HOUR),
            WindowUnit::Day => truncate_to_span(timestamp, MILLIS_PER_DAY),
            _ => {
                let day: i64 = match timestamp.checked_div_euclid(MILLIS_PER_DAY) {
                    Some(quotient) => quotient,
                    None => 0,
                };
                let first: i64 = match self {
                    WindowUnit::Week => {
                        let weekday: i64 = match (day + 4).checked_rem_euclid(7) {
                            Some(remainder) => remainder,
                            None => 0,
                        };
                        day - weekday
                    },
                    WindowUnit::Month => calendar_starts(day).month,
                    WindowUnit::Quarter => calendar_starts(day).quarter,
                    _ => calendar_starts(day).year,
                };
                first.checked_mul(MILLIS_PER_DAY)
            },
        }
    }

    /// Where the unit stands among those whose windows lie inside one
    /// another: from the millisecond up to the day, and on to the year.
    pub open spec fn width(&self) -> int {
        match self {
            WindowUnit::Millisecond => 0,
            WindowUnit::Second => 1,
            WindowUnit::Minute => 2,
            WindowUnit::Hour => 3,
            WindowUnit::Day => 4,
            WindowUnit::Week => 5,
            WindowUnit::Month => 5,
            WindowUnit::Quarter => 6,
            WindowUnit::Year => 7,
        }
    }

    /// The windows of this unit lie inside those of `coarse`: none of them
    /// reaches over the end of one. Weeks hold days and lie in nothing but
    /// weeks, since they run over the ends of months.
    pub open spec fn nests_in(&self, coarse: WindowUnit) -> bool {
        if *self == WindowUnit::Week {
            coarse == WindowUnit::Week
        } else if coarse == WindowUnit::Week {
            self.width() <= 4
        } else {
            self.width() <= coarse.width()
        }
    }

    /// Some unit goes by the word `text`.
    pub open spec fn is_supported(text: Seq<char>) -> bool {
        exists|unit: WindowUnit| unit.name_spec() == text
    }

    /// The unit that goes by the word `text`, letter for letter.
    ///
    /// Any other word is refused: no unit stands in for an unknown one.
    pub fn parse(text: &str) -> (parsed: Result<WindowUnit, ReportError>)
        ensures
            parsed is Ok <==> Self::is_supported(text@),
            parsed matches Ok(unit) ==> unit.name_spec() == text@,
            parsed matches Err(e) ==> e == ReportError::UnsupportedWindowUnit,
    {
        if same_text(text, "millisecond") {
            assert(WindowUnit::Millisecond.name_spec() == text@);
            Ok(WindowUnit::Millisecond)
        } else if same_text(text, "second") {
            assert(WindowUnit::Second.name_spec() == text@);
            Ok(WindowUnit::Second)
        } else if same_text(text, "minute") {
            assert(WindowUnit::Minute.name_spec() == text@);
            Ok(WindowUnit::Minute)
        } else if same_text(text, "hour") {
            assert(WindowUnit::Hour.name_spec() == text@);
            Ok(WindowUnit::Hour)
        } else if same_text(text, "day") {
            assert(WindowUnit::Day.name_spec() == text@);
            Ok(WindowUnit::Day)
        } else if same_text(text, "week") {
            assert(WindowUnit::Week.name_spec() == text@);
            Ok(WindowUnit::Week)
        } else if same_text(text, "month") {
            assert(WindowUnit::Month.name_spec() == text@);
            Ok(WindowUnit::Month)
        } else if same_text(text, "quarter") {
            assert(WindowUnit::Quarter.name_spec() == text@);
            Ok(WindowUnit::Quarter)
        } else if same_text(text, "year") {
            assert(WindowUnit::Year.name_spec() == text@);
            Ok(WindowUnit::Year)
        } else {
            assert forall|unit: WindowUnit| unit.name_spec() != text@ by {
                match unit {
                    WindowUnit::Millisecond => {},
                    WindowUnit::Second => {},
                    WindowUnit::Minute => {},
                    WindowUnit::Hour => {},
                    WindowUnit::Day => {},
                    WindowUnit::Week => {},
                    WindowUnit::Month => {},
                    WindowUnit::Quarter => {},
                    WindowUnit::Year => {},
                }
            }
            Err(ReportError::UnsupportedWindowUnit)
        }
    }
}

fn truncate_to_span(timestamp: i64, length: i64) -> (start: Option<i64>)
    requires
        0 < length,
    ensures
        match start {
            Some(s) => s == span_start(timestamp as int, length as int),
            None => span_start(timestamp as int, length as int) < i64::MIN,
        },
{
    match timestamp.checked_rem_euclid(length) {
        Some(into) => timestamp.checked_sub(into),
        None => None,
    }
}

/// No two units go by the same word.
pub proof fn lemma_unit_names_differ(first: WindowUnit, second: WindowUnit)
    requires
        first != second,
    ensures
        first.name_spec() != second.name_spec(),
{
    reveal_strlit("millisecond");
    reveal_strlit("second");
    reveal_strlit("minute");
    reveal_strlit("hour");
    reveal_strlit("day");
    reveal_strlit("week");
    reveal_strlit("month");
    reveal_strlit("quarter");
    reveal_strlit("year");
    let a = first.name_spec();
    let b = second.name_spec();
    if a.len() == b.len() {
        assert(a[0] != b[0]);
    }
}

/// Timestamps in one second are in one minute, those in one minute in one
/// hour, those in one hour on one day.
#[verifier::rlimit(40)]
pub proof fn lemma_spans_nest(a: int, b: int)
    ensures
        span_start(a, 1_000) == span_start(b, 1_000) ==> span_start(a, 60_000) == span_start(
            b,
            60_000,
        ),
        span_start(a, 60_000) == span_start(b, 60_000) ==> span_start(a, 3_600_000) == span_start(
            b,
            3_600_000,
        ),
        span_start(a, 3_600_000) == span_start(b, 3_600_000) ==> span_start(a, 86_400_000)
            == span_start(b, 86_400_000),
        span_start(a, 86_400_000) == span_start(b, 86_400_000) ==> day_of(a) == day_of(b),
{
}

/// Two timestamps in one window of a unit are in one window of every unit
/// in whose windows the windows of the first lie.
#[verifier::rlimit(40)]
pub proof fn lemma_windows_nest(fine: WindowUnit, coarse: WindowUnit, a: int, b: int)
    requires
        fine.nests_in(coarse),
        fine.window_start(a) == fine.window_start(b),
    ensures
        coarse.window_start(a) == coarse.window_start(b),
{
    lemma_spans_nest(a, b);
    lemma_calendar_nests(day_of(a), day_of(b));
}

/// The start of a span does not lie behind the timestamp and is its own start.
#[verifier::rlimit(40)]
proof fn lemma_span_start_truncates(timestamp: int)
    ensures
        span_start(timestamp, 1_000) <= timestamp,
        span_start(timestamp, 60_000) <= timestamp,
        span_start(timestamp, 3_600_000) <= timestamp,
        span_start(timestamp, 86_400_000) <= timestamp,
        span_start(span_start(timestamp, 1_000), 1_000) == span_start(timestamp, 1_000),
        span_start(span_start(timestamp, 60_000), 60_000) == span_start(timestamp, 60_000),
        span_start(span_start(timestamp, 3_600_000), 3_600_000) == span_start(
            timestamp,
            3_600_000,
        ),
        span_start(span_start(timestamp, 86_400_000), 86_400_000) == span_start(
            timestamp,
            86_400_000,
        ),
{
}

/// A day begins on itself and not behind any of its timestamps.
proof fn lemma_day_start_of_day(day: int, timestamp: int)
    requires
        day <= day_of(timestamp),
    ensures
        day_of(day_start(day)) == day,
        day_start(day) <= timestamp,
{
}

/// The start of a window is a truncation: it does not lie behind the
/// timestamp, and it is its own start.
#[verifier::rlimit(40)]
pub proof fn lemma_window_start_truncates(unit: WindowUnit, timestamp: int)
    ensures
        unit.window_start(timestamp) <= timestamp,
        unit.window_start(unit.window_start(timestamp)) == unit.window_start(timestamp),
{
    let day = day_of(timestamp);
    match unit {
        WindowUnit::Millisecond => {},
        WindowUnit::Second | WindowUnit::Minute | WindowUnit::Hour | WindowUnit::Day => {
            lemma_span_start_truncates(timestamp);
        },
        WindowUnit::Week => {
            lemma_calendar_starts_truncate(day);
            lemma_day_start_of_day(week_start_of(day), timestamp);
        },
        WindowUnit::Month => {
            lemma_calendar_starts_truncate(day);
            lemma_day_start_of_day(month_start_of(day), timestamp);
        },
        WindowUnit::Quarter => {
            lemma_calendar_starts_truncate(day);
            lemma_day_start_of_day(quarter_start_of(day), timestamp);
        },
        WindowUnit::Year => {
            lemma_calendar_starts_truncate(day);
            lemma_day_start_of_day(year_start_of(day), timestamp);
        },
    }
}

} // verus!
