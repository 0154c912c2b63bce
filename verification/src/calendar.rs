//! Days and the calendar: the proleptic Gregorian calendar in UTC, with days
//! counted from 1 January 1970, which is day 0.

use vstd::prelude::*;
use vstd::arithmetic::div_mod::{lemma_hoist_over_denominator, lemma_mod_multiples_vanish};

verus! {

/// How many leap years lie in the years 1 to `year`, counted backwards for earlier years.
pub open spec fn leap_years_through(year: int) -> int {
    year / 4 - year / 100 + year / 400
}

pub open spec fn is_leap_year(year: int) -> bool {
    year % 4 == 0 && (year % 100 != 0 || year % 400 == 0)
}

pub open spec fn year_length(year: int) -> int {
    if is_leap_year(year) {
        366
    } else {
        365
    }
}

/// The day on which `year` begins.
pub open spec fn year_start(year: int) -> int {
    365 * (year - 1970) + leap_years_through(year - 1) - 477
}

/// The days of `month`, from 1 for January to 12 for December, in a leap year or another.
pub open spec fn month_length(leap: bool, month: int) -> int {
    if month == 2 {
        if leap {
            29
        } else {
            28
        }
    } else if month == 4 || month == 6 || month == 9 || month == 11 {
        30
    } else {
        31
    }
}

/// The days of the year that lie before `month`.
pub open spec fn days_before_month(leap: bool, month: int) -> int
    decreases month,
{
    if month <= 1 {
        0
    } else {
        days_before_month(leap, month - 1) + month_length(leap, month - 1)
    }
}

/// The day on which `month` of `year` begins.
pub open spec fn month_start(year: int, month: int) -> int {
    year_start(year) + days_before_month(is_leap_year(year), month)
}

/// `day` lies in `year`.
pub open spec fn in_year(day: int, year: int) -> bool {
    year_start(year) <= day < year_start(year + 1)
}

/// `day` lies in `month` of `year`.
pub open spec fn in_month(day: int, year: int, month: int) -> bool {
    &&& 1 <= month <= 12
    &&& month_start(year, month) <= day < month_start(year, month) + month_length(
        is_leap_year(year),
        month,
    )
}

/// The year in which `day` lies.
pub open spec fn year_of_day(day: int) -> int {
    choose|year: int| in_year(day, year)
}

/// The month in which `day` lies.
pub open spec fn month_of_day(day: int) -> int {
    choose|month: int| in_month(day, year_of_day(day), month)
}

/// The first month of the quarter of `month`: January, April, July or October.
pub open spec fn quarter_month(month: int) -> int {
    month - (month - 1) % 3
}

/// The day on which the year of `day` begins.
pub open spec fn year_start_of(day: int) -> int {
    year_start(year_of_day(day))
}

/// The day on which the quarter of `day` begins.
pub open spec fn quarter_start_of(day: int) -> int {
    month_start(year_of_day(day), quarter_month(month_of_day(day)))
}

/// The day on which the month of `day` begins.
pub open spec fn month_start_of(day: int) -> int {
    month_start(year_of_day(day), month_of_day(day))
}

/// The Sunday on or before `day`. Day 0 was a Thursday.
pub open spec fn week_start_of(day: int) -> int {
    day - (day + 4) % 7
}

/// A year ends where the next begins.
pub proof fn lemma_year_step(year: int)
    ensures
        year_start(year + 1) == year_start(year) + year_length(year),
{
}

/// Later years begin later, by at least 365 days for each year between.
pub proof fn lemma_years_ascend(early: int, late: int)
    requires
        early <= late,
    ensures
        year_start(early) + 365 * (late - early) <= year_start(late),
    decreases late - early,
{
    if early < late {
        lemma_years_ascend(early, late - 1);
        lemma_year_step(late - 1);
    }
}

/// A day lies in one year only.
pub proof fn lemma_year_of_day(day: int, year: int)
    requires
        in_year(day, year),
    ensures
        year_of_day(day) == year,
{
    let other = year_of_day(day);
    assert(in_year(day, other));
    if other < year {
        lemma_years_ascend(other + 1, year);
    }
    if year < other {
        lemma_years_ascend(year + 1, other);
    }
}

/// The starts of the months of a year, written out.
pub proof fn lemma_month_table(leap: bool)
    ensures
        days_before_month(leap, 1) == 0,
        days_before_month(leap, 2) == 31,
        days_before_month(leap, 3) == 59 + (if leap { 1int } else { 0int }),
        days_before_month(leap, 4) == 90 + (if leap { 1int } else { 0int }),
        days_before_month(leap, 5) == 120 + (if leap { 1int } else { 0int }),
        days_before_month(leap, 6) == 151 + (if leap { 1int } else { 0int }),
        days_before_month(leap, 7) == 181 + (if leap { 1int } else { 0int }),
        days_before_month(leap, 8) == 212 + (if leap { 1int } else { 0int }),
        days_before_month(leap, 9) == 243 + (if leap { 1int } else { 0int }),
        days_before_month(leap, 10) == 273 + (if leap { 1int } else { 0int }),
        days_before_month(leap, 11) == 304 + (if leap { 1int } else { 0int }),
        days_before_month(leap, 12) == 334 + (if leap { 1int } else { 0int }),
        days_before_month(leap, 13) == 365 + (if leap { 1int } else { 0int }),
{
    reveal_with_fuel(days_before_month, 14);
}

/// A day of a year lies in one month only.
#[verifier::rlimit(40)]
pub proof fn lemma_month_of_day(day: int, year: int, month: int)
    requires
        in_year(day, year),
        in_month(day, year, month),
    ensures
        year_of_day(day) == year,
        month_of_day(day) == month,
{
    lemma_year_of_day(day, year);
    lemma_month_table(is_leap_year(year));
    let other = month_of_day(day);
    assert(in_month(day, year, other));
}

/// Every day lies in a year.
pub proof fn lemma_day_has_year(day: int)
    ensures
        in_year(day, year_of_day(day)),
    decreases
            (if day >= 0 {
                day
            } else {
                -day
            }),
{
    if day == 0 {
        assert(in_year(day, 1970));
    } else if day > 0 {
        lemma_day_has_year(day - 1);
        let year = year_of_day(day - 1);
        lemma_year_step(year + 1);
        if day < year_start(year + 1) {
            assert(in_year(day, year));
        } else {
            assert(in_year(day, year + 1));
        }
    } else {
        lemma_day_has_year(day + 1);
        let year = year_of_day(day + 1);
        lemma_year_step(year - 1);
        if day >= year_start(year) {
            assert(in_year(day, year));
        } else {
            assert(in_year(day, year - 1));
        }
    }
}

/// Every day lies in a month of its year.
#[verifier::rlimit(40)]
pub proof fn lemma_day_has_month(day: int)
    ensures
        in_year(day, year_of_day(day)),
        in_month(day, year_of_day(day), month_of_day(day)),
{
    lemma_day_has_year(day);
    let year = year_of_day(day);
    let leap = is_leap_year(year);
    lemma_year_step(year);
    lemma_month_table(leap);
    let into = day - year_start(year);
    let month: int = if into < 31 {
        1
    } else if into < days_before_month(leap, 3) {
        2
    } else if into < days_before_month(leap, 4) {
        3
    } else if into < days_before_month(leap, 5) {
        4
    } else if into < days_before_month(leap, 6) {
        5
    } else if into < days_before_month(leap, 7) {
        6
    } else if into < days_before_month(leap, 8) {
        7
    } else if into < days_before_month(leap, 9) {
        8
    } else if into < days_before_month(leap, 10) {
        9
    } else if into < days_before_month(leap, 11) {
        10
    } else if into < days_before_month(leap, 12) {
        11
    } else {
        12
    };
    assert(in_month(day, year, month));
}

/// The first day of a month lies in that month and in its year.
pub proof fn lemma_month_start_in_month(year: int, month: int)
    requires
        1 <= month <= 12,
    ensures
        in_year(month_start(year, month), year),
        in_month(month_start(year, month), year, month),
{
    lemma_year_step(year);
    lemma_month_table(is_leap_year(year));
}

/// Days of one month lie in one quarter, and days of one quarter in one year.
#[verifier::rlimit(40)]
pub proof fn lemma_calendar_nests(a: int, b: int)
    ensures
        month_start_of(a) == month_start_of(b) ==> quarter_start_of(a) == quarter_start_of(b),
        quarter_start_of(a) == quarter_start_of(b) ==> year_start_of(a) == year_start_of(b),
{
    lemma_day_has_month(a);
    lemma_day_has_month(b);
    let (ya, ma) = (year_of_day(a), month_of_day(a));
    let (yb, mb) = (year_of_day(b), month_of_day(b));
    if month_start_of(a) == month_start_of(b) {
        lemma_month_start_in_month(ya, ma);
        lemma_month_start_in_month(yb, mb);
        lemma_month_of_day(month_start(ya, ma), ya, ma);
        lemma_month_of_day(month_start(yb, mb), yb, mb);
    }
    if quarter_start_of(a) == quarter_start_of(b) {
        lemma_month_start_in_month(ya, quarter_month(ma));
        lemma_month_start_in_month(yb, quarter_month(mb));
        lemma_month_of_day(month_start(ya, quarter_month(ma)), ya, quarter_month(ma));
        lemma_month_of_day(month_start(yb, quarter_month(mb)), yb, quarter_month(mb));
    }
}

/// The starts of the week, the month, the quarter and the year of a day do
/// not lie behind the day, and each is its own start.
#[verifier::rlimit(40)]
pub proof fn lemma_calendar_starts_truncate(day: int)
    ensures
        week_start_of(day) <= day,
        year_start_of(day) <= quarter_start_of(day) <= month_start_of(day) <= day,
        week_start_of(week_start_of(day)) == week_start_of(day),
        month_start_of(month_start_of(day)) == month_start_of(day),
        quarter_start_of(quarter_start_of(day)) == quarter_start_of(day),
        year_start_of(year_start_of(day)) == year_start_of(day),
{
    lemma_day_has_month(day);
    let year = year_of_day(day);
    let month = month_of_day(day);
    let quarter = quarter_month(month);
    lemma_month_table(is_leap_year(year));
    lemma_month_start_in_month(year, month);
    lemma_month_of_day(month_start(year, month), year, month);
    lemma_month_start_in_month(year, quarter);
    lemma_month_of_day(month_start(year, quarter), year, quarter);
    lemma_month_start_in_month(year, 1);
    lemma_month_of_day(month_start(year, 1), year, 1);
}

/// The days on which the year, the quarter and the month of a day begin.
#[derive(Clone, Copy, Debug)]
pub struct CalendarStarts {
    pub year: i64,
    pub quarter: i64,
    pub month: i64,
}

/// The days that a timestamp in milliseconds can fall on.
pub open spec fn is_timestamp_day(day: int) -> bool {
    -106_751_991_168 <= day <= 106_751_991_167
}

fn leap_in_cycle(year: u32) -> (leap: bool)
    ensures
        leap == is_leap_year(year as int),
{
    year % 4 == 0 && (year % 100 != 0 || year % 400 == 0)
}

fn days_in_year(year: u32) -> (days: i64)
    ensures
        days == year_length(year as int),
{
    if leap_in_cycle(year) {
        366
    } else {
        365
    }
}

fn days_in_month(leap: bool, month: u8) -> (days: i64)
    ensures
        days == month_length(leap, month as int),
{
    if month == 2 {
        if leap {
            29
        } else {
            28
        }
    } else if month == 4 || month == 6 || month == 9 || month == 11 {
        30
    } else {
        31
    }
}

/// The calendar repeats every 400 years, which are 146097 days.
#[verifier::rlimit(40)]
pub proof fn lemma_cycle_shift(year: int, cycles: int)
    ensures
        year_start(year + 400 * cycles) == year_start(year) + 146097 * cycles,
        is_leap_year(year + 400 * cycles) == is_leap_year(year),
{
    let before = year - 1;
    assert((before + 400 * cycles) / 4 == before / 4 + 100 * cycles) by {
        lemma_hoist_over_denominator(before, 100 * cycles, 4);
    }
    assert((before + 400 * cycles) / 100 == before / 100 + 4 * cycles) by {
        lemma_hoist_over_denominator(before, 4 * cycles, 100);
    }
    assert((before + 400 * cycles) / 400 == before / 400 + cycles) by {
        lemma_hoist_over_denominator(before, cycles, 400);
    }
    assert((year + 400 * cycles) % 4 == year % 4) by {
        lemma_mod_multiples_vanish(100 * cycles, year, 4);
    }
    assert((year + 400 * cycles) % 100 == year % 100) by {
        lemma_mod_multiples_vanish(4 * cycles, year, 100);
    }
    assert((year + 400 * cycles) % 400 == year % 400) by {
        lemma_mod_multiples_vanish(cycles, year, 400);
    }
}

/// The year of the cycle that begins with the year 2000 in which the day at
/// `offset` from the cycle's start lies, and the day of that year, from 0.
#[verifier::rlimit(40)]
fn place_in_cycle(offset: i64) -> (placed: (u32, i64))
    requires
        0 <= offset < 146097,
    ensures
        0 <= placed.1 < year_length(2000 + placed.0),
        year_start(2000 + placed.0) + placed.1 == 10957 + offset,
{
    let mut year: u32 = 0;
    let mut rest: i64 = offset;
    while rest >= days_in_year(year)
        invariant
            0 <= rest,
            365 * year + rest <= 146096,
            year_start(2000 + year) + rest == 10957 + offset,
        decreases rest,
    {
        proof {
            lemma_year_step(2000 + year);
            lemma_cycle_shift(year as int, 5);
        }
        rest = rest - days_in_year(year);
        year = year + 1;
    }
    proof {
        lemma_cycle_shift(year as int, 5);
    }
    (year, rest)
}

/// The month in which a day of the year lies, the days of the year before that
/// month, and the days of the year before the quarter of that month.
#[verifier::rlimit(40)]
fn place_in_year(leap: bool, day_of_year: i64) -> (placed: (u8, i64, i64))
    requires
        0 <= day_of_year < 365 + (if leap { 1int } else { 0int }),
    ensures
        1 <= placed.0 <= 12,
        placed.1 == days_before_month(leap, placed.0 as int),
        placed.1 <= day_of_year < placed.1 + month_length(leap, placed.0 as int),
        placed.2 == days_before_month(leap, quarter_month(placed.0 as int)),
        0 <= placed.2 <= placed.1,
{
    let mut month: u8 = 1;
    let mut before: i64 = 0;
    let mut quarter: i64 = 0;
    proof {
        lemma_month_table(leap);
    }
    while day_of_year - before >= days_in_month(leap, month)
        invariant
            1 <= month <= 12,
            0 <= before <= day_of_year < 366,
            day_of_year < 365 + (if leap { 1int } else { 0int }),
            before == days_before_month(leap, month as int),
            quarter == days_before_month(leap, quarter_month(month as int)),
        decreases 12 - month,
    {
        proof {
            lemma_month_table(leap);
        }
        before = before + days_in_month(leap, month);
        month = month + 1;
        if month == 4 || month == 7 || month == 10 {
            quarter = before;
        }
    }
    (month, before, quarter)
}

/// The starts of the year, the quarter and the month in which `day` lies.
///
/// The day is placed in its cycle of 400 years, counted from 1 January 2000,
/// then in its year of the cycle, then in its month of the year.
#[verifier::rlimit(40)]
pub fn calendar_starts(day: i64) -> (starts: CalendarStarts)
    requires
        is_timestamp_day(day as int),
    ensures
        starts.year == year_start_of(day as int),
        starts.quarter == quarter_start_of(day as int),
        starts.month == month_start_of(day as int),
        day - 366 < starts.year <= starts.quarter <= starts.month <= day,
{
    let since: i64 = day - 10957;
    let cycle: i64 = match since.checked_div_euclid(146097) {
        Some(quotient) => quotient,
        None => 0,
    };
    let offset: i64 = match since.checked_rem_euclid(146097) {
        Some(remainder) => remainder,
        None => 0,
    };
    let (year_in_cycle, day_of_year) = place_in_cycle(offset);
    let leap = leap_in_cycle(year_in_cycle);
    let ghost year: int = 2000 + year_in_cycle + 400 * cycle;
    proof {
        lemma_cycle_shift(year_in_cycle as int, 5);
        lemma_cycle_shift(2000 + year_in_cycle, cycle as int);
        lemma_cycle_shift(2000 + year_in_cycle + 1, cycle as int);
        lemma_year_step(2000 + year_in_cycle);
        lemma_year_step(year);
        assert(year_start(year) + day_of_year == day);
        assert(is_leap_year(year) == leap);
        lemma_year_of_day(day as int, year);
    }
    let (month, before, quarter) = place_in_year(leap, day_of_year);
    proof {
        lemma_month_of_day(day as int, year, month as int);
    }
    CalendarStarts {
        year: day - day_of_year,
        quarter: day - day_of_year + quarter,
        month: day - day_of_year + before,
    }
}

} // verus!
