use metrics_aggregator::calendar::calendar_starts;
use metrics_aggregator::error::ReportError;
use metrics_aggregator::window::WindowUnit;

const DAY: i64 = 86_400_000;

// 2024-02-29T13:45:10.123Z, a Thursday in a leap year.
const LEAP_DAY_AFTERNOON: i64 = 1_709_214_310_123;

#[test]
fn parse_knows_each_unit() {
    assert_eq!(WindowUnit::parse("millisecond"), Ok(WindowUnit::Millisecond));
    assert_eq!(WindowUnit::parse("second"), Ok(WindowUnit::Second));
    assert_eq!(WindowUnit::parse("minute"), Ok(WindowUnit::Minute));
    assert_eq!(WindowUnit::parse("hour"), Ok(WindowUnit::Hour));
    assert_eq!(WindowUnit::parse("day"), Ok(WindowUnit::Day));
    assert_eq!(WindowUnit::parse("week"), Ok(WindowUnit::Week));
    assert_eq!(WindowUnit::parse("month"), Ok(WindowUnit::Month));
    assert_eq!(WindowUnit::parse("quarter"), Ok(WindowUnit::Quarter));
    assert_eq!(WindowUnit::parse("year"), Ok(WindowUnit::Year));
}

#[test]
fn parse_refuses_other_words() {
    for word in ["", "Hour", "hours", " hour", "decade", "days", "h"] {
        assert_eq!(WindowUnit::parse(word), Err(ReportError::UnsupportedWindowUnit));
    }
}

#[test]
fn name_and_parse_agree() {
    for unit in [
        WindowUnit::Millisecond,
        WindowUnit::Second,
        WindowUnit::Minute,
        WindowUnit::Hour,
        WindowUnit::Day,
        WindowUnit::Week,
        WindowUnit::Month,
        WindowUnit::Quarter,
        WindowUnit::Year,
    ] {
        assert_eq!(WindowUnit::parse(unit.name()), Ok(unit));
    }
}

#[test]
fn truncate_to_fixed_spans() {
    let t = LEAP_DAY_AFTERNOON;
    assert_eq!(WindowUnit::Millisecond.truncate(t), Some(t));
    assert_eq!(WindowUnit::Second.truncate(t), Some(1_709_214_310_000));
    assert_eq!(WindowUnit::Minute.truncate(t), Some(1_709_214_300_000));
    assert_eq!(WindowUnit::Hour.truncate(t), Some(1_709_211_600_000));
    assert_eq!(WindowUnit::Day.truncate(t), Some(1_709_164_800_000));
}

#[test]
fn truncate_to_calendar_spans() {
    let t = LEAP_DAY_AFTERNOON;
    // Sunday 2024-02-25
    assert_eq!(WindowUnit::Week.truncate(t), Some(1_708_819_200_000));
    // 2024-02-01
    assert_eq!(WindowUnit::Month.truncate(t), Some(1_706_745_600_000));
    // 2024-01-01
    assert_eq!(WindowUnit::Quarter.truncate(t), Some(1_704_067_200_000));
    assert_eq!(WindowUnit::Year.truncate(t), Some(1_704_067_200_000));
}

#[test]
fn truncate_in_the_last_quarter() {
    // 2023-11-20T00:00:00Z
    let t = 1_700_438_400_000;
    assert_eq!(WindowUnit::Day.truncate(t), Some(t));
    assert_eq!(WindowUnit::Month.truncate(t), Some(1_698_796_800_000));
    assert_eq!(WindowUnit::Quarter.truncate(t), Some(1_696_118_400_000));
    // 2023-01-01
    assert_eq!(WindowUnit::Year.truncate(t), Some(1_672_531_200_000));
    // Sunday 2023-11-19
    assert_eq!(WindowUnit::Week.truncate(t), Some(1_700_352_000_000));
}

#[test]
fn truncate_is_identity_on_a_window_start() {
    let sunday = 1_708_819_200_000;
    assert_eq!(WindowUnit::Week.truncate(sunday), Some(sunday));
    assert_eq!(WindowUnit::Week.truncate(sunday - 1), Some(sunday - 7 * DAY));
    let new_year = 1_704_067_200_000;
    for unit in [
        WindowUnit::Second,
        WindowUnit::Minute,
        WindowUnit::Hour,
        WindowUnit::Day,
        WindowUnit::Month,
        WindowUnit::Quarter,
        WindowUnit::Year,
    ] {
        assert_eq!(unit.truncate(new_year), Some(new_year));
    }
    // 2023-12-31T23:59:59.999Z
    assert_eq!(WindowUnit::Year.truncate(new_year - 1), Some(1_672_531_200_000));
    assert_eq!(WindowUnit::Quarter.truncate(new_year - 1), Some(1_696_118_400_000));
    // 2023-12-01
    assert_eq!(WindowUnit::Month.truncate(new_year - 1), Some(1_701_388_800_000));
}

#[test]
fn truncate_before_the_epoch_rounds_down() {
    let t = -1;
    assert_eq!(WindowUnit::Second.truncate(t), Some(-1_000));
    assert_eq!(WindowUnit::Minute.truncate(t), Some(-60_000));
    assert_eq!(WindowUnit::Hour.truncate(t), Some(-3_600_000));
    assert_eq!(WindowUnit::Day.truncate(t), Some(-DAY));
    // Sunday 1969-12-28
    assert_eq!(WindowUnit::Week.truncate(t), Some(-4 * DAY));
    // 1969-12-01
    assert_eq!(WindowUnit::Month.truncate(t), Some(-31 * DAY));
    // 1969-10-01
    assert_eq!(WindowUnit::Quarter.truncate(t), Some(-92 * DAY));
    // 1969-01-01
    assert_eq!(WindowUnit::Year.truncate(t), Some(-365 * DAY));
}

#[test]
fn truncate_at_the_epoch() {
    for unit in [
        WindowUnit::Millisecond,
        WindowUnit::Second,
        WindowUnit::Minute,
        WindowUnit::Hour,
        WindowUnit::Day,
        WindowUnit::Month,
        WindowUnit::Quarter,
        WindowUnit::Year,
    ] {
        assert_eq!(unit.truncate(0), Some(0));
    }
    // 1970-01-01 was a Thursday.
    assert_eq!(WindowUnit::Week.truncate(0), Some(-4 * DAY));
}

#[test]
fn century_years_are_leap_only_every_four_hundred() {
    // 1900-03-01T12:00:00Z: February 1900 had 28 days.
    let march_1900 = -25_508 * DAY + DAY / 2;
    assert_eq!(WindowUnit::Month.truncate(march_1900), Some(-25_508 * DAY));
    assert_eq!(WindowUnit::Year.truncate(march_1900), Some(-25_567 * DAY));
    // 1900-02-28T23:00:00Z
    let february_1900 = -25_509 * DAY + 23 * 3_600_000;
    assert_eq!(WindowUnit::Month.truncate(february_1900), Some(-25_536 * DAY));
    // 2000-02-29T00:00:00Z exists: 2000-03-01 is day 11017.
    let leap_day_2000 = 11_016 * DAY;
    assert_eq!(WindowUnit::Month.truncate(leap_day_2000), Some(10_988 * DAY));
    assert_eq!(WindowUnit::Month.truncate(leap_day_2000 + DAY), Some(11_017 * DAY));
    assert_eq!(WindowUnit::Year.truncate(leap_day_2000), Some(10_957 * DAY));
}

#[test]
fn truncate_far_from_the_epoch() {
    assert_eq!(WindowUnit::Millisecond.truncate(i64::MIN), Some(i64::MIN));
    for unit in [
        WindowUnit::Second,
        WindowUnit::Minute,
        WindowUnit::Hour,
        WindowUnit::Day,
        WindowUnit::Week,
        WindowUnit::Month,
        WindowUnit::Quarter,
        WindowUnit::Year,
    ] {
        assert_eq!(unit.truncate(i64::MIN), None);
        let late = unit.truncate(i64::MAX).unwrap();
        assert!(late <= i64::MAX);
        assert_eq!(late.rem_euclid(1_000), 0);
    }
    assert_eq!(
        WindowUnit::Day.truncate(i64::MAX),
        Some(i64::MAX - i64::MAX.rem_euclid(DAY))
    );
    assert_eq!(
        WindowUnit::Second.truncate(i64::MIN + 1_000),
        Some(i64::MIN + 1_000 - (i64::MIN + 1_000).rem_euclid(1_000))
    );
}

#[test]
fn calendar_starts_of_a_day() {
    // 2024-02-29 is day 19782.
    let starts = calendar_starts(19_782);
    assert_eq!(starts.year, 19_723);
    assert_eq!(starts.quarter, 19_723);
    assert_eq!(starts.month, 19_754);
    // 2023-12-31 is day 19722.
    let starts = calendar_starts(19_722);
    assert_eq!(starts.year, 19_358);
    assert_eq!(starts.quarter, 19_631);
    assert_eq!(starts.month, 19_692);
    // 2399-12-31, the last day of the cycle that began with 2000; 2399 is no leap year.
    let starts = calendar_starts(10_957 + 146_097 - 1);
    assert_eq!(starts.year, 10_957 + 146_097 - 365);
    assert_eq!(starts.month, 10_957 + 146_097 - 31);
    assert_eq!(starts.quarter, 10_957 + 146_097 - 92);
}

#[test]
fn calendar_starts_every_month_of_a_year() {
    // 2023 began on day 19358 and was no leap year.
    let lengths = [31, 28, 31, 30, 31, 30, 31, 31, 30, 31, 30, 31];
    let mut first = 19_358;
    let mut quarter = first;
    for (index, length) in lengths.iter().enumerate() {
        if index % 3 == 0 {
            quarter = first;
        }
        for day in [first, first + length - 1] {
            let starts = calendar_starts(day);
            assert_eq!(starts.year, 19_358);
            assert_eq!(starts.month, first);
            assert_eq!(starts.quarter, quarter);
        }
        first += length;
    }
    assert_eq!(first, 19_723);
}
