use plain_date::error::TemporalError;
use plain_date::options::ArithmeticOverflow;
use plain_date::plain_date::PlainDate;

fn date(year: i32, month: i32, day: i32) -> PlainDate {
    PlainDate::construct(year, month, day, "iso8601", ArithmeticOverflow::Reject).unwrap()
}

#[test]
fn construct_reject_keeps_fields_exactly() {
    let d = date(2024, 2, 29);
    assert_eq!(d.year(), 2024);
    assert_eq!(d.month(), 2);
    assert_eq!(d.day(), 29);
    assert_eq!(d.calendar_id(), "iso8601");

    let e = date(1, 1, 1);
    assert_eq!(e.year(), 1);
    assert_eq!(e.month(), 1);
    assert_eq!(e.day(), 1);
}

#[test]
fn construct_reject_invalid_day() {
    let r = PlainDate::construct(2023, 2, 30, "iso8601", ArithmeticOverflow::Reject);
    assert_eq!(r.unwrap_err(), TemporalError::RangeError);
}

#[test]
fn construct_constrain_clamps_day() {
    let d = PlainDate::construct(2023, 2, 30, "iso8601", ArithmeticOverflow::Constrain).unwrap();
    assert_eq!(d.year(), 2023);
    assert_eq!(d.month(), 2);
    assert_eq!(d.day(), 28);
}

#[test]
fn construct_constrain_clamps_month_both_ways() {
    let d = PlainDate::construct(2023, 0, 40, "iso8601", ArithmeticOverflow::Constrain).unwrap();
    assert_eq!(d.month(), 1);
    assert_eq!(d.day(), 31);
    let e = PlainDate::construct(2023, 99, -7, "iso8601", ArithmeticOverflow::Constrain).unwrap();
    assert_eq!(e.month(), 12);
    assert_eq!(e.day(), 1);
}

#[test]
fn construct_unknown_calendar() {
    let r = PlainDate::construct(2023, 1, 1, "gregory", ArithmeticOverflow::Reject);
    assert_eq!(r.unwrap_err(), TemporalError::RangeError);
    let r2 = PlainDate::construct(2023, 1, 1, "ISO8601", ArithmeticOverflow::Constrain);
    assert_eq!(r2.unwrap_err(), TemporalError::RangeError);
}

#[test]
fn construct_outside_supported_range() {
    let r = PlainDate::construct(300_000, 1, 1, "iso8601", ArithmeticOverflow::Reject);
    assert_eq!(r.unwrap_err(), TemporalError::RangeError);
    // The range gate is never clamped, whatever the overflow mode.
    let c = PlainDate::construct(-300_000, 1, 1, "iso8601", ArithmeticOverflow::Constrain);
    assert_eq!(c.unwrap_err(), TemporalError::RangeError);
}

#[test]
fn supported_range_exact_boundaries() {
    // The last day whose midday instant is still representable.
    let last = date(275_760, 9, 12);
    assert_eq!((last.year(), last.month(), last.day()), (275_760, 9, 12));
    let past_last = PlainDate::construct(275_760, 9, 13, "iso8601", ArithmeticOverflow::Reject);
    assert_eq!(past_last.unwrap_err(), TemporalError::RangeError);

    // The first day whose midday instant is still representable.
    let first = date(-271_821, 4, 20);
    assert_eq!((first.year(), first.month(), first.day()), (-271_821, 4, 20));
    let before_first =
        PlainDate::construct(-271_821, 4, 19, "iso8601", ArithmeticOverflow::Reject);
    assert_eq!(before_first.unwrap_err(), TemporalError::RangeError);
}

#[test]
fn in_leap_year_rule() {
    assert!(date(2000, 6, 1).in_leap_year());
    assert!(date(2024, 6, 1).in_leap_year());
    assert!(!date(1900, 6, 1).in_leap_year());
    assert!(!date(2023, 6, 1).in_leap_year());
}

#[test]
fn days_in_month_rule() {
    assert_eq!(date(2024, 2, 1).days_in_month(), 29);
    assert_eq!(date(2023, 2, 1).days_in_month(), 28);
    assert_eq!(date(2023, 1, 1).days_in_month(), 31);
    assert_eq!(date(2023, 4, 1).days_in_month(), 30);
}

#[test]
fn iso_week_numbering() {
    let early_2021 = date(2021, 1, 1);
    assert_eq!(early_2021.day_of_week(), 5);
    assert_eq!(early_2021.year_of_week(), 2020);
    assert_eq!(early_2021.week_of_year(), 53);

    let first_monday = date(2021, 1, 4);
    assert_eq!(first_monday.day_of_week(), 1);
    assert_eq!(first_monday.year_of_week(), 2021);
    assert_eq!(first_monday.week_of_year(), 1);
}

#[test]
fn week_of_late_december_can_belong_to_next_year() {
    let d = date(2019, 12, 30);
    assert_eq!(d.day_of_week(), 1);
    assert_eq!(d.year_of_week(), 2020);
    assert_eq!(d.week_of_year(), 1);
}

#[test]
fn day_of_week_at_epoch() {
    // The epoch day 1970-01-01 was a Thursday.
    assert_eq!(date(1970, 1, 1).day_of_week(), 4);
    assert_eq!(date(1969, 12, 31).day_of_week(), 3);
}

#[test]
fn day_of_year_ordinals() {
    assert_eq!(date(2023, 1, 1).day_of_year(), 1);
    assert_eq!(date(2023, 3, 1).day_of_year(), 60);
    assert_eq!(date(2024, 3, 1).day_of_year(), 61);
    assert_eq!(date(2023, 12, 31).day_of_year(), 365);
    assert_eq!(date(2024, 12, 31).day_of_year(), 366);
}

#[test]
fn constant_properties() {
    let d = date(2023, 3, 15);
    assert_eq!(d.days_in_week(), 7);
    assert_eq!(d.months_in_year(), 12);
    assert_eq!(d.days_in_year(), 365);
    assert_eq!(date(2024, 3, 15).days_in_year(), 366);
}

#[test]
fn month_codes_are_zero_padded() {
    assert_eq!(date(2023, 3, 15).month_code(), "M03");
    assert_eq!(date(2023, 10, 15).month_code(), "M10");
    assert_eq!(date(2023, 12, 31).month_code(), "M12");
}

#[test]
fn negative_years_are_supported() {
    let d = date(-100, 3, 1);
    assert_eq!(d.year(), -100);
    assert_eq!(d.day_of_year(), 60);
    assert!(!d.in_leap_year());
    let leap = date(-4, 2, 29);
    assert!(leap.in_leap_year());
}

#[test]
fn iso_date_projection() {
    let d = date(2023, 3, 15);
    let iso = d.iso_date();
    assert_eq!(iso.year, 2023);
    assert_eq!(iso.month, 3);
    assert_eq!(iso.day, 15);
}
