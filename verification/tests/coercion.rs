use plain_date::error::TemporalError;
use plain_date::options::ArithmeticOverflow;
use plain_date::options::OptionsRecord;
use plain_date::plain_date::ConversionInput;
use plain_date::plain_date::DateTimeValue;
use plain_date::plain_date::PlainDate;
use plain_date::plain_date::ZonedDateTimeValue;
use plain_date::plain_date::to_temporal_date;

fn date(year: i32, month: i32, day: i32) -> PlainDate {
    PlainDate::construct(year, month, day, "iso8601", ArithmeticOverflow::Reject).unwrap()
}

fn overflow_options(value: &str) -> Option<OptionsRecord> {
    Some(OptionsRecord { overflow: Some(value.to_string()) })
}

#[test]
fn existing_date_value_is_reused_unchanged() {
    let d = date(2023, 3, 15);
    let r = to_temporal_date(ConversionInput::ExistingDateValue(d), None).unwrap();
    assert_eq!(r.year(), 2023);
    assert_eq!(r.month(), 3);
    assert_eq!(r.day(), 15);
    assert_eq!(r.calendar_id(), "iso8601");
}

#[test]
fn existing_date_value_skips_option_validation() {
    // The first branch reuses the value structurally: even a bogus options
    // record causes no error.
    let d = date(2023, 3, 15);
    let r = to_temporal_date(
        ConversionInput::ExistingDateValue(d),
        overflow_options("bogus"),
    )
    .unwrap();
    assert_eq!(r.year(), 2023);
}

#[test]
fn existing_clamped_date_value_round_trips() {
    let clamped =
        PlainDate::construct(2023, 2, 30, "iso8601", ArithmeticOverflow::Constrain).unwrap();
    let r = to_temporal_date(ConversionInput::ExistingDateValue(clamped), None).unwrap();
    assert_eq!(r.year(), 2023);
    assert_eq!(r.month(), 2);
    assert_eq!(r.day(), 28);
    assert_eq!(r.calendar_id(), "iso8601");
}

#[test]
fn text_value_parses_iso_date() {
    let r = to_temporal_date(ConversionInput::TextValue("2023-03-15".to_string()), None).unwrap();
    assert_eq!(r.year(), 2023);
    assert_eq!(r.month(), 3);
    assert_eq!(r.day(), 15);
    assert_eq!(r.calendar_id(), "iso8601");
}

#[test]
fn text_value_malformed_is_range_error() {
    let r = to_temporal_date(ConversionInput::TextValue("not-a-date".to_string()), None);
    assert_eq!(r.unwrap_err(), TemporalError::RangeError);
}

#[test]
fn non_object_non_text_is_type_error() {
    let r = to_temporal_date(ConversionInput::Other, None);
    assert_eq!(r.unwrap_err(), TemporalError::TypeError);
}

#[test]
fn valid_text_with_bogus_overflow_option_is_range_error() {
    let r = to_temporal_date(
        ConversionInput::TextValue("2023-03-15".to_string()),
        overflow_options("bogus"),
    );
    assert_eq!(r.unwrap_err(), TemporalError::RangeError);
}

#[test]
fn valid_text_with_recognized_overflow_options() {
    let r = to_temporal_date(
        ConversionInput::TextValue("2023-03-15".to_string()),
        overflow_options("reject"),
    )
    .unwrap();
    assert_eq!(r.day(), 15);
    let c = to_temporal_date(
        ConversionInput::TextValue("2023-03-15".to_string()),
        overflow_options("constrain"),
    )
    .unwrap();
    assert_eq!(c.day(), 15);
    let empty = to_temporal_date(
        ConversionInput::TextValue("2023-03-15".to_string()),
        Some(OptionsRecord { overflow: None }),
    )
    .unwrap();
    assert_eq!(empty.day(), 15);
}

#[test]
fn text_value_with_calendar_annotation() {
    let r = to_temporal_date(
        ConversionInput::TextValue("2023-03-15[u-ca=iso8601]".to_string()),
        None,
    )
    .unwrap();
    assert_eq!(r.calendar_id(), "iso8601");
    let unknown = to_temporal_date(
        ConversionInput::TextValue("2023-03-15[u-ca=japanese]".to_string()),
        None,
    );
    assert_eq!(unknown.unwrap_err(), TemporalError::RangeError);
}

#[test]
fn text_value_extended_year_forms() {
    let positive =
        to_temporal_date(ConversionInput::TextValue("+002023-03-15".to_string()), None).unwrap();
    assert_eq!(positive.year(), 2023);
    let negative =
        to_temporal_date(ConversionInput::TextValue("-000100-01-01".to_string()), None).unwrap();
    assert_eq!(negative.year(), -100);
}

#[test]
fn text_value_calendar_invalid_date_is_range_error() {
    let r = to_temporal_date(ConversionInput::TextValue("2023-02-29".to_string()), None);
    assert_eq!(r.unwrap_err(), TemporalError::RangeError);
    let m = to_temporal_date(ConversionInput::TextValue("2023-13-01".to_string()), None);
    assert_eq!(m.unwrap_err(), TemporalError::RangeError);
    let short = to_temporal_date(ConversionInput::TextValue("2023-3-15".to_string()), None);
    assert_eq!(short.unwrap_err(), TemporalError::RangeError);
    let empty = to_temporal_date(ConversionInput::TextValue(String::new()), None);
    assert_eq!(empty.unwrap_err(), TemporalError::RangeError);
}

#[test]
fn date_time_composite_projects_date_and_calendar() {
    let composite = DateTimeValue {
        date: date(2023, 3, 15),
        hour: 10,
        minute: 30,
        second: 0,
        millisecond: 0,
        microsecond: 0,
        nanosecond: 0,
    };
    let r = to_temporal_date(ConversionInput::DateTimeComposite(composite), None).unwrap();
    assert_eq!(r.year(), 2023);
    assert_eq!(r.month(), 3);
    assert_eq!(r.day(), 15);
    assert_eq!(r.calendar_id(), "iso8601");
}

#[test]
fn date_time_composite_still_validates_options() {
    let composite = DateTimeValue {
        date: date(2023, 3, 15),
        hour: 10,
        minute: 30,
        second: 0,
        millisecond: 0,
        microsecond: 0,
        nanosecond: 0,
    };
    let r = to_temporal_date(
        ConversionInput::DateTimeComposite(composite),
        overflow_options("bogus"),
    );
    assert_eq!(r.unwrap_err(), TemporalError::RangeError);
}

#[test]
fn zoned_composite_is_not_implemented() {
    let composite = ZonedDateTimeValue {
        date_time: DateTimeValue {
            date: date(2023, 3, 15),
            hour: 10,
            minute: 30,
            second: 0,
            millisecond: 0,
            microsecond: 0,
            nanosecond: 0,
        },
        time_zone: "UTC".to_string(),
    };
    let r = to_temporal_date(ConversionInput::ZonedComposite(composite), None);
    assert_eq!(r.unwrap_err(), TemporalError::NotImplemented);
}

#[test]
fn generic_field_object_is_not_implemented() {
    let r = to_temporal_date(ConversionInput::GenericFieldObject, None);
    assert_eq!(r.unwrap_err(), TemporalError::NotImplemented);
}

#[test]
fn round_trip_is_field_for_field_identity() {
    let built = PlainDate::construct(2024, 2, 29, "iso8601", ArithmeticOverflow::Reject).unwrap();
    let coerced = to_temporal_date(ConversionInput::ExistingDateValue(built), None).unwrap();
    assert_eq!(coerced.year(), built.year());
    assert_eq!(coerced.month(), built.month());
    assert_eq!(coerced.day(), built.day());
    assert_eq!(coerced.calendar_id(), built.calendar_id());
}

#[test]
fn parser_entry_point() {
    let (y, m, d, calendar) = plain_date::parser::parse_iso_date_text("1999-12-31").unwrap();
    assert_eq!((y, m, d), (1999, 12, 31));
    assert_eq!(calendar, "iso8601");
    let err = plain_date::parser::parse_iso_date_text("1999-12-31[u-ca=]");
    assert_eq!(err.unwrap_err(), TemporalError::RangeError);
    let trailing = plain_date::parser::parse_iso_date_text("1999-12-31x");
    assert_eq!(trailing.unwrap_err(), TemporalError::RangeError);
}
