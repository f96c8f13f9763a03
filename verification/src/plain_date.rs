//! The plain calendar date value: a validated, immutable (year, month, day)
//! triple owned together with its governing calendar, the construction
//! pipeline that produces it, and the coercion protocol that normalizes
//! heterogeneous inputs into it.

use vstd::prelude::*;
use crate::calendar::Calendar;
use crate::calendar::spec_calendar_from_identifier;
use crate::calendar::spec_month_code;
use crate::error::TemporalError;
use crate::iso;
use crate::iso::IsoDate;
use crate::options::ArithmeticOverflow;
use crate::options::OptionsRecord;
use crate::options::get_overflow_option;
use crate::options::spec_options_overflow;
use crate::options::spec_parse_overflow;
use crate::parser;

verus! {

/// A validated calendar date value. Immutable: no operation changes its
/// fields in place, and every value satisfies calendar validity and the
/// supported-range gate from the moment it exists.
#[derive(Clone, Copy, Debug)]
pub struct PlainDate {
    iso: IsoDate,
    calendar: Calendar,
}

impl PlainDate {
    /// Every date value is calendar-valid and within the supported range.
    #[verifier::type_invariant]
    spec fn well_formed(self) -> bool {
        self.iso.valid() && self.iso.within_supported_range()
    }

    /// The owned date triple.
    pub closed spec fn iso_view(self) -> IsoDate {
        self.iso
    }

    /// The calendar slot.
    pub closed spec fn calendar_view(self) -> Calendar {
        self.calendar
    }

    /// The owned date triple, as a value.
    pub fn iso_date(&self) -> (r: IsoDate)
        ensures
            r == self.iso_view(),
            r.valid(),
            r.within_supported_range(),
    {
        proof {
            use_type_invariant(self);
        }
        self.iso
    }

    /// The calendar slot, shared structurally.
    pub fn get_calendar(&self) -> (r: Calendar)
        ensures
            r == self.calendar_view(),
    {
        self.calendar
    }

    /// The governing calendar's identifier.
    pub fn calendar_id(&self) -> (r: String)
        ensures
            r@ == self.calendar_view().spec_identifier(),
    {
        self.calendar.identifier()
    }

    /// Identity projection of the year.
    pub fn year(&self) -> (r: i32)
        ensures
            r == self.iso_view().year,
    {
        self.calendar.year(&self.iso)
    }

    /// Identity projection of the month.
    pub fn month(&self) -> (r: u8)
        ensures
            r == self.iso_view().month,
    {
        self.calendar.month(&self.iso)
    }

    /// The month code of the date's month.
    pub fn month_code(&self) -> (r: String)
        ensures
            r@ == spec_month_code(self.iso_view().month as int),
    {
        proof {
            use_type_invariant(self);
        }
        self.calendar.month_code(&self.iso)
    }

    /// Identity projection of the day.
    pub fn day(&self) -> (r: u8)
        ensures
            r == self.iso_view().day,
    {
        self.calendar.day(&self.iso)
    }

    /// Weekday in ISO numbering, Monday = 1 through Sunday = 7.
    pub fn day_of_week(&self) -> (r: u8)
        ensures
            r == iso::spec_day_of_week(
                self.iso_view().year as int,
                self.iso_view().month as int,
                self.iso_view().day as int,
            ),
            1 <= r <= 7,
    {
        proof {
            use_type_invariant(self);
        }
        self.calendar.day_of_week(&self.iso)
    }

    /// 1-based ordinal of the day within its calendar year.
    pub fn day_of_year(&self) -> (r: u16)
        ensures
            r == iso::spec_day_of_year(
                self.iso_view().year as int,
                self.iso_view().month as int,
                self.iso_view().day as int,
            ),
    {
        proof {
            use_type_invariant(self);
        }
        self.calendar.day_of_year(&self.iso)
    }

    /// ISO week number, coupled to `year_of_week`.
    pub fn week_of_year(&self) -> (r: u8)
        ensures
            r == iso::spec_week_of_year(
                self.iso_view().year as int,
                self.iso_view().month as int,
                self.iso_view().day as int,
            ),
            1 <= r <= 53,
    {
        proof {
            use_type_invariant(self);
        }
        self.calendar.week_of_year(&self.iso)
    }

    /// ISO week-date year, coupled to `week_of_year`.
    pub fn year_of_week(&self) -> (r: i32)
        ensures
            r == iso::spec_year_of_week(
                self.iso_view().year as int,
                self.iso_view().month as int,
                self.iso_view().day as int,
            ),
    {
        proof {
            use_type_invariant(self);
        }
        self.calendar.year_of_week(&self.iso)
    }

    /// Days per week under the governing calendar.
    pub fn days_in_week(&self) -> (r: u8)
        ensures
            r == 7,
    {
        self.calendar.days_in_week()
    }

    /// Length of the date's month.
    pub fn days_in_month(&self) -> (r: u8)
        ensures
            r == iso::spec_days_in_month(
                self.iso_view().year as int,
                self.iso_view().month as int,
            ),
    {
        proof {
            use_type_invariant(self);
        }
        self.calendar.days_in_month(&self.iso)
    }

    /// Length of the date's year: 365, or 366 in a leap year.
    pub fn days_in_year(&self) -> (r: u16)
        ensures
            r == iso::spec_days_in_year(self.iso_view().year as int),
    {
        self.calendar.days_in_year(&self.iso)
    }

    /// Months per year under the governing calendar.
    pub fn months_in_year(&self) -> (r: u8)
        ensures
            r == 12,
    {
        self.calendar.months_in_year()
    }

    /// Whether the date's year is a leap year.
    pub fn in_leap_year(&self) -> (r: bool)
        ensures
            r == iso::spec_is_leap_year(self.iso_view().year as int),
    {
        self.calendar.in_leap_year(&self.iso)
    }
}

/// Clamping of a raw field into an inclusive range, used by the constrain
/// overflow policy.
pub open spec fn spec_clamp(x: int, lo: int, hi: int) -> int {
    if x < lo {
        lo
    } else if x > hi {
        hi
    } else {
        x
    }
}

/// Regulation of raw month/day fields under an overflow policy: the reject
/// policy demands calendar validity outright, the constrain policy clamps
/// month into 1..=12 and day into the clamped month's length and never fails
/// on this axis.
pub open spec fn spec_regulate(year: int, month: int, day: int, overflow: ArithmeticOverflow)
    -> Result<(int, int), TemporalError> {
    match overflow {
        ArithmeticOverflow::Reject => {
            if iso::spec_is_valid_iso_date(year, month, day) {
                Ok((month, day))
            } else {
                Err(TemporalError::RangeError)
            }
        },
        ArithmeticOverflow::Constrain => {
            let m = spec_clamp(month, 1, 12);
            let d = spec_clamp(day, 1, iso::spec_days_in_month(year, m));
            Ok((m, d))
        },
    }
}

/// The whole construction pipeline: regulate the
/// raw fields under the overflow policy, gate the result against the
/// supported range (never clamped, only rejected), and resolve the calendar
/// identifier. The result is the content of the date value produced.
pub open spec fn spec_construct(
    year: int,
    month: int,
    day: int,
    calendar_id: Seq<char>,
    overflow: ArithmeticOverflow,
) -> Result<(IsoDate, Calendar), TemporalError> {
    match spec_regulate(year, month, day, overflow) {
        Err(e) => Err(e),
        Ok((m, d)) => {
            if !iso::spec_is_within_supported_range(year, m, d) {
                Err(TemporalError::RangeError)
            } else {
                match spec_calendar_from_identifier(calendar_id) {
                    Err(e) => Err(e),
                    Ok(c) => Ok(
                        (IsoDate { year: year as i32, month: m as u8, day: d as u8 }, c),
                    ),
                }
            }
        },
    }
}

/// The range gate applied when an already calendar-valid date becomes a date
/// value: a date outside the supported span is rejected whatever the
/// overflow mode. All validation completes before the value exists, so no
/// re-entrant observer can see a partially validated date.
pub fn create_temporal_date(date: IsoDate, calendar: Calendar) -> (r: Result<
    PlainDate,
    TemporalError,
>)
    requires
        date.valid(),
    ensures
        r is Ok <==> date.within_supported_range(),
        r matches Ok(d) ==> d.iso_view() == date && d.calendar_view() == calendar,
        r matches Err(e) ==> e == TemporalError::RangeError,
{
    if !iso::is_within_supported_range(date.year, date.month, date.day) {
        return Err(TemporalError::RangeError);
    }
    Ok(PlainDate { iso: date, calendar })
}

impl PlainDate {
    /// The construction/validation pipeline: raw integer fields, a calendar
    /// identifier, and an overflow policy, producing a validated date value
    /// or a precise error, exactly as `spec_construct` lays down.
    pub fn construct(
        year: i32,
        month: i32,
        day: i32,
        calendar_id: &str,
        overflow: ArithmeticOverflow,
    ) -> (r: Result<PlainDate, TemporalError>)
        ensures
            ({
                let model = spec_construct(
                    year as int,
                    month as int,
                    day as int,
                    calendar_id@,
                    overflow,
                );
                &&& r is Ok <==> model is Ok
                &&& r matches Ok(d) ==> model matches Ok(content) && d.iso_view() == content.0
                    && d.calendar_view() == content.1
                &&& r matches Err(e) ==> model matches Err(me) && e == me
            }),
    {
        let (month_r, day_r) = match regulate(year, month, day, overflow) {
            Ok(fields) => fields,
            Err(e) => {
                return Err(e);
            },
        };
        let date = IsoDate { year, month: month_r, day: day_r };
        if !iso::is_within_supported_range(date.year, date.month, date.day) {
            return Err(TemporalError::RangeError);
        }
        let calendar = match Calendar::from_identifier(calendar_id) {
            Ok(c) => c,
            Err(e) => {
                return Err(e);
            },
        };
        Ok(PlainDate { iso: date, calendar })
    }
}

/// Exec counterpart of `spec_regulate`.
fn regulate(year: i32, month: i32, day: i32, overflow: ArithmeticOverflow) -> (r: Result<
    (u8, u8),
    TemporalError,
>)
    ensures
        ({
            let model = spec_regulate(year as int, month as int, day as int, overflow);
            &&& r is Ok <==> model is Ok
            &&& r matches Ok(fields) ==> model matches Ok(mfields) && fields.0 == mfields.0
                && fields.1 == mfields.1 && iso::spec_is_valid_iso_date(
                year as int,
                fields.0 as int,
                fields.1 as int,
            )
            &&& r matches Err(e) ==> model matches Err(me) && e == me
        }),
{
    match overflow {
        ArithmeticOverflow::Reject => {
            if iso::is_valid_iso_date(year, month, day) {
                Ok((month as u8, day as u8))
            } else {
                Err(TemporalError::RangeError)
            }
        },
        ArithmeticOverflow::Constrain => {
            let m: u8 = if month < 1 {
                1
            } else if month > 12 {
                12
            } else {
                month as u8
            };
            let dim: u8 = iso::days_in_month(year, m);
            let d: u8 = if day < 1 {
                1
            } else if day > dim as i32 {
                dim
            } else {
                day as u8
            };
            Ok((m, d))
        },
    }
}


/// A date-time composite: a validated date value joined with a wall-clock
/// time. The coercion protocol projects out just the date and its calendar;
/// the wall time plays no part here and is carried as given.
#[derive(Clone, Copy, Debug)]
pub struct DateTimeValue {
    pub date: PlainDate,
    pub hour: u8,
    pub minute: u8,
    pub second: u8,
    pub millisecond: u16,
    pub microsecond: u16,
    pub nanosecond: u16,
}

/// A timezone-qualified composite: a date-time and its timezone identifier.
/// Resolving it to a wall-clock date is a deferred upstream capability.
#[derive(Debug)]
pub struct ZonedDateTimeValue {
    pub date_time: DateTimeValue,
    pub time_zone: String,
}

/// The shapes the coercion protocol discriminates over, in priority order,
/// first match winning.
#[derive(Debug)]
pub enum ConversionInput {
    /// An already canonical date value.
    ExistingDateValue(PlainDate),
    /// A timezone-qualified composite.
    ZonedComposite(ZonedDateTimeValue),
    /// A date-time composite without a timezone.
    DateTimeComposite(DateTimeValue),
    /// An object bearing calendar-relevant fields without being a
    /// recognized internal date type.
    GenericFieldObject,
    /// Text to be read as an ISO-8601 date string.
    TextValue(String),
    /// Anything else: not an object, not text.
    Other,
}

/// The text branch of the coercion protocol: parse the string, resolve the
/// embedded or defaulted calendar identifier, parse the overflow option for
/// conformance (a successful parse already yields a calendar-valid date, so
/// the policy has no further effect), and gate against the supported range.
pub open spec fn spec_coerce_text(s: Seq<char>, overflow_option: Option<Seq<char>>) -> Result<
    (IsoDate, Calendar),
    TemporalError,
> {
    match parser::spec_parse_iso_date_text(s) {
        Err(e) => Err(e),
        Ok((y, m, d, calendar_id)) => {
            match spec_calendar_from_identifier(calendar_id) {
                Err(e) => Err(e),
                Ok(c) => {
                    match spec_parse_overflow(overflow_option) {
                        Err(e) => Err(e),
                        Ok(_) => {
                            if !iso::spec_is_within_supported_range(y, m, d) {
                                Err(TemporalError::RangeError)
                            } else {
                                Ok((IsoDate { year: y as i32, month: m as u8, day: d as u8 }, c))
                            }
                        },
                    }
                },
            }
        },
    }
}

/// The whole coercion protocol: priority-ordered discrimination over the
/// input's shape, each arm with its own validation and error contract. The
/// result is the content of the date value produced.
pub open spec fn spec_to_temporal_date(
    input: ConversionInput,
    overflow_option: Option<Seq<char>>,
) -> Result<(IsoDate, Calendar), TemporalError> {
    match input {
        // An existing date value is reused structurally, with no
        // re-validation and no options conformance check.
        ConversionInput::ExistingDateValue(d) => Ok((d.iso_view(), d.calendar_view())),
        // Resolving a timezone-qualified composite to a wall-clock date is
        // deferred: distinguishable as not-yet-provided, not as invalid.
        ConversionInput::ZonedComposite(_) => Err(TemporalError::NotImplemented),
        // A date-time composite is already valid: check the overflow option
        // for conformance only, then project out the date and calendar.
        ConversionInput::DateTimeComposite(dt) => match spec_parse_overflow(overflow_option) {
            Err(e) => Err(e),
            Ok(_) => Ok((dt.date.iso_view(), dt.date.calendar_view())),
        },
        // The general resolve-fields-into-a-date protocol is deferred.
        ConversionInput::GenericFieldObject => Err(TemporalError::NotImplemented),
        ConversionInput::TextValue(s) => spec_coerce_text(s@, overflow_option),
        // Not an object, not text: the wrong category outright.
        ConversionInput::Other => Err(TemporalError::TypeError),
    }
}

/// The coercion entry point: normalizes a heterogeneous input value into a
/// canonical validated date value, exactly as `spec_to_temporal_date` lays
/// down over the input's shape and the options record's `overflow` value.
pub fn to_temporal_date(input: ConversionInput, options: Option<OptionsRecord>) -> (r: Result<
    PlainDate,
    TemporalError,
>)
    ensures
        ({
            let model = spec_to_temporal_date(input, spec_options_overflow(options));
            &&& r is Ok <==> model is Ok
            &&& r matches Ok(d) ==> model matches Ok(content) && d.iso_view() == content.0
                && d.calendar_view() == content.1
            &&& r matches Err(e) ==> model matches Err(me) && e == me
        }),
{
    match input {
        ConversionInput::ExistingDateValue(d) => Ok(d),
        ConversionInput::ZonedComposite(_) => Err(TemporalError::NotImplemented),
        ConversionInput::DateTimeComposite(dt) => {
            match get_overflow_option(&options) {
                Err(e) => Err(e),
                Ok(_) => Ok(dt.date),
            }
        },
        ConversionInput::GenericFieldObject => Err(TemporalError::NotImplemented),
        ConversionInput::TextValue(s) => {
            let (year, month, day, calendar_id) = match parser::parse_iso_date_text(s.as_str()) {
                Ok(v) => v,
                Err(e) => {
                    return Err(e);
                },
            };
            let calendar = match Calendar::from_identifier(calendar_id.as_str()) {
                Ok(c) => c,
                Err(e) => {
                    return Err(e);
                },
            };
            match get_overflow_option(&options) {
                Err(e) => {
                    return Err(e);
                },
                Ok(_) => {},
            };
            create_temporal_date(IsoDate { year, month, day }, calendar)
        },
        ConversionInput::Other => Err(TemporalError::TypeError),
    }
}

/// Law: every calendar-valid (year, month, day) inside the supported range
/// constructs successfully under the reject policy with the built-in
/// calendar, and the constructed value carries the given fields exactly.
pub proof fn lemma_construct_reject_exact(year: int, month: int, day: int)
    requires
        i32::MIN <= year <= i32::MAX,
        iso::spec_is_valid_iso_date(year, month, day),
        iso::spec_is_within_supported_range(year, month, day),
    ensures
        (spec_construct(year, month, day, "iso8601"@, ArithmeticOverflow::Reject) matches Ok(
            content,
        ) && content.0 == (IsoDate { year: year as i32, month: month as u8, day: day as u8 })
            && content.1 == Calendar::Iso8601),
{
}

/// Law: coercing an existing date value is the identity — the same date and
/// the same calendar come back with no error — whatever options record is
/// supplied, and whether or not the value was produced by constrain-mode
/// clamping.
pub proof fn lemma_coerce_existing_is_identity(
    date: PlainDate,
    overflow_option: Option<Seq<char>>,
)
    ensures
        (spec_to_temporal_date(ConversionInput::ExistingDateValue(date), overflow_option)
            matches Ok(content) && content.0 == date.iso_view() && content.1
            == date.calendar_view()),
{
}

/// Law: round-trip idempotence — a value the construction pipeline produced,
/// coerced straight back through the conversion protocol, comes back
/// field-for-field identical, whatever options the coercion is handed.
pub proof fn lemma_construct_coerce_round_trip(
    year: int,
    month: int,
    day: int,
    calendar_id: Seq<char>,
    overflow: ArithmeticOverflow,
    date: PlainDate,
    overflow_option: Option<Seq<char>>,
)
    requires
        (spec_construct(year, month, day, calendar_id, overflow) matches Ok(content) && content.0
            == date.iso_view() && content.1 == date.calendar_view()),
    ensures
        (spec_to_temporal_date(ConversionInput::ExistingDateValue(date), overflow_option)
            matches Ok(content) && content.0 == date.iso_view() && content.1
            == date.calendar_view()),
{
    lemma_coerce_existing_is_identity(date, overflow_option);
}

} // verus!
