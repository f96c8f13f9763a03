//! The calendar capability: an identifier plus the field-derivation
//! operations. The derivation engine and the construction pipeline call only
//! through this type, so further calendars can be added here without touching
//! the call sites. The ISO-8601 (proleptic Gregorian) calendar is the one
//! built-in implementation, resolved by its identifier.

use vstd::prelude::*;
use crate::error::TemporalError;
use crate::iso;
use crate::iso::IsoDate;
use crate::parser::spec_digit_char;

verus! {

/// A calendar, immutable and side-effect-free for every operation here.
#[derive(Clone, Copy, PartialEq, Eq, Structural, Debug)]
pub enum Calendar {
    Iso8601,
}

/// Resolution of a calendar identifier: "iso8601" names the built-in
/// calendar; any other identifier is a range error.
pub open spec fn spec_calendar_from_identifier(id: Seq<char>) -> Result<Calendar, TemporalError> {
    if id == "iso8601"@ {
        Ok(Calendar::Iso8601)
    } else {
        Err(TemporalError::RangeError)
    }
}

/// The ISO calendar's month code: "M" followed by the zero-padded two-digit
/// month ordinal. (A trailing "L" is reserved for leap months of other
/// calendar systems and never produced by the ISO calendar.)
pub open spec fn spec_month_code(month: int) -> Seq<char>
    recommends
        1 <= month <= 12,
{
    seq!['M', spec_digit_char(month / 10), spec_digit_char(month % 10)]
}

impl Calendar {
    /// The identifier this calendar is registered under.
    pub open spec fn spec_identifier(self) -> Seq<char> {
        "iso8601"@
    }

    /// Resolves an identifier to a calendar instance.
    pub fn from_identifier(id: &str) -> (r: Result<Calendar, TemporalError>)
        ensures
            r == spec_calendar_from_identifier(id@),
    {
        let iso_id: String = "iso8601".to_owned();
        if id.to_owned().eq(&iso_id) {
            Ok(Calendar::Iso8601)
        } else {
            Err(TemporalError::RangeError)
        }
    }

    /// The identifier, as text.
    pub fn identifier(&self) -> (r: String)
        ensures
            r@ == self.spec_identifier(),
    {
        match self {
            Calendar::Iso8601 => "iso8601".to_owned(),
        }
    }

    /// Identity projection of the year field.
    pub fn year(&self, date: &IsoDate) -> (r: i32)
        ensures
            r == date.year,
    {
        match self {
            Calendar::Iso8601 => date.year,
        }
    }

    /// Identity projection of the month field.
    pub fn month(&self, date: &IsoDate) -> (r: u8)
        ensures
            r == date.month,
    {
        match self {
            Calendar::Iso8601 => date.month,
        }
    }

    /// The month code of the date's month.
    pub fn month_code(&self, date: &IsoDate) -> (r: String)
        requires
            date.valid(),
        ensures
            r@ == spec_month_code(date.month as int),
    {
        match self {
            Calendar::Iso8601 => month_code_text(date.month),
        }
    }

    /// Identity projection of the day field.
    pub fn day(&self, date: &IsoDate) -> (r: u8)
        ensures
            r == date.day,
    {
        match self {
            Calendar::Iso8601 => date.day,
        }
    }

    /// Weekday in ISO numbering, Monday = 1 through Sunday = 7.
    pub fn day_of_week(&self, date: &IsoDate) -> (r: u8)
        requires
            date.valid(),
            date.within_supported_range(),
        ensures
            r == iso::spec_day_of_week(date.year as int, date.month as int, date.day as int),
            1 <= r <= 7,
    {
        match self {
            Calendar::Iso8601 => iso::day_of_week(date.year, date.month, date.day),
        }
    }

    /// 1-based ordinal of the day within its calendar year.
    pub fn day_of_year(&self, date: &IsoDate) -> (r: u16)
        requires
            date.valid(),
        ensures
            r == iso::spec_day_of_year(date.year as int, date.month as int, date.day as int),
    {
        match self {
            Calendar::Iso8601 => iso::day_of_year(date.year, date.month, date.day),
        }
    }

    /// ISO week number of the date, coupled to `year_of_week`.
    pub fn week_of_year(&self, date: &IsoDate) -> (r: u8)
        requires
            date.valid(),
            date.within_supported_range(),
        ensures
            r == iso::spec_week_of_year(date.year as int, date.month as int, date.day as int),
            1 <= r <= 53,
    {
        match self {
            Calendar::Iso8601 => iso::iso_week(date.year, date.month, date.day).1,
        }
    }

    /// ISO week-date year of the date, coupled to `week_of_year`.
    pub fn year_of_week(&self, date: &IsoDate) -> (r: i32)
        requires
            date.valid(),
            date.within_supported_range(),
        ensures
            r == iso::spec_year_of_week(date.year as int, date.month as int, date.day as int),
    {
        match self {
            Calendar::Iso8601 => iso::iso_week(date.year, date.month, date.day).0,
        }
    }

    /// Days per week: constant 7 under the ISO calendar.
    pub fn days_in_week(&self) -> (r: u8)
        ensures
            r == 7,
    {
        match self {
            Calendar::Iso8601 => 7,
        }
    }

    /// Length of the date's month.
    pub fn days_in_month(&self, date: &IsoDate) -> (r: u8)
        requires
            date.valid(),
        ensures
            r == iso::spec_days_in_month(date.year as int, date.month as int),
    {
        match self {
            Calendar::Iso8601 => iso::days_in_month(date.year, date.month),
        }
    }

    /// Length of the date's year: 365, or 366 in a leap year.
    pub fn days_in_year(&self, date: &IsoDate) -> (r: u16)
        ensures
            r == iso::spec_days_in_year(date.year as int),
    {
        match self {
            Calendar::Iso8601 => iso::days_in_year(date.year),
        }
    }

    /// Months per year: constant 12 under the ISO calendar.
    pub fn months_in_year(&self) -> (r: u8)
        ensures
            r == 12,
    {
        match self {
            Calendar::Iso8601 => 12,
        }
    }

    /// Whether the date's year is a leap year.
    pub fn in_leap_year(&self, date: &IsoDate) -> (r: bool)
        ensures
            r == iso::spec_is_leap_year(date.year as int),
    {
        match self {
            Calendar::Iso8601 => iso::is_leap_year(date.year),
        }
    }
}

fn month_code_text(month: u8) -> (r: String)
    requires
        1 <= month <= 12,
    ensures
        r@ == spec_month_code(month as int),
{
    let r: String = if month == 1 {
        "M01".to_owned()
    } else if month == 2 {
        "M02".to_owned()
    } else if month == 3 {
        "M03".to_owned()
    } else if month == 4 {
        "M04".to_owned()
    } else if month == 5 {
        "M05".to_owned()
    } else if month == 6 {
        "M06".to_owned()
    } else if month == 7 {
        "M07".to_owned()
    } else if month == 8 {
        "M08".to_owned()
    } else if month == 9 {
        "M09".to_owned()
    } else if month == 10 {
        "M10".to_owned()
    } else if month == 11 {
        "M11".to_owned()
    } else {
        "M12".to_owned()
    };
    proof {
        reveal_strlit("M01");
        reveal_strlit("M02");
        reveal_strlit("M03");
        reveal_strlit("M04");
        reveal_strlit("M05");
        reveal_strlit("M06");
        reveal_strlit("M07");
        reveal_strlit("M08");
        reveal_strlit("M09");
        reveal_strlit("M10");
        reveal_strlit("M11");
        reveal_strlit("M12");
        assert(r@ =~= spec_month_code(month as int));
    }
    r
}

} // verus!
