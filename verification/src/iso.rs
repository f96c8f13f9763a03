//! The canonical (year, month, day) triple of the proleptic Gregorian
//! (ISO-8601) calendar: its validity predicate, the supported-range gate, and
//! the day-count arithmetic that the derived calendar properties rest on.

use vstd::prelude::*;
use vstd::arithmetic::div_mod::lemma_mod_multiples_basic;
use vstd::arithmetic::div_mod::lemma_mod_multiples_vanish;

verus! {

/// A calendar-valid (year, month, day) triple. Values are created only
/// through the construction pipeline, which establishes `valid()`.
#[derive(Clone, Copy, PartialEq, Eq, Structural, Debug)]
pub struct IsoDate {
    pub year: i32,
    pub month: u8,
    pub day: u8,
}

/// The proleptic Gregorian leap-year rule: every fourth year, except century
/// years, which are leap only when divisible by 400.
pub open spec fn spec_is_leap_year(year: int) -> bool {
    year % 4 == 0 && (year % 100 != 0 || year % 400 == 0)
}

/// Number of days in `month` of `year` under the Gregorian calendar.
pub open spec fn spec_days_in_month(year: int, month: int) -> int
    recommends
        1 <= month <= 12,
{
    if month == 2 {
        if spec_is_leap_year(year) {
            29
        } else {
            28
        }
    } else if month == 4 || month == 6 || month == 9 || month == 11 {
        30
    } else {
        31
    }
}

/// Number of days in `year`.
pub open spec fn spec_days_in_year(year: int) -> int {
    if spec_is_leap_year(year) {
        366
    } else {
        365
    }
}

/// Gregorian calendar validity of a (year, month, day) triple.
pub open spec fn spec_is_valid_iso_date(year: int, month: int, day: int) -> bool {
    &&& 1 <= month <= 12
    &&& 1 <= day <= spec_days_in_month(year, month)
}

impl IsoDate {
    /// Calendar validity of this triple.
    pub open spec fn valid(self) -> bool {
        spec_is_valid_iso_date(self.year as int, self.month as int, self.day as int)
    }
}

pub fn is_leap_year(year: i32) -> (r: bool)
    ensures
        r == spec_is_leap_year(year as int),
{
    // Shift the year by a multiple of 400 (hence also of 4 and 100) so that
    // the remainder tests run on a non-negative operand.
    let shifted: u64 = (year as i64 + 2_147_484_000) as u64;
    proof {
        lemma_mod_multiples_vanish(536_871_000, year as int, 4);
        lemma_mod_multiples_vanish(21_474_840, year as int, 100);
        lemma_mod_multiples_vanish(5_368_710, year as int, 400);
    }
    shifted % 4 == 0 && (shifted % 100 != 0 || shifted % 400 == 0)
}

pub fn days_in_month(year: i32, month: u8) -> (r: u8)
    requires
        1 <= month <= 12,
    ensures
        r == spec_days_in_month(year as int, month as int),
{
    if month == 2 {
        if is_leap_year(year) {
            29
        } else {
            28
        }
    } else if month == 4 || month == 6 || month == 9 || month == 11 {
        30
    } else {
        31
    }
}

pub fn days_in_year(year: i32) -> (r: u16)
    ensures
        r == spec_days_in_year(year as int),
{
    if is_leap_year(year) {
        366
    } else {
        365
    }
}

/// Days of `year` that precede the first day of `month`.
pub open spec fn spec_days_before_month(year: int, month: int) -> int
    decreases month,
{
    if month <= 1 {
        0
    } else {
        spec_days_before_month(year, month - 1) + spec_days_in_month(year, month - 1)
    }
}

/// 1-based ordinal of the day within its calendar year.
pub open spec fn spec_day_of_year(year: int, month: int, day: int) -> int {
    spec_days_before_month(year, month) + day
}

/// The whole year's months sum to the year's length.
proof fn lemma_days_before_month_full(year: int)
    ensures
        spec_days_before_month(year, 13) == spec_days_in_year(year),
{
    reveal_with_fuel(spec_days_before_month, 14);
}

/// Each month starts within the first 31 * (month - 1) days of the year.
proof fn lemma_days_before_month_bound(year: int, month: int)
    requires
        1 <= month,
    ensures
        month - 1 <= spec_days_before_month(year, month) <= 31 * (month - 1),
    decreases month,
{
    if month > 1 {
        lemma_days_before_month_bound(year, month - 1);
    }
}

/// The ordinal day lies between 1 and the year's length.
proof fn lemma_day_of_year_bounds(year: int, month: int, day: int)
    requires
        spec_is_valid_iso_date(year, month, day),
    ensures
        1 <= spec_day_of_year(year, month, day) <= spec_days_in_year(year),
    decreases 13 - month,
{
    lemma_days_before_month_bound(year, month);
    if month == 12 {
        lemma_days_before_month_full(year);
    } else {
        lemma_day_of_year_bounds(year, month + 1, 1);
    }
}

pub fn day_of_year(year: i32, month: u8, day: u8) -> (r: u16)
    requires
        spec_is_valid_iso_date(year as int, month as int, day as int),
    ensures
        r == spec_day_of_year(year as int, month as int, day as int),
        1 <= r <= spec_days_in_year(year as int),
{
    let mut acc: u16 = 0;
    let mut m: u8 = 1;
    while m < month
        invariant
            1 <= m <= month <= 12,
            acc == spec_days_before_month(year as int, m as int),
            acc <= 31 * (m - 1),
        decreases month - m,
    {
        acc = acc + days_in_month(year, m) as u16;
        m = m + 1;
        proof {
            lemma_days_before_month_bound(year as int, m as int);
        }
    }
    proof {
        lemma_day_of_year_bounds(year as int, month as int, day as int);
    }
    acc + day as u16
}

pub fn is_valid_iso_date(year: i32, month: i32, day: i32) -> (r: bool)
    ensures
        r == spec_is_valid_iso_date(year as int, month as int, day as int),
{
    if month < 1 || month > 12 {
        return false;
    }
    1 <= day && day <= days_in_month(year, month as u8) as i32
}

/// Days from the epoch day 1970-01-01 to the first day of `year`
/// (negative for earlier years).
pub open spec fn spec_days_to_year(year: int) -> int
    decreases (if year >= 1970 { year - 1970 } else { 1970 - year }),
{
    if year == 1970 {
        0
    } else if year > 1970 {
        spec_days_to_year(year - 1) + spec_days_in_year(year - 1)
    } else {
        spec_days_to_year(year + 1) - spec_days_in_year(year)
    }
}

/// Day count from the epoch day 1970-01-01 to the given date.
pub open spec fn spec_epoch_days(year: int, month: int, day: int) -> int {
    spec_days_to_year(year) + spec_day_of_year(year, month, day) - 1
}

/// Each year is 365 or 366 days long, so the day count to a year's first day
/// is bracketed linearly in the year.
proof fn lemma_days_to_year_bounds(year: int)
    ensures
        year >= 1970 ==> 365 * (year - 1970) <= spec_days_to_year(year) <= 366 * (year - 1970),
        year <= 1970 ==> 366 * (year - 1970) <= spec_days_to_year(year) <= 365 * (year - 1970),
    decreases (if year >= 1970 { year - 1970 } else { 1970 - year }),
{
    if year > 1970 {
        lemma_days_to_year_bounds(year - 1);
    } else if year < 1970 {
        lemma_days_to_year_bounds(year + 1);
    }
}

pub fn days_to_year(year: i32) -> (r: i64)
    requires
        -272_005 <= year <= 275_945,
    ensures
        r == spec_days_to_year(year as int),
{
    proof {
        lemma_days_to_year_bounds(year as int);
    }
    let mut acc: i64 = 0;
    if year >= 1970 {
        let mut y: i32 = 1970;
        while y < year
            invariant
                1970 <= y <= year <= 275_945,
                acc == spec_days_to_year(y as int),
            decreases year - y,
        {
            proof {
                lemma_days_to_year_bounds(y as int);
                lemma_days_to_year_bounds(y as int + 1);
            }
            acc = acc + days_in_year(y) as i64;
            y = y + 1;
        }
    } else {
        let mut y: i32 = 1970;
        while y > year
            invariant
                -272_005 <= year <= y <= 1970,
                acc == spec_days_to_year(y as int),
            decreases y - year,
        {
            proof {
                lemma_days_to_year_bounds(y as int);
                lemma_days_to_year_bounds(y as int - 1);
            }
            acc = acc - days_in_year(y - 1) as i64;
            y = y - 1;
        }
    }
    acc
}

pub fn epoch_days(year: i32, month: u8, day: u8) -> (e: i64)
    requires
        spec_is_valid_iso_date(year as int, month as int, day as int),
        -272_005 <= year <= 275_945,
    ensures
        e == spec_epoch_days(year as int, month as int, day as int),
{
    proof {
        lemma_days_to_year_bounds(year as int);
    }
    let to_year: i64 = days_to_year(year);
    let ordinal: u16 = day_of_year(year, month, day);
    to_year + ordinal as i64 - 1
}

/// Nanoseconds of the instant at midday (the fixed reference wall time) of
/// the day `epoch_days` days from the epoch.
pub open spec fn spec_midday_nanoseconds(epoch_days: int) -> int {
    epoch_days * 86_400_000_000_000 + 43_200_000_000_000
}

/// The supported absolute range: the date, paired with the midday reference
/// wall time, must denote an instant within the representable instant span of
/// 8.64 * 10^21 nanoseconds on either side of the epoch.
pub open spec fn spec_is_within_supported_range(year: int, month: int, day: int) -> bool {
    -8_640_000_000_000_000_000_000 <= spec_midday_nanoseconds(
        spec_epoch_days(year, month, day),
    ) <= 8_640_000_000_000_000_000_000
}

/// The supported range, restated over day counts: exactly the days whose
/// midday instant is representable.
proof fn lemma_supported_range_in_days(year: int, month: int, day: int)
    ensures
        spec_is_within_supported_range(year, month, day) <==> -100_000_000 <= spec_epoch_days(
            year,
            month,
            day,
        ) <= 99_999_999,
{
}

/// A date of a year outside the band below lies outside the supported range.
proof fn lemma_year_band(year: int, month: int, day: int)
    requires
        spec_is_valid_iso_date(year, month, day),
    ensures
        year < -272_003 ==> spec_epoch_days(year, month, day) < -100_000_000,
        year > 275_942 ==> spec_epoch_days(year, month, day) > 99_999_999,
{
    lemma_days_to_year_bounds(year);
    lemma_day_of_year_bounds(year, month, day);
}

pub fn is_within_supported_range(year: i32, month: u8, day: u8) -> (r: bool)
    requires
        spec_is_valid_iso_date(year as int, month as int, day as int),
    ensures
        r == spec_is_within_supported_range(year as int, month as int, day as int),
{
    proof {
        lemma_year_band(year as int, month as int, day as int);
        lemma_supported_range_in_days(year as int, month as int, day as int);
    }
    if year < -272_003 || year > 275_942 {
        return false;
    }
    let e: i64 = epoch_days(year, month, day);
    -100_000_000 <= e && e <= 99_999_999
}

impl IsoDate {
    /// The date lies in the supported absolute range.
    pub open spec fn within_supported_range(self) -> bool {
        spec_is_within_supported_range(self.year as int, self.month as int, self.day as int)
    }
}

/// A date in the supported range lies in a year the band above admits.
proof fn lemma_supported_range_year_bounds(year: int, month: int, day: int)
    requires
        spec_is_valid_iso_date(year, month, day),
        spec_is_within_supported_range(year, month, day),
    ensures
        -272_003 <= year <= 275_942,
{
    lemma_supported_range_in_days(year, month, day);
    lemma_year_band(year, month, day);
}

/// Weekday in ISO numbering, Monday = 1 through Sunday = 7, fixed by the day
/// count from the epoch day 1970-01-01, a Thursday.
pub open spec fn spec_day_of_week(year: int, month: int, day: int) -> int {
    (spec_epoch_days(year, month, day) + 3) % 7 + 1
}

pub fn day_of_week(year: i32, month: u8, day: u8) -> (r: u8)
    requires
        spec_is_valid_iso_date(year as int, month as int, day as int),
        spec_is_within_supported_range(year as int, month as int, day as int),
    ensures
        r == spec_day_of_week(year as int, month as int, day as int),
        1 <= r <= 7,
{
    proof {
        lemma_supported_range_year_bounds(year as int, month as int, day as int);
        lemma_supported_range_in_days(year as int, month as int, day as int);
    }
    let e: i64 = epoch_days(year, month, day);
    // Shift by a multiple of 7 so the remainder runs on a non-negative operand.
    let t: u64 = (e + 3 + 700_000_000) as u64;
    proof {
        lemma_mod_multiples_vanish(100_000_000, e as int + 3, 7);
        vstd::arithmetic::div_mod::lemma_mod_division_less_than_divisor(e as int + 3, 7);
    }
    (t % 7) as u8 + 1
}

/// Day count of the Monday beginning week 1 of `year`: the week containing
/// January 4, equivalently the week of the year's first Thursday.
pub open spec fn spec_week1_monday(year: int) -> int {
    let jan4 = spec_epoch_days(year, 1, 4);
    jan4 - ((jan4 + 3) % 7)
}

/// Week 1's Monday lies within three days of the year's first day, and every
/// week-start day count leaves the same remainder by 7.
proof fn lemma_week1_monday_near(year: int)
    ensures
        spec_days_to_year(year) - 3 <= spec_week1_monday(year) <= spec_days_to_year(year) + 3,
        (spec_week1_monday(year) + 3) % 7 == 0,
{
    let jan4 = spec_epoch_days(year, 1, 4);
    assert(jan4 == spec_days_to_year(year) + 3);
    vstd::arithmetic::div_mod::lemma_mod_division_less_than_divisor(jan4 + 3, 7);
    vstd::arithmetic::div_mod::lemma_fundamental_div_mod(jan4 + 3, 7);
    lemma_mod_multiples_basic((jan4 + 3) / 7, 7);
}

/// ISO week-date year: the year whose week 1 Monday is the latest one not
/// after the date. It can differ from the calendar year by one in the first
/// or last days of a year.
pub open spec fn spec_year_of_week(year: int, month: int, day: int) -> int {
    let e = spec_epoch_days(year, month, day);
    if e < spec_week1_monday(year) {
        year - 1
    } else if e >= spec_week1_monday(year + 1) {
        year + 1
    } else {
        year
    }
}

/// ISO week number: one more than the number of whole weeks between the
/// week-date year's week 1 Monday and the date.
pub open spec fn spec_week_of_year(year: int, month: int, day: int) -> int {
    let e = spec_epoch_days(year, month, day);
    (e - spec_week1_monday(spec_year_of_week(year, month, day))) / 7 + 1
}

/// The chosen week-date year brackets the date between its week 1 Monday and
/// the next year's, and the week number falls in 1 through 53.
proof fn lemma_iso_week_characterization(year: int, month: int, day: int)
    requires
        spec_is_valid_iso_date(year, month, day),
    ensures
        ({
            let e = spec_epoch_days(year, month, day);
            let yw = spec_year_of_week(year, month, day);
            &&& spec_week1_monday(yw) <= e < spec_week1_monday(yw + 1)
            &&& year - 1 <= yw <= year + 1
            &&& 0 <= e - spec_week1_monday(yw) <= 370
            &&& 1 <= spec_week_of_year(year, month, day) <= 53
        }),
{
    let e = spec_epoch_days(year, month, day);
    let yw = spec_year_of_week(year, month, day);
    lemma_day_of_year_bounds(year, month, day);
    lemma_week1_monday_near(year - 1);
    lemma_week1_monday_near(year);
    lemma_week1_monday_near(year + 1);
    lemma_week1_monday_near(year + 2);
    assert(spec_days_to_year(year) <= e < spec_days_to_year(year) + spec_days_in_year(year));
    assert(spec_days_to_year(year + 1) == spec_days_to_year(year) + spec_days_in_year(year));
    assert(spec_days_to_year(year + 2) == spec_days_to_year(year + 1) + spec_days_in_year(
        year + 1,
    ));
    assert(spec_days_to_year(year) == spec_days_to_year(year - 1) + spec_days_in_year(year - 1));
    assert(spec_week1_monday(yw) <= e < spec_week1_monday(yw + 1));
    // The gap between consecutive week 1 Mondays is a multiple of 7 of at
    // most 372 days, hence at most 371.
    let gap = spec_week1_monday(yw + 1) - spec_week1_monday(yw);
    assert(gap % 7 == 0) by {
        lemma_week1_monday_near(yw);
        lemma_week1_monday_near(yw + 1);
        vstd::arithmetic::div_mod::lemma_sub_mod_noop(
            spec_week1_monday(yw + 1) + 3,
            spec_week1_monday(yw) + 3,
            7,
        );
    }
    assert(gap <= 372);
    assert(gap <= 371) by {
        if gap == 372 {
            assert(372int % 7 == 1);
        }
    }
    assert(0 <= e - spec_week1_monday(yw) <= 370);
    assert(1 <= spec_week_of_year(year, month, day) <= 53) by {
        vstd::arithmetic::div_mod::lemma_div_pos_is_pos(e - spec_week1_monday(yw), 7);
        vstd::arithmetic::div_mod::lemma_div_is_ordered(e - spec_week1_monday(yw), 370, 7);
        vstd::arithmetic::div_mod::lemma_fundamental_div_mod_converse(370, 7, 52, 6);
    }
}

fn week1_monday(year: i32) -> (w: i64)
    requires
        -272_004 <= year <= 275_943,
    ensures
        w == spec_week1_monday(year as int),
{
    let jan4: i64 = epoch_days(year, 1, 4);
    proof {
        lemma_days_to_year_bounds(year as int);
        lemma_mod_multiples_vanish(100_000_000, jan4 as int + 3, 7);
        vstd::arithmetic::div_mod::lemma_mod_division_less_than_divisor(jan4 as int + 3, 7);
    }
    let t: u64 = (jan4 + 3 + 700_000_000) as u64;
    jan4 - (t % 7) as i64
}

/// ISO week date of a day: its week-date year and week number, derived
/// together since the two are coupled.
pub fn iso_week(year: i32, month: u8, day: u8) -> (r: (i32, u8))
    requires
        spec_is_valid_iso_date(year as int, month as int, day as int),
        spec_is_within_supported_range(year as int, month as int, day as int),
    ensures
        r.0 == spec_year_of_week(year as int, month as int, day as int),
        r.1 == spec_week_of_year(year as int, month as int, day as int),
        1 <= r.1 <= 53,
{
    proof {
        lemma_supported_range_year_bounds(year as int, month as int, day as int);
        lemma_iso_week_characterization(year as int, month as int, day as int);
    }
    let e: i64 = epoch_days(year, month, day);
    let wm: i64 = week1_monday(year);
    if e < wm {
        let wm_prev: i64 = week1_monday(year - 1);
        (year - 1, (((e - wm_prev) as u64 / 7) + 1) as u8)
    } else {
        let wm_next: i64 = week1_monday(year + 1);
        if e >= wm_next {
            (year + 1, (((e - wm_next) as u64 / 7) + 1) as u8)
        } else {
            (year, (((e - wm) as u64 / 7) + 1) as u8)
        }
    }
}

} // verus!
