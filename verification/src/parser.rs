//! The textual format consumed by the coercion protocol: ISO-8601 calendar
//! date strings, optionally annotated with a calendar identifier in the
//! extended annotation syntax. A date is either the four-digit form
//! `YYYY-MM-DD` or the sign-prefixed six-digit extended-year form
//! `±YYYYYY-MM-DD`; an annotation is `[u-ca=` followed by an identifier of
//! lowercase letters, digits and hyphens, closed by `]`. A successful parse
//! yields a calendar-valid (year, month, day) and the embedded calendar
//! identifier, defaulted to "iso8601" when no annotation is present.

use vstd::prelude::*;
use vstd::string::*;
use crate::error::TemporalError;
use crate::iso;

verus! {

/// The decimal digit characters.
pub open spec fn spec_is_digit(c: char) -> bool {
    48 <= c as u32 <= 57
}

/// The decimal digit characters, by value.
pub open spec fn spec_digit_char(d: int) -> char
    recommends
        0 <= d <= 9,
{
    if d == 0 {
        '0'
    } else if d == 1 {
        '1'
    } else if d == 2 {
        '2'
    } else if d == 3 {
        '3'
    } else if d == 4 {
        '4'
    } else if d == 5 {
        '5'
    } else if d == 6 {
        '6'
    } else if d == 7 {
        '7'
    } else if d == 8 {
        '8'
    } else {
        '9'
    }
}

/// Numeric value of one digit character.
pub open spec fn spec_digit_value(c: char) -> int {
    c as u32 - 48
}

/// Every character of the sequence is a decimal digit.
pub open spec fn spec_all_digits(s: Seq<char>) -> bool {
    forall|i: int| 0 <= i < s.len() ==> spec_is_digit(#[trigger] s[i])
}

/// Value of a digit sequence read as a decimal numeral.
pub open spec fn spec_digits_value(s: Seq<char>) -> int
    decreases s.len(),
{
    if s.len() == 0 {
        0
    } else {
        spec_digits_value(s.drop_last()) * 10 + spec_digit_value(s.last())
    }
}

/// Powers of ten.
pub open spec fn spec_pow10(n: nat) -> int
    decreases n,
{
    if n == 0 {
        1
    } else {
        10 * spec_pow10((n - 1) as nat)
    }
}

/// A digit numeral's value is bounded by the power of ten of its width.
proof fn lemma_digits_value_bound(s: Seq<char>)
    requires
        spec_all_digits(s),
    ensures
        0 <= spec_digits_value(s) < spec_pow10(s.len()),
    decreases s.len(),
{
    if s.len() > 0 {
        assert(spec_all_digits(s.drop_last()));
        lemma_digits_value_bound(s.drop_last());
    }
}

/// Characters allowed in an annotation's calendar identifier: lowercase
/// letters, digits, and hyphens.
pub open spec fn spec_is_annotation_char(c: char) -> bool {
    (97 <= c as u32 <= 122) || spec_is_digit(c) || c == '-'
}

/// Index of the first `[` of the sequence at or after `i`, or the length
/// when there is none.
pub open spec fn spec_bracket_from(s: Seq<char>, i: int) -> int
    recommends
        0 <= i <= s.len(),
    decreases s.len() - i,
{
    if i < 0 || i >= s.len() {
        s.len() as int
    } else if s[i] == '[' {
        i
    } else {
        spec_bracket_from(s, i + 1)
    }
}

/// The date part of an annotated string: everything before the first `[`.
pub open spec fn spec_bracket_index(s: Seq<char>) -> int {
    spec_bracket_from(s, 0)
}

/// The unsigned four-digit date form `YYYY-MM-DD`.
pub open spec fn spec_plain_date_form(s: Seq<char>) -> bool {
    &&& s.len() == 10
    &&& spec_all_digits(s.subrange(0, 4))
    &&& s[4] == '-'
    &&& spec_all_digits(s.subrange(5, 7))
    &&& s[7] == '-'
    &&& spec_all_digits(s.subrange(8, 10))
}

/// The sign-prefixed six-digit extended-year form `±YYYYYY-MM-DD`.
pub open spec fn spec_extended_date_form(s: Seq<char>) -> bool {
    &&& s.len() == 13
    &&& (s[0] == '+' || s[0] == '-')
    &&& spec_all_digits(s.subrange(1, 7))
    &&& s[7] == '-'
    &&& spec_all_digits(s.subrange(8, 10))
    &&& s[10] == '-'
    &&& spec_all_digits(s.subrange(11, 13))
}

/// Fields read from a well-formed date part; `None` for a malformed one.
pub open spec fn spec_parse_date_part(s: Seq<char>) -> Option<(int, int, int)> {
    if spec_plain_date_form(s) {
        Some(
            (
                spec_digits_value(s.subrange(0, 4)),
                spec_digits_value(s.subrange(5, 7)),
                spec_digits_value(s.subrange(8, 10)),
            ),
        )
    } else if spec_extended_date_form(s) {
        let magnitude = spec_digits_value(s.subrange(1, 7));
        Some(
            (
                if s[0] == '-' {
                    -magnitude
                } else {
                    magnitude
                },
                spec_digits_value(s.subrange(8, 10)),
                spec_digits_value(s.subrange(11, 13)),
            ),
        )
    } else {
        None
    }
}

/// The calendar identifier of a well-formed annotation `[u-ca=<id>]`;
/// `None` for a malformed one.
pub open spec fn spec_parse_annotation(s: Seq<char>) -> Option<Seq<char>> {
    if s.len() >= 8 && s.subrange(0, 6) == "[u-ca="@ && s.last() == ']' && (forall|i: int|
        6 <= i < s.len() - 1 ==> spec_is_annotation_char(#[trigger] s[i])) {
        Some(s.subrange(6, s.len() - 1))
    } else {
        None
    }
}

/// The whole textual contract: split at the first `[`, read the date part
/// and the optional calendar annotation, and demand calendar validity of the
/// fields. Malformed text of any kind is a range error.
pub open spec fn spec_parse_iso_date_text(s: Seq<char>) -> Result<
    (int, int, int, Seq<char>),
    TemporalError,
> {
    let cut = spec_bracket_index(s);
    match spec_parse_date_part(s.subrange(0, cut)) {
        None => Err(TemporalError::RangeError),
        Some((y, m, d)) => {
            if cut < s.len() && spec_parse_annotation(s.subrange(cut, s.len() as int)) is None {
                Err(TemporalError::RangeError)
            } else if !iso::spec_is_valid_iso_date(y, m, d) {
                Err(TemporalError::RangeError)
            } else {
                let calendar_id = if cut == s.len() {
                    "iso8601"@
                } else {
                    spec_parse_annotation(s.subrange(cut, s.len() as int)).unwrap()
                };
                Ok((y, m, d, calendar_id))
            }
        },
    }
}

/// Reads the decimal value of `s[start..end]`, or `None` where some
/// character is not a digit.
fn parse_digits(s: &str, start: usize, end: usize) -> (r: Option<u32>)
    requires
        start <= end <= s@.len(),
        end - start <= 6,
    ensures
        r is Some <==> spec_all_digits(s@.subrange(start as int, end as int)),
        r matches Some(v) ==> v == spec_digits_value(s@.subrange(start as int, end as int)),
{
    let mut acc: u32 = 0;
    let mut i: usize = start;
    proof {
        assert(s@.subrange(start as int, start as int) =~= Seq::<char>::empty());
    }
    while i < end
        invariant
            start <= i <= end <= s@.len(),
            end - start <= 6,
            spec_all_digits(s@.subrange(start as int, i as int)),
            acc == spec_digits_value(s@.subrange(start as int, i as int)),
            acc < spec_pow10((i - start) as nat),
        decreases end - i,
    {
        let c: char = s.get_char(i);
        let code: u32 = c as u32;
        if code < 48 || code > 57 {
            proof {
                assert(s@.subrange(start as int, end as int)[i - start] == s@[i as int]);
            }
            return None;
        }
        proof {
            let prefix = s@.subrange(start as int, i as int);
            let next = s@.subrange(start as int, i + 1);
            assert(next.drop_last() =~= prefix);
            assert(next.last() == s@[i as int]);
            assert(spec_all_digits(next)) by {
                assert(forall|j: int|
                    0 <= j < next.len() - 1 ==> #[trigger] next[j] == prefix[j]);
            }
            assert(spec_pow10((i - start) as nat) <= spec_pow10(5)) by {
                lemma_pow10_increases((i - start) as nat, 5);
            }
            assert(spec_pow10(5) == 100_000) by {
                reveal_with_fuel(spec_pow10, 6);
            }
        }
        acc = acc * 10 + (code - 48);
        i = i + 1;
    }
    Some(acc)
}

/// Powers of ten do not decrease with the exponent.
proof fn lemma_pow10_increases(a: nat, b: nat)
    requires
        a <= b,
    ensures
        spec_pow10(a) <= spec_pow10(b),
    decreases b,
{
    if a < b {
        lemma_pow10_increases(a, (b - 1) as nat);
        lemma_pow10_pos(a);
    }
}

/// Powers of ten are positive.
proof fn lemma_pow10_pos(n: nat)
    ensures
        spec_pow10(n) >= 1,
    decreases n,
{
    if n > 0 {
        lemma_pow10_pos((n - 1) as nat);
    }
}

/// Index of the first `[` of the string, or its length.
fn find_bracket(s: &str, n: usize) -> (r: usize)
    requires
        n == s@.len(),
    ensures
        r == spec_bracket_index(s@),
        r <= n,
{
    let mut i: usize = 0;
    while i < n
        invariant
            0 <= i <= n == s@.len(),
            spec_bracket_index(s@) == spec_bracket_from(s@, i as int),
        decreases n - i,
    {
        if s.get_char(i) == '[' {
            return i;
        }
        i = i + 1;
    }
    i
}

/// Reads the fields of a date part, which is the first `cut` characters of
/// `s`; `None` where it matches neither date form.
fn parse_date_part(s: &str, cut: usize) -> (r: Option<(i32, u8, u8)>)
    requires
        cut <= s@.len(),
    ensures
        ({
            let model = spec_parse_date_part(s@.subrange(0, cut as int));
            &&& r is Some <==> model is Some
            &&& r matches Some(v) ==> model matches Some(mv) && v.0 == mv.0 && v.1 == mv.1
                && v.2 == mv.2
        }),
{
    let ghost p = s@.subrange(0, cut as int);
    if cut == 10 {
        if s.get_char(4) != '-' || s.get_char(7) != '-' {
            return None;
        }
        proof {
            assert(p.subrange(0, 4) =~= s@.subrange(0, 4));
            assert(p.subrange(5, 7) =~= s@.subrange(5, 7));
            assert(p.subrange(8, 10) =~= s@.subrange(8, 10));
        }
        let year4: u32 = match parse_digits(s, 0, 4) {
            Some(v) => v,
            None => {
                return None;
            },
        };
        let month2: u32 = match parse_digits(s, 5, 7) {
            Some(v) => v,
            None => {
                return None;
            },
        };
        let day2: u32 = match parse_digits(s, 8, 10) {
            Some(v) => v,
            None => {
                return None;
            },
        };
        proof {
            lemma_digits_value_bound(s@.subrange(0, 4));
            lemma_digits_value_bound(s@.subrange(5, 7));
            lemma_digits_value_bound(s@.subrange(8, 10));
            reveal_with_fuel(spec_pow10, 7);
        }
        Some((year4 as i32, month2 as u8, day2 as u8))
    } else if cut == 13 {
        let sign: char = s.get_char(0);
        if sign != '+' && sign != '-' {
            return None;
        }
        if s.get_char(7) != '-' || s.get_char(10) != '-' {
            return None;
        }
        proof {
            assert(p.subrange(1, 7) =~= s@.subrange(1, 7));
            assert(p.subrange(8, 10) =~= s@.subrange(8, 10));
            assert(p.subrange(11, 13) =~= s@.subrange(11, 13));
        }
        let year6: u32 = match parse_digits(s, 1, 7) {
            Some(v) => v,
            None => {
                return None;
            },
        };
        let month2: u32 = match parse_digits(s, 8, 10) {
            Some(v) => v,
            None => {
                return None;
            },
        };
        let day2: u32 = match parse_digits(s, 11, 13) {
            Some(v) => v,
            None => {
                return None;
            },
        };
        proof {
            lemma_digits_value_bound(s@.subrange(1, 7));
            lemma_digits_value_bound(s@.subrange(8, 10));
            lemma_digits_value_bound(s@.subrange(11, 13));
            reveal_with_fuel(spec_pow10, 7);
        }
        let year: i32 = if sign == '-' {
            -(year6 as i32)
        } else {
            year6 as i32
        };
        Some((year, month2 as u8, day2 as u8))
    } else {
        None
    }
}

/// Reads the calendar identifier of the annotation that is the characters
/// `cut..n` of `s`; `None` where it is not a well-formed `[u-ca=<id>]`.
fn parse_annotation(s: &str, cut: usize, n: usize) -> (r: Option<String>)
    requires
        cut < n,
        n == s@.len(),
    ensures
        ({
            let model = spec_parse_annotation(s@.subrange(cut as int, n as int));
            &&& r is Some <==> model is Some
            &&& r matches Some(v) ==> model matches Some(mv) && v@ == mv
        }),
{
    let ghost sub = s@.subrange(cut as int, n as int);
    proof {
        reveal_strlit("[u-ca=");
    }
    if n - cut < 8 {
        return None;
    }
    if s.get_char(cut) != '[' || s.get_char(cut + 1) != 'u' || s.get_char(cut + 2) != '-'
        || s.get_char(cut + 3) != 'c' || s.get_char(cut + 4) != 'a' || s.get_char(cut + 5)
        != '=' {
        proof {
            if sub.subrange(0, 6) == "[u-ca="@ {
                let lit = "[u-ca="@;
                assert(sub.subrange(0, 6)[0] == lit[0]);
                assert(sub.subrange(0, 6)[1] == lit[1]);
                assert(sub.subrange(0, 6)[2] == lit[2]);
                assert(sub.subrange(0, 6)[3] == lit[3]);
                assert(sub.subrange(0, 6)[4] == lit[4]);
                assert(sub.subrange(0, 6)[5] == lit[5]);
                assert(sub[0] == s@[cut as int]);
                assert(sub[1] == s@[cut + 1]);
                assert(sub[2] == s@[cut + 2]);
                assert(sub[3] == s@[cut + 3]);
                assert(sub[4] == s@[cut + 4]);
                assert(sub[5] == s@[cut + 5]);
            }
        }
        return None;
    }
    proof {
        assert(sub.subrange(0, 6) =~= "[u-ca="@);
    }
    if s.get_char(n - 1) != ']' {
        proof {
            assert(sub.last() == s@[n - 1]);
        }
        return None;
    }
    let mut i: usize = cut + 6;
    while i < n - 1
        invariant
            cut + 6 <= i <= n - 1,
            n == s@.len(),
            cut + 8 <= n,
            forall|j: int| cut + 6 <= j < i ==> spec_is_annotation_char(#[trigger] s@[j]),
        decreases n - i,
    {
        let c: char = s.get_char(i);
        let code: u32 = c as u32;
        if !((97 <= code && code <= 122) || (48 <= code && code <= 57) || c == '-') {
            proof {
                assert(s@.subrange(cut as int, n as int)[i - cut] == s@[i as int]);
            }
            return None;
        }
        i = i + 1;
    }
    let id: String = s.substring_char(cut + 6, n - 1).to_owned();
    proof {
        assert(id@ =~= sub.subrange(6, sub.len() - 1));
        assert(forall|k: int| 6 <= k < sub.len() - 1 ==> #[trigger] sub[k] == s@[k + cut]);
        assert(sub.last() == s@[n - 1]);
        assert(spec_parse_annotation(sub) is Some);
    }
    Some(id)
}

/// Parses an ISO-8601 calendar date string, per the grammar this module
/// states: on success the calendar-valid fields and the embedded or
/// defaulted calendar identifier, on malformed or calendar-invalid text a
/// range error.
pub fn parse_iso_date_text(s: &str) -> (r: Result<(i32, u8, u8, String), TemporalError>)
    ensures
        ({
            let model = spec_parse_iso_date_text(s@);
            &&& r is Ok <==> model is Ok
            &&& r matches Ok(v) ==> model matches Ok(mv) && v.0 == mv.0 && v.1 == mv.1 && v.2
                == mv.2 && v.3@ == mv.3
            &&& r matches Err(e) ==> model matches Err(me) && e == me
        }),
{
    let n: usize = s.unicode_len();
    let cut: usize = find_bracket(s, n);
    let (year, month, day) = match parse_date_part(s, cut) {
        Some(v) => v,
        None => {
            return Err(TemporalError::RangeError);
        },
    };
    let calendar_id: String = if cut == n {
        "iso8601".to_owned()
    } else {
        match parse_annotation(s, cut, n) {
            Some(id) => id,
            None => {
                return Err(TemporalError::RangeError);
            },
        }
    };
    if !iso::is_valid_iso_date(year, month as i32, day as i32) {
        return Err(TemporalError::RangeError);
    }
    Ok((year, month, day, calendar_id))
}

} // verus!
