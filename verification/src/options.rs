//! The options record consumed by construction and coercion: a mapping with
//! at most the key `overflow`, whose value selects how out-of-range numeric
//! fields are handled.

use vstd::prelude::*;
use crate::error::TemporalError;

verus! {

/// The overflow policy: clamp out-of-range month/day fields to the nearest
/// valid value, or reject them. Defaults to `Constrain` when absent.
#[derive(Clone, Copy, PartialEq, Eq, Structural, Debug)]
pub enum ArithmeticOverflow {
    Constrain,
    Reject,
}

/// An options record. The only recognized key is `overflow`; its value is
/// carried as raw text, exactly as the caller supplied it.
#[derive(Debug)]
pub struct OptionsRecord {
    pub overflow: Option<String>,
}

impl OptionsRecord {
    /// The raw `overflow` value as a character sequence, when present.
    pub open spec fn overflow_view(self) -> Option<Seq<char>> {
        match self.overflow {
            Some(s) => Some(s@),
            None => None,
        }
    }
}

/// The recognized `overflow` values: "constrain" and "reject". An absent key
/// defaults to `Constrain`; any other text is a range error.
pub open spec fn spec_parse_overflow(value: Option<Seq<char>>) -> Result<
    ArithmeticOverflow,
    TemporalError,
> {
    match value {
        None => Ok(ArithmeticOverflow::Constrain),
        Some(s) => if s == "constrain"@ {
            Ok(ArithmeticOverflow::Constrain)
        } else if s == "reject"@ {
            Ok(ArithmeticOverflow::Reject)
        } else {
            Err(TemporalError::RangeError)
        },
    }
}

/// Reads the `overflow` option out of an options record, defaulting an
/// absent record or key to `Constrain`.
pub fn get_overflow_option(options: &Option<OptionsRecord>) -> (r: Result<
    ArithmeticOverflow,
    TemporalError,
>)
    ensures
        r == spec_parse_overflow(spec_options_overflow(*options)),
{
    match options {
        None => Ok(ArithmeticOverflow::Constrain),
        Some(record) => match &record.overflow {
            None => Ok(ArithmeticOverflow::Constrain),
            Some(value) => {
                let constrain: String = "constrain".to_owned();
                let reject: String = "reject".to_owned();
                if value.eq(&constrain) {
                    Ok(ArithmeticOverflow::Constrain)
                } else if value.eq(&reject) {
                    Ok(ArithmeticOverflow::Reject)
                } else {
                    Err(TemporalError::RangeError)
                }
            },
        },
    }
}

/// The raw `overflow` value of an optional options record; an absent record
/// carries no keys.
pub open spec fn spec_options_overflow(options: Option<OptionsRecord>) -> Option<Seq<char>> {
    match options {
        None => None,
        Some(record) => record.overflow_view(),
    }
}

} // verus!
