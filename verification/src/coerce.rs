//! Required coercers: one per target type, consuming a [`SourceValue`] and
//! producing the target value or a typed [`CoerceError`].

use vstd::prelude::*;
use vstd::string::*;

use crate::digits::{
    dec_digits, is_i64_numeral, is_u64_numeral, i64_numeral_value, u64_numeral_value, parse_i64,
    parse_u64, render_bool, render_i64, render_u64, signed_dec_digits,
};
use crate::fallback::{float_mag64, float_neg, is_float_text, parse_float_text};
use crate::text::{is_truthy, truthy_text};
use crate::{CoerceError, SourceValue};

verus! {

/// What boolean coercion returns for each input shape: `Null` counts as
/// `false`, integers and float bytes must be zero or one, and text maps
/// through the truthy vocabulary, with unrecognized text degrading to
/// `false`.
pub open spec fn spec_as_bool(v: SourceValue) -> Result<bool, CoerceError> {
    match v {
        SourceValue::Null => Ok(false),
        SourceValue::Bool(b) => Ok(b),
        SourceValue::Signed(_) => Err(CoerceError::ShapeRejected),
        SourceValue::Unsigned(x) => if x == 0 {
            Ok(false)
        } else if x == 1 {
            Ok(true)
        } else {
            Err(CoerceError::OutOfRange)
        },
        SourceValue::Float(f) => if f.truncated_byte == 0 {
            Ok(false)
        } else if f.truncated_byte == 1 {
            Ok(true)
        } else {
            Err(CoerceError::OutOfRange)
        },
        SourceValue::Str(s) => Ok(truthy_text(s@)),
    }
}

/// What text yields for an unsigned target: an exact numeral's value;
/// zero for the empty string; a rounded float-looking value with negative
/// magnitudes saturating to zero; `None` for anything else.
pub open spec fn text_as_u64(s: Seq<char>) -> Option<u64> {
    if is_u64_numeral(s) {
        Some(u64_numeral_value(s) as u64)
    } else if s.len() == 0 {
        Some(0u64)
    } else if is_float_text(s) {
        Some(
            if float_neg(s) {
                0u64
            } else {
                float_mag64(s)
            },
        )
    } else {
        None
    }
}

/// A signed magnitude saturated into `i64`, the way a float-to-integer
/// cast saturates.
pub open spec fn sat_mag_i64(neg: bool, mag: u64) -> i64 {
    if neg {
        if mag >= 9223372036854775808u64 {
            i64::MIN
        } else {
            (-(mag as int)) as i64
        }
    } else {
        if mag > 9223372036854775807u64 {
            i64::MAX
        } else {
            mag as i64
        }
    }
}

/// What text yields for a signed target: an exact numeral's value; zero
/// for the empty string; a rounded float-looking value saturated into
/// range; `None` for anything else.
pub open spec fn text_as_i64(s: Seq<char>) -> Option<i64> {
    if is_i64_numeral(s) {
        Some(i64_numeral_value(s) as i64)
    } else if s.len() == 0 {
        Some(0i64)
    } else if is_float_text(s) {
        Some(sat_mag_i64(float_neg(s), float_mag64(s)))
    } else {
        None
    }
}

/// What unsigned coercion returns for each input shape.
pub open spec fn spec_as_u64(v: SourceValue) -> Result<u64, CoerceError> {
    match v {
        SourceValue::Null => Ok(0u64),
        SourceValue::Bool(_) => Err(CoerceError::ShapeRejected),
        SourceValue::Signed(x) => if x < 0 {
            Err(CoerceError::OutOfRange)
        } else {
            Ok(x as u64)
        },
        SourceValue::Unsigned(x) => Ok(x),
        SourceValue::Float(f) => Ok(f.rounded_unsigned),
        SourceValue::Str(s) => match text_as_u64(s@) {
            Some(n) => Ok(n),
            None => Err(CoerceError::UnparseableText),
        },
    }
}

/// What signed coercion returns for each input shape.
pub open spec fn spec_as_i64(v: SourceValue) -> Result<i64, CoerceError> {
    match v {
        SourceValue::Null => Ok(0i64),
        SourceValue::Bool(_) => Err(CoerceError::ShapeRejected),
        SourceValue::Signed(x) => Ok(x),
        SourceValue::Unsigned(x) => if x > 9223372036854775807u64 {
            Err(CoerceError::OutOfRange)
        } else {
            Ok(x as i64)
        },
        SourceValue::Float(f) => Ok(f.rounded_signed),
        SourceValue::Str(s) => match text_as_i64(s@) {
            Some(n) => Ok(n),
            None => Err(CoerceError::UnparseableText),
        },
    }
}

/// The canonical text of each input shape: the empty string for `Null`,
/// `true`/`false` for booleans, base-ten digits for numbers, the float's
/// own rendering, and text unchanged.
pub open spec fn render_text(v: SourceValue) -> Seq<char> {
    match v {
        SourceValue::Null => Seq::<char>::empty(),
        SourceValue::Bool(b) => if b {
            "true"@
        } else {
            "false"@
        },
        SourceValue::Signed(x) => signed_dec_digits(x as int),
        SourceValue::Unsigned(x) => dec_digits(x as nat),
        SourceValue::Float(f) => f.text@,
        SourceValue::Str(s) => s@,
    }
}

/// Runs the unsigned text chain: exact parse, empty default, float
/// fallback.
pub fn text_to_u64(s: &str) -> (r: Option<u64>)
    ensures
        r == text_as_u64(s@),
{
    match parse_u64(s) {
        Some(n) => Some(n),
        None => {
            if s.unicode_len() == 0 {
                return Some(0);
            }
            match parse_float_text(s) {
                Some(p) => Some(
                    if p.0 {
                        0
                    } else {
                        p.1
                    },
                ),
                None => None,
            }
        },
    }
}

/// Runs the signed text chain: exact parse, empty default, float fallback.
pub fn text_to_i64(s: &str) -> (r: Option<i64>)
    ensures
        r == text_as_i64(s@),
{
    match parse_i64(s) {
        Some(n) => Some(n),
        None => {
            if s.unicode_len() == 0 {
                return Some(0);
            }
            match parse_float_text(s) {
                Some(p) => {
                    let neg = p.0;
                    let mag = p.1;
                    if neg {
                        if mag >= 9223372036854775808 {
                            Some(i64::MIN)
                        } else {
                            Some(-(mag as i64))
                        }
                    } else {
                        if mag > 9223372036854775807 {
                            Some(i64::MAX)
                        } else {
                            Some(mag as i64)
                        }
                    }
                },
                None => None,
            }
        },
    }
}

/// Coerces one scalar node to `bool`, or says why it cannot be.
pub fn as_bool(v: SourceValue) -> (r: Result<bool, CoerceError>)
    ensures
        r == spec_as_bool(v),
{
    match v {
        SourceValue::Null => Ok(false),
        SourceValue::Bool(b) => Ok(b),
        SourceValue::Signed(_) => Err(CoerceError::ShapeRejected),
        SourceValue::Unsigned(x) => {
            if x == 0 {
                Ok(false)
            } else if x == 1 {
                Ok(true)
            } else {
                Err(CoerceError::OutOfRange)
            }
        },
        SourceValue::Float(f) => {
            if f.truncated_byte == 0 {
                Ok(false)
            } else if f.truncated_byte == 1 {
                Ok(true)
            } else {
                Err(CoerceError::OutOfRange)
            }
        },
        SourceValue::Str(s) => Ok(is_truthy(s.as_str())),
    }
}

/// Coerces one scalar node to `u64`, or says why it cannot be.
pub fn as_u64(v: SourceValue) -> (r: Result<u64, CoerceError>)
    ensures
        r == spec_as_u64(v),
{
    match v {
        SourceValue::Null => Ok(0),
        SourceValue::Bool(_) => Err(CoerceError::ShapeRejected),
        SourceValue::Signed(x) => {
            if x < 0 {
                Err(CoerceError::OutOfRange)
            } else {
                Ok(x as u64)
            }
        },
        SourceValue::Unsigned(x) => Ok(x),
        SourceValue::Float(f) => Ok(f.rounded_unsigned),
        SourceValue::Str(s) => {
            match text_to_u64(s.as_str()) {
                Some(n) => Ok(n),
                None => Err(CoerceError::UnparseableText),
            }
        },
    }
}

/// Coerces one scalar node to `i64`, or says why it cannot be.
pub fn as_i64(v: SourceValue) -> (r: Result<i64, CoerceError>)
    ensures
        r == spec_as_i64(v),
{
    match v {
        SourceValue::Null => Ok(0),
        SourceValue::Bool(_) => Err(CoerceError::ShapeRejected),
        SourceValue::Signed(x) => Ok(x),
        SourceValue::Unsigned(x) => {
            if x > 9223372036854775807 {
                Err(CoerceError::OutOfRange)
            } else {
                Ok(x as i64)
            }
        },
        SourceValue::Float(f) => Ok(f.rounded_signed),
        SourceValue::Str(s) => {
            match text_to_i64(s.as_str()) {
                Some(n) => Ok(n),
                None => Err(CoerceError::UnparseableText),
            }
        },
    }
}

/// Coerces one scalar node to its canonical text; this never fails.
pub fn as_string(v: SourceValue) -> (r: Result<String, CoerceError>)
    ensures
        r matches Ok(t) && t@ == render_text(v),
{
    match v {
        SourceValue::Null => Ok(String::new()),
        SourceValue::Bool(b) => Ok(render_bool(b)),
        SourceValue::Signed(x) => Ok(render_i64(x)),
        SourceValue::Unsigned(x) => Ok(render_u64(x)),
        SourceValue::Float(f) => Ok(f.text),
        SourceValue::Str(s) => Ok(s),
    }
}

} // verus!
