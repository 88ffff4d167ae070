//! Optional coercers: the same targets as the required set, but every shape
//! or content mismatch degrades to "absent" instead of failing.

use vstd::prelude::*;
use vstd::string::*;

use crate::coerce::{render_text, sat_mag_i64};
use crate::digits::{
    is_i64_numeral, is_u64_numeral, i64_numeral_value, u64_numeral_value, parse_i64, parse_u64,
    render_bool, render_i64, render_u64,
};
use crate::fallback::{float_mag64, float_neg, is_float_text, parse_float_text};
use crate::text::{falsy_text, is_falsy, is_truthy, truthy_text};
use crate::{CoerceError, SourceValue};

verus! {

/// What optional boolean coercion returns: as the required rules, but
/// `Null`, signed numbers, out-of-range numbers and unrecognized text all
/// yield "absent", and the falsy vocabulary yields a present `false`.
pub open spec fn spec_as_opt_bool(v: SourceValue) -> Option<bool> {
    match v {
        SourceValue::Null => None,
        SourceValue::Bool(b) => Some(b),
        SourceValue::Signed(_) => None,
        SourceValue::Unsigned(x) => if x == 0 {
            Some(false)
        } else if x == 1 {
            Some(true)
        } else {
            None
        },
        SourceValue::Float(f) => if f.truncated_byte == 0 {
            Some(false)
        } else if f.truncated_byte == 1 {
            Some(true)
        } else {
            None
        },
        SourceValue::Str(s) => if truthy_text(s@) {
            Some(true)
        } else if falsy_text(s@) {
            Some(false)
        } else {
            None
        },
    }
}

/// What text yields for an optional unsigned target: as the required
/// chain, except that the empty string is "absent" rather than zero.
pub open spec fn text_as_opt_u64(s: Seq<char>) -> Option<u64> {
    if is_u64_numeral(s) {
        Some(u64_numeral_value(s) as u64)
    } else if s.len() == 0 {
        None
    } else if is_float_text(s) {
        Some(
            if float_neg(s) {
                0u64
            } else {
                float_mag64(s)
            },
        )
    } else {
        None
    }
}

/// What text yields for an optional signed target: as the required chain,
/// except that the empty string is "absent" rather than zero.
pub open spec fn text_as_opt_i64(s: Seq<char>) -> Option<i64> {
    if is_i64_numeral(s) {
        Some(i64_numeral_value(s) as i64)
    } else if s.len() == 0 {
        None
    } else if is_float_text(s) {
        Some(sat_mag_i64(float_neg(s), float_mag64(s)))
    } else {
        None
    }
}

/// What optional unsigned coercion returns for each input shape.
pub open spec fn spec_as_opt_u64(v: SourceValue) -> Option<u64> {
    match v {
        SourceValue::Null => None,
        SourceValue::Bool(_) => None,
        SourceValue::Signed(x) => if x < 0 {
            None
        } else {
            Some(x as u64)
        },
        SourceValue::Unsigned(x) => Some(x),
        SourceValue::Float(f) => Some(f.rounded_unsigned),
        SourceValue::Str(s) => text_as_opt_u64(s@),
    }
}

/// What optional signed coercion returns for each input shape.
pub open spec fn spec_as_opt_i64(v: SourceValue) -> Option<i64> {
    match v {
        SourceValue::Null => None,
        SourceValue::Bool(_) => None,
        SourceValue::Signed(x) => Some(x),
        SourceValue::Unsigned(x) => if x > 9223372036854775807u64 {
            None
        } else {
            Some(x as i64)
        },
        SourceValue::Float(f) => Some(f.rounded_signed),
        SourceValue::Str(s) => text_as_opt_i64(s@),
    }
}

/// Runs the optional unsigned text chain.
pub fn text_to_opt_u64(s: &str) -> (r: Option<u64>)
    ensures
        r == text_as_opt_u64(s@),
{
    match parse_u64(s) {
        Some(n) => Some(n),
        None => {
            if s.unicode_len() == 0 {
                return None;
            }
            match parse_float_text(s) {
                Some(p) => Some(
                    if p.0 {
                        0
                    } else {
                        p.1
                    },
                ),
                None => None,
            }
        },
    }
}

/// Runs the optional signed text chain.
pub fn text_to_opt_i64(s: &str) -> (r: Option<i64>)
    ensures
        r == text_as_opt_i64(s@),
{
    match parse_i64(s) {
        Some(n) => Some(n),
        None => {
            if s.unicode_len() == 0 {
                return None;
            }
            match parse_float_text(s) {
                Some(p) => {
                    let neg = p.0;
                    let mag = p.1;
                    if neg {
                        if mag >= 9223372036854775808 {
                            Some(i64::MIN)
                        } else {
                            Some(-(mag as i64))
                        }
                    } else {
                        if mag > 9223372036854775807 {
                            Some(i64::MAX)
                        } else {
                            Some(mag as i64)
                        }
                    }
                },
                None => None,
            }
        },
    }
}

/// Coerces one scalar node to an optional `bool`; mismatches are "absent".
pub fn as_opt_bool(v: SourceValue) -> (r: Option<bool>)
    ensures
        r == spec_as_opt_bool(v),
{
    match v {
        SourceValue::Null => None,
        SourceValue::Bool(b) => Some(b),
        SourceValue::Signed(_) => None,
        SourceValue::Unsigned(x) => {
            if x == 0 {
                Some(false)
            } else if x == 1 {
                Some(true)
            } else {
                None
            }
        },
        SourceValue::Float(f) => {
            if f.truncated_byte == 0 {
                Some(false)
            } else if f.truncated_byte == 1 {
                Some(true)
            } else {
                None
            }
        },
        SourceValue::Str(s) => {
            if is_truthy(s.as_str()) {
                Some(true)
            } else if is_falsy(s.as_str()) {
                Some(false)
            } else {
                None
            }
        },
    }
}

/// Coerces one scalar node to an optional `u64`; mismatches are "absent".
pub fn as_opt_u64(v: SourceValue) -> (r: Option<u64>)
    ensures
        r == spec_as_opt_u64(v),
{
    match v {
        SourceValue::Null => None,
        SourceValue::Bool(_) => None,
        SourceValue::Signed(x) => {
            if x < 0 {
                None
            } else {
                Some(x as u64)
            }
        },
        SourceValue::Unsigned(x) => Some(x),
        SourceValue::Float(f) => Some(f.rounded_unsigned),
        SourceValue::Str(s) => text_to_opt_u64(s.as_str()),
    }
}

/// Coerces one scalar node to an optional `i64`; mismatches are "absent".
pub fn as_opt_i64(v: SourceValue) -> (r: Option<i64>)
    ensures
        r == spec_as_opt_i64(v),
{
    match v {
        SourceValue::Null => None,
        SourceValue::Bool(_) => None,
        SourceValue::Signed(x) => Some(x),
        SourceValue::Unsigned(x) => {
            if x > 9223372036854775807 {
                None
            } else {
                Some(x as i64)
            }
        },
        SourceValue::Float(f) => Some(f.rounded_signed),
        SourceValue::Str(s) => text_to_opt_i64(s.as_str()),
    }
}

/// Coerces one scalar node to optional text: `Null` is "absent", and every
/// other shape is present with its canonical text, the empty string
/// included.
pub fn as_opt_string(v: SourceValue) -> (r: Option<String>)
    ensures
        match r {
            Some(t) => !(v is Null) && t@ == render_text(v),
            None => v is Null,
        },
{
    match v {
        SourceValue::Null => None,
        SourceValue::Bool(b) => Some(render_bool(b)),
        SourceValue::Signed(x) => Some(render_i64(x)),
        SourceValue::Unsigned(x) => Some(render_u64(x)),
        SourceValue::Float(f) => Some(f.text),
        SourceValue::Str(s) => Some(s),
    }
}

} // verus!
