//! Edge cases: the error taxonomy, the numeric text fallback with its
//! rounding and saturation, the boolean vocabularies, and the canonical
//! renderings.

use serde_this_or_that::{
    as_bool, as_i64, as_opt_bool, as_opt_i64, as_opt_string, as_opt_u64, as_string, as_u64,
    CoerceError, FloatValue, SourceValue,
};

fn fv(x: f64) -> SourceValue {
    SourceValue::Float(FloatValue {
        rounded_signed: x.round() as i64,
        rounded_unsigned: x.round() as u64,
        truncated_byte: x as u8,
        text: x.to_string(),
    })
}

fn txt(s: &str) -> SourceValue {
    SourceValue::Str(s.to_owned())
}

#[test]
fn serde_this_or_that_works() {
    let is_active = as_bool(txt("True")).unwrap();
    let num_attempts = as_u64(txt("3")).unwrap();
    assert!(is_active);
    assert_eq!(num_attempts, 3);
}

#[test]
fn unsigned_rejects_negative_signed_with_out_of_range() {
    assert_eq!(as_u64(SourceValue::Signed(-1)), Err(CoerceError::OutOfRange));
    assert_eq!(as_opt_u64(SourceValue::Signed(-1)), None);
}

#[test]
fn signed_rejects_unsigned_max_with_out_of_range() {
    assert_eq!(as_i64(SourceValue::Unsigned(u64::MAX)), Err(CoerceError::OutOfRange));
    assert_eq!(as_opt_i64(SourceValue::Unsigned(u64::MAX)), None);
}

#[test]
fn bool_truthy_text_in_both_cases() {
    for value in ["YES", "yes", "Y", "1", "T", "TRUE", "tRuE"] {
        assert_eq!(as_bool(txt(value)), Ok(true), "{value}");
    }
    for value in ["0", "F", "false", "off", "no"] {
        assert_eq!(as_bool(txt(value)), Ok(false), "{value}");
    }
    assert_eq!(as_bool(txt("garbage")), Ok(false));
}

#[test]
fn opt_bool_falsy_vocabulary_and_garbage() {
    for value in ["NG", "OFF", "N", "no", "ng"] {
        assert_eq!(as_opt_bool(txt(value)), Some(false), "{value}");
    }
    assert_eq!(as_opt_bool(txt("garbage")), None);
}

#[test]
fn bool_rejects_numbers_outside_zero_one() {
    assert_eq!(as_bool(SourceValue::Signed(1)), Err(CoerceError::ShapeRejected));
    assert_eq!(as_bool(SourceValue::Unsigned(7)), Err(CoerceError::OutOfRange));
    assert_eq!(as_bool(SourceValue::Unsigned(0)), Ok(false));
    assert_eq!(as_bool(SourceValue::Unsigned(1)), Ok(true));
    assert_eq!(as_opt_bool(SourceValue::Signed(1)), None);
    assert_eq!(as_opt_bool(SourceValue::Unsigned(7)), None);
}

#[test]
fn bool_reads_float_through_its_truncated_byte() {
    assert_eq!(as_bool(fv(1.9)), Ok(true));
    assert_eq!(as_bool(fv(0.2)), Ok(false));
    assert_eq!(as_bool(fv(-1.0)), Ok(false));
    assert_eq!(as_bool(fv(255.5)), Err(CoerceError::OutOfRange));
    assert_eq!(as_opt_bool(fv(2.5)), None);
}

#[test]
fn integer_coercers_reject_booleans() {
    assert_eq!(as_u64(SourceValue::Bool(true)), Err(CoerceError::ShapeRejected));
    assert_eq!(as_i64(SourceValue::Bool(false)), Err(CoerceError::ShapeRejected));
    assert_eq!(as_opt_u64(SourceValue::Bool(true)), None);
    assert_eq!(as_opt_i64(SourceValue::Bool(false)), None);
}

#[test]
fn unsigned_text_fallback_rounds_half_away() {
    assert_eq!(as_u64(txt("123.9")), Ok(124));
    assert_eq!(as_u64(txt("")), Ok(0));
    assert_eq!(as_u64(txt("2.5")), Ok(3));
    assert_eq!(as_u64(txt("0.5")), Ok(1));
    assert_eq!(as_u64(txt(".5")), Ok(1));
    assert_eq!(as_u64(txt("0.49")), Ok(0));
    assert_eq!(as_u64(txt("1e3")), Ok(1000));
    assert_eq!(as_u64(txt("1.25E2")), Ok(125));
    assert_eq!(as_u64(txt("+123")), Ok(123));
}

#[test]
fn signed_text_fallback_rounds_half_away() {
    assert_eq!(as_i64(txt("-2.5")), Ok(-3));
    assert_eq!(as_i64(txt("-0.5")), Ok(-1));
    assert_eq!(as_i64(txt("-0.4")), Ok(0));
    assert_eq!(as_i64(txt("-123")), Ok(-123));
    assert_eq!(as_i64(txt("123.45")), Ok(123));
    assert_eq!(as_i64(txt("")), Ok(0));
}

#[test]
fn text_fallback_saturates_like_a_cast() {
    assert_eq!(as_u64(txt("inf")), Ok(u64::MAX));
    assert_eq!(as_u64(txt("-inf")), Ok(0));
    assert_eq!(as_u64(txt("nan")), Ok(0));
    assert_eq!(as_u64(txt("-5")), Ok(0));
    assert_eq!(as_u64(txt("18446744073709551616")), Ok(u64::MAX));
    assert_eq!(as_u64(txt("1e30")), Ok(u64::MAX));
    assert_eq!(as_i64(txt("inf")), Ok(i64::MAX));
    assert_eq!(as_i64(txt("-inf")), Ok(i64::MIN));
    assert_eq!(as_i64(txt("nan")), Ok(0));
    assert_eq!(as_i64(txt("9223372036854775808")), Ok(i64::MAX));
    assert_eq!(as_i64(txt("-9223372036854775809")), Ok(i64::MIN));
    assert_eq!(as_i64(txt("-1e25")), Ok(i64::MIN));
}

#[test]
fn unparseable_text_is_an_error_only_when_required() {
    assert_eq!(as_u64(txt("xyz")), Err(CoerceError::UnparseableText));
    assert_eq!(as_i64(txt("12px")), Err(CoerceError::UnparseableText));
    assert_eq!(as_u64(txt(" 1")), Err(CoerceError::UnparseableText));
    assert_eq!(as_u64(txt("1.2.3")), Err(CoerceError::UnparseableText));
    assert_eq!(as_u64(txt("1e")), Err(CoerceError::UnparseableText));
    assert_eq!(as_opt_u64(txt("xyz")), None);
    assert_eq!(as_opt_i64(txt("12px")), None);
    assert_eq!(as_opt_u64(txt("")), None);
    assert_eq!(as_opt_i64(txt("")), None);
}

#[test]
fn optional_text_keeps_an_empty_string_present() {
    assert_eq!(as_opt_string(txt("")), Some("".to_owned()));
    assert_eq!(as_opt_string(SourceValue::Null), None);
}

#[test]
fn renderings_are_canonical() {
    assert_eq!(as_string(SourceValue::Signed(-42)), Ok("-42".to_owned()));
    assert_eq!(as_string(SourceValue::Signed(i64::MIN)), Ok("-9223372036854775808".to_owned()));
    assert_eq!(as_string(SourceValue::Unsigned(0)), Ok("0".to_owned()));
    assert_eq!(as_string(SourceValue::Unsigned(u64::MAX)), Ok("18446744073709551615".to_owned()));
    assert_eq!(as_string(SourceValue::Bool(false)), Ok("false".to_owned()));
    assert_eq!(as_string(fv(1.5)), Ok("1.5".to_owned()));
    assert_eq!(as_opt_string(fv(-2.25)), Some("-2.25".to_owned()));
    assert_eq!(as_opt_string(SourceValue::Signed(-42)), Some("-42".to_owned()));
}

#[test]
fn null_yields_every_zero_value() {
    assert_eq!(as_bool(SourceValue::Null), Ok(false));
    assert_eq!(as_u64(SourceValue::Null), Ok(0));
    assert_eq!(as_i64(SourceValue::Null), Ok(0));
    assert_eq!(as_string(SourceValue::Null), Ok(String::new()));
    assert_eq!(as_opt_bool(SourceValue::Null), None);
    assert_eq!(as_opt_u64(SourceValue::Null), None);
    assert_eq!(as_opt_i64(SourceValue::Null), None);
    assert_eq!(as_opt_string(SourceValue::Null), None);
}

#[test]
fn exact_integer_text_still_wins_over_the_fallback() {
    assert_eq!(as_u64(txt("18446744073709551615")), Ok(u64::MAX));
    assert_eq!(as_i64(txt("-9223372036854775808")), Ok(i64::MIN));
    assert_eq!(as_i64(txt("9223372036854775807")), Ok(i64::MAX));
    assert_eq!(as_opt_u64(txt("+7")), Some(7));
}
