//! The required coercers, shape by shape.

use serde_this_or_that::{as_bool, as_i64, as_string, as_u64, FloatValue, SourceValue};

fn float_input(x: f64) -> SourceValue {
    SourceValue::Float(FloatValue {
        rounded_signed: x.round() as i64,
        rounded_unsigned: x.round() as u64,
        truncated_byte: x as u8,
        text: x.to_string(),
    })
}

#[test]
fn test_as_string_with_string() {
    let r = as_string(SourceValue::Str("Hello".to_owned()));
    assert_eq!(r, Ok("Hello".to_owned()));
}

#[test]
fn test_as_string_with_null() {
    let r = as_string(SourceValue::Null);
    assert_eq!(r, Ok("".to_owned()));
}

#[test]
fn test_as_string_with_number() {
    let r = as_string(SourceValue::Unsigned(123));
    assert_eq!(r, Ok("123".to_owned()));
}

#[test]
fn test_as_string_with_boolean() {
    let r = as_string(SourceValue::Bool(true));
    assert_eq!(r, Ok("true".to_owned()));
}

#[test]
fn test_as_string_with_empty_string() {
    let r = as_string(SourceValue::Str("".to_owned()));
    assert_eq!(r, Ok("".to_owned()));
}

#[test]
fn test_truthy_values() {
    let truthy_values = ["1", "OK", "ON", "T", "TRUE", "Y", "YES"];
    for value in truthy_values {
        let r = as_bool(SourceValue::Str(value.to_owned()));
        assert_eq!(r, Ok(true));
    }
}

#[test]
fn test_falsy_values() {
    let falsy_values = ["0", "OFF", "F", "FALSE", "N", "NO"];
    for value in falsy_values {
        let r = as_bool(SourceValue::Str(value.to_owned()));
        assert_eq!(r, Ok(false));
    }
}

#[test]
fn test_as_bool_with_null() {
    let r = as_bool(SourceValue::Null);
    assert_eq!(r, Ok(false));
}

#[test]
fn test_invalid_boolean() {
    let r = as_bool(SourceValue::Str("INVALID".to_owned()));
    assert_eq!(r, Ok(false));
}

#[test]
fn test_as_i64_with_integer() {
    let r = as_i64(SourceValue::Unsigned(123));
    assert_eq!(r, Ok(123));
}

#[test]
fn test_as_i64_with_string() {
    let r = as_i64(SourceValue::Str("123".to_owned()));
    assert_eq!(r, Ok(123));
}

#[test]
fn test_as_i64_with_float() {
    let r = as_i64(float_input(123.45));
    assert_eq!(r, Ok(123));
}

#[test]
fn test_as_i64_with_null() {
    let r = as_i64(SourceValue::Null);
    assert_eq!(r, Ok(0));
}

#[test]
fn test_as_i64_with_max_value() {
    let r = as_i64(SourceValue::Unsigned(i64::MAX as u64));
    assert_eq!(r, Ok(i64::MAX));
}

#[test]
fn test_as_i64_with_overflow() {
    let r = as_i64(SourceValue::Unsigned(u64::MAX));
    assert!(r.is_err());
}

#[test]
fn test_as_u64_with_integer() {
    let r = as_u64(SourceValue::Unsigned(123));
    assert_eq!(r, Ok(123));
}

#[test]
fn test_as_u64_with_string() {
    let r = as_u64(SourceValue::Str("123".to_owned()));
    assert_eq!(r, Ok(123));
}

#[test]
fn test_as_u64_with_float() {
    let r = as_u64(float_input(123.45));
    assert_eq!(r, Ok(123));
}

#[test]
fn test_as_u64_with_null() {
    let r = as_u64(SourceValue::Null);
    assert_eq!(r, Ok(0));
}

#[test]
fn test_as_u64_with_negative_number() {
    let r = as_u64(SourceValue::Signed(-1));
    assert!(r.is_err());
}

#[test]
fn test_as_u64_with_large_value() {
    let r = as_u64(SourceValue::Unsigned(u64::MAX));
    assert_eq!(r, Ok(u64::MAX));
}
