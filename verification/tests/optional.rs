//! The optional coercers, shape by shape.

use serde_this_or_that::{as_opt_bool, as_opt_i64, as_opt_string, as_opt_u64, FloatValue,
    SourceValue};

fn opt_float_input(x: f64) -> SourceValue {
    SourceValue::Float(FloatValue {
        rounded_signed: x.round() as i64,
        rounded_unsigned: x.round() as u64,
        truncated_byte: x as u8,
        text: x.to_string(),
    })
}

#[test]
fn test_as_opt_bool_with_truthy_values() {
    let truthy_values = ["1", "OK", "ON", "T", "TRUE", "Y", "YES"];
    for value in truthy_values {
        let r = as_opt_bool(SourceValue::Str(value.to_owned()));
        assert_eq!(r, Some(true));
    }
}

#[test]
fn test_as_opt_bool_with_falsy_values() {
    let falsy_values = ["0", "OFF", "F", "FALSE", "N", "NO"];
    for value in falsy_values {
        let r = as_opt_bool(SourceValue::Str(value.to_owned()));
        assert_eq!(r, Some(false));
    }
}

#[test]
fn test_as_opt_bool_with_null() {
    let r = as_opt_bool(SourceValue::Null);
    assert_eq!(r, None);
}

#[test]
fn test_as_opt_bool_with_invalid() {
    let r = as_opt_bool(SourceValue::Str("INVALID".to_owned()));
    assert_eq!(r, None);
}

#[test]
fn test_as_opt_i64_with_integer() {
    let r = as_opt_i64(SourceValue::Unsigned(123));
    assert_eq!(r, Some(123));
}

#[test]
fn test_as_opt_i64_with_string() {
    let r = as_opt_i64(SourceValue::Str("123".to_owned()));
    assert_eq!(r, Some(123));
}

#[test]
fn test_as_opt_i64_with_float() {
    let r = as_opt_i64(opt_float_input(123.45));
    assert_eq!(r, Some(123));
}

#[test]
fn test_as_opt_i64_with_null() {
    let r = as_opt_i64(SourceValue::Null);
    assert_eq!(r, None);
}

#[test]
fn test_as_opt_i64_with_invalid() {
    let r = as_opt_i64(SourceValue::Str("INVALID".to_owned()));
    assert_eq!(r, None);
}

#[test]
fn test_as_opt_string_with_string() {
    let r = as_opt_string(SourceValue::Str("Hello".to_owned()));
    assert_eq!(r, Some("Hello".to_owned()));
}

#[test]
fn test_as_opt_string_with_number() {
    let r = as_opt_string(SourceValue::Unsigned(123));
    assert_eq!(r, Some("123".to_owned()));
}

#[test]
fn test_as_opt_string_with_boolean() {
    let r = as_opt_string(SourceValue::Bool(true));
    assert_eq!(r, Some("true".to_owned()));
}

#[test]
fn test_as_opt_string_with_null() {
    let r = as_opt_string(SourceValue::Null);
    assert_eq!(r, None);
}

#[test]
fn test_as_opt_u64_with_integer() {
    let r = as_opt_u64(SourceValue::Unsigned(123));
    assert_eq!(r, Some(123));
}

#[test]
fn test_as_opt_u64_with_string() {
    let r = as_opt_u64(SourceValue::Str("123".to_owned()));
    assert_eq!(r, Some(123));
}

#[test]
fn test_as_opt_u64_with_float() {
    let r = as_opt_u64(opt_float_input(123.45));
    assert_eq!(r, Some(123));
}

#[test]
fn test_as_opt_u64_with_null() {
    let r = as_opt_u64(SourceValue::Null);
    assert_eq!(r, None);
}

#[test]
fn test_as_opt_u64_with_negative() {
    let r = as_opt_u64(SourceValue::Signed(-1));
    assert_eq!(r, None);
}
