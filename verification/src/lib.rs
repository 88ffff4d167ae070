//! Lenient scalar coercion for structured-data deserialization.
//!
//! When a field is declared as one target type (`bool`, `i64`, `u64`, text)
//! but the wire payload legally arrives as any of several scalar shapes
//! (null, boolean, signed, unsigned, float, string), the coercers here decide
//! how to reconcile the mismatch instead of rejecting the payload outright.
//!
//! A host deserialization framework classifies each scalar node into a
//! [`SourceValue`] and invokes the coercer selected by the field's declared
//! type. Required coercers ([`as_bool`], [`as_i64`], [`as_u64`], [`as_string`])
//! return the target value or a typed [`CoerceError`]; optional coercers
//! ([`as_opt_bool`], [`as_opt_i64`], [`as_opt_u64`], [`as_opt_string`]) fold
//! every such failure into `None` instead.

use vstd::prelude::*;

pub mod coerce;
pub mod coerce_opt;
pub mod digits;
pub mod fallback;
pub mod laws;
pub mod text;

pub use coerce::{as_bool, as_i64, as_string, as_u64};
pub use coerce_opt::{as_opt_bool, as_opt_i64, as_opt_string, as_opt_u64};

verus! {

/// The projections of a floating-point scalar that the coercers read.
///
/// Verified code gives floating-point values no semantics, so a float on the
/// wire is carried as the plain values derived from it: the host computes
/// these once when it classifies the node, and the coercers work only with
/// them.
pub struct FloatValue {
    /// The float rounded half-away-from-zero, saturated into `i64`.
    pub rounded_signed: i64,
    /// The float rounded half-away-from-zero, saturated into `u64`
    /// (negative floats saturate to zero).
    pub rounded_unsigned: u64,
    /// The float truncated toward zero, saturated into `u8`.
    pub truncated_byte: u8,
    /// The float's canonical decimal rendering.
    pub text: String,
}

/// One deserialized scalar node, classified by the host framework.
///
/// Exactly one coercion call consumes each value; no state is retained
/// between invocations.
pub enum SourceValue {
    /// The wire value is absent or an explicit null.
    Null,
    /// A boolean wire value.
    Bool(bool),
    /// A signed integer wire value.
    Signed(i64),
    /// An unsigned integer wire value.
    Unsigned(u64),
    /// A floating-point wire value, carried as the projections of it that
    /// the coercers read.
    Float(FloatValue),
    /// A text wire value.
    Str(String),
}

/// Why a required coercion failed.
#[derive(Clone, Copy, Debug, PartialEq, Eq, Structural)]
pub enum CoerceError {
    /// The value's shape is fundamentally incompatible with the target,
    /// such as a signed number where a boolean is expected.
    ShapeRejected,
    /// A numeric value lies outside `{0, 1}` for a boolean target, or
    /// exceeds the target integer's representable range.
    OutOfRange,
    /// A non-empty string failed every applicable numeric parse attempt.
    UnparseableText,
}

} // verus!
