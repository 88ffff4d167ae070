//! The rules that hold across the coercers, stated and proved once:
//! what `Null` yields everywhere, which inputs never convert, and how each
//! optional coercer relates to its required counterpart.

use vstd::prelude::*;

use crate::coerce::{render_text, spec_as_bool, spec_as_i64, spec_as_u64};
use crate::coerce_opt::{spec_as_opt_bool, spec_as_opt_i64, spec_as_opt_u64};
use crate::text::lemma_truthy_falsy_disjoint;
use crate::{CoerceError, SourceValue};

verus! {

/// `Null` deterministically yields each target's zero value from the
/// required coercers — `false`, `0`, the empty string — and "absent" from
/// the optional ones.
pub proof fn lemma_null_yields_zero()
    ensures
        spec_as_bool(SourceValue::Null) == Ok::<bool, CoerceError>(false),
        spec_as_u64(SourceValue::Null) == Ok::<u64, CoerceError>(0u64),
        spec_as_i64(SourceValue::Null) == Ok::<i64, CoerceError>(0i64),
        render_text(SourceValue::Null) == Seq::<char>::empty(),
        spec_as_opt_bool(SourceValue::Null) is None,
        spec_as_opt_u64(SourceValue::Null) is None,
        spec_as_opt_i64(SourceValue::Null) is None,
{
}

/// A negative signed number never widens to unsigned: the required
/// coercer reports it out of range and the optional one yields "absent".
pub proof fn lemma_negative_signed_never_unsigned(x: i64)
    requires
        x < 0,
    ensures
        spec_as_u64(SourceValue::Signed(x)) == Err::<u64, CoerceError>(CoerceError::OutOfRange),
        spec_as_opt_u64(SourceValue::Signed(x)) is None,
{
}

/// An unsigned number beyond the signed range never narrows to signed:
/// the required coercer reports it out of range and the optional one
/// yields "absent".
pub proof fn lemma_unsigned_overflow_never_signed(x: u64)
    requires
        x > 9223372036854775807u64,
    ensures
        spec_as_i64(SourceValue::Unsigned(x)) == Err::<i64, CoerceError>(CoerceError::OutOfRange),
        spec_as_opt_i64(SourceValue::Unsigned(x)) is None,
{
}

/// Optional unsigned coercion differs from the required one exactly at
/// the failure points: where it is present the required coercer succeeds
/// with the same value, and it is absent only for `Null`, booleans, the
/// empty string — which the required coercer instead defaults to zero —
/// and the inputs the required coercer rejects.
pub proof fn lemma_opt_u64_vs_required(v: SourceValue)
    ensures
        (spec_as_opt_u64(v) matches Some(n) ==> spec_as_u64(v) == Ok::<u64, CoerceError>(n)),
        (spec_as_opt_u64(v) is None ==> v is Null || v is Bool || (v matches SourceValue::Str(s)
            && s@.len() == 0) || spec_as_u64(v) is Err),
        (spec_as_u64(v) matches Ok(n) ==> v is Null || v is Bool || (v matches
        SourceValue::Str(s) && s@.len() == 0) || spec_as_opt_u64(v) == Some(n)),
{
}

/// Optional signed coercion differs from the required one exactly at the
/// failure points, in the same way as the unsigned pair.
pub proof fn lemma_opt_i64_vs_required(v: SourceValue)
    ensures
        (spec_as_opt_i64(v) matches Some(n) ==> spec_as_i64(v) == Ok::<i64, CoerceError>(n)),
        (spec_as_opt_i64(v) is None ==> v is Null || v is Bool || (v matches SourceValue::Str(s)
            && s@.len() == 0) || spec_as_i64(v) is Err),
        (spec_as_i64(v) matches Ok(n) ==> v is Null || v is Bool || (v matches
        SourceValue::Str(s) && s@.len() == 0) || spec_as_opt_i64(v) == Some(n)),
{
}

/// Where optional boolean coercion is present, the required coercer
/// succeeds with the same value; where it is absent, the required coercer
/// either fails or — for `Null` and unrecognized text — defaults to
/// `false`.
pub proof fn lemma_opt_bool_vs_required(v: SourceValue)
    ensures
        (spec_as_opt_bool(v) matches Some(b) ==> spec_as_bool(v) == Ok::<bool, CoerceError>(b)),
        (spec_as_opt_bool(v) is None ==> spec_as_bool(v) is Err || spec_as_bool(v) == Ok::<
            bool,
            CoerceError,
        >(false)),
{
    match v {
        SourceValue::Str(s) => {
            lemma_truthy_falsy_disjoint(s@);
        },
        _ => {},
    }
}

} // verus!
