//! The numeric fallback shared by the integer coercers: text that fails an
//! exact integer parse may still be float-looking (`123.9`, `1.2e3`, `inf`).
//! Such text is read as a decimal number and rounded half-away-from-zero,
//! and the magnitude saturates into `u64` the way a float-to-integer cast
//! does; the integer coercers then apply the sign and their own range.

use vstd::prelude::*;
use vstd::string::*;

use crate::digits::{
    all_digits, dec_value, digit_val, digits_end, is_digit, pow10, digit_run_end,
    lemma_dec_value_step, lemma_dec_value_zeros, lemma_dec_value_skip_zeros,
    lemma_dec_value_lower, lemma_digits_end, lemma_pow10_20, lemma_pow10_add, lemma_pow10_mono,
    lemma_pow10_pos,
};
use crate::text::ci_eq;

verus! {

/// Length of the sign prefix: one for a leading `+` or `-`, else zero.
pub open spec fn sign_len(s: Seq<char>) -> int {
    if s.len() >= 1 && (s[0] == '+' || s[0] == '-') {
        1
    } else {
        0
    }
}

/// The text carries a leading minus sign.
pub open spec fn float_neg(s: Seq<char>) -> bool {
    s.len() >= 1 && s[0] == '-'
}

/// The text after its sign prefix.
pub open spec fn float_body(s: Seq<char>) -> Seq<char> {
    s.skip(sign_len(s))
}

/// The body spells `nan`, in any case.
pub open spec fn is_nan_body(b: Seq<char>) -> bool {
    ci_eq(b, "nan"@)
}

/// The body spells `inf` or `infinity`, in any case.
pub open spec fn is_inf_body(b: Seq<char>) -> bool {
    ci_eq(b, "inf"@) || ci_eq(b, "infinity"@)
}

/// Where the integer digits of the body end.
pub open spec fn int_end(b: Seq<char>) -> int {
    digits_end(b, 0)
}

/// A decimal point follows the integer digits.
pub open spec fn body_has_dot(b: Seq<char>) -> bool {
    int_end(b) < b.len() && b[int_end(b)] == '.'
}

/// Where the fraction digits of the body begin.
pub open spec fn frac_start(b: Seq<char>) -> int {
    if body_has_dot(b) {
        int_end(b) + 1
    } else {
        int_end(b)
    }
}

/// Where the fraction digits of the body end.
pub open spec fn frac_end(b: Seq<char>) -> int {
    digits_end(b, frac_start(b))
}

/// An exponent marker follows the mantissa.
pub open spec fn body_has_exp(b: Seq<char>) -> bool {
    frac_end(b) < b.len() && (b[frac_end(b)] == 'e' || b[frac_end(b)] == 'E')
}

/// The exponent carries a minus sign.
pub open spec fn exp_neg(b: Seq<char>) -> bool {
    body_has_exp(b) && frac_end(b) + 1 < b.len() && b[frac_end(b) + 1] == '-'
}

/// Where the exponent digits begin.
pub open spec fn exp_digits_start(b: Seq<char>) -> int {
    let a = frac_end(b) + 1;
    if a < b.len() && (b[a] == '+' || b[a] == '-') {
        a + 1
    } else {
        a
    }
}

/// The body is a decimal number: at least one mantissa digit, at most one
/// decimal point, and, if an exponent marker occurs, a signed digit run
/// that reaches the end.
pub open spec fn is_numeric_body(b: Seq<char>) -> bool {
    let ie = int_end(b);
    let fs = frac_start(b);
    let fe = frac_end(b);
    (ie > 0 || fe > fs) && (if body_has_exp(b) {
        let es = exp_digits_start(b);
        es < b.len() && digits_end(b, es) == b.len()
    } else {
        fe == b.len()
    })
}

/// All mantissa digits of the body, with the decimal point removed.
pub open spec fn mantissa_digits(b: Seq<char>) -> Seq<char> {
    b.subrange(0, int_end(b)) + b.subrange(frac_start(b), frac_end(b))
}

/// How many of the mantissa digits are fraction digits.
pub open spec fn frac_len(b: Seq<char>) -> int {
    frac_end(b) - frac_start(b)
}

/// The signed value of the exponent, or zero when there is none.
pub open spec fn exp_value(b: Seq<char>) -> int {
    if body_has_exp(b) {
        let v = dec_value(b.subrange(exp_digits_start(b), b.len() as int)) as int;
        if exp_neg(b) {
            -v
        } else {
            v
        }
    } else {
        0
    }
}

/// How many of the number's digit positions lie left of the decimal point
/// once the exponent is applied to the mantissa digits.
pub open spec fn point_pos(b: Seq<char>) -> int {
    mantissa_digits(b).len() + exp_value(b) - frac_len(b)
}

/// The integer formed by the first `k` digit positions of `d`, with zeros
/// supplied past the end of `d`; zero when `k` is not positive.
pub open spec fn padded_value(d: Seq<char>, k: int) -> nat {
    if k <= 0 {
        0
    } else if k <= d.len() {
        dec_value(d.take(k))
    } else {
        dec_value(d) * pow10((k - d.len()) as nat)
    }
}

/// Rounding half-away-from-zero moves up exactly when the first digit
/// right of the point is five or more.
pub open spec fn round_up(d: Seq<char>, k: int) -> bool {
    0 <= k < d.len() && digit_val(d[k]) >= 5
}

/// The magnitude of the number with mantissa digits `d` and `k` digit
/// positions left of the point, rounded half-away-from-zero.
pub open spec fn rounded_magnitude(d: Seq<char>, k: int) -> nat {
    padded_value(d, k) + if round_up(d, k) {
        1nat
    } else {
        0nat
    }
}

/// `s` is float-looking text: an optional sign, then `nan`, `inf`,
/// `infinity` (in any case) or a decimal number.
pub open spec fn is_float_text(s: Seq<char>) -> bool {
    let b = float_body(s);
    b.len() >= 1 && (is_nan_body(b) || is_inf_body(b) || is_numeric_body(b))
}

/// The rounded magnitude of float-looking text, saturated into `u64`:
/// `nan` counts as zero and an infinity as `u64::MAX`, as a float-to-integer
/// cast would have it.
pub open spec fn float_mag64(s: Seq<char>) -> u64 {
    let b = float_body(s);
    if is_nan_body(b) {
        0
    } else if is_inf_body(b) {
        u64::MAX
    } else {
        let m = rounded_magnitude(mantissa_digits(b), point_pos(b));
        if m > u64::MAX {
            u64::MAX
        } else {
            m as u64
        }
    }
}

/// Reading one more digit position multiplies the padded value by ten and
/// adds that position's digit.
proof fn lemma_padded_step(d: Seq<char>, k: int)
    requires
        k >= 0,
    ensures
        padded_value(d, k + 1) == padded_value(d, k) * 10 + (if k < d.len() {
            digit_val(d[k])
        } else {
            0
        }),
{
    if k + 1 <= d.len() {
        lemma_dec_value_step(d, k);
        if k == 0 {
            assert(d.take(0) =~= Seq::<char>::empty());
        }
    } else if k == d.len() {
        assert(d.take(k) =~= d);
        assert(pow10(1) == 10 * pow10(0));
    } else {
        let p = pow10((k - d.len()) as nat);
        assert(pow10((k + 1 - d.len()) as nat) == 10 * p);
        assert(dec_value(d) * (10 * p) == (dec_value(d) * p) * 10) by (nonlinear_arith);
    }
}

/// A value whose first `lz` digits are zero and whose next digit is not
/// has at least `k - lz` significant digit positions among its first `k`.
proof fn lemma_padded_lower(d: Seq<char>, k: int, lz: int)
    requires
        0 <= lz < d.len(),
        forall|j: int| 0 <= j < lz ==> digit_val(#[trigger] d[j]) == 0,
        digit_val(d[lz]) >= 1,
        k > lz,
    ensures
        padded_value(d, k) >= pow10((k - lz - 1) as nat),
{
    if k <= d.len() {
        let t = d.take(k);
        lemma_dec_value_skip_zeros(t, lz);
        lemma_dec_value_lower(t.skip(lz));
    } else {
        let t = d;
        lemma_dec_value_skip_zeros(t, lz);
        lemma_dec_value_lower(t.skip(lz));
        let a = (d.len() - lz - 1) as nat;
        let e = (k - d.len()) as nat;
        lemma_pow10_add(a, e);
        lemma_pow10_pos(e);
        assert(dec_value(d) * pow10(e) >= pow10(a) * pow10(e)) by (nonlinear_arith)
            requires
                dec_value(d) >= pow10(a),
                pow10(e) >= 1,
        ;
    }
}

/// With `k` far beyond the digits, the value is zero when the digits are
/// all zero and beyond `u64` otherwise.
proof fn lemma_rounded_huge(d: Seq<char>, k: int)
    requires
        k >= d.len() + 21,
    ensures
        dec_value(d) == 0 ==> rounded_magnitude(d, k) == 0,
        dec_value(d) >= 1 ==> rounded_magnitude(d, k) > u64::MAX,
{
    let e = (k - d.len()) as nat;
    lemma_pow10_mono(20, e);
    lemma_pow10_20();
    if dec_value(d) >= 1 {
        assert(dec_value(d) * pow10(e) >= pow10(e)) by (nonlinear_arith)
            requires
                dec_value(d) >= 1,
        ;
    }
}

/// The digit at virtual position `k` of the mantissa: the integer digits
/// `[0, ie)` of `b` followed by the fraction digits `[fs, fe)`.
fn mant_digit(b: &str, ie: usize, fs: usize, fe: usize, k: usize) -> (c: char)
    requires
        ie <= fs <= fe <= b@.len(),
        k < ie + (fe - fs),
    ensures
        c == (b@.subrange(0, ie as int) + b@.subrange(fs as int, fe as int))[k as int],
{
    if k < ie {
        b.get_char(k)
    } else {
        b.get_char(fs + (k - ie))
    }
}

/// Counts the zero digits that open the mantissa.
fn mant_zero_run(b: &str, ie: usize, fs: usize, fe: usize) -> (lz: usize)
    requires
        ie <= fs <= fe <= b@.len(),
        all_digits(b@.subrange(0, ie as int)),
        all_digits(b@.subrange(fs as int, fe as int)),
    ensures
        ({
            let d = b@.subrange(0, ie as int) + b@.subrange(fs as int, fe as int);
            lz <= d.len() && (forall|j: int| 0 <= j < lz ==> digit_val(#[trigger] d[j]) == 0) && (
            lz < d.len() ==> digit_val(d[lz as int]) != 0)
        }),
{
    let ghost d = b@.subrange(0, ie as int) + b@.subrange(fs as int, fe as int);
    let n = ie + (fe - fs);
    let mut k: usize = 0;
    while k < n
        invariant
            ie <= fs <= fe <= b@.len(),
            all_digits(b@.subrange(0, ie as int)),
            all_digits(b@.subrange(fs as int, fe as int)),
            d == b@.subrange(0, ie as int) + b@.subrange(fs as int, fe as int),
            n == d.len(),
            k <= n,
            forall|j: int| 0 <= j < k ==> digit_val(#[trigger] d[j]) == 0,
        decreases n - k,
    {
        let c = mant_digit(b, ie, fs, fe, k);
        let cu = c as u32;
        if cu != 48 {
            assert(is_digit(d[k as int]));
            return k;
        }
        k += 1;
    }
    k
}

/// The value of a run of exponent digits, saturated at ten to the twentieth
/// power: far more than any mantissa this machine can hold could offset.
fn exp_value_capped(b: &str, from: usize, to: usize) -> (r: i128)
    requires
        from <= to <= b@.len(),
        all_digits(b@.subrange(from as int, to as int)),
    ensures
        ({
            let v = dec_value(b@.subrange(from as int, to as int));
            0 <= r <= 100000000000000000000i128 && (v >= 100000000000000000000 ==> r
                == 100000000000000000000i128) && (v < 100000000000000000000 ==> r as nat == v)
        }),
{
    let ghost d = b@.subrange(from as int, to as int);
    let mut acc: i128 = 0;
    let mut i: usize = from;
    while i < to
        invariant
            from <= i <= to <= b@.len(),
            d == b@.subrange(from as int, to as int),
            all_digits(d),
            0 <= acc <= 100000000000000000000i128,
            dec_value(d.take(i - from)) >= 100000000000000000000 ==> acc
                == 100000000000000000000i128,
            dec_value(d.take(i - from)) < 100000000000000000000 ==> acc as nat == dec_value(
                d.take(i - from),
            ),
        decreases to - i,
    {
        let c = b.get_char(i) as u32;
        assert(is_digit(d[i - from]));
        let dv = (c - 48) as i128;
        proof {
            lemma_dec_value_step(d, i - from);
        }
        if acc < 100000000000000000000i128 {
            let nxt = acc * 10 + dv;
            if nxt >= 100000000000000000000i128 {
                acc = 100000000000000000000i128;
            } else {
                acc = nxt;
            }
        }
        i += 1;
    }
    proof {
        assert(d.take(to - from) =~= d);
    }
    acc
}

/// The rounded magnitude of the number whose mantissa digits are the
/// integer digits `[0, ie)` and fraction digits `[fs, fe)` of `b`, with
/// `ipos` digit positions left of the point, saturated into `u64`.
fn round_mantissa(b: &str, ie: usize, fs: usize, fe: usize, ipos: i128) -> (mag: u64)
    requires
        ie <= fs <= fe <= b@.len(),
        all_digits(b@.subrange(0, ie as int)),
        all_digits(b@.subrange(fs as int, fe as int)),
    ensures
        ({
            let d = b@.subrange(0, ie as int) + b@.subrange(fs as int, fe as int);
            let m = rounded_magnitude(d, ipos as int);
            (m > u64::MAX ==> mag == u64::MAX) && (m <= u64::MAX ==> mag as nat == m)
        }),
{
    let ghost d = b@.subrange(0, ie as int) + b@.subrange(fs as int, fe as int);
    let n = ie + (fe - fs);
    assert(all_digits(d));
    let lz = mant_zero_run(b, ie, fs, fe);
    if lz == n {
        // every digit is zero, so the value is zero wherever the point sits
        proof {
            if 0 < ipos as int <= d.len() {
                lemma_dec_value_zeros(d.take(ipos as int));
            }
            if ipos as int > d.len() {
                lemma_dec_value_zeros(d);
            }
        }
        return 0;
    }
    if ipos <= 0 {
        if ipos == 0 {
            let c = mant_digit(b, ie, fs, fe, 0) as u32;
            if c >= 53 {
                return 1;
            } else {
                return 0;
            }
        }
        return 0;
    }
    if ipos > lz as i128 + 20 {
        // at least twenty-one significant digit positions left of the point
        proof {
            lemma_padded_lower(d, ipos as int, lz as int);
            lemma_pow10_mono(20, (ipos as int - lz - 1) as nat);
            lemma_pow10_20();
        }
        return u64::MAX;
    }
    let mut acc: u64 = 0;
    let mut sat: bool = false;
    if ipos <= lz as i128 {
        // only zero digits lie left of the point
        proof {
            lemma_dec_value_zeros(d.take(ipos as int));
        }
    } else {
        let mut k: i128 = lz as i128;
        proof {
            lemma_dec_value_zeros(d.take(lz as int));
        }
        while k < ipos
            invariant
                ie <= fs <= fe <= b@.len(),
                all_digits(b@.subrange(0, ie as int)),
                all_digits(b@.subrange(fs as int, fe as int)),
                d == b@.subrange(0, ie as int) + b@.subrange(fs as int, fe as int),
                n == d.len(),
                lz <= n,
                lz as i128 <= k <= ipos,
                ipos <= lz as i128 + 20,
                !sat ==> acc as nat == padded_value(d, k as int),
                sat ==> padded_value(d, k as int) > u64::MAX,
            decreases ipos - k,
        {
            let dig: u64 = if k < n as i128 {
                let c = mant_digit(b, ie, fs, fe, k as usize) as u32;
                assert(is_digit(d[k as int]));
                (c - 48) as u64
            } else {
                0
            };
            proof {
                lemma_padded_step(d, k as int);
            }
            if sat {
            } else if acc > 1844674407370955161 || (acc == 1844674407370955161 && dig > 5) {
                sat = true;
            } else {
                acc = acc * 10 + dig;
            }
            k += 1;
        }
    }
    let up: bool = if ipos < n as i128 {
        let c = mant_digit(b, ie, fs, fe, ipos as usize) as u32;
        assert(is_digit(d[ipos as int]));
        c >= 53
    } else {
        false
    };
    if sat {
        u64::MAX
    } else if up {
        if acc == u64::MAX {
            u64::MAX
        } else {
            acc + 1
        }
    } else {
        acc
    }
}

/// Reads float-looking text and returns its sign and its magnitude rounded
/// half-away-from-zero, saturated into `u64`; `None` when the text is not
/// float-looking.
#[verifier::rlimit(100)]
pub fn parse_float_text(s: &str) -> (r: Option<(bool, u64)>)
    ensures
        match r {
            None => !is_float_text(s@),
            Some(p) => is_float_text(s@) && p.0 == float_neg(s@) && p.1 == float_mag64(s@),
        },
{
    let len = s.unicode_len();
    let neg = len >= 1 && s.get_char(0) == '-';
    let start: usize = if len >= 1 && (s.get_char(0) == '+' || s.get_char(0) == '-') {
        1
    } else {
        0
    };
    let b = s.substring_char(start, len);
    proof {
        assert(b@ =~= float_body(s@));
    }
    if start == len {
        return None;
    }
    if crate::text::str_ci_eq(b, "nan") {
        return Some((neg, 0));
    }
    if crate::text::str_ci_eq(b, "inf") || crate::text::str_ci_eq(b, "infinity") {
        return Some((neg, u64::MAX));
    }
    let blen = b.unicode_len();
    let ie = digit_run_end(b, 0);
    proof {
        lemma_digits_end(b@, 0);
        assert(ie as int == int_end(b@));
    }
    let hasdot = ie < blen && b.get_char(ie) == '.';
    let fs: usize = if hasdot {
        ie + 1
    } else {
        ie
    };
    proof {
        assert(hasdot == body_has_dot(b@));
        assert(fs as int == frac_start(b@));
    }
    let fe = digit_run_end(b, fs);
    proof {
        lemma_digits_end(b@, fs as int);
        assert(fe as int == frac_end(b@));
    }
    if ie == 0 && fe == fs {
        return None;
    }
    let mut expneg = false;
    let ghost mut true_exp_mag: nat = 0;
    let mut expcap: i128 = 0;
    if fe < blen {
        let c = b.get_char(fe);
        if !(c == 'e' || c == 'E') {
            return None;
        }
        assert(body_has_exp(b@));
        let mut es: usize = fe + 1;
        if es < blen {
            let c2 = b.get_char(es);
            if c2 == '-' {
                expneg = true;
                es += 1;
            } else if c2 == '+' {
                es += 1;
            }
        }
        proof {
            assert(es as int == exp_digits_start(b@));
            assert(expneg == exp_neg(b@));
        }
        if es >= blen {
            return None;
        }
        let de = digit_run_end(b, es);
        proof {
            lemma_digits_end(b@, es as int);
        }
        if de != blen {
            return None;
        }
        proof {
            true_exp_mag = dec_value(b@.subrange(es as int, blen as int));
        }
        expcap = exp_value_capped(b, es, blen);
        proof {
            assert(exp_value(b@) == if exp_neg(b@) {
                -(true_exp_mag as int)
            } else {
                true_exp_mag as int
            });
        }
    } else {
        proof {
            assert(!body_has_exp(b@));
            assert(exp_value(b@) == 0);
        }
    }
    assert(is_numeric_body(b@));
    let n: i128 = ie as i128 + (fe - fs) as i128;
    let fraclen: i128 = (fe - fs) as i128;
    let shift: i128 = (if expneg {
        -expcap
    } else {
        expcap
    }) - fraclen;
    let ipos: i128 = n + shift;
    let ghost d = mantissa_digits(b@);
    let ghost pp = point_pos(b@);
    let mag = round_mantissa(b, ie, fs, fe, ipos);
    proof {
        assert(d == b@.subrange(0, ie as int) + b@.subrange(fs as int, fe as int));
        assert(d.len() == n as int);
        assert(pp == n as int + exp_value(b@) - fraclen as int);
        assert(usize::MAX <= 0xffff_ffff_ffff_ffff);
        assert(n <= fe as i128);
        if true_exp_mag >= 100000000000000000000 {
            // the exponent saturated; both the true and the capped position
            // land so far out that the result is the same
            assert(expcap == 100000000000000000000i128);
            if expneg {
                assert((ipos as int) < 0);
                assert(pp < 0);
                assert(rounded_magnitude(d, ipos as int) == 0);
                assert(rounded_magnitude(d, pp) == 0);
            } else {
                assert(ipos as int >= d.len() + 21);
                assert(pp >= d.len() + 21);
                lemma_rounded_huge(d, ipos as int);
                lemma_rounded_huge(d, pp);
            }
        } else {
            assert(expcap as nat == true_exp_mag);
            assert(ipos as int == pp);
        }
        assert(!is_nan_body(b@) && !is_inf_body(b@));
        assert(float_body(s@) == b@);
        assert(mag == float_mag64(s@));
    }
    Some((neg, mag))
}

} // verus!
