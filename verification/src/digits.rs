//! Decimal numerals: the value of a digit string, exact integer parsing
//! with overflow detection, and rendering integers back to text.

use vstd::prelude::*;
use vstd::string::*;

verus! {

/// `c` is an ASCII decimal digit.
pub open spec fn is_digit(c: char) -> bool {
    48 <= c as u32 && c as u32 <= 57
}

/// The numeric value of the digit `c`.
pub open spec fn digit_val(c: char) -> nat {
    (c as u32 - 48) as nat
}

/// Every character of `s` is an ASCII decimal digit.
pub open spec fn all_digits(s: Seq<char>) -> bool {
    forall|i: int| 0 <= i < s.len() ==> is_digit(#[trigger] s[i])
}

/// The value of the digit string `s` read in base ten.
pub open spec fn dec_value(s: Seq<char>) -> nat
    decreases s.len(),
{
    if s.len() == 0 {
        0
    } else {
        dec_value(s.drop_last()) * 10 + digit_val(s.last())
    }
}

/// Ten to the power `n`.
pub open spec fn pow10(n: nat) -> nat
    decreases n,
{
    if n == 0 {
        1
    } else {
        10 * pow10((n - 1) as nat)
    }
}

/// Reading one more digit multiplies the value by ten and adds that digit.
pub proof fn lemma_dec_value_step(d: Seq<char>, k: int)
    requires
        0 <= k < d.len(),
    ensures
        dec_value(d.take(k + 1)) == dec_value(d.take(k)) * 10 + digit_val(d[k]),
{
    assert(d.take(k + 1).drop_last() =~= d.take(k));
    assert(d.take(k + 1).last() == d[k]);
}

/// The value of a digit string only grows as more digits are read.
pub proof fn lemma_dec_value_take_mono(d: Seq<char>, j: int, k: int)
    requires
        0 <= j <= k <= d.len(),
    ensures
        dec_value(d.take(j)) <= dec_value(d.take(k)),
    decreases k - j,
{
    if j < k {
        lemma_dec_value_take_mono(d, j, k - 1);
        lemma_dec_value_step(d, k - 1);
    }
}

/// A digit string of length `n` has value below ten to the `n`.
pub proof fn lemma_dec_value_upper(d: Seq<char>)
    requires
        all_digits(d),
    ensures
        dec_value(d) < pow10(d.len()),
    decreases d.len(),
{
    if d.len() > 0 {
        let dl = d.drop_last();
        assert(all_digits(dl));
        lemma_dec_value_upper(dl);
        assert(is_digit(d.last()));
        assert(digit_val(d.last()) <= 9);
        assert(dec_value(dl) * 10 <= (pow10(dl.len()) - 1) * 10) by (nonlinear_arith)
            requires
                dec_value(dl) <= pow10(dl.len()) - 1,
        ;
    }
}

/// A digit string whose first digit is nonzero has value at least
/// ten to the power of its remaining length.
pub proof fn lemma_dec_value_lower(d: Seq<char>)
    requires
        d.len() >= 1,
        digit_val(d[0]) >= 1,
    ensures
        dec_value(d) >= pow10((d.len() - 1) as nat),
    decreases d.len(),
{
    if d.len() == 1 {
        assert(d.drop_last() =~= Seq::<char>::empty());
        assert(d.last() == d[0]);
    } else {
        let dl = d.drop_last();
        lemma_dec_value_lower(dl);
        assert(dec_value(dl) * 10 >= pow10((dl.len() - 1) as nat) * 10) by (nonlinear_arith)
            requires
                dec_value(dl) >= pow10((dl.len() - 1) as nat),
        ;
    }
}

/// A string of `0` digits has value zero.
pub proof fn lemma_dec_value_zeros(d: Seq<char>)
    requires
        forall|i: int| 0 <= i < d.len() ==> digit_val(#[trigger] d[i]) == 0,
    ensures
        dec_value(d) == 0,
    decreases d.len(),
{
    if d.len() > 0 {
        assert(d.drop_last() =~= d.take(d.len() - 1));
        lemma_dec_value_zeros(d.drop_last());
    }
}

/// Leading zero digits do not change the value of a digit string.
pub proof fn lemma_dec_value_skip_zeros(t: Seq<char>, z: int)
    requires
        0 <= z <= t.len(),
        forall|j: int| 0 <= j < z ==> digit_val(#[trigger] t[j]) == 0,
    ensures
        dec_value(t) == dec_value(t.skip(z)),
    decreases t.len(),
{
    if z == 0 {
        assert(t.skip(0) =~= t);
    } else if t.len() == z {
        lemma_dec_value_zeros(t);
        assert(t.skip(z) =~= Seq::<char>::empty());
    } else {
        let tl = t.drop_last();
        lemma_dec_value_skip_zeros(tl, z);
        assert(t.skip(z).drop_last() =~= tl.skip(z));
        assert(t.skip(z).last() == t.last());
    }
}

/// Ten to a sum of powers is the product of the powers.
pub proof fn lemma_pow10_add(a: nat, b: nat)
    ensures
        pow10(a + b) == pow10(a) * pow10(b),
    decreases a,
{
    if a > 0 {
        let am1 = (a - 1) as nat;
        lemma_pow10_add(am1, b);
        assert(pow10(am1 + b) == pow10(am1) * pow10(b));
        assert((am1 + b) + 1 == a + b);
        assert(pow10((am1 + b) + 1) == 10 * pow10(am1 + b));
        assert(pow10(a) == 10 * pow10(am1));
        assert(10 * (pow10(am1) * pow10(b)) == (10 * pow10(am1)) * pow10(b)) by (nonlinear_arith);
        assert(pow10(a + b) == pow10(a) * pow10(b));
    } else {
        assert(a == 0);
        assert(pow10(0) == 1);
        assert(pow10(a + b) == pow10(b));
        assert(pow10(a + b) == pow10(a) * pow10(b));
    }
}

/// Powers of ten are at least one.
pub proof fn lemma_pow10_pos(n: nat)
    ensures
        pow10(n) >= 1,
    decreases n,
{
    if n > 0 {
        lemma_pow10_pos((n - 1) as nat);
    }
}

/// Powers of ten grow with the exponent.
pub proof fn lemma_pow10_mono(a: nat, b: nat)
    requires
        a <= b,
    ensures
        pow10(a) <= pow10(b),
{
    lemma_pow10_add(a, (b - a) as nat);
    lemma_pow10_pos(a);
    lemma_pow10_pos((b - a) as nat);
    assert(pow10(a) * pow10((b - a) as nat) >= pow10(a) * 1) by (nonlinear_arith)
        requires
            pow10((b - a) as nat) >= 1,
            pow10(a) >= 1,
    ;
}

/// Ten to the twentieth power, written out.
pub proof fn lemma_pow10_20()
    ensures
        pow10(20) == 100000000000000000000,
{
    reveal_with_fuel(pow10, 21);
}

/// The first index at or after `from` whose character is not a digit,
/// or the length of `s` if digits run to the end.
pub open spec fn digits_end(s: Seq<char>, from: int) -> int
    decreases s.len() - from,
{
    if from < 0 || from >= s.len() {
        s.len() as int
    } else if !is_digit(s[from]) {
        from
    } else {
        digits_end(s, from + 1)
    }
}

/// What [`digits_end`] returns: a bound within the string, digits up to it,
/// and a non-digit (or the end) at it.
pub proof fn lemma_digits_end(s: Seq<char>, from: int)
    requires
        0 <= from <= s.len(),
    ensures
        from <= digits_end(s, from) <= s.len(),
        forall|i: int| from <= i < digits_end(s, from) ==> is_digit(#[trigger] s[i]),
        digits_end(s, from) < s.len() ==> !is_digit(s[digits_end(s, from)]),
    decreases s.len() - from,
{
    if from < s.len() && is_digit(s[from]) {
        lemma_digits_end(s, from + 1);
    }
}

/// Scans forward from `from` and returns the index where the digit run ends.
pub fn digit_run_end(s: &str, from: usize) -> (r: usize)
    requires
        from <= s@.len(),
    ensures
        r == digits_end(s@, from as int),
{
    let len = s.unicode_len();
    let mut i: usize = from;
    while i < len
        invariant
            from <= i <= len,
            len == s@.len(),
            digits_end(s@, from as int) == digits_end(s@, i as int),
        decreases len - i,
    {
        let c = s.get_char(i) as u32;
        if !(48 <= c && c <= 57) {
            return i;
        }
        i += 1;
    }
    i
}

/// Reads the digits of `s` in `[from, to)` as a base-ten `u64`; `None` when
/// a non-digit occurs or the value does not fit.
pub fn parse_digits_u64(s: &str, from: usize, to: usize) -> (r: Option<u64>)
    requires
        from <= to <= s@.len(),
    ensures
        ({
            let d = s@.subrange(from as int, to as int);
            match r {
                Some(n) => all_digits(d) && n as nat == dec_value(d),
                None => !all_digits(d) || dec_value(d) > u64::MAX,
            }
        }),
{
    let ghost d = s@.subrange(from as int, to as int);
    let mut acc: u64 = 0;
    let mut i: usize = from;
    while i < to
        invariant
            from <= i <= to <= s@.len(),
            d == s@.subrange(from as int, to as int),
            forall|j: int| 0 <= j < i - from ==> is_digit(#[trigger] d[j]),
            acc as nat == dec_value(d.take(i - from)),
        decreases to - i,
    {
        let c = s.get_char(i) as u32;
        if !(48 <= c && c <= 57) {
            assert(!is_digit(d[i - from]));
            return None;
        }
        let dv = (c - 48) as u64;
        proof {
            assert(d[i - from] == s@[i as int]);
            assert(is_digit(d[i - from]));
            lemma_dec_value_step(d, i - from);
        }
        if acc > 1844674407370955161 || (acc == 1844674407370955161 && dv > 5) {
            proof {
                assert(dec_value(d.take(i - from + 1)) > u64::MAX);
                lemma_dec_value_take_mono(d, i - from + 1, d.len() as int);
                assert(d.take(d.len() as int) =~= d);
            }
            return None;
        }
        acc = acc * 10 + dv;
        i += 1;
    }
    proof {
        assert(d.take(d.len() as int) =~= d);
    }
    Some(acc)
}

/// The digit part of an unsigned numeral: everything after an optional
/// leading plus sign.
pub open spec fn unsigned_digits(s: Seq<char>) -> Seq<char> {
    if s.len() >= 1 && s[0] == '+' {
        s.skip(1)
    } else {
        s
    }
}

/// `s` is a numeral that `u64` holds: an optional plus sign, then one or
/// more digits, with a value in range.
pub open spec fn is_u64_numeral(s: Seq<char>) -> bool {
    let d = unsigned_digits(s);
    d.len() >= 1 && all_digits(d) && dec_value(d) <= u64::MAX
}

/// The value of an unsigned numeral.
pub open spec fn u64_numeral_value(s: Seq<char>) -> nat {
    dec_value(unsigned_digits(s))
}

/// Exact unsigned parse: `Some` exactly on the numerals that `u64` holds.
pub fn parse_u64(s: &str) -> (r: Option<u64>)
    ensures
        match r {
            Some(n) => is_u64_numeral(s@) && n as nat == u64_numeral_value(s@),
            None => !is_u64_numeral(s@),
        },
{
    let len = s.unicode_len();
    let start: usize = if len >= 1 && s.get_char(0) == '+' {
        1
    } else {
        0
    };
    proof {
        assert(s@.subrange(start as int, len as int) =~= unsigned_digits(s@));
    }
    if start == len {
        return None;
    }
    parse_digits_u64(s, start, len)
}

/// The digit part of a signed numeral: everything after an optional
/// leading plus or minus sign.
pub open spec fn signed_digits(s: Seq<char>) -> Seq<char> {
    if s.len() >= 1 && (s[0] == '+' || s[0] == '-') {
        s.skip(1)
    } else {
        s
    }
}

/// The numeral carries a minus sign.
pub open spec fn signed_neg(s: Seq<char>) -> bool {
    s.len() >= 1 && s[0] == '-'
}

/// `s` is a numeral that `i64` holds: an optional sign, then one or more
/// digits, with a value in range.
pub open spec fn is_i64_numeral(s: Seq<char>) -> bool {
    let d = signed_digits(s);
    d.len() >= 1 && all_digits(d) && (if signed_neg(s) {
        dec_value(d) <= 9223372036854775808
    } else {
        dec_value(d) <= 9223372036854775807
    })
}

/// The value of a signed numeral.
pub open spec fn i64_numeral_value(s: Seq<char>) -> int {
    if signed_neg(s) {
        -(dec_value(signed_digits(s)) as int)
    } else {
        dec_value(signed_digits(s)) as int
    }
}

/// Exact signed parse: `Some` exactly on the numerals that `i64` holds.
pub fn parse_i64(s: &str) -> (r: Option<i64>)
    ensures
        match r {
            Some(n) => is_i64_numeral(s@) && n as int == i64_numeral_value(s@),
            None => !is_i64_numeral(s@),
        },
{
    let len = s.unicode_len();
    let neg = len >= 1 && s.get_char(0) == '-';
    let start: usize = if len >= 1 && (s.get_char(0) == '+' || s.get_char(0) == '-') {
        1
    } else {
        0
    };
    proof {
        assert(s@.subrange(start as int, len as int) =~= signed_digits(s@));
    }
    if start == len {
        return None;
    }
    let mag = match parse_digits_u64(s, start, len) {
        Some(m) => m,
        None => {
            return None;
        },
    };
    if neg {
        if mag <= 9223372036854775807 {
            Some(-(mag as i64))
        } else if mag == 9223372036854775808 {
            Some(i64::MIN)
        } else {
            None
        }
    } else {
        if mag <= 9223372036854775807 {
            Some(mag as i64)
        } else {
            None
        }
    }
}

/// The digit character for the value `d`.
pub open spec fn digit_char(d: nat) -> char {
    if d == 0 {
        '0'
    } else if d == 1 {
        '1'
    } else if d == 2 {
        '2'
    } else if d == 3 {
        '3'
    } else if d == 4 {
        '4'
    } else if d == 5 {
        '5'
    } else if d == 6 {
        '6'
    } else if d == 7 {
        '7'
    } else if d == 8 {
        '8'
    } else {
        '9'
    }
}

/// The canonical base-ten rendering of `n`: no sign, no leading zeros
/// (except for zero itself).
pub open spec fn dec_digits(n: nat) -> Seq<char>
    decreases n,
{
    if n < 10 {
        seq![digit_char(n)]
    } else {
        dec_digits(n / 10).push(digit_char(n % 10))
    }
}

/// The canonical rendering of a signed value: a minus sign before the
/// magnitude when negative.
pub open spec fn signed_dec_digits(v: int) -> Seq<char> {
    if v < 0 {
        seq!['-'] + dec_digits((-v) as nat)
    } else {
        dec_digits(v as nat)
    }
}

/// Appends the digit character for `d`.
fn push_digit(out: &mut String, d: u64)
    requires
        d < 10,
    ensures
        final(out)@ == old(out)@ + seq![digit_char(d as nat)],
{
    let lit = if d == 0 {
        "0"
    } else if d == 1 {
        "1"
    } else if d == 2 {
        "2"
    } else if d == 3 {
        "3"
    } else if d == 4 {
        "4"
    } else if d == 5 {
        "5"
    } else if d == 6 {
        "6"
    } else if d == 7 {
        "7"
    } else if d == 8 {
        "8"
    } else {
        "9"
    };
    proof {
        reveal_strlit("0");
        reveal_strlit("1");
        reveal_strlit("2");
        reveal_strlit("3");
        reveal_strlit("4");
        reveal_strlit("5");
        reveal_strlit("6");
        reveal_strlit("7");
        reveal_strlit("8");
        reveal_strlit("9");
        assert(lit@ =~= seq![digit_char(d as nat)]);
    }
    out.append(lit);
}

/// Appends the canonical base-ten rendering of `n`.
fn push_u64_dec(out: &mut String, n: u64)
    ensures
        final(out)@ == old(out)@ + dec_digits(n as nat),
    decreases n,
{
    if n < 10 {
        push_digit(out, n);
    } else {
        push_u64_dec(out, n / 10);
        push_digit(out, n % 10);
        proof {
            assert(old(out)@ + dec_digits((n / 10) as nat) + seq![digit_char((n % 10) as nat)]
                =~= old(out)@ + dec_digits(n as nat));
        }
    }
}

/// Renders `n` in its canonical base-ten form.
pub fn render_u64(n: u64) -> (r: String)
    ensures
        r@ == dec_digits(n as nat),
{
    let mut out = String::new();
    push_u64_dec(&mut out, n);
    proof {
        assert(Seq::<char>::empty() + dec_digits(n as nat) =~= dec_digits(n as nat));
    }
    out
}

/// Renders `v` in its canonical base-ten form, with a leading minus sign
/// when negative.
pub fn render_i64(v: i64) -> (r: String)
    ensures
        r@ == signed_dec_digits(v as int),
{
    if v >= 0 {
        render_u64(v as u64)
    } else {
        let mut out = String::new();
        out.append("-");
        let mag: u64 = ((-(v + 1)) as u64) + 1;
        push_u64_dec(&mut out, mag);
        proof {
            reveal_strlit("-");
            assert(Seq::<char>::empty() + "-"@ + dec_digits(mag as nat) =~= signed_dec_digits(
                v as int,
            ));
        }
        out
    }
}

/// Renders a boolean as `true` or `false`.
pub fn render_bool(b: bool) -> (r: String)
    ensures
        r@ == (if b {
            "true"@
        } else {
            "false"@
        }),
{
    if b {
        "true".to_owned()
    } else {
        "false".to_owned()
    }
}

} // verus!
