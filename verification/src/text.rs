//! Text classification for boolean coercion: exact and ASCII
//! case-insensitive matching against the fixed truthy and falsy vocabularies.

use vstd::prelude::*;
use vstd::string::*;

verus! {

/// The code point of `c` with an ASCII lowercase letter folded to its
/// uppercase counterpart; every other character is left as it is.
pub open spec fn upper_code(c: char) -> u32 {
    if 97 <= c as u32 && c as u32 <= 122 {
        (c as u32 - 32) as u32
    } else {
        c as u32
    }
}

/// `a` and `b` are equal once ASCII case is folded away.
pub open spec fn ci_eq(a: Seq<char>, b: Seq<char>) -> bool {
    a.len() == b.len() && forall|i: int| 0 <= i < a.len() ==> upper_code(a[i]) == upper_code(b[i])
}

/// Text that coerces to `true`: an exact match on `t`, `T`, `true`, `True`
/// or `1`, or a case-insensitive match on `OK`, `ON`, `TRUE`, `Y` or `YES`.
pub open spec fn truthy_text(s: Seq<char>) -> bool {
    ||| s == "t"@
    ||| s == "T"@
    ||| s == "true"@
    ||| s == "True"@
    ||| s == "1"@
    ||| ci_eq(s, "OK"@)
    ||| ci_eq(s, "ON"@)
    ||| ci_eq(s, "TRUE"@)
    ||| ci_eq(s, "Y"@)
    ||| ci_eq(s, "YES"@)
}

/// Text that coerces to `false`: an exact match on `f`, `F`, `false`, `False`
/// or `0`, or a case-insensitive match on `NG`, `OFF`, `FALSE`, `N` or `NO`.
pub open spec fn falsy_text(s: Seq<char>) -> bool {
    ||| s == "f"@
    ||| s == "F"@
    ||| s == "false"@
    ||| s == "False"@
    ||| s == "0"@
    ||| ci_eq(s, "NG"@)
    ||| ci_eq(s, "OFF"@)
    ||| ci_eq(s, "FALSE"@)
    ||| ci_eq(s, "N"@)
    ||| ci_eq(s, "NO"@)
}

/// Character-by-character string equality.
pub fn str_eq(a: &str, b: &str) -> (r: bool)
    ensures
        r == (a@ == b@),
{
    let alen = a.unicode_len();
    let blen = b.unicode_len();
    if alen != blen {
        return false;
    }
    let mut i: usize = 0;
    while i < alen
        invariant
            alen == a@.len(),
            blen == b@.len(),
            alen == blen,
            i <= alen,
            forall|j: int| 0 <= j < i ==> a@[j] == b@[j],
        decreases alen - i,
    {
        if a.get_char(i) != b.get_char(i) {
            return false;
        }
        i += 1;
    }
    proof {
        assert(a@ =~= b@);
    }
    true
}

/// String equality with ASCII case folded away.
pub fn str_ci_eq(a: &str, b: &str) -> (r: bool)
    ensures
        r == ci_eq(a@, b@),
{
    let alen = a.unicode_len();
    let blen = b.unicode_len();
    if alen != blen {
        return false;
    }
    let mut i: usize = 0;
    while i < alen
        invariant
            alen == a@.len(),
            blen == b@.len(),
            alen == blen,
            i <= alen,
            forall|j: int| 0 <= j < i ==> upper_code(a@[j]) == upper_code(b@[j]),
        decreases alen - i,
    {
        let ca = a.get_char(i) as u32;
        let cb = b.get_char(i) as u32;
        let ua = if 97 <= ca && ca <= 122 {
            ca - 32
        } else {
            ca
        };
        let ub = if 97 <= cb && cb <= 122 {
            cb - 32
        } else {
            cb
        };
        if ua != ub {
            return false;
        }
        i += 1;
    }
    true
}

/// Decides [`truthy_text`] for a string.
pub fn is_truthy(s: &str) -> (r: bool)
    ensures
        r == truthy_text(s@),
{
    str_eq(s, "t") || str_eq(s, "T") || str_eq(s, "true") || str_eq(s, "True") || str_eq(s, "1")
        || str_ci_eq(s, "OK") || str_ci_eq(s, "ON") || str_ci_eq(s, "TRUE") || str_ci_eq(s, "Y")
        || str_ci_eq(s, "YES")
}

/// Decides [`falsy_text`] for a string.
pub fn is_falsy(s: &str) -> (r: bool)
    ensures
        r == falsy_text(s@),
{
    str_eq(s, "f") || str_eq(s, "F") || str_eq(s, "false") || str_eq(s, "False") || str_eq(s, "0")
        || str_ci_eq(s, "NG") || str_ci_eq(s, "OFF") || str_ci_eq(s, "FALSE") || str_ci_eq(s, "N")
        || str_ci_eq(s, "NO")
}

/// No text is both truthy and falsy: the two vocabularies are disjoint,
/// even once ASCII case is folded away.
pub proof fn lemma_truthy_falsy_disjoint(s: Seq<char>)
    ensures
        !(truthy_text(s) && falsy_text(s)),
{
    reveal_strlit("t");
    reveal_strlit("T");
    reveal_strlit("true");
    reveal_strlit("True");
    reveal_strlit("1");
    reveal_strlit("OK");
    reveal_strlit("ON");
    reveal_strlit("TRUE");
    reveal_strlit("Y");
    reveal_strlit("YES");
    reveal_strlit("f");
    reveal_strlit("F");
    reveal_strlit("false");
    reveal_strlit("False");
    reveal_strlit("0");
    reveal_strlit("NG");
    reveal_strlit("OFF");
    reveal_strlit("FALSE");
    reveal_strlit("N");
    reveal_strlit("NO");
    if truthy_text(s) && falsy_text(s) {
        assert(ci_eq(s, "OK"@) ==> upper_code(s[0]) == upper_code("OK"@[0]));
        assert(ci_eq(s, "ON"@) ==> upper_code(s[0]) == upper_code("ON"@[0]));
        assert(ci_eq(s, "TRUE"@) ==> upper_code(s[0]) == upper_code("TRUE"@[0]));
        assert(ci_eq(s, "Y"@) ==> upper_code(s[0]) == upper_code("Y"@[0]));
        assert(ci_eq(s, "YES"@) ==> upper_code(s[0]) == upper_code("YES"@[0]));
        assert(ci_eq(s, "NG"@) ==> upper_code(s[0]) == upper_code("NG"@[0]));
        assert(ci_eq(s, "OFF"@) ==> upper_code(s[0]) == upper_code("OFF"@[0]));
        assert(ci_eq(s, "FALSE"@) ==> upper_code(s[0]) == upper_code("FALSE"@[0]));
        assert(ci_eq(s, "N"@) ==> upper_code(s[0]) == upper_code("N"@[0]));
        assert(ci_eq(s, "NO"@) ==> upper_code(s[0]) == upper_code("NO"@[0]));
        assert(false);
    }
}

} // verus!
