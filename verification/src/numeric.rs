//! Recognises the strings that parse as a 64-bit floating-point number.
//!
//! The accepted grammar is the one `f64`'s `FromStr` documents: an optional
//! sign, then either `inf`, `infinity` or `nan` (any letter case), or a
//! mantissa — digits with at most one `.` and at least one digit — followed
//! by an optional exponent `e`/`E`, optional sign and at least one digit.

use vstd::prelude::*;
use vstd::string::StrSliceExecFns;

verus! {

pub open spec fn spec_is_digit(c: char) -> bool {
    0x30 <= c as u32 && c as u32 <= 0x39
}

pub fn is_digit_char(c: char) -> (r: bool)
    ensures
        r == spec_is_digit(c),
{
    0x30 <= c as u32 && c as u32 <= 0x39
}

/// `c` equals the ASCII lowercase letter `lo`, ignoring letter case.
pub open spec fn spec_ci(c: char, lo: char) -> bool {
    c as u32 == lo as u32 || c as u32 + 0x20 == lo as u32
}

pub fn ci_char(c: char, lo: char) -> (r: bool)
    ensures
        r == spec_ci(c, lo),
{
    c as u32 == lo as u32 || c as u32 + 0x20 == lo as u32
}

pub open spec fn spec_is_sign(c: char) -> bool {
    c == '+' || c == '-'
}

/// `s` without one leading sign character, if it has one.
pub open spec fn spec_after_sign(s: Seq<char>) -> Seq<char> {
    if s.len() > 0 && spec_is_sign(s[0]) {
        s.skip(1)
    } else {
        s
    }
}

pub open spec fn spec_is_inf(s: Seq<char>) -> bool {
    s.len() == 3 && spec_ci(s[0], 'i') && spec_ci(s[1], 'n') && spec_ci(s[2], 'f')
}

pub open spec fn spec_is_infinity(s: Seq<char>) -> bool {
    s.len() == 8 && spec_ci(s[0], 'i') && spec_ci(s[1], 'n') && spec_ci(s[2], 'f') && spec_ci(
        s[3],
        'i',
    ) && spec_ci(s[4], 'n') && spec_ci(s[5], 'i') && spec_ci(s[6], 't') && spec_ci(s[7], 'y')
}

pub open spec fn spec_is_nan(s: Seq<char>) -> bool {
    s.len() == 3 && spec_ci(s[0], 'n') && spec_ci(s[1], 'a') && spec_ci(s[2], 'n')
}

pub open spec fn spec_all_digits(s: Seq<char>) -> bool {
    forall|i: int| 0 <= i < s.len() ==> spec_is_digit(s[i])
}

/// How many `.` characters `s` holds.
pub open spec fn spec_dots(s: Seq<char>) -> nat
    decreases s.len(),
{
    if s.len() == 0 {
        0
    } else {
        spec_dots(s.drop_last()) + if s.last() == '.' {
            1nat
        } else {
            0nat
        }
    }
}

/// Digits with at most one `.` among them and at least one digit.
pub open spec fn spec_is_mantissa(s: Seq<char>) -> bool {
    &&& forall|i: int| 0 <= i < s.len() ==> (s[i] == '.' || spec_is_digit(s[i]))
    &&& spec_dots(s) <= 1
    &&& s.len() > spec_dots(s)
}

/// What may follow the `e`/`E`: an optional sign, then at least one digit.
pub open spec fn spec_is_exponent(s: Seq<char>) -> bool {
    spec_after_sign(s).len() >= 1 && spec_all_digits(spec_after_sign(s))
}

/// Index of the first `e` or `E` at or after `i`, or `s.len()` if none.
pub open spec fn spec_first_e(s: Seq<char>, i: int) -> int
    recommends
        0 <= i <= s.len(),
    decreases s.len() - i,
{
    if i < 0 || i >= s.len() {
        s.len() as int
    } else if s[i] == 'e' || s[i] == 'E' {
        i
    } else {
        spec_first_e(s, i + 1)
    }
}

/// The strings `f64::from_str` accepts.
pub open spec fn spec_is_float_literal(s: Seq<char>) -> bool {
    let b = spec_after_sign(s);
    ||| spec_is_inf(b)
    ||| spec_is_infinity(b)
    ||| spec_is_nan(b)
    ||| {
        let j = spec_first_e(b, 0);
        if j == b.len() {
            spec_is_mantissa(b)
        } else {
            spec_is_mantissa(b.subrange(0, j)) && spec_is_exponent(
                b.subrange(j + 1, b.len() as int),
            )
        }
    }
}

/// Checks a mantissa between character positions `from` and `to` of `s`.
fn check_mantissa(s: &str, from: usize, to: usize) -> (r: bool)
    requires
        from <= to <= s@.len(),
    ensures
        r == spec_is_mantissa(s@.subrange(from as int, to as int)),
{
    let ghost t = s@.subrange(from as int, to as int);
    let mut i: usize = from;
    let mut dots: usize = 0;
    while i < to
        invariant
            from <= i <= to <= s@.len(),
            t == s@.subrange(from as int, to as int),
            dots == spec_dots(t.take(i - from)),
            dots <= i - from,
            forall|k: int| 0 <= k < i - from ==> (t[k] == '.' || spec_is_digit(t[k])),
        decreases to - i,
    {
        let c = s.get_char(i);
        assert(t[i - from] == c);
        proof {
            assert(t.take(i - from + 1).drop_last() =~= t.take(i - from));
        }
        if c == '.' {
            dots = dots + 1;
        } else if !is_digit_char(c) {
            return false;
        }
        i = i + 1;
    }
    proof {
        assert(t.take(to - from) =~= t);
    }
    dots <= 1 && (to - from) > dots
}

/// Checks an exponent tail between character positions `from` and `to`.
fn check_exponent(s: &str, from: usize, to: usize) -> (r: bool)
    requires
        from <= to <= s@.len(),
    ensures
        r == spec_is_exponent(s@.subrange(from as int, to as int)),
{
    let ghost t = s@.subrange(from as int, to as int);
    let mut i: usize = from;
    if i < to {
        let c = s.get_char(i);
        assert(t[0] == c);
        if c == '+' || c == '-' {
            i = i + 1;
        }
    }
    let ghost d = spec_after_sign(t);
    proof {
        if t.len() > 0 && spec_is_sign(t[0]) {
            assert(d =~= s@.subrange(from + 1, to as int));
        } else {
            assert(d =~= s@.subrange(from as int, to as int));
        }
    }
    if i == to {
        return false;
    }
    let start = i;
    while i < to
        invariant
            from <= start <= i <= to <= s@.len(),
            t == s@.subrange(from as int, to as int),
            d == spec_after_sign(t),
            d =~= s@.subrange(start as int, to as int),
            forall|k: int| 0 <= k < i - start ==> spec_is_digit(d[k]),
        decreases to - i,
    {
        let c = s.get_char(i);
        assert(d[i - start] == c);
        if !is_digit_char(c) {
            return false;
        }
        i = i + 1;
    }
    true
}

/// Whether `s` parses as a 64-bit floating-point number.
pub fn is_float_literal(s: &str) -> (r: bool)
    ensures
        r == spec_is_float_literal(s@),
{
    let n = s.unicode_len();
    let mut b: usize = 0;
    if n > 0 {
        let c = s.get_char(0);
        if c == '+' || c == '-' {
            b = 1;
        }
    }
    let ghost body = spec_after_sign(s@);
    proof {
        assert(body =~= s@.subrange(b as int, n as int));
    }
    let len = n - b;
    if len == 3 && ci_char(s.get_char(b), 'i') && ci_char(s.get_char(b + 1), 'n') && ci_char(
        s.get_char(b + 2),
        'f',
    ) {
        return true;
    }
    if len == 8 && ci_char(s.get_char(b), 'i') && ci_char(s.get_char(b + 1), 'n') && ci_char(
        s.get_char(b + 2),
        'f',
    ) && ci_char(s.get_char(b + 3), 'i') && ci_char(s.get_char(b + 4), 'n') && ci_char(
        s.get_char(b + 5),
        'i',
    ) && ci_char(s.get_char(b + 6), 't') && ci_char(s.get_char(b + 7), 'y') {
        return true;
    }
    if len == 3 && ci_char(s.get_char(b), 'n') && ci_char(s.get_char(b + 1), 'a') && ci_char(
        s.get_char(b + 2),
        'n',
    ) {
        return true;
    }
    // Find the first `e` or `E` in the body.
    let mut j: usize = b;
    while j < n
        invariant
            b <= j <= n,
            n == s@.len(),
            body == s@.subrange(b as int, n as int),
            spec_first_e(body, 0) == spec_first_e(body, j - b),
        ensures
            b <= j <= n,
            j < n ==> spec_first_e(body, 0) == j - b,
            j == n ==> spec_first_e(body, 0) == body.len(),
        decreases n - j,
    {
        let c = s.get_char(j);
        assert(body[j - b] == s@[j as int]);
        if c == 'e' || c == 'E' {
            break ;
        }
        j = j + 1;
    }
    if j == n {
        let r = check_mantissa(s, b, n);
        proof {
            assert(s@.subrange(b as int, n as int) == body);
        }
        r
    } else {
        let m = check_mantissa(s, b, j);
        if !m {
            proof {
                assert(body.subrange(0, j - b) =~= s@.subrange(b as int, j as int));
            }
            return false;
        }
        let e = check_exponent(s, j + 1, n);
        proof {
            assert(body.subrange(0, j - b) =~= s@.subrange(b as int, j as int));
            assert(body.subrange(j - b + 1, body.len() as int) =~= s@.subrange(
                j + 1 as int,
                n as int,
            ));
        }
        e
    }
}

} // verus!
