//! Small text utilities: string comparison against a slice, decimal integer
//! parsing, and the syntactic check applied to measured sample values.

use vstd::prelude::*;
use vstd::string::StringExecFns;

verus! {

/// Whether `s` holds exactly the characters of `lit`.
pub fn str_is(s: &String, lit: &str) -> (r: bool)
    ensures
        r == (s@ == lit@),
{
    *s == lit.to_owned()
}

/// Whether `c` is a decimal digit.
pub open spec fn is_digit(c: char) -> bool {
    '0' <= c && c <= '9'
}

/// Whether every character of `s` is a decimal digit.
pub open spec fn all_digits(s: Seq<char>) -> bool {
    forall|i: int| 0 <= i < s.len() ==> is_digit(#[trigger] s[i])
}

/// The number denoted by a sequence of decimal digits.
pub open spec fn dec_val(s: Seq<char>) -> nat
    decreases s,
{
    if s.len() == 0 {
        0
    } else {
        dec_val(s.drop_last()) * 10 + (s.last() as int - '0' as int) as nat
    }
}

/// A digit prefix never denotes more than the whole digit string.
proof fn lemma_dec_val_prefix_le(s: Seq<char>, i: int)
    requires
        0 <= i <= s.len(),
        all_digits(s),
    ensures
        dec_val(s.take(i)) <= dec_val(s),
    decreases s.len() - i,
{
    if i < s.len() {
        lemma_dec_val_prefix_le(s, i + 1);
        assert(s.take(i + 1).drop_last() =~= s.take(i));
        assert(s.take(i + 1).last() == s[i]);
        assert(dec_val(s.take(i)) <= dec_val(s.take(i)) * 10);
    } else {
        assert(s.take(i) =~= s);
    }
}

/// Whether `s` is the decimal text of a number that fits in `usize`: one or
/// more digits and nothing else.
pub open spec fn is_usize_text(s: Seq<char>) -> bool {
    s.len() > 0 && all_digits(s) && dec_val(s) <= usize::MAX
}

/// Reads a non-negative decimal integer; `None` on an empty string, any
/// character that is not a digit, or a value too large for `usize`.
pub fn parse_usize(s: &str) -> (r: Option<usize>)
    ensures
        r matches Some(v) ==> is_usize_text(s@) && v == dec_val(s@),
        r is None ==> !is_usize_text(s@),
{
    let n = s.unicode_len();
    if n == 0 {
        return Option::None;
    }
    let mut acc: usize = 0;
    let mut i: usize = 0;
    while i < n
        invariant
            n == s@.len(),
            0 <= i <= n,
            all_digits(s@.take(i as int)),
            acc == dec_val(s@.take(i as int)),
        decreases n - i,
    {
        let c = s.get_char(i);
        if c < '0' || c > '9' {
            assert(!all_digits(s@)) by {
                assert(!is_digit(s@[i as int]));
            }
            return Option::None;
        }
        let d: usize = (c as u32 as usize) - 48;
        let shifted = match acc.checked_mul(10) {
            Option::Some(v) => v,
            Option::None => {
                proof {
                    overflow_step(s@, i as int);
                }
                return Option::None;
            },
        };
        let next = match shifted.checked_add(d) {
            Option::Some(v) => v,
            Option::None => {
                proof {
                    overflow_step(s@, i as int);
                }
                return Option::None;
            },
        };
        proof {
            assert(s@.take(i + 1).drop_last() =~= s@.take(i as int));
            assert(s@.take(i + 1).last() == s@[i as int]);
            assert(forall|j: int| 0 <= j < i + 1 ==> is_digit(#[trigger] s@.take(i + 1)[j]));
        }
        acc = next;
        i += 1;
    }
    proof {
        assert(s@.take(n as int) =~= s@);
    }
    Option::Some(acc)
}

/// When the next digit pushes the accumulated value over `usize::MAX`, the
/// whole string cannot denote a `usize` either.
proof fn overflow_step(s: Seq<char>, i: int)
    requires
        0 <= i < s.len(),
        is_digit(s[i]),
        all_digits(s.take(i)),
        dec_val(s.take(i)) * 10 + (s[i] as int - '0' as int) > usize::MAX,
    ensures
        !is_usize_text(s),
{
    if all_digits(s) {
        assert(s.take(i + 1).drop_last() =~= s.take(i));
        assert(s.take(i + 1).last() == s[i]);
        lemma_dec_val_prefix_le(s, i + 1);
    }
}

/// The first index at or past `i` that does not hold a digit.
pub open spec fn digits_end(s: Seq<char>, i: int) -> int
    decreases s.len() - i,
{
    if i < 0 || i >= s.len() {
        i
    } else if is_digit(s[i]) {
        digits_end(s, i + 1)
    } else {
        i
    }
}

/// Where `i` may sit, the scan never runs past the end.
pub proof fn lemma_digits_end_le(s: Seq<char>, i: int)
    requires
        0 <= i <= s.len(),
    ensures
        i <= digits_end(s, i) <= s.len(),
    decreases s.len() - i,
{
    if i < s.len() && is_digit(s[i]) {
        lemma_digits_end_le(s, i + 1);
    }
}

/// One past an optional leading sign.
pub open spec fn after_sign(s: Seq<char>, i: int) -> int {
    if 0 <= i < s.len() && (s[i] == '+' || s[i] == '-') {
        i + 1
    } else {
        i
    }
}

/// Whether `s` has the syntax of a plain decimal floating-point number: an
/// optional sign, digits with at most one point among them (at least one
/// digit), and an optional exponent part `e`/`E`, optional sign, digits.
pub open spec fn is_float_text(s: Seq<char>) -> bool {
    let i0 = after_sign(s, 0);
    let i1 = digits_end(s, i0);
    let frac = i1 < s.len() && s[i1] == '.';
    let i2 = if frac {
        digits_end(s, i1 + 1)
    } else {
        i1
    };
    let digits_seen = i1 > i0 || (frac && i2 > i1 + 1);
    if !digits_seen {
        false
    } else if i2 == s.len() {
        true
    } else if s[i2] == 'e' || s[i2] == 'E' {
        let i3 = after_sign(s, i2 + 1);
        let i4 = digits_end(s, i3);
        i4 > i3 && i4 == s.len()
    } else {
        false
    }
}

/// Scans past digits, starting at `i`.
fn scan_digits(s: &str, i: usize) -> (r: usize)
    requires
        i <= s@.len(),
    ensures
        r == digits_end(s@, i as int),
        i <= r <= s@.len(),
    decreases s@.len() - i,
{
    if i < s.unicode_len() {
        let c = s.get_char(i);
        if '0' <= c && c <= '9' {
            return scan_digits(s, i + 1);
        }
    }
    i
}

/// One past an optional sign, starting at `i`.
fn scan_sign(s: &str, i: usize) -> (r: usize)
    requires
        i <= s@.len(),
    ensures
        r == after_sign(s@, i as int),
        i <= r <= s@.len(),
{
    if i < s.unicode_len() {
        let c = s.get_char(i);
        if c == '+' || c == '-' {
            return i + 1;
        }
    }
    i
}

/// Whether `s` has the syntax of a plain decimal floating-point number.
pub fn check_float(s: &str) -> (r: bool)
    ensures
        r == is_float_text(s@),
{
    let n = s.unicode_len();
    let i0 = scan_sign(s, 0);
    let i1 = scan_digits(s, i0);
    let frac = i1 < n && s.get_char(i1) == '.';
    let i2 = if frac {
        scan_digits(s, i1 + 1)
    } else {
        i1
    };
    let digits_seen = i1 > i0 || (frac && i2 > i1 + 1);
    if !digits_seen {
        false
    } else if i2 == n {
        true
    } else {
        let c = s.get_char(i2);
        if c == 'e' || c == 'E' {
            let i3 = scan_sign(s, i2 + 1);
            let i4 = scan_digits(s, i3);
            i4 > i3 && i4 == n
        } else {
            false
        }
    }
}

} // verus!
