//! Decimal numbers in text: the form in which last.fm sends timestamps and
//! counts, and in which query parameters are sent back.

use vstd::prelude::*;
use crate::text::push_char;

verus! {

/// Whether `c` is an ASCII decimal digit.
pub open spec fn is_digit(c: char) -> bool {
    48 <= (c as u32) && (c as u32) <= 57
}

/// The value of an ASCII decimal digit.
pub open spec fn digit_value(c: char) -> nat {
    ((c as u32) - 48) as nat
}

/// The character of a digit value below ten.
pub open spec fn digit_char(d: nat) -> char {
    (48 + d) as char
}

pub open spec fn all_digits(s: Seq<char>) -> bool {
    forall|i: int| 0 <= i < s.len() ==> is_digit(#[trigger] s[i])
}

/// The value of a string of digits, read most significant first.
pub open spec fn digits_value(s: Seq<char>) -> nat
    decreases s.len(),
{
    if s.len() == 0 {
        0
    } else {
        digits_value(s.drop_last()) * 10 + digit_value(s.last())
    }
}

/// The digits of `n`, most significant first, without leading zeros.
pub open spec fn decimal_chars(n: nat) -> Seq<char>
    decreases n,
{
    if n < 10 {
        seq![digit_char(n)]
    } else {
        decimal_chars(n / 10).push(digit_char(n % 10))
    }
}

/// The decimal text of a signed number: a `-` before the digits of its
/// magnitude when it is negative.
pub open spec fn signed_decimal_chars(n: int) -> Seq<char> {
    if n < 0 {
        seq!['-'] + decimal_chars((-n) as nat)
    } else {
        decimal_chars(n as nat)
    }
}

/// What follows an optional leading `+`.
pub open spec fn after_plus(s: Seq<char>) -> Seq<char> {
    if s.len() > 0 && s[0] == '+' {
        s.drop_first()
    } else {
        s
    }
}

/// An unsigned number as text: an optional `+`, then one or more ASCII
/// digits, whose value fits in a `u64`. Anything else is no number.
pub open spec fn parse_u64_spec(s: Seq<char>) -> Option<u64> {
    let body = after_plus(s);
    if body.len() > 0 && all_digits(body) && digits_value(body) <= u64::MAX {
        Some(digits_value(body) as u64)
    } else {
        None
    }
}

/// A signed number as text: an optional `+` or `-`, then one or more ASCII
/// digits, whose signed value fits in an `i64`.
pub open spec fn parse_i64_spec(s: Seq<char>) -> Option<i64> {
    if s.len() > 0 && s[0] == '-' {
        let body = s.drop_first();
        if body.len() > 0 && all_digits(body) && digits_value(body) <= 0x8000_0000_0000_0000 {
            Some((-(digits_value(body) as int)) as i64)
        } else {
            None
        }
    } else {
        let body = after_plus(s);
        if body.len() > 0 && all_digits(body) && digits_value(body) <= i64::MAX {
            Some(digits_value(body) as i64)
        } else {
            None
        }
    }
}

/// The text was not a number of the wanted type.
#[derive(Debug, Clone, Copy, PartialEq, Eq)]
pub struct ParseNumberError;

proof fn lemma_digits_value_push(s: Seq<char>, c: char)
    ensures
        digits_value(s.push(c)) == digits_value(s) * 10 + digit_value(c),
{
    assert(s.push(c).drop_last() =~= s);
}

proof fn lemma_decimal_chars(n: nat)
    ensures
        decimal_chars(n).len() > 0,
        all_digits(decimal_chars(n)),
        digits_value(decimal_chars(n)) == n,
    decreases n,
{
    if n < 10 {
        assert(seq![digit_char(n)].drop_last() =~= Seq::<char>::empty());
        assert(digit_char(n) as u32 == 48 + n);
        assert(digit_value(digit_char(n)) == n);
        assert(digits_value(Seq::<char>::empty()) == 0);
        assert(digits_value(seq![digit_char(n)]) == n);
    } else {
        lemma_decimal_chars(n / 10);
        lemma_digits_value_push(decimal_chars(n / 10), digit_char(n % 10));
        assert(digit_char(n % 10) as u32 == 48 + n % 10);
        assert((n / 10) * 10 + n % 10 == n) by (nonlinear_arith);
        assert(digit_value(digit_char(n % 10)) == n % 10);
        assert(digits_value(decimal_chars(n)) == n);
    }
}

proof fn lemma_digits_value_prefix(s: Seq<char>, k: int)
    requires
        0 <= k <= s.len(),
    ensures
        digits_value(s.subrange(0, k)) <= digits_value(s),
    decreases s.len(),
{
    if k < s.len() {
        lemma_digits_value_prefix(s.drop_last(), k);
        assert(s.drop_last().subrange(0, k) =~= s.subrange(0, k));
    } else {
        assert(s.subrange(0, k) =~= s);
    }
}

/// The value of the digits of `s` from `start` on, where they are one or
/// more ASCII digits whose value is at most `limit`.
fn digits_from(s: &str, start: usize, limit: u64) -> (r: Option<u64>)
    requires
        start <= s@.len(),
        limit >= 9,
    ensures
        ({
            let body = s@.subrange(start as int, s@.len() as int);
            match r {
                Some(v) => body.len() > 0 && all_digits(body) && digits_value(body) <= limit
                    && v == digits_value(body),
                None => !(body.len() > 0 && all_digits(body) && digits_value(body) <= limit),
            }
        }),
{
    let len = s.unicode_len();
    let ghost body = s@.subrange(start as int, len as int);
    if start == len {
        return None;
    }
    let mut i: usize = start;
    let mut acc: u64 = 0;
    while i < len
        invariant
            len == s@.len(),
            start <= i <= len,
            limit >= 9,
            body == s@.subrange(start as int, len as int),
            all_digits(body.subrange(0, i - start)),
            acc as nat == digits_value(body.subrange(0, i - start)),
            acc <= limit,
        decreases len - i,
    {
        let c = s.get_char(i);
        let ghost k: int = i - start;
        assert(body[k] == c);
        if !(48 <= (c as u32) && (c as u32) <= 57) {
            assert(!all_digits(body));
            return None;
        }
        let d: u64 = ((c as u32) - 48) as u64;
        proof {
            assert(body.subrange(0, k + 1) =~= body.subrange(0, k).push(c));
            lemma_digits_value_push(body.subrange(0, k), c);
        }
        if acc > (limit - d) / 10 {
            proof {
                assert(acc * 10 + d > limit) by (nonlinear_arith)
                    requires acc > (limit - d) / 10, d <= 9, limit >= 9;
                lemma_digits_value_prefix(body, k + 1);
            }
            return None;
        }
        assert(acc * 10 + d <= limit) by (nonlinear_arith)
            requires acc <= (limit - d) / 10, d <= 9, limit >= 9;
        acc = acc * 10 + d;
        i = i + 1;
    }
    assert(body.subrange(0, len - start) =~= body);
    Some(acc)
}

/// Reads an unsigned number written in decimal, as `str::parse::<u64>`
/// does: an optional `+`, then ASCII digits.
pub fn parse_u64(s: &str) -> (r: Result<u64, ParseNumberError>)
    ensures
        match r {
            Ok(n) => parse_u64_spec(s@) == Some(n),
            Err(_) => parse_u64_spec(s@) is None,
        },
{
    let len = s.unicode_len();
    let start: usize = if len > 0 && s.get_char(0) == '+' { 1 } else { 0 };
    assert(after_plus(s@) =~= s@.subrange(start as int, len as int));
    match digits_from(s, start, u64::MAX) {
        Some(v) => Ok(v),
        None => Err(ParseNumberError),
    }
}

/// Reads a signed number written in decimal, as `str::parse::<i64>` does:
/// an optional `+` or `-`, then ASCII digits.
pub fn parse_i64(s: &str) -> (r: Result<i64, ParseNumberError>)
    ensures
        match r {
            Ok(n) => parse_i64_spec(s@) == Some(n),
            Err(_) => parse_i64_spec(s@) is None,
        },
{
    let len = s.unicode_len();
    if len > 0 && s.get_char(0) == '-' {
        assert(s@.drop_first() =~= s@.subrange(1, len as int));
        match digits_from(s, 1, 0x8000_0000_0000_0000u64) {
            Some(v) => {
                if v == 0x8000_0000_0000_0000u64 {
                    Ok(i64::MIN)
                } else {
                    Ok(-(v as i64))
                }
            },
            None => Err(ParseNumberError),
        }
    } else {
        let start: usize = if len > 0 && s.get_char(0) == '+' { 1 } else { 0 };
        assert(after_plus(s@) =~= s@.subrange(start as int, len as int));
        match digits_from(s, start, 0x7fff_ffff_ffff_ffffu64) {
            Some(v) => Ok(v as i64),
            None => Err(ParseNumberError),
        }
    }
}

/// Appends the decimal digits of `n` to `out`.
pub(crate) fn push_decimal(out: &mut String, n: u64)
    ensures
        final(out)@ == old(out)@ + decimal_chars(n as nat),
    decreases n,
{
    if n < 10 {
        let c = ((n as u8) + 48) as char;
        push_char(out, c);
        assert(seq![c] =~= decimal_chars(n as nat));
    } else {
        push_decimal(out, n / 10);
        let c = (((n % 10) as u8) + 48) as char;
        push_char(out, c);
        assert(decimal_chars(n as nat) =~= decimal_chars((n / 10) as nat).push(c));
    }
}

/// The decimal text of an unsigned number, as `format!("{}", n)` writes it.
pub fn render_u64(n: u64) -> (s: String)
    ensures
        s@ == decimal_chars(n as nat),
{
    let mut s = String::new();
    push_decimal(&mut s, n);
    assert(s@ =~= decimal_chars(n as nat));
    s
}

/// The decimal text of a signed number, as `format!("{}", n)` writes it.
pub fn render_i64(n: i64) -> (s: String)
    ensures
        s@ == signed_decimal_chars(n as int),
{
    let mut s = String::new();
    if n < 0 {
        push_char(&mut s, '-');
        let magnitude: u64 = if n == i64::MIN {
            0x8000_0000_0000_0000u64
        } else {
            (-n) as u64
        };
        push_decimal(&mut s, magnitude);
    } else {
        push_decimal(&mut s, n as u64);
    }
    assert(s@ =~= signed_decimal_chars(n as int));
    s
}

/// Reading back the text that `render_u64` writes for a number gives that
/// number: `parse_u64(render_u64(n)) == Ok(n)`.
pub proof fn law_u64_text_roundtrip(n: u64)
    ensures
        parse_u64_spec(decimal_chars(n as nat)) == Some(n),
{
    lemma_decimal_chars(n as nat);
    let s = decimal_chars(n as nat);
    assert(is_digit(s[0]));
    assert(after_plus(s) == s);
}

/// Reading back the text that `render_i64` writes for a number gives that
/// number: `parse_i64(render_i64(n)) == Ok(n)`.
pub proof fn law_i64_text_roundtrip(n: i64)
    ensures
        parse_i64_spec(signed_decimal_chars(n as int)) == Some(n),
{
    if n < 0 {
        let m = (-(n as int)) as nat;
        lemma_decimal_chars(m);
        let s = seq!['-'] + decimal_chars(m);
        assert(s.drop_first() =~= decimal_chars(m));
    } else {
        lemma_decimal_chars(n as nat);
        let s = decimal_chars(n as nat);
        assert(is_digit(s[0]));
        assert(after_plus(s) == s);
        assert(s[0] != '-');
    }
}

} // verus!
