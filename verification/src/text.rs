//! Small verified helpers on text: equality, the leading dash of an option
//! token, and unsigned decimal numbers.

use vstd::prelude::*;
use vstd::string::*;
use vstd::utf8::*;

verus! {

/// Whether a token starts with `-`, the mark of an option name.
pub open spec fn has_leading_dash(s: Seq<char>) -> bool {
    s.len() > 0 && s[0] == '-'
}

/// Whether `c` is one of the ten decimal digits.
pub open spec fn is_digit(c: char) -> bool {
    '0' <= c <= '9'
}

/// The number that a decimal digit stands for.
pub open spec fn digit_value(c: char) -> nat {
    (c as nat - '0' as nat) as nat
}

/// Whether every character of `s` is a decimal digit.
pub open spec fn all_digits(s: Seq<char>) -> bool {
    forall|i: int| 0 <= i < s.len() ==> is_digit(#[trigger] s[i])
}

/// The number written by the digits of `s`, most significant first.
pub open spec fn digits_value(s: Seq<char>) -> nat
    decreases s.len(),
{
    if s.len() == 0 {
        0
    } else {
        digits_value(s.drop_last()) * 10 + digit_value(s.last())
    }
}

/// The digits of a number token: the token without one leading `+`.
pub open spec fn digits_of(s: Seq<char>) -> Seq<char> {
    if s.len() > 0 && s[0] == '+' {
        s.skip(1)
    } else {
        s
    }
}

/// The value of an unsigned decimal number no larger than `max`: an optional
/// `+`, then at least one digit and nothing else. `None` for any other text
/// and for a number above `max`.
pub open spec fn decimal_value(s: Seq<char>, max: nat) -> Option<nat> {
    let digits = digits_of(s);
    if digits.len() > 0 && all_digits(digits) && digits_value(digits) <= max {
        Some(digits_value(digits))
    } else {
        None
    }
}

/// A number only grows when more digits follow.
proof fn lemma_digits_value_grows(s: Seq<char>, n: int)
    requires
        0 <= n <= s.len(),
    ensures
        digits_value(s.take(n)) <= digits_value(s),
    decreases s.len() - n,
{
    if n == s.len() {
        assert(s.take(n) =~= s);
    } else {
        lemma_digits_value_grows(s, n + 1);
        assert(s.take(n + 1).drop_last() =~= s.take(n));
    }
}

/// Whether two texts hold the same characters.
pub fn same_text(a: &str, b: &str) -> (same: bool)
    ensures
        same == (a@ == b@),
{
    let x = a.as_bytes();
    let y = b.as_bytes();
    proof {
        encode_utf8_decode_utf8(a@);
        encode_utf8_decode_utf8(b@);
    }
    if x.len() != y.len() {
        return false;
    }
    let mut i: usize = 0;
    while i < x.len()
        invariant
            i <= x.len(),
            x.len() == y.len(),
            x@ == a.spec_bytes(),
            y@ == b.spec_bytes(),
            forall|j: int| 0 <= j < i ==> x@[j] == y@[j],
        decreases x.len() - i,
    {
        if x[i] != y[i] {
            return false;
        }
        i += 1;
    }
    assert(x@ =~= y@);
    true
}

/// Whether a token starts with `-`.
pub fn starts_with_dash(s: &str) -> (dash: bool)
    ensures
        dash == has_leading_dash(s@),
{
    !s.is_empty() && s.get_char(0) == '-'
}

/// Reads an unsigned decimal number no larger than `max`.
pub fn parse_decimal(s: &str, max: u64) -> (value: Option<u64>)
    ensures
        value.is_some() == decimal_value(s@, max as nat).is_some(),
        value matches Some(v) ==> decimal_value(s@, max as nat) == Some(v as nat),
{
    let ghost digits = digits_of(s@);
    if !s.is_ascii() {
        proof {
            if digits.len() > 0 && all_digits(digits) {
                assert forall|i: int| 0 <= i < s@.len() implies '\0' <= #[trigger] s@[i]
                    <= '\u{7f}' by {
                    if s@[0] == '+' {
                        if i > 0 {
                            assert(s@[i] == digits[i - 1]);
                        }
                    } else {
                        assert(s@[i] == digits[i]);
                    }
                }
                assert(false);
            }
        }
        return None;
    }
    let bytes = s.as_bytes();
    let len: usize = bytes.len();
    proof {
        is_ascii_spec_bytes(s);
    }
    assert(len == s@.len());
    assert(forall|j: int| 0 <= j < len ==> bytes@[j] == s@[j] as u8);
    let mut i: usize = 0;
    if len > 0 && bytes[0] == 43u8 {
        i = 1;
    }
    let start: usize = i;
    assert(digits =~= s@.skip(start as int)) by {
        if len > 0 {
            assert(s@[0] as u8 == 43u8 <==> s@[0] == '+');
        }
    }
    if i == len {
        return None;
    }
    let mut acc: u64 = 0;
    while i < len
        invariant
            start <= i <= len,
            len == s@.len(),
            is_ascii_chars(s@),
            forall|j: int| 0 <= j < len ==> bytes@[j] == s@[j] as u8,
            bytes@.len() == len,
            digits == digits_of(s@),
            digits == s@.skip(start as int),
            all_digits(digits.take(i - start)),
            acc == digits_value(digits.take(i - start)),
            acc <= max,
        decreases len - i,
    {
        let b: u8 = bytes[i];
        let ghost c = s@[i as int];
        let ghost k = i - start;
        assert(digits[k] == c);
        assert(c as u8 == b);
        assert(digits.take(k + 1).drop_last() =~= digits.take(k));
        assert(digits.take(k + 1).last() == c);
        if b < 48u8 || b > 57u8 {
            assert(!is_digit(digits[k]));
            return None;
        }
        assert(is_digit(c));
        let d: u64 = (b - 48u8) as u64;
        assert(d == digit_value(c));
        assert(digits_value(digits.take(k + 1)) == acc * 10 + d);
        proof {
            lemma_digits_value_grows(digits, k + 1);
        }
        if acc > max / 10 || (acc == max / 10 && d > max % 10) {
            assert(acc * 10 + d > max);
            return None;
        }
        acc = acc * 10 + d;
        assert(all_digits(digits.take(k + 1))) by {
            assert forall|j: int| 0 <= j < k + 1 implies is_digit(
                #[trigger] digits.take(k + 1)[j],
            ) by {
                if j < k {
                    assert(digits.take(k + 1)[j] == digits.take(k)[j]);
                }
            }
        }
        i += 1;
    }
    assert(digits.take(len - start) =~= digits);
    Some(acc)
}

} // verus!
