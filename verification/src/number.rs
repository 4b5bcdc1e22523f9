//! Numbers as decimal text.

use crate::text::to_chars;
use vstd::prelude::*;

verus! {

/// The value of a decimal digit.
pub open spec fn digit_value(c: char) -> Option<int> {
    if '0' <= c <= '9' {
        Some(c as int - '0' as int)
    } else {
        None
    }
}

/// Whether every character is a decimal digit.
pub open spec fn all_digits(s: Seq<char>) -> bool {
    forall|i: int| 0 <= i < s.len() ==> digit_value(#[trigger] s[i]) is Some
}

/// The number that the digits write.
pub open spec fn digits_value(s: Seq<char>) -> int
    decreases s.len(),
{
    if s.len() == 0 {
        0
    } else {
        digits_value(s.drop_last()) * 10 + match digit_value(s.last()) {
            Some(d) => d,
            None => 0,
        }
    }
}

/// The digits of a number text: the text without a plus sign before it.
pub open spec fn unsigned_digits(s: Seq<char>) -> Seq<char> {
    if s.len() > 0 && s[0] == '+' {
        s.skip(1)
    } else {
        s
    }
}

/// The number that a text writes, up to `max`: digits, at least one, with
/// or without a plus sign before them. `None` for any other text and for
/// a number above `max`.
pub open spec fn parse_decimal(s: Seq<char>, max: int) -> Option<int> {
    let digits = unsigned_digits(s);
    if digits.len() > 0 && all_digits(digits) && digits_value(digits) <= max {
        Some(digits_value(digits))
    } else {
        None
    }
}

/// The number grows with every digit.
pub proof fn lemma_digits_value_grows(s: Seq<char>, k: int)
    requires
        0 <= k <= s.len(),
    ensures
        0 <= digits_value(s.take(k)) <= digits_value(s),
    decreases s.len() - k,
{
    lemma_digits_value_nonnegative(s.take(k));
    if k < s.len() {
        lemma_digits_value_grows(s, k + 1);
        assert(s.take(k + 1).drop_last() =~= s.take(k));
    } else {
        assert(s.take(k) =~= s);
    }
}

/// The digits write no negative number.
pub proof fn lemma_digits_value_nonnegative(s: Seq<char>)
    ensures
        0 <= digits_value(s),
    decreases s.len(),
{
    if s.len() > 0 {
        lemma_digits_value_nonnegative(s.drop_last());
    }
}

/// Reads a number up to `max` from its decimal text: digits, at least
/// one, with or without a plus sign before them. `None` for any other
/// text and for a number above `max`.
pub fn parse_bounded(text: &str, max: u64) -> (number: Option<u64>)
    ensures
        match number {
            Some(n) => parse_decimal(text@, max as int) == Some(n as int),
            None => parse_decimal(text@, max as int) is None,
        },
{
    let chars: Vec<char> = to_chars(text);
    let start: usize = if chars.len() > 0 && chars[0] == '+' {
        1
    } else {
        0
    };
    let ghost digits = unsigned_digits(text@);
    if start >= chars.len() {
        return None;
    }
    let mut value: u64 = 0;
    let mut i: usize = start;
    proof {
        assert(digits.take(0) =~= Seq::empty());
    }
    while i < chars.len()
        invariant
            start <= i <= chars.len(),
            chars@ == text@,
            digits == unsigned_digits(text@),
            digits.len() == chars.len() - start,
            forall|k: int| 0 <= k < digits.len() ==> digits[k] == chars@[k + start],
            all_digits(digits.take(i - start)),
            value == digits_value(digits.take(i - start)),
            value <= max,
        decreases chars.len() - i,
    {
        let c: char = chars[i];
        let ghost seen = digits.take(i - start);
        let ghost next = digits.take(i - start + 1);
        proof {
            assert(next.drop_last() =~= seen);
            assert(next.last() == c);
        }
        if c < '0' || c > '9' {
            proof {
                assert(digit_value(digits[i - start]) is None);
            }
            return None;
        }
        let d: u64 = (c as u32 - '0' as u32) as u64;
        proof {
            lemma_digits_value_grows(digits, i - start + 1);
        }
        if d > max || value > (max - d) / 10 {
            proof {
                assert(digits_value(next) > max);
            }
            return None;
        }
        value = value * 10 + d;
        proof {
            assert forall|k: int| 0 <= k < next.len() implies digit_value(
                #[trigger] next[k],
            ) is Some by {
                if k < seen.len() {
                    assert(next[k] == seen[k]);
                }
            }
        }
        i = i + 1;
    }
    proof {
        assert(digits.take(digits.len() as int) =~= digits);
    }
    Some(value)
}

/// Reads a number from its decimal text, as `str::parse` does: digits, at
/// least one, with or without a plus sign before them. `None` for any
/// other text and for a number that does not fit.
pub fn parse_usize(text: &str) -> (number: Option<usize>)
    ensures
        match number {
            Some(n) => parse_decimal(text@, usize::MAX as int) == Some(n as int),
            None => parse_decimal(text@, usize::MAX as int) is None,
        },
{
    match parse_bounded(text, usize::MAX as u64) {
        Some(n) => Some(n as usize),
        None => None,
    }
}

/// Reads a number of 32 bits from its decimal text.
pub fn parse_u32(text: &str) -> (number: Option<u32>)
    ensures
        match number {
            Some(n) => parse_decimal(text@, u32::MAX as int) == Some(n as int),
            None => parse_decimal(text@, u32::MAX as int) is None,
        },
{
    match parse_bounded(text, u32::MAX as u64) {
        Some(n) => Some(n as u32),
        None => None,
    }
}

/// The value of a hexadecimal digit, in either case.
pub open spec fn hex_digit_value(c: char) -> Option<int> {
    if '0' <= c <= '9' {
        Some(c as int - '0' as int)
    } else if 'a' <= c <= 'f' {
        Some(c as int - 'a' as int + 10)
    } else if 'A' <= c <= 'F' {
        Some(c as int - 'A' as int + 10)
    } else {
        None
    }
}

/// Whether every character is a hexadecimal digit.
pub open spec fn all_hex_digits(s: Seq<char>) -> bool {
    forall|i: int| 0 <= i < s.len() ==> hex_digit_value(#[trigger] s[i]) is Some
}

/// The number that the hexadecimal digits write.
pub open spec fn hex_digits_value(s: Seq<char>) -> int
    decreases s.len(),
{
    if s.len() == 0 {
        0
    } else {
        hex_digits_value(s.drop_last()) * 16 + match hex_digit_value(s.last()) {
            Some(d) => d,
            None => 0,
        }
    }
}

/// The number that a text writes in hexadecimal, up to `max`: digits, at
/// least one, with or without a plus sign before them.
pub open spec fn parse_hexadecimal(s: Seq<char>, max: int) -> Option<int> {
    let digits = unsigned_digits(s);
    if digits.len() > 0 && all_hex_digits(digits) && hex_digits_value(digits) <= max {
        Some(hex_digits_value(digits))
    } else {
        None
    }
}

/// The number grows with every hexadecimal digit.
pub proof fn lemma_hex_digits_value_grows(s: Seq<char>, k: int)
    requires
        0 <= k <= s.len(),
    ensures
        0 <= hex_digits_value(s.take(k)) <= hex_digits_value(s),
    decreases s.len() - k,
{
    lemma_hex_digits_value_nonnegative(s.take(k));
    if k < s.len() {
        lemma_hex_digits_value_grows(s, k + 1);
        assert(s.take(k + 1).drop_last() =~= s.take(k));
    } else {
        assert(s.take(k) =~= s);
    }
}

/// Hexadecimal digits write no negative number.
pub proof fn lemma_hex_digits_value_nonnegative(s: Seq<char>)
    ensures
        0 <= hex_digits_value(s),
    decreases s.len(),
{
    if s.len() > 0 {
        lemma_hex_digits_value_nonnegative(s.drop_last());
    }
}

/// The value of a hexadecimal digit.
pub fn hex_digit(c: char) -> (value: Option<u64>)
    ensures
        match value {
            Some(d) => hex_digit_value(c) == Some(d as int) && d < 16,
            None => hex_digit_value(c) is None,
        },
{
    if c >= '0' && c <= '9' {
        Some((c as u32 - '0' as u32) as u64)
    } else if c >= 'a' && c <= 'f' {
        Some((c as u32 - 'a' as u32 + 10) as u64)
    } else if c >= 'A' && c <= 'F' {
        Some((c as u32 - 'A' as u32 + 10) as u64)
    } else {
        None
    }
}

/// Reads a number of 32 bits from its hexadecimal text, as
/// `u32::from_str_radix` does with radix sixteen.
pub fn parse_hex_u32(text: &str) -> (number: Option<u32>)
    ensures
        match number {
            Some(n) => parse_hexadecimal(text@, u32::MAX as int) == Some(n as int),
            None => parse_hexadecimal(text@, u32::MAX as int) is None,
        },
{
    let chars: Vec<char> = to_chars(text);
    let start: usize = if chars.len() > 0 && chars[0] == '+' {
        1
    } else {
        0
    };
    let ghost digits = unsigned_digits(text@);
    if start >= chars.len() {
        return None;
    }
    let max: u64 = u32::MAX as u64;
    let mut value: u64 = 0;
    let mut i: usize = start;
    proof {
        assert(digits.take(0) =~= Seq::empty());
    }
    while i < chars.len()
        invariant
            start <= i <= chars.len(),
            chars@ == text@,
            digits == unsigned_digits(text@),
            digits.len() == chars.len() - start,
            forall|k: int| 0 <= k < digits.len() ==> digits[k] == chars@[k + start],
            all_hex_digits(digits.take(i - start)),
            value == hex_digits_value(digits.take(i - start)),
            value <= max == u32::MAX,
        decreases chars.len() - i,
    {
        let c: char = chars[i];
        let ghost seen = digits.take(i - start);
        let ghost next = digits.take(i - start + 1);
        proof {
            assert(next.drop_last() =~= seen);
            assert(next.last() == c);
        }
        let d: u64 = match hex_digit(c) {
            Some(d) => d,
            None => {
                proof {
                    assert(hex_digit_value(digits[i - start]) is None);
                }
                return None;
            },
        };
        proof {
            lemma_hex_digits_value_grows(digits, i - start + 1);
        }
        if value > (max - d) / 16 {
            proof {
                assert(hex_digits_value(next) > max);
            }
            return None;
        }
        value = value * 16 + d;
        proof {
            assert forall|k: int| 0 <= k < next.len() implies hex_digit_value(
                #[trigger] next[k],
            ) is Some by {
                if k < seen.len() {
                    assert(next[k] == seen[k]);
                }
            }
        }
        i = i + 1;
    }
    proof {
        assert(digits.take(digits.len() as int) =~= digits);
    }
    Some(value as u32)
}

/// The character of a decimal digit; that of nine for a number above it.
pub open spec fn digit_char(d: int) -> char {
    if d == 0 {
        '0'
    } else if d == 1 {
        '1'
    } else if d == 2 {
        '2'
    } else if d == 3 {
        '3'
    } else if d == 4 {
        '4'
    } else if d == 5 {
        '5'
    } else if d == 6 {
        '6'
    } else if d == 7 {
        '7'
    } else if d == 8 {
        '8'
    } else {
        '9'
    }
}

/// The decimal text of a number, without leading zeros.
pub open spec fn decimal(n: nat) -> Seq<char>
    decreases n,
{
    if n < 10 {
        seq![digit_char(n as int)]
    } else {
        decimal(n / 10).push(digit_char((n % 10) as int))
    }
}

/// The text of one decimal digit; of nine for a number above it.
pub fn digit_text(d: u8) -> (text: &'static str)
    ensures
        text@ == seq![digit_char(d as int)],
{
    proof {
        reveal_strlit("0");
        reveal_strlit("1");
        reveal_strlit("2");
        reveal_strlit("3");
        reveal_strlit("4");
        reveal_strlit("5");
        reveal_strlit("6");
        reveal_strlit("7");
        reveal_strlit("8");
        reveal_strlit("9");
    }
    let text: &'static str = if d == 0 {
        "0"
    } else if d == 1 {
        "1"
    } else if d == 2 {
        "2"
    } else if d == 3 {
        "3"
    } else if d == 4 {
        "4"
    } else if d == 5 {
        "5"
    } else if d == 6 {
        "6"
    } else if d == 7 {
        "7"
    } else if d == 8 {
        "8"
    } else {
        "9"
    };
    proof {
        assert(text@ =~= seq![digit_char(d as int)]);
    }
    text
}

/// Writes a number as decimal text.
pub fn decimal_text(n: u64) -> (text: String)
    ensures
        text@ == decimal(n as nat),
    decreases n,
{
    if n < 10 {
        digit_text(n as u8).to_owned()
    } else {
        let mut text: String = decimal_text(n / 10);
        text.append(digit_text((n % 10) as u8));
        text
    }
}

} // verus!
