//! Decimal notation: the value of a run of digit bytes, and the digits of a value.

use vstd::prelude::*;
use vstd::string::StringExecFns;

verus! {

/// Whether `b` is the ASCII code of one of the digits `0` to `9`.
pub open spec fn is_digit_byte(b: u8) -> bool {
    '0' as u8 <= b <= '9' as u8
}

/// The value of the digit whose ASCII code is `b`.
pub open spec fn digit_value(b: u8) -> nat
    recommends
        is_digit_byte(b),
{
    (b - '0' as u8) as nat
}

/// Whether every byte of `bytes` is a digit.
pub open spec fn all_digits(bytes: Seq<u8>) -> bool {
    forall|i: int| 0 <= i < bytes.len() ==> is_digit_byte(#[trigger] bytes[i])
}

/// The number that a run of digits denotes in base ten; leading zeros do not count.
pub open spec fn decimal_value(digits: Seq<u8>) -> nat
    decreases digits.len(),
{
    if digits.len() == 0 {
        0
    } else {
        10 * decimal_value(digits.drop_last()) + digit_value(digits.last())
    }
}

/// The signed 32-bit number that `text` writes. There is none where `text` is
/// empty, holds anything but digits, or denotes more than `i32::MAX`.
pub open spec fn number_of(text: Seq<u8>) -> Option<i32> {
    if text.len() > 0 && all_digits(text) && decimal_value(text) <= i32::MAX {
        Some(decimal_value(text) as i32)
    } else {
        None
    }
}

/// A prefix of a run of digits denotes no more than the whole run.
pub proof fn lemma_decimal_value_prefix(digits: Seq<u8>, k: int)
    requires
        0 <= k <= digits.len(),
    ensures
        decimal_value(digits.take(k)) <= decimal_value(digits),
    decreases digits.len(),
{
    if k == digits.len() {
        assert(digits.take(k) =~= digits);
    } else {
        lemma_decimal_value_prefix(digits.drop_last(), k);
        assert(digits.drop_last().take(k) =~= digits.take(k));
    }
}

/// Reads `text` as a number in base ten, without a sign.
pub fn parse_decimal(text: &[u8]) -> (r: Option<i32>)
    ensures
        r == number_of(text@),
{
    if text.len() == 0 {
        return None;
    }
    let mut value: i64 = 0;
    let mut idx: usize = 0;
    while idx < text.len()
        invariant
            idx <= text@.len(),
            all_digits(text@.take(idx as int)),
            value == decimal_value(text@.take(idx as int)),
            value <= i32::MAX,
        decreases text@.len() - idx,
    {
        let b: u8 = text[idx];
        if b < '0' as u8 || b > '9' as u8 {
            return None;
        }
        proof {
            let step = text@.take(idx + 1);
            assert(step.drop_last() =~= text@.take(idx as int));
            assert(step.last() == b);
            lemma_decimal_value_prefix(text@, idx + 1);
        }
        value = 10 * value + (b - '0' as u8) as i64;
        if value > i32::MAX as i64 {
            return None;
        }
        idx += 1;
    }
    proof {
        assert(text@.take(idx as int) =~= text@);
    }
    Some(value as i32)
}

/// The character that writes the digit `d`.
pub open spec fn digit_char(d: nat) -> char
    recommends
        d < 10,
{
    ('0' as u8 + d) as char
}

/// The digits of `n` in base ten, most significant first, with no leading zero
/// (zero itself is written `0`).
pub open spec fn decimal_digits(n: nat) -> Seq<char>
    decreases n,
{
    if n < 10 {
        seq![digit_char(n)]
    } else {
        decimal_digits(n / 10).push(digit_char(n % 10))
    }
}

/// How `n` is written in base ten: a minus sign for a negative number, then
/// the digits of its magnitude.
pub open spec fn decimal_text(n: int) -> Seq<char> {
    if n < 0 {
        seq!['-'] + decimal_digits((-n) as nat)
    } else {
        decimal_digits(n as nat)
    }
}

/// The bytes that write a sequence of ASCII characters.
pub open spec fn ascii_bytes(chars: Seq<char>) -> Seq<u8> {
    Seq::new(chars.len(), |i: int| chars[i] as u8)
}

/// The digits of a number are digits, at least one, and denote that number.
pub proof fn lemma_decimal_digits_value(n: nat)
    ensures
        decimal_digits(n).len() > 0,
        forall|i: int|
            0 <= i < decimal_digits(n).len() ==> '0' <= #[trigger] decimal_digits(n)[i] <= '9',
        all_digits(ascii_bytes(decimal_digits(n))),
        decimal_value(ascii_bytes(decimal_digits(n))) == n,
    decreases n,
{
    let bytes = ascii_bytes(decimal_digits(n));
    if n < 10 {
        assert(bytes.drop_last() =~= Seq::<u8>::empty());
        assert(decimal_value(bytes.drop_last()) == 0);
    } else {
        lemma_decimal_digits_value(n / 10);
        assert(bytes.drop_last() =~= ascii_bytes(decimal_digits(n / 10)));
    }
}

/// The digit `d`, written.
fn digit_str(d: u64) -> (s: &'static str)
    requires
        d < 10,
    ensures
        s@ == seq![digit_char(d as nat)],
{
    proof {
        reveal_strlit("0");
        reveal_strlit("1");
        reveal_strlit("2");
        reveal_strlit("3");
        reveal_strlit("4");
        reveal_strlit("5");
        reveal_strlit("6");
        reveal_strlit("7");
        reveal_strlit("8");
        reveal_strlit("9");
    }
    let s = if d == 0 {
        "0"
    } else if d == 1 {
        "1"
    } else if d == 2 {
        "2"
    } else if d == 3 {
        "3"
    } else if d == 4 {
        "4"
    } else if d == 5 {
        "5"
    } else if d == 6 {
        "6"
    } else if d == 7 {
        "7"
    } else if d == 8 {
        "8"
    } else {
        "9"
    };
    assert(s@ =~= seq![digit_char(d as nat)]);
    s
}

/// Appends the digits of `n` to `out`.
pub fn push_decimal_digits(out: &mut String, n: u64)
    ensures
        final(out)@ == old(out)@ + decimal_digits(n as nat),
    decreases n,
{
    if n >= 10 {
        push_decimal_digits(out, n / 10);
    }
    out.append(digit_str(n % 10));
    assert(out@ =~= old(out)@ + decimal_digits(n as nat));
}

/// Appends `n`, written in base ten, to `out`.
pub fn push_decimal(out: &mut String, n: i32)
    ensures
        final(out)@ == old(out)@ + decimal_text(n as int),
{
    if n < 0 {
        out.append("-");
        proof {
            reveal_strlit("-");
        }
        let magnitude: u64 = (-(n as i64)) as u64;
        push_decimal_digits(out, magnitude);
        assert(out@ =~= old(out)@ + decimal_text(n as int));
    } else {
        push_decimal_digits(out, n as u64);
    }
}

} // verus!
