//! The lexical structure of the input, as functions on its bytes.
//!
//! A maximal run of digits is a number, a space separates and means nothing,
//! and each of `+ - * / ( )` is a token of its own. No other byte may occur.

use vstd::prelude::*;
use vstd::utf8::{encode_utf8, is_ascii_chars_encode_utf8};
use crate::decimal::{
    all_digits, ascii_bytes, decimal_digits, decimal_value, is_digit_byte,
    lemma_decimal_digits_value, number_of,
};
use crate::error::ScanError;
use crate::token::{Lexeme, TokenType};

verus! {

/// Where the maximal run of digits that starts at `beg` ends: the index of the
/// first byte at or after `beg` that is no digit, or the length of `bytes`. A
/// `beg` outside `bytes` is its own end.
pub open spec fn digit_run_end(bytes: Seq<u8>, beg: int) -> int
    decreases bytes.len() - beg,
{
    if 0 <= beg < bytes.len() && is_digit_byte(bytes[beg]) {
        digit_run_end(bytes, beg + 1)
    } else {
        beg
    }
}

/// The run from `beg` to `digit_run_end(bytes, beg)` holds digits only, and
/// cannot be made longer.
pub proof fn lemma_digit_run_end(bytes: Seq<u8>, beg: int)
    requires
        0 <= beg <= bytes.len(),
    ensures
        beg <= digit_run_end(bytes, beg) <= bytes.len(),
        all_digits(bytes.subrange(beg, digit_run_end(bytes, beg))),
        digit_run_end(bytes, beg) < bytes.len() ==> !is_digit_byte(
            bytes[digit_run_end(bytes, beg)],
        ),
    decreases bytes.len() - beg,
{
    if beg < bytes.len() && is_digit_byte(bytes[beg]) {
        lemma_digit_run_end(bytes, beg + 1);
        let end = digit_run_end(bytes, beg);
        assert forall|i: int| 0 <= i < end - beg implies is_digit_byte(
            #[trigger] bytes.subrange(beg, end)[i],
        ) by {
            if i > 0 {
                assert(bytes.subrange(beg, end)[i] == bytes.subrange(beg + 1, end)[i - 1]);
            }
        }
    }
}

/// The kind of the one-byte token that `b` spells, if it spells one.
pub open spec fn symbol_kind(b: u8) -> Option<TokenType> {
    if b == '+' as u8 {
        Some(TokenType::Plus)
    } else if b == '-' as u8 {
        Some(TokenType::Minus)
    } else if b == '*' as u8 {
        Some(TokenType::Asterisk)
    } else if b == '/' as u8 {
        Some(TokenType::Slash)
    } else if b == '(' as u8 {
        Some(TokenType::LParen)
    } else if b == ')' as u8 {
        Some(TokenType::RParen)
    } else {
        None
    }
}

/// The lexemes `done`, followed by whatever scanning the rest gave.
pub open spec fn followed_by(done: Seq<Lexeme>, rest: Result<Seq<Lexeme>, ScanError>) -> Result<
    Seq<Lexeme>,
    ScanError,
> {
    match rest {
        Ok(more) => Ok(done + more),
        Err(e) => Err(e),
    }
}

/// What scanning `bytes` from index `pos` on yields: the lexemes in order, or
/// the first error met.
pub open spec fn scan_from(bytes: Seq<u8>, pos: int) -> Result<Seq<Lexeme>, ScanError>
    decreases bytes.len() - pos,
    via scan_from_terminates
{
    if pos < 0 || pos >= bytes.len() {
        Ok(Seq::empty())
    } else {
        let end = digit_run_end(bytes, pos);
        if end > pos {
            match number_of(bytes.subrange(pos, end)) {
                Some(n) => followed_by(
                    seq![Lexeme { ty: TokenType::Number(n), text: bytes.subrange(pos, end) }],
                    scan_from(bytes, end),
                ),
                None => Err(ScanError::NumberOutOfRange { offset: pos as usize }),
            }
        } else if bytes[pos] == ' ' as u8 {
            scan_from(bytes, pos + 1)
        } else {
            match symbol_kind(bytes[pos]) {
                Some(ty) => followed_by(
                    seq![Lexeme { ty, text: bytes.subrange(pos, pos + 1) }],
                    scan_from(bytes, pos + 1),
                ),
                None => Err(ScanError::UnrecognizedCharacter { offset: pos as usize }),
            }
        }
    }
}

#[via_fn]
proof fn scan_from_terminates(bytes: Seq<u8>, pos: int) {
    if 0 <= pos < bytes.len() {
        lemma_digit_run_end(bytes, pos);
    }
}

/// What scanning all of `bytes` yields.
pub open spec fn scan(bytes: Seq<u8>) -> Result<Seq<Lexeme>, ScanError> {
    scan_from(bytes, 0)
}

/// Whether the kind of a lexeme is what its text spells: a number token is
/// written by digits that denote its value, and any other token by its one
/// symbol.
pub open spec fn spells_its_kind(lexeme: Lexeme) -> bool {
    match lexeme.ty {
        TokenType::Number(n) => number_of(lexeme.text) == Some(n),
        _ => lexeme.text.len() == 1 && symbol_kind(lexeme.text[0]) == Some(lexeme.ty),
    }
}

/// The texts of `lexemes`, one after the other.
pub open spec fn texts(lexemes: Seq<Lexeme>) -> Seq<u8>
    decreases lexemes.len(),
{
    if lexemes.len() == 0 {
        Seq::empty()
    } else {
        lexemes[0].text + texts(lexemes.skip(1))
    }
}

/// The bytes of `bytes` that are no spaces, in order.
pub open spec fn without_spaces(bytes: Seq<u8>) -> Seq<u8>
    decreases bytes.len(),
{
    if bytes.len() == 0 {
        Seq::empty()
    } else if bytes[0] == ' ' as u8 {
        without_spaces(bytes.skip(1))
    } else {
        seq![bytes[0]] + without_spaces(bytes.skip(1))
    }
}

/// Whether a scan of `bytes` may end in `outcome`. Lexemes must each spell
/// their kind and together spell the input, its spaces aside. An error must
/// point at a byte that belongs to no token, or at a run of digits that
/// denotes more than `i32::MAX`.
pub open spec fn scan_is_faithful(bytes: Seq<u8>, outcome: Result<Seq<Lexeme>, ScanError>) -> bool {
    match outcome {
        Ok(lexemes) => {
            &&& forall|i: int| 0 <= i < lexemes.len() ==> spells_its_kind(#[trigger] lexemes[i])
            &&& texts(lexemes) == without_spaces(bytes)
        },
        Err(ScanError::UnrecognizedCharacter { offset }) => {
            &&& offset < bytes.len()
            &&& !is_digit_byte(bytes[offset as int])
            &&& bytes[offset as int] != ' ' as u8
            &&& symbol_kind(bytes[offset as int]) is None
        },
        Err(ScanError::NumberOutOfRange { offset }) => {
            &&& offset < bytes.len()
            &&& is_digit_byte(bytes[offset as int])
            &&& decimal_value(bytes.subrange(offset as int, digit_run_end(bytes, offset as int)))
                > i32::MAX
        },
    }
}

/// Leaving the spaces out of `a + b` is leaving them out of `a` and of `b`.
proof fn lemma_without_spaces_concat(a: Seq<u8>, b: Seq<u8>)
    ensures
        without_spaces(a + b) == without_spaces(a) + without_spaces(b),
    decreases a.len(),
{
    if a.len() == 0 {
        assert(a + b =~= b);
        assert(without_spaces(a) + without_spaces(b) =~= without_spaces(b));
    } else {
        assert((a + b)[0] == a[0]);
        assert((a + b).skip(1) =~= a.skip(1) + b);
        lemma_without_spaces_concat(a.skip(1), b);
        let rest = without_spaces(a.skip(1));
        assert((seq![a[0]] + rest) + without_spaces(b) =~= seq![a[0]] + (rest + without_spaces(b)));
    }
}

/// A run of digits holds no space to leave out.
proof fn lemma_without_spaces_digits(a: Seq<u8>)
    requires
        all_digits(a),
    ensures
        without_spaces(a) == a,
    decreases a.len(),
{
    if a.len() > 0 {
        assert(is_digit_byte(a[0]));
        assert forall|i: int| 0 <= i < a.skip(1).len() implies is_digit_byte(
            #[trigger] a.skip(1)[i],
        ) by {
            assert(a.skip(1)[i] == a[i + 1]);
        }
        lemma_without_spaces_digits(a.skip(1));
        assert(seq![a[0]] + a.skip(1) =~= a);
    }
}

/// The texts of one lexeme followed by others.
proof fn lemma_texts_of_first_and_rest(first: Lexeme, rest: Seq<Lexeme>)
    ensures
        texts(seq![first] + rest) == first.text + texts(rest),
{
    let all = seq![first] + rest;
    assert(all[0] == first);
    assert(all.skip(1) =~= rest);
}

/// What a scan of the bytes from `pos` on yields is faithful to those bytes.
proof fn lemma_scan_from_is_faithful(bytes: Seq<u8>, pos: int)
    requires
        0 <= pos <= bytes.len() <= usize::MAX,
    ensures
        match scan_from(bytes, pos) {
            Ok(lexemes) => {
                &&& forall|i: int|
                    0 <= i < lexemes.len() ==> spells_its_kind(#[trigger] lexemes[i])
                &&& texts(lexemes) == without_spaces(bytes.skip(pos))
            },
            Err(e) => scan_is_faithful(bytes, Err(e)) && pos <= match e {
                ScanError::UnrecognizedCharacter { offset } => offset,
                ScanError::NumberOutOfRange { offset } => offset,
            },
        },
    decreases bytes.len() - pos,
{
    if pos < bytes.len() {
        let end = digit_run_end(bytes, pos);
        lemma_digit_run_end(bytes, pos);
        if end > pos {
            let text = bytes.subrange(pos, end);
            assert(text[0] == bytes[pos]);
            if let Some(n) = number_of(text) {
                let first = Lexeme { ty: TokenType::Number(n), text };
                lemma_scan_from_is_faithful(bytes, end);
                if let Ok(rest) = scan_from(bytes, end) {
                    let all = seq![first] + rest;
                    assert forall|i: int| 0 <= i < all.len() implies spells_its_kind(
                        #[trigger] all[i],
                    ) by {
                        if i > 0 {
                            assert(all[i] == rest[i - 1]);
                        }
                    }
                    lemma_texts_of_first_and_rest(first, rest);
                    assert(bytes.skip(pos) =~= text + bytes.skip(end));
                    lemma_without_spaces_concat(text, bytes.skip(end));
                    lemma_without_spaces_digits(text);
                }
            }
        } else if bytes[pos] == ' ' as u8 {
            lemma_scan_from_is_faithful(bytes, pos + 1);
            assert(bytes.skip(pos)[0] == bytes[pos]);
            assert(bytes.skip(pos).skip(1) =~= bytes.skip(pos + 1));
        } else if let Some(ty) = symbol_kind(bytes[pos]) {
            let text = bytes.subrange(pos, pos + 1);
            let first = Lexeme { ty, text };
            assert(text[0] == bytes[pos]);
            lemma_scan_from_is_faithful(bytes, pos + 1);
            if let Ok(rest) = scan_from(bytes, pos + 1) {
                let all = seq![first] + rest;
                assert forall|i: int| 0 <= i < all.len() implies spells_its_kind(
                    #[trigger] all[i],
                ) by {
                    if i > 0 {
                        assert(all[i] == rest[i - 1]);
                    }
                }
                lemma_texts_of_first_and_rest(first, rest);
                assert(bytes.skip(pos)[0] == bytes[pos]);
                assert(bytes.skip(pos).skip(1) =~= bytes.skip(pos + 1));
                assert(text =~= seq![bytes[pos]]);
            }
        }
    } else {
        assert(bytes.skip(pos) =~= Seq::<u8>::empty());
    }
}

/// What a scan yields is faithful to its input: the tokens spell their kinds
/// and, taken together, the input without its spaces; an error points at what
/// it names.
pub proof fn lemma_scan_is_faithful(bytes: Seq<u8>)
    requires
        bytes.len() <= usize::MAX,
    ensures
        scan_is_faithful(bytes, scan(bytes)),
{
    lemma_scan_from_is_faithful(bytes, 0);
    assert(bytes.skip(0) =~= bytes);
}

/// A run of digits that fills `bytes` from `beg` on ends where `bytes` ends.
proof fn lemma_digit_run_to_the_end(bytes: Seq<u8>, beg: int)
    requires
        0 <= beg <= bytes.len(),
        all_digits(bytes),
    ensures
        digit_run_end(bytes, beg) == bytes.len(),
    decreases bytes.len() - beg,
{
    if beg < bytes.len() {
        lemma_digit_run_to_the_end(bytes, beg + 1);
    }
}

/// Scanning a text that is digits and nothing else, and whose value fits in
/// 32 bits, yields exactly one token: the number of that value, with the whole
/// text as its text.
pub proof fn lemma_scan_digits(digits: Seq<u8>)
    requires
        digits.len() > 0,
        all_digits(digits),
        decimal_value(digits) <= i32::MAX,
    ensures
        scan(digits) == Ok::<Seq<Lexeme>, ScanError>(
            seq![Lexeme { ty: TokenType::Number(decimal_value(digits) as i32), text: digits }],
        ),
{
    let end = digits.len() as int;
    lemma_digit_run_to_the_end(digits, 0);
    assert(digits.subrange(0, end) =~= digits);
    assert(scan_from(digits, end) == Ok::<Seq<Lexeme>, ScanError>(Seq::empty()));
    let only = seq![Lexeme { ty: TokenType::Number(decimal_value(digits) as i32), text: digits }];
    assert(only + Seq::<Lexeme>::empty() =~= only);
}

/// A number that is not negative, written in base ten and scanned, comes back
/// as the one token of that number.
pub proof fn lemma_scan_decimal_digits(n: i32)
    requires
        n >= 0,
    ensures
        scan(encode_utf8(decimal_digits(n as nat))) == Ok::<Seq<Lexeme>, ScanError>(
            seq![
                Lexeme { ty: TokenType::Number(n), text: encode_utf8(decimal_digits(n as nat)) },
            ],
        ),
{
    let chars = decimal_digits(n as nat);
    lemma_decimal_digits_value(n as nat);
    is_ascii_chars_encode_utf8(chars);
    assert(encode_utf8(chars) =~= ascii_bytes(chars));
    lemma_scan_digits(encode_utf8(chars));
}

/// Nothing, followed by a scan, is that scan.
pub proof fn lemma_followed_by_nothing(rest: Result<Seq<Lexeme>, ScanError>)
    ensures
        followed_by(Seq::empty(), rest) == rest,
{
    if let Ok(more) = rest {
        assert(Seq::<Lexeme>::empty() + more =~= more);
    }
}

/// Lexemes can be put before a scan in one go or in two.
pub proof fn lemma_followed_by_more(
    done: Seq<Lexeme>,
    next: Seq<Lexeme>,
    rest: Result<Seq<Lexeme>, ScanError>,
)
    ensures
        followed_by(done, followed_by(next, rest)) == followed_by(done + next, rest),
{
    if let Ok(more) = rest {
        assert(done + (next + more) =~= (done + next) + more);
    }
}

} // verus!
