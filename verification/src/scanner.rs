//! Lexical scanning: from source text to tokens.
//!
//! The scanner walks the bytes of the input once, from left to right. A
//! maximal run of digits becomes a number token, a space is skipped, and each
//! of `+ - * / ( )` becomes a token of its own. Any other byte stops the scan
//! with an error.

use vstd::prelude::*;
use vstd::string::StringSliceAdditionalSpecFns;
use vstd::utf8::{
    encode_utf8_valid_utf8, is_ascii_chars_encode_utf8, is_char_boundary,
    is_char_boundary_iff_not_is_continuation_byte, length_of_first_scalar, pop_first_scalar,
    valid_utf8, valid_utf8_split,
};
use crate::decimal::{is_digit_byte, parse_decimal};
use crate::error::ScanError;
use crate::lexical::{
    digit_run_end, followed_by, lemma_digit_run_end, lemma_followed_by_more,
    lemma_followed_by_nothing, lemma_scan_is_faithful, scan, scan_from, scan_is_faithful,
    symbol_kind,
};
use crate::token::{lexemes, Lexeme, Token, TokenType};

verus! {

/// Whether `c` is the ASCII space, the only character the scanner skips.
pub fn is_space(c: char) -> (r: bool)
    ensures
        r == (c == ' '),
{
    c == ' '
}

/// Whether `c` is one of the decimal digits `0` to `9`.
pub fn is_digits(c: char) -> (r: bool)
    ensures
        r == ('0' <= c && c <= '9'),
{
    '0' <= c && c <= '9'
}

/// Finds the end of the run of digits that starts at byte `beg` of `input`.
pub fn seek_until_non_digits(input: &str, beg: usize) -> (end: usize)
    ensures
        end == digit_run_end(input.spec_bytes(), beg as int),
        beg <= end,
        beg <= input.spec_bytes().len() ==> end <= input.spec_bytes().len(),
        forall|i: int| beg <= i < end ==> is_digit_byte(#[trigger] input.spec_bytes()[i]),
        end < input.spec_bytes().len() ==> !is_digit_byte(input.spec_bytes()[end as int]),
{
    let bytes = input.as_bytes();
    let l = bytes.len();
    let mut idx = beg;
    while idx < l
        invariant
            bytes@ == input.spec_bytes(),
            l == bytes@.len(),
            beg <= idx,
            beg <= l ==> idx <= l,
            digit_run_end(bytes@, beg as int) == digit_run_end(bytes@, idx as int),
            forall|i: int| beg <= i < idx ==> is_digit_byte(#[trigger] bytes@[i]),
        ensures
            beg <= idx,
            beg <= l ==> idx <= l,
            idx == digit_run_end(bytes@, beg as int),
            forall|i: int| beg <= i < idx ==> is_digit_byte(#[trigger] bytes@[i]),
            idx < l ==> !is_digit_byte(bytes@[idx as int]),
        decreases l - idx,
    {
        let b = bytes[idx];
        if !is_digits(b as char) {
            break;
        }
        idx += 1;
    }
    idx
}

/// In valid UTF-8, an ASCII byte is a character of its own: a character starts
/// at it and another one, or the end, follows it.
proof fn lemma_ascii_byte_is_char(bytes: Seq<u8>, i: int)
    requires
        valid_utf8(bytes),
        0 <= i < bytes.len(),
        bytes[i] <= 0x7f,
    ensures
        is_char_boundary(bytes, i),
        is_char_boundary(bytes, i + 1),
    decreases bytes.len(),
{
    is_char_boundary_iff_not_is_continuation_byte(bytes, i);
    reveal_with_fuel(is_char_boundary, 2);
    if i > 0 {
        let k = length_of_first_scalar(bytes);
        let rest = pop_first_scalar(bytes);
        assert(i >= k);
        assert(rest[i - k] == bytes[i]);
        lemma_ascii_byte_is_char(rest, i - k);
    }
}

/// The piece `input[beg..end]`, where the bytes in that range are ASCII.
fn ascii_slice<'a>(input: &'a str, beg: usize, end: usize) -> (piece: &'a str)
    requires
        beg < end <= input.spec_bytes().len(),
        forall|i: int| beg <= i < end ==> #[trigger] input.spec_bytes()[i] <= 0x7f,
    ensures
        piece.spec_bytes() == input.spec_bytes().subrange(beg as int, end as int),
{
    let ghost bytes = input.spec_bytes();
    proof {
        encode_utf8_valid_utf8(input@);
        lemma_ascii_byte_is_char(bytes, beg as int);
        lemma_ascii_byte_is_char(bytes, end - 1);
    }
    let (head, _) = input.split_at(end);
    proof {
        let head_bytes = bytes.subrange(0, end as int);
        valid_utf8_split(bytes, end as int);
        assert(head_bytes[beg as int] == bytes[beg as int]);
        lemma_ascii_byte_is_char(head_bytes, beg as int);
    }
    let (_, piece) = head.split_at(beg);
    proof {
        assert(piece.spec_bytes() =~= bytes.subrange(beg as int, end as int));
    }
    piece
}

/// The token that the byte `b` spells by itself, if it spells one.
fn symbol_token(b: u8) -> (r: Option<Token<'static>>)
    ensures
        match r {
            Some(token) => symbol_kind(b) == Some(token.ty) && token.text.spec_bytes() == seq![b],
            None => symbol_kind(b) is None,
        },
{
    let c = b as char;
    let found = if c == '+' {
        proof {
            reveal_strlit("+");
        }
        Some(Token { ty: TokenType::Plus, text: "+" })
    } else if c == '-' {
        proof {
            reveal_strlit("-");
        }
        Some(Token { ty: TokenType::Minus, text: "-" })
    } else if c == '*' {
        proof {
            reveal_strlit("*");
        }
        Some(Token { ty: TokenType::Asterisk, text: "*" })
    } else if c == '/' {
        proof {
            reveal_strlit("/");
        }
        Some(Token { ty: TokenType::Slash, text: "/" })
    } else if c == '(' {
        proof {
            reveal_strlit("(");
        }
        Some(Token { ty: TokenType::LParen, text: "(" })
    } else if c == ')' {
        proof {
            reveal_strlit(")");
        }
        Some(Token { ty: TokenType::RParen, text: ")" })
    } else {
        None
    };
    proof {
        if let Some(token) = found {
            assert(token.text@ =~= seq![c]);
            is_ascii_chars_encode_utf8(token.text@);
            assert(token.text.spec_bytes() =~= seq![b]);
        }
    }
    found
}

/// The outcome of a scan as contracts see it: lexemes in place of tokens.
pub open spec fn outcome_of(r: Result<Vec<Token>, ScanError>) -> Result<Seq<Lexeme>, ScanError> {
    match r {
        Ok(tokens) => Ok(lexemes(tokens@)),
        Err(e) => Err(e),
    }
}

/// Scans `input` into its tokens. The scan fails at the first byte that
/// belongs to no token, or at the first number that does not fit in 32 bits;
/// it then yields no tokens at all.
pub fn tokenize<'a>(input: &'a str) -> (r: Result<Vec<Token<'a>>, ScanError>)
    ensures
        outcome_of(r) == scan(input.spec_bytes()),
        scan_is_faithful(input.spec_bytes(), outcome_of(r)),
{
    let mut ret: Vec<Token<'a>> = Vec::new();
    let mut idx: usize = 0;
    let bytes = input.as_bytes();
    let len = bytes.len();
    proof {
        lemma_scan_is_faithful(bytes@);
    }
    assert(followed_by(lexemes(ret@), scan_from(bytes@, 0)) == scan_from(bytes@, 0)) by {
        lemma_followed_by_nothing(scan_from(bytes@, 0));
        assert(lexemes(ret@) =~= Seq::empty());
    }
    while idx < len
        invariant
            bytes@ == input.spec_bytes(),
            len == bytes@.len(),
            idx <= len,
            scan(bytes@) == followed_by(lexemes(ret@), scan_from(bytes@, idx as int)),
        decreases bytes@.len() - idx,
    {
        let ghost before = lexemes(ret@);
        let non_digit_idx = seek_until_non_digits(input, idx);
        if idx != non_digit_idx {
            proof {
                lemma_digit_run_end(bytes@, idx as int);
            }
            let text = ascii_slice(input, idx, non_digit_idx);
            match parse_decimal(text.as_bytes()) {
                Some(num) => {
                    let token = Token { ty: TokenType::Number(num), text };
                    ret.push(token);
                    proof {
                        assert(lexemes(ret@) =~= before + seq![token@]);
                        lemma_followed_by_more(
                            before,
                            seq![token@],
                            scan_from(bytes@, non_digit_idx as int),
                        );
                    }
                    idx = non_digit_idx;
                },
                None => {
                    return Err(ScanError::NumberOutOfRange { offset: idx });
                },
            }
        } else {
            let b = bytes[idx];
            if is_space(b as char) {
                idx += 1;
            } else {
                match symbol_token(b) {
                    Some(token) => {
                        ret.push(token);
                        proof {
                            assert(bytes@.subrange(idx as int, idx + 1) =~= seq![b]);
                            assert(lexemes(ret@) =~= before + seq![token@]);
                            lemma_followed_by_more(
                                before,
                                seq![token@],
                                scan_from(bytes@, idx + 1),
                            );
                        }
                        idx += 1;
                    },
                    None => {
                        return Err(ScanError::UnrecognizedCharacter { offset: idx });
                    },
                }
            }
        }
    }
    proof {
        assert(lexemes(ret@) + Seq::<Lexeme>::empty() =~= lexemes(ret@));
    }
    Ok(ret)
}

} // verus!
