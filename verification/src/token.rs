//! Tokens: the lexical units that the scanner hands to the parser.

use vstd::prelude::*;
use vstd::string::{StringExecFns, StringSliceAdditionalSpecFns};
use crate::decimal::{decimal_text, push_decimal};

verus! {

/// The kind of a token. A number carries its value; the other six kinds are
/// the operator and parenthesis symbols.
#[derive(Clone, Copy, Debug, PartialEq, Eq, Structural)]
pub enum TokenType {
    Number(i32),
    Plus,
    Minus,
    Asterisk,
    Slash,
    LParen,
    RParen,
}

/// A token: its kind, and the piece of source text it was read from. The text
/// is kept for display only and is never read again.
#[derive(Clone, Copy, Debug)]
pub struct Token<'a> {
    pub ty: TokenType,
    pub text: &'a str,
}

/// The model of a token in contracts: its kind and the bytes of its text.
pub struct Lexeme {
    pub ty: TokenType,
    pub text: Seq<u8>,
}

impl<'a> View for Token<'a> {
    type V = Lexeme;

    open spec fn view(&self) -> Lexeme {
        Lexeme { ty: self.ty, text: self.text.spec_bytes() }
    }
}

impl TokenType {
    /// How the kind is shown: its name, and for a number its value after it.
    pub open spec fn display(self) -> Seq<char> {
        match self {
            TokenType::Number(n) => "Number "@ + decimal_text(n as int),
            TokenType::Plus => "Plus"@,
            TokenType::Minus => "Minus"@,
            TokenType::Asterisk => "Asterisk"@,
            TokenType::Slash => "Slash"@,
            TokenType::LParen => "LParen"@,
            TokenType::RParen => "RParen"@,
        }
    }

    /// Shows the kind as text.
    pub fn to_text(&self) -> (s: String)
        ensures
            s@ == self.display(),
    {
        match *self {
            TokenType::Number(n) => {
                let mut s = String::from_str("Number ");
                push_decimal(&mut s, n);
                s
            },
            TokenType::Plus => String::from_str("Plus"),
            TokenType::Minus => String::from_str("Minus"),
            TokenType::Asterisk => String::from_str("Asterisk"),
            TokenType::Slash => String::from_str("Slash"),
            TokenType::LParen => String::from_str("LParen"),
            TokenType::RParen => String::from_str("RParen"),
        }
    }
}

impl<'a> Token<'a> {
    /// How the token is shown: its kind and its source text.
    pub open spec fn display(self) -> Seq<char> {
        "(type = "@ + self.ty.display() + ", text = "@ + self.text@ + ")"@
    }

    /// Shows the token as text.
    pub fn to_text(&self) -> (s: String)
        ensures
            s@ == self.display(),
    {
        let mut s = String::from_str("(type = ");
        s.append(self.ty.to_text().as_str());
        s.append(", text = ");
        s.append(self.text);
        s.append(")");
        s
    }
}

/// The lexemes of a sequence of tokens, in order.
pub open spec fn lexemes(tokens: Seq<Token>) -> Seq<Lexeme> {
    Seq::new(tokens.len(), |i: int| tokens[i]@)
}

/// The kinds of a sequence of tokens, in order.
pub open spec fn kinds(tokens: Seq<Token>) -> Seq<TokenType> {
    Seq::new(tokens.len(), |i: int| tokens[i].ty)
}

/// The kinds of a sequence of lexemes, in order.
pub open spec fn lexeme_kinds(lexemes: Seq<Lexeme>) -> Seq<TokenType> {
    Seq::new(lexemes.len(), |i: int| lexemes[i].ty)
}

} // verus!
