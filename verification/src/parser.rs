//! Recursive-descent parsing: from tokens to an expression tree.
//!
//! The tokens stay where they are; the parser moves a position over them.
//! Each rule of the grammar is read at a position and gives back the position
//! after what it read. The public functions take the tokens whole and hand
//! back, beside the result, the tokens that were not read.

use vstd::prelude::*;
use crate::ast::{Node, NodeType};
use crate::grammar::{
    expr_rule, is_expression, is_term, lemma_expr_rule_sound, lemma_mul_rule_sound, mul_rule,
    number_rule, parse_rule, spelling, without_parentheses,
};
use crate::token::{kinds, Token, TokenType};

verus! {

/// The kinds of the tokens from position `pos` on.
pub open spec fn kinds_from(tokens: Seq<Token>, pos: int) -> Seq<TokenType> {
    kinds(tokens).skip(pos)
}

/// Reads a `number` at position `pos`: gives the leaf and the position after
/// it, or an error and `pos` itself.
fn number_at(tokens: &Vec<Token>, pos: usize) -> (r: (Result<Node, &'static str>, usize))
    requires
        pos <= tokens@.len(),
    ensures
        r.0 == number_rule(kinds_from(tokens@, pos as int)).0,
        r.1 == pos + number_rule(kinds_from(tokens@, pos as int)).1,
{
    if pos < tokens.len() {
        if let TokenType::Number(n) = tokens[pos].ty {
            return (Ok(Node { ty: NodeType::Number(n) }), pos + 1);
        }
    }
    (Err("not a number"), pos)
}

/// Reads a `mul` at position `pos`: gives the tree, or the reason why there
/// is none, and the position after the last token read.
fn mul_at(tokens: &Vec<Token>, pos: usize) -> (r: (Result<Node, &'static str>, usize))
    requires
        pos <= tokens@.len(),
    ensures
        r.0 == mul_rule(kinds_from(tokens@, pos as int)).0,
        r.1 == pos + mul_rule(kinds_from(tokens@, pos as int)).1,
        r.1 <= tokens@.len(),
    decreases tokens@.len() - pos,
{
    let (res, next) = number_at(tokens, pos);
    let lhs = match res {
        Ok(lhs) => lhs,
        Err(_) => {
            return (Err("no number"), next);
        },
    };
    if next < tokens.len() {
        let ty = tokens[next].ty;
        if ty == TokenType::Asterisk || ty == TokenType::Slash {
            assert(kinds_from(tokens@, pos as int).skip(2) =~= kinds_from(tokens@, next + 1));
            let (rhs_res, end) = mul_at(tokens, next + 1);
            return match rhs_res {
                Ok(rhs) => {
                    let node = if ty == TokenType::Asterisk {
                        Node { ty: NodeType::Mul(Box::new(lhs), Box::new(rhs)) }
                    } else {
                        Node { ty: NodeType::Div(Box::new(lhs), Box::new(rhs)) }
                    };
                    (Ok(node), end)
                },
                Err(_) => (Err("there should be a mul after *"), end),
            };
        }
    }
    (Ok(lhs), next)
}

/// Reads an `expr` at position `pos`: gives the tree, or the reason why there
/// is none, and the position after the last token read.
fn expr_at(tokens: &Vec<Token>, pos: usize) -> (r: (Result<Node, &'static str>, usize))
    requires
        pos <= tokens@.len(),
    ensures
        r.0 == expr_rule(kinds_from(tokens@, pos as int)).0,
        r.1 == pos + expr_rule(kinds_from(tokens@, pos as int)).1,
        r.1 <= tokens@.len(),
    decreases tokens@.len() - pos,
{
    let ghost toks = kinds_from(tokens@, pos as int);
    if pos < tokens.len() && tokens[pos].ty == TokenType::LParen {
        assert(toks.skip(1) =~= kinds_from(tokens@, pos + 1));
        let (res, next) = expr_at(tokens, pos + 1);
        let inner = match res {
            Ok(inner) => inner,
            Err(e) => {
                return (Err(e), next);
            },
        };
        if next < tokens.len() && tokens[next].ty == TokenType::RParen {
            return (Ok(inner), next + 1);
        }
        return (Err("mismatched parenthesis"), next);
    }
    let (lhs_res, next) = mul_at(tokens, pos);
    let lhs = match lhs_res {
        Ok(lhs) => lhs,
        Err(_) => {
            return (Err("left-hand side is not a valid expression"), next);
        },
    };
    if next < tokens.len() {
        let ty = tokens[next].ty;
        if ty == TokenType::Plus || ty == TokenType::Minus {
            assert(toks.skip(next - pos + 1) =~= kinds_from(tokens@, next + 1));
            let (rhs_res, end) = expr_at(tokens, next + 1);
            return match rhs_res {
                Ok(rhs) => {
                    let node = if ty == TokenType::Plus {
                        Node { ty: NodeType::Add(Box::new(lhs), Box::new(rhs)) }
                    } else {
                        Node { ty: NodeType::Sub(Box::new(lhs), Box::new(rhs)) }
                    };
                    (Ok(node), end)
                },
                Err(_) => (Err("expected expression after operator"), end),
            };
        }
    }
    (Ok(lhs), next)
}

/// The tokens of `tokens` from position `pos` on.
fn rest_from<'a>(tokens: Vec<Token<'a>>, pos: usize) -> (rest: Vec<Token<'a>>)
    requires
        pos <= tokens@.len(),
    ensures
        rest@ == tokens@.skip(pos as int),
{
    let mut tokens = tokens;
    tokens.split_off(pos)
}

/// Parses one number token from the front of `tokens`. Returns the leaf and
/// the tokens after it, or an error and all the tokens.
pub fn parse_number<'a>(tokens: Vec<Token<'a>>) -> (r: (
    Result<Node, &'static str>,
    Vec<Token<'a>>,
))
    ensures
        r.0 == number_rule(kinds(tokens@)).0,
        r.1@ == tokens@.skip(number_rule(kinds(tokens@)).1 as int),
{
    assert(kinds_from(tokens@, 0) =~= kinds(tokens@));
    let (res, next) = number_at(&tokens, 0);
    (res, rest_from(tokens, next))
}

/// Parses a `mul` from the front of `tokens`. Returns the tree, or the reason
/// why there is none, and the tokens that were not read. The tree is a term,
/// and the tokens that were read spell it.
pub fn parse_mul<'a>(tokens: Vec<Token<'a>>) -> (r: (Result<Node, &'static str>, Vec<Token<'a>>))
    ensures
        r.0 == mul_rule(kinds(tokens@)).0,
        r.1@ == tokens@.skip(mul_rule(kinds(tokens@)).1 as int),
        r.1@.len() <= tokens@.len(),
        r.0 matches Ok(node) ==> is_term(node) && kinds(tokens@).take(
            tokens@.len() - r.1@.len(),
        ) == spelling(node),
{
    assert(kinds_from(tokens@, 0) =~= kinds(tokens@));
    proof {
        lemma_mul_rule_sound(kinds(tokens@));
    }
    let (res, next) = mul_at(&tokens, 0);
    (res, rest_from(tokens, next))
}

/// Parses an `expr` from the front of `tokens`. Returns the tree, or the
/// reason why there is none, and the tokens that were not read. The tree is
/// an expression, and the tokens that were read, their parentheses aside,
/// spell it.
pub fn parse_expr<'a>(tokens: Vec<Token<'a>>) -> (r: (Result<Node, &'static str>, Vec<Token<'a>>))
    ensures
        r.0 == expr_rule(kinds(tokens@)).0,
        r.1@ == tokens@.skip(expr_rule(kinds(tokens@)).1 as int),
        r.1@.len() <= tokens@.len(),
        r.0 matches Ok(node) ==> is_expression(node) && without_parentheses(
            kinds(tokens@).take(tokens@.len() - r.1@.len()),
        ) == spelling(node),
{
    assert(kinds_from(tokens@, 0) =~= kinds(tokens@));
    proof {
        lemma_expr_rule_sound(kinds(tokens@));
    }
    let (res, next) = expr_at(&tokens, 0);
    (res, rest_from(tokens, next))
}

/// Parses `tokens` as one whole expression: an `expr` with nothing after it.
/// The tree is an expression, and the tokens, their parentheses aside, spell
/// it.
pub fn parse<'a>(tokens: Vec<Token<'a>>) -> (r: Result<Node, &'static str>)
    ensures
        r == parse_rule(kinds(tokens@)),
        r matches Ok(node) ==> is_expression(node) && without_parentheses(kinds(tokens@))
            == spelling(node),
{
    assert(kinds_from(tokens@, 0) =~= kinds(tokens@));
    proof {
        lemma_expr_rule_sound(kinds(tokens@));
        assert(kinds(tokens@).take(tokens@.len() as int) =~= kinds(tokens@));
    }
    let (res, next) = expr_at(&tokens, 0);
    match res {
        Err(e) => Err(e),
        Ok(node) => {
            if next != tokens.len() {
                Err("tokens not fully consumed")
            } else {
                Ok(node)
            }
        },
    }
}

} // verus!
