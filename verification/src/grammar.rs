//! The grammar of expressions, as functions on sequences of token kinds.
//!
//! ```text
//! expr   := mul ( ('+' | '-') expr )?
//!         | '(' expr ')'
//! mul    := number ( ('*' | '/') mul )?
//! number := NUMBER
//! ```
//!
//! `mul` stands below `expr`, so `*` and `/` bind tighter than `+` and `-`.
//! The right operand of every operator is a whole `expr` or `mul` again, so
//! all four operators group to the right: `1-2-3` is `1-(2-3)`. Parentheses
//! can stand around a whole input or around the whole right operand of `+`
//! and `-`, and nowhere else; they leave no trace in the tree.

use vstd::prelude::*;
use crate::ast::{Node, NodeType};
use crate::token::TokenType;

verus! {

/// What a rule makes of a sequence of token kinds: a tree or the reason why
/// there is none, and how many tokens it took from the front.
pub type Outcome = (Result<Node, &'static str>, nat);

/// The rule `number`: one number token, which becomes a leaf.
pub open spec fn number_rule(toks: Seq<TokenType>) -> Outcome {
    if toks.len() > 0 && toks[0] is Number {
        (Ok(Node::number(toks[0]->Number_0)), 1)
    } else {
        (Err("not a number"), 0)
    }
}

/// The rule `mul`: a number, then optionally `*` or `/` and another `mul`.
pub open spec fn mul_rule(toks: Seq<TokenType>) -> Outcome
    decreases toks.len(),
{
    match number_rule(toks) {
        (Err(_), n) => (Err("no number"), n),
        (Ok(lhs), n) => {
            if n < toks.len() && (toks[n as int] == TokenType::Asterisk || toks[n as int]
                == TokenType::Slash) {
                match mul_rule(toks.skip(n as int + 1)) {
                    (Ok(rhs), m) => (
                        Ok(
                            if toks[n as int] == TokenType::Asterisk {
                                Node::product(lhs, rhs)
                            } else {
                                Node::quotient(lhs, rhs)
                            },
                        ),
                        n + 1 + m,
                    ),
                    (Err(_), m) => (Err("there should be a mul after *"), n + 1 + m),
                }
            } else {
                (Ok(lhs), n)
            }
        },
    }
}

/// The rule `expr`: an `expr` in parentheses; or a `mul`, then optionally `+`
/// or `-` and another `expr`.
pub open spec fn expr_rule(toks: Seq<TokenType>) -> Outcome
    decreases toks.len(),
{
    if toks.len() > 0 && toks[0] == TokenType::LParen {
        match expr_rule(toks.skip(1)) {
            (Err(e), n) => (Err(e), n + 1),
            (Ok(inner), n) => {
                if n + 1 < toks.len() && toks[n as int + 1] == TokenType::RParen {
                    (Ok(inner), n + 2)
                } else {
                    (Err("mismatched parenthesis"), n + 1)
                }
            },
        }
    } else {
        match mul_rule(toks) {
            (Err(_), n) => (Err("left-hand side is not a valid expression"), n),
            (Ok(lhs), n) => {
                if n < toks.len() && (toks[n as int] == TokenType::Plus || toks[n as int]
                    == TokenType::Minus) {
                    match expr_rule(toks.skip(n as int + 1)) {
                        (Ok(rhs), m) => (
                            Ok(
                                if toks[n as int] == TokenType::Plus {
                                    Node::sum(lhs, rhs)
                                } else {
                                    Node::difference(lhs, rhs)
                                },
                            ),
                            n + 1 + m,
                        ),
                        (Err(_), m) => (Err("expected expression after operator"), n + 1 + m),
                    }
                } else {
                    (Ok(lhs), n)
                }
            },
        }
    }
}

/// A whole input: an `expr` that leaves no token over.
pub open spec fn parse_rule(toks: Seq<TokenType>) -> Result<Node, &'static str> {
    match expr_rule(toks) {
        (Err(e), _) => Err(e),
        (Ok(node), n) => if n == toks.len() {
            Ok(node)
        } else {
            Err("tokens not fully consumed")
        },
    }
}

/// Whether `node` is a tree that `mul` can build: a number, or a product or
/// quotient of a number on the left and such a tree on the right.
pub open spec fn is_term(node: Node) -> bool
    decreases node,
{
    match node.ty {
        NodeType::Number(_) => true,
        NodeType::Mul(l, r) => l.ty is Number && is_term(*r),
        NodeType::Div(l, r) => l.ty is Number && is_term(*r),
        _ => false,
    }
}

/// Whether `node` is a tree that `expr` can build: a term, or a sum or
/// difference of a term on the left and such a tree on the right.
pub open spec fn is_expression(node: Node) -> bool
    decreases node,
{
    match node.ty {
        NodeType::Add(l, r) => is_term(*l) && is_expression(*r),
        NodeType::Sub(l, r) => is_term(*l) && is_expression(*r),
        _ => is_term(node),
    }
}

/// The tokens that write `node` in infix notation, without any parentheses.
pub open spec fn spelling(node: Node) -> Seq<TokenType>
    decreases node,
{
    match node.ty {
        NodeType::Number(n) => seq![TokenType::Number(n)],
        NodeType::Add(l, r) => spelling(*l) + seq![TokenType::Plus] + spelling(*r),
        NodeType::Sub(l, r) => spelling(*l) + seq![TokenType::Minus] + spelling(*r),
        NodeType::Mul(l, r) => spelling(*l) + seq![TokenType::Asterisk] + spelling(*r),
        NodeType::Div(l, r) => spelling(*l) + seq![TokenType::Slash] + spelling(*r),
    }
}

/// Whether `t` is one of the four operator signs.
pub open spec fn is_operator(t: TokenType) -> bool {
    t == TokenType::Plus || t == TokenType::Minus || t == TokenType::Asterisk || t
        == TokenType::Slash
}

/// Whether `t` is an opening or a closing parenthesis.
pub open spec fn is_parenthesis(t: TokenType) -> bool {
    t == TokenType::LParen || t == TokenType::RParen
}

/// The tokens of `toks` that are no parentheses, in order.
pub open spec fn without_parentheses(toks: Seq<TokenType>) -> Seq<TokenType>
    decreases toks.len(),
{
    if toks.len() == 0 {
        Seq::empty()
    } else if is_parenthesis(toks[0]) {
        without_parentheses(toks.skip(1))
    } else {
        seq![toks[0]] + without_parentheses(toks.skip(1))
    }
}

/// What `mul` builds is a term, and the tokens it took are the spelling of
/// that term. It takes no more tokens than there are, also where it fails.
pub proof fn lemma_mul_rule_sound(toks: Seq<TokenType>)
    ensures
        mul_rule(toks).1 <= toks.len(),
        mul_rule(toks).0 matches Ok(node) ==> is_term(node) && toks.take(mul_rule(toks).1 as int)
            == spelling(node),
    decreases toks.len(),
{
    if let (Ok(lhs), n) = number_rule(toks) {
        let n = n as int;
        if n < toks.len() && (toks[n] == TokenType::Asterisk || toks[n] == TokenType::Slash) {
            let rest = toks.skip(n + 1);
            lemma_mul_rule_sound(rest);
            if let (Ok(rhs), m) = mul_rule(rest) {
                let m = m as int;
                assert(toks.take(n + 1 + m) =~= toks.take(n) + seq![toks[n]] + rest.take(m));
                assert(toks.take(n) =~= spelling(lhs));
            }
        } else {
            assert(toks.take(n) =~= spelling(lhs));
        }
    }
}

/// The parentheses aside, what is written by `a + b` is what is written by
/// `a`, then by `b`.
proof fn lemma_without_parentheses_concat(a: Seq<TokenType>, b: Seq<TokenType>)
    ensures
        without_parentheses(a + b) == without_parentheses(a) + without_parentheses(b),
    decreases a.len(),
{
    if a.len() == 0 {
        assert(a + b =~= b);
        assert(without_parentheses(a) + without_parentheses(b) =~= without_parentheses(b));
    } else {
        assert((a + b)[0] == a[0]);
        assert((a + b).skip(1) =~= a.skip(1) + b);
        lemma_without_parentheses_concat(a.skip(1), b);
        let rest = without_parentheses(a.skip(1));
        assert((seq![a[0]] + rest) + without_parentheses(b) =~= seq![a[0]] + (rest
            + without_parentheses(b)));
    }
}

/// Whether no token of `toks` is a parenthesis.
pub open spec fn has_no_parentheses(toks: Seq<TokenType>) -> bool {
    forall|i: int| 0 <= i < toks.len() ==> !is_parenthesis(#[trigger] toks[i])
}

/// A sequence without parentheses has none to leave out.
proof fn lemma_without_parentheses_none(a: Seq<TokenType>)
    requires
        has_no_parentheses(a),
    ensures
        without_parentheses(a) == a,
    decreases a.len(),
{
    if a.len() > 0 {
        assert forall|i: int| 0 <= i < a.skip(1).len() implies !is_parenthesis(
            #[trigger] a.skip(1)[i],
        ) by {
            assert(a.skip(1)[i] == a[i + 1]);
        }
        lemma_without_parentheses_none(a.skip(1));
        assert(seq![a[0]] + a.skip(1) =~= a);
    }
}

/// Two operands without parentheses, joined by an operator, hold none.
proof fn lemma_operation_has_no_parentheses(
    left: Seq<TokenType>,
    sign: TokenType,
    right: Seq<TokenType>,
)
    requires
        has_no_parentheses(left),
        is_operator(sign),
        has_no_parentheses(right),
    ensures
        has_no_parentheses(left + seq![sign] + right),
{
    let all = left + seq![sign] + right;
    assert forall|i: int| 0 <= i < all.len() implies !is_parenthesis(#[trigger] all[i]) by {
        if i < left.len() {
            assert(all[i] == left[i]);
        } else if i == left.len() {
            assert(all[i] == sign);
        } else {
            assert(all[i] == right[i - left.len() - 1]);
        }
    }
}

/// The spelling of a tree holds no parentheses.
proof fn lemma_spelling_has_no_parentheses(node: Node)
    ensures
        has_no_parentheses(spelling(node)),
    decreases node,
{
    match node.ty {
        NodeType::Number(n) => {
            assert(spelling(node) =~= seq![TokenType::Number(n)]);
        },
        NodeType::Add(l, r) => {
            lemma_spelling_has_no_parentheses(*l);
            lemma_spelling_has_no_parentheses(*r);
            lemma_operation_has_no_parentheses(spelling(*l), TokenType::Plus, spelling(*r));
        },
        NodeType::Sub(l, r) => {
            lemma_spelling_has_no_parentheses(*l);
            lemma_spelling_has_no_parentheses(*r);
            lemma_operation_has_no_parentheses(spelling(*l), TokenType::Minus, spelling(*r));
        },
        NodeType::Mul(l, r) => {
            lemma_spelling_has_no_parentheses(*l);
            lemma_spelling_has_no_parentheses(*r);
            lemma_operation_has_no_parentheses(spelling(*l), TokenType::Asterisk, spelling(*r));
        },
        NodeType::Div(l, r) => {
            lemma_spelling_has_no_parentheses(*l);
            lemma_spelling_has_no_parentheses(*r);
            lemma_operation_has_no_parentheses(spelling(*l), TokenType::Slash, spelling(*r));
        },
    }
}

/// Parentheses around a stretch of tokens change nothing in what it writes.
proof fn lemma_parenthesized(toks: Seq<TokenType>, n: int)
    requires
        0 <= n,
        n + 1 < toks.len(),
        toks[0] == TokenType::LParen,
        toks[n + 1] == TokenType::RParen,
    ensures
        without_parentheses(toks.take(n + 2)) == without_parentheses(toks.skip(1).take(n)),
{
    let inner = toks.skip(1).take(n);
    let close = seq![toks[n + 1]];
    assert(toks.take(n + 2).skip(1) =~= inner + close);
    assert(toks.take(n + 2)[0] == toks[0]);
    lemma_without_parentheses_concat(inner, close);
    assert(close.skip(1) =~= Seq::<TokenType>::empty());
    assert(without_parentheses(close.skip(1)) =~= Seq::<TokenType>::empty());
    assert(without_parentheses(close) =~= Seq::<TokenType>::empty());
    assert(without_parentheses(inner) + Seq::<TokenType>::empty() =~= without_parentheses(inner));
}

/// What an operand, an operator and a second stretch of tokens write is the
/// operand, the operator, and what the second stretch writes.
proof fn lemma_operand_then_operator(toks: Seq<TokenType>, n: int, m: int)
    requires
        0 <= n < toks.len(),
        0 <= m,
        n + 1 + m <= toks.len(),
        is_operator(toks[n]),
        without_parentheses(toks.take(n)) == toks.take(n),
    ensures
        without_parentheses(toks.take(n + 1 + m)) == toks.take(n) + seq![toks[n]]
            + without_parentheses(toks.skip(n + 1).take(m)),
{
    let left = toks.take(n);
    let sign = seq![toks[n]];
    let right = toks.skip(n + 1).take(m);
    assert(toks.take(n + 1 + m) =~= (left + sign) + right);
    lemma_without_parentheses_concat(left + sign, right);
    lemma_without_parentheses_concat(left, sign);
    assert(has_no_parentheses(sign)) by {
        assert(sign[0] == toks[n]);
    }
    lemma_without_parentheses_none(sign);
}

/// What `expr` builds is an expression, and the tokens it took, the
/// parentheses aside, are the spelling of that expression. It takes at least
/// one token where it succeeds, and never more than there are.
pub proof fn lemma_expr_rule_sound(toks: Seq<TokenType>)
    ensures
        expr_rule(toks).1 <= toks.len(),
        expr_rule(toks).0 matches Ok(node) ==> expr_rule(toks).1 >= 1 && is_expression(node)
            && without_parentheses(toks.take(expr_rule(toks).1 as int)) == spelling(node),
    decreases toks.len(),
{
    if toks.len() > 0 && toks[0] == TokenType::LParen {
        let rest = toks.skip(1);
        lemma_expr_rule_sound(rest);
        if let (Ok(inner), n) = expr_rule(rest) {
            let n = n as int;
            if n + 1 < toks.len() && toks[n + 1] == TokenType::RParen {
                lemma_parenthesized(toks, n);
            }
        }
    } else {
        lemma_mul_rule_sound(toks);
        if let (Ok(lhs), n) = mul_rule(toks) {
            let n = n as int;
            lemma_spelling_has_no_parentheses(lhs);
            lemma_without_parentheses_none(spelling(lhs));
            lemma_term_is_expression(lhs);
            if n < toks.len() && (toks[n] == TokenType::Plus || toks[n] == TokenType::Minus) {
                let rest = toks.skip(n + 1);
                lemma_expr_rule_sound(rest);
                if let (Ok(rhs), m) = expr_rule(rest) {
                    lemma_operand_then_operator(toks, n, m as int);
                }
            }
        }
    }
}

/// Every term is an expression.
pub proof fn lemma_term_is_expression(node: Node)
    requires
        is_term(node),
    ensures
        is_expression(node),
{
}

/// `mul` reads the spelling of a term back as that term, whatever follows,
/// unless what follows begins with `*` or `/`.
pub proof fn lemma_mul_rule_complete(node: Node, rest: Seq<TokenType>)
    requires
        is_term(node),
        rest.len() > 0 ==> rest[0] != TokenType::Asterisk && rest[0] != TokenType::Slash,
    ensures
        mul_rule(spelling(node) + rest) == (
            Ok::<Node, &'static str>(node),
            spelling(node).len(),
        ),
    decreases node,
{
    let toks = spelling(node) + rest;
    match node.ty {
        NodeType::Number(_) => {
            assert(toks[0] == spelling(node)[0]);
            if rest.len() > 0 {
                assert(toks[1] == rest[0]);
            }
        },
        NodeType::Mul(l, r) => {
            lemma_mul_rule_complete(*r, rest);
            assert(toks[0] == spelling(*l)[0]);
            assert(toks[1] == TokenType::Asterisk);
            assert(toks.skip(2) =~= spelling(*r) + rest);
        },
        NodeType::Div(l, r) => {
            lemma_mul_rule_complete(*r, rest);
            assert(toks[0] == spelling(*l)[0]);
            assert(toks[1] == TokenType::Slash);
            assert(toks.skip(2) =~= spelling(*r) + rest);
        },
        _ => {},
    }
}

/// The spelling of a term begins with a number.
proof fn lemma_term_begins_with_number(node: Node)
    requires
        is_term(node),
    ensures
        spelling(node).len() > 0,
        spelling(node)[0] is Number,
{
    match node.ty {
        NodeType::Mul(l, r) => {
            assert(spelling(node)[0] == spelling(*l)[0]);
        },
        NodeType::Div(l, r) => {
            assert(spelling(node)[0] == spelling(*l)[0]);
        },
        _ => {},
    }
}

/// `expr` reads the spelling of an expression back as that expression,
/// whatever follows, unless what follows begins with an operator.
pub proof fn lemma_expr_rule_complete(node: Node, rest: Seq<TokenType>)
    requires
        is_expression(node),
        rest.len() > 0 ==> !is_operator(rest[0]),
    ensures
        expr_rule(spelling(node) + rest) == (
            Ok::<Node, &'static str>(node),
            spelling(node).len(),
        ),
    decreases node,
{
    let toks = spelling(node) + rest;
    match node.ty {
        NodeType::Add(l, r) => {
            let n = spelling(*l).len() as int;
            let after = seq![TokenType::Plus] + spelling(*r) + rest;
            lemma_term_begins_with_number(*l);
            assert(toks =~= spelling(*l) + after);
            assert(toks[0] == spelling(*l)[0]);
            lemma_mul_rule_complete(*l, after);
            assert(toks[n] == TokenType::Plus);
            assert(toks.skip(n + 1) =~= spelling(*r) + rest);
            lemma_expr_rule_complete(*r, rest);
        },
        NodeType::Sub(l, r) => {
            let n = spelling(*l).len() as int;
            let after = seq![TokenType::Minus] + spelling(*r) + rest;
            lemma_term_begins_with_number(*l);
            assert(toks =~= spelling(*l) + after);
            assert(toks[0] == spelling(*l)[0]);
            lemma_mul_rule_complete(*l, after);
            assert(toks[n] == TokenType::Minus);
            assert(toks.skip(n + 1) =~= spelling(*r) + rest);
            lemma_expr_rule_complete(*r, rest);
        },
        _ => {
            let n = spelling(node).len() as int;
            lemma_term_begins_with_number(node);
            assert(toks[0] == spelling(node)[0]);
            lemma_mul_rule_complete(node, rest);
            if rest.len() > 0 {
                assert(toks[n] == rest[0]);
            }
        },
    }
}

/// Every expression is the tree of its own spelling: written out without
/// parentheses and parsed again, it comes back unchanged. So the trees of the
/// grammar lean to the right, and `1-2-3` can only mean `1-(2-3)`.
pub proof fn lemma_parse_spelling(node: Node)
    requires
        is_expression(node),
    ensures
        parse_rule(spelling(node)) == Ok::<Node, &'static str>(node),
{
    lemma_expr_rule_complete(node, Seq::empty());
    assert(spelling(node) + Seq::<TokenType>::empty() =~= spelling(node));
}

} // verus!
