use arith_compiler::ast::{Node, NodeType};
use arith_compiler::parser::{parse, parse_expr, parse_mul, parse_number};
use arith_compiler::scanner::tokenize;
use arith_compiler::token::{Token, TokenType};

fn num(n: i32) -> Node {
    Node { ty: NodeType::Number(n) }
}

fn add(l: Node, r: Node) -> Node {
    Node { ty: NodeType::Add(Box::new(l), Box::new(r)) }
}

fn sub(l: Node, r: Node) -> Node {
    Node { ty: NodeType::Sub(Box::new(l), Box::new(r)) }
}

fn mul(l: Node, r: Node) -> Node {
    Node { ty: NodeType::Mul(Box::new(l), Box::new(r)) }
}

fn div(l: Node, r: Node) -> Node {
    Node { ty: NodeType::Div(Box::new(l), Box::new(r)) }
}

fn parse_text(input: &str) -> Result<Node, &'static str> {
    parse(tokenize(input).unwrap())
}

#[test]
fn parse_expr_test() {
    let tokens = vec![Token {
        ty: TokenType::Number(1),
        text: "1",
    }];

    let (res, next_tokens) = parse_expr(tokens);
    assert_eq!(0, next_tokens.len());
    assert!(res.is_ok());

    let node = res.unwrap();
    match node.ty {
        NodeType::Number(num) => {
            assert_eq!(1, num);
        }
        _ => assert!(false),
    }
    let tokens = vec![
        Token {
            ty: TokenType::Number(1),
            text: "1",
        },
        Token {
            ty: TokenType::Plus,
            text: "+",
        },
        Token {
            ty: TokenType::Number(2),
            text: "2",
        },
    ];

    let (res, next_tokens) = parse_expr(tokens);
    assert_eq!(0, next_tokens.len());
    assert!(res.is_ok());

    let node = res.unwrap();
    match node.ty {
        NodeType::Add(lhs, rhs) => {
            assert!(lhs.ty == NodeType::Number(1));
            assert!(rhs.ty == NodeType::Number(2));
        }
        _ => assert!(false),
    }
}

#[test]
fn paser_number_test() {
    let tokens = vec![Token {
        ty: TokenType::Number(123),
        text: "123",
    }];
    let (res, after_token) = parse_number(tokens);
    assert!(res.is_ok());
    assert_eq!(0, after_token.len());
    let node = res.unwrap();
    match node.ty {
        NodeType::Number(num) => {
            assert_eq!(123, num);
        }
        _ => assert!(false),
    }

    let tokens = vec![Token {
        ty: TokenType::Plus,
        text: "+",
    }];
    let (res, after_token) = parse_number(tokens);
    assert_eq!(1, after_token.len());
    assert!(res.is_err());
}

#[test]
fn a_number_parses_to_a_leaf() {
    let tokens = tokenize("1").unwrap();
    let (res, rest) = parse_expr(tokens);
    assert_eq!(Ok(num(1)), res);
    assert_eq!(0, rest.len());
    assert_eq!(Ok(num(1)), parse_text("1"));
}

#[test]
fn a_sum_parses_to_add() {
    assert_eq!(Ok(add(num(1), num(2))), parse_text("1+2"));
}

#[test]
fn subtraction_groups_to_the_right() {
    assert_eq!(Ok(sub(num(1), sub(num(2), num(3)))), parse_text("1-2-3"));
    assert_ne!(Ok(sub(sub(num(1), num(2)), num(3))), parse_text("1-2-3"));
}

#[test]
fn every_operator_groups_to_the_right() {
    assert_eq!(Ok(add(num(1), add(num(2), num(3)))), parse_text("1+2+3"));
    assert_eq!(Ok(mul(num(1), mul(num(2), num(3)))), parse_text("1*2*3"));
    assert_eq!(Ok(div(num(8), div(num(4), num(2)))), parse_text("8/4/2"));
    assert_eq!(Ok(sub(num(1), add(num(2), num(3)))), parse_text("1-2+3"));
    assert_eq!(Ok(div(num(8), mul(num(4), num(2)))), parse_text("8/4*2"));
}

#[test]
fn multiplication_binds_tighter_than_addition() {
    assert_eq!(Ok(add(num(1), mul(num(2), num(3)))), parse_text("1+2*3"));
    assert_eq!(Ok(add(mul(num(1), num(2)), num(3))), parse_text("1*2+3"));
    assert_eq!(Ok(sub(div(num(6), num(2)), mul(num(3), num(4)))), parse_text("6/2-3*4"));
}

#[test]
fn parentheses_hold_a_whole_expression() {
    assert_eq!(Ok(add(num(1), num(2))), parse_text("(1+2)"));
    assert_eq!(Ok(num(7)), parse_text("((7))"));
    assert_eq!(Ok(sub(num(1), sub(num(2), num(3)))), parse_text("1-(2-3)"));
    assert_eq!(Ok(add(mul(num(2), num(3)), add(num(4), num(5)))), parse_text("2*3+(4+5)"));
}

#[test]
fn nothing_may_follow_a_closing_parenthesis_but_the_end() {
    assert_eq!(Err("tokens not fully consumed"), parse_text("(1+2)*3"));
    assert_eq!(Err("tokens not fully consumed"), parse_text("(1)+2"));
    let (res, rest) = parse_expr(tokenize("(1+2)*3").unwrap());
    assert_eq!(Ok(add(num(1), num(2))), res);
    assert_eq!(2, rest.len());
    assert_eq!(TokenType::Asterisk, rest[0].ty);
    assert_eq!(TokenType::Number(3), rest[1].ty);
}

#[test]
fn a_factor_cannot_be_parenthesized() {
    assert_eq!(Err("expected expression after operator"), parse_text("1+2*(3)"));
    assert_eq!(Err("left-hand side is not a valid expression"), parse_text("1*(2)"));
}

#[test]
fn an_operator_needs_a_right_operand() {
    assert_eq!(Err("expected expression after operator"), parse_text("1+"));
    assert_eq!(Err("expected expression after operator"), parse_text("1-"));
    assert_eq!(Err("expected expression after operator"), parse_text("1+*"));
    assert_eq!(Err("left-hand side is not a valid expression"), parse_text("1*"));
    assert_eq!(Err("left-hand side is not a valid expression"), parse_text("1/"));
}

#[test]
fn an_open_parenthesis_must_be_closed() {
    assert_eq!(Err("mismatched parenthesis"), parse_text("(1+2"));
    assert_eq!(Err("mismatched parenthesis"), parse_text("(1"));
    assert_eq!(Err("mismatched parenthesis"), parse_text("((1)"));
    assert_eq!(Err("mismatched parenthesis"), parse_text("(1 2)"));
}

#[test]
fn an_error_inside_parentheses_comes_out_unchanged() {
    assert_eq!(Err("left-hand side is not a valid expression"), parse_text("("));
    assert_eq!(Err("left-hand side is not a valid expression"), parse_text("()"));
    assert_eq!(Err("expected expression after operator"), parse_text("(1+)"));
}

#[test]
fn trailing_tokens_are_rejected() {
    assert_eq!(Err("tokens not fully consumed"), parse_text("1 2"));
    assert_eq!(Err("tokens not fully consumed"), parse_text("1)"));
    assert_eq!(Err("tokens not fully consumed"), parse_text("1+2 3"));
    let (res, rest) = parse_expr(tokenize("1 2").unwrap());
    assert_eq!(Ok(num(1)), res);
    assert_eq!(1, rest.len());
    assert_eq!(TokenType::Number(2), rest[0].ty);
}

#[test]
fn empty_input_is_no_expression() {
    assert_eq!(Err("left-hand side is not a valid expression"), parse_text(""));
    assert_eq!(Err("left-hand side is not a valid expression"), parse_text("+1"));
    let (res, rest) = parse_expr(Vec::new());
    assert_eq!(Err("left-hand side is not a valid expression"), res);
    assert_eq!(0, rest.len());
}

#[test]
fn parse_number_takes_one_number_token() {
    let (res, rest) = parse_number(tokenize("4 5").unwrap());
    assert_eq!(Ok(num(4)), res);
    assert_eq!(1, rest.len());
    assert_eq!(TokenType::Number(5), rest[0].ty);
    let (res, rest) = parse_number(tokenize("+4").unwrap());
    assert_eq!(Err("not a number"), res);
    assert_eq!(2, rest.len());
    assert_eq!(TokenType::Plus, rest[0].ty);
    let (res, rest) = parse_number(Vec::new());
    assert_eq!(Err("not a number"), res);
    assert_eq!(0, rest.len());
}

#[test]
fn parse_mul_reads_a_chain_of_factors() {
    let (res, rest) = parse_mul(tokenize("2*3/4+5").unwrap());
    assert_eq!(Ok(mul(num(2), div(num(3), num(4)))), res);
    assert_eq!(2, rest.len());
    assert_eq!(TokenType::Plus, rest[0].ty);
    assert_eq!("5", rest[1].text);
    let (res, rest) = parse_mul(tokenize("7").unwrap());
    assert_eq!(Ok(num(7)), res);
    assert_eq!(0, rest.len());
}

#[test]
fn parse_mul_says_what_is_missing() {
    let (res, rest) = parse_mul(tokenize("+").unwrap());
    assert_eq!(Err("no number"), res);
    assert_eq!(1, rest.len());
    let (res, rest) = parse_mul(tokenize("1*").unwrap());
    assert_eq!(Err("there should be a mul after *"), res);
    assert_eq!(0, rest.len());
    let (res, rest) = parse_mul(tokenize("1/2*+3").unwrap());
    assert_eq!(Err("there should be a mul after *"), res);
    assert_eq!(2, rest.len());
    assert_eq!(TokenType::Plus, rest[0].ty);
}

#[test]
fn parse_expr_returns_what_it_did_not_read() {
    let (res, rest) = parse_expr(tokenize("1+2)3").unwrap());
    assert_eq!(Ok(add(num(1), num(2))), res);
    assert_eq!(2, rest.len());
    assert_eq!(TokenType::RParen, rest[0].ty);
    let (res, rest) = parse_expr(tokenize("(1+2").unwrap());
    assert_eq!(Err("mismatched parenthesis"), res);
    assert_eq!(0, rest.len());
    let (res, rest) = parse_expr(tokenize("(1 2").unwrap());
    assert_eq!(Err("mismatched parenthesis"), res);
    assert_eq!(1, rest.len());
    assert_eq!(TokenType::Number(2), rest[0].ty);
}

#[test]
fn nodes_compare_by_structure() {
    assert!(num(1) == num(1));
    assert!(num(1) != num(2));
    assert!(add(num(1), num(2)) == add(num(1), num(2)));
    assert!(add(num(1), num(2)) != add(num(2), num(1)));
    assert!(add(num(1), num(2)) != sub(num(1), num(2)));
    assert!(mul(num(1), num(2)) != div(num(1), num(2)));
    assert!(mul(add(num(1), num(2)), num(3)) == mul(add(num(1), num(2)), num(3)));
    assert!(mul(add(num(1), num(2)), num(3)) != mul(add(num(1), num(4)), num(3)));
    assert!(num(1) != add(num(1), num(1)));
    assert!(NodeType::Number(3) == NodeType::Number(3));
    assert!(div(num(1), num(2)).ty == div(num(1), num(2)).ty);
}
