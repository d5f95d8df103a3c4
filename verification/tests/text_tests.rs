use arith_compiler::ast::{Node, NodeType};
use arith_compiler::decimal::{parse_decimal, push_decimal, push_decimal_digits};
use arith_compiler::scanner::tokenize;
use arith_compiler::token::{Token, TokenType};

fn decimal(n: i32) -> String {
    let mut s = String::new();
    push_decimal(&mut s, n);
    s
}

fn num(n: i32) -> Node {
    Node { ty: NodeType::Number(n) }
}

#[test]
fn numbers_are_written_in_base_ten() {
    assert_eq!("0", decimal(0));
    assert_eq!("7", decimal(7));
    assert_eq!("10", decimal(10));
    assert_eq!("1203", decimal(1203));
    assert_eq!("2147483647", decimal(i32::MAX));
    assert_eq!("-1", decimal(-1));
    assert_eq!("-40", decimal(-40));
    assert_eq!("-2147483648", decimal(i32::MIN));
}

#[test]
fn push_decimal_appends() {
    let mut s = String::from("x = ");
    push_decimal(&mut s, -12);
    assert_eq!("x = -12", s);
    push_decimal_digits(&mut s, 3400);
    assert_eq!("x = -123400", s);
    push_decimal_digits(&mut s, 0);
    assert_eq!("x = -1234000", s);
    let mut s = String::new();
    push_decimal_digits(&mut s, u64::MAX);
    assert_eq!("18446744073709551615", s);
}

#[test]
fn digits_are_read_in_base_ten() {
    assert_eq!(Some(0), parse_decimal(b"0"));
    assert_eq!(Some(123), parse_decimal(b"123"));
    assert_eq!(Some(42), parse_decimal(b"00042"));
    assert_eq!(Some(2147483647), parse_decimal(b"2147483647"));
    assert_eq!(Some(2147483647), parse_decimal(b"0002147483647"));
}

#[test]
fn numbers_above_i32_max_are_not_read() {
    assert_eq!(None, parse_decimal(b"2147483648"));
    assert_eq!(None, parse_decimal(b"99999999999999999999999999"));
}

#[test]
fn only_digits_are_read() {
    assert_eq!(None, parse_decimal(b""));
    assert_eq!(None, parse_decimal(b"-1"));
    assert_eq!(None, parse_decimal(b"+1"));
    assert_eq!(None, parse_decimal(b"1 "));
    assert_eq!(None, parse_decimal(b"12a"));
    assert_eq!(None, parse_decimal(b"/"));
    assert_eq!(None, parse_decimal(b":"));
    assert_eq!(None, parse_decimal(b"99999999999999999999999999x"));
}

#[test]
fn a_written_number_scans_back_to_itself() {
    for n in [0, 1, 9, 10, 99, 100, 4711, 1000000, i32::MAX - 1, i32::MAX] {
        let text = decimal(n);
        let tokens = tokenize(&text).unwrap();
        assert_eq!(1, tokens.len());
        assert_eq!(TokenType::Number(n), tokens[0].ty);
        assert_eq!(text, tokens[0].text);
    }
}

#[test]
fn token_kinds_are_shown_by_name() {
    assert_eq!("Number 12", TokenType::Number(12).to_text());
    assert_eq!("Number -3", TokenType::Number(-3).to_text());
    assert_eq!("Plus", TokenType::Plus.to_text());
    assert_eq!("Minus", TokenType::Minus.to_text());
    assert_eq!("Asterisk", TokenType::Asterisk.to_text());
    assert_eq!("Slash", TokenType::Slash.to_text());
    assert_eq!("LParen", TokenType::LParen.to_text());
    assert_eq!("RParen", TokenType::RParen.to_text());
}

#[test]
fn tokens_are_shown_with_their_text() {
    let token = Token { ty: TokenType::Number(12), text: "012" };
    assert_eq!("(type = Number 12, text = 012)", token.to_text());
    let token = Token { ty: TokenType::LParen, text: "(" };
    assert_eq!("(type = LParen, text = ()", token.to_text());
    let tokens = tokenize("3*4").unwrap();
    assert_eq!("(type = Asterisk, text = *)", tokens[1].to_text());
}

#[test]
fn nodes_are_shown_with_their_operands() {
    assert_eq!("(type = Number 1)", num(1).to_text());
    assert_eq!("Number 1", NodeType::Number(1).to_text());
    let add = NodeType::Add(Box::new(num(1)), Box::new(num(2)));
    assert_eq!("Add (type = Number 1) + (type = Number 2)", add.to_text());
    let sub = NodeType::Sub(Box::new(num(1)), Box::new(num(2)));
    assert_eq!("Sub (type = Number 1) - (type = Number 2)", sub.to_text());
    let mul = NodeType::Mul(Box::new(num(1)), Box::new(num(2)));
    assert_eq!("Mul (type = Number 1) * (type = Number 2)", mul.to_text());
    let div = NodeType::Div(Box::new(num(1)), Box::new(num(2)));
    assert_eq!("Div (type = Number 1) / (type = Number 2)", div.to_text());
    let nested = Node { ty: NodeType::Sub(Box::new(num(5)), Box::new(Node { ty: mul })) };
    assert_eq!(
        "(type = Sub (type = Number 5) - (type = Mul (type = Number 1) * (type = Number 2)))",
        nested.to_text()
    );
}
