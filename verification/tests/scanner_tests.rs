use arith_compiler::error::ScanError;
use arith_compiler::scanner::{is_digits, is_space, seek_until_non_digits, tokenize};
use arith_compiler::token::TokenType;

#[test]
fn seek_until_non_digits_test() {
    let text = "123 ";
    assert_eq!(3, seek_until_non_digits(text, 0));
    let text = " 123";
    assert_eq!(0, seek_until_non_digits(text, 0));
    assert_eq!(4, seek_until_non_digits(text, 1));
}

#[test]
fn seek_stops_at_the_first_non_digit() {
    assert_eq!(2, seek_until_non_digits("12+34", 0));
    assert_eq!(2, seek_until_non_digits("12+34", 2));
    assert_eq!(5, seek_until_non_digits("12+34", 3));
    assert_eq!(0, seek_until_non_digits("", 0));
}

#[test]
fn seek_from_beyond_the_end_stays_put() {
    assert_eq!(3, seek_until_non_digits("12", 3));
    assert_eq!(2, seek_until_non_digits("12", 2));
}

#[test]
fn space_is_the_only_blank() {
    assert!(is_space(' '));
    assert!(!is_space('\t'));
    assert!(!is_space('\n'));
    assert!(!is_space('1'));
}

#[test]
fn digits_are_zero_to_nine() {
    assert!(is_digits('0'));
    assert!(is_digits('5'));
    assert!(is_digits('9'));
    assert!(!is_digits('/'));
    assert!(!is_digits(':'));
    assert!(!is_digits('a'));
    assert!(!is_digits(' '));
}

#[test]
fn a_run_of_digits_is_one_number_token() {
    let tokens = tokenize("12345").unwrap();
    assert_eq!(1, tokens.len());
    assert_eq!(TokenType::Number(12345), tokens[0].ty);
    assert_eq!("12345", tokens[0].text);
}

#[test]
fn leading_zeros_do_not_count() {
    let tokens = tokenize("007").unwrap();
    assert_eq!(1, tokens.len());
    assert_eq!(TokenType::Number(7), tokens[0].ty);
    assert_eq!("007", tokens[0].text);
    let tokens = tokenize("0000000000000000000000012").unwrap();
    assert_eq!(1, tokens.len());
    assert_eq!(TokenType::Number(12), tokens[0].ty);
}

#[test]
fn the_largest_number_is_i32_max() {
    let tokens = tokenize("2147483647").unwrap();
    assert_eq!(1, tokens.len());
    assert_eq!(TokenType::Number(2147483647), tokens[0].ty);
    assert_eq!(
        Err(ScanError::NumberOutOfRange { offset: 0 }),
        tokenize("2147483648").map(|tokens| tokens.len())
    );
    assert_eq!(
        Err(ScanError::NumberOutOfRange { offset: 2 }),
        tokenize("1+99999999999999999999").map(|tokens| tokens.len())
    );
}

#[test]
fn every_symbol_is_a_token_of_its_own() {
    let tokens = tokenize("+-*/()").unwrap();
    let kinds: Vec<TokenType> = tokens.iter().map(|t| t.ty).collect();
    assert_eq!(
        vec![
            TokenType::Plus,
            TokenType::Minus,
            TokenType::Asterisk,
            TokenType::Slash,
            TokenType::LParen,
            TokenType::RParen,
        ],
        kinds
    );
    let texts: Vec<&str> = tokens.iter().map(|t| t.text).collect();
    assert_eq!(vec!["+", "-", "*", "/", "(", ")"], texts);
}

#[test]
fn spaces_yield_no_token() {
    assert_eq!(0, tokenize("").unwrap().len());
    assert_eq!(0, tokenize("   ").unwrap().len());
    let tokens = tokenize(" 1 +  22 ").unwrap();
    let kinds: Vec<TokenType> = tokens.iter().map(|t| t.ty).collect();
    assert_eq!(vec![TokenType::Number(1), TokenType::Plus, TokenType::Number(22)], kinds);
    let texts: Vec<&str> = tokens.iter().map(|t| t.text).collect();
    assert_eq!(vec!["1", "+", "22"], texts);
}

#[test]
fn a_space_splits_a_run_of_digits() {
    let tokens = tokenize("1 2").unwrap();
    let kinds: Vec<TokenType> = tokens.iter().map(|t| t.ty).collect();
    assert_eq!(vec![TokenType::Number(1), TokenType::Number(2)], kinds);
}

#[test]
fn an_unknown_character_stops_the_scan() {
    assert_eq!(
        Err(ScanError::UnrecognizedCharacter { offset: 0 }),
        tokenize("x").map(|tokens| tokens.len())
    );
    assert_eq!(
        Err(ScanError::UnrecognizedCharacter { offset: 3 }),
        tokenize("1 +a").map(|tokens| tokens.len())
    );
    assert_eq!(
        Err(ScanError::UnrecognizedCharacter { offset: 1 }),
        tokenize("1\t2").map(|tokens| tokens.len())
    );
    assert_eq!(
        Err(ScanError::UnrecognizedCharacter { offset: 2 }),
        tokenize("1+é").map(|tokens| tokens.len())
    );
}

#[test]
fn the_first_error_wins() {
    assert_eq!(
        Err(ScanError::UnrecognizedCharacter { offset: 0 }),
        tokenize("a 99999999999").map(|tokens| tokens.len())
    );
    assert_eq!(
        Err(ScanError::NumberOutOfRange { offset: 0 }),
        tokenize("99999999999 a").map(|tokens| tokens.len())
    );
}

#[test]
fn the_tokens_spell_the_input_without_its_spaces() {
    for input in ["", " ", "1", " 12 + 3", "(1+2) * 30/4 - 5", "((  ))", "7  7", "+-*/"] {
        let tokens = tokenize(input).unwrap();
        let joined: String = tokens.iter().map(|t| t.text).collect();
        let expected: String = input.chars().filter(|c| *c != ' ').collect();
        assert_eq!(expected, joined);
    }
}

#[test]
fn every_token_spells_its_kind() {
    let tokens = tokenize("(10+2) * 030/4 - 5").unwrap();
    assert_eq!(11, tokens.len());
    for token in &tokens {
        match token.ty {
            TokenType::Number(n) => assert_eq!(Ok(n), token.text.parse::<i32>()),
            TokenType::Plus => assert_eq!("+", token.text),
            TokenType::Minus => assert_eq!("-", token.text),
            TokenType::Asterisk => assert_eq!("*", token.text),
            TokenType::Slash => assert_eq!("/", token.text),
            TokenType::LParen => assert_eq!("(", token.text),
            TokenType::RParen => assert_eq!(")", token.text),
        }
    }
}

#[test]
fn a_number_token_is_a_piece_of_the_input() {
    let input = String::from("12+345");
    let tokens = tokenize(&input).unwrap();
    assert_eq!(3, tokens.len());
    assert_eq!(input[0..2].as_ptr(), tokens[0].text.as_ptr());
    assert_eq!(input[3..6].as_ptr(), tokens[2].text.as_ptr());
    assert_eq!(3, tokens[2].text.len());
}
