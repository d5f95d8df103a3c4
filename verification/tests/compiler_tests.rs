use arith_compiler::compiler::{assemble, compile};
use arith_compiler::error::{CompileError, ScanError};
use arith_compiler::instruction::{Instruction, Register};

fn listing(body: &[&str]) -> Vec<String> {
    let mut lines = vec![
        ".intel_syntax noprefix".to_string(),
        ".global _main".to_string(),
        "_main:".to_string(),
    ];
    for line in body {
        lines.push(line.to_string());
    }
    lines.push("  pop rax".to_string());
    lines.push("  ret".to_string());
    lines
}

#[test]
fn a_number_compiles_to_one_push() {
    assert_eq!(Ok(listing(&["  push 5"])), compile("5"));
    assert_eq!(Ok(listing(&["  push 42"])), compile(" 42 "));
}

#[test]
fn a_difference_compiles_with_its_operands_in_order() {
    assert_eq!(
        Ok(listing(&[
            "  push 5",
            "  push 3",
            "  pop rdi",
            "  pop rax",
            "  sub rax, rdi",
            "  push rax",
        ])),
        compile("5-3")
    );
}

#[test]
fn a_whole_expression_compiles_post_order() {
    assert_eq!(
        Ok(listing(&[
            "  push 1",
            "  push 2",
            "  push 3",
            "  pop rdi",
            "  pop rax",
            "  mul rdi",
            "  push rax",
            "  pop rdi",
            "  pop rax",
            "  add rax, rdi",
            "  push rax",
        ])),
        compile("1 + 2 * 3")
    );
    assert_eq!(
        Ok(listing(&[
            "  push 8",
            "  push 2",
            "  pop rdi",
            "  pop rax",
            "  mov rdx, 0",
            "  div rdi",
            "  push rax",
        ])),
        compile("(8/2)")
    );
}

#[test]
fn a_scan_error_yields_no_listing() {
    assert_eq!(
        Err(CompileError::Scan(ScanError::UnrecognizedCharacter { offset: 2 })),
        compile("1+x")
    );
    assert_eq!(
        Err(CompileError::Scan(ScanError::NumberOutOfRange { offset: 0 })),
        compile("4294967296")
    );
}

#[test]
fn a_scan_error_comes_before_any_parse_error() {
    assert_eq!(
        Err(CompileError::Scan(ScanError::UnrecognizedCharacter { offset: 3 })),
        compile("1+ ?")
    );
}

#[test]
fn a_parse_error_yields_no_listing() {
    assert_eq!(Err(CompileError::Parse("expected expression after operator")), compile("1+"));
    assert_eq!(Err(CompileError::Parse("mismatched parenthesis")), compile("(1+2"));
    assert_eq!(Err(CompileError::Parse("tokens not fully consumed")), compile("1 2"));
    assert_eq!(Err(CompileError::Parse("tokens not fully consumed")), compile("(1+2)*3"));
    assert_eq!(Err(CompileError::Parse("left-hand side is not a valid expression")), compile(""));
}

#[test]
fn division_by_zero_is_left_to_the_machine() {
    assert_eq!(
        Ok(listing(&[
            "  push 1",
            "  push 0",
            "  pop rdi",
            "  pop rax",
            "  mov rdx, 0",
            "  div rdi",
            "  push rax",
        ])),
        compile("1/0")
    );
}

#[test]
fn assemble_frames_the_instructions() {
    assert_eq!(listing(&[]), assemble(&Vec::new()));
    assert_eq!(
        listing(&["  push 7", "  pop rdi", "  mov rdx, -1"]),
        assemble(&vec![
            Instruction::PushImm(7),
            Instruction::Pop(Register::Rdi),
            Instruction::MovImm(Register::Rdx, -1),
        ])
    );
}

#[test]
fn errors_say_what_is_wrong() {
    assert_eq!(
        "unrecognized character at offset 12",
        ScanError::UnrecognizedCharacter { offset: 12 }.to_text()
    );
    assert_eq!(
        "number out of range at offset 0",
        ScanError::NumberOutOfRange { offset: 0 }.to_text()
    );
    assert_eq!(
        "unrecognized character at offset 2",
        compile("1+x").unwrap_err().to_text()
    );
    assert_eq!("mismatched parenthesis", compile("(1").unwrap_err().to_text());
    assert_eq!(
        "number out of range at offset 18446744073709551615",
        ScanError::NumberOutOfRange { offset: 18446744073709551615 }.to_text()
    );
}
