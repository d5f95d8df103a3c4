//! The instructions of the target machine and how they are written.

use vstd::prelude::*;
use vstd::string::StringExecFns;
use crate::decimal::{decimal_text, push_decimal};

verus! {

/// The registers that generated code uses: the accumulator `rax`, the scratch
/// register `rdi`, and `rdx`, which holds the upper half of a dividend.
#[derive(Clone, Copy, Debug, PartialEq, Eq, Structural)]
pub enum Register {
    Rax,
    Rdi,
    Rdx,
}

/// One instruction of the target machine.
#[derive(Clone, Copy, Debug, PartialEq, Eq, Structural)]
pub enum Instruction {
    /// `push n`: pushes the number `n`.
    PushImm(i32),
    /// `push r`: pushes what register `r` holds.
    Push(Register),
    /// `pop r`: pops the top of the stack into register `r`.
    Pop(Register),
    /// `add a, b`: adds what `b` holds to `a`.
    Add(Register, Register),
    /// `sub a, b`: subtracts what `b` holds from `a`.
    Sub(Register, Register),
    /// `mul r`: multiplies `rax` by what `r` holds; the product goes to `rdx:rax`.
    Mul(Register),
    /// `mov r, n`: sets register `r` to the number `n`.
    MovImm(Register, i32),
    /// `div r`: divides `rdx:rax` by what `r` holds; the quotient goes to
    /// `rax` and the remainder to `rdx`.
    Div(Register),
}

impl Register {
    /// The name of the register, as it is written in assembly.
    pub open spec fn name(self) -> Seq<char> {
        match self {
            Register::Rax => "rax"@,
            Register::Rdi => "rdi"@,
            Register::Rdx => "rdx"@,
        }
    }

    /// The name of the register, as it is written in assembly.
    pub fn as_str(&self) -> (s: &'static str)
        ensures
            s@ == self.name(),
    {
        match self {
            Register::Rax => "rax",
            Register::Rdi => "rdi",
            Register::Rdx => "rdx",
        }
    }
}

impl Instruction {
    /// The line of assembly that writes this instruction, in Intel syntax and
    /// indented by two spaces.
    pub open spec fn text(self) -> Seq<char> {
        match self {
            Instruction::PushImm(n) => "  push "@ + decimal_text(n as int),
            Instruction::Push(r) => "  push "@ + r.name(),
            Instruction::Pop(r) => "  pop "@ + r.name(),
            Instruction::Add(a, b) => "  add "@ + a.name() + ", "@ + b.name(),
            Instruction::Sub(a, b) => "  sub "@ + a.name() + ", "@ + b.name(),
            Instruction::Mul(r) => "  mul "@ + r.name(),
            Instruction::MovImm(r, n) => "  mov "@ + r.name() + ", "@ + decimal_text(n as int),
            Instruction::Div(r) => "  div "@ + r.name(),
        }
    }

    /// Writes this instruction as a line of assembly.
    pub fn to_text(&self) -> (s: String)
        ensures
            s@ == self.text(),
    {
        match *self {
            Instruction::PushImm(n) => {
                let mut s = String::from_str("  push ");
                push_decimal(&mut s, n);
                s
            },
            Instruction::Push(r) => {
                let mut s = String::from_str("  push ");
                s.append(r.as_str());
                s
            },
            Instruction::Pop(r) => {
                let mut s = String::from_str("  pop ");
                s.append(r.as_str());
                s
            },
            Instruction::Add(a, b) => {
                let mut s = String::from_str("  add ");
                s.append(a.as_str());
                s.append(", ");
                s.append(b.as_str());
                s
            },
            Instruction::Sub(a, b) => {
                let mut s = String::from_str("  sub ");
                s.append(a.as_str());
                s.append(", ");
                s.append(b.as_str());
                s
            },
            Instruction::Mul(r) => {
                let mut s = String::from_str("  mul ");
                s.append(r.as_str());
                s
            },
            Instruction::MovImm(r, n) => {
                let mut s = String::from_str("  mov ");
                s.append(r.as_str());
                s.append(", ");
                push_decimal(&mut s, n);
                s
            },
            Instruction::Div(r) => {
                let mut s = String::from_str("  div ");
                s.append(r.as_str());
                s
            },
        }
    }
}

} // verus!
