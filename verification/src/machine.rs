//! A model of the target machine, and the value of an expression on it.
//!
//! The machine has three 64-bit registers and a stack of 64-bit words.
//! Addition, subtraction and multiplication wrap around; division is unsigned
//! and faults on a zero divisor. Nothing here is executable: the model states
//! what the instructions mean, so that the code generator can be held to it.

use vstd::prelude::*;
use crate::ast::{Node, NodeType};
use crate::instruction::{Instruction, Register};

verus! {

/// The number of values that a 64-bit word can hold.
pub open spec fn word_count() -> int {
    0x1_0000_0000_0000_0000
}

/// The 64-bit word in which the machine keeps the integer `n`: `n` itself, or
/// its two's complement where `n` is negative, reduced to 64 bits.
pub open spec fn word(n: int) -> u64 {
    (n % word_count()) as u64
}

/// The state of the machine.
pub struct Machine {
    pub rax: u64,
    pub rdi: u64,
    pub rdx: u64,
    /// The stack, with its top at the end.
    pub stack: Seq<u64>,
}

impl Machine {
    /// What register `r` holds.
    pub open spec fn get(self, r: Register) -> u64 {
        match r {
            Register::Rax => self.rax,
            Register::Rdi => self.rdi,
            Register::Rdx => self.rdx,
        }
    }

    /// This state with `v` in register `r`.
    pub open spec fn set(self, r: Register, v: u64) -> Machine {
        match r {
            Register::Rax => Machine { rax: v, ..self },
            Register::Rdi => Machine { rdi: v, ..self },
            Register::Rdx => Machine { rdx: v, ..self },
        }
    }

    /// The state after instruction `i`, or nothing where the machine faults:
    /// on a pop from an empty stack, and on a division whose divisor is zero
    /// or whose quotient does not fit in a word.
    pub open spec fn step(self, i: Instruction) -> Option<Machine> {
        match i {
            Instruction::PushImm(n) => Some(
                Machine { stack: self.stack.push(word(n as int)), ..self },
            ),
            Instruction::Push(r) => Some(Machine { stack: self.stack.push(self.get(r)), ..self }),
            Instruction::Pop(r) => if self.stack.len() == 0 {
                None
            } else {
                Some(Machine { stack: self.stack.drop_last(), ..self }.set(r, self.stack.last()))
            },
            Instruction::Add(a, b) => Some(self.set(a, word(self.get(a) + self.get(b)))),
            Instruction::Sub(a, b) => Some(self.set(a, word(self.get(a) - self.get(b)))),
            Instruction::Mul(r) => {
                let product = self.rax * self.get(r);
                Some(Machine { rax: word(product), rdx: word(product / word_count()), ..self })
            },
            Instruction::MovImm(r, n) => Some(self.set(r, word(n as int))),
            Instruction::Div(r) => {
                let dividend = self.rdx * word_count() + self.rax;
                let divisor = self.get(r);
                if divisor == 0 || dividend / (divisor as int) >= word_count() {
                    None
                } else {
                    Some(
                        Machine {
                            rax: word(dividend / (divisor as int)),
                            rdx: word(dividend % (divisor as int)),
                            ..self
                        },
                    )
                }
            },
        }
    }

    /// The state after the instructions of `program`, run in order, or nothing
    /// where one of them faults.
    pub open spec fn run(self, program: Seq<Instruction>) -> Option<Machine>
        decreases program.len(),
    {
        if program.len() == 0 {
            Some(self)
        } else {
            match self.step(program[0]) {
                Some(next) => next.run(program.skip(1)),
                None => None,
            }
        }
    }
}

/// What the operation of `ty` makes of the operands `a` and `b`, or nothing
/// where it is a division by zero.
pub open spec fn apply(ty: NodeType, a: u64, b: u64) -> Option<u64> {
    match ty {
        NodeType::Number(n) => Some(word(n as int)),
        NodeType::Add(_, _) => Some(word(a + b)),
        NodeType::Sub(_, _) => Some(word(a - b)),
        NodeType::Mul(_, _) => Some(word(a * b)),
        NodeType::Div(_, _) => if b == 0 {
            None
        } else {
            Some(word(a as int / b as int))
        },
    }
}

/// The value of an operation whose operands have the values `left` and
/// `right`, where both have one.
pub open spec fn apply_to(ty: NodeType, left: Option<u64>, right: Option<u64>) -> Option<u64> {
    match (left, right) {
        (Some(a), Some(b)) => apply(ty, a, b),
        _ => None,
    }
}

/// The value of `node` on the machine, or nothing where computing it divides
/// by zero.
pub open spec fn value(node: Node) -> Option<u64>
    decreases node,
{
    match node.ty {
        NodeType::Number(n) => Some(word(n as int)),
        NodeType::Add(l, r) => apply_to(node.ty, value(*l), value(*r)),
        NodeType::Sub(l, r) => apply_to(node.ty, value(*l), value(*r)),
        NodeType::Mul(l, r) => apply_to(node.ty, value(*l), value(*r)),
        NodeType::Div(l, r) => apply_to(node.ty, value(*l), value(*r)),
    }
}

/// Whether `program`, run from `m`, does what computing `v` asks: it leaves
/// the stack of `m` with `v` pushed on top, or faults where there is no `v`.
pub open spec fn pushes(m: Machine, program: Seq<Instruction>, v: Option<u64>) -> bool {
    match v {
        Some(v) => m.run(program) matches Some(after) && after.stack == m.stack.push(v),
        None => m.run(program) is None,
    }
}

/// Running one program after another is running them joined.
pub proof fn lemma_run_concat(m: Machine, first: Seq<Instruction>, second: Seq<Instruction>)
    ensures
        m.run(first + second) == match m.run(first) {
            Some(mid) => mid.run(second),
            None => None,
        },
    decreases first.len(),
{
    if first.len() == 0 {
        assert(first + second =~= second);
    } else {
        assert((first + second)[0] == first[0]);
        assert((first + second).skip(1) =~= first.skip(1) + second);
        if let Some(next) = m.step(first[0]) {
            lemma_run_concat(next, first.skip(1), second);
        }
    }
}

} // verus!
