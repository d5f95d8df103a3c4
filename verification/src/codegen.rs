//! Code generation: from an expression tree to stack-machine instructions.
//!
//! The tree is walked post-order. A number is pushed. An operation first has
//! both operands computed, the left one before the right one, then pops the
//! right operand into `rdi` and the left one into `rax`, combines them in
//! `rax` and pushes the result. So each subtree leaves exactly one more value
//! on the stack: its own.

use vstd::prelude::*;
use crate::ast::{Node, NodeType};
use crate::instruction::{Instruction, Register};
use crate::machine::{apply, apply_to, lemma_run_concat, pushes, value, Machine};

verus! {

/// The instructions that combine the two topmost values of the stack by the
/// operation of `ty` and push the result; none for a number.
pub open spec fn combine(ty: NodeType) -> Seq<Instruction> {
    let operands = seq![Instruction::Pop(Register::Rdi), Instruction::Pop(Register::Rax)];
    let result = seq![Instruction::Push(Register::Rax)];
    match ty {
        NodeType::Number(_) => Seq::empty(),
        NodeType::Add(_, _) => operands + seq![Instruction::Add(Register::Rax, Register::Rdi)]
            + result,
        NodeType::Sub(_, _) => operands + seq![Instruction::Sub(Register::Rax, Register::Rdi)]
            + result,
        NodeType::Mul(_, _) => operands + seq![Instruction::Mul(Register::Rdi)] + result,
        NodeType::Div(_, _) => operands + seq![
            Instruction::MovImm(Register::Rdx, 0),
            Instruction::Div(Register::Rdi),
        ] + result,
    }
}

/// The instructions that compute `node` and leave its value on top of the stack.
pub open spec fn code(node: Node) -> Seq<Instruction>
    decreases node,
{
    match node.ty {
        NodeType::Number(n) => seq![Instruction::PushImm(n)],
        NodeType::Add(l, r) => code(*l) + code(*r) + combine(node.ty),
        NodeType::Sub(l, r) => code(*l) + code(*r) + combine(node.ty),
        NodeType::Mul(l, r) => code(*l) + code(*r) + combine(node.ty),
        NodeType::Div(l, r) => code(*l) + code(*r) + combine(node.ty),
    }
}

/// Appends to `out` the two pops that fetch the operands of an operation.
fn emit_operands(out: &mut Vec<Instruction>)
    ensures
        final(out)@ == old(out)@ + seq![
            Instruction::Pop(Register::Rdi),
            Instruction::Pop(Register::Rax),
        ],
{
    out.push(Instruction::Pop(Register::Rdi));
    out.push(Instruction::Pop(Register::Rax));
    assert(out@ =~= old(out)@ + seq![
        Instruction::Pop(Register::Rdi),
        Instruction::Pop(Register::Rax),
    ]);
}

/// Appends the code of `node` to `out`.
pub fn emit(node: Node, out: &mut Vec<Instruction>)
    ensures
        final(out)@ == old(out)@ + code(node),
    decreases node,
{
    match node.ty {
        NodeType::Number(n) => {
            out.push(Instruction::PushImm(n));
            assert(out@ =~= old(out)@ + code(node));
        },
        NodeType::Add(lhs, rhs) => {
            emit(*lhs, out);
            emit(*rhs, out);
            emit_operands(out);
            out.push(Instruction::Add(Register::Rax, Register::Rdi));
            out.push(Instruction::Push(Register::Rax));
            assert(out@ =~= old(out)@ + code(node));
        },
        NodeType::Sub(lhs, rhs) => {
            emit(*lhs, out);
            emit(*rhs, out);
            emit_operands(out);
            out.push(Instruction::Sub(Register::Rax, Register::Rdi));
            out.push(Instruction::Push(Register::Rax));
            assert(out@ =~= old(out)@ + code(node));
        },
        NodeType::Mul(lhs, rhs) => {
            emit(*lhs, out);
            emit(*rhs, out);
            emit_operands(out);
            out.push(Instruction::Mul(Register::Rdi));
            out.push(Instruction::Push(Register::Rax));
            assert(out@ =~= old(out)@ + code(node));
        },
        NodeType::Div(lhs, rhs) => {
            emit(*lhs, out);
            emit(*rhs, out);
            emit_operands(out);
            out.push(Instruction::MovImm(Register::Rdx, 0));
            out.push(Instruction::Div(Register::Rdi));
            out.push(Instruction::Push(Register::Rax));
            assert(out@ =~= old(out)@ + code(node));
        },
    }
}

/// Generates the instructions that compute `node`. Whatever state the
/// machine is in, they leave its stack as they found it with the value of
/// `node` pushed on top, or fault where `node` divides by zero.
pub fn generate(node: Node) -> (out: Vec<Instruction>)
    ensures
        out@ == code(node),
        forall|m: Machine| #[trigger] pushes(m, out@, value(node)),
{
    let mut out: Vec<Instruction> = Vec::new();
    emit(node, &mut out);
    assert(out@ =~= code(node));
    assert forall|m: Machine| #[trigger] pushes(m, out@, value(node)) by {
        lemma_code_pushes_value(node, m);
    }
    out
}

/// The code generated for a tree leaves the stack as it found it, with the
/// value of the tree pushed on top; where the tree has no value, the code
/// faults. So the first operand of a subtraction or a division is the one
/// that the tree has on the left.
pub proof fn lemma_code_pushes_value(node: Node, m: Machine)
    ensures
        pushes(m, code(node), value(node)),
    decreases node,
{
    match node.ty {
        NodeType::Number(n) => {
            reveal_with_fuel(Machine::run, 2);
            assert(code(node).skip(1).len() == 0);
        },
        NodeType::Add(l, r) => {
            lemma_code_pushes_value(*l, m);
            if value(*l) is Some {
                lemma_code_pushes_value(*r, m.run(code(*l))->Some_0);
            }
            lemma_operation_pushes_value(node.ty, *l, *r, m);
        },
        NodeType::Sub(l, r) => {
            lemma_code_pushes_value(*l, m);
            if value(*l) is Some {
                lemma_code_pushes_value(*r, m.run(code(*l))->Some_0);
            }
            lemma_operation_pushes_value(node.ty, *l, *r, m);
        },
        NodeType::Mul(l, r) => {
            lemma_code_pushes_value(*l, m);
            if value(*l) is Some {
                lemma_code_pushes_value(*r, m.run(code(*l))->Some_0);
            }
            lemma_operation_pushes_value(node.ty, *l, *r, m);
        },
        NodeType::Div(l, r) => {
            lemma_code_pushes_value(*l, m);
            if value(*l) is Some {
                lemma_code_pushes_value(*r, m.run(code(*l))->Some_0);
            }
            lemma_operation_pushes_value(node.ty, *l, *r, m);
        },
    }
}

/// Where the code of each operand pushes that operand's value, the two codes
/// followed by the combining instructions push the value of the operation.
proof fn lemma_operation_pushes_value(ty: NodeType, l: Node, r: Node, m: Machine)
    requires
        !(ty is Number),
        pushes(m, code(l), value(l)),
        value(l) is Some ==> pushes(m.run(code(l))->Some_0, code(r), value(r)),
    ensures
        pushes(m, code(l) + code(r) + combine(ty), apply_to(ty, value(l), value(r))),
{
    lemma_run_concat(m, code(l) + code(r), combine(ty));
    lemma_run_concat(m, code(l), code(r));
    if let Some(a) = value(l) {
        let after_l = m.run(code(l))->Some_0;
        if let Some(b) = value(r) {
            let after_r = after_l.run(code(r))->Some_0;
            lemma_combine(ty, after_r, m.stack, a, b);
        }
    }
}

/// What the combining instructions of an operation do to a stack that ends
/// in the two operands `a` and `b`.
proof fn lemma_combine(ty: NodeType, m: Machine, below: Seq<u64>, a: u64, b: u64)
    requires
        !(ty is Number),
        m.stack == below.push(a).push(b),
    ensures
        match apply(ty, a, b) {
            Some(v) => m.run(combine(ty)) matches Some(after) && after.stack == below.push(v),
            None => m.run(combine(ty)) is None,
        },
{
    let pop_rdi = Instruction::Pop(Register::Rdi);
    let pop_rax = Instruction::Pop(Register::Rax);
    let push_rax = Instruction::Push(Register::Rax);
    let m1 = m.step(pop_rdi)->Some_0;
    assert(m1.stack =~= below.push(a) && m1.rdi == b);
    let m2 = m1.step(pop_rax)->Some_0;
    assert(m2.stack =~= below && m2.rdi == b && m2.rax == a);
    let program = combine(ty);
    assert(program[0] == pop_rdi && program[1] == pop_rax);
    assert(m.run(program) == m2.run(program.skip(1).skip(1))) by {
        reveal_with_fuel(Machine::run, 3);
        assert(program.skip(1)[0] == pop_rax);
    }
    let rest = program.skip(1).skip(1);
    match ty {
        NodeType::Number(_) => {},
        NodeType::Add(_, _) => {
            assert(rest =~= seq![Instruction::Add(Register::Rax, Register::Rdi), push_rax]);
            lemma_run_two(m2, rest);
        },
        NodeType::Sub(_, _) => {
            assert(rest =~= seq![Instruction::Sub(Register::Rax, Register::Rdi), push_rax]);
            lemma_run_two(m2, rest);
        },
        NodeType::Mul(_, _) => {
            assert(rest =~= seq![Instruction::Mul(Register::Rdi), push_rax]);
            lemma_run_two(m2, rest);
        },
        NodeType::Div(_, _) => {
            let clear = Instruction::MovImm(Register::Rdx, 0);
            assert(rest =~= seq![clear, Instruction::Div(Register::Rdi), push_rax]);
            let m3 = m2.step(clear)->Some_0;
            assert(m3.rdx == 0 && m3.rax == a && m3.rdi == b && m3.stack == below);
            assert(m2.run(rest) == m3.run(rest.skip(1))) by {
                reveal_with_fuel(Machine::run, 2);
            }
            assert(rest.skip(1) =~= seq![Instruction::Div(Register::Rdi), push_rax]);
            if b != 0 {
                assert(0 <= a as int / b as int <= a) by (nonlinear_arith)
                    requires
                        a >= 0,
                        b > 0,
                ;
            }
            lemma_run_two(m3, rest.skip(1));
        },
    }
}

/// Running a program of two instructions is taking two steps.
proof fn lemma_run_two(m: Machine, program: Seq<Instruction>)
    requires
        program.len() == 2,
    ensures
        m.run(program) == match m.step(program[0]) {
            Some(mid) => mid.step(program[1]),
            None => None,
        },
{
    reveal_with_fuel(Machine::run, 3);
    assert(program.skip(1)[0] == program[1]);
    assert(program.skip(1).skip(1).len() == 0);
}

/// After the code of a tree, one pop into `rax` fetches the value of the tree
/// and leaves the stack as it was before the code ran.
pub proof fn lemma_result_in_rax(node: Node, m: Machine)
    requires
        value(node) is Some,
    ensures
        m.run(code(node) + seq![Instruction::Pop(Register::Rax)]) matches Some(after) && after.rax
            == value(node)->Some_0 && after.stack == m.stack,
{
    let fetch = seq![Instruction::Pop(Register::Rax)];
    lemma_code_pushes_value(node, m);
    lemma_run_concat(m, code(node), fetch);
    let mid = m.run(code(node))->Some_0;
    reveal_with_fuel(Machine::run, 2);
    assert(fetch.skip(1).len() == 0);
    assert(mid.stack.drop_last() =~= m.stack);
}

} // verus!
