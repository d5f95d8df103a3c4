//! The whole pipeline: from source text to a listing of assembly.

use vstd::prelude::*;
use vstd::string::{StringExecFns, StringSliceAdditionalSpecFns};
use crate::codegen::{code, generate};
use crate::error::CompileError;
use crate::instruction::{Instruction, Register};
use crate::grammar::parse_rule;
use crate::parser::parse;
use crate::lexical::scan;
use crate::scanner::tokenize;
use crate::token::{kinds, lexeme_kinds, lexemes, Token};

verus! {

/// The lines of the routine that runs `program` and returns what it left on
/// top of the stack: three lines that open the routine `_main`, one line for
/// each instruction, then a pop of the result into `rax` and the return.
pub open spec fn listing(program: Seq<Instruction>) -> Seq<Seq<char>> {
    seq![".intel_syntax noprefix"@, ".global _main"@, "_main:"@] + Seq::new(
        program.len(),
        |i: int| program[i].text(),
    ) + seq![Instruction::Pop(Register::Rax).text(), "  ret"@]
}

/// The characters of each line of `lines`.
pub open spec fn lines_of(lines: Seq<String>) -> Seq<Seq<char>> {
    Seq::new(lines.len(), |i: int| lines[i]@)
}

/// What compiling the source text `bytes` yields: the listing of the code of
/// its expression, or the first error that scanning or parsing meets.
pub open spec fn compile_rule(bytes: Seq<u8>) -> Result<Seq<Seq<char>>, CompileError> {
    match scan(bytes) {
        Err(e) => Err(CompileError::Scan(e)),
        Ok(lexemes) => match parse_rule(lexeme_kinds(lexemes)) {
            Err(reason) => Err(CompileError::Parse(reason)),
            Ok(node) => Ok(listing(code(node))),
        },
    }
}

/// Writes `program` out as the lines of a routine.
pub fn assemble(program: &Vec<Instruction>) -> (out: Vec<String>)
    ensures
        lines_of(out@) == listing(program@),
{
    let mut out: Vec<String> = Vec::new();
    out.push(String::from_str(".intel_syntax noprefix"));
    out.push(String::from_str(".global _main"));
    out.push(String::from_str("_main:"));
    let ghost head = lines_of(out@);
    assert(head =~= seq![".intel_syntax noprefix"@, ".global _main"@, "_main:"@]);
    let mut idx: usize = 0;
    while idx < program.len()
        invariant
            idx <= program@.len(),
            lines_of(out@) == head + Seq::new(idx as nat, |i: int| program@[i].text()),
        decreases program@.len() - idx,
    {
        let ghost before = lines_of(out@);
        let line = program[idx].to_text();
        out.push(line);
        proof {
            assert(lines_of(out@) =~= before.push(program@[idx as int].text()));
            assert(lines_of(out@) =~= head + Seq::new(
                (idx + 1) as nat,
                |i: int| program@[i].text(),
            ));
        }
        idx += 1;
    }
    let ghost body = lines_of(out@);
    out.push(Instruction::Pop(Register::Rax).to_text());
    out.push(String::from_str("  ret"));
    proof {
        assert(lines_of(out@) =~= body + seq![Instruction::Pop(Register::Rax).text(), "  ret"@]);
    }
    out
}

/// The kinds of tokens are the kinds of their lexemes.
proof fn lemma_kinds_of_lexemes(tokens: Seq<Token>)
    ensures
        lexeme_kinds(lexemes(tokens)) == kinds(tokens),
{
    assert(lexeme_kinds(lexemes(tokens)) =~= kinds(tokens));
}

/// Compiles the expression written in `input` to a listing of assembly, line
/// by line. There is either a whole listing or none.
pub fn compile(input: &str) -> (r: Result<Vec<String>, CompileError>)
    ensures
        match r {
            Ok(out) => compile_rule(input.spec_bytes()) == Ok::<Seq<Seq<char>>, CompileError>(
                lines_of(out@),
            ),
            Err(e) => compile_rule(input.spec_bytes()) == Err::<Seq<Seq<char>>, CompileError>(e),
        },
{
    let tokens = match tokenize(input) {
        Ok(tokens) => tokens,
        Err(e) => {
            return Err(CompileError::Scan(e));
        },
    };
    proof {
        lemma_kinds_of_lexemes(tokens@);
    }
    let node = match parse(tokens) {
        Ok(node) => node,
        Err(reason) => {
            return Err(CompileError::Parse(reason));
        },
    };
    let program = generate(node);
    Ok(assemble(&program))
}

} // verus!
