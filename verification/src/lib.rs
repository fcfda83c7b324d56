//! A verified ahead-of-time compiler for a small imperative toy language:
//! lexing, recursive-descent parsing, scope-aware semantic checking, a
//! fixed-point AST optimizer, and AArch64 assembly generation. Each stage
//! is specified by ghost functions over mathematical models of its data,
//! and each executable stage is proved to return exactly what its model
//! describes; `compile` chains them into the whole pipeline.

pub mod ast;
pub mod text;
pub mod token;
pub mod lexer;
pub mod parser;
pub mod semantic;
pub mod optimizer;
pub mod codegen;

use vstd::prelude::*;
use crate::codegen::{cg_generate, Codegen, CodegenError};
use crate::lexer::{lex_program, lex_spec};
use crate::optimizer::{spec_optimize, Optimizer};
use crate::parser::{spec_parse, ParseError, Parser};
use crate::semantic::{
    sem_errors_view, spec_check_stmts, spec_initial_state, SemanticAnalyzer, SemanticError,
    SpecSemanticError,
};

verus! {

/// Why a compilation failed: the first parse failure, the full list of
/// semantic diagnostics, or a code-generation resource failure.
#[derive(Debug, PartialEq)]
pub enum CompileError {
    Parse(ParseError),
    Semantic(Vec<SemanticError>),
    Codegen(CodegenError),
}

/// The ghost counterpart of `CompileError`.
pub enum SpecCompileError {
    Parse(ParseError),
    Semantic(Seq<SpecSemanticError>),
    Codegen(CodegenError),
}

/// The model of a compilation failure.
pub open spec fn compile_error_view(e: CompileError) -> SpecCompileError {
    match e {
        CompileError::Parse(p) => SpecCompileError::Parse(p),
        CompileError::Semantic(es) => SpecCompileError::Semantic(sem_errors_view(es@)),
        CompileError::Codegen(c) => SpecCompileError::Codegen(c),
    }
}

/// What compiling a source text yields: its tokens parsed into a program,
/// which must check cleanly, then optimized and lowered to assembly text.
pub open spec fn spec_compile(source: Seq<char>) -> Result<Seq<char>, SpecCompileError> {
    match spec_parse(lex_spec(source)) {
        None => Err(SpecCompileError::Parse(ParseError::UnexpectedToken)),
        Some(prog) => {
            let checked = spec_check_stmts(spec_initial_state(), prog);
            if checked.errors.len() > 0 {
                Err(SpecCompileError::Semantic(checked.errors))
            } else {
                match cg_generate(spec_optimize(prog)) {
                    Ok(text) => Ok(text),
                    Err(e) => Err(SpecCompileError::Codegen(e)),
                }
            }
        },
    }
}

/// Compiles a source text to ready-to-assemble AArch64 text, or the first
/// parse failure, the non-empty list of semantic diagnostics, or the code
/// generator's resource failure. Parse and semantic failures prevent code
/// generation.
pub fn compile(source: &str) -> (r: Result<String, CompileError>)
    ensures
        match r {
            Ok(text) => spec_compile(source@) == Ok::<Seq<char>, SpecCompileError>(text@),
            Err(e) => spec_compile(source@) == Err::<Seq<char>, SpecCompileError>(
                compile_error_view(e),
            ),
        },
{
    let tokens = lex_program(source);
    let mut parser = Parser::new(tokens);
    let prog = match parser.parse() {
        Ok(p) => p,
        Err(e) => {
            return Err(CompileError::Parse(e));
        },
    };
    let mut analyzer = SemanticAnalyzer::new();
    match analyzer.analyze(&prog) {
        Ok(_) => {},
        Err(es) => {
            return Err(CompileError::Semantic(es));
        },
    }
    let mut optimizer = Optimizer::new();
    let optimized = optimizer.optimize(prog);
    let generator = Codegen::new();
    match generator.generate(&optimized) {
        Ok(text) => Ok(text),
        Err(e) => Err(CompileError::Codegen(e)),
    }
}

} // verus!
