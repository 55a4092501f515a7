//! A small ahead-of-time compiler for a restricted C dialect, targeting ARM64
//! assembly text.
//!
//! Source text flows through three verified stages: the lexer splits it into
//! lexemes and classifies each into a typed token, the recursive-descent
//! parser builds an abstract syntax tree while registering declarations in a
//! symbol table, and the code generator walks the tree emitting stack-machine
//! style ARM64 instructions. Each stage's executable code is proved equal to
//! a mathematical model of the stage, and the library-level laws (offset
//! monotonicity, label uniqueness, deterministic output) are proved over
//! those models.
use vstd::prelude::*;

pub mod ast;
pub mod gen;
pub mod lex;
pub mod parse_util;
pub mod parser;
pub mod symbol_table;
pub mod token;
pub mod util;

verus! {

use crate::lex::{test_lexer, sp_lex};
use crate::parser::{Parser, ParseError, sp_parse_program};
use crate::symbol_table::{SymbolTable, SymTabV};
use crate::gen::{Generator, GenError, GenErrV, sp_generate};
use crate::ast::{ProgramV, lemma_fns_decl_count_le_size};

/// Why a compilation failed: either the parse or the generation reported an
/// error. The lexer itself never fails; unresolvable lexemes become `Error`
/// tokens that the parser then rejects.
#[derive(Debug, PartialEq)]
pub enum CompileError {
    Parse(ParseError),
    Gen(GenError),
}

pub enum CompileErrV {
    Parse(ParseError),
    Gen(GenErrV),
}

impl View for CompileError {
    type V = CompileErrV;

    open spec fn view(&self) -> CompileErrV {
        match self {
            CompileError::Parse(pe) => CompileErrV::Parse(*pe),
            CompileError::Gen(ge) => CompileErrV::Gen(ge@),
        }
    }
}

/// The model of the whole compiler: lex, parse, then generate with fresh
/// state. A pure function of the source text, so equal texts give
/// byte-identical output.
pub open spec fn spec_compile(source: Seq<char>) -> Result<Seq<char>, CompileErrV> {
    match sp_parse_program(sp_lex(source)) {
        Err(pe) => Err(CompileErrV::Parse(pe)),
        Ok(p) => match sp_generate(p, SymTabV::empty()) {
            Err(ge) => Err(CompileErrV::Gen(ge)),
            Ok(t) => Ok(t),
        },
    }
}

/// Compiles one piece of source text to ARM64 assembly text, with fresh
/// lexer, parser and generator state. The length bound keeps every stack
/// offset of the generated code within a 32-bit immediate.
pub fn compile_source(source: &str) -> (r: Result<String, CompileError>)
    requires
        4 * (source@.len() + 1) <= u32::MAX as int,
    ensures
        match r {
            Ok(s) => spec_compile(source@) == Ok::<Seq<char>, CompileErrV>(s@),
            Err(e) => spec_compile(source@) == Err::<Seq<char>, CompileErrV>(e@),
        },
{
    let tokens = test_lexer(source);
    proof {
        crate::parser::lemma_toks_view(tokens);
    }
    let mut parser = Parser::new(tokens);
    let program = match parser.parse_program() {
        Ok(p) => p,
        Err(pe) => {
            return Err(CompileError::Parse(pe));
        },
    };
    proof {
        assert(sp_parse_program(sp_lex(source@)) == Ok::<ProgramV, ParseError>(program@));
        lemma_fns_decl_count_le_size(program@.body);
    }
    let mut generator = Generator::new(program, SymbolTable::new());
    match generator.walk_da_tree() {
        Ok(s) => Ok(s),
        Err(ge) => Err(CompileError::Gen(ge)),
    }
}

/// Idempotence: compiling the same source text twice with fresh state
/// produces byte-identical assembly output. The whole pipeline is a pure
/// function of the source text, so two runs on equal texts agree exactly,
/// on success and on failure alike.
pub proof fn lemma_compile_deterministic(s1: Seq<char>, s2: Seq<char>)
    requires
        s1 == s2,
    ensures
        spec_compile(s1) == spec_compile(s2),
{
}

} // verus!
