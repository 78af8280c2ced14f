//! A compiler front end for a small statically-declared scripting language.
//!
//! The pipeline has three verified stages: a recursive-descent parser that
//! turns source text into a syntax tree ([`parser`]), a diagnostic reporter
//! that turns parse failures into line/column-accurate messages ([`error`]),
//! and a lowering/codegen engine that rewrites the syntax tree into a
//! target-language tree and renders it to text ([`lower`], [`render`]).
//! [`compile`] runs the three in sequence.

pub mod ast;
pub mod text;
pub mod token;
mod lexer;
pub mod parser;
pub mod error;
pub mod lower;
pub mod render;

pub use ast::{Call, Decl, Expr, Func, Program, Stmt, Ty};
pub use error::{render_failure, Error, Snippet};
pub use lower::{lower, LoweringError, ModuleKind, TargetProgram};
pub use parser::{parse, ParseFailure};
pub use render::render;

use vstd::prelude::*;

use crate::lower::sp_lower;
use crate::parser::{sp_parse_source, view_failure, view_strings, FailV};
use crate::render::sp_render;

verus! {

/// A compilation failure: the parse failure or the lowering failure that
/// stopped the pipeline.
#[derive(Debug)]
pub enum CompileError {
    Parse(ParseFailure),
    Lowering(LoweringError),
}

/// Mathematical view of a [`CompileError`].
pub enum CompileErrV {
    Parse(FailV),
    Lowering(Seq<Seq<char>>),
}

pub open spec fn view_compile_error(e: CompileError) -> CompileErrV {
    match e {
        CompileError::Parse(f) => CompileErrV::Parse(view_failure(f)),
        CompileError::Lowering(le) => CompileErrV::Lowering(
            view_strings(le->UnsupportedConstruct_construct_names@),
        ),
    }
}

/// The whole pipeline as a mathematical function of the source characters:
/// parse, lower under the module kind, render.
pub open spec fn sp_compile(cs: Seq<char>, k: ModuleKind) -> Result<Seq<char>, CompileErrV> {
    match sp_parse_source(cs) {
        Err(f) => Err(CompileErrV::Parse(f)),
        Ok(pv) => match sp_lower(pv, k) {
            Err(ns) => Err(CompileErrV::Lowering(ns)),
            Ok(ts) => Ok(sp_render(ts, k)),
        },
    }
}

/// Compile a source text under a module kind: the result, success or
/// failure, is exactly [`sp_compile`] of the source's characters.
pub fn compile(source: &str, module_kind: ModuleKind) -> (r: Result<String, CompileError>)
    ensures
        (match sp_compile(source@, module_kind) {
            Ok(t) => r is Ok && r->Ok_0@ == t,
            Err(e) => r is Err && view_compile_error(r->Err_0) == e,
        }),
{
    match crate::parser::parse(source) {
        Err(f) => Err(CompileError::Parse(f)),
        Ok(p) => match crate::lower::lower(&p, module_kind) {
            Err(le) => Err(CompileError::Lowering(le)),
            Ok(t) => Ok(crate::render::render(&t)),
        },
    }
}

/// Determinism: compilation is a function of the source text and module
/// kind alone, so two compilations of the same source yield byte-identical
/// results.
pub proof fn lemma_compile_deterministic(
    cs: Seq<char>,
    k: ModuleKind,
    r1: Result<Seq<char>, CompileErrV>,
    r2: Result<Seq<char>, CompileErrV>,
)
    requires
        r1 == sp_compile(cs, k),
        r2 == sp_compile(cs, k),
    ensures
        r1 == r2,
{
}

} // verus!
