//! The syntax tree produced by parsing and consumed by lowering.
//!
//! The executable types (`Program`, `Stmt`, `Expr`, ...) form a strict tree:
//! every sub-node is owned by its parent.  Each type has a mathematical view
//! (`StmtV`, `ExprV`, and `view_program`) over `Seq<char>` on which all
//! contracts in this crate are stated.

use vstd::prelude::*;

verus! {

broadcast use vstd::std_specs::vec::group_vec_axioms, vstd::seq::group_seq_axioms;

/// An ordered sequence of top-level statements; the root of the syntax tree.
#[derive(Debug)]
pub struct Program {
    pub stmts: Vec<Stmt>,
}

/// A top-level or function-body statement.
#[derive(Debug)]
pub enum Stmt {
    Decl(Decl),
    Func(Func),
    Expr(Expr),
}

/// A named binding with a declared type tag and an initializer expression.
#[derive(Debug)]
pub struct Decl {
    pub ident: String,
    pub ty: Ty,
    pub expr: Expr,
}

/// A named, parameterless block of statements.
#[derive(Debug)]
pub struct Func {
    pub ident: String,
    pub stmts: Vec<Stmt>,
}

/// An expression: a string literal, a call, or a reference to a name.
#[derive(Debug)]
pub enum Expr {
    StringLiteral(String),
    Call(Call),
    IdentifierRef(String),
}

/// An invocation of a plain identifier with ordered arguments.
#[derive(Debug)]
pub struct Call {
    pub ident: String,
    pub args: Vec<Expr>,
}

/// The declared type tag of a binding: the source type `Ribbon` marks a
/// textual binding, `Bunny` is accepted but carries no defined semantics.
#[derive(Debug, Clone, Copy, PartialEq, Eq, Structural)]
pub enum Ty {
    TextType,
    OtherType,
}

/// Mathematical view of an [`Expr`].
pub enum ExprV {
    StringLiteral(Seq<char>),
    Call { callee: Seq<char>, args: Seq<ExprV> },
    IdentifierRef(Seq<char>),
}

/// Mathematical view of a [`Stmt`].
pub enum StmtV {
    Decl { ident: Seq<char>, ty: Ty, expr: ExprV },
    Func { ident: Seq<char>, body: Seq<StmtV> },
    Expr(ExprV),
}

pub open spec fn view_expr(e: Expr) -> ExprV
    decreases e,
{
    match e {
        Expr::StringLiteral(s) => ExprV::StringLiteral(s@),
        Expr::IdentifierRef(s) => ExprV::IdentifierRef(s@),
        Expr::Call(c) => ExprV::Call { callee: c.ident@, args: view_exprs(c.args@) },
    }
}

pub open spec fn view_exprs(s: Seq<Expr>) -> Seq<ExprV>
    decreases s,
{
    if s.len() == 0 {
        Seq::empty()
    } else {
        seq![view_expr(s[0])] + view_exprs(s.drop_first())
    }
}

pub open spec fn view_stmt(s: Stmt) -> StmtV
    decreases s,
{
    match s {
        Stmt::Decl(d) => StmtV::Decl { ident: d.ident@, ty: d.ty, expr: view_expr(d.expr) },
        Stmt::Func(f) => StmtV::Func { ident: f.ident@, body: view_stmts(f.stmts@) },
        Stmt::Expr(e) => StmtV::Expr(view_expr(e)),
    }
}

pub open spec fn view_stmts(s: Seq<Stmt>) -> Seq<StmtV>
    decreases s,
{
    if s.len() == 0 {
        Seq::empty()
    } else {
        seq![view_stmt(s[0])] + view_stmts(s.drop_first())
    }
}

/// Mathematical view of a whole [`Program`].
pub open spec fn view_program(p: Program) -> Seq<StmtV> {
    view_stmts(p.stmts@)
}

} // verus!
