//! The lowering engine: rewrites a source syntax tree into a target-language
//! tree, construct by construct.
//!
//! Every source construct has exactly one lowering rule: a declaration
//! becomes a mutable binding, a function becomes a zero-parameter function
//! declaration, an expression statement wraps its expression, and
//! expressions map one to one.  The single unsupported construct is a
//! function declared inside another function: lowering collects the name of
//! every such occurrence, in traversal order, rather than stopping at the
//! first.

use vstd::prelude::*;

use crate::ast::{view_expr, view_exprs, view_program, view_stmt, view_stmts, Expr, ExprV, Program,
    Stmt, StmtV};
use crate::parser::view_strings;

verus! {

broadcast use vstd::std_specs::vec::group_vec_axioms, vstd::seq::group_seq_axioms;

/// Selects the program-level wrapper of the rendered output; it never alters
/// how individual statements are lowered.
#[derive(Debug, Clone, Copy, PartialEq, Eq, Structural)]
pub enum ModuleKind {
    /// Plain ES-module output: no wrapper.
    EsModule,
    /// CommonJS-style output: a strict-mode prologue precedes the program.
    CommonJs,
}

/// A target-language expression.
#[derive(Debug)]
pub enum TargetExpr {
    Str(String),
    Ident(String),
    Call { callee: String, args: Vec<TargetExpr> },
}

/// A target-language statement.
#[derive(Debug)]
pub enum TargetStmt {
    LetDecl { ident: String, init: TargetExpr },
    FuncDecl { ident: String, body: Vec<TargetStmt> },
    ExprStmt(TargetExpr),
}

/// The target-language tree produced by lowering: a flat program of target
/// statements, owned as a unit and discarded as a unit after rendering.
#[derive(Debug)]
pub struct TargetProgram {
    pub stmts: Vec<TargetStmt>,
    pub module_kind: ModuleKind,
}

/// Mathematical view of a [`TargetExpr`].
pub enum TExprV {
    Str(Seq<char>),
    Ident(Seq<char>),
    Call { callee: Seq<char>, args: Seq<TExprV> },
}

/// Mathematical view of a [`TargetStmt`].
pub enum TStmtV {
    LetDecl { ident: Seq<char>, init: TExprV },
    FuncDecl { ident: Seq<char>, body: Seq<TStmtV> },
    ExprStmt(TExprV),
}

pub open spec fn view_texpr(e: TargetExpr) -> TExprV
    decreases e,
{
    match e {
        TargetExpr::Str(s) => TExprV::Str(s@),
        TargetExpr::Ident(s) => TExprV::Ident(s@),
        TargetExpr::Call { callee, args } => TExprV::Call {
            callee: callee@,
            args: view_texprs(args@),
        },
    }
}

pub open spec fn view_texprs(s: Seq<TargetExpr>) -> Seq<TExprV>
    decreases s,
{
    if s.len() == 0 {
        Seq::empty()
    } else {
        seq![view_texpr(s[0])] + view_texprs(s.drop_first())
    }
}

pub open spec fn view_tstmt(s: TargetStmt) -> TStmtV
    decreases s,
{
    match s {
        TargetStmt::LetDecl { ident, init } => TStmtV::LetDecl {
            ident: ident@,
            init: view_texpr(init),
        },
        TargetStmt::FuncDecl { ident, body } => TStmtV::FuncDecl {
            ident: ident@,
            body: view_tstmts(body@),
        },
        TargetStmt::ExprStmt(e) => TStmtV::ExprStmt(view_texpr(e)),
    }
}

pub open spec fn view_tstmts(s: Seq<TargetStmt>) -> Seq<TStmtV>
    decreases s,
{
    if s.len() == 0 {
        Seq::empty()
    } else {
        seq![view_tstmt(s[0])] + view_tstmts(s.drop_first())
    }
}

/// Element access for the list views: the view of a list is the list of the
/// views.
pub proof fn lemma_view_exprs_index(s: Seq<Expr>)
    ensures
        view_exprs(s).len() == s.len(),
        forall|i: int| 0 <= i < s.len() ==> view_exprs(s)[i] == view_expr(s[i]),
    decreases s,
{
    if s.len() > 0 {
        lemma_view_exprs_index(s.drop_first());
    }
}

pub proof fn lemma_view_stmts_index(s: Seq<Stmt>)
    ensures
        view_stmts(s).len() == s.len(),
        forall|i: int| 0 <= i < s.len() ==> view_stmts(s)[i] == view_stmt(s[i]),
    decreases s,
{
    if s.len() > 0 {
        lemma_view_stmts_index(s.drop_first());
    }
}

/// The name under which the one unsupported construct is reported.
pub open spec fn nested_func_name() -> Seq<char> {
    "nested function declaration"@
}

/// The names of the unsupported constructs among `ss[i..]`, in traversal
/// order.  `in_func` says whether `ss` is a function body: a function
/// declared inside a function is the unsupported construct; its contents are
/// not examined further.
pub open spec fn unsup_stmts_from(ss: Seq<StmtV>, i: int, in_func: bool) -> Seq<Seq<char>>
    decreases ss, ss.len() - i,
{
    if i < 0 || i >= ss.len() {
        Seq::empty()
    } else {
        (match ss[i] {
            StmtV::Func { ident, body } => {
                if in_func {
                    seq![nested_func_name()]
                } else {
                    unsup_stmts_from(body, 0, true)
                }
            },
            _ => Seq::empty(),
        }) + unsup_stmts_from(ss, i + 1, in_func)
    }
}

/// The names of all unsupported constructs of a program, in order.
pub open spec fn sp_unsup(p: Seq<StmtV>) -> Seq<Seq<char>> {
    unsup_stmts_from(p, 0, false)
}

/// The lowering of one expression: a structural one-to-one translation.
pub open spec fn lower_expr_v(e: ExprV) -> TExprV
    decreases e,
{
    match e {
        ExprV::StringLiteral(s) => TExprV::Str(s),
        ExprV::IdentifierRef(s) => TExprV::Ident(s),
        ExprV::Call { callee, args } => TExprV::Call { callee, args: lower_exprs_v(args) },
    }
}

pub open spec fn lower_exprs_v(es: Seq<ExprV>) -> Seq<TExprV>
    decreases es,
{
    if es.len() == 0 {
        Seq::empty()
    } else {
        seq![lower_expr_v(es[0])] + lower_exprs_v(es.drop_first())
    }
}

/// The lowering of one statement, order preserved everywhere.
pub open spec fn lower_stmt_v(s: StmtV) -> TStmtV
    decreases s,
{
    match s {
        StmtV::Decl { ident, ty, expr } => TStmtV::LetDecl { ident, init: lower_expr_v(expr) },
        StmtV::Func { ident, body } => TStmtV::FuncDecl { ident, body: lower_stmts_v(body) },
        StmtV::Expr(e) => TStmtV::ExprStmt(lower_expr_v(e)),
    }
}

pub open spec fn lower_stmts_v(ss: Seq<StmtV>) -> Seq<TStmtV>
    decreases ss,
{
    if ss.len() == 0 {
        Seq::empty()
    } else {
        seq![lower_stmt_v(ss[0])] + lower_stmts_v(ss.drop_first())
    }
}

/// The lowering of a whole program under a module kind: the statement
/// lowering above where no construct is unsupported, else the full list of
/// unsupported construct names.  The module kind never changes the outcome.
pub open spec fn sp_lower(p: Seq<StmtV>, k: ModuleKind) -> Result<Seq<TStmtV>, Seq<Seq<char>>> {
    if sp_unsup(p).len() == 0 {
        Ok(lower_stmts_v(p))
    } else {
        Err(sp_unsup(p))
    }
}

/// Unsupported-construct isolation: a program with exactly one unsupported
/// construct fails with an error naming exactly that construct, and nothing
/// else.
pub proof fn lemma_single_unsupported_isolated(p: Seq<StmtV>, k: ModuleKind)
    requires
        sp_unsup(p).len() == 1,
    ensures
        sp_lower(p, k) == Err::<Seq<TStmtV>, Seq<Seq<char>>>(sp_unsup(p)),
        sp_lower(p, k)->Err_0.len() == 1,
{
}

/// The module kind selects only the program-level wrapper: it does not alter
/// the lowering of any statement.
pub proof fn lemma_module_kind_irrelevant(p: Seq<StmtV>, k1: ModuleKind, k2: ModuleKind)
    ensures
        sp_lower(p, k1) == sp_lower(p, k2),
{
}

/// Lowering failed: the program holds unsupported constructs, each named
/// once, in traversal order.
#[derive(Debug)]
pub enum LoweringError {
    UnsupportedConstruct { construct_names: Vec<String> },
}

fn unsup_of_stmts(ss: &Vec<Stmt>, i: usize, in_func: bool) -> (v: Vec<String>)
    ensures
        view_strings(v@) == unsup_stmts_from(view_stmts(ss@), i as int, in_func),
    decreases ss, 1int, ss@.len() - i,
{
    proof {
        lemma_view_stmts_index(ss@);
    }
    let n = ss.len();
    if i >= n {
        let v: Vec<String> = Vec::new();
        proof {
            assert(view_strings(v@) =~= Seq::<Seq<char>>::empty());
        }
        return v;
    }
    let mut head: Vec<String> = match &ss[i] {
        Stmt::Func(f) => {
            if in_func {
                let mut h: Vec<String> = Vec::new();
                h.push(String::from_str("nested function declaration"));
                proof {
                    assert(view_strings(h@) =~= seq![nested_func_name()]);
                }
                h
            } else {
                unsup_of_stmts(&f.stmts, 0, true)
            }
        },
        _ => {
            let h: Vec<String> = Vec::new();
            proof {
                assert(view_strings(h@) =~= Seq::<Seq<char>>::empty());
            }
            h
        },
    };
    let ghost headv = head@;
    let mut rest = unsup_of_stmts(ss, i + 1, in_func);
    let ghost restv = rest@;
    head.append(&mut rest);
    proof {
        assert(view_strings(headv + restv) =~= view_strings(headv) + view_strings(restv));
    }
    head
}

fn lower_expr_exec(e: &Expr) -> (t: TargetExpr)
    ensures
        view_texpr(t) == lower_expr_v(view_expr(*e)),
    decreases e, 0int,
{
    match e {
        Expr::StringLiteral(s) => TargetExpr::Str(s.clone()),
        Expr::IdentifierRef(s) => TargetExpr::Ident(s.clone()),
        Expr::Call(c) => {
            let args = lower_exprs_exec(&c.args, 0);
            proof {
                assert(view_exprs(c.args@).skip(0) =~= view_exprs(c.args@));
            }
            TargetExpr::Call { callee: c.ident.clone(), args }
        },
    }
}

fn lower_exprs_exec(es: &Vec<Expr>, i: usize) -> (v: Vec<TargetExpr>)
    requires
        i <= es@.len(),
    ensures
        view_texprs(v@) == lower_exprs_v(view_exprs(es@).skip(i as int)),
    decreases es, 1int, es@.len() - i,
{
    proof {
        lemma_view_exprs_index(es@);
    }
    let ghost evs = view_exprs(es@).skip(i as int);
    let n = es.len();
    if i >= n {
        let v: Vec<TargetExpr> = Vec::new();
        proof {
            assert(evs =~= Seq::<ExprV>::empty());
            assert(view_texprs(v@) =~= Seq::<TExprV>::empty());
        }
        return v;
    }
    let t = lower_expr_exec(&es[i]);
    let mut rest = lower_exprs_exec(es, i + 1);
    let ghost rest0 = rest@;
    rest.insert(0, t);
    proof {
        assert(evs[0] == view_expr(es@[i as int]));
        assert(evs.drop_first() =~= view_exprs(es@).skip(i as int + 1));
        assert(rest@ =~= seq![t] + rest0);
        assert((seq![t] + rest0).drop_first() =~= rest0);
        assert(view_texprs(rest@) == seq![view_texpr(t)] + view_texprs(rest0));
    }
    rest
}

fn lower_stmt_exec(s: &Stmt) -> (t: TargetStmt)
    requires
        !(s is Func),
    ensures
        view_tstmt(t) == lower_stmt_v(view_stmt(*s)),
    decreases s, 0int,
{
    match s {
        Stmt::Decl(d) => {
            let init = lower_expr_exec(&d.expr);
            TargetStmt::LetDecl { ident: d.ident.clone(), init }
        },
        Stmt::Expr(e) => {
            let t = lower_expr_exec(e);
            TargetStmt::ExprStmt(t)
        },
        Stmt::Func(_) => {
            // Unreachable: functions are lowered by `lower_stmts_exec` so
            // that their bodies can be lowered in the same pass.
            proof {
                assert(false);
            }
            TargetStmt::ExprStmt(TargetExpr::Ident(String::new()))
        },
    }
}

fn lower_stmts_exec(ss: &Vec<Stmt>, i: usize) -> (v: Vec<TargetStmt>)
    requires
        i <= ss@.len(),
    ensures
        view_tstmts(v@) == lower_stmts_v(view_stmts(ss@).skip(i as int)),
    decreases ss, 1int, ss@.len() - i,
{
    proof {
        lemma_view_stmts_index(ss@);
    }
    let ghost svs = view_stmts(ss@).skip(i as int);
    let n = ss.len();
    if i >= n {
        let v: Vec<TargetStmt> = Vec::new();
        proof {
            assert(svs =~= Seq::<StmtV>::empty());
            assert(view_tstmts(v@) =~= Seq::<TStmtV>::empty());
        }
        return v;
    }
    let t: TargetStmt = match &ss[i] {
        Stmt::Func(f) => {
            let body = lower_stmts_exec(&f.stmts, 0);
            proof {
                assert(view_stmts(f.stmts@).skip(0) =~= view_stmts(f.stmts@));
            }
            let t0 = TargetStmt::FuncDecl { ident: f.ident.clone(), body };
            proof {
                assert(ss@[i as int] == Stmt::Func(*f));
                assert(view_tstmt(t0) == lower_stmt_v(view_stmt(ss@[i as int])));
            }
            t0
        },
        other => {
            let t0 = lower_stmt_exec(other);
            proof {
                assert(*other == ss@[i as int]);
                assert(view_tstmt(t0) == lower_stmt_v(view_stmt(ss@[i as int])));
            }
            t0
        },
    };
    proof {
        assert(view_tstmt(t) == lower_stmt_v(view_stmt(ss@[i as int])));
    }
    let mut rest = lower_stmts_exec(ss, i + 1);
    let ghost rest0 = rest@;
    rest.insert(0, t);
    proof {
        assert(svs[0] == view_stmt(ss@[i as int]));
        assert(svs.drop_first() =~= view_stmts(ss@).skip(i as int + 1));
        assert(rest@ =~= seq![t] + rest0);
        assert((seq![t] + rest0).drop_first() =~= rest0);
        assert(view_tstmts(rest@) == seq![view_tstmt(t)] + view_tstmts(rest0));
    }
    rest
}

/// Lower a program under a module kind.  Succeeds, with the exact structural
/// translation of every statement in order, if and only if the program holds
/// no unsupported construct; otherwise fails with the names of all
/// unsupported constructs in traversal order.
pub fn lower(p: &Program, module_kind: ModuleKind) -> (r: Result<TargetProgram, LoweringError>)
    ensures
        (match sp_lower(view_program(*p), module_kind) {
            Ok(ts) => r is Ok && view_tstmts(r->Ok_0.stmts@) == ts && r->Ok_0.module_kind
                == module_kind,
            Err(names) => r is Err && view_strings(r->Err_0->UnsupportedConstruct_construct_names@)
                == names,
        }),
{
    let names = unsup_of_stmts(&p.stmts, 0, false);
    if names.len() > 0 {
        return Err(LoweringError::UnsupportedConstruct { construct_names: names });
    }
    let stmts = lower_stmts_exec(&p.stmts, 0);
    proof {
        assert(view_stmts(p.stmts@).skip(0) =~= view_stmts(p.stmts@));
    }
    Ok(TargetProgram { stmts, module_kind })
}

} // verus!
