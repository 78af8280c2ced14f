//! The renderer: serializes a target-language tree to text,
//! deterministically.
//!
//! A string literal is wrapped in double quotes exactly as stored (the
//! grammar admits no escapes), a call joins its arguments with `", "`, each
//! statement ends its own line, and a function body stands between
//! `"() {"` and `"}"` lines.  The module kind selects only a program-level
//! wrapper.

use vstd::prelude::*;

use crate::lower::{
    lemma_view_stmts_index, view_texpr, view_texprs, view_tstmt, view_tstmts, ModuleKind,
    TExprV, TStmtV, TargetExpr, TargetProgram, TargetStmt,
};

verus! {

broadcast use vstd::std_specs::vec::group_vec_axioms, vstd::seq::group_seq_axioms;

/// The rendering of one target expression.
pub open spec fn render_expr_v(e: TExprV) -> Seq<char>
    decreases e,
{
    match e {
        TExprV::Str(s) => "\""@ + s + "\""@,
        TExprV::Ident(s) => s,
        TExprV::Call { callee, args } => callee + "("@ + render_args_v(args) + ")"@,
    }
}

/// Call arguments joined with a comma and a space.
pub open spec fn render_args_v(args: Seq<TExprV>) -> Seq<char>
    decreases args,
{
    if args.len() == 0 {
        Seq::empty()
    } else if args.len() == 1 {
        render_expr_v(args[0])
    } else {
        render_expr_v(args[0]) + ", "@ + render_args_v(args.drop_first())
    }
}

/// The rendering of one target statement, ending in a newline.
pub open spec fn render_stmt_v(s: TStmtV) -> Seq<char>
    decreases s,
{
    match s {
        TStmtV::LetDecl { ident, init } => "let "@ + ident + " = "@ + render_expr_v(init)
            + ";\n"@,
        TStmtV::FuncDecl { ident, body } => "function "@ + ident + "() {\n"@ + render_stmts_v(
            body,
        ) + "}\n"@,
        TStmtV::ExprStmt(e) => render_expr_v(e) + ";\n"@,
    }
}

pub open spec fn render_stmts_v(ss: Seq<TStmtV>) -> Seq<char>
    decreases ss,
{
    if ss.len() == 0 {
        Seq::empty()
    } else {
        render_stmt_v(ss[0]) + render_stmts_v(ss.drop_first())
    }
}

/// The fixed program-level wrapper a module kind prepends.
pub open spec fn wrapper_prefix(k: ModuleKind) -> Seq<char> {
    match k {
        ModuleKind::EsModule => Seq::empty(),
        ModuleKind::CommonJs => "\"use strict\";\n"@,
    }
}

/// The full rendered text of a lowered program.
pub open spec fn sp_render(p: Seq<TStmtV>, k: ModuleKind) -> Seq<char> {
    wrapper_prefix(k) + render_stmts_v(p)
}

/// Determinism: the rendered text is a function of the lowered program and
/// the module kind alone, so any two renderings of the same lowering are
/// byte-identical.
pub proof fn lemma_render_deterministic(
    p: Seq<TStmtV>,
    k: ModuleKind,
    r1: Seq<char>,
    r2: Seq<char>,
)
    requires
        r1 == sp_render(p, k),
        r2 == sp_render(p, k),
    ensures
        r1 == r2,
{
}

pub proof fn lemma_view_texprs_index(s: Seq<TargetExpr>)
    ensures
        view_texprs(s).len() == s.len(),
        forall|i: int| 0 <= i < s.len() ==> view_texprs(s)[i] == view_texpr(s[i]),
    decreases s,
{
    if s.len() > 0 {
        lemma_view_texprs_index(s.drop_first());
    }
}

pub proof fn lemma_view_tstmts_index(s: Seq<TargetStmt>)
    ensures
        view_tstmts(s).len() == s.len(),
        forall|i: int| 0 <= i < s.len() ==> view_tstmts(s)[i] == view_tstmt(s[i]),
    decreases s,
{
    if s.len() > 0 {
        lemma_view_tstmts_index(s.drop_first());
    }
}

fn render_expr_exec(e: &TargetExpr) -> (r: String)
    ensures
        r@ == render_expr_v(view_texpr(*e)),
    decreases e, 0int,
{
    match e {
        TargetExpr::Str(s) => {
            let mut out = String::from_str("\"");
            out.append(s.as_str());
            out.append("\"");
            out
        },
        TargetExpr::Ident(s) => s.clone(),
        TargetExpr::Call { callee, args } => {
            let mut out = callee.clone();
            out.append("(");
            let inner = render_args_exec(args, 0);
            out.append(inner.as_str());
            out.append(")");
            proof {
                assert(view_texprs(args@).skip(0) =~= view_texprs(args@));
            }
            out
        },
    }
}

fn render_args_exec(args: &Vec<TargetExpr>, i: usize) -> (r: String)
    requires
        i <= args@.len(),
    ensures
        r@ == render_args_v(view_texprs(args@).skip(i as int)),
    decreases args, 1int, args@.len() - i,
{
    proof {
        lemma_view_texprs_index(args@);
    }
    let ghost avs = view_texprs(args@).skip(i as int);
    let n = args.len();
    if i >= n {
        proof {
            assert(avs =~= Seq::<TExprV>::empty());
        }
        return String::new();
    }
    let mut out = render_expr_exec(&args[i]);
    proof {
        assert(avs[0] == view_texpr(args@[i as int]));
        assert(avs.drop_first() =~= view_texprs(args@).skip(i as int + 1));
    }
    if i + 1 < n {
        out.append(", ");
        let rest = render_args_exec(args, i + 1);
        out.append(rest.as_str());
    }
    out
}

fn render_stmt_exec(s: &TargetStmt) -> (r: String)
    ensures
        r@ == render_stmt_v(view_tstmt(*s)),
    decreases s, 0int,
{
    match s {
        TargetStmt::LetDecl { ident, init } => {
            let mut out = String::from_str("let ");
            out.append(ident.as_str());
            out.append(" = ");
            let e = render_expr_exec(init);
            out.append(e.as_str());
            out.append(";\n");
            out
        },
        TargetStmt::FuncDecl { ident, body } => {
            let mut out = String::from_str("function ");
            out.append(ident.as_str());
            out.append("() {\n");
            let inner = render_stmts_exec(body, 0);
            out.append(inner.as_str());
            out.append("}\n");
            proof {
                assert(view_tstmts(body@).skip(0) =~= view_tstmts(body@));
            }
            out
        },
        TargetStmt::ExprStmt(e) => {
            let mut out = render_expr_exec(e);
            out.append(";\n");
            out
        },
    }
}

fn render_stmts_exec(ss: &Vec<TargetStmt>, i: usize) -> (r: String)
    requires
        i <= ss@.len(),
    ensures
        r@ == render_stmts_v(view_tstmts(ss@).skip(i as int)),
    decreases ss, 1int, ss@.len() - i,
{
    proof {
        lemma_view_tstmts_index(ss@);
    }
    let ghost svs = view_tstmts(ss@).skip(i as int);
    let n = ss.len();
    if i >= n {
        proof {
            assert(svs =~= Seq::<TStmtV>::empty());
        }
        return String::new();
    }
    let mut out = render_stmt_exec(&ss[i]);
    let rest = render_stmts_exec(ss, i + 1);
    out.append(rest.as_str());
    proof {
        assert(svs[0] == view_tstmt(ss@[i as int]));
        assert(svs.drop_first() =~= view_tstmts(ss@).skip(i as int + 1));
    }
    out
}

/// Serialize a lowered program to text.  The result is exactly
/// [`sp_render`] of the program's view: rendering is deterministic.
pub fn render(t: &TargetProgram) -> (r: String)
    ensures
        r@ == sp_render(view_tstmts(t.stmts@), t.module_kind),
{
    let mut out = match t.module_kind {
        ModuleKind::EsModule => String::new(),
        ModuleKind::CommonJs => String::from_str("\"use strict\";\n"),
    };
    let body = render_stmts_exec(&t.stmts, 0);
    out.append(body.as_str());
    proof {
        assert(view_tstmts(t.stmts@).skip(0) =~= view_tstmts(t.stmts@));
    }
    out
}

} // verus!
