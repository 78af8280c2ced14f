//! The grammar-driven parser: a recursive-descent parser for the grammar
//!
//! ```text
//! program      := statement*
//! statement    := decl | func | expr-statement
//! decl         := "let" IDENT ":" type "=" expression ";"
//! func         := "fn" IDENT "{" statement* "}"
//! expr-stmt    := expression ";"
//! type         := "Ribbon" | "Bunny"
//! expression   := STRING | call | IDENT
//! call         := IDENT "(" (expression ("," expression)*)? ")"
//! ```
//!
//! Dispatch is decided by the next unconsumed token alone.  The spec
//! functions `sp_expr`, `sp_stmt`, ... define the parse mathematically; the
//! executable functions are proved to return exactly their results.  The
//! first failure aborts the parse.

use vstd::prelude::*;

use crate::ast::{
    view_expr, view_exprs, view_program, view_stmt, view_stmts, Call, Decl, Expr, ExprV, Func,
    Program, Stmt, StmtV, Ty,
};
use crate::lexer::{lex, sp_lex};
use crate::text::{byte_len_of, bytes_upto, lemma_bytes_upto_mono, str_chars};
use crate::token::{lexeme, lexeme_of, view_tokens, TokKind, Token, TokenV};

verus! {

broadcast use vstd::std_specs::vec::group_vec_axioms, vstd::seq::group_seq_axioms;

/// A structured parse failure.  Every variant carries the byte offset into
/// the original source at which the failure was detected.
#[derive(Debug)]
pub enum ParseFailure {
    /// A character sequence matches no lexical rule.
    InvalidToken { offset: usize },
    /// Input ends mid-construct.
    UnexpectedEndOfInput { offset: usize, expected: Vec<String> },
    /// A token is present but not valid in the current grammar position.
    UnrecognizedToken { offset: usize, found: String, expected: Vec<String> },
    /// Trailing input after a complete program.
    ExtraToken { offset: usize, found: String },
}

/// Mathematical view of a [`ParseFailure`].
pub enum FailV {
    InvalidToken { offset: int },
    UnexpectedEndOfInput { offset: int, expected: Seq<Seq<char>> },
    UnrecognizedToken { offset: int, found: Seq<char>, expected: Seq<Seq<char>> },
    ExtraToken { offset: int, found: Seq<char> },
}

pub open spec fn view_strings(ss: Seq<String>) -> Seq<Seq<char>> {
    Seq::new(ss.len(), |i: int| ss[i]@)
}

pub open spec fn view_failure(f: ParseFailure) -> FailV {
    match f {
        ParseFailure::InvalidToken { offset } => FailV::InvalidToken { offset: offset as int },
        ParseFailure::UnexpectedEndOfInput { offset, expected } => FailV::UnexpectedEndOfInput {
            offset: offset as int,
            expected: view_strings(expected@),
        },
        ParseFailure::UnrecognizedToken { offset, found, expected } => FailV::UnrecognizedToken {
            offset: offset as int,
            found: found@,
            expected: view_strings(expected@),
        },
        ParseFailure::ExtraToken { offset, found } => FailV::ExtraToken {
            offset: offset as int,
            found: found@,
        },
    }
}

// The sets of token names reported as expected at each grammar position.
pub open spec fn exp_expr() -> Seq<Seq<char>> {
    seq!["IDENT"@, "STRING"@]
}

pub open spec fn exp_ident() -> Seq<Seq<char>> {
    seq!["IDENT"@]
}

pub open spec fn exp_colon() -> Seq<Seq<char>> {
    seq!["\":\""@]
}

pub open spec fn exp_type() -> Seq<Seq<char>> {
    seq!["\"Ribbon\""@, "\"Bunny\""@]
}

pub open spec fn exp_assign() -> Seq<Seq<char>> {
    seq!["\"=\""@]
}

pub open spec fn exp_semi() -> Seq<Seq<char>> {
    seq!["\";\""@]
}

pub open spec fn exp_lbrace() -> Seq<Seq<char>> {
    seq!["\"{\""@]
}

pub open spec fn exp_block() -> Seq<Seq<char>> {
    seq!["\"fn\""@, "\"let\""@, "IDENT"@, "STRING"@, "\"}\""@]
}

pub open spec fn exp_args_first() -> Seq<Seq<char>> {
    seq!["\")\""@, "IDENT"@, "STRING"@]
}

pub open spec fn exp_args_rest() -> Seq<Seq<char>> {
    seq!["\")\""@, "\",\""@]
}

/// The token position at which parsing continues after a sub-parse that
/// returned position `x`.  A successful sub-parse always advances and stays
/// within bounds (see the advance lemmas below), so this is `x` wherever it
/// is reached; the clamp only makes termination of the mutual recursion
/// syntactically evident.
pub open spec fn next_at(i: int, hi: int, x: int) -> int {
    if x <= i {
        i + 1
    } else if x > hi {
        hi
    } else {
        x
    }
}

/// The token kinds that can begin a statement.
pub open spec fn stmt_first(k: TokKind) -> bool {
    k is KwLet || k is KwFn || k is Ident || k is Str
}

/// Parse one expression starting at token `i`.  `eof` is the byte offset of
/// the end of the source, reported when input ends mid-construct.
pub open spec fn sp_expr(ts: Seq<TokenV>, i: int, eof: int) -> Result<(ExprV, int), FailV>
    decreases ts.len() - i, 0int,
{
    if i < 0 || i >= ts.len() {
        Err(FailV::UnexpectedEndOfInput { offset: eof, expected: exp_expr() })
    } else if ts[i].kind is Str {
        Ok((ExprV::StringLiteral(ts[i].text), i + 1))
    } else if ts[i].kind is Ident {
        if i + 1 < ts.len() && ts[i + 1].kind is LParen {
            match sp_args(ts, i + 2, eof) {
                Ok((args, j)) => Ok((ExprV::Call { callee: ts[i].text, args }, j)),
                Err(f) => Err(f),
            }
        } else {
            Ok((ExprV::IdentifierRef(ts[i].text), i + 1))
        }
    } else {
        Err(
            FailV::UnrecognizedToken {
                offset: ts[i].off,
                found: lexeme(ts[i]),
                expected: exp_expr(),
            },
        )
    }
}

/// Parse a call's argument list, standing just after the opening parenthesis;
/// consumes the closing parenthesis.
pub open spec fn sp_args(ts: Seq<TokenV>, i: int, eof: int) -> Result<(Seq<ExprV>, int), FailV>
    decreases ts.len() - i, 1int,
{
    if i < 0 || i >= ts.len() {
        Err(FailV::UnexpectedEndOfInput { offset: eof, expected: exp_args_first() })
    } else if ts[i].kind is RParen {
        Ok((Seq::empty(), i + 1))
    } else if ts[i].kind is Str || ts[i].kind is Ident {
        match sp_expr(ts, i, eof) {
            Ok((e, j)) => match sp_args_rest(ts, next_at(i, ts.len() as int, j), eof) {
                Ok((rest, k)) => Ok((seq![e] + rest, k)),
                Err(f) => Err(f),
            },
            Err(f) => Err(f),
        }
    } else {
        Err(
            FailV::UnrecognizedToken {
                offset: ts[i].off,
                found: lexeme(ts[i]),
                expected: exp_args_first(),
            },
        )
    }
}

/// Parse the rest of an argument list after a complete argument: either the
/// closing parenthesis or a comma and a further argument.
pub open spec fn sp_args_rest(ts: Seq<TokenV>, i: int, eof: int) -> Result<
    (Seq<ExprV>, int),
    FailV,
>
    decreases ts.len() - i, 1int,
{
    if i < 0 || i >= ts.len() {
        Err(FailV::UnexpectedEndOfInput { offset: eof, expected: exp_args_rest() })
    } else if ts[i].kind is RParen {
        Ok((Seq::empty(), i + 1))
    } else if ts[i].kind is Comma {
        match sp_expr(ts, i + 1, eof) {
            Ok((e, j)) => match sp_args_rest(ts, next_at(i, ts.len() as int, j), eof) {
                Ok((rest, k)) => Ok((seq![e] + rest, k)),
                Err(f) => Err(f),
            },
            Err(f) => Err(f),
        }
    } else {
        Err(
            FailV::UnrecognizedToken {
                offset: ts[i].off,
                found: lexeme(ts[i]),
                expected: exp_args_rest(),
            },
        )
    }
}

/// Parse one statement starting at token `i`.
pub open spec fn sp_stmt(ts: Seq<TokenV>, i: int, eof: int) -> Result<(StmtV, int), FailV>
    decreases ts.len() - i, 2int,
{
    if i < 0 || i >= ts.len() {
        Err(FailV::UnexpectedEndOfInput { offset: eof, expected: exp_expr() })
    } else if ts[i].kind is KwLet {
        if i + 1 >= ts.len() {
            Err(FailV::UnexpectedEndOfInput { offset: eof, expected: exp_ident() })
        } else if !(ts[i + 1].kind is Ident) {
            Err(
                FailV::UnrecognizedToken {
                    offset: ts[i + 1].off,
                    found: lexeme(ts[i + 1]),
                    expected: exp_ident(),
                },
            )
        } else if i + 2 >= ts.len() {
            Err(FailV::UnexpectedEndOfInput { offset: eof, expected: exp_colon() })
        } else if !(ts[i + 2].kind is Colon) {
            Err(
                FailV::UnrecognizedToken {
                    offset: ts[i + 2].off,
                    found: lexeme(ts[i + 2]),
                    expected: exp_colon(),
                },
            )
        } else if i + 3 >= ts.len() {
            Err(FailV::UnexpectedEndOfInput { offset: eof, expected: exp_type() })
        } else if !(ts[i + 3].kind is KwRibbon || ts[i + 3].kind is KwBunny) {
            Err(
                FailV::UnrecognizedToken {
                    offset: ts[i + 3].off,
                    found: lexeme(ts[i + 3]),
                    expected: exp_type(),
                },
            )
        } else if i + 4 >= ts.len() {
            Err(FailV::UnexpectedEndOfInput { offset: eof, expected: exp_assign() })
        } else if !(ts[i + 4].kind is Assign) {
            Err(
                FailV::UnrecognizedToken {
                    offset: ts[i + 4].off,
                    found: lexeme(ts[i + 4]),
                    expected: exp_assign(),
                },
            )
        } else {
            match sp_expr(ts, i + 5, eof) {
                Ok((e, j)) => {
                    if j >= ts.len() {
                        Err(FailV::UnexpectedEndOfInput { offset: eof, expected: exp_semi() })
                    } else if !(ts[j].kind is Semi) {
                        Err(
                            FailV::UnrecognizedToken {
                                offset: ts[j].off,
                                found: lexeme(ts[j]),
                                expected: exp_semi(),
                            },
                        )
                    } else {
                        let ty = if ts[i + 3].kind is KwRibbon {
                            Ty::TextType
                        } else {
                            Ty::OtherType
                        };
                        Ok((StmtV::Decl { ident: ts[i + 1].text, ty, expr: e }, j + 1))
                    }
                },
                Err(f) => Err(f),
            }
        }
    } else if ts[i].kind is KwFn {
        if i + 1 >= ts.len() {
            Err(FailV::UnexpectedEndOfInput { offset: eof, expected: exp_ident() })
        } else if !(ts[i + 1].kind is Ident) {
            Err(
                FailV::UnrecognizedToken {
                    offset: ts[i + 1].off,
                    found: lexeme(ts[i + 1]),
                    expected: exp_ident(),
                },
            )
        } else if i + 2 >= ts.len() {
            Err(FailV::UnexpectedEndOfInput { offset: eof, expected: exp_lbrace() })
        } else if !(ts[i + 2].kind is LBrace) {
            Err(
                FailV::UnrecognizedToken {
                    offset: ts[i + 2].off,
                    found: lexeme(ts[i + 2]),
                    expected: exp_lbrace(),
                },
            )
        } else {
            match sp_block(ts, i + 3, eof) {
                Ok((body, j)) => Ok((StmtV::Func { ident: ts[i + 1].text, body }, j)),
                Err(f) => Err(f),
            }
        }
    } else {
        match sp_expr(ts, i, eof) {
            Ok((e, j)) => {
                if j >= ts.len() {
                    Err(FailV::UnexpectedEndOfInput { offset: eof, expected: exp_semi() })
                } else if !(ts[j].kind is Semi) {
                    Err(
                        FailV::UnrecognizedToken {
                            offset: ts[j].off,
                            found: lexeme(ts[j]),
                            expected: exp_semi(),
                        },
                    )
                } else {
                    Ok((StmtV::Expr(e), j + 1))
                }
            },
            Err(f) => Err(f),
        }
    }
}

/// Parse statements inside a function body until the closing brace, which is
/// consumed.
pub open spec fn sp_block(ts: Seq<TokenV>, i: int, eof: int) -> Result<(Seq<StmtV>, int), FailV>
    decreases ts.len() - i, 3int,
{
    if i < 0 || i >= ts.len() {
        Err(FailV::UnexpectedEndOfInput { offset: eof, expected: exp_block() })
    } else if ts[i].kind is RBrace {
        Ok((Seq::empty(), i + 1))
    } else if stmt_first(ts[i].kind) {
        match sp_stmt(ts, i, eof) {
            Ok((s, j)) => match sp_block(ts, next_at(i, ts.len() as int, j), eof) {
                Ok((rest, k)) => Ok((seq![s] + rest, k)),
                Err(f) => Err(f),
            },
            Err(f) => Err(f),
        }
    } else {
        Err(
            FailV::UnrecognizedToken {
                offset: ts[i].off,
                found: lexeme(ts[i]),
                expected: exp_block(),
            },
        )
    }
}

/// Parse top-level statements up to the end of input.  A token that cannot
/// begin a statement ends the program and is reported as trailing input.
pub open spec fn sp_top(ts: Seq<TokenV>, i: int, eof: int) -> Result<Seq<StmtV>, FailV>
    decreases ts.len() - i, 3int,
{
    if i < 0 || i >= ts.len() {
        Ok(Seq::empty())
    } else if stmt_first(ts[i].kind) {
        match sp_stmt(ts, i, eof) {
            Ok((s, j)) => match sp_top(ts, next_at(i, ts.len() as int, j), eof) {
                Ok(rest) => Ok(seq![s] + rest),
                Err(f) => Err(f),
            },
            Err(f) => Err(f),
        }
    } else {
        Err(FailV::ExtraToken { offset: ts[i].off, found: lexeme(ts[i]) })
    }
}

/// The parse of a whole source text: tokenize, then parse the token stream.
pub open spec fn sp_parse_source(cs: Seq<char>) -> Result<Seq<StmtV>, FailV> {
    match sp_lex(cs, 0) {
        Err(o) => Err(FailV::InvalidToken { offset: o }),
        Ok(ts) => sp_top(ts, 0, bytes_upto(cs, cs.len() as int) as int),
    }
}

/// A successful parse consumes at least one token and stops within bounds.
pub proof fn lemma_expr_adv(ts: Seq<TokenV>, i: int, eof: int)
    ensures
        sp_expr(ts, i, eof) is Ok ==> i < sp_expr(ts, i, eof)->Ok_0.1 <= ts.len(),
    decreases ts.len() - i, 0int,
{
    if 0 <= i && i < ts.len() && ts[i].kind is Ident && i + 1 < ts.len() && ts[i + 1].kind
        is LParen {
        lemma_args_adv(ts, i + 2, eof);
    }
}

pub proof fn lemma_args_adv(ts: Seq<TokenV>, i: int, eof: int)
    ensures
        sp_args(ts, i, eof) is Ok ==> i < sp_args(ts, i, eof)->Ok_0.1 <= ts.len(),
    decreases ts.len() - i, 1int,
{
    if 0 <= i && i < ts.len() {
        if ts[i].kind is Str || ts[i].kind is Ident {
            lemma_expr_adv(ts, i, eof);
            if sp_expr(ts, i, eof) is Ok {
                let j = sp_expr(ts, i, eof)->Ok_0.1;
                lemma_args_rest_adv(ts, next_at(i, ts.len() as int, j), eof);
            }
        }
    }
}

pub proof fn lemma_args_rest_adv(ts: Seq<TokenV>, i: int, eof: int)
    ensures
        sp_args_rest(ts, i, eof) is Ok ==> i < sp_args_rest(ts, i, eof)->Ok_0.1 <= ts.len(),
    decreases ts.len() - i, 1int,
{
    if 0 <= i && i < ts.len() && ts[i].kind is Comma {
        lemma_expr_adv(ts, i + 1, eof);
        if sp_expr(ts, i + 1, eof) is Ok {
            let j = sp_expr(ts, i + 1, eof)->Ok_0.1;
            lemma_args_rest_adv(ts, next_at(i, ts.len() as int, j), eof);
        }
    }
}

pub proof fn lemma_stmt_adv(ts: Seq<TokenV>, i: int, eof: int)
    ensures
        sp_stmt(ts, i, eof) is Ok ==> i < sp_stmt(ts, i, eof)->Ok_0.1 <= ts.len(),
    decreases ts.len() - i, 2int,
{
    if 0 <= i && i < ts.len() {
        if ts[i].kind is KwLet {
            lemma_expr_adv(ts, i + 5, eof);
        } else if ts[i].kind is KwFn {
            if i + 2 < ts.len() && ts[i + 1].kind is Ident && ts[i + 2].kind is LBrace {
                lemma_block_adv(ts, i + 3, eof);
            }
        } else {
            lemma_expr_adv(ts, i, eof);
        }
    }
}

pub proof fn lemma_block_adv(ts: Seq<TokenV>, i: int, eof: int)
    ensures
        sp_block(ts, i, eof) is Ok ==> i < sp_block(ts, i, eof)->Ok_0.1 <= ts.len(),
    decreases ts.len() - i, 3int,
{
    if 0 <= i && i < ts.len() && !(ts[i].kind is RBrace) && stmt_first(ts[i].kind) {
        lemma_stmt_adv(ts, i, eof);
        if sp_stmt(ts, i, eof) is Ok {
            let j = sp_stmt(ts, i, eof)->Ok_0.1;
            lemma_block_adv(ts, next_at(i, ts.len() as int, j), eof);
        }
    }
}

// Executable builders for the expected-token sets.
fn exp_expr_vec() -> (v: Vec<String>)
    ensures
        view_strings(v@) == exp_expr(),
{
    let v = vec![String::from_str("IDENT"), String::from_str("STRING")];
    proof {
        assert(view_strings(v@) =~= exp_expr());
    }
    v
}

fn exp_ident_vec() -> (v: Vec<String>)
    ensures
        view_strings(v@) == exp_ident(),
{
    let v = vec![String::from_str("IDENT")];
    proof {
        assert(view_strings(v@) =~= exp_ident());
    }
    v
}

fn exp_colon_vec() -> (v: Vec<String>)
    ensures
        view_strings(v@) == exp_colon(),
{
    let v = vec![String::from_str("\":\"")];
    proof {
        assert(view_strings(v@) =~= exp_colon());
    }
    v
}

fn exp_type_vec() -> (v: Vec<String>)
    ensures
        view_strings(v@) == exp_type(),
{
    let v = vec![String::from_str("\"Ribbon\""), String::from_str("\"Bunny\"")];
    proof {
        assert(view_strings(v@) =~= exp_type());
    }
    v
}

fn exp_assign_vec() -> (v: Vec<String>)
    ensures
        view_strings(v@) == exp_assign(),
{
    let v = vec![String::from_str("\"=\"")];
    proof {
        assert(view_strings(v@) =~= exp_assign());
    }
    v
}

fn exp_semi_vec() -> (v: Vec<String>)
    ensures
        view_strings(v@) == exp_semi(),
{
    let v = vec![String::from_str("\";\"")];
    proof {
        assert(view_strings(v@) =~= exp_semi());
    }
    v
}

fn exp_lbrace_vec() -> (v: Vec<String>)
    ensures
        view_strings(v@) == exp_lbrace(),
{
    let v = vec![String::from_str("\"{\"")];
    proof {
        assert(view_strings(v@) =~= exp_lbrace());
    }
    v
}

fn exp_block_vec() -> (v: Vec<String>)
    ensures
        view_strings(v@) == exp_block(),
{
    let v = vec![
        String::from_str("\"fn\""),
        String::from_str("\"let\""),
        String::from_str("IDENT"),
        String::from_str("STRING"),
        String::from_str("\"}\""),
    ];
    proof {
        assert(view_strings(v@) =~= exp_block());
    }
    v
}

fn exp_args_first_vec() -> (v: Vec<String>)
    ensures
        view_strings(v@) == exp_args_first(),
{
    let v = vec![
        String::from_str("\")\""),
        String::from_str("IDENT"),
        String::from_str("STRING"),
    ];
    proof {
        assert(view_strings(v@) =~= exp_args_first());
    }
    v
}

fn exp_args_rest_vec() -> (v: Vec<String>)
    ensures
        view_strings(v@) == exp_args_rest(),
{
    let v = vec![String::from_str("\")\""), String::from_str("\",\"")];
    proof {
        assert(view_strings(v@) =~= exp_args_rest());
    }
    v
}

fn parse_expr(ts: &Vec<Token>, i: usize, eof: usize) -> (r: Result<(Expr, usize), ParseFailure>)
    ensures
        (match sp_expr(view_tokens(ts@), i as int, eof as int) {
            Ok(p) => r is Ok && view_expr(r->Ok_0.0) == p.0 && r->Ok_0.1 as int == p.1,
            Err(fv) => r is Err && view_failure(r->Err_0) == fv,
        }),
    decreases ts@.len() - i, 0int,
{
    let ghost tv = view_tokens(ts@);
    let n = ts.len();
    if i >= n {
        return Err(ParseFailure::UnexpectedEndOfInput { offset: eof, expected: exp_expr_vec() });
    }
    match ts[i].kind {
        TokKind::Str => Ok((Expr::StringLiteral(ts[i].text.clone()), i + 1)),
        TokKind::Ident => {
            if i + 1 < n && matches!(ts[i + 1].kind, TokKind::LParen) {
                proof {
                    lemma_args_adv(tv, i + 2, eof as int);
                }
                match parse_args(ts, i + 2, eof) {
                    Ok((args, j)) => {
                        let e = Expr::Call(Call { ident: ts[i].text.clone(), args });
                        Ok((e, j))
                    },
                    Err(f) => Err(f),
                }
            } else {
                Ok((Expr::IdentifierRef(ts[i].text.clone()), i + 1))
            }
        },
        _ => Err(
            ParseFailure::UnrecognizedToken {
                offset: ts[i].off,
                found: lexeme_of(&ts[i]),
                expected: exp_expr_vec(),
            },
        ),
    }
}

fn parse_args(ts: &Vec<Token>, i: usize, eof: usize) -> (r: Result<
    (Vec<Expr>, usize),
    ParseFailure,
>)
    ensures
        (match sp_args(view_tokens(ts@), i as int, eof as int) {
            Ok(p) => r is Ok && view_exprs(r->Ok_0.0@) == p.0 && r->Ok_0.1 as int == p.1,
            Err(fv) => r is Err && view_failure(r->Err_0) == fv,
        }),
    decreases ts@.len() - i, 1int,
{
    let ghost tv = view_tokens(ts@);
    let n = ts.len();
    if i >= n {
        return Err(
            ParseFailure::UnexpectedEndOfInput { offset: eof, expected: exp_args_first_vec() },
        );
    }
    match ts[i].kind {
        TokKind::RParen => {
            let v: Vec<Expr> = Vec::new();
            proof {
                assert(view_exprs(v@) =~= Seq::<ExprV>::empty());
            }
            Ok((v, i + 1))
        },
        TokKind::Str | TokKind::Ident => {
            match parse_expr(ts, i, eof) {
                Ok((e, j)) => {
                    proof {
                        lemma_expr_adv(tv, i as int, eof as int);
                        assert(next_at(i as int, ts@.len() as int, j as int) == j as int);
                    }
                    match parse_args_rest(ts, j, eof) {
                        Ok((mut rest, k)) => {
                            let ghost rest0 = rest@;
                            rest.insert(0, e);
                            proof {
                                assert(rest@ =~= seq![e] + rest0);
                                assert((seq![e] + rest0).drop_first() =~= rest0);
                                assert(view_exprs(rest@) == seq![view_expr(e)] + view_exprs(
                                    rest0,
                                ));
                            }
                            Ok((rest, k))
                        },
                        Err(f) => Err(f),
                    }
                },
                Err(f) => Err(f),
            }
        },
        _ => Err(
            ParseFailure::UnrecognizedToken {
                offset: ts[i].off,
                found: lexeme_of(&ts[i]),
                expected: exp_args_first_vec(),
            },
        ),
    }
}

fn parse_args_rest(ts: &Vec<Token>, i: usize, eof: usize) -> (r: Result<
    (Vec<Expr>, usize),
    ParseFailure,
>)
    ensures
        (match sp_args_rest(view_tokens(ts@), i as int, eof as int) {
            Ok(p) => r is Ok && view_exprs(r->Ok_0.0@) == p.0 && r->Ok_0.1 as int == p.1,
            Err(fv) => r is Err && view_failure(r->Err_0) == fv,
        }),
    decreases ts@.len() - i, 1int,
{
    let ghost tv = view_tokens(ts@);
    let n = ts.len();
    if i >= n {
        return Err(
            ParseFailure::UnexpectedEndOfInput { offset: eof, expected: exp_args_rest_vec() },
        );
    }
    match ts[i].kind {
        TokKind::RParen => {
            let v: Vec<Expr> = Vec::new();
            proof {
                assert(view_exprs(v@) =~= Seq::<ExprV>::empty());
            }
            Ok((v, i + 1))
        },
        TokKind::Comma => {
            match parse_expr(ts, i + 1, eof) {
                Ok((e, j)) => {
                    proof {
                        lemma_expr_adv(tv, i + 1, eof as int);
                        assert(next_at(i as int, ts@.len() as int, j as int) == j as int);
                    }
                    match parse_args_rest(ts, j, eof) {
                        Ok((mut rest, k)) => {
                            let ghost rest0 = rest@;
                            rest.insert(0, e);
                            proof {
                                assert(rest@ =~= seq![e] + rest0);
                                assert((seq![e] + rest0).drop_first() =~= rest0);
                                assert(view_exprs(rest@) == seq![view_expr(e)] + view_exprs(
                                    rest0,
                                ));
                            }
                            Ok((rest, k))
                        },
                        Err(f) => Err(f),
                    }
                },
                Err(f) => Err(f),
            }
        },
        _ => Err(
            ParseFailure::UnrecognizedToken {
                offset: ts[i].off,
                found: lexeme_of(&ts[i]),
                expected: exp_args_rest_vec(),
            },
        ),
    }
}

fn parse_stmt(ts: &Vec<Token>, i: usize, eof: usize) -> (r: Result<(Stmt, usize), ParseFailure>)
    requires
        i < ts@.len(),
    ensures
        (match sp_stmt(view_tokens(ts@), i as int, eof as int) {
            Ok(p) => r is Ok && view_stmt(r->Ok_0.0) == p.0 && r->Ok_0.1 as int == p.1,
            Err(fv) => r is Err && view_failure(r->Err_0) == fv,
        }),
    decreases ts@.len() - i, 2int,
{
    let ghost tv = view_tokens(ts@);
    let n = ts.len();
    match ts[i].kind {
        TokKind::KwLet => {
            if i + 1 >= n {
                return Err(
                    ParseFailure::UnexpectedEndOfInput { offset: eof, expected: exp_ident_vec() },
                );
            }
            if !matches!(ts[i + 1].kind, TokKind::Ident) {
                return Err(
                    ParseFailure::UnrecognizedToken {
                        offset: ts[i + 1].off,
                        found: lexeme_of(&ts[i + 1]),
                        expected: exp_ident_vec(),
                    },
                );
            }
            if i + 2 >= n {
                return Err(
                    ParseFailure::UnexpectedEndOfInput { offset: eof, expected: exp_colon_vec() },
                );
            }
            if !matches!(ts[i + 2].kind, TokKind::Colon) {
                return Err(
                    ParseFailure::UnrecognizedToken {
                        offset: ts[i + 2].off,
                        found: lexeme_of(&ts[i + 2]),
                        expected: exp_colon_vec(),
                    },
                );
            }
            if i + 3 >= n {
                return Err(
                    ParseFailure::UnexpectedEndOfInput { offset: eof, expected: exp_type_vec() },
                );
            }
            let ty = match ts[i + 3].kind {
                TokKind::KwRibbon => Ty::TextType,
                TokKind::KwBunny => Ty::OtherType,
                _ => {
                    return Err(
                        ParseFailure::UnrecognizedToken {
                            offset: ts[i + 3].off,
                            found: lexeme_of(&ts[i + 3]),
                            expected: exp_type_vec(),
                        },
                    );
                },
            };
            if i + 4 >= n {
                return Err(
                    ParseFailure::UnexpectedEndOfInput { offset: eof, expected: exp_assign_vec() },
                );
            }
            if !matches!(ts[i + 4].kind, TokKind::Assign) {
                return Err(
                    ParseFailure::UnrecognizedToken {
                        offset: ts[i + 4].off,
                        found: lexeme_of(&ts[i + 4]),
                        expected: exp_assign_vec(),
                    },
                );
            }
            match parse_expr(ts, i + 5, eof) {
                Ok((e, j)) => {
                    if j >= n {
                        return Err(
                            ParseFailure::UnexpectedEndOfInput {
                                offset: eof,
                                expected: exp_semi_vec(),
                            },
                        );
                    }
                    if !matches!(ts[j].kind, TokKind::Semi) {
                        return Err(
                            ParseFailure::UnrecognizedToken {
                                offset: ts[j].off,
                                found: lexeme_of(&ts[j]),
                                expected: exp_semi_vec(),
                            },
                        );
                    }
                    let d = Decl { ident: ts[i + 1].text.clone(), ty, expr: e };
                    Ok((Stmt::Decl(d), j + 1))
                },
                Err(f) => Err(f),
            }
        },
        TokKind::KwFn => {
            if i + 1 >= n {
                return Err(
                    ParseFailure::UnexpectedEndOfInput { offset: eof, expected: exp_ident_vec() },
                );
            }
            if !matches!(ts[i + 1].kind, TokKind::Ident) {
                return Err(
                    ParseFailure::UnrecognizedToken {
                        offset: ts[i + 1].off,
                        found: lexeme_of(&ts[i + 1]),
                        expected: exp_ident_vec(),
                    },
                );
            }
            if i + 2 >= n {
                return Err(
                    ParseFailure::UnexpectedEndOfInput { offset: eof, expected: exp_lbrace_vec() },
                );
            }
            if !matches!(ts[i + 2].kind, TokKind::LBrace) {
                return Err(
                    ParseFailure::UnrecognizedToken {
                        offset: ts[i + 2].off,
                        found: lexeme_of(&ts[i + 2]),
                        expected: exp_lbrace_vec(),
                    },
                );
            }
            match parse_block(ts, i + 3, eof) {
                Ok((body, j)) => {
                    let f = Func { ident: ts[i + 1].text.clone(), stmts: body };
                    Ok((Stmt::Func(f), j))
                },
                Err(f) => Err(f),
            }
        },
        _ => {
            match parse_expr(ts, i, eof) {
                Ok((e, j)) => {
                    if j >= n {
                        return Err(
                            ParseFailure::UnexpectedEndOfInput {
                                offset: eof,
                                expected: exp_semi_vec(),
                            },
                        );
                    }
                    if !matches!(ts[j].kind, TokKind::Semi) {
                        return Err(
                            ParseFailure::UnrecognizedToken {
                                offset: ts[j].off,
                                found: lexeme_of(&ts[j]),
                                expected: exp_semi_vec(),
                            },
                        );
                    }
                    Ok((Stmt::Expr(e), j + 1))
                },
                Err(f) => Err(f),
            }
        },
    }
}

fn stmt_first_of(k: TokKind) -> (r: bool)
    ensures
        r == stmt_first(k),
{
    matches!(k, TokKind::KwLet | TokKind::KwFn | TokKind::Ident | TokKind::Str)
}

fn parse_block(ts: &Vec<Token>, i: usize, eof: usize) -> (r: Result<
    (Vec<Stmt>, usize),
    ParseFailure,
>)
    ensures
        (match sp_block(view_tokens(ts@), i as int, eof as int) {
            Ok(p) => r is Ok && view_stmts(r->Ok_0.0@) == p.0 && r->Ok_0.1 as int == p.1,
            Err(fv) => r is Err && view_failure(r->Err_0) == fv,
        }),
    decreases ts@.len() - i, 3int,
{
    let ghost tv = view_tokens(ts@);
    let n = ts.len();
    if i >= n {
        return Err(ParseFailure::UnexpectedEndOfInput { offset: eof, expected: exp_block_vec() });
    }
    if matches!(ts[i].kind, TokKind::RBrace) {
        let v: Vec<Stmt> = Vec::new();
        proof {
            assert(view_stmts(v@) =~= Seq::<StmtV>::empty());
        }
        return Ok((v, i + 1));
    }
    if !stmt_first_of(ts[i].kind) {
        return Err(
            ParseFailure::UnrecognizedToken {
                offset: ts[i].off,
                found: lexeme_of(&ts[i]),
                expected: exp_block_vec(),
            },
        );
    }
    match parse_stmt(ts, i, eof) {
        Ok((s, j)) => {
            proof {
                lemma_stmt_adv(tv, i as int, eof as int);
                assert(next_at(i as int, ts@.len() as int, j as int) == j as int);
            }
            match parse_block(ts, j, eof) {
                Ok((mut rest, k)) => {
                    let ghost rest0 = rest@;
                    rest.insert(0, s);
                    proof {
                        assert(rest@ =~= seq![s] + rest0);
                        assert((seq![s] + rest0).drop_first() =~= rest0);
                        assert(view_stmts(rest@) == seq![view_stmt(s)] + view_stmts(rest0));
                    }
                    Ok((rest, k))
                },
                Err(f) => Err(f),
            }
        },
        Err(f) => Err(f),
    }
}

fn parse_top(ts: &Vec<Token>, i: usize, eof: usize) -> (r: Result<Vec<Stmt>, ParseFailure>)
    ensures
        (match sp_top(view_tokens(ts@), i as int, eof as int) {
            Ok(ss) => r is Ok && view_stmts(r->Ok_0@) == ss,
            Err(fv) => r is Err && view_failure(r->Err_0) == fv,
        }),
    decreases ts@.len() - i, 3int,
{
    let ghost tv = view_tokens(ts@);
    let n = ts.len();
    if i >= n {
        let v: Vec<Stmt> = Vec::new();
        proof {
            assert(view_stmts(v@) =~= Seq::<StmtV>::empty());
        }
        return Ok(v);
    }
    if !stmt_first_of(ts[i].kind) {
        return Err(
            ParseFailure::ExtraToken { offset: ts[i].off, found: lexeme_of(&ts[i]) },
        );
    }
    match parse_stmt(ts, i, eof) {
        Ok((s, j)) => {
            proof {
                lemma_stmt_adv(tv, i as int, eof as int);
                assert(next_at(i as int, ts@.len() as int, j as int) == j as int);
            }
            match parse_top(ts, j, eof) {
                Ok(mut rest) => {
                    let ghost rest0 = rest@;
                    rest.insert(0, s);
                    proof {
                        assert(rest@ =~= seq![s] + rest0);
                        assert((seq![s] + rest0).drop_first() =~= rest0);
                        assert(view_stmts(rest@) == seq![view_stmt(s)] + view_stmts(rest0));
                    }
                    Ok(rest)
                },
                Err(f) => Err(f),
            }
        },
        Err(f) => Err(f),
    }
}

/// Parse a whole source text into a [`Program`], or report the first
/// structured failure.  Success and failure, and every field of the result,
/// are exactly those of the mathematical parse [`sp_parse_source`] of the
/// source's characters.
pub fn parse(source: &str) -> (r: Result<Program, ParseFailure>)
    ensures
        (match sp_parse_source(source@) {
            Ok(pv) => r is Ok && view_program(r->Ok_0) == pv,
            Err(fv) => r is Err && view_failure(r->Err_0) == fv,
        }),
{
    let cs = str_chars(source);
    let n = cs.len();
    // Total byte length of the source, reported for end-of-input failures.
    let mut eof: usize = 0;
    let mut i: usize = 0;
    while i < n
        invariant
            i <= n,
            n == cs@.len(),
            eof == bytes_upto(cs@, i as int),
            bytes_upto(cs@, cs@.len() as int) <= usize::MAX / 2,
            cs@ == source@,
        decreases n - i,
    {
        proof {
            lemma_bytes_upto_mono(cs@, i + 1, cs@.len() as int);
        }
        eof = eof + byte_len_of(cs[i]);
        i = i + 1;
    }
    match lex(&cs) {
        Err(o) => Err(ParseFailure::InvalidToken { offset: o }),
        Ok(toks) => {
            match parse_top(&toks, 0, eof) {
                Ok(stmts) => Ok(Program { stmts }),
                Err(f) => Err(f),
            }
        },
    }
}

} // verus!
