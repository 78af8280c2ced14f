//! The lexer: turns source characters into tokens.
//!
//! `sp_lex` is the mathematical definition of tokenization; the executable
//! `lex` is proved to return exactly its result.  A lexical failure is the
//! byte offset of the first character sequence matching no lexical rule.

use vstd::prelude::*;

use crate::text::{byte_len, byte_len_of, bytes_upto, chars_to_string, lemma_bytes_upto_mono, lemma_subrange_push};
use crate::token::{view_token, view_tokens, TokKind, Token, TokenV};

verus! {

broadcast use vstd::std_specs::vec::group_vec_axioms, vstd::seq::group_seq_axioms;

pub open spec fn is_ws(c: char) -> bool {
    c == ' ' || c == '\t' || c == '\n' || c == '\r'
}

pub open spec fn is_digit(c: char) -> bool {
    0x30 <= c as u32 && c as u32 <= 0x39
}

pub open spec fn is_id_start(c: char) -> bool {
    (0x61 <= c as u32 && c as u32 <= 0x7a) || (0x41 <= c as u32 && c as u32 <= 0x5a) || c == '_'
}

pub open spec fn is_id_cont(c: char) -> bool {
    is_id_start(c) || is_digit(c)
}

/// The first index at or after `i` whose character is not whitespace.
pub open spec fn ws_end(cs: Seq<char>, i: int) -> int
    decreases cs.len() - i,
{
    if 0 <= i && i < cs.len() && is_ws(cs[i]) {
        ws_end(cs, i + 1)
    } else {
        i
    }
}

/// The first index at or after `i` whose character cannot continue an
/// identifier.
pub open spec fn id_end(cs: Seq<char>, i: int) -> int
    decreases cs.len() - i,
{
    if 0 <= i && i < cs.len() && is_id_cont(cs[i]) {
        id_end(cs, i + 1)
    } else {
        i
    }
}

/// The first index at or after `i` holding a double quote, or the length of
/// `cs` if there is none.
pub open spec fn str_end(cs: Seq<char>, i: int) -> int
    decreases cs.len() - i,
{
    if 0 <= i && i < cs.len() && cs[i] != '"' {
        str_end(cs, i + 1)
    } else {
        i
    }
}

/// Clamp used so that termination of `sp_lex` is syntactically evident; the
/// scan ends (`ws_end`, `id_end`, `str_end`) never lie below their start, so
/// the clamp never changes the value.
pub open spec fn at_least(lo: int, x: int) -> int {
    if x < lo {
        lo
    } else {
        x
    }
}

/// Clamp into `[lo, hi]`, for the same purpose as [`at_least`].
pub open spec fn capped(lo: int, hi: int, x: int) -> int {
    if x < lo {
        lo
    } else if hi < x {
        hi
    } else {
        x
    }
}

pub proof fn lemma_ws_end_bounds(cs: Seq<char>, i: int)
    requires
        0 <= i <= cs.len(),
    ensures
        i <= ws_end(cs, i) <= cs.len(),
    decreases cs.len() - i,
{
    if i < cs.len() && is_ws(cs[i]) {
        lemma_ws_end_bounds(cs, i + 1);
    }
}

pub proof fn lemma_id_end_bounds(cs: Seq<char>, i: int)
    requires
        0 <= i <= cs.len(),
    ensures
        i <= id_end(cs, i) <= cs.len(),
    decreases cs.len() - i,
{
    if i < cs.len() && is_id_cont(cs[i]) {
        lemma_id_end_bounds(cs, i + 1);
    }
}

/// The token kind of a single punctuation character, if it is one.
pub open spec fn punct_kind(c: char) -> Option<TokKind> {
    if c == ':' {
        Some(TokKind::Colon)
    } else if c == '=' {
        Some(TokKind::Assign)
    } else if c == ';' {
        Some(TokKind::Semi)
    } else if c == '{' {
        Some(TokKind::LBrace)
    } else if c == '}' {
        Some(TokKind::RBrace)
    } else if c == '(' {
        Some(TokKind::LParen)
    } else if c == ')' {
        Some(TokKind::RParen)
    } else if c == ',' {
        Some(TokKind::Comma)
    } else {
        None
    }
}

/// The kind of an identifier-shaped word: a keyword where it matches one.
pub open spec fn kw_kind(text: Seq<char>) -> TokKind {
    if text == "let"@ {
        TokKind::KwLet
    } else if text == "fn"@ {
        TokKind::KwFn
    } else if text == "Ribbon"@ {
        TokKind::KwRibbon
    } else if text == "Bunny"@ {
        TokKind::KwBunny
    } else {
        TokKind::Ident
    }
}

/// Tokenization of `cs` from character index `i` on.  `Err(o)` is the byte
/// offset of the first character that starts no token: an unterminated string
/// literal's opening quote, or any other character that is not whitespace,
/// punctuation, a quote, or an identifier start.
pub open spec fn sp_lex(cs: Seq<char>, i: int) -> Result<Seq<TokenV>, int>
    decreases cs.len() - i,
{
    let j = at_least(i, ws_end(cs, i));
    if j >= cs.len() {
        Ok(Seq::empty())
    } else {
        let c = cs[j];
        let o = bytes_upto(cs, j) as int;
        if punct_kind(c) is Some {
            match sp_lex(cs, j + 1) {
                Ok(ts) => Ok(
                    seq![TokenV { kind: punct_kind(c)->0, off: o, text: Seq::empty() }] + ts,
                ),
                Err(x) => Err(x),
            }
        } else if c == '"' {
            let e = at_least(j + 1, str_end(cs, j + 1));
            if e >= cs.len() {
                Err(o)
            } else {
                match sp_lex(cs, e + 1) {
                    Ok(ts) => Ok(
                        seq![
                            TokenV { kind: TokKind::Str, off: o, text: cs.subrange(j + 1, e) },
                        ] + ts,
                    ),
                    Err(x) => Err(x),
                }
            }
        } else if is_id_start(c) {
            let e = capped(j + 1, cs.len() as int, id_end(cs, j));
            match sp_lex(cs, e) {
                Ok(ts) => Ok(
                    seq![
                        TokenV {
                            kind: kw_kind(cs.subrange(j, e)),
                            off: o,
                            text: cs.subrange(j, e),
                        },
                    ] + ts,
                ),
                Err(x) => Err(x),
            }
        } else {
            Err(o)
        }
    }
}

fn kw_kind_of(text: &String) -> (k: TokKind)
    ensures
        k == kw_kind(text@),
{
    if *text == String::from_str("let") {
        TokKind::KwLet
    } else if *text == String::from_str("fn") {
        TokKind::KwFn
    } else if *text == String::from_str("Ribbon") {
        TokKind::KwRibbon
    } else if *text == String::from_str("Bunny") {
        TokKind::KwBunny
    } else {
        TokKind::Ident
    }
}

fn punct_kind_of(c: char) -> (k: Option<TokKind>)
    ensures
        k == punct_kind(c),
{
    if c == ':' {
        Some(TokKind::Colon)
    } else if c == '=' {
        Some(TokKind::Assign)
    } else if c == ';' {
        Some(TokKind::Semi)
    } else if c == '{' {
        Some(TokKind::LBrace)
    } else if c == '}' {
        Some(TokKind::RBrace)
    } else if c == '(' {
        Some(TokKind::LParen)
    } else if c == ')' {
        Some(TokKind::RParen)
    } else if c == ',' {
        Some(TokKind::Comma)
    } else {
        None
    }
}

/// Tokenize `cs`; returns the tokens, or the byte offset of the first
/// lexically invalid character sequence.
pub(crate) fn lex(cs: &Vec<char>) -> (r: Result<Vec<Token>, usize>)
    requires
        bytes_upto(cs@, cs@.len() as int) <= usize::MAX / 2,
    ensures
        match sp_lex(cs@, 0) {
            Ok(ts) => r is Ok && view_tokens(r->Ok_0@) == ts,
            Err(o) => r is Err && r->Err_0 == o,
        },
{
    let ghost total = bytes_upto(cs@, cs@.len() as int);
    let n = cs.len();
    let mut toks: Vec<Token> = Vec::new();
    let mut i: usize = 0;
    let mut b: usize = 0;
    loop
        invariant
            i <= n,
            n == cs@.len(),
            b == bytes_upto(cs@, i as int),
            total == bytes_upto(cs@, cs@.len() as int),
            total <= usize::MAX / 2,
            sp_lex(cs@, 0) == (match sp_lex(cs@, i as int) {
                Ok(ts) => Ok::<Seq<TokenV>, int>(view_tokens(toks@) + ts),
                Err(x) => Err::<Seq<TokenV>, int>(x),
            }),
        decreases n - i,
    {
        if i >= n {
            proof {
                assert(ws_end(cs@, i as int) == i as int);
                assert(sp_lex(cs@, i as int) == Ok::<Seq<TokenV>, int>(Seq::empty()));
                assert(view_tokens(toks@) + Seq::<TokenV>::empty() =~= view_tokens(toks@));
            }
            return Ok(toks);
        }
        let c = cs[i];
        if c == ' ' || c == '\t' || c == '\n' || c == '\r' {
            proof {
                lemma_bytes_upto_mono(cs@, i + 1, cs@.len() as int);
                lemma_ws_end_bounds(cs@, i + 1);
                assert(ws_end(cs@, i as int) == ws_end(cs@, i + 1));
                assert(sp_lex(cs@, i as int) == sp_lex(cs@, i + 1));
            }
            b = b + byte_len_of(c);
            i = i + 1;
            continue;
        }
        // i stands at a non-whitespace character: one token (or a failure)
        // starts here.
        proof {
            assert(ws_end(cs@, i as int) == i as int);
        }
        let ghost i0 = i as int;
        let off = b;
        match punct_kind_of(c) {
            Some(kind) => {
                proof {
                    lemma_bytes_upto_mono(cs@, i + 1, cs@.len() as int);
                }
                let tok = Token { kind, off, text: String::new() };
                proof {
                    let stepped = sp_lex(cs@, i0 + 1);
                    assert(sp_lex(cs@, i0) == (match stepped {
                        Ok(ts) => Ok::<Seq<TokenV>, int>(seq![view_token(tok)] + ts),
                        Err(x) => Err::<Seq<TokenV>, int>(x),
                    }));
                    assert(view_tokens(toks@.push(tok)) =~= view_tokens(toks@) + seq![
                        view_token(tok),
                    ]);
                    if stepped is Ok {
                        assert((view_tokens(toks@) + seq![view_token(tok)]) + stepped->Ok_0
                            =~= view_tokens(toks@) + (seq![view_token(tok)] + stepped->Ok_0));
                    }
                }
                toks.push(tok);
                b = b + byte_len_of(c);
                i = i + 1;
            },
            None => {
                if c == '"' {
                    // Scan for the closing quote, collecting the contents.
                    proof {
                        lemma_bytes_upto_mono(cs@, i0 + 1, cs@.len() as int);
                    }
                    let mut k = i + 1;
                    let mut kb = b + byte_len_of(c);
                    let mut buf: Vec<char> = Vec::new();
                    loop
                        invariant
                            0 <= i0,
                            i0 + 1 <= k <= n,
                            n == cs@.len(),
                            kb == bytes_upto(cs@, k as int),
                            total == bytes_upto(cs@, cs@.len() as int),
                            total <= usize::MAX / 2,
                            buf@ == cs@.subrange(i0 + 1, k as int),
                            str_end(cs@, i0 + 1) == str_end(cs@, k as int),
                        ensures
                            i0 + 1 <= k <= n,
                            kb == bytes_upto(cs@, k as int),
                            buf@ == cs@.subrange(i0 + 1, k as int),
                            str_end(cs@, i0 + 1) == str_end(cs@, k as int),
                            k >= n || cs@[k as int] == '"',
                        decreases n - k,
                    {
                        if k >= n {
                            break;
                        }
                        let d = cs[k];
                        if d == '"' {
                            break;
                        }
                        proof {
                            lemma_bytes_upto_mono(cs@, k + 1, cs@.len() as int);
                            lemma_subrange_push(cs@, i0 + 1, k as int);
                        }
                        buf.push(d);
                        kb = kb + byte_len_of(d);
                        k = k + 1;
                    }
                    proof {
                        assert(str_end(cs@, k as int) == k as int);
                    }
                    if k >= n {
                        // No closing quote: the opening quote matches no rule.
                        proof {
                            assert(sp_lex(cs@, i0) == Err::<Seq<TokenV>, int>(off as int));
                        }
                        return Err(off);
                    }
                    let text = chars_to_string(&buf);
                    let tok = Token { kind: TokKind::Str, off, text };
                    proof {
                        lemma_bytes_upto_mono(cs@, k + 1, cs@.len() as int);
                        let stepped = sp_lex(cs@, k as int + 1);
                        assert(sp_lex(cs@, i0) == (match stepped {
                            Ok(ts) => Ok::<Seq<TokenV>, int>(seq![view_token(tok)] + ts),
                            Err(x) => Err::<Seq<TokenV>, int>(x),
                        }));
                        assert(view_tokens(toks@.push(tok)) =~= view_tokens(toks@) + seq![
                            view_token(tok),
                        ]);
                        if stepped is Ok {
                            assert((view_tokens(toks@) + seq![view_token(tok)]) + stepped->Ok_0
                                =~= view_tokens(toks@) + (seq![view_token(tok)]
                                + stepped->Ok_0));
                        }
                    }
                    toks.push(tok);
                    b = kb + byte_len_of('"');
                    i = k + 1;
                } else {
                    let u = c as u32;
                    let starts_ident = (0x61 <= u && u <= 0x7a) || (0x41 <= u && u <= 0x5a) || c
                        == '_';
                    if starts_ident {
                        // Scan the identifier run.
                        let mut k = i;
                        let mut kb = b;
                        let mut buf: Vec<char> = Vec::new();
                        proof {
                            assert(cs@.subrange(i0, i0) =~= Seq::<char>::empty());
                        }
                        loop
                            invariant
                                0 <= i0 <= k <= n,
                                n == cs@.len(),
                                kb == bytes_upto(cs@, k as int),
                                total == bytes_upto(cs@, cs@.len() as int),
                                total <= usize::MAX / 2,
                                buf@ == cs@.subrange(i0, k as int),
                                id_end(cs@, i0) == id_end(cs@, k as int),
                            ensures
                                i0 <= k <= n,
                                kb == bytes_upto(cs@, k as int),
                                buf@ == cs@.subrange(i0, k as int),
                                id_end(cs@, i0) == id_end(cs@, k as int),
                                k >= n || !is_id_cont(cs@[k as int]),
                            decreases n - k,
                        {
                            if k >= n {
                                break;
                            }
                            let d = cs[k];
                            let du = d as u32;
                            let cont = (0x61 <= du && du <= 0x7a) || (0x41 <= du && du <= 0x5a)
                                || d == '_' || (0x30 <= du && du <= 0x39);
                            if !cont {
                                break;
                            }
                            proof {
                                lemma_bytes_upto_mono(cs@, k + 1, cs@.len() as int);
                                lemma_subrange_push(cs@, i0, k as int);
                            }
                            buf.push(d);
                            kb = kb + byte_len_of(d);
                            k = k + 1;
                        }
                        proof {
                            assert(id_end(cs@, k as int) == k as int);
                            lemma_id_end_bounds(cs@, i0 + 1);
                            assert(id_end(cs@, i0) == id_end(cs@, i0 + 1));
                        }
                        let text = chars_to_string(&buf);
                        let kind = kw_kind_of(&text);
                        let tok = Token { kind, off, text };
                        proof {
                            let stepped = sp_lex(cs@, k as int);
                            assert(capped(i0 + 1, cs@.len() as int, id_end(cs@, i0)) == k as int);
                            assert(sp_lex(cs@, i0) == (match stepped {
                                Ok(ts) => Ok::<Seq<TokenV>, int>(seq![view_token(tok)] + ts),
                                Err(x) => Err::<Seq<TokenV>, int>(x),
                            }));
                            assert(view_tokens(toks@.push(tok)) =~= view_tokens(toks@) + seq![
                                view_token(tok),
                            ]);
                            if stepped is Ok {
                                assert((view_tokens(toks@) + seq![view_token(tok)])
                                    + stepped->Ok_0 =~= view_tokens(toks@) + (seq![
                                    view_token(tok),
                                ] + stepped->Ok_0));
                            }
                        }
                        toks.push(tok);
                        b = kb;
                        i = k;
                    } else {
                        // No lexical rule matches at this character.
                        proof {
                            assert(sp_lex(cs@, i0) == Err::<Seq<TokenV>, int>(off as int));
                        }
                        return Err(off);
                    }
                }
            },
        }
    }
}

} // verus!
