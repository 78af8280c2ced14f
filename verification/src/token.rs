//! Tokens of the source language, as produced by the lexer.

use vstd::prelude::*;

verus! {

/// The kind of a lexed token.  `Ident` and `Str` carry text; the others are
/// fixed keywords and punctuation.
#[derive(Debug, Clone, Copy, PartialEq, Eq, Structural)]
pub enum TokKind {
    KwLet,
    KwFn,
    KwRibbon,
    KwBunny,
    Colon,
    Assign,
    Semi,
    LBrace,
    RBrace,
    LParen,
    RParen,
    Comma,
    Ident,
    Str,
}

/// A lexed token: its kind, the byte offset of its first character in the
/// source, and its text (the identifier name, or the string literal's
/// contents without the quotes; empty for fixed tokens).
#[derive(Debug, Clone)]
pub struct Token {
    pub kind: TokKind,
    pub off: usize,
    pub text: String,
}

/// Mathematical view of a [`Token`].
pub struct TokenV {
    pub kind: TokKind,
    pub off: int,
    pub text: Seq<char>,
}

pub open spec fn view_token(t: Token) -> TokenV {
    TokenV { kind: t.kind, off: t.off as int, text: t.text@ }
}

pub open spec fn view_tokens(ts: Seq<Token>) -> Seq<TokenV> {
    Seq::new(ts.len(), |i: int| view_token(ts[i]))
}

/// The exact source text a token was matched from, as shown in diagnostics.
pub open spec fn lexeme(t: TokenV) -> Seq<char> {
    match t.kind {
        TokKind::KwLet => "let"@,
        TokKind::KwFn => "fn"@,
        TokKind::KwRibbon => "Ribbon"@,
        TokKind::KwBunny => "Bunny"@,
        TokKind::Colon => ":"@,
        TokKind::Assign => "="@,
        TokKind::Semi => ";"@,
        TokKind::LBrace => "{"@,
        TokKind::RBrace => "}"@,
        TokKind::LParen => "("@,
        TokKind::RParen => ")"@,
        TokKind::Comma => ","@,
        TokKind::Ident => t.text,
        TokKind::Str => "\""@ + t.text + "\""@,
    }
}

pub fn lexeme_of(t: &Token) -> (r: String)
    ensures
        r@ == lexeme(view_token(*t)),
{
    match t.kind {
        TokKind::KwLet => String::from_str("let"),
        TokKind::KwFn => String::from_str("fn"),
        TokKind::KwRibbon => String::from_str("Ribbon"),
        TokKind::KwBunny => String::from_str("Bunny"),
        TokKind::Colon => String::from_str(":"),
        TokKind::Assign => String::from_str("="),
        TokKind::Semi => String::from_str(";"),
        TokKind::LBrace => String::from_str("{"),
        TokKind::RBrace => String::from_str("}"),
        TokKind::LParen => String::from_str("("),
        TokKind::RParen => String::from_str(")"),
        TokKind::Comma => String::from_str(","),
        TokKind::Ident => t.text.clone(),
        TokKind::Str => {
            let mut s = String::from_str("\"");
            s.append(t.text.as_str());
            s.append("\"");
            s
        },
    }
}

} // verus!
