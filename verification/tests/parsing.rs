use plushie::{parse, Call, Decl, Expr, Func, ParseFailure, Program, Stmt, Ty};

#[test]
fn decl_with_text_type() {
    let p: Program = parse("let greeting: Ribbon = \"hi\";").unwrap();
    assert_eq!(p.stmts.len(), 1);
    match &p.stmts[0] {
        Stmt::Decl(Decl { ident, ty, expr }) => {
            assert_eq!(ident, "greeting");
            assert_eq!(*ty, Ty::TextType);
            match expr {
                Expr::StringLiteral(s) => assert_eq!(s, "hi"),
                other => panic!("expected string literal, got {:?}", other),
            }
        }
        other => panic!("expected declaration, got {:?}", other),
    }
}

#[test]
fn func_with_call_body() {
    let p = parse("fn main { print(\"hi\"); }").unwrap();
    assert_eq!(p.stmts.len(), 1);
    match &p.stmts[0] {
        Stmt::Func(Func { ident, stmts }) => {
            assert_eq!(ident, "main");
            assert_eq!(stmts.len(), 1);
            match &stmts[0] {
                Stmt::Expr(Expr::Call(Call { ident, args })) => {
                    assert_eq!(ident, "print");
                    assert_eq!(args.len(), 1);
                    match &args[0] {
                        Expr::StringLiteral(s) => assert_eq!(s, "hi"),
                        other => panic!("expected string literal, got {:?}", other),
                    }
                }
                other => panic!("expected call statement, got {:?}", other),
            }
        }
        other => panic!("expected function, got {:?}", other),
    }
}

#[test]
fn decl_missing_ident_is_unrecognized_token() {
    match parse("let = \"x\";") {
        Err(ParseFailure::UnrecognizedToken { offset, found, expected }) => {
            assert_eq!(offset, 4);
            assert_eq!(found, "=");
            assert_eq!(expected, vec!["IDENT".to_string()]);
        }
        other => panic!("expected unrecognized token, got {:?}", other),
    }
}

#[test]
fn empty_input_is_empty_program() {
    let p = parse("").unwrap();
    assert_eq!(p.stmts.len(), 0);
}

#[test]
fn truncated_decl_is_unexpected_end_of_input() {
    match parse("let") {
        Err(ParseFailure::UnexpectedEndOfInput { offset, expected }) => {
            assert_eq!(offset, 3);
            assert_eq!(expected, vec!["IDENT".to_string()]);
        }
        other => panic!("expected end-of-input failure, got {:?}", other),
    }
}

#[test]
fn truncated_func_body_is_unexpected_end_of_input() {
    match parse("fn main {") {
        Err(ParseFailure::UnexpectedEndOfInput { offset, expected }) => {
            assert_eq!(offset, 9);
            assert_eq!(
                expected,
                vec![
                    "\"fn\"".to_string(),
                    "\"let\"".to_string(),
                    "IDENT".to_string(),
                    "STRING".to_string(),
                    "\"}\"".to_string(),
                ]
            );
        }
        other => panic!("expected end-of-input failure, got {:?}", other),
    }
}

#[test]
fn invalid_character_is_invalid_token() {
    match parse("$") {
        Err(ParseFailure::InvalidToken { offset }) => assert_eq!(offset, 0),
        other => panic!("expected invalid token, got {:?}", other),
    }
}

#[test]
fn tab_prefixed_invalid_character_offset() {
    match parse("\tlet $x = 1;") {
        Err(ParseFailure::InvalidToken { offset }) => assert_eq!(offset, 5),
        other => panic!("expected invalid token, got {:?}", other),
    }
}

#[test]
fn unterminated_string_is_invalid_token() {
    match parse("\"abc") {
        Err(ParseFailure::InvalidToken { offset }) => assert_eq!(offset, 0),
        other => panic!("expected invalid token, got {:?}", other),
    }
}

#[test]
fn trailing_brace_is_extra_token() {
    match parse("fn main { } }") {
        Err(ParseFailure::ExtraToken { offset, found }) => {
            assert_eq!(offset, 12);
            assert_eq!(found, "}");
        }
        other => panic!("expected extra token, got {:?}", other),
    }
}

#[test]
fn call_with_several_arguments_keeps_order() {
    let p = parse("f(a, \"b\", c);").unwrap();
    match &p.stmts[0] {
        Stmt::Expr(Expr::Call(Call { ident, args })) => {
            assert_eq!(ident, "f");
            assert_eq!(args.len(), 3);
            match (&args[0], &args[1], &args[2]) {
                (
                    Expr::IdentifierRef(a),
                    Expr::StringLiteral(b),
                    Expr::IdentifierRef(c),
                ) => {
                    assert_eq!(a, "a");
                    assert_eq!(b, "b");
                    assert_eq!(c, "c");
                }
                other => panic!("unexpected argument shapes: {:?}", other),
            }
        }
        other => panic!("expected call statement, got {:?}", other),
    }
}

#[test]
fn other_type_tag_is_accepted() {
    let p = parse("let a: Bunny = b;").unwrap();
    match &p.stmts[0] {
        Stmt::Decl(Decl { ident, ty, expr }) => {
            assert_eq!(ident, "a");
            assert_eq!(*ty, Ty::OtherType);
            match expr {
                Expr::IdentifierRef(n) => assert_eq!(n, "b"),
                other => panic!("expected identifier reference, got {:?}", other),
            }
        }
        other => panic!("expected declaration, got {:?}", other),
    }
}

#[test]
fn missing_semicolon_is_unrecognized_token() {
    match parse("x() y();") {
        Err(ParseFailure::UnrecognizedToken { offset, found, expected }) => {
            assert_eq!(offset, 4);
            assert_eq!(found, "y");
            assert_eq!(expected, vec!["\";\"".to_string()]);
        }
        other => panic!("expected unrecognized token, got {:?}", other),
    }
}
