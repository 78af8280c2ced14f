use plushie::{compile, lower, parse, render, CompileError, LoweringError, ModuleKind};

#[test]
fn decl_lowers_to_let_binding() {
    let out = compile("let greeting: Ribbon = \"hi\";", ModuleKind::EsModule).unwrap();
    assert_eq!(out, "let greeting = \"hi\";\n");
}

#[test]
fn func_lowers_to_function_declaration() {
    let out = compile("fn main { print(\"hi\"); }", ModuleKind::EsModule).unwrap();
    assert_eq!(out, "function main() {\nprint(\"hi\");\n}\n");
}

#[test]
fn identifier_reference_lowers_to_identifier() {
    let out = compile("let a: Bunny = b;", ModuleKind::EsModule).unwrap();
    assert_eq!(out, "let a = b;\n");
}

#[test]
fn expression_statement_lowers_to_expression_statement() {
    let out = compile("f(a, \"b\", c);", ModuleKind::EsModule).unwrap();
    assert_eq!(out, "f(a, \"b\", c);\n");
}

#[test]
fn zero_argument_call() {
    let out = compile("f();", ModuleKind::EsModule).unwrap();
    assert_eq!(out, "f();\n");
}

#[test]
fn statement_order_is_preserved() {
    let out = compile("a();\nb();\nlet c: Ribbon = \"d\";", ModuleKind::EsModule).unwrap();
    assert_eq!(out, "a();\nb();\nlet c = \"d\";\n");
}

#[test]
fn compile_is_deterministic() {
    let source = "fn main { print(\"hi\"); }\nlet x: Ribbon = \"y\";\nmain();";
    let first = compile(source, ModuleKind::EsModule).unwrap();
    let second = compile(source, ModuleKind::EsModule).unwrap();
    assert_eq!(first, second);
}

#[test]
fn module_kind_selects_only_the_wrapper() {
    let source = "fn main { print(\"hi\"); }";
    let es = compile(source, ModuleKind::EsModule).unwrap();
    let cjs = compile(source, ModuleKind::CommonJs).unwrap();
    assert_eq!(cjs, format!("\"use strict\";\n{}", es));
}

#[test]
fn nested_function_is_unsupported() {
    match compile("fn a { fn b { } }", ModuleKind::EsModule) {
        Err(CompileError::Lowering(LoweringError::UnsupportedConstruct { construct_names })) => {
            assert_eq!(construct_names, vec!["nested function declaration".to_string()]);
        }
        other => panic!("expected lowering failure, got {:?}", other),
    }
}

#[test]
fn single_unsupported_construct_named_alone() {
    // Supported siblings around the one nested function produce no entries.
    let source = "x();\nfn a { y(); fn b { } z(); }\nlet w: Ribbon = \"v\";";
    let p = parse(source).unwrap();
    match lower(&p, ModuleKind::CommonJs) {
        Err(LoweringError::UnsupportedConstruct { construct_names }) => {
            assert_eq!(construct_names, vec!["nested function declaration".to_string()]);
        }
        other => panic!("expected lowering failure, got {:?}", other),
    }
}

#[test]
fn every_nested_function_is_collected() {
    let source = "fn a { fn b { } fn c { } }";
    let p = parse(source).unwrap();
    match lower(&p, ModuleKind::EsModule) {
        Err(LoweringError::UnsupportedConstruct { construct_names }) => {
            assert_eq!(
                construct_names,
                vec![
                    "nested function declaration".to_string(),
                    "nested function declaration".to_string(),
                ]
            );
        }
        other => panic!("expected lowering failure, got {:?}", other),
    }
}

#[test]
fn lower_then_render_matches_compile() {
    let source = "fn main { greet(\"world\"); }";
    let p = parse(source).unwrap();
    let t = lower(&p, ModuleKind::EsModule).unwrap();
    let out = render(&t);
    assert_eq!(out, compile(source, ModuleKind::EsModule).unwrap());
}

#[test]
fn empty_program_renders_empty_text() {
    let out = compile("", ModuleKind::EsModule).unwrap();
    assert_eq!(out, "");
    let cjs = compile("", ModuleKind::CommonJs).unwrap();
    assert_eq!(cjs, "\"use strict\";\n");
}
