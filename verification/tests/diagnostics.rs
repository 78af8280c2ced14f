use plushie::{parse, render_failure, Error};

#[test]
fn unrecognized_token_renders_with_caret() {
    let source = "let = \"x\";";
    let failure = parse(source).unwrap_err();
    let text = render_failure(source, &failure, "main.plush");
    assert_eq!(
        text,
        "Unexpected token '='. Expected one of: IDENT\n\
         > main.plush:1:5\n\
         |\n\
         | let = \"x\";\n\
         |     ^"
    );
}

#[test]
fn tab_counts_eight_columns() {
    // The tab alone stands before the invalid character: 8 columns for the
    // tab, plus 1 for 1-indexing.
    let source = "\t$x = 1;";
    let failure = parse(source).unwrap_err();
    let text = render_failure(source, &failure, "f");
    assert!(text.contains("> f:1:9\n"), "got: {}", text);
}

#[test]
fn tab_and_word_before_error() {
    // Tab (8) plus "let " (4) before the invalid character: column 13.
    let source = "\tlet $x = 1;";
    let failure = parse(source).unwrap_err();
    let text = render_failure(source, &failure, "f");
    assert!(text.contains("> f:1:13\n"), "got: {}", text);
}

#[test]
fn tab_widens_by_eight_not_one() {
    let plain = parse("$").unwrap_err();
    let tabbed = parse("\t$").unwrap_err();
    let plain_text = render_failure("$", &plain, "f");
    let tabbed_text = render_failure("\t$", &tabbed, "f");
    assert!(plain_text.contains("> f:1:1\n"), "got: {}", plain_text);
    assert!(tabbed_text.contains("> f:1:9\n"), "got: {}", tabbed_text);
}

#[test]
fn wide_character_counts_two_columns() {
    // The string literal before the error holds a double-width character:
    // quote (1) + wide char (2) + quote (1) + space (1) = 5, so column 6.
    let source = "\"\u{4e16}\" $;";
    let failure = parse(source).unwrap_err();
    let text = render_failure(source, &failure, "f");
    assert!(text.contains("> f:1:6\n"), "got: {}", text);
}

#[test]
fn wide_character_in_error_new() {
    // Byte offset 3 points past one three-byte, double-width character.
    let e = Error::new("f", String::from("m"), "\u{4e16}$", 3);
    assert_eq!(e.snippet.line, 1);
    assert_eq!(e.snippet.column, 3);
    let plain = Error::new("f", String::from("m"), "$", 0);
    assert_eq!(plain.snippet.column, 1);
}

#[test]
fn line_and_snippet_found_across_lines() {
    let source = "fn main {\nlet = \"x\";\n}\n";
    let failure = parse(source).unwrap_err();
    let text = render_failure(source, &failure, "multi.plush");
    assert_eq!(
        text,
        "Unexpected token '='. Expected one of: IDENT\n\
         > multi.plush:2:5\n\
         |\n\
         | let = \"x\";\n\
         |     ^"
    );
}

#[test]
fn line_numbers_reach_double_digits() {
    let source = "\n\n\n\n\n\n\n\n\n\n\n$";
    let failure = parse(source).unwrap_err();
    let text = render_failure(source, &failure, "long.plush");
    assert!(text.contains("> long.plush:12:1\n"), "got: {}", text);
}

#[test]
fn end_of_input_failure_renders_expected_set() {
    let source = "let x: Ribbon =";
    let failure = parse(source).unwrap_err();
    let text = render_failure(source, &failure, "f");
    assert_eq!(
        text,
        "Unexpected end of file. Expected one of: IDENT, STRING\n\
         > f:1:16\n\
         |\n\
         | let x: Ribbon =\n\
         |                ^"
    );
}

#[test]
fn extra_token_renders_its_lexeme() {
    let source = "fn main { } }";
    let failure = parse(source).unwrap_err();
    let text = render_failure(source, &failure, "f");
    assert!(text.starts_with("Extra token '}' found\n"), "got: {}", text);
}

#[test]
fn error_new_positions() {
    let e = Error::new("file", String::from("msg"), "ab\ncde", 4);
    assert_eq!(e.message, "msg");
    assert_eq!(e.file_name, "file");
    assert_eq!(e.snippet.line, 2);
    assert_eq!(e.snippet.column, 2);
    assert_eq!(e.snippet.source, "cde");
}

#[test]
fn error_unknown_fields() {
    let e = Error::unknown();
    assert_eq!(e.message, "Unknown parsing error");
    assert_eq!(e.file_name, "unknown");
    assert_eq!(e.snippet.line, 0);
    assert_eq!(e.snippet.column, 0);
    assert_eq!(e.snippet.source, "");
}
