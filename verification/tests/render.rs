use qlang::colors;
use qlang::error::{CompileError, CompileErrorBuilder, ErrorCodes};
use qlang::parser::parse;
use qlang::render::{format_errs, render, render_styled};
use qlang::span::{Position, Slice};

fn diagnostic(line: usize, column: usize, start: usize, end: usize) -> CompileError {
    CompileErrorBuilder::init(ErrorCodes::UnexpectedToken)
        .at(Position { line, column })
        .span(Slice { start, end })
        .build()
}

#[test]
fn renders_header_line_and_underline() {
    let source = "const x = 5a;";
    let (_, errors) = parse(source);
    assert_eq!(
        render(source, &errors[0]),
        "error: Invalid number [E1005]\n\
         1 | const x = 5a;\n\
         \x20             ^^\n\
         hint: number literals can't have alphabetical characters in them!\n"
    );
}

#[test]
fn rendering_twice_gives_the_same_text() {
    let source = "import {a} from \"x\";\nconst y = ;";
    let (_, errors) = parse(source);
    assert_eq!(errors.len(), 2);
    for e in &errors {
        assert_eq!(render(source, e), render(source, e));
        assert_eq!(render(source, e).into_bytes(), render(source, e).into_bytes());
    }
}

#[test]
fn renders_the_line_of_the_diagnostic() {
    let source = "first\nsecond line\nthird";
    let d = diagnostic(1, 7, 13, 17);
    assert_eq!(
        render(source, &d),
        "error: Unexpected token [E1001]\n2 | second line\n           ^^^^\n"
    );
    let d = diagnostic(2, 0, 18, 23);
    assert_eq!(render(source, &d), "error: Unexpected token [E1001]\n3 | third\n    ^^^^^\n");
}

#[test]
fn hints_come_before_notes() {
    let d = CompileErrorBuilder::new()
        .code(7)
        .message("m".to_string())
        .note("n1")
        .hint("h1")
        .note("n2")
        .hint("h2")
        .build();
    assert_eq!(
        render("x", &d),
        "error: m [E7]\n1 | x\n    ^\nhint: h1\nhint: h2\nnote: n1\nnote: n2\n"
    );
}

#[test]
fn an_empty_span_gets_one_caret() {
    let d = diagnostic(0, 2, 2, 2);
    assert_eq!(render("abcdef", &d), "error: Unexpected token [E1001]\n1 | abcdef\n      ^\n");
    let reversed = diagnostic(0, 2, 5, 2);
    assert_eq!(
        render("abcdef", &reversed),
        "error: Unexpected token [E1001]\n1 | abcdef\n      ^\n"
    );
}

#[test]
fn a_position_past_the_last_line_points_at_its_end() {
    let source = "const x = 1;\nconst";
    let (_, errors) = parse(source);
    assert_eq!(
        render(source, &errors[0]),
        "error: Unexpected end of input [E1002]\n2 | const\n         ^\n"
    );
    let far = diagnostic(50, 3, 0, 0);
    assert_eq!(
        render("ab\ncdef\n", &far),
        "error: Unexpected token [E1001]\n2 | cdef\n        ^\n"
    );
    assert_eq!(render("", &far), "error: Unexpected token [E1001]\n1 | \n    ^\n");
}

#[test]
fn a_column_past_the_line_is_clamped() {
    let d = diagnostic(0, 500, 0, 1);
    assert_eq!(render("abc\ndef", &d), "error: Unexpected token [E1001]\n1 | abc\n       ^\n");
    let huge = diagnostic(usize::MAX, usize::MAX, usize::MAX, 0);
    assert_eq!(render("abc", &huge), "error: Unexpected token [E1001]\n1 | abc\n       ^\n");
}

#[test]
fn carriage_returns_are_not_part_of_the_line() {
    let d = diagnostic(1, 1, 6, 7);
    assert_eq!(
        render("ab\r\ncd\r\nef", &d),
        "error: Unexpected token [E1001]\n2 | cd\n     ^\n"
    );
}

#[test]
fn lines_with_wide_characters() {
    let source = "const s = \"\u{e9}\u{20ac}\" 5a;";
    let (_, errors) = parse(source);
    assert_eq!(errors[0].at, Position { line: 0, column: 15 });
    assert_eq!(
        render(source, &errors[0]),
        "error: Invalid number [E1005]\n\
         1 | const s = \"\u{e9}\u{20ac}\" 5a;\n\
         \x20                  ^^\n\
         hint: number literals can't have alphabetical characters in them!\n"
    );
}

#[test]
fn line_numbers_with_several_digits() {
    let mut source = String::new();
    for _ in 0..11 {
        source.push_str("x\n");
    }
    source.push_str("  oops");
    let d = diagnostic(11, 2, 24, 28);
    assert_eq!(
        render(&source, &d),
        "error: Unexpected token [E1001]\n12 |   oops\n       ^^^^\n"
    );
}

#[test]
fn prepare_line_picks_line_and_indent() {
    let source = "ab\ncdef\n";
    assert_eq!(
        diagnostic(1, 2, 0, 0).prepare_line(source),
        ("cdef", Position { line: 1, column: 2 })
    );
    assert_eq!(
        diagnostic(9, 0, 0, 0).prepare_line(source),
        ("cdef", Position { line: 1, column: 4 })
    );
    assert_eq!(
        diagnostic(0, 9, 0, 0).prepare_line(source),
        ("ab", Position { line: 0, column: 2 })
    );
}

#[test]
fn fmt_at_counts_from_one() {
    let d = diagnostic(0, 10, 0, 0);
    assert_eq!(d.fmt_at(None), "1:11");
    assert_eq!(d.fmt_at(Some(Position { line: 41, column: 0 })), "42:1");
    assert_eq!(d.line(), 0);
    assert_eq!(d.column(), 10);
}

#[test]
fn colours_wrap_text_in_escape_sequences() {
    assert_eq!(colors::error("bad".to_string()), "\x1b[1;31mbad\x1b[0m");
    assert_eq!(colors::number(1234), "\x1b[33m1234\x1b[0m");
    assert_eq!(colors::number(0), "\x1b[33m0\x1b[0m");
    assert_eq!(colors::dim("["), "\x1b[2m[\x1b[0m");
}

#[test]
fn styled_rendering_paints_the_parts() {
    let source = "const x = 5a;";
    let (_, errors) = parse(source);
    assert_eq!(
        render_styled(source, &errors[0]),
        "\x1b[1;31merror\x1b[0m: Invalid number [E\x1b[33m1005\x1b[0m]\n\
         \x1b[33m1\x1b[0m\x1b[2m | \x1b[0mconst x = 5a;\n\
         \x20             \x1b[1;31m^^\x1b[0m\n\
         \x1b[2mhint:\x1b[0m number literals can't have alphabetical characters in them!\n"
    );
}

#[test]
fn format_errs_renders_all_in_order() {
    let source = "const = 1;\nimport * from 5;";
    let (_, errors) = parse(source);
    assert_eq!(errors.len(), 2);
    let all = format_errs(source, &errors);
    let first = render_styled(source, &errors[0]);
    let second = render_styled(source, &errors[1]);
    assert_eq!(all, format!("{}{}", first, second));
    assert_eq!(format_errs(source, &Vec::new()), "");
}
