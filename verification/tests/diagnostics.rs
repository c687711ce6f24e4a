use qlang::error::{CompileError, CompileErrorBuilder, ErrorCodes, Errors};
use qlang::render::render;
use qlang::span::{Position, Slice};
use qlang::tokens::Tokens;

#[test]
fn codes_are_stable() {
    assert_eq!(ErrorCodes::UnknownError.code(), 1000);
    assert_eq!(ErrorCodes::UnexpectedToken.code(), 1001);
    assert_eq!(ErrorCodes::UnexpectedEOF.code(), 1002);
    assert_eq!(ErrorCodes::ImportMissingLibrary.code(), 1003);
    assert_eq!(ErrorCodes::ImportMalformedMemberList.code(), 1004);
    assert_eq!(ErrorCodes::InvalidNumberLiteral.code(), 1005);
    assert_eq!(ErrorCodes::ExpectedSemicolon.code(), 1006);
    assert_eq!(ErrorCodes::UnimplementedFeature.code(), 1007);
}

#[test]
fn messages_and_resolve() {
    assert_eq!(ErrorCodes::UnknownError.message(), "Unknown error");
    assert_eq!(ErrorCodes::UnexpectedToken.message(), "Unexpected token");
    assert_eq!(ErrorCodes::UnexpectedEOF.message(), "Unexpected end of file");
    for kind in [
        ErrorCodes::UnknownError,
        ErrorCodes::UnexpectedToken,
        ErrorCodes::UnexpectedEOF,
        ErrorCodes::ImportMissingLibrary,
        ErrorCodes::ImportMalformedMemberList,
        ErrorCodes::InvalidNumberLiteral,
        ErrorCodes::ExpectedSemicolon,
        ErrorCodes::UnimplementedFeature,
    ] {
        assert!(!kind.message().is_empty());
        assert_eq!(kind.resolve(), (kind.code(), kind.message()));
    }
    assert_eq!(
        ErrorCodes::UnexpectedEOF.resolve(),
        (1002, "Unexpected end of file".to_string())
    );
    assert_eq!(
        ErrorCodes::ExpectedSemicolon.resolve(),
        (1006, "Expected semicolon".to_string())
    );
}

#[test]
fn a_new_builder_is_blank() {
    let e = CompileErrorBuilder::new().build();
    assert_eq!(e.code, 0);
    assert_eq!(e.message, "");
    assert_eq!(e.at, Position { line: 0, column: 0 });
    assert_eq!(e.span, Slice { start: 0, end: 0 });
    assert!(e.hints.is_empty());
    assert!(e.notes.is_empty());
}

#[test]
fn builder_sets_each_part() {
    let e = CompileErrorBuilder::new()
        .code(42)
        .message("broken".to_string())
        .at(Position { line: 3, column: 4 })
        .span(Slice { start: 30, end: 35 })
        .hint("first hint")
        .note("a note")
        .hint("second hint")
        .build();
    assert_eq!(e.code, 42);
    assert_eq!(e.code(), 42);
    assert_eq!(e.message, "broken");
    assert_eq!(e.message(), "broken");
    assert_eq!(e.at, Position { line: 3, column: 4 });
    assert_eq!(e.span(), Slice { start: 30, end: 35 });
    assert_eq!(e.hints, vec!["first hint", "second hint"]);
    assert_eq!(e.notes, vec!["a note"]);
}

#[test]
fn builder_from_a_template() {
    let e = CompileErrorBuilder::init(ErrorCodes::UnexpectedEOF).build();
    assert_eq!(e.code, 1002);
    assert_eq!(e.message, "Unexpected end of file");
    let e = CompileErrorBuilder::new()
        .hint("kept")
        .from(ErrorCodes::UnexpectedToken)
        .build();
    assert_eq!(e.code, 1001);
    assert_eq!(e.message, "Unexpected token");
    assert_eq!(e.hints, vec!["kept"]);
}

#[test]
fn set_pos_and_set_span() {
    let mut e = CompileErrorBuilder::init(ErrorCodes::UnknownError).hint("h").build();
    e.set_pos(Position { line: 9, column: 8 });
    e.set_span(Slice { start: 1, end: 2 });
    assert_eq!(e.line(), 9);
    assert_eq!(e.column(), 8);
    assert_eq!(e.span, Slice { start: 1, end: 2 });
    assert_eq!(e.code, 1000);
    assert_eq!(e.hints, vec!["h"]);
}

#[test]
fn templates() {
    let e = Errors::import_no_lib(1, 2);
    assert_eq!((e.code, e.at), (1003, Position { line: 1, column: 2 }));
    assert_eq!(e.hints, vec!["did you forget to add a library?"]);

    let e = Errors::unexpected_token("a value", Tokens::Comma, 0, 5);
    assert_eq!(e.code, 1001);
    assert_eq!(e.message, "Unexpected token");
    assert_eq!(e.hints, vec!["expected a value, got `,`"]);

    let e = Errors::expected_semicolon(Tokens::Integer(3), 0, 0);
    assert_eq!(e.code, 1006);
    assert_eq!(e.hints, vec!["expected semicolon, got an integer"]);

    let e = Errors::unexpected_end_of_input(4, 0);
    assert_eq!((e.code, e.at.line), (1002, 4));
    assert_eq!(e.message, "Unexpected end of input");
    assert!(e.hints.is_empty());

    let e = Errors::import_keyword(0, 0);
    assert_eq!(e.code, 1001);
    assert_eq!(e.message, "Unknown keyword");
    assert_eq!(
        e.hints,
        vec!["imports in Qlang work strangely, see the documentation for more info"]
    );

    let e = Errors::invalid_number(0, 10, Slice { start: 10, end: 12 });
    assert_eq!(e.code, 1005);
    assert_eq!(e.message, "Invalid number");

    let e = Errors::unimplemented_feature(0, 0);
    assert_eq!(e.code, 1007);
    assert_eq!(e.message, "Unimplemented feature");
    assert_eq!(
        e.hints,
        vec![
            "this feature is not yet implemented in Qlang, it may be added or removed in a \
             future version"
        ]
    );

    let e = Errors::curly_bracket_import(0, 7);
    assert_eq!(e.code, 1004);
    assert_eq!(e.hints, vec!["import statements use parentheses"]);

    let e = Errors::import_member_list("`,` or `)`", Tokens::Star, 0, 0);
    assert_eq!(e.code, 1004);
    assert_eq!(e.hints, vec!["expected `,` or `)`, got `*`"]);
}

#[test]
fn slices() {
    let s = Slice { start: 3, end: 9 };
    assert_eq!(s.trim(), Slice { start: 4, end: 8 });
    assert_eq!(s.len(), 6);
    assert_eq!(Slice { start: 9, end: 3 }.len(), 0);
    assert_eq!(Slice::from(2..5), Slice { start: 2, end: 5 });
}

#[test]
fn a_diagnostic_from_its_parts() {
    let e = CompileError::new(
        "broken".to_string(),
        Slice { start: 4, end: 6 },
        vec!["one".to_string(), "two".to_string()],
        1001,
        Position { line: 2, column: 3 },
    );
    assert_eq!(e.code(), 1001);
    assert_eq!(e.message(), "broken");
    assert_eq!(e.span(), Slice { start: 4, end: 6 });
    assert_eq!((e.line(), e.column()), (2, 3));
    assert_eq!(e.hints(), vec!["one", "two"]);
    assert!(e.notes().is_empty());
    let noted = CompileErrorBuilder::new().note("n").build();
    assert_eq!(noted.notes(), vec!["n"]);
    assert!(noted.hints().is_empty());
}

#[test]
fn the_error_of_the_library_is_the_diagnostic() {
    let e = qlang::error::Error::new(
        "m".to_string(),
        Slice { start: 0, end: 1 },
        Vec::new(),
        3,
        Position { line: 0, column: 0 },
    );
    assert_eq!((e.code(), e.message(), e.line(), e.column()), (3, "m".to_string(), 0, 0));
    assert!(e.hints().is_empty());
}

#[test]
fn an_invalid_number_is_underlined_over_its_width() {
    let source = "const x = 5a;";
    let e = Errors::invalid_number(0, 10, Slice { start: 10, end: 12 });
    assert_eq!(e.code, ErrorCodes::InvalidNumberLiteral.code());
    assert_eq!(e.at, Position { line: 0, column: 10 });
    assert_eq!(e.at.column + 1, 11);
    assert_eq!(e.span, Slice { start: 10, end: 12 });
    assert_eq!(e.span.len(), 2);
    assert_eq!(
        e.hints,
        vec!["number literals can't have alphabetical characters in them!"]
    );
    assert_eq!(
        render(source, &e),
        "error: Invalid number [E1005]\n\
         1 | const x = 5a;\n\
         \x20             ^^\n\
         hint: number literals can't have alphabetical characters in them!\n"
    );
    let (_, errors) = qlang::parser::parse(source);
    assert_eq!(errors.len(), 1);
    assert_eq!(render(source, &errors[0]), render(source, &e));

    let other = Errors::invalid_number(3, 7, Slice { start: 40, end: 45 });
    assert_eq!(other.at, Position { line: 3, column: 7 });
    assert_eq!(other.span, Slice { start: 40, end: 45 });
}
