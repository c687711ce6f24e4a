use qlang::ast::{ImportMember, Node, NodeType, Operator, TopLevel};
use qlang::error::{CompileError, ErrorCodes};
use qlang::grammar::Expected;
use qlang::parser::{diagnose, parse, Parse, Parser};
use qlang::span::{Position, Slice};
use qlang::tokens::{Token, Tokens};

fn text<'a>(source: &'a str, s: Slice) -> &'a str {
    &source[s.start..s.end]
}

fn span_of(source: &str, word: &str) -> Slice {
    let start = source.find(word).unwrap();
    Slice { start, end: start + word.len() }
}

fn codes(errors: &Vec<CompileError>) -> Vec<u32> {
    errors.iter().map(|e| e.code).collect()
}

#[test]
fn wildcard_import_round_trip() {
    let source = "import * from \"std\";";
    let (program, errors) = parse(source);
    assert!(errors.is_empty());
    assert_eq!(
        program,
        TopLevel {
            imports: vec![Node::Import {
                path: Slice { start: 15, end: 18 },
                members: ImportMember::Wildcard,
            }],
            consts: vec![],
            functions: vec![],
        }
    );
    match &program.imports[0] {
        Node::Import { path, .. } => assert_eq!(text(source, *path), "std"),
        _ => unreachable!(),
    }
}

#[test]
fn named_import() {
    let source = "import (a, b) from \"lib\";";
    let (program, errors) = parse(source);
    assert!(errors.is_empty());
    assert_eq!(
        program.imports,
        vec![Node::Import {
            path: span_of(source, "lib"),
            members: ImportMember::Named(vec![
                Slice { start: 8, end: 9 },
                Slice { start: 11, end: 12 },
            ]),
        }]
    );
}

#[test]
fn whole_module_import() {
    let source = "import io from \"std/io\";";
    let (program, errors) = parse(source);
    assert!(errors.is_empty());
    assert_eq!(
        program.imports,
        vec![Node::Import {
            path: span_of(source, "std/io"),
            members: ImportMember::All(Slice { start: 7, end: 9 }),
        }]
    );
}

#[test]
fn import_lists_may_be_empty_or_end_with_a_comma() {
    let (program, errors) = parse("import () from \"a\"; import (x,) from \"b\";");
    assert!(errors.is_empty());
    assert_eq!(program.imports.len(), 2);
    match &program.imports[0] {
        Node::Import { members, .. } => assert_eq!(*members, ImportMember::Named(vec![])),
        _ => unreachable!(),
    }
    match &program.imports[1] {
        Node::Import { members, .. } => {
            assert_eq!(*members, ImportMember::Named(vec![Slice { start: 28, end: 29 }]))
        }
        _ => unreachable!(),
    }
}

#[test]
fn const_literal() {
    let source = "const x = 5;";
    let (program, errors) = parse(source);
    assert!(errors.is_empty());
    assert_eq!(
        program,
        TopLevel {
            imports: vec![],
            consts: vec![Node::ConstDeclaration {
                name: Slice { start: 6, end: 7 },
                value: Box::new(Node::Integer(5)),
            }],
            functions: vec![],
        }
    );
}

#[test]
fn const_values_of_every_kind() {
    let source = "const a = \"s\"; const b = 'c'; const c = 1.5; const d = :atom; \
                  const e = true; const f = null; const g = undefined; const h = other;";
    let (program, errors) = parse(source);
    assert!(errors.is_empty());
    let values: Vec<&Node> = program
        .consts
        .iter()
        .map(|n| match n {
            Node::ConstDeclaration { value, .. } => &**value,
            _ => unreachable!(),
        })
        .collect();
    assert_eq!(*values[0], Node::String(Slice { start: 11, end: 12 }));
    assert_eq!(*values[1], Node::Char('c'));
    assert_eq!(*values[2], Node::Float(span_of(source, "1.5")));
    assert_eq!(*values[3], Node::Atom(span_of(source, ":atom")));
    assert_eq!(*values[4], Node::Boolean(true));
    assert_eq!(*values[5], Node::Null);
    assert_eq!(*values[6], Node::Undefined);
    assert_eq!(*values[7], Node::Identifier(span_of(source, "other")));
}

#[test]
fn binary_expression_has_one_operator() {
    let source = "const sum = a + 2;";
    let (program, errors) = parse(source);
    assert!(errors.is_empty());
    assert_eq!(
        program.consts,
        vec![Node::ConstDeclaration {
            name: span_of(source, "sum"),
            value: Box::new(Node::BinaryExpr {
                left: Box::new(Node::Identifier(Slice { start: 12, end: 13 })),
                op: Operator::Add,
                right: Box::new(Node::Integer(2)),
            }),
        }]
    );

    let (program, errors) = parse("const x = 1 + 2 + 3;");
    assert!(program.consts.is_empty());
    assert_eq!(codes(&errors), vec![ErrorCodes::ExpectedSemicolon.code()]);
    assert_eq!(errors[0].at, Position { line: 0, column: 16 });
}

#[test]
fn every_operator_is_resolved() {
    let cases = [
        ("+", Operator::Add),
        ("-", Operator::Sub),
        ("*", Operator::Mul),
        ("/", Operator::Div),
        ("%", Operator::Mod),
        ("^", Operator::Pow),
        ("==", Operator::Eq),
        ("!=", Operator::Ne),
        ("<", Operator::Lt),
        ("<=", Operator::Le),
        (">", Operator::Gt),
        (">=", Operator::Ge),
    ];
    // `=` is no operator: no token denotes `Assign`
    let (_, errors) = parse("const x = 1 = 2;");
    assert_eq!(codes(&errors), vec![ErrorCodes::ExpectedSemicolon.code()]);
    assert!(Operator::Assign != Operator::Eq);
    for (text, op) in cases {
        let source = format!("const x = 1 {} 2;", text);
        let (program, errors) = parse(&source);
        assert!(errors.is_empty());
        match &program.consts[0] {
            Node::ConstDeclaration { value, .. } => match &**value {
                Node::BinaryExpr { op: found, .. } => assert_eq!(*found, op),
                _ => unreachable!(),
            },
            _ => unreachable!(),
        }
    }
}

#[test]
fn invalid_number_is_diagnosed() {
    let source = "const x = 5a;";
    let (program, errors) = parse(source);
    assert!(program.consts.is_empty());
    assert_eq!(errors.len(), 1);
    let e = &errors[0];
    assert_eq!(e.code, ErrorCodes::InvalidNumberLiteral.code());
    assert_eq!(e.message, "Invalid number");
    assert_eq!(e.at, Position { line: 0, column: 10 });
    assert_eq!(e.at.column + 1, 11);
    assert_eq!(e.span, Slice { start: 10, end: 12 });
    assert_eq!(
        e.hints,
        vec!["number literals can't have alphabetical characters in them!".to_string()]
    );
}

#[test]
fn parsing_continues_after_an_invalid_number() {
    let source = "const x = 5a; const y = 6;";
    let (program, errors) = parse(source);
    assert_eq!(errors.len(), 1);
    assert_eq!(
        program.consts,
        vec![Node::ConstDeclaration {
            name: Slice { start: 20, end: 21 },
            value: Box::new(Node::Integer(6)),
        }]
    );
}

#[test]
fn two_malformed_statements_give_two_diagnostics() {
    let source = "import from \"a\"; const = 5;";
    let (program, errors) = parse(source);
    assert!(program.imports.is_empty());
    assert!(program.consts.is_empty());
    assert_eq!(errors.len(), 2);
    assert_eq!(
        codes(&errors),
        vec![ErrorCodes::UnexpectedToken.code(), ErrorCodes::UnexpectedToken.code()]
    );
    assert_eq!(errors[0].at, Position { line: 0, column: 7 });
    assert_eq!(errors[0].hints, vec!["expected an identifier, `*` or `(`, got `from`"]);
    assert_eq!(errors[1].at, Position { line: 0, column: 23 });
    assert_eq!(errors[1].hints, vec!["expected an identifier, got `=`"]);
}

#[test]
fn a_good_statement_between_two_bad_ones_is_kept() {
    let source = "const = 1;\nconst ok = 2;\nimport * \"x\";";
    let (program, errors) = parse(source);
    assert_eq!(errors.len(), 2);
    assert_eq!(program.consts.len(), 1);
    assert_eq!(errors[0].at.line, 0);
    assert_eq!(errors[1].at, Position { line: 2, column: 9 });
    assert_eq!(errors[1].message, "Unknown keyword");
}

#[test]
fn import_without_library() {
    let (_, errors) = parse("import * from ;");
    assert_eq!(codes(&errors), vec![ErrorCodes::ImportMissingLibrary.code()]);
    assert_eq!(errors[0].message, "Expected string literal after import keyword");
    assert_eq!(errors[0].hints, vec!["did you forget to add a library?"]);
    assert_eq!(errors[0].span, Slice { start: 14, end: 15 });
}

#[test]
fn import_with_the_wrong_bracket() {
    let (_, errors) = parse("import {a, b} from \"lib\";");
    assert_eq!(codes(&errors), vec![ErrorCodes::ImportMalformedMemberList.code()]);
    assert_eq!(errors[0].hints, vec!["import statements use parentheses"]);
    assert_eq!(errors[0].at, Position { line: 0, column: 7 });
    let (_, errors) = parse("import [a] from \"lib\";");
    assert_eq!(codes(&errors), vec![ErrorCodes::ImportMalformedMemberList.code()]);
}

#[test]
fn import_with_malformed_separators() {
    let (_, errors) = parse("import (a b) from \"lib\";");
    assert_eq!(codes(&errors), vec![ErrorCodes::ImportMalformedMemberList.code()]);
    assert_eq!(errors[0].hints, vec!["expected `,` or `)`, got an identifier"]);
    let (_, errors) = parse("import (, a) from \"lib\";");
    assert_eq!(codes(&errors), vec![ErrorCodes::ImportMalformedMemberList.code()]);
    assert_eq!(errors[0].hints, vec!["expected an identifier or `)`, got `,`"]);
}

#[test]
fn const_without_equals_or_value() {
    let (_, errors) = parse("const x 5;");
    assert_eq!(codes(&errors), vec![ErrorCodes::UnexpectedToken.code()]);
    assert_eq!(errors[0].hints, vec!["expected `=`, got an integer"]);
    assert_eq!(errors[0].span, Slice { start: 8, end: 9 });
    let (_, errors) = parse("const x = ;");
    assert_eq!(codes(&errors), vec![ErrorCodes::UnexpectedToken.code()]);
    assert_eq!(errors[0].hints, vec!["expected a value, got `;`"]);
    let (_, errors) = parse("const x = 1 + ;");
    assert_eq!(errors[0].hints, vec!["expected a value, got `;`"]);
    assert_eq!(errors[0].at, Position { line: 0, column: 14 });
}

#[test]
fn missing_semicolon() {
    let (program, errors) = parse("const x = 5 const y = 6;");
    assert!(program.consts.is_empty());
    assert_eq!(codes(&errors), vec![ErrorCodes::ExpectedSemicolon.code()]);
    assert_eq!(errors[0].hints, vec!["expected semicolon, got `const`"]);
    assert_eq!(errors[0].span, Slice { start: 12, end: 17 });
}

#[test]
fn unsupported_literals() {
    let (_, errors) = parse("const x = [1];");
    assert_eq!(codes(&errors), vec![ErrorCodes::UnimplementedFeature.code()]);
    let (_, errors) = parse("const x = {};");
    assert_eq!(codes(&errors), vec![ErrorCodes::UnimplementedFeature.code()]);
}

#[test]
fn end_of_input_stops_the_parse() {
    let source = "import (a, b";
    let (program, errors) = parse(source);
    assert!(program.imports.is_empty());
    assert_eq!(codes(&errors), vec![ErrorCodes::UnexpectedEOF.code()]);
    assert_eq!(errors[0].message, "Unexpected end of input");
    assert_eq!(errors[0].span, Slice { start: 12, end: 12 });
    assert_eq!(errors[0].at, Position { line: 0, column: 12 });

    let (_, errors) = parse("const x = 1;\nconst");
    assert_eq!(codes(&errors), vec![ErrorCodes::UnexpectedEOF.code()]);
    assert_eq!(errors[0].at, Position { line: 1, column: 5 });
}

#[test]
fn no_boundary_left_stops_the_parse() {
    let (program, errors) = parse("const = 1 const y = 2");
    assert!(program.consts.is_empty());
    assert_eq!(codes(&errors), vec![ErrorCodes::UnexpectedToken.code()]);
}

#[test]
fn unexpected_token_at_top_level() {
    let source = "x; const y = 1; ) ;";
    let (program, errors) = parse(source);
    assert_eq!(program.consts.len(), 1);
    assert_eq!(
        codes(&errors),
        vec![ErrorCodes::UnexpectedToken.code(), ErrorCodes::UnexpectedToken.code()]
    );
    assert_eq!(
        errors[0].hints,
        vec!["expected `import`, `const` or `fn`, got an identifier"]
    );
    assert_eq!(errors[1].hints, vec!["expected `import`, `const` or `fn`, got `)`"]);
}

#[test]
fn empty_statements_are_skipped() {
    let (program, errors) = parse(";;; const x = 1;;");
    assert!(errors.is_empty());
    assert_eq!(program.consts.len(), 1);
}

#[test]
fn function_declaration() {
    let source = "fn add(a: int, b: float) -> str { a + b; g(1, :ok); { 'c'; } ; }";
    let (program, errors) = parse(source);
    assert_eq!(errors.len(), 0, "{:?}", errors);
    assert!(program.imports.is_empty() && program.consts.is_empty());
    assert_eq!(
        program.functions,
        vec![Node::FunctionDeclaration {
            name: span_of(source, "add"),
            params: vec![
                (Slice { start: 7, end: 8 }, NodeType::Integer),
                (Slice { start: 15, end: 16 }, NodeType::Float),
            ],
            return_type: NodeType::String,
            body: Box::new(Node::Block(vec![
                Node::BinaryExpr {
                    left: Box::new(Node::Identifier(Slice { start: 34, end: 35 })),
                    op: Operator::Add,
                    right: Box::new(Node::Identifier(Slice { start: 38, end: 39 })),
                },
                Node::Call {
                    callee: Slice { start: 41, end: 42 },
                    args: vec![Node::Integer(1), Node::Atom(span_of(source, ":ok"))],
                },
                Node::Block(vec![Node::Char('c')]),
            ])),
        }]
    );
}

#[test]
fn nested_functions_and_calls() {
    let source = "fn outer() -> char { fn inner(x: str) -> int { f(g(x), h()); } }";
    let (program, errors) = parse(source);
    assert!(errors.is_empty(), "{:?}", errors);
    match &program.functions[0] {
        Node::FunctionDeclaration { params, return_type, body, .. } => {
            assert!(params.is_empty());
            assert_eq!(*return_type, NodeType::Char);
            match &**body {
                Node::Block(items) => match &items[0] {
                    Node::FunctionDeclaration { params, return_type, body, .. } => {
                        assert_eq!(
                            *params,
                            vec![(span_of(source, "x"), NodeType::String)]
                        );
                        assert_eq!(*return_type, NodeType::Integer);
                        match &**body {
                            Node::Block(items) => match &items[0] {
                                Node::Call { args, .. } => {
                                    assert_eq!(args.len(), 2);
                                    assert!(matches!(&args[0], Node::Call { args, .. } if args.len() == 1));
                                    assert!(matches!(&args[1], Node::Call { args, .. } if args.is_empty()));
                                }
                                _ => unreachable!(),
                            },
                            _ => unreachable!(),
                        }
                    }
                    _ => unreachable!(),
                },
                _ => unreachable!(),
            }
        }
        _ => unreachable!(),
    }
}

#[test]
fn function_errors() {
    let cases = [
        ("fn (a: int) -> int {}", "expected an identifier, got `(`"),
        ("fn f a: int) -> int {}", "expected `(`, got an identifier"),
        ("fn f(a int) -> int {}", "expected `:`, got an identifier"),
        ("fn f(a: bool) -> int {}", "expected a type, got an identifier"),
        ("fn f(a: int b: int) -> int {}", "expected `,` or `)`, got an identifier"),
        ("fn f(1) -> int {}", "expected an identifier or `)`, got an integer"),
        ("fn f() int {}", "expected `->`, got an identifier"),
        ("fn f() -> 5 {}", "expected a type, got an integer"),
        ("fn f() -> int ;", "expected `{`, got `;`"),
        ("fn f() -> int { ) }", "expected a statement or `}`, got `)`"),
        ("fn f() -> int { g(1 2); }", "expected `,` or `)`, got an integer"),
    ];
    for (source, hint) in cases {
        let (program, errors) = parse(source);
        assert!(program.functions.is_empty(), "{}", source);
        assert_eq!(errors.len(), 1, "{}", source);
        assert_eq!(errors[0].code, ErrorCodes::UnexpectedToken.code(), "{}", source);
        assert_eq!(errors[0].hints, vec![hint.to_string()], "{}", source);
    }
}

#[test]
fn recovery_skips_to_the_matching_brace() {
    let source = "fn f(a int) -> int { x; { y; } z; } const k = 1;";
    let (program, errors) = parse(source);
    assert_eq!(errors.len(), 1);
    assert!(program.functions.is_empty());
    assert_eq!(program.consts.len(), 1);

    let source = "fn f() -> int { x y; } const k = 1;";
    let (program, errors) = parse(source);
    assert_eq!(codes(&errors), vec![ErrorCodes::ExpectedSemicolon.code()]);
    assert_eq!(program.consts.len(), 1);
}

#[test]
fn parser_methods_take_an_index() {
    let source = "const x = f(1);";
    let parser = Parser::new(source);
    assert_eq!(parser.tokens.len(), 9);
    let (node, next) = parser.parse_value(3).unwrap();
    assert_eq!(
        node,
        Node::Call { callee: Slice { start: 10, end: 11 }, args: vec![Node::Integer(1)] }
    );
    assert_eq!(next, 7);
    let failure = parser.parse_value(2).unwrap_err();
    assert_eq!(failure.at, 2);
    assert_eq!(parser.recover(0, 2), Some(8));
    assert_eq!(parser.recover(8, 8), None);
    let e = parser.error(1, "custom");
    assert_eq!(e.code, 0);
    assert_eq!(e.message, "custom");
    assert_eq!(e.at, Position { line: 0, column: 6 });
    assert_eq!(e.span, Slice { start: 6, end: 7 });
}

#[test]
fn texts_parse_themselves() {
    let (program, errors) = Parse::parse("const x = 1; fn f() -> int {}");
    assert!(errors.is_empty());
    assert_eq!((program.consts.len(), program.functions.len()), (1, 1));
    let (program, errors) = Parse::parse("import a from 1;".to_string());
    assert!(program.imports.is_empty());
    assert_eq!(codes(&errors), vec![ErrorCodes::ImportMissingLibrary.code()]);
}

#[test]
fn a_program_is_all_or_nothing() {
    let program = TopLevel::from_str("import * from \"std\"; const x = 1;").unwrap();
    assert_eq!((program.imports.len(), program.consts.len()), (1, 1));
    let errors = TopLevel::from_str("const x = 1; const = 2; const y 3;").unwrap_err();
    assert_eq!(errors.len(), 2);
    assert_eq!(TopLevel::from_str("").unwrap().imports.len(), 0);
}

#[test]
fn diagnostics_come_in_source_order() {
    let source = "x;\nimport {a} from \"b\";\n  const = 1;\nfn f( -> int {}\nconst z = 5a";
    let (_, errors) = parse(source);
    assert_eq!(errors.len(), 5);
    for pair in errors.windows(2) {
        let (a, b) = (pair[0].at, pair[1].at);
        assert!(a.line < b.line || (a.line == b.line && a.column <= b.column));
    }
    assert_eq!(
        errors.iter().map(|e| e.at.line).collect::<Vec<_>>(),
        vec![0, 1, 2, 3, 4]
    );
}

#[test]
fn diagnoses_depend_on_place_and_token() {
    let at = |kind: Tokens| Token {
        kind,
        span: Slice { start: 3, end: 5 },
        position: Position { line: 1, column: 2 },
    };
    let e = diagnose(Expected::Value, &at(Tokens::EndOfInput));
    assert_eq!(e.code, ErrorCodes::UnexpectedEOF.code());
    assert_eq!(e.span, Slice { start: 3, end: 5 });
    assert_eq!(e.at, Position { line: 1, column: 2 });
    let e = diagnose(Expected::Semicolon, &at(Tokens::InvalidNumber));
    assert_eq!(e.code, ErrorCodes::InvalidNumberLiteral.code());
    let e = diagnose(Expected::ImportMembers, &at(Tokens::LBrace));
    assert_eq!(e.code, ErrorCodes::ImportMalformedMemberList.code());
    let e = diagnose(Expected::ImportMembers, &at(Tokens::Comma));
    assert_eq!(e.code, ErrorCodes::UnexpectedToken.code());
    let e = diagnose(Expected::Member, &at(Tokens::Comma));
    assert_eq!(e.code, ErrorCodes::ImportMalformedMemberList.code());
    let e = diagnose(Expected::MemberSeparator, &at(Tokens::Star));
    assert_eq!(e.code, ErrorCodes::ImportMalformedMemberList.code());
    let e = diagnose(Expected::From, &at(Tokens::Star));
    assert_eq!(e.message, "Unknown keyword");
    let e = diagnose(Expected::Library, &at(Tokens::Star));
    assert_eq!(e.code, ErrorCodes::ImportMissingLibrary.code());
    let e = diagnose(Expected::Semicolon, &at(Tokens::Star));
    assert_eq!(e.code, ErrorCodes::ExpectedSemicolon.code());
    let e = diagnose(Expected::Value, &at(Tokens::LSquare));
    assert_eq!(e.code, ErrorCodes::UnimplementedFeature.code());
    let e = diagnose(Expected::Value, &at(Tokens::Unknown));
    assert_eq!(e.hints, vec!["expected a value, got an unknown token"]);
    let e = diagnose(Expected::Arrow, &at(Tokens::Colon));
    assert_eq!(e.hints, vec!["expected `->`, got `:`"]);
}

#[test]
fn parsing_functions_are_total() {
    let source = "import a from \"b\"; const c = d;";
    let parser = Parser::new(source);
    assert_eq!(parser.tokens.len(), 11);
    assert_eq!(parser.peek(0), Tokens::Import);
    assert_eq!(parser.peek(10), Tokens::EndOfInput);
    assert_eq!(parser.peek(usize::MAX), Tokens::EndOfInput);
    assert_eq!(parser.token(99).span, Slice { start: 31, end: 31 });
    assert_eq!(parser.span(1), Slice { start: 7, end: 8 });
    assert_eq!(parser.ensure(4, Tokens::Semicolon, Expected::Semicolon), Ok(5));
    assert_eq!(parser.ensure_semicolon(4), Ok(5));
    assert_eq!(parser.ensure_semicolon(3).unwrap_err().at, 3);
    assert_eq!(
        parser.ensure(usize::MAX, Tokens::EndOfInput, Expected::Semicolon).unwrap_err().at,
        usize::MAX
    );
    assert_eq!(parser.resolve_op(0), None);
    assert!(parser.parse_import(0).is_ok());
    assert_eq!(parser.parse_import(5).unwrap_err().expected, Expected::Statement);
    assert_eq!(parser.parse_const(0).unwrap_err().expected, Expected::Statement);
    assert_eq!(parser.parse_fn(0).unwrap_err().expected, Expected::Statement);
    assert!(parser.parse_const(5).is_ok());
    assert_eq!(parser.parse_statement(5).unwrap().1, 10);
    assert_eq!(parser.parse_statement(usize::MAX).unwrap_err().at, usize::MAX);
    assert_eq!(parser.resolve_import_path(2).unwrap(), (Slice { start: 15, end: 16 }, 5));
    assert_eq!(parser.resolve_const_name(6).unwrap(), (Slice { start: 25, end: 26 }, 8));
    assert_eq!(parser.resolve_ident(1).unwrap(), (Slice { start: 7, end: 8 }, 2));
    assert_eq!(parser.resolve_type(1).unwrap_err().expected, Expected::Type);
    assert_eq!(parser.parse_expr(8).unwrap(), (Node::Identifier(Slice { start: 29, end: 30 }), 9));
    assert_eq!(parser.parse_block(0).unwrap_err().expected, Expected::LBrace);
    assert_eq!(parser.parse_fn_args(0).unwrap_err().expected, Expected::LParen);
    assert_eq!(parser.parse_fn_ret(0).unwrap_err().expected, Expected::Arrow);
    assert_eq!(parser.parse_call_args(4).unwrap_err().expected, Expected::Value);
    assert_eq!(parser.parse_stmt_or_expr(0).unwrap_err().expected, Expected::BlockItem);
}

#[test]
fn tokens_without_a_sentinel_still_end() {
    let empty = Parser { raw: "", tokens: vec![] };
    let (program, errors) = empty.parse();
    assert!(errors.is_empty());
    assert!(program.imports.is_empty());

    let tok = |kind: Tokens, start: usize| Token {
        kind,
        span: Slice { start, end: start + 1 },
        position: Position { line: 0, column: start },
    };
    let parser = Parser {
        raw: "c x = y",
        tokens: vec![
            tok(Tokens::Const, 0),
            tok(Tokens::Identifier(Slice { start: 2, end: 3 }), 2),
            tok(Tokens::Equals, 4),
            tok(Tokens::Identifier(Slice { start: 6, end: 7 }), 6),
        ],
    };
    let (program, errors) = parser.parse();
    assert!(program.consts.is_empty());
    assert_eq!(codes(&errors), vec![ErrorCodes::UnexpectedEOF.code()]);
    assert_eq!(errors[0].span, Slice { start: 6, end: 7 });
}

#[test]
fn types_are_read_from_the_source() {
    let source = "fn f(a: int, b: float, c: char, d: str) -> str {}";
    let parser = Parser::new(source);
    assert_eq!(parser.resolve_type(5).unwrap(), (NodeType::Integer, 6));
    assert_eq!(parser.resolve_type(9).unwrap(), (NodeType::Float, 10));
    assert_eq!(parser.resolve_type(13).unwrap(), (NodeType::Char, 14));
    assert_eq!(parser.resolve_type(17).unwrap(), (NodeType::String, 18));
    assert!(parser.resolve_type(3).is_err());
    let (params, next) = parser.parse_fn_args(2).unwrap();
    assert_eq!(params.len(), 4);
    assert_eq!(next, 19);
    assert_eq!(parser.parse_fn_ret(19).unwrap(), (NodeType::String, 21));
}
