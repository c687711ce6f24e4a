use qlang::lexer::tokenize;
use qlang::parser::parse;
use qlang::render::{render, render_styled};
use qlang::span::position_of;
use qlang::tokens::Tokens;

const PIECES: [&str; 40] = [
    "import", "from", "const", "fn", "null", "undefined", "true", "false", "x", "_y1", "int",
    "str", "0", "42", "3.5", "7a", "99999999999", "\"s\"", "\"open", "'c'", "'\u{e9}'", "''",
    ":ok", ":", ";", ",", "(", ")", "{", "}", "[", "]", "=", "->", "+", "<=", "!", " ", "\n",
    "// note\n",
];

fn next(state: &mut u64) -> usize {
    *state = state.wrapping_mul(6364136223846793005).wrapping_add(1442695040888963407);
    (*state >> 33) as usize
}

fn sample(state: &mut u64) -> String {
    let mut text = String::new();
    let count = next(state) % 24;
    for _ in 0..count {
        text.push_str(PIECES[next(state) % PIECES.len()]);
        if next(state) % 3 == 0 {
            text.push(' ');
        }
    }
    text
}

#[test]
fn every_sample_is_tiled_by_its_tokens() {
    let mut state = 1u64;
    for _ in 0..1500 {
        let source = sample(&mut state);
        let bytes = source.as_bytes();
        let tokens = tokenize(&source);
        let mut rebuilt: Vec<u8> = Vec::new();
        let mut at = 0usize;
        for (k, t) in tokens.iter().enumerate() {
            assert!(at <= t.span.start && t.span.start <= t.span.end, "{:?}", source);
            assert!(t.span.end <= bytes.len(), "{:?}", source);
            for b in &bytes[at..t.span.start] {
                assert!(b.is_ascii_whitespace() || source[at..t.span.start].contains("//"));
            }
            rebuilt.extend_from_slice(&bytes[at..t.span.end]);
            assert_eq!(t.position, position_of(bytes, t.span.start), "{:?}", source);
            assert_eq!(t.kind == Tokens::EndOfInput, k + 1 == tokens.len(), "{:?}", source);
            at = t.span.end;
        }
        assert_eq!(rebuilt, bytes, "{:?}", source);
        for pair in tokens.windows(2) {
            let (a, b) = (pair[0].position, pair[1].position);
            assert!(a.line < b.line || (a.line == b.line && a.column <= b.column));
        }
    }
}

#[test]
fn every_sample_parses_and_renders() {
    let mut state = 7u64;
    let mut with_errors = 0usize;
    let mut clean = 0usize;
    for _ in 0..1500 {
        let source = sample(&mut state);
        let (program, errors) = parse(&source);
        if errors.is_empty() {
            clean += 1;
        } else {
            with_errors += 1;
        }
        let statements = program.imports.len() + program.consts.len() + program.functions.len();
        assert!(statements + errors.len() <= tokenize(&source).len());
        for pair in errors.windows(2) {
            let (a, b) = (pair[0].at, pair[1].at);
            assert!(a.line < b.line || (a.line == b.line && a.column <= b.column));
        }
        for e in &errors {
            let plain = render(&source, e);
            assert_eq!(plain, render(&source, e));
            assert!(plain.starts_with("error: "));
            assert!(plain.contains(&format!("[E{}]", e.code)));
            assert!(plain.matches('^').count() >= 1);
            let styled = render_styled(&source, e);
            assert!(styled.len() > plain.len());
        }
    }
    assert!(with_errors > 0 && clean > 0);
}

#[test]
fn a_long_program_parses_in_one_pass() {
    let source = "import * from \"std\";\n".repeat(20_000);
    let (program, errors) = parse(&source);
    assert!(errors.is_empty());
    assert_eq!(program.imports.len(), 20_000);
    let tokens = tokenize(&source);
    assert_eq!(tokens.len(), 100_001);
    assert_eq!(tokens[100_000].position.line, 20_000);
    assert_eq!(tokens[100_000].position.column, 0);
}

#[test]
fn deep_nesting_is_parsed() {
    let depth = 200;
    let mut source = String::from("fn f() -> int { ");
    for _ in 0..depth {
        source.push_str("{ ");
    }
    source.push_str("g(");
    for _ in 0..depth {
        source.push_str("h(");
    }
    for _ in 0..depth {
        source.push(')');
    }
    source.push_str("); ");
    for _ in 0..depth {
        source.push_str("} ");
    }
    source.push('}');
    let (program, errors) = parse(&source);
    assert!(errors.is_empty(), "{:?}", errors);
    assert_eq!(program.functions.len(), 1);
}
