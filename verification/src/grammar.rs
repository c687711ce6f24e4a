//! The grammar, as functions from a token sequence and an index to the tree
//! that starts there or to the place and kind of the first violation.

use vstd::prelude::*;
use vstd::string::StringSliceAdditionalSpecFns;
use crate::ast::{Members, NodeType, Operator, Program, Tree};
use crate::error::{Diagnostic, Errors};
use crate::span::{Position, Slice};
use crate::tokens::{Token, Tokens};

verus! {

/// What the grammar requires at the place where a parse fails.
#[derive(Clone, Copy, Debug, PartialEq, Eq, Structural)]
pub enum Expected {
    /// `import`, `const` or `fn`, at the top level.
    Statement,
    /// An identifier, `*` or `(`, after `import`.
    ImportMembers,
    /// An identifier or `)`, in a list of import members.
    Member,
    /// `,` or `)`, after an import member.
    MemberSeparator,
    /// The keyword `from`.
    From,
    /// The string literal that names the library.
    Library,
    /// `;`.
    Semicolon,
    /// The identifier that a declaration introduces.
    Name,
    /// `=`.
    Equals,
    /// A literal, an identifier or a call.
    Value,
    /// `,` or `)`, after an argument.
    ArgumentSeparator,
    /// `(`, before the parameters.
    LParen,
    /// An identifier or `)`, in a list of parameters.
    Parameter,
    /// `:`, between a parameter and its type.
    Colon,
    /// `int`, `float`, `char` or `str`.
    Type,
    /// `,` or `)`, after a parameter.
    ParameterSeparator,
    /// `->`, before the result type.
    Arrow,
    /// `{`, before the body.
    LBrace,
    /// A function, a block, an expression or `}`, in a block.
    BlockItem,
}

/// Where a parse failed: the index of the offending token and what was
/// required there.
#[derive(Clone, Copy, Debug, PartialEq, Eq, Structural)]
pub struct Failure {
    pub expected: Expected,
    pub at: usize,
}

/// The outcome of parsing one construct from a token index.
pub ghost enum Parsed<T> {
    /// The construct, and the index of the first token after it.
    Done { value: T, next: int },
    /// The index of the first token that violates the grammar, and what
    /// the grammar requires there.
    Failed { expected: Expected, at: int },
}

/// The token at index `i`. Past the end of the sequence stands a sentinel,
/// placed where the last token is.
pub open spec fn token_at(toks: Seq<Token>, i: int) -> Token {
    if 0 <= i < toks.len() {
        toks[i]
    } else if toks.len() > 0 {
        Token { kind: Tokens::EndOfInput, span: toks.last().span, position: toks.last().position }
    } else {
        Token {
            kind: Tokens::EndOfInput,
            span: Slice { start: 0, end: 0 },
            position: Position { line: 0, column: 0 },
        }
    }
}

/// The kind of the token at index `i`.
pub open spec fn kind_at(toks: Seq<Token>, i: int) -> Tokens {
    token_at(toks, i).kind
}

/// The operator that a token denotes.
pub open spec fn operator_of(kind: Tokens) -> Option<Operator> {
    match kind {
        Tokens::Plus => Some(Operator::Add),
        Tokens::Minus => Some(Operator::Sub),
        Tokens::Star => Some(Operator::Mul),
        Tokens::Slash => Some(Operator::Div),
        Tokens::Percent => Some(Operator::Mod),
        Tokens::Caret => Some(Operator::Pow),
        Tokens::Eq => Some(Operator::Eq),
        Tokens::Ne => Some(Operator::Ne),
        Tokens::Lt => Some(Operator::Lt),
        Tokens::Le => Some(Operator::Le),
        Tokens::Gt => Some(Operator::Gt),
        Tokens::Ge => Some(Operator::Ge),
        _ => None,
    }
}

/// The leaf that a literal token becomes.
pub open spec fn literal_of(kind: Tokens) -> Option<Tree> {
    match kind {
        Tokens::String(s) => Some(Tree::String(s)),
        Tokens::Integer(i) => Some(Tree::Integer(i)),
        Tokens::Float(s) => Some(Tree::Float(s)),
        Tokens::Char(c) => Some(Tree::Char(c)),
        Tokens::Boolean(b) => Some(Tree::Boolean(b)),
        Tokens::Null => Some(Tree::Null),
        Tokens::Undefined => Some(Tree::Undefined),
        Tokens::Atom(s) => Some(Tree::Atom(s)),
        _ => None,
    }
}

/// A value: a literal, an identifier, or a call, which is an identifier
/// directly followed by `(` and its arguments.
pub open spec fn value(toks: Seq<Token>, i: int) -> Parsed<Tree>
    decreases toks.len() - i, 0int,
{
    match kind_at(toks, i) {
        Tokens::Identifier(name) => if kind_at(toks, i + 1) is LParen {
            match call_args(toks, i + 2, Seq::<Tree>::empty()) {
                Parsed::Done { value: args, next } => Parsed::Done {
                    value: Tree::Call { callee: name, args },
                    next,
                },
                Parsed::Failed { expected, at } => Parsed::Failed { expected, at },
            }
        } else {
            Parsed::Done { value: Tree::Identifier(name), next: i + 1 }
        },
        kind => match literal_of(kind) {
            Some(leaf) => Parsed::Done { value: leaf, next: i + 1 },
            None => Parsed::Failed { expected: Expected::Value, at: i },
        },
    }
}

/// The arguments of a call after `acc`, from index `i` up to the closing
/// `)`: values separated by `,`; a `,` may precede the `)`.
///
/// A value covers at least one token, so the list goes on after `i`; the
/// comparison of `next` with `i` states that for the recursion and never
/// fails (`progress::lemma_value_forward`).
pub open spec fn call_args(toks: Seq<Token>, i: int, acc: Seq<Tree>) -> Parsed<Seq<Tree>>
    decreases toks.len() - i, 1int,
{
    if kind_at(toks, i) is RParen {
        Parsed::Done { value: acc, next: i + 1 }
    } else {
        match value(toks, i) {
            Parsed::Failed { expected, at } => Parsed::Failed { expected, at },
            Parsed::Done { value: arg, next } => if next <= i {
                Parsed::Failed { expected: Expected::ArgumentSeparator, at: next }
            } else {
                match kind_at(toks, next) {
                    Tokens::Comma => call_args(toks, next + 1, acc.push(arg)),
                    Tokens::RParen => Parsed::Done { value: acc.push(arg), next: next + 1 },
                    _ => Parsed::Failed { expected: Expected::ArgumentSeparator, at: next },
                }
            },
        }
    }
}

/// An expression: a value, or two values joined by one operator.
pub open spec fn expression(toks: Seq<Token>, i: int) -> Parsed<Tree> {
    match value(toks, i) {
        Parsed::Failed { expected, at } => Parsed::Failed { expected, at },
        Parsed::Done { value: left, next } => match operator_of(kind_at(toks, next)) {
            None => Parsed::Done { value: left, next },
            Some(op) => match value(toks, next + 1) {
                Parsed::Failed { expected, at } => Parsed::Failed { expected, at },
                Parsed::Done { value: right, next: after } => Parsed::Done {
                    value: Tree::BinaryExpr { left: Box::new(left), op, right: Box::new(right) },
                    next: after,
                },
            },
        },
    }
}

/// The members of a parenthesized import list after `acc`, from index `i`
/// up to the closing `)`: identifiers separated by `,`; a `,` may precede
/// the `)`.
pub open spec fn member_list(toks: Seq<Token>, i: int, acc: Seq<Slice>) -> Parsed<Members>
    decreases toks.len() - i,
{
    match kind_at(toks, i) {
        Tokens::Identifier(name) => match kind_at(toks, i + 1) {
            Tokens::Comma => member_list(toks, i + 2, acc.push(name)),
            Tokens::RParen => Parsed::Done { value: Members::Named(acc.push(name)), next: i + 2 },
            _ => Parsed::Failed { expected: Expected::MemberSeparator, at: i + 1 },
        },
        Tokens::RParen => Parsed::Done { value: Members::Named(acc), next: i + 1 },
        _ => Parsed::Failed { expected: Expected::Member, at: i },
    }
}

/// What an import brings in: one identifier, `*`, or a parenthesized list.
pub open spec fn import_members(toks: Seq<Token>, i: int) -> Parsed<Members> {
    match kind_at(toks, i) {
        Tokens::Identifier(name) => Parsed::Done { value: Members::All(name), next: i + 1 },
        Tokens::Star => Parsed::Done { value: Members::Wildcard, next: i + 1 },
        Tokens::LParen => member_list(toks, i + 1, Seq::<Slice>::empty()),
        _ => Parsed::Failed { expected: Expected::ImportMembers, at: i },
    }
}

/// `from`, the string that names the library, and `;`, from index `i`; the
/// value is the range of the library's name.
pub open spec fn import_path(toks: Seq<Token>, i: int) -> Parsed<Slice> {
    if !(kind_at(toks, i) is From) {
        Parsed::Failed { expected: Expected::From, at: i }
    } else {
        match kind_at(toks, i + 1) {
            Tokens::String(path) => if kind_at(toks, i + 2) is Semicolon {
                Parsed::Done { value: path, next: i + 3 }
            } else {
                Parsed::Failed { expected: Expected::Semicolon, at: i + 2 }
            },
            _ => Parsed::Failed { expected: Expected::Library, at: i + 1 },
        }
    }
}

/// `import` members `from` string `;`, with `import` required at index
/// `i`.
pub open spec fn import_statement(toks: Seq<Token>, i: int) -> Parsed<Tree> {
    if !(kind_at(toks, i) is Import) {
        Parsed::Failed { expected: Expected::Statement, at: i }
    } else {
        match import_members(toks, i + 1) {
            Parsed::Failed { expected, at } => Parsed::Failed { expected, at },
            Parsed::Done { value: members, next } => match import_path(toks, next) {
                Parsed::Failed { expected, at } => Parsed::Failed { expected, at },
                Parsed::Done { value: path, next: after } => Parsed::Done {
                    value: Tree::Import { path, members },
                    next: after,
                },
            },
        }
    }
}

/// The identifier and the `=` of a constant, from index `i`; the value is
/// the range of the name.
pub open spec fn const_name(toks: Seq<Token>, i: int) -> Parsed<Slice> {
    match kind_at(toks, i) {
        Tokens::Identifier(name) => if kind_at(toks, i + 1) is Equals {
            Parsed::Done { value: name, next: i + 2 }
        } else {
            Parsed::Failed { expected: Expected::Equals, at: i + 1 }
        },
        _ => Parsed::Failed { expected: Expected::Name, at: i },
    }
}

/// `const` identifier `=` expression `;`, with `const` required at index
/// `i`.
pub open spec fn const_statement(toks: Seq<Token>, i: int) -> Parsed<Tree> {
    if !(kind_at(toks, i) is Const) {
        Parsed::Failed { expected: Expected::Statement, at: i }
    } else {
        match const_name(toks, i + 1) {
            Parsed::Failed { expected, at } => Parsed::Failed { expected, at },
            Parsed::Done { value: name, next } => match expression(toks, next) {
                Parsed::Failed { expected, at } => Parsed::Failed { expected, at },
                Parsed::Done { value, next: after } => if kind_at(toks, after) is Semicolon {
                    Parsed::Done {
                        value: Tree::ConstDeclaration { name, value: Box::new(value) },
                        next: after + 1,
                    }
                } else {
                    Parsed::Failed { expected: Expected::Semicolon, at: after }
                },
            },
        }
    }
}

/// The type that a word names.
pub open spec fn type_of_word(word: Seq<u8>) -> Option<NodeType> {
    if word == "int".spec_bytes() {
        Some(NodeType::Integer)
    } else if word == "float".spec_bytes() {
        Some(NodeType::Float)
    } else if word == "char".spec_bytes() {
        Some(NodeType::Char)
    } else if word == "str".spec_bytes() {
        Some(NodeType::String)
    } else {
        None
    }
}

/// The bytes of `src` in the range `s`, or no bytes if the range does not
/// lie in `src`.
pub open spec fn text_of(src: Seq<u8>, s: Slice) -> Seq<u8> {
    if s.start <= s.end <= src.len() {
        src.subrange(s.start as int, s.end as int)
    } else {
        Seq::<u8>::empty()
    }
}

/// A type: an identifier that names one, at index `i`.
pub open spec fn type_at(toks: Seq<Token>, src: Seq<u8>, i: int) -> Parsed<NodeType> {
    match kind_at(toks, i) {
        Tokens::Identifier(s) => match type_of_word(text_of(src, s)) {
            Some(t) => Parsed::Done { value: t, next: i + 1 },
            None => Parsed::Failed { expected: Expected::Type, at: i },
        },
        _ => Parsed::Failed { expected: Expected::Type, at: i },
    }
}

/// The parameters of a function after `acc`, from index `i` up to the
/// closing `)`: `identifier : type` pairs separated by `,`; a `,` may
/// precede the `)`.
pub open spec fn parameters(
    toks: Seq<Token>,
    src: Seq<u8>,
    i: int,
    acc: Seq<(Slice, NodeType)>,
) -> Parsed<Seq<(Slice, NodeType)>>
    decreases toks.len() - i,
{
    match kind_at(toks, i) {
        Tokens::RParen => Parsed::Done { value: acc, next: i + 1 },
        Tokens::Identifier(name) => if !(kind_at(toks, i + 1) is Colon) {
            Parsed::Failed { expected: Expected::Colon, at: i + 1 }
        } else {
            match type_at(toks, src, i + 2) {
                Parsed::Failed { expected, at } => Parsed::Failed { expected, at },
                Parsed::Done { value: t, .. } => match kind_at(toks, i + 3) {
                    Tokens::Comma => parameters(toks, src, i + 4, acc.push((name, t))),
                    Tokens::RParen => Parsed::Done { value: acc.push((name, t)), next: i + 4 },
                    _ => Parsed::Failed { expected: Expected::ParameterSeparator, at: i + 3 },
                },
            }
        },
        _ => Parsed::Failed { expected: Expected::Parameter, at: i },
    }
}

/// What stands between `fn` and the body of a function.
pub ghost struct Signature {
    pub name: Slice,
    pub params: Seq<(Slice, NodeType)>,
    pub return_type: NodeType,
}

/// An identifier, at index `i`; the value is its range.
pub open spec fn name_at(toks: Seq<Token>, i: int) -> Parsed<Slice> {
    match kind_at(toks, i) {
        Tokens::Identifier(name) => Parsed::Done { value: name, next: i + 1 },
        _ => Parsed::Failed { expected: Expected::Name, at: i },
    }
}

/// `(` parameters `)`, with `(` required at index `i`.
pub open spec fn parameter_list(toks: Seq<Token>, src: Seq<u8>, i: int) -> Parsed<
    Seq<(Slice, NodeType)>,
> {
    if kind_at(toks, i) is LParen {
        parameters(toks, src, i + 1, Seq::<(Slice, NodeType)>::empty())
    } else {
        Parsed::Failed { expected: Expected::LParen, at: i }
    }
}

/// `->` type, with `->` required at index `i`.
pub open spec fn return_type(toks: Seq<Token>, src: Seq<u8>, i: int) -> Parsed<NodeType> {
    if kind_at(toks, i) is RArrow {
        type_at(toks, src, i + 1)
    } else {
        Parsed::Failed { expected: Expected::Arrow, at: i }
    }
}

/// identifier `(` parameters `)` `->` type, from index `i`.
pub open spec fn signature(toks: Seq<Token>, src: Seq<u8>, i: int) -> Parsed<Signature> {
    match name_at(toks, i) {
        Parsed::Failed { expected, at } => Parsed::Failed { expected, at },
        Parsed::Done { value: name, next } => match parameter_list(toks, src, next) {
            Parsed::Failed { expected, at } => Parsed::Failed { expected, at },
            Parsed::Done { value: params, next: after } => match return_type(toks, src, after) {
                Parsed::Failed { expected, at } => Parsed::Failed { expected, at },
                Parsed::Done { value: return_type, next: end } => Parsed::Done {
                    value: Signature { name, params, return_type },
                    next: end,
                },
            },
        },
    }
}

/// `fn` signature block, with `fn` required at index `i`.
///
/// The signature covers at least one token, so the body starts after `i`;
/// the comparison states that for the recursion and never fails
/// (`progress::lemma_signature_forward`). Past the last token no body can
/// start.
pub open spec fn function(toks: Seq<Token>, src: Seq<u8>, i: int) -> Parsed<Tree>
    decreases toks.len() - i, 0int,
{
    if !(kind_at(toks, i) is Fn) {
        Parsed::Failed { expected: Expected::Statement, at: i }
    } else {
        match signature(toks, src, i + 1) {
            Parsed::Failed { expected, at } => Parsed::Failed { expected, at },
            Parsed::Done { value: sig, next } => if next <= i || next >= toks.len() {
                Parsed::Failed { expected: Expected::LBrace, at: next }
            } else {
                match block(toks, src, next) {
                    Parsed::Failed { expected, at } => Parsed::Failed { expected, at },
                    Parsed::Done { value: body, next: after } => Parsed::Done {
                        value: Tree::FunctionDeclaration {
                            name: sig.name,
                            params: sig.params,
                            return_type: sig.return_type,
                            body: Box::new(body),
                        },
                        next: after,
                    },
                }
            },
        }
    }
}

/// `{` items `}`, with `{` required at index `i`.
pub open spec fn block(toks: Seq<Token>, src: Seq<u8>, i: int) -> Parsed<Tree>
    decreases toks.len() - i, 2int,
{
    if kind_at(toks, i) is LBrace {
        match block_items(toks, src, i + 1, Seq::<Tree>::empty()) {
            Parsed::Failed { expected, at } => Parsed::Failed { expected, at },
            Parsed::Done { value: items, next } => Parsed::Done { value: Tree::Block(items), next },
        }
    } else {
        Parsed::Failed { expected: Expected::LBrace, at: i }
    }
}

/// One item of a block at index `i`: a nested function, a nested block, or
/// an expression followed by `;`.
pub open spec fn block_item(toks: Seq<Token>, src: Seq<u8>, i: int) -> Parsed<Tree>
    decreases toks.len() - i, 3int,
{
    match kind_at(toks, i) {
        Tokens::Fn => function(toks, src, i),
        Tokens::LBrace => block(toks, src, i),
        kind => if kind.spec_is_value() {
            match expression(toks, i) {
                Parsed::Failed { expected, at } => Parsed::Failed { expected, at },
                Parsed::Done { value, next } => if kind_at(toks, next) is Semicolon {
                    Parsed::Done { value, next: next + 1 }
                } else {
                    Parsed::Failed { expected: Expected::Semicolon, at: next }
                },
            }
        } else {
            Parsed::Failed { expected: Expected::BlockItem, at: i }
        },
    }
}

/// The items of a block after `acc`, from index `i` up to the closing `}`;
/// a `;` on its own is an empty item and adds nothing.
///
/// An item covers at least one token, so the list goes on after `i`; the
/// comparison states that for the recursion and never fails
/// (`progress::lemma_block_item_forward`).
pub open spec fn block_items(toks: Seq<Token>, src: Seq<u8>, i: int, acc: Seq<Tree>) -> Parsed<
    Seq<Tree>,
>
    decreases toks.len() - i, 4int,
{
    match kind_at(toks, i) {
        Tokens::RBrace => Parsed::Done { value: acc, next: i + 1 },
        Tokens::Semicolon => block_items(toks, src, i + 1, acc),
        _ => match block_item(toks, src, i) {
            Parsed::Failed { expected, at } => Parsed::Failed { expected, at },
            Parsed::Done { value: item, next } => if next <= i || next > toks.len() {
                Parsed::Failed { expected: Expected::BlockItem, at: i }
            } else {
                block_items(toks, src, next, acc.push(item))
            },
        },
    }
}

/// A statement of the top level at index `i`, chosen by its first token.
pub open spec fn statement(toks: Seq<Token>, src: Seq<u8>, i: int) -> Parsed<Tree> {
    match kind_at(toks, i) {
        Tokens::Import => import_statement(toks, i),
        Tokens::Const => const_statement(toks, i),
        Tokens::Fn => function(toks, src, i),
        _ => Parsed::Failed { expected: Expected::Statement, at: i },
    }
}


/// How a required construct is named in a hint.
pub open spec fn describe(expected: Expected) -> Seq<char> {
    match expected {
        Expected::Statement => "`import`, `const` or `fn`"@,
        Expected::ImportMembers => "an identifier, `*` or `(`"@,
        Expected::Member => "an identifier or `)`"@,
        Expected::MemberSeparator => "`,` or `)`"@,
        Expected::From => "`from`"@,
        Expected::Library => "a string"@,
        Expected::Semicolon => "semicolon"@,
        Expected::Name => "an identifier"@,
        Expected::Equals => "`=`"@,
        Expected::Value => "a value"@,
        Expected::ArgumentSeparator => "`,` or `)`"@,
        Expected::LParen => "`(`"@,
        Expected::Parameter => "an identifier or `)`"@,
        Expected::Colon => "`:`"@,
        Expected::Type => "a type"@,
        Expected::ParameterSeparator => "`,` or `)`"@,
        Expected::Arrow => "`->`"@,
        Expected::LBrace => "`{`"@,
        Expected::BlockItem => "a statement or `}`"@,
    }
}

/// The diagnostic for the token `found` where `expected` is required,
/// before it is given the token's span.
///
/// The end of input and an invalid number have their own diagnostics
/// wherever they turn up. Otherwise the place decides: imports report a
/// wrong bracket, a malformed list, a missing `from` and a missing library
/// each in its own way; a bracket where a value belongs is an unsupported
/// literal; a missing `;` is reported as such; anything else is an
/// unexpected token.
pub open spec fn diagnosis_at(expected: Expected, found: Token) -> Diagnostic {
    let got = found.kind;
    let line = found.position.line;
    let column = found.position.column;
    if got is EndOfInput {
        Errors::spec_unexpected_end_of_input(line, column)
    } else if got is InvalidNumber {
        Errors::spec_invalid_number(line, column, found.span)
    } else {
        match expected {
            Expected::ImportMembers => if got is LBrace || got is LSquare {
                Errors::spec_curly_bracket_import(line, column)
            } else {
                Errors::spec_unexpected_token(describe(expected), got, line, column)
            },
            Expected::Member | Expected::MemberSeparator => Errors::spec_import_member_list(
                describe(expected),
                got,
                line,
                column,
            ),
            Expected::From => Errors::spec_import_keyword(line, column),
            Expected::Library => Errors::spec_import_no_lib(line, column),
            Expected::Semicolon => Errors::spec_expected_semicolon(got, line, column),
            Expected::Value => if got is LBrace || got is LSquare {
                Errors::spec_unimplemented_feature(line, column)
            } else {
                Errors::spec_unexpected_token(describe(expected), got, line, column)
            },
            _ => Errors::spec_unexpected_token(describe(expected), got, line, column),
        }
    }
}

/// The diagnostic for the token `found` where `expected` is required: it
/// points at the token's position and covers the token's span.
pub open spec fn diagnosis(expected: Expected, found: Token) -> Diagnostic {
    Diagnostic { span: found.span, ..diagnosis_at(expected, found) }
}

/// The program and the diagnostics that a parse has gathered.
pub ghost struct Outcome {
    pub program: Program,
    pub diagnostics: Seq<Diagnostic>,
}

/// The program with one more statement, filed under its kind.
pub open spec fn place(program: Program, statement: Tree) -> Program {
    match statement {
        Tree::Import { .. } => Program { imports: program.imports.push(statement), ..program },
        Tree::ConstDeclaration { .. } => Program {
            consts: program.consts.push(statement),
            ..program
        },
        Tree::FunctionDeclaration { .. } => Program {
            functions: program.functions.push(statement),
            ..program
        },
        _ => program,
    }
}

/// The index behind the first `;` at or after index `i`, if one comes
/// before the end of input.
pub open spec fn next_semicolon(toks: Seq<Token>, i: int) -> Option<int>
    decreases toks.len() - i,
{
    if !(0 <= i < toks.len()) {
        None
    } else {
        match toks[i].kind {
            Tokens::EndOfInput => None,
            Tokens::Semicolon => Some(i + 1),
            _ => next_semicolon(toks, i + 1),
        }
    }
}

/// The index behind the end of a function that failed at index `floor`.
/// Scanning from index `i` with `depth` braces open, the end is the first
/// token at or after `floor` that is a `;` outside all braces or the `}`
/// that closes the outermost open brace (a `}` with no brace open counts
/// too). There is none if the end of input comes first.
pub open spec fn block_end(toks: Seq<Token>, i: int, floor: int, depth: nat) -> Option<int>
    decreases toks.len() - i,
{
    if !(0 <= i < toks.len()) {
        None
    } else {
        match toks[i].kind {
            Tokens::EndOfInput => None,
            Tokens::LBrace => block_end(toks, i + 1, floor, depth + 1),
            Tokens::RBrace => if depth <= 1 && i >= floor {
                Some(i + 1)
            } else {
                block_end(
                    toks,
                    i + 1,
                    floor,
                    if depth > 0 {
                        (depth - 1) as nat
                    } else {
                        0
                    },
                )
            },
            Tokens::Semicolon => if depth == 0 && i >= floor {
                Some(i + 1)
            } else {
                block_end(toks, i + 1, floor, depth)
            },
            _ => block_end(toks, i + 1, floor, depth),
        }
    }
}

/// Where parsing resumes after the statement that starts at index `start`
/// has failed at index `at`: behind the next statement boundary. For a
/// function that is the brace that closes its body, for any other
/// statement the next `;`; the offending token itself may be the boundary.
pub open spec fn recovery(toks: Seq<Token>, start: int, at: int) -> Option<int> {
    if kind_at(toks, start) is Fn {
        block_end(toks, start, at, 0)
    } else {
        next_semicolon(toks, at)
    }
}

/// The outcome of parsing the statements from index `i` on, after `acc`.
///
/// The end of input ends the parse; a `;` on its own is an empty statement.
/// A statement that parses is added to the program. One that fails adds its
/// diagnostic; the parse then resumes behind the next statement boundary,
/// and ends there and then if the failure was the end of input or no
/// boundary is left.
///
/// Statements and recoveries cover at least one token; the comparisons of
/// the next index with `i` state that for the recursion and never fail
/// (`progress::lemma_statement_forward`, `progress::lemma_recovery_forward`).
pub open spec fn program_from(toks: Seq<Token>, src: Seq<u8>, i: int, acc: Outcome) -> Outcome
    decreases toks.len() - i,
{
    match kind_at(toks, i) {
        Tokens::EndOfInput => acc,
        Tokens::Semicolon => program_from(toks, src, i + 1, acc),
        _ => match statement(toks, src, i) {
            Parsed::Done { value, next } => if i < next <= toks.len() {
                program_from(
                    toks,
                    src,
                    next,
                    Outcome { program: place(acc.program, value), ..acc },
                )
            } else {
                acc
            },
            Parsed::Failed { expected, at } => {
                let found = Outcome {
                    diagnostics: acc.diagnostics.push(diagnosis(expected, token_at(toks, at))),
                    ..acc
                };
                if kind_at(toks, at) is EndOfInput {
                    found
                } else {
                    match recovery(toks, i, at) {
                        Some(resume) => if i < resume <= toks.len() {
                            program_from(toks, src, resume, found)
                        } else {
                            found
                        },
                        None => found,
                    }
                }
            },
        },
    }
}

/// The outcome of parsing a whole token sequence.
pub open spec fn program(toks: Seq<Token>, src: Seq<u8>) -> Outcome {
    program_from(
        toks,
        src,
        0,
        Outcome {
            program: Program {
                imports: Seq::<Tree>::empty(),
                consts: Seq::<Tree>::empty(),
                functions: Seq::<Tree>::empty(),
            },
            diagnostics: Seq::<Diagnostic>::empty(),
        },
    )
}

} // verus!
