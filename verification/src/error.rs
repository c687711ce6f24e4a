//! Diagnostics: the numbered kinds of parse failure, the value that
//! describes one failure, and the builder that assembles it.

use vstd::prelude::*;
use vstd::string::StringExecFns;
use crate::span::{Position, Slice};
use crate::tokens::Tokens;
use crate::text::{decimal, push_char, push_decimal};

verus! {

/// The kinds of failure, each with a stable numeric code and a message.
#[derive(Clone, Copy, Debug, PartialEq, Eq, Structural)]
pub enum ErrorCodes {
    UnknownError,
    /// A grammar position requires one kind of token and holds another.
    UnexpectedToken,
    /// The tokens ran out before a construct was complete.
    UnexpectedEOF,
    /// `import ... from` is not followed by a string literal.
    ImportMissingLibrary,
    /// An import member list uses the wrong bracket or wrong separators.
    ImportMalformedMemberList,
    /// Digits immediately followed by letters.
    InvalidNumberLiteral,
    /// A statement does not end with `;`.
    ExpectedSemicolon,
    /// A construct that is recognised but deliberately not supported.
    UnimplementedFeature,
}

impl ErrorCodes {
    /// The numeric code of each kind.
    pub open spec fn spec_code(self) -> u32 {
        match self {
            ErrorCodes::UnknownError => 1000,
            ErrorCodes::UnexpectedToken => 1001,
            ErrorCodes::UnexpectedEOF => 1002,
            ErrorCodes::ImportMissingLibrary => 1003,
            ErrorCodes::ImportMalformedMemberList => 1004,
            ErrorCodes::InvalidNumberLiteral => 1005,
            ErrorCodes::ExpectedSemicolon => 1006,
            ErrorCodes::UnimplementedFeature => 1007,
        }
    }

    /// The message of each kind.
    pub open spec fn spec_message(self) -> Seq<char> {
        match self {
            ErrorCodes::UnknownError => "Unknown error"@,
            ErrorCodes::UnexpectedToken => "Unexpected token"@,
            ErrorCodes::UnexpectedEOF => "Unexpected end of file"@,
            ErrorCodes::ImportMissingLibrary => "Expected string literal after import keyword"@,
            ErrorCodes::ImportMalformedMemberList => "Malformed import member list"@,
            ErrorCodes::InvalidNumberLiteral => "Invalid number"@,
            ErrorCodes::ExpectedSemicolon => "Expected semicolon"@,
            ErrorCodes::UnimplementedFeature => "Unimplemented feature"@,
        }
    }

    /// The numeric code of this kind.
    pub fn code(&self) -> (c: u32)
        ensures
            c == self.spec_code(),
    {
        match self {
            ErrorCodes::UnknownError => 1000,
            ErrorCodes::UnexpectedToken => 1001,
            ErrorCodes::UnexpectedEOF => 1002,
            ErrorCodes::ImportMissingLibrary => 1003,
            ErrorCodes::ImportMalformedMemberList => 1004,
            ErrorCodes::InvalidNumberLiteral => 1005,
            ErrorCodes::ExpectedSemicolon => 1006,
            ErrorCodes::UnimplementedFeature => 1007,
        }
    }

    /// The message of this kind.
    pub fn message(&self) -> (m: String)
        ensures
            m@ == self.spec_message(),
    {
        let text = match self {
            ErrorCodes::UnknownError => "Unknown error",
            ErrorCodes::UnexpectedToken => "Unexpected token",
            ErrorCodes::UnexpectedEOF => "Unexpected end of file",
            ErrorCodes::ImportMissingLibrary => "Expected string literal after import keyword",
            ErrorCodes::ImportMalformedMemberList => "Malformed import member list",
            ErrorCodes::InvalidNumberLiteral => "Invalid number",
            ErrorCodes::ExpectedSemicolon => "Expected semicolon",
            ErrorCodes::UnimplementedFeature => "Unimplemented feature",
        };
        String::from_str(text)
    }

    /// The code and the message together.
    pub fn resolve(self) -> (r: (u32, String))
        ensures
            r.0 == self.spec_code(),
            r.1@ == self.spec_message(),
    {
        (self.code(), self.message())
    }
}

/// What a diagnostic says, as plain mathematical values.
pub ghost struct Diagnostic {
    pub code: u32,
    pub message: Seq<char>,
    pub at: Position,
    pub span: Slice,
    pub hints: Seq<Seq<char>>,
    pub notes: Seq<Seq<char>>,
}

/// The views of a list of strings.
pub open spec fn texts(v: Seq<String>) -> Seq<Seq<char>> {
    Seq::new(v.len(), |i: int| v[i]@)
}

/// Copies of the strings of a list, in their order.
fn copies(list: &Vec<String>) -> (r: Vec<String>)
    ensures
        texts(r@) == texts(list@),
{
    let mut r: Vec<String> = Vec::new();
    let mut k: usize = 0;
    while k < list.len()
        invariant
            k <= list@.len(),
            r@.len() == k,
            forall|j: int| 0 <= j < k ==> (#[trigger] r@[j])@ == list@[j]@,
        decreases list@.len() - k,
    {
        r.push(list[k].clone());
        k = k + 1;
    }
    assert(texts(r@) =~= texts(list@));
    r
}

/// One parse failure: a numeric code, a message, the position and the byte
/// range it points at, and any hints and notes for the reader.
#[derive(Debug)]
pub struct CompileError {
    pub code: u32,
    pub message: String,
    pub at: Position,
    pub span: Slice,
    pub hints: Vec<String>,
    pub notes: Vec<String>,
}

/// The error of this library: a diagnostic.
pub type Error = CompileError;

impl View for CompileError {
    type V = Diagnostic;

    open spec fn view(&self) -> Diagnostic {
        Diagnostic {
            code: self.code,
            message: self.message@,
            at: self.at,
            span: self.span,
            hints: texts(self.hints@),
            notes: texts(self.notes@),
        }
    }
}

/// The diagnostic that nothing has been said about yet.
pub open spec fn blank() -> Diagnostic {
    Diagnostic {
        code: 0,
        message: Seq::<char>::empty(),
        at: Position { line: 0, column: 0 },
        span: Slice { start: 0, end: 0 },
        hints: Seq::<Seq<char>>::empty(),
        notes: Seq::<Seq<char>>::empty(),
    }
}

impl Default for CompileError {
    /// The diagnostic that nothing has been said about yet.
    fn default() -> (e: Self)
        ensures
            e@ == blank(),
    {
        CompileErrorBuilder::new().build()
    }
}

/// `line:column` as a reader counts them, from 1.
pub open spec fn shown_at(p: Position) -> Seq<char> {
    decimal((p.line + 1) as nat) + seq![':'] + decimal((p.column + 1) as nat)
}

impl CompileError {
    /// A diagnostic with the given parts and no notes.
    pub fn new(message: String, span: Slice, hints: Vec<String>, code: u32, at: Position) -> (e:
        Self)
        ensures
            e@ == (Diagnostic {
                code,
                message: message@,
                at,
                span,
                hints: texts(hints@),
                notes: Seq::<Seq<char>>::empty(),
            }),
    {
        let e = CompileError { code, message, at, span, hints, notes: Vec::new() };
        assert(e@.notes =~= Seq::<Seq<char>>::empty());
        e
    }

    /// Copies of the hints, in their order.
    pub fn hints(&self) -> (h: Vec<String>)
        ensures
            texts(h@) == self@.hints,
    {
        copies(&self.hints)
    }

    /// Copies of the notes, in their order.
    pub fn notes(&self) -> (n: Vec<String>)
        ensures
            texts(n@) == self@.notes,
    {
        copies(&self.notes)
    }

    /// Points the diagnostic at another position.
    pub fn set_pos(&mut self, pos: Position)
        ensures
            final(self)@ == (Diagnostic { at: pos, ..old(self)@ }),
    {
        self.at = pos;
    }

    /// Points the diagnostic at another byte range.
    pub fn set_span(&mut self, span: Slice)
        ensures
            final(self)@ == (Diagnostic { span, ..old(self)@ }),
    {
        self.span = span;
    }

    /// The zero-based line the diagnostic points at.
    pub fn line(&self) -> (n: usize)
        ensures
            n == self@.at.line,
    {
        self.at.line
    }

    /// The zero-based column the diagnostic points at.
    pub fn column(&self) -> (n: usize)
        ensures
            n == self@.at.column,
    {
        self.at.column
    }

    /// The numeric code.
    pub fn code(&self) -> (c: u32)
        ensures
            c == self@.code,
    {
        self.code
    }

    /// A copy of the message.
    pub fn message(&self) -> (m: String)
        ensures
            m@ == self@.message,
    {
        self.message.clone()
    }

    /// The byte range the diagnostic points at.
    pub fn span(&self) -> (s: Slice)
        ensures
            s == self@.span,
    {
        self.span
    }

    /// The given position, or the diagnostic's own if none is given, written
    /// as `line:column` and counted from 1.
    pub fn fmt_at(&self, pos: Option<Position>) -> (s: String)
        ensures
            s@ == shown_at(
                match pos {
                    Some(p) => p,
                    None => self@.at,
                },
            ),
    {
        let p = match pos {
            Some(p) => p,
            None => self.at,
        };
        let mut s = String::new();
        push_decimal(&mut s, p.line as u128 + 1);
        push_char(&mut s, ':');
        push_decimal(&mut s, p.column as u128 + 1);
        assert(s@ =~= shown_at(p));
        s
    }
}

/// Accumulates the parts of a diagnostic; `build` finishes it.
pub struct CompileErrorBuilder {
    pub code: u32,
    pub message: String,
    pub at: Position,
    pub span: Slice,
    pub hints: Vec<String>,
    pub notes: Vec<String>,
}

impl View for CompileErrorBuilder {
    type V = Diagnostic;

    open spec fn view(&self) -> Diagnostic {
        Diagnostic {
            code: self.code,
            message: self.message@,
            at: self.at,
            span: self.span,
            hints: texts(self.hints@),
            notes: texts(self.notes@),
        }
    }
}

impl CompileErrorBuilder {
    /// A builder with nothing set: code 0, no text, position and span at 0.
    pub fn new() -> (b: Self)
        ensures
            b@ == blank(),
    {
        let b = CompileErrorBuilder {
            code: 0,
            message: String::new(),
            at: Position { line: 0, column: 0 },
            span: Slice { start: 0, end: 0 },
            hints: Vec::new(),
            notes: Vec::new(),
        };
        assert(b@.hints =~= Seq::<Seq<char>>::empty());
        assert(b@.notes =~= Seq::<Seq<char>>::empty());
        b
    }

    /// A builder that starts from the code and message of a kind.
    pub fn init(template: ErrorCodes) -> (b: Self)
        ensures
            b@ == (Diagnostic {
                code: template.spec_code(),
                message: template.spec_message(),
                ..blank()
            }),
    {
        CompileErrorBuilder::new().from(template)
    }

    /// Sets the numeric code.
    pub fn code(self, code: u32) -> (b: Self)
        ensures
            b@ == (Diagnostic { code, ..self@ }),
    {
        let mut b = self;
        b.code = code;
        b
    }

    /// Sets the message.
    pub fn message(self, message: String) -> (b: Self)
        ensures
            b@ == (Diagnostic { message: message@, ..self@ }),
    {
        let mut b = self;
        b.message = message;
        b
    }

    /// Sets the position that the diagnostic points at.
    pub fn at(self, at: Position) -> (b: Self)
        ensures
            b@ == (Diagnostic { at, ..self@ }),
    {
        let mut b = self;
        b.at = at;
        b
    }

    /// Sets the byte range that the diagnostic covers.
    pub fn span(self, span: Slice) -> (b: Self)
        ensures
            b@ == (Diagnostic { span, ..self@ }),
    {
        let mut b = self;
        b.span = span;
        b
    }

    /// Adds a hint after those already there.
    pub fn hint(self, hint: &str) -> (b: Self)
        ensures
            b@ == (Diagnostic { hints: self@.hints.push(hint@), ..self@ }),
    {
        let mut b = self;
        b.hints.push(String::from_str(hint));
        assert(texts(b.hints@) =~= texts(self.hints@).push(hint@));
        b
    }

    /// Adds a note after those already there.
    pub fn note(self, note: &str) -> (b: Self)
        ensures
            b@ == (Diagnostic { notes: self@.notes.push(note@), ..self@ }),
    {
        let mut b = self;
        b.notes.push(String::from_str(note));
        assert(texts(b.notes@) =~= texts(self.notes@).push(note@));
        b
    }

    /// Takes the code and the message of a kind.
    pub fn from(self, template: ErrorCodes) -> (b: Self)
        ensures
            b@ == (Diagnostic {
                code: template.spec_code(),
                message: template.spec_message(),
                ..self@
            }),
    {
        let mut b = self;
        b.code = template.code();
        b.message = template.message();
        b
    }

    /// The finished diagnostic, with exactly what was accumulated.
    pub fn build(self) -> (e: CompileError)
        ensures
            e@ == self@,
    {
        CompileError {
            code: self.code,
            message: self.message,
            at: self.at,
            span: self.span,
            hints: self.hints,
            notes: self.notes,
        }
    }
}


/// `expected <what>, got <kind>`.
pub open spec fn expectation(what: Seq<char>, got: Tokens) -> Seq<char> {
    "expected "@ + what + ", got "@ + got.spec_name()
}

/// The diagnostic of kind `kind` at `line` and `column`, with one hint.
pub open spec fn hinted(kind: ErrorCodes, line: usize, column: usize, hint: Seq<char>)
    -> Diagnostic {
    Diagnostic {
        code: kind.spec_code(),
        message: kind.spec_message(),
        at: Position { line, column },
        hints: seq![hint],
        ..blank()
    }
}

fn expectation_text(what: &str, got: Tokens) -> (s: String)
    ensures
        s@ == expectation(what@, got),
{
    let mut s = String::from_str("expected ");
    s.append(what);
    s.append(", got ");
    s.append(got.name());
    assert(s@ =~= expectation(what@, got));
    s
}

fn with_hint(kind: ErrorCodes, line: usize, column: usize, hint: &str) -> (e: CompileError)
    ensures
        e@ == hinted(kind, line, column, hint@),
{
    let e = CompileErrorBuilder::init(kind).at(Position { line, column }).hint(hint).build();
    assert(e@.hints =~= seq![hint@]);
    e
}

/// The diagnostics that the parser raises, one constructor for each.
pub struct Errors {}

impl Errors {
    pub open spec fn spec_import_no_lib(line: usize, column: usize) -> Diagnostic {
        hinted(
            ErrorCodes::ImportMissingLibrary,
            line,
            column,
            "did you forget to add a library?"@,
        )
    }

    pub open spec fn spec_unexpected_token(
        expected: Seq<char>,
        got: Tokens,
        line: usize,
        column: usize,
    ) -> Diagnostic {
        hinted(ErrorCodes::UnexpectedToken, line, column, expectation(expected, got))
    }

    pub open spec fn spec_expected_semicolon(got: Tokens, line: usize, column: usize)
        -> Diagnostic {
        hinted(ErrorCodes::ExpectedSemicolon, line, column, expectation("semicolon"@, got))
    }

    pub open spec fn spec_unexpected_end_of_input(line: usize, column: usize) -> Diagnostic {
        Diagnostic {
            code: ErrorCodes::UnexpectedEOF.spec_code(),
            message: "Unexpected end of input"@,
            at: Position { line, column },
            ..blank()
        }
    }

    pub open spec fn spec_import_keyword(line: usize, column: usize) -> Diagnostic {
        Diagnostic {
            message: "Unknown keyword"@,
            ..hinted(
                ErrorCodes::UnexpectedToken,
                line,
                column,
                "imports in Qlang work strangely, see the documentation for more info"@,
            )
        }
    }

    pub open spec fn spec_invalid_number(line: usize, column: usize, span: Slice) -> Diagnostic {
        Diagnostic {
            span,
            ..hinted(
                ErrorCodes::InvalidNumberLiteral,
                line,
                column,
                "number literals can't have alphabetical characters in them!"@,
            )
        }
    }

    pub open spec fn spec_unimplemented_feature(line: usize, column: usize) -> Diagnostic {
        hinted(
            ErrorCodes::UnimplementedFeature,
            line,
            column,
            "this feature is not yet implemented in Qlang, it may be added or removed in a future version"@,
        )
    }

    pub open spec fn spec_curly_bracket_import(line: usize, column: usize) -> Diagnostic {
        hinted(
            ErrorCodes::ImportMalformedMemberList,
            line,
            column,
            "import statements use parentheses"@,
        )
    }

    pub open spec fn spec_import_member_list(
        expected: Seq<char>,
        got: Tokens,
        line: usize,
        column: usize,
    ) -> Diagnostic {
        hinted(ErrorCodes::ImportMalformedMemberList, line, column, expectation(expected, got))
    }

    /// `import ... from` is not followed by a string literal.
    pub fn import_no_lib(line: usize, column: usize) -> (e: CompileError)
        ensures
            e@ == Self::spec_import_no_lib(line, column),
    {
        with_hint(
            ErrorCodes::ImportMissingLibrary,
            line,
            column,
            "did you forget to add a library?",
        )
    }

    /// A grammar position that requires `expected` holds a token of kind
    /// `got`.
    pub fn unexpected_token(expected: &str, got: Tokens, line: usize, column: usize) -> (e:
        CompileError)
        ensures
            e@ == Self::spec_unexpected_token(expected@, got, line, column),
    {
        let hint = expectation_text(expected, got);
        with_hint(ErrorCodes::UnexpectedToken, line, column, hint.as_str())
    }

    /// A statement ends with a token of kind `got` instead of `;`.
    pub fn expected_semicolon(got: Tokens, line: usize, column: usize) -> (e: CompileError)
        ensures
            e@ == Self::spec_expected_semicolon(got, line, column),
    {
        let hint = expectation_text("semicolon", got);
        with_hint(ErrorCodes::ExpectedSemicolon, line, column, hint.as_str())
    }

    /// The tokens ran out before a construct was complete.
    pub fn unexpected_end_of_input(line: usize, column: usize) -> (e: CompileError)
        ensures
            e@ == Self::spec_unexpected_end_of_input(line, column),
    {
        CompileErrorBuilder::init(ErrorCodes::UnexpectedEOF).message(
            String::from_str("Unexpected end of input"),
        ).at(Position { line, column }).build()
    }

    /// The members of an import are not followed by the keyword `from`.
    pub fn import_keyword(line: usize, column: usize) -> (e: CompileError)
        ensures
            e@ == Self::spec_import_keyword(line, column),
    {
        let e = CompileErrorBuilder::init(ErrorCodes::UnexpectedToken).message(
            String::from_str("Unknown keyword"),
        ).at(Position { line, column }).hint(
            "imports in Qlang work strangely, see the documentation for more info",
        ).build();
        assert(e@.hints =~= seq![
            "imports in Qlang work strangely, see the documentation for more info"@,
        ]);
        e
    }

    /// Digits are directly followed by letters. The diagnostic points at
    /// `line` and `column` and covers `span`, the bytes of the literal, so
    /// that its underline is as wide as the literal.
    pub fn invalid_number(line: usize, column: usize, span: Slice) -> (e: CompileError)
        ensures
            e@ == Self::spec_invalid_number(line, column, span),
            e@.code == ErrorCodes::InvalidNumberLiteral.spec_code(),
            e@.at == (Position { line, column }),
            e@.span == span,
    {
        let mut e = with_hint(
            ErrorCodes::InvalidNumberLiteral,
            line,
            column,
            "number literals can't have alphabetical characters in them!",
        );
        e.set_span(span);
        e
    }

    /// A construct that is recognised but not supported.
    pub fn unimplemented_feature(line: usize, column: usize) -> (e: CompileError)
        ensures
            e@ == Self::spec_unimplemented_feature(line, column),
    {
        with_hint(
            ErrorCodes::UnimplementedFeature,
            line,
            column,
            "this feature is not yet implemented in Qlang, it may be added or removed in a future version",
        )
    }

    /// The members of an import stand in the wrong kind of bracket.
    pub fn curly_bracket_import(line: usize, column: usize) -> (e: CompileError)
        ensures
            e@ == Self::spec_curly_bracket_import(line, column),
    {
        with_hint(
            ErrorCodes::ImportMalformedMemberList,
            line,
            column,
            "import statements use parentheses",
        )
    }

    /// A list of import members holds a token of kind `got` where `expected`
    /// is required.
    pub fn import_member_list(expected: &str, got: Tokens, line: usize, column: usize) -> (e:
        CompileError)
        ensures
            e@ == Self::spec_import_member_list(expected@, got, line, column),
    {
        let hint = expectation_text(expected, got);
        with_hint(ErrorCodes::ImportMalformedMemberList, line, column, hint.as_str())
    }
}

} // verus!
