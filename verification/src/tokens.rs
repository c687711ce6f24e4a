//! Lexical units: the closed set of token kinds and the token that carries a
//! kind with its place in the source.

use vstd::prelude::*;
use crate::span::{Position, Slice};

verus! {

/// The kind of a token, with its payload where it has one.
///
/// Literals and names that are read from the source keep their byte range
/// rather than a copy of the text. A string's range excludes its quotes; an
/// atom's range includes its colon; a float's range is the whole literal.
#[derive(Clone, Copy, Debug, PartialEq, Eq, Structural)]
pub enum Tokens {
    LParen,
    RParen,
    LBrace,
    RBrace,
    LSquare,
    RSquare,
    Semicolon,
    Colon,
    Comma,
    Equals,
    RArrow,
    Plus,
    Minus,
    Star,
    Slash,
    Percent,
    Caret,
    Lt,
    Gt,
    Le,
    Ge,
    Eq,
    Ne,
    Integer(i32),
    Float(Slice),
    Char(char),
    String(Slice),
    Identifier(Slice),
    Atom(Slice),
    Import,
    From,
    Const,
    Fn,
    Null,
    Undefined,
    Boolean(bool),
    /// Digits immediately followed by a letter, or a whole number too large
    /// for an `i32`.
    InvalidNumber,
    /// Text that starts no token: a stray character, an unterminated quote,
    /// or a character literal that does not hold exactly one character.
    Unknown,
    /// The sentinel that ends every token stream.
    EndOfInput,
}

/// A token: its kind, the bytes it covers and the position of its first byte.
#[derive(Clone, Copy, Debug, PartialEq, Eq, Structural)]
pub struct Token {
    pub kind: Tokens,
    pub span: Slice,
    pub position: Position,
}

impl Tokens {
    /// The kinds that can stand where a value is expected: literals,
    /// identifiers, atoms and the constant keywords.
    pub open spec fn spec_is_value(self) -> bool {
        match self {
            Tokens::Integer(_) | Tokens::Float(_) | Tokens::Char(_) | Tokens::String(_)
            | Tokens::Identifier(_) | Tokens::Atom(_) | Tokens::Boolean(_) | Tokens::Null
            | Tokens::Undefined => true,
            _ => false,
        }
    }

    /// Whether a token of this kind can stand where a value is expected.
    #[verifier::when_used_as_spec(spec_is_value)]
    pub fn is_value(self) -> (b: bool)
        ensures
            b == self.spec_is_value(),
    {
        match self {
            Tokens::Integer(_) | Tokens::Float(_) | Tokens::Char(_) | Tokens::String(_)
            | Tokens::Identifier(_) | Tokens::Atom(_) | Tokens::Boolean(_) | Tokens::Null
            | Tokens::Undefined => true,
            _ => false,
        }
    }
}

impl Tokens {
    /// The name of the kind, as diagnostics show it.
    pub open spec fn spec_name(self) -> Seq<char> {
        match self {
            Tokens::LParen => "`(`"@,
            Tokens::RParen => "`)`"@,
            Tokens::LBrace => "`{`"@,
            Tokens::RBrace => "`}`"@,
            Tokens::LSquare => "`[`"@,
            Tokens::RSquare => "`]`"@,
            Tokens::Semicolon => "`;`"@,
            Tokens::Colon => "`:`"@,
            Tokens::Comma => "`,`"@,
            Tokens::Equals => "`=`"@,
            Tokens::RArrow => "`->`"@,
            Tokens::Plus => "`+`"@,
            Tokens::Minus => "`-`"@,
            Tokens::Star => "`*`"@,
            Tokens::Slash => "`/`"@,
            Tokens::Percent => "`%`"@,
            Tokens::Caret => "`^`"@,
            Tokens::Lt => "`<`"@,
            Tokens::Gt => "`>`"@,
            Tokens::Le => "`<=`"@,
            Tokens::Ge => "`>=`"@,
            Tokens::Eq => "`==`"@,
            Tokens::Ne => "`!=`"@,
            Tokens::Integer(_) => "an integer"@,
            Tokens::Float(_) => "a float"@,
            Tokens::Char(_) => "a character"@,
            Tokens::String(_) => "a string"@,
            Tokens::Identifier(_) => "an identifier"@,
            Tokens::Atom(_) => "an atom"@,
            Tokens::Import => "`import`"@,
            Tokens::From => "`from`"@,
            Tokens::Const => "`const`"@,
            Tokens::Fn => "`fn`"@,
            Tokens::Null => "`null`"@,
            Tokens::Undefined => "`undefined`"@,
            Tokens::Boolean(_) => "a boolean"@,
            Tokens::InvalidNumber => "an invalid number"@,
            Tokens::Unknown => "an unknown token"@,
            Tokens::EndOfInput => "the end of input"@,
        }
    }

    /// The name of the kind, as diagnostics show it.
    pub fn name(self) -> (s: &'static str)
        ensures
            s@ == self.spec_name(),
    {
        match self {
            Tokens::LParen => "`(`",
            Tokens::RParen => "`)`",
            Tokens::LBrace => "`{`",
            Tokens::RBrace => "`}`",
            Tokens::LSquare => "`[`",
            Tokens::RSquare => "`]`",
            Tokens::Semicolon => "`;`",
            Tokens::Colon => "`:`",
            Tokens::Comma => "`,`",
            Tokens::Equals => "`=`",
            Tokens::RArrow => "`->`",
            Tokens::Plus => "`+`",
            Tokens::Minus => "`-`",
            Tokens::Star => "`*`",
            Tokens::Slash => "`/`",
            Tokens::Percent => "`%`",
            Tokens::Caret => "`^`",
            Tokens::Lt => "`<`",
            Tokens::Gt => "`>`",
            Tokens::Le => "`<=`",
            Tokens::Ge => "`>=`",
            Tokens::Eq => "`==`",
            Tokens::Ne => "`!=`",
            Tokens::Integer(_) => "an integer",
            Tokens::Float(_) => "a float",
            Tokens::Char(_) => "a character",
            Tokens::String(_) => "a string",
            Tokens::Identifier(_) => "an identifier",
            Tokens::Atom(_) => "an atom",
            Tokens::Import => "`import`",
            Tokens::From => "`from`",
            Tokens::Const => "`const`",
            Tokens::Fn => "`fn`",
            Tokens::Null => "`null`",
            Tokens::Undefined => "`undefined`",
            Tokens::Boolean(_) => "a boolean",
            Tokens::InvalidNumber => "an invalid number",
            Tokens::Unknown => "an unknown token",
            Tokens::EndOfInput => "the end of input",
        }
    }
}

impl Token {
    /// Whether the tokenizer could not classify the text under this token.
    pub fn is_unknown(&self) -> (b: bool)
        ensures
            b == (self.kind is Unknown),
    {
        match self.kind {
            Tokens::Unknown => true,
            _ => false,
        }
    }
}

} // verus!
