//! The recursive-descent parser: it builds the tree that the grammar
//! describes and gathers a diagnostic for each statement that violates it.

use vstd::prelude::*;
use vstd::string::StringSliceAdditionalSpecFns;
use vstd::utf8::encode_utf8;
use crate::ast::{
    lemma_trees_empty, lemma_trees_push, trees, ImportMember, Node, NodeType, Operator, TopLevel,
    Tree,
};
use crate::error::{CompileError, CompileErrorBuilder, Diagnostic, Errors};
use crate::grammar::{
    block, block_end, block_item, block_items, call_args, const_name, const_statement, describe,
    diagnosis, expression, function, import_members, import_path, import_statement, kind_at,
    member_list, name_at, next_semicolon, operator_of, parameter_list, parameters, program,
    program_from, recovery, return_type, statement, text_of, token_at, type_at, value, Expected,
    Failure, Outcome, Parsed,
};
use crate::lexer::{bytes_spell, token_stream, tokenize};
use crate::order::{in_order, lemma_diagnostics_in_source_order};
use crate::span::{Position, Slice};
use crate::tokens::{Token, Tokens};

verus! {

/// A result with a view agrees with an outcome of the grammar: the same
/// value and next index, or the same failure. A construct that is found
/// ends after index `i` and no later than the end of the `len` tokens.
pub open spec fn same<T: View>(r: Result<(T, usize), Failure>, p: Parsed<T::V>, i: int, len: int)
    -> bool {
    match r {
        Ok((v, next)) => p == (Parsed::Done { value: v@, next: next as int }) && i < next <= len,
        Err(f) => p == (Parsed::<T::V>::Failed { expected: f.expected, at: f.at as int }) && i
            <= f.at,
    }
}

/// As `same`, for a value that is its own model.
pub open spec fn same_plain<T>(r: Result<(T, usize), Failure>, p: Parsed<T>, i: int, len: int)
    -> bool {
    match r {
        Ok((v, next)) => p == (Parsed::Done { value: v, next: next as int }) && i < next <= len,
        Err(f) => p == (Parsed::<T>::Failed { expected: f.expected, at: f.at as int }) && i
            <= f.at,
    }
}

/// As `same`, for a list of nodes.
pub open spec fn same_trees(
    r: Result<(Vec<Node>, usize), Failure>,
    p: Parsed<Seq<Tree>>,
    i: int,
    len: int,
) -> bool {
    match r {
        Ok((v, next)) => p == (Parsed::Done { value: trees(v@), next: next as int }) && i < next
            <= len,
        Err(f) => p == (Parsed::<Seq<Tree>>::Failed { expected: f.expected, at: f.at as int })
            && i <= f.at,
    }
}

/// The views of a list of diagnostics.
pub open spec fn diagnostics_of(errors: Seq<CompileError>) -> Seq<Diagnostic> {
    Seq::new(errors.len(), |k: int| errors[k]@)
}

/// A parser over the tokens of one source text. The tokens are read-only;
/// every parsing function takes the index of the token it starts at and
/// returns the index after what it parsed.
pub struct Parser<'a> {
    pub raw: &'a str,
    pub tokens: Vec<Token>,
}

impl<'a> Parser<'a> {
    /// A parser over the token stream of `raw`.
    pub fn new(raw: &'a str) -> (p: Self)
        ensures
            p.raw == raw,
            p.tokens@ == token_stream(raw.spec_bytes()),
    {
        Parser { raw, tokens: tokenize(raw) }
    }

    /// The token at index `at`; past the end, a sentinel placed where the
    /// last token is.
    pub fn token(&self, at: usize) -> (t: Token)
        ensures
            t == token_at(self.tokens@, at as int),
            !(t.kind is EndOfInput) ==> at < self.tokens@.len() && at < usize::MAX,
    {
        let n = self.tokens.len();
        if at < n {
            self.tokens[at]
        } else if n > 0 {
            let last = self.tokens[n - 1];
            Token { kind: Tokens::EndOfInput, span: last.span, position: last.position }
        } else {
            Token {
                kind: Tokens::EndOfInput,
                span: Slice { start: 0, end: 0 },
                position: Position { line: 0, column: 0 },
            }
        }
    }

    /// The kind of the token at index `at`.
    pub fn peek(&self, at: usize) -> (k: Tokens)
        ensures
            k == kind_at(self.tokens@, at as int),
            !(k is EndOfInput) ==> at < self.tokens@.len() && at < usize::MAX,
    {
        self.token(at).kind
    }

    /// The span of the token at index `at`.
    pub fn span(&self, at: usize) -> (s: Slice)
        ensures
            s == token_at(self.tokens@, at as int).span,
    {
        self.token(at).span
    }

    /// Whether the bytes of the source in the range `s` spell `word`; a
    /// range that does not lie in the source holds no bytes.
    fn spells(&self, s: Slice, word: &str) -> (r: bool)
        ensures
            r == (text_of(self.raw.spec_bytes(), s) == word.spec_bytes()),
    {
        let bytes = self.raw.as_bytes();
        if s.start <= s.end && s.end <= bytes.len() {
            bytes_spell(bytes, s.start, s.end, word)
        } else {
            assert(bytes@.subrange(0, 0) =~= Seq::<u8>::empty());
            bytes_spell(bytes, 0, 0, word)
        }
    }

    /// The operator that the token at index `at` denotes, if it is one.
    pub fn resolve_op(&self, at: usize) -> (r: Option<Operator>)
        ensures
            r == operator_of(kind_at(self.tokens@, at as int)),
            r is Some ==> at < self.tokens@.len() && at < usize::MAX,
    {
        match self.peek(at) {
            Tokens::Plus => Some(Operator::Add),
            Tokens::Minus => Some(Operator::Sub),
            Tokens::Star => Some(Operator::Mul),
            Tokens::Slash => Some(Operator::Div),
            Tokens::Percent => Some(Operator::Mod),
            Tokens::Caret => Some(Operator::Pow),
            Tokens::Eq => Some(Operator::Eq),
            Tokens::Ne => Some(Operator::Ne),
            Tokens::Lt => Some(Operator::Lt),
            Tokens::Le => Some(Operator::Le),
            Tokens::Gt => Some(Operator::Gt),
            Tokens::Ge => Some(Operator::Ge),
            _ => None,
        }
    }

    /// Requires a token of kind `kind` at index `at` and steps over it; the
    /// failure names `expected`. Past the end of the tokens there is
    /// nothing to step over.
    pub fn ensure(&self, at: usize, kind: Tokens, expected: Expected) -> (r: Result<
        usize,
        Failure,
    >)
        ensures
            match r {
                Ok(next) => at < self.tokens@.len() && self.tokens@[at as int].kind == kind
                    && next == at + 1,
                Err(f) => !(at < self.tokens@.len() && self.tokens@[at as int].kind == kind)
                    && f == (Failure { expected, at }),
            },
    {
        if at < self.tokens.len() && self.tokens[at].kind == kind {
            Ok(at + 1)
        } else {
            Err(Failure { expected, at })
        }
    }

    /// Requires `;` at index `at` and steps over it.
    pub fn ensure_semicolon(&self, at: usize) -> (r: Result<usize, Failure>)
        ensures
            match r {
                Ok(next) => kind_at(self.tokens@, at as int) is Semicolon && next == at + 1
                    && at < self.tokens@.len(),
                Err(f) => !(kind_at(self.tokens@, at as int) is Semicolon) && f == (Failure {
                    expected: Expected::Semicolon,
                    at,
                }),
            },
    {
        self.ensure(at, Tokens::Semicolon, Expected::Semicolon)
    }

    /// Parses a value at index `at`: a literal, an identifier, or a call.
    pub fn parse_value(&self, at: usize) -> (r: Result<(Node, usize), Failure>)
        ensures
            same(r, value(self.tokens@, at as int), at as int, self.tokens@.len() as int),
        decreases self.tokens@.len() - at, 0int,
    {
        match self.peek(at) {
            Tokens::Identifier(name) => {
                if let Tokens::LParen = self.peek(at + 1) {
                    match self.parse_call_args(at + 2) {
                        Ok((args, next)) => Ok((Node::Call { callee: name, args }, next)),
                        Err(f) => Err(f),
                    }
                } else {
                    Ok((Node::Identifier(name), at + 1))
                }
            },
            Tokens::String(s) => Ok((Node::String(s), at + 1)),
            Tokens::Integer(i) => Ok((Node::Integer(i), at + 1)),
            Tokens::Float(s) => Ok((Node::Float(s), at + 1)),
            Tokens::Char(c) => Ok((Node::Char(c), at + 1)),
            Tokens::Boolean(b) => Ok((Node::Boolean(b), at + 1)),
            Tokens::Null => Ok((Node::Null, at + 1)),
            Tokens::Undefined => Ok((Node::Undefined, at + 1)),
            Tokens::Atom(s) => Ok((Node::Atom(s), at + 1)),
            _ => Err(Failure { expected: Expected::Value, at }),
        }
    }

    /// Parses the arguments of a call from index `at`, behind the `(`, up
    /// to and including the `)`.
    pub fn parse_call_args(&self, at: usize) -> (r: Result<(Vec<Node>, usize), Failure>)
        ensures
            same_trees(
                r,
                call_args(self.tokens@, at as int, Seq::<Tree>::empty()),
                at as int,
                self.tokens@.len() as int,
            ),
        decreases self.tokens@.len() - at, 1int,
    {
        let mut args: Vec<Node> = Vec::new();
        let mut i: usize = at;
        proof {
            lemma_trees_empty();
        }
        loop
            invariant
                at <= i,
                i == at || i <= self.tokens@.len(),
                call_args(self.tokens@, at as int, Seq::<Tree>::empty()) == call_args(
                    self.tokens@,
                    i as int,
                    trees(args@),
                ),
            decreases
                    if i <= self.tokens@.len() {
                        self.tokens@.len() - i
                    } else {
                        0
                    },
        {
            if let Tokens::RParen = self.peek(i) {
                return Ok((args, i + 1));
            }
            match self.parse_value(i) {
                Err(f) => {
                    return Err(f);
                },
                Ok((arg, next)) => {
                    proof {
                        lemma_trees_push(args@, arg);
                    }
                    match self.peek(next) {
                        Tokens::Comma => {
                            args.push(arg);
                            i = next + 1;
                        },
                        Tokens::RParen => {
                            args.push(arg);
                            return Ok((args, next + 1));
                        },
                        _ => {
                            return Err(Failure { expected: Expected::ArgumentSeparator, at: next });
                        },
                    }
                },
            }
        }
    }

    /// Parses an expression at index `at`: a value, or two values joined by
    /// one operator.
    pub fn parse_expr(&self, at: usize) -> (r: Result<(Node, usize), Failure>)
        ensures
            same(r, expression(self.tokens@, at as int), at as int, self.tokens@.len() as int),
    {
        match self.parse_value(at) {
            Err(f) => Err(f),
            Ok((left, next)) => match self.resolve_op(next) {
                None => Ok((left, next)),
                Some(op) => match self.parse_value(next + 1) {
                    Err(f) => Err(f),
                    Ok((right, after)) => Ok(
                        (
                            Node::BinaryExpr { left: Box::new(left), op, right: Box::new(right) },
                            after,
                        ),
                    ),
                },
            },
        }
    }
}

impl<'a> Parser<'a> {
    /// Parses a parenthesized list of import members from index `at`,
    /// behind the `(`, up to and including the `)`.
    fn parse_member_list(&self, at: usize) -> (r: Result<(ImportMember, usize), Failure>)
        ensures
            same(
                r,
                member_list(self.tokens@, at as int, Seq::<Slice>::empty()),
                at as int,
                self.tokens@.len() as int,
            ),
    {
        let mut names: Vec<Slice> = Vec::new();
        let mut i: usize = at;
        loop
            invariant
                at <= i,
                i == at || i <= self.tokens@.len(),
                member_list(self.tokens@, at as int, Seq::<Slice>::empty()) == member_list(
                    self.tokens@,
                    i as int,
                    names@,
                ),
            decreases
                    if i <= self.tokens@.len() {
                        self.tokens@.len() - i
                    } else {
                        0
                    },
        {
            match self.peek(i) {
                Tokens::Identifier(name) => {
                    match self.peek(i + 1) {
                        Tokens::Comma => {
                            names.push(name);
                            i = i + 2;
                        },
                        Tokens::RParen => {
                            names.push(name);
                            return Ok((ImportMember::Named(names), i + 2));
                        },
                        _ => {
                            return Err(
                                Failure { expected: Expected::MemberSeparator, at: i + 1 },
                            );
                        },
                    }
                },
                Tokens::RParen => {
                    return Ok((ImportMember::Named(names), i + 1));
                },
                _ => {
                    return Err(Failure { expected: Expected::Member, at: i });
                },
            }
        }
    }

    /// Parses what an import brings in, at index `at`: one identifier, `*`,
    /// or a parenthesized list.
    fn parse_import_members(&self, at: usize) -> (r: Result<(ImportMember, usize), Failure>)
        ensures
            same(r, import_members(self.tokens@, at as int), at as int, self.tokens@.len() as int),
    {
        match self.peek(at) {
            Tokens::Identifier(name) => Ok((ImportMember::All(name), at + 1)),
            Tokens::Star => Ok((ImportMember::Wildcard, at + 1)),
            Tokens::LParen => self.parse_member_list(at + 1),
            _ => Err(Failure { expected: Expected::ImportMembers, at }),
        }
    }

    /// Parses `from`, the string that names the library, and `;`, from
    /// index `at`; gives the range of the library's name.
    pub fn resolve_import_path(&self, at: usize) -> (r: Result<(Slice, usize), Failure>)
        ensures
            same_plain(
                r,
                import_path(self.tokens@, at as int),
                at as int,
                self.tokens@.len() as int,
            ),
    {
        match self.ensure(at, Tokens::From, Expected::From) {
            Err(f) => Err(f),
            Ok(next) => match self.peek(next) {
                Tokens::String(path) => match self.ensure_semicolon(next + 1) {
                    Err(f) => Err(f),
                    Ok(after) => Ok((path, after)),
                },
                _ => Err(Failure { expected: Expected::Library, at: next }),
            },
        }
    }

    /// Parses an import statement from index `at`, where the `import` is
    /// required.
    pub fn parse_import(&self, at: usize) -> (r: Result<(Node, usize), Failure>)
        ensures
            same(
                r,
                import_statement(self.tokens@, at as int),
                at as int,
                self.tokens@.len() as int,
            ),
    {
        let first = match self.ensure(at, Tokens::Import, Expected::Statement) {
            Err(f) => {
                return Err(f);
            },
            Ok(next) => next,
        };
        match self.parse_import_members(first) {
            Err(f) => Err(f),
            Ok((members, next)) => match self.resolve_import_path(next) {
                Err(f) => Err(f),
                Ok((path, after)) => Ok((Node::Import { path, members }, after)),
            },
        }
    }

    /// Parses the identifier and the `=` of a constant, from index `at`;
    /// gives the range of the name.
    pub fn resolve_const_name(&self, at: usize) -> (r: Result<(Slice, usize), Failure>)
        ensures
            same_plain(
                r,
                const_name(self.tokens@, at as int),
                at as int,
                self.tokens@.len() as int,
            ),
    {
        match self.peek(at) {
            Tokens::Identifier(name) => match self.ensure(
                at + 1,
                Tokens::Equals,
                Expected::Equals,
            ) {
                Err(f) => Err(f),
                Ok(next) => Ok((name, next)),
            },
            _ => Err(Failure { expected: Expected::Name, at }),
        }
    }

    /// Parses a constant declaration from index `at`, where the `const` is
    /// required.
    pub fn parse_const(&self, at: usize) -> (r: Result<(Node, usize), Failure>)
        ensures
            same(
                r,
                const_statement(self.tokens@, at as int),
                at as int,
                self.tokens@.len() as int,
            ),
    {
        let first = match self.ensure(at, Tokens::Const, Expected::Statement) {
            Err(f) => {
                return Err(f);
            },
            Ok(next) => next,
        };
        match self.resolve_const_name(first) {
            Err(f) => Err(f),
            Ok((name, next)) => match self.parse_expr(next) {
                Err(f) => Err(f),
                Ok((value, after)) => match self.ensure_semicolon(after) {
                    Err(f) => Err(f),
                    Ok(end) => Ok((Node::ConstDeclaration { name, value: Box::new(value) }, end)),
                },
            },
        }
    }

    /// Parses an identifier at index `at`; gives its range.
    pub fn resolve_ident(&self, at: usize) -> (r: Result<(Slice, usize), Failure>)
        ensures
            same_plain(r, name_at(self.tokens@, at as int), at as int, self.tokens@.len() as int),
    {
        match self.peek(at) {
            Tokens::Identifier(name) => Ok((name, at + 1)),
            _ => Err(Failure { expected: Expected::Name, at }),
        }
    }

    /// Parses a type at index `at`: an identifier that spells `int`,
    /// `float`, `char` or `str`.
    pub fn resolve_type(&self, at: usize) -> (r: Result<(NodeType, usize), Failure>)
        ensures
            same_plain(
                r,
                type_at(self.tokens@, self.raw.spec_bytes(), at as int),
                at as int,
                self.tokens@.len() as int,
            ),
    {
        match self.peek(at) {
            Tokens::Identifier(s) => {
                if self.spells(s, "int") {
                    Ok((NodeType::Integer, at + 1))
                } else if self.spells(s, "float") {
                    Ok((NodeType::Float, at + 1))
                } else if self.spells(s, "char") {
                    Ok((NodeType::Char, at + 1))
                } else if self.spells(s, "str") {
                    Ok((NodeType::String, at + 1))
                } else {
                    Err(Failure { expected: Expected::Type, at })
                }
            },
            _ => Err(Failure { expected: Expected::Type, at }),
        }
    }

    /// Parses the parameters of a function from index `at`, where the `(`
    /// is required, up to and including the `)`.
    pub fn parse_fn_args(&self, at: usize) -> (r: Result<(Vec<(Slice, NodeType)>, usize), Failure>)
        ensures
            same(
                r,
                parameter_list(self.tokens@, self.raw.spec_bytes(), at as int),
                at as int,
                self.tokens@.len() as int,
            ),
    {
        let first = match self.ensure(at, Tokens::LParen, Expected::LParen) {
            Err(f) => {
                return Err(f);
            },
            Ok(next) => next,
        };
        let ghost src = self.raw.spec_bytes();
        let mut params: Vec<(Slice, NodeType)> = Vec::new();
        let mut i: usize = first;
        loop
            invariant
                src == self.raw.spec_bytes(),
                at < first <= i <= self.tokens@.len(),
                parameter_list(self.tokens@, src, at as int) == parameters(
                    self.tokens@,
                    src,
                    i as int,
                    params@,
                ),
            decreases self.tokens@.len() - i,
        {
            match self.peek(i) {
                Tokens::RParen => {
                    return Ok((params, i + 1));
                },
                Tokens::Identifier(name) => {
                    match self.ensure(i + 1, Tokens::Colon, Expected::Colon) {
                        Err(f) => {
                            return Err(f);
                        },
                        Ok(_) => {},
                    }
                    match self.resolve_type(i + 2) {
                        Err(f) => {
                            return Err(f);
                        },
                        Ok((t, _)) => {
                            match self.peek(i + 3) {
                                Tokens::Comma => {
                                    params.push((name, t));
                                    i = i + 4;
                                },
                                Tokens::RParen => {
                                    params.push((name, t));
                                    return Ok((params, i + 4));
                                },
                                _ => {
                                    return Err(
                                        Failure {
                                            expected: Expected::ParameterSeparator,
                                            at: i + 3,
                                        },
                                    );
                                },
                            }
                        },
                    }
                },
                _ => {
                    return Err(Failure { expected: Expected::Parameter, at: i });
                },
            }
        }
    }

    /// Parses the result type of a function from index `at`, where the
    /// `->` is required.
    pub fn parse_fn_ret(&self, at: usize) -> (r: Result<(NodeType, usize), Failure>)
        ensures
            same_plain(
                r,
                return_type(self.tokens@, self.raw.spec_bytes(), at as int),
                at as int,
                self.tokens@.len() as int,
            ),
    {
        match self.ensure(at, Tokens::RArrow, Expected::Arrow) {
            Err(f) => Err(f),
            Ok(next) => self.resolve_type(next),
        }
    }

    /// Parses a function declaration from index `at`, where the `fn` is
    /// required.
    pub fn parse_fn(&self, at: usize) -> (r: Result<(Node, usize), Failure>)
        ensures
            same(
                r,
                function(self.tokens@, self.raw.spec_bytes(), at as int),
                at as int,
                self.tokens@.len() as int,
            ),
        decreases self.tokens@.len() - at, 0int,
    {
        let first = match self.ensure(at, Tokens::Fn, Expected::Statement) {
            Err(f) => {
                return Err(f);
            },
            Ok(next) => next,
        };
        let (name, next) = match self.resolve_ident(first) {
            Err(f) => {
                return Err(f);
            },
            Ok(found) => found,
        };
        let (params, next) = match self.parse_fn_args(next) {
            Err(f) => {
                return Err(f);
            },
            Ok(found) => found,
        };
        let (return_type, next) = match self.parse_fn_ret(next) {
            Err(f) => {
                return Err(f);
            },
            Ok(found) => found,
        };
        if next >= self.tokens.len() {
            return Err(Failure { expected: Expected::LBrace, at: next });
        }
        match self.parse_block(next) {
            Err(f) => Err(f),
            Ok((body, end)) => Ok(
                (Node::FunctionDeclaration { name, params, return_type, body: Box::new(body) }, end),
            ),
        }
    }

    /// Parses a block from index `at`, where the `{` is required, up to
    /// and including the `}`.
    pub fn parse_block(&self, at: usize) -> (r: Result<(Node, usize), Failure>)
        ensures
            same(
                r,
                block(self.tokens@, self.raw.spec_bytes(), at as int),
                at as int,
                self.tokens@.len() as int,
            ),
        decreases self.tokens@.len() - at, 2int,
    {
        let first = match self.ensure(at, Tokens::LBrace, Expected::LBrace) {
            Err(f) => {
                return Err(f);
            },
            Ok(next) => next,
        };
        let ghost src = self.raw.spec_bytes();
        let mut items: Vec<Node> = Vec::new();
        let mut i: usize = first;
        proof {
            lemma_trees_empty();
        }
        loop
            invariant
                src == self.raw.spec_bytes(),
                kind_at(self.tokens@, at as int) is LBrace,
                first == at + 1,
                at < first <= i <= self.tokens@.len(),
                block_items(self.tokens@, src, first as int, Seq::<Tree>::empty()) == block_items(
                    self.tokens@,
                    src,
                    i as int,
                    trees(items@),
                ),
            decreases self.tokens@.len() - i,
        {
            match self.peek(i) {
                Tokens::RBrace => {
                    return Ok((Node::Block(items), i + 1));
                },
                Tokens::Semicolon => {
                    i = i + 1;
                },
                _ => {
                    match self.parse_stmt_or_expr(i) {
                        Err(f) => {
                            return Err(f);
                        },
                        Ok((item, next)) => {
                            proof {
                                lemma_trees_push(items@, item);
                            }
                            items.push(item);
                            i = next;
                        },
                    }
                },
            }
        }
    }

    /// Parses one item of a block at index `at`: a nested function, a
    /// nested block, or an expression followed by `;`.
    pub fn parse_stmt_or_expr(&self, at: usize) -> (r: Result<(Node, usize), Failure>)
        ensures
            same(
                r,
                block_item(self.tokens@, self.raw.spec_bytes(), at as int),
                at as int,
                self.tokens@.len() as int,
            ),
        decreases self.tokens@.len() - at, 3int,
    {
        let kind = self.peek(at);
        match kind {
            Tokens::Fn => self.parse_fn(at),
            Tokens::LBrace => self.parse_block(at),
            _ => {
                if kind.is_value() {
                    match self.parse_expr(at) {
                        Err(f) => Err(f),
                        Ok((value, next)) => match self.ensure_semicolon(next) {
                            Err(f) => Err(f),
                            Ok(after) => Ok((value, after)),
                        },
                    }
                } else {
                    Err(Failure { expected: Expected::BlockItem, at })
                }
            },
        }
    }

    /// Parses the statement of the top level at index `at`: an import, a
    /// constant or a function, by its first token.
    pub fn parse_statement(&self, at: usize) -> (r: Result<(Node, usize), Failure>)
        ensures
            same(
                r,
                statement(self.tokens@, self.raw.spec_bytes(), at as int),
                at as int,
                self.tokens@.len() as int,
            ),
    {
        match self.peek(at) {
            Tokens::Import => self.parse_import(at),
            Tokens::Const => self.parse_const(at),
            Tokens::Fn => self.parse_fn(at),
            _ => Err(Failure { expected: Expected::Statement, at }),
        }
    }
}


/// How a required construct is named in a hint.
fn describe_text(expected: Expected) -> (s: &'static str)
    ensures
        s@ == describe(expected),
{
    match expected {
        Expected::Statement => "`import`, `const` or `fn`",
        Expected::ImportMembers => "an identifier, `*` or `(`",
        Expected::Member => "an identifier or `)`",
        Expected::MemberSeparator => "`,` or `)`",
        Expected::From => "`from`",
        Expected::Library => "a string",
        Expected::Semicolon => "semicolon",
        Expected::Name => "an identifier",
        Expected::Equals => "`=`",
        Expected::Value => "a value",
        Expected::ArgumentSeparator => "`,` or `)`",
        Expected::LParen => "`(`",
        Expected::Parameter => "an identifier or `)`",
        Expected::Colon => "`:`",
        Expected::Type => "a type",
        Expected::ParameterSeparator => "`,` or `)`",
        Expected::Arrow => "`->`",
        Expected::LBrace => "`{`",
        Expected::BlockItem => "a statement or `}`",
    }
}

/// The diagnostic for the token `found` where `expected` is required.
pub fn diagnose(expected: Expected, found: &Token) -> (e: CompileError)
    ensures
        e@ == diagnosis(expected, *found),
{
    let got = found.kind;
    let line = found.position.line;
    let column = found.position.column;
    let what = describe_text(expected);
    let mut e = match got {
        Tokens::EndOfInput => Errors::unexpected_end_of_input(line, column),
        Tokens::InvalidNumber => Errors::invalid_number(line, column, found.span),
        _ => match expected {
            Expected::ImportMembers => match got {
                Tokens::LBrace | Tokens::LSquare => Errors::curly_bracket_import(line, column),
                _ => Errors::unexpected_token(what, got, line, column),
            },
            Expected::Member | Expected::MemberSeparator => Errors::import_member_list(
                what,
                got,
                line,
                column,
            ),
            Expected::From => Errors::import_keyword(line, column),
            Expected::Library => Errors::import_no_lib(line, column),
            Expected::Semicolon => Errors::expected_semicolon(got, line, column),
            Expected::Value => match got {
                Tokens::LBrace | Tokens::LSquare => Errors::unimplemented_feature(line, column),
                _ => Errors::unexpected_token(what, got, line, column),
            },
            _ => Errors::unexpected_token(what, got, line, column),
        },
    };
    e.set_span(found.span);
    e
}

impl<'a> Parser<'a> {
    /// A diagnostic with the given message and no code, pointing at the
    /// token at index `at`.
    pub fn error(&self, at: usize, message: &str) -> (e: CompileError)
        ensures
            e@ == (Diagnostic {
                message: message@,
                at: token_at(self.tokens@, at as int).position,
                span: token_at(self.tokens@, at as int).span,
                ..crate::error::blank()
            }),
    {
        let found = self.token(at);
        CompileErrorBuilder::new().code(0).message(String::from_str(message)).at(
            found.position,
        ).span(found.span).build()
    }

    /// The diagnostic for the token at index `failure.at`, where
    /// `failure.expected` is required.
    pub fn emit_error(&self, failure: Failure) -> (e: CompileError)
        ensures
            e@ == diagnosis(failure.expected, token_at(self.tokens@, failure.at as int)),
    {
        let found = self.token(failure.at);
        diagnose(failure.expected, &found)
    }

    /// Finds the index behind the first `;` at or after index `from`.
    fn skip_statement(&self, from: usize) -> (r: Option<usize>)
        ensures
            match r {
                Some(resume) => next_semicolon(self.tokens@, from as int) == Some(resume as int)
                    && from < resume <= self.tokens@.len(),
                None => next_semicolon(self.tokens@, from as int) is None,
            },
    {
        let n = self.tokens.len();
        let mut i: usize = from;
        while i < n
            invariant
                n == self.tokens@.len(),
                from <= i,
                next_semicolon(self.tokens@, from as int) == next_semicolon(
                    self.tokens@,
                    i as int,
                ),
            decreases n - i,
        {
            match self.tokens[i].kind {
                Tokens::EndOfInput => {
                    return None;
                },
                Tokens::Semicolon => {
                    return Some(i + 1);
                },
                _ => {},
            }
            i = i + 1;
        }
        None
    }

    /// Finds the index behind the end of the function that starts at index
    /// `from` and failed at index `floor`.
    fn skip_function(&self, from: usize, floor: usize) -> (r: Option<usize>)
        ensures
            match r {
                Some(resume) => block_end(self.tokens@, from as int, floor as int, 0) == Some(
                    resume as int,
                ) && from < resume <= self.tokens@.len() && floor < resume,
                None => block_end(self.tokens@, from as int, floor as int, 0) is None,
            },
    {
        let n = self.tokens.len();
        let mut i: usize = from;
        let mut depth: usize = 0;
        while i < n
            invariant
                n == self.tokens@.len(),
                from <= i,
                depth <= i - from,
                block_end(self.tokens@, from as int, floor as int, 0) == block_end(
                    self.tokens@,
                    i as int,
                    floor as int,
                    depth as nat,
                ),
            decreases n - i,
        {
            match self.tokens[i].kind {
                Tokens::EndOfInput => {
                    return None;
                },
                Tokens::LBrace => {
                    depth = depth + 1;
                },
                Tokens::RBrace => {
                    if depth <= 1 && i >= floor {
                        return Some(i + 1);
                    }
                    if depth > 0 {
                        depth = depth - 1;
                    }
                },
                Tokens::Semicolon => {
                    if depth == 0 && i >= floor {
                        return Some(i + 1);
                    }
                },
                _ => {},
            }
            i = i + 1;
        }
        None
    }

    /// Finds where parsing resumes after the statement that starts at index
    /// `start` has failed at index `at`: behind the next statement
    /// boundary, if one comes before the end of input.
    pub fn recover(&self, start: usize, at: usize) -> (r: Option<usize>)
        ensures
            match r {
                Some(resume) => recovery(self.tokens@, start as int, at as int) == Some(
                    resume as int,
                ) && at < resume <= self.tokens@.len(),
                None => recovery(self.tokens@, start as int, at as int) is None,
            },
    {
        if let Tokens::Fn = self.peek(start) {
            self.skip_function(start, at)
        } else {
            self.skip_statement(at)
        }
    }

    /// Parses the whole token stream. Every statement that follows the
    /// grammar is added to the program, under its kind and in source order;
    /// every statement that violates it adds one diagnostic, after which
    /// parsing resumes behind the next statement boundary. The parse ends at
    /// the end of input, also where that is met inside a statement or while
    /// looking for a boundary. It succeeds as a whole exactly if no
    /// diagnostic comes back.
    pub fn parse(self) -> (r: (TopLevel, Vec<CompileError>))
        ensures
            (Outcome { program: r.0@, diagnostics: diagnostics_of(r.1@) }) == program(
                self.tokens@,
                self.raw.spec_bytes(),
            ),
    {
        let ghost toks = self.tokens@;
        let ghost src = self.raw.spec_bytes();
        let mut top = TopLevel { imports: Vec::new(), consts: Vec::new(), functions: Vec::new() };
        let mut errors: Vec<CompileError> = Vec::new();
        let mut i: usize = 0;
        proof {
            lemma_trees_empty();
            assert(diagnostics_of(errors@) =~= Seq::<Diagnostic>::empty());
        }
        loop
            invariant
                toks == self.tokens@,
                src == self.raw.spec_bytes(),
                i <= toks.len(),
                program(toks, src) == program_from(
                    toks,
                    src,
                    i as int,
                    Outcome { program: top@, diagnostics: diagnostics_of(errors@) },
                ),
            decreases toks.len() - i,
        {
            match self.peek(i) {
                Tokens::EndOfInput => {
                    return (top, errors);
                },
                Tokens::Semicolon => {
                    i = i + 1;
                },
                _ => {
                    match self.parse_statement(i) {
                        Ok((node, next)) => {
                            proof {
                                lemma_trees_push(top.imports@, node);
                                lemma_trees_push(top.consts@, node);
                                lemma_trees_push(top.functions@, node);
                            }
                            match node {
                                Node::Import { .. } => {
                                    top.imports.push(node);
                                },
                                Node::ConstDeclaration { .. } => {
                                    top.consts.push(node);
                                },
                                Node::FunctionDeclaration { .. } => {
                                    top.functions.push(node);
                                },
                                _ => {},
                            }
                            i = next;
                        },
                        Err(failure) => {
                            let e = self.emit_error(failure);
                            proof {
                                assert(diagnostics_of(errors@.push(e)) =~= diagnostics_of(
                                    errors@,
                                ).push(e@));
                            }
                            errors.push(e);
                            if let Tokens::EndOfInput = self.peek(failure.at) {
                                return (top, errors);
                            }
                            match self.recover(i, failure.at) {
                                Some(resume) => {
                                    i = resume;
                                },
                                None => {
                                    return (top, errors);
                                },
                            }
                        },
                    }
                },
            }
        }
    }
}

/// Parses a source text: tokenizes it and parses the tokens. The
/// diagnostics come back in source order.
pub fn parse(source: &str) -> (r: (TopLevel, Vec<CompileError>))
    ensures
        (Outcome { program: r.0@, diagnostics: diagnostics_of(r.1@) }) == program(
            token_stream(source.spec_bytes()),
            source.spec_bytes(),
        ),
        in_order(diagnostics_of(r.1@)),
{
    let parser = Parser::new(source);
    let length: usize = source.as_bytes().len();
    proof {
        assert(source.spec_bytes().len() == length);
        lemma_diagnostics_in_source_order(source.spec_bytes());
    }
    parser.parse()
}


/// Texts that can be parsed as a program.
pub trait Parse: Sized {
    /// The bytes of the text.
    spec fn source(&self) -> Seq<u8>;

    /// Tokenizes and parses the text.
    fn parse(self) -> (r: (TopLevel, Vec<CompileError>))
        ensures
            (Outcome { program: r.0@, diagnostics: diagnostics_of(r.1@) }) == program(
                token_stream(self.source()),
                self.source(),
            ),
    ;
}

impl Parse for &str {
    open spec fn source(&self) -> Seq<u8> {
        self.spec_bytes()
    }

    fn parse(self) -> (r: (TopLevel, Vec<CompileError>)) {
        Parser::new(self).parse()
    }
}

impl Parse for String {
    open spec fn source(&self) -> Seq<u8> {
        encode_utf8(self@)
    }

    fn parse(self) -> (r: (TopLevel, Vec<CompileError>)) {
        Parser::new(self.as_str()).parse()
    }
}

impl TopLevel {
    /// Parses a source text as a whole: the program if the text follows
    /// the grammar throughout, and otherwise every diagnostic, in source
    /// order.
    pub fn from_str(s: &str) -> (r: Result<TopLevel, Vec<CompileError>>)
        ensures
            match r {
                Ok(top) => program(token_stream(s.spec_bytes()), s.spec_bytes()) == (Outcome {
                    program: top@,
                    diagnostics: Seq::<Diagnostic>::empty(),
                }),
                Err(errors) => errors@.len() > 0 && program(
                    token_stream(s.spec_bytes()),
                    s.spec_bytes(),
                ).diagnostics == diagnostics_of(errors@),
            },
    {
        let (top, errors) = Parser::new(s).parse();
        if errors.len() == 0 {
            assert(diagnostics_of(errors@) =~= Seq::<Diagnostic>::empty());
            Ok(top)
        } else {
            Err(errors)
        }
    }
}

} // verus!
