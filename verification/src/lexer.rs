//! The tokenizer: what the token stream of a source text is, and the scan
//! that produces it.

use vstd::prelude::*;
use vstd::string::StringSliceAdditionalSpecFns;
use vstd::utf8::*;
use crate::bytes::{
    byte_is_digit, byte_is_letter, byte_is_whitespace, byte_is_word_start, is_digit, is_letter,
    is_whitespace, is_word_start, lemma_run_end, run_end, scan_run, ByteClass,
};
use crate::span::{
    column_at, is_position_of, lemma_position_bounded, line_at, Position, Slice,
};
use crate::stream::{
    lemma_positions_monotonic, lemma_span_coverage, not_after, reassemble, tiles,
};
use crate::tokens::{Token, Tokens};

verus! {

/// One step of the scan: the token that starts at an offset, or `None` for
/// whitespace and comments, and the offset at which the next step starts.
pub ghost struct Lexeme {
    pub kind: Option<Tokens>,
    pub end: int,
}

/// The byte range `[start, end)`.
pub open spec fn span_of(start: int, end: int) -> Slice {
    Slice { start: start as usize, end: end as usize }
}

/// The position of byte offset `offset` in `src`.
pub open spec fn position_at(src: Seq<u8>, offset: int) -> Position {
    Position { line: line_at(src, offset) as usize, column: column_at(src, offset) as usize }
}

/// Whether the byte after offset `i` exists and is `b`.
pub open spec fn followed_by(src: Seq<u8>, i: int, b: u8) -> bool {
    i + 1 < src.len() && src[i + 1] == b
}

/// A quoted string runs to the next `"`, whatever lies between, line feeds
/// and backslashes included. Without a closing quote the rest of the text is
/// one unknown token.
pub open spec fn string_lexeme(src: Seq<u8>, i: int) -> Lexeme {
    let close = run_end(src, i + 1, ByteClass::InString);
    if close < src.len() {
        Lexeme { kind: Some(Tokens::String(span_of(i + 1, close))), end: close + 1 }
    } else {
        Lexeme { kind: Some(Tokens::Unknown), end: src.len() as int }
    }
}

/// The character that `bytes` encodes, if they are the UTF-8 encoding of
/// exactly one.
pub open spec fn single_char(bytes: Seq<u8>) -> Option<char> {
    if valid_first_scalar(bytes) && length_of_first_scalar(bytes) == bytes.len() {
        Some(decode_first_scalar(bytes) as char)
    } else {
        None
    }
}

/// A quoted character runs to the next `'` and holds exactly one character;
/// with none, several, or no closing quote it is an unknown token.
pub open spec fn char_lexeme(src: Seq<u8>, i: int) -> Lexeme {
    let close = run_end(src, i + 1, ByteClass::InChar);
    if close < src.len() {
        Lexeme {
            kind: Some(
                match single_char(src.subrange(i + 1, close)) {
                    Some(c) => Tokens::Char(c),
                    None => Tokens::Unknown,
                },
            ),
            end: close + 1,
        }
    } else {
        Lexeme { kind: Some(Tokens::Unknown), end: src.len() as int }
    }
}

/// The keyword that `word` spells, if any.
pub open spec fn keyword(word: Seq<u8>) -> Option<Tokens> {
    if word == "import".spec_bytes() {
        Some(Tokens::Import)
    } else if word == "from".spec_bytes() {
        Some(Tokens::From)
    } else if word == "const".spec_bytes() {
        Some(Tokens::Const)
    } else if word == "fn".spec_bytes() {
        Some(Tokens::Fn)
    } else if word == "null".spec_bytes() {
        Some(Tokens::Null)
    } else if word == "undefined".spec_bytes() {
        Some(Tokens::Undefined)
    } else if word == "true".spec_bytes() {
        Some(Tokens::Boolean(true))
    } else if word == "false".spec_bytes() {
        Some(Tokens::Boolean(false))
    } else {
        None
    }
}

/// A name is a letter or `_` followed by the longest run of letters, digits
/// and `_`; it is a keyword if it spells one and an identifier otherwise.
pub open spec fn word_lexeme(src: Seq<u8>, i: int) -> Lexeme {
    let end = run_end(src, i + 1, ByteClass::Word);
    Lexeme {
        kind: Some(
            match keyword(src.subrange(i, end)) {
                Some(k) => k,
                None => Tokens::Identifier(span_of(i, end)),
            },
        ),
        end,
    }
}

/// The number that a sequence of decimal digits denotes.
pub open spec fn decimal_value(digits: Seq<u8>) -> nat
    decreases digits.len(),
{
    if digits.len() == 0 {
        0
    } else {
        decimal_value(digits.drop_last()) * 10 + (digits.last() - 48) as nat
    }
}

/// A number is the longest run of digits, with a fraction if a `.` and a
/// digit follow. If a letter follows the digits directly, the digits and the
/// word after them are one invalid number. A whole number that does not fit
/// an `i32` is invalid too.
pub open spec fn number_lexeme(src: Seq<u8>, i: int) -> Lexeme {
    let whole_end = run_end(src, i, ByteClass::Digit);
    let has_fraction = src.len() > whole_end + 1 && src[whole_end] == 46 && is_digit(
        src[whole_end + 1],
    );
    let digits_end = if has_fraction {
        run_end(src, whole_end + 1, ByteClass::Digit)
    } else {
        whole_end
    };
    if digits_end < src.len() && is_letter(src[digits_end]) {
        Lexeme {
            kind: Some(Tokens::InvalidNumber),
            end: run_end(src, digits_end, ByteClass::Word),
        }
    } else if has_fraction {
        Lexeme { kind: Some(Tokens::Float(span_of(i, digits_end))), end: digits_end }
    } else if decimal_value(src.subrange(i, whole_end)) <= i32::MAX {
        Lexeme {
            kind: Some(Tokens::Integer(decimal_value(src.subrange(i, whole_end)) as i32)),
            end: whole_end,
        }
    } else {
        Lexeme { kind: Some(Tokens::InvalidNumber), end: whole_end }
    }
}

/// A colon directly followed by a letter or `_` starts an atom, which runs
/// over the letters and `_` that follow; any other colon stands alone.
pub open spec fn colon_lexeme(src: Seq<u8>, i: int) -> Lexeme {
    if i + 1 < src.len() && is_word_start(src[i + 1]) {
        let end = run_end(src, i + 1, ByteClass::AtomBody);
        Lexeme { kind: Some(Tokens::Atom(span_of(i, end))), end }
    } else {
        Lexeme { kind: Some(Tokens::Colon), end: i + 1 }
    }
}

/// The token that a byte is when it stands alone.
pub open spec fn single_byte_token(b: u8) -> Option<Tokens> {
    if b == 40 {
        Some(Tokens::LParen)
    } else if b == 41 {
        Some(Tokens::RParen)
    } else if b == 123 {
        Some(Tokens::LBrace)
    } else if b == 125 {
        Some(Tokens::RBrace)
    } else if b == 91 {
        Some(Tokens::LSquare)
    } else if b == 93 {
        Some(Tokens::RSquare)
    } else if b == 59 {
        Some(Tokens::Semicolon)
    } else if b == 44 {
        Some(Tokens::Comma)
    } else if b == 61 {
        Some(Tokens::Equals)
    } else if b == 43 {
        Some(Tokens::Plus)
    } else if b == 45 {
        Some(Tokens::Minus)
    } else if b == 42 {
        Some(Tokens::Star)
    } else if b == 47 {
        Some(Tokens::Slash)
    } else if b == 37 {
        Some(Tokens::Percent)
    } else if b == 94 {
        Some(Tokens::Caret)
    } else if b == 60 {
        Some(Tokens::Lt)
    } else if b == 62 {
        Some(Tokens::Gt)
    } else {
        None
    }
}

/// The token that two bytes are together: `<=`, `>=`, `==`, `!=` or `->`.
pub open spec fn double_byte_token(a: u8, b: u8) -> Option<Tokens> {
    if a == 60 && b == 61 {
        Some(Tokens::Le)
    } else if a == 62 && b == 61 {
        Some(Tokens::Ge)
    } else if a == 61 && b == 61 {
        Some(Tokens::Eq)
    } else if a == 33 && b == 61 {
        Some(Tokens::Ne)
    } else if a == 45 && b == 62 {
        Some(Tokens::RArrow)
    } else {
        None
    }
}

/// Operators and punctuation, the longer match first; `//` starts a comment
/// that runs to the end of the line. A byte that starts nothing is an unknown
/// token, together with the continuation bytes of its character.
pub open spec fn symbol_lexeme(src: Seq<u8>, i: int) -> Lexeme {
    if followed_by(src, i, 47) && src[i] == 47 {
        Lexeme { kind: None, end: run_end(src, i + 2, ByteClass::InLine) }
    } else if i + 1 < src.len() && double_byte_token(src[i], src[i + 1]) is Some {
        Lexeme { kind: double_byte_token(src[i], src[i + 1]), end: i + 2 }
    } else if single_byte_token(src[i]) is Some {
        Lexeme { kind: single_byte_token(src[i]), end: i + 1 }
    } else {
        Lexeme {
            kind: Some(Tokens::Unknown),
            end: run_end(src, i + 1, ByteClass::Continuation),
        }
    }
}

/// The step of the scan at offset `i`, chosen by the byte found there.
pub open spec fn lexeme_at(src: Seq<u8>, i: int) -> Lexeme
    recommends
        0 <= i < src.len(),
{
    let b = src[i];
    if b == 34 {
        string_lexeme(src, i)
    } else if b == 39 {
        char_lexeme(src, i)
    } else if is_word_start(b) {
        word_lexeme(src, i)
    } else if is_digit(b) {
        number_lexeme(src, i)
    } else if b == 58 {
        colon_lexeme(src, i)
    } else if is_whitespace(b) {
        Lexeme { kind: None, end: i + 1 }
    } else {
        symbol_lexeme(src, i)
    }
}

/// Every step consumes at least one byte and stays inside the text.
pub proof fn lemma_lexeme_advances(src: Seq<u8>, i: int)
    requires
        0 <= i < src.len(),
    ensures
        i < lexeme_at(src, i).end <= src.len(),
{
    lemma_run_end(src, i + 1, ByteClass::InString);
    lemma_run_end(src, i + 1, ByteClass::InChar);
    lemma_run_end(src, i + 1, ByteClass::Word);
    lemma_run_end(src, i + 1, ByteClass::AtomBody);
    lemma_run_end(src, i + 1, ByteClass::Continuation);
    lemma_run_end(src, i, ByteClass::Digit);
    let whole_end = run_end(src, i, ByteClass::Digit);
    if is_digit(src[i]) {
        assert(whole_end > i);
        if whole_end + 1 < src.len() {
            lemma_run_end(src, whole_end + 1, ByteClass::Digit);
            lemma_run_end(src, run_end(src, whole_end + 1, ByteClass::Digit), ByteClass::Word);
        }
        lemma_run_end(src, whole_end, ByteClass::Word);
    }
    if i + 2 <= src.len() {
        lemma_run_end(src, i + 2, ByteClass::InLine);
    }
}

/// The sentinel that ends the token stream of `src`.
pub open spec fn end_token(src: Seq<u8>) -> Token {
    Token {
        kind: Tokens::EndOfInput,
        span: span_of(src.len() as int, src.len() as int),
        position: position_at(src, src.len() as int),
    }
}

/// The tokens of `src` from offset `i` on, the sentinel last.
pub open spec fn tokens_from(src: Seq<u8>, i: int) -> Seq<Token>
    decreases src.len() - i,
{
    if 0 <= i < src.len() {
        let step = lexeme_at(src, i);
        proof {
            lemma_lexeme_advances(src, i);
        }
        match step.kind {
            Some(kind) => seq![
                Token { kind, span: span_of(i, step.end), position: position_at(src, i) },
            ] + tokens_from(src, step.end),
            None => tokens_from(src, step.end),
        }
    } else {
        seq![end_token(src)]
    }
}

/// The token stream of a source text.
pub open spec fn token_stream(src: Seq<u8>) -> Seq<Token> {
    tokens_from(src, 0)
}


/// Whether the bytes `[start, end)` of `src` spell `word`.
pub(crate) fn bytes_spell(src: &[u8], start: usize, end: usize, word: &str) -> (r: bool)
    requires
        start <= end <= src@.len(),
    ensures
        r == (src@.subrange(start as int, end as int) == word.spec_bytes()),
{
    let w = word.as_bytes();
    if w.len() != end - start {
        return false;
    }
    let mut k: usize = 0;
    while k < w.len()
        invariant
            start <= end <= src@.len(),
            w@.len() == end - start,
            w@ == word.spec_bytes(),
            k <= w@.len(),
            forall|j: int| 0 <= j < k ==> src@[start + j] == w@[j],
        decreases w@.len() - k,
    {
        if src[start + k] != w[k] {
            assert(src@.subrange(start as int, end as int)[k as int] != w@[k as int]);
            return false;
        }
        k = k + 1;
    }
    assert(src@.subrange(start as int, end as int) =~= w@);
    true
}

/// The keyword that the bytes `[start, end)` of `src` spell, if any.
fn keyword_of(src: &[u8], start: usize, end: usize) -> (r: Option<Tokens>)
    requires
        start <= end <= src@.len(),
    ensures
        r == keyword(src@.subrange(start as int, end as int)),
{
    if bytes_spell(src, start, end, "import") {
        Some(Tokens::Import)
    } else if bytes_spell(src, start, end, "from") {
        Some(Tokens::From)
    } else if bytes_spell(src, start, end, "const") {
        Some(Tokens::Const)
    } else if bytes_spell(src, start, end, "fn") {
        Some(Tokens::Fn)
    } else if bytes_spell(src, start, end, "null") {
        Some(Tokens::Null)
    } else if bytes_spell(src, start, end, "undefined") {
        Some(Tokens::Undefined)
    } else if bytes_spell(src, start, end, "true") {
        Some(Tokens::Boolean(true))
    } else if bytes_spell(src, start, end, "false") {
        Some(Tokens::Boolean(false))
    } else {
        None
    }
}

/// The value of a run of digits is at least the value of any prefix of it.
proof fn lemma_decimal_prefix(digits: Seq<u8>, k: int)
    requires
        0 <= k <= digits.len(),
        forall|j: int| 0 <= j < digits.len() ==> is_digit(#[trigger] digits[j]),
    ensures
        decimal_value(digits.subrange(0, k)) <= decimal_value(digits),
    decreases digits.len() - k,
{
    if k == digits.len() {
        assert(digits.subrange(0, k) =~= digits);
    } else {
        lemma_decimal_prefix(digits.drop_last(), k);
        assert(digits.drop_last().subrange(0, k) =~= digits.subrange(0, k));
    }
}

/// The value of the digits `[start, end)` of `src`, if it fits an `i32`.
fn decimal_of(src: &[u8], start: usize, end: usize) -> (r: Option<i32>)
    requires
        start <= end <= src@.len(),
        forall|k: int| start <= k < end ==> is_digit(#[trigger] src@[k]),
    ensures
        r == if decimal_value(src@.subrange(start as int, end as int)) <= i32::MAX {
            Some(decimal_value(src@.subrange(start as int, end as int)) as i32)
        } else {
            None::<i32>
        },
{
    let ghost digits = src@.subrange(start as int, end as int);
    let mut value: u64 = 0;
    let mut k: usize = start;
    while k < end
        invariant
            start <= k <= end <= src@.len(),
            digits == src@.subrange(start as int, end as int),
            forall|j: int| start <= j < end ==> is_digit(#[trigger] src@[j]),
            value == decimal_value(digits.subrange(0, k - start)),
            value <= i32::MAX,
        decreases end - k,
    {
        let d: u64 = (src[k] - 48) as u64;
        let next: u64 = value * 10 + d;
        proof {
            let longer = digits.subrange(0, k + 1 - start);
            assert(longer.drop_last() =~= digits.subrange(0, k - start));
            assert(longer.last() == src@[k as int]);
            assert(next == decimal_value(longer));
        }
        if next > 0x7fff_ffff {
            proof {
                lemma_decimal_prefix(digits, k + 1 - start);
            }
            return None;
        }
        value = next;
        k = k + 1;
    }
    assert(digits.subrange(0, end - start) =~= digits);
    Some(value as i32)
}

/// The character that the bytes `[start, end)` of `src` encode, if they are
/// the UTF-8 encoding of exactly one.
fn char_of(src: &[u8], start: usize, end: usize) -> (r: Option<char>)
    requires
        start <= end <= src@.len(),
    ensures
        r == single_char(src@.subrange(start as int, end as int)),
{
    let ghost bytes = src@.subrange(start as int, end as int);
    let n = end - start;
    if n == 0 {
        return None;
    }
    let b0 = src[start];
    assert(bytes[0] == b0);
    if b0 <= 0x7f {
        if n != 1 {
            return None;
        }
        let code: u32 = (b0 & 0x7f) as u32;
        assert(code <= 0x7f) by (bit_vector)
            requires
                code == (b0 & 0x7f) as u32,
        ;
        char::from_u32(code)
    } else if b0 >= 0xc0 && b0 <= 0xdf {
        if n != 2 {
            return None;
        }
        let b1 = src[start + 1];
        assert(bytes[1] == b1);
        if !(b1 >= 0x80 && b1 <= 0xbf) {
            return None;
        }
        let code: u32 = (((b0 & 0x1f) as u32) << 6) | ((b1 & 0x3f) as u32);
        assert(code <= 0x7ff) by (bit_vector)
            requires
                code == (((b0 & 0x1f) as u32) << 6) | ((b1 & 0x3f) as u32),
        ;
        if code < 0x80 {
            return None;
        }
        char::from_u32(code)
    } else if b0 >= 0xe0 && b0 <= 0xef {
        if n != 3 {
            return None;
        }
        let b1 = src[start + 1];
        let b2 = src[start + 2];
        assert(bytes[1] == b1 && bytes[2] == b2);
        if !(b1 >= 0x80 && b1 <= 0xbf && b2 >= 0x80 && b2 <= 0xbf) {
            return None;
        }
        let code: u32 = (((b0 & 0x0f) as u32) << 12) | (((b1 & 0x3f) as u32) << 6) | ((b2
            & 0x3f) as u32);
        assert(code <= 0xffff) by (bit_vector)
            requires
                code == (((b0 & 0x0f) as u32) << 12) | (((b1 & 0x3f) as u32) << 6) | ((b2
                    & 0x3f) as u32),
        ;
        if code < 0x800 || (code >= 0xd800 && code <= 0xdfff) {
            return None;
        }
        char::from_u32(code)
    } else if b0 >= 0xf0 && b0 <= 0xf7 {
        if n != 4 {
            return None;
        }
        let b1 = src[start + 1];
        let b2 = src[start + 2];
        let b3 = src[start + 3];
        assert(bytes[1] == b1 && bytes[2] == b2 && bytes[3] == b3);
        if !(b1 >= 0x80 && b1 <= 0xbf && b2 >= 0x80 && b2 <= 0xbf && b3 >= 0x80 && b3 <= 0xbf) {
            return None;
        }
        let code: u32 = (((b0 & 0x07) as u32) << 18) | (((b1 & 0x3f) as u32) << 12) | (((b2
            & 0x3f) as u32) << 6) | ((b3 & 0x3f) as u32);
        if code < 0x10000 || code > 0x10ffff {
            return None;
        }
        char::from_u32(code)
    } else {
        None
    }
}


/// The token that `b` is when it stands alone.
fn single_byte(b: u8) -> (r: Option<Tokens>)
    ensures
        r == single_byte_token(b),
{
    if b == 40 {
        Some(Tokens::LParen)
    } else if b == 41 {
        Some(Tokens::RParen)
    } else if b == 123 {
        Some(Tokens::LBrace)
    } else if b == 125 {
        Some(Tokens::RBrace)
    } else if b == 91 {
        Some(Tokens::LSquare)
    } else if b == 93 {
        Some(Tokens::RSquare)
    } else if b == 59 {
        Some(Tokens::Semicolon)
    } else if b == 44 {
        Some(Tokens::Comma)
    } else if b == 61 {
        Some(Tokens::Equals)
    } else if b == 43 {
        Some(Tokens::Plus)
    } else if b == 45 {
        Some(Tokens::Minus)
    } else if b == 42 {
        Some(Tokens::Star)
    } else if b == 47 {
        Some(Tokens::Slash)
    } else if b == 37 {
        Some(Tokens::Percent)
    } else if b == 94 {
        Some(Tokens::Caret)
    } else if b == 60 {
        Some(Tokens::Lt)
    } else if b == 62 {
        Some(Tokens::Gt)
    } else {
        None
    }
}

/// The token that `a` and `b` are together.
fn double_byte(a: u8, b: u8) -> (r: Option<Tokens>)
    ensures
        r == double_byte_token(a, b),
{
    if a == 60 && b == 61 {
        Some(Tokens::Le)
    } else if a == 62 && b == 61 {
        Some(Tokens::Ge)
    } else if a == 61 && b == 61 {
        Some(Tokens::Eq)
    } else if a == 33 && b == 61 {
        Some(Tokens::Ne)
    } else if a == 45 && b == 62 {
        Some(Tokens::RArrow)
    } else {
        None
    }
}

fn scan_string(src: &[u8], i: usize) -> (r: (Option<Tokens>, usize))
    requires
        i < src.len(),
    ensures
        r.0 == string_lexeme(src@, i as int).kind,
        r.1 == string_lexeme(src@, i as int).end,
{
    let close = scan_run(src, i + 1, ByteClass::InString);
    if close < src.len() {
        let quoted = Slice { start: i, end: close + 1 };
        (Some(Tokens::String(quoted.trim())), close + 1)
    } else {
        (Some(Tokens::Unknown), src.len())
    }
}

fn scan_char(src: &[u8], i: usize) -> (r: (Option<Tokens>, usize))
    requires
        i < src.len(),
    ensures
        r.0 == char_lexeme(src@, i as int).kind,
        r.1 == char_lexeme(src@, i as int).end,
{
    let close = scan_run(src, i + 1, ByteClass::InChar);
    if close < src.len() {
        let kind = match char_of(src, i + 1, close) {
            Some(c) => Tokens::Char(c),
            None => Tokens::Unknown,
        };
        (Some(kind), close + 1)
    } else {
        (Some(Tokens::Unknown), src.len())
    }
}

fn scan_word(src: &[u8], i: usize) -> (r: (Option<Tokens>, usize))
    requires
        i < src.len(),
    ensures
        r.0 == word_lexeme(src@, i as int).kind,
        r.1 == word_lexeme(src@, i as int).end,
{
    let end = scan_run(src, i + 1, ByteClass::Word);
    let kind = match keyword_of(src, i, end) {
        Some(k) => k,
        None => Tokens::Identifier(Slice { start: i, end }),
    };
    (Some(kind), end)
}

fn scan_number(src: &[u8], i: usize) -> (r: (Option<Tokens>, usize))
    requires
        i < src.len(),
    ensures
        r.0 == number_lexeme(src@, i as int).kind,
        r.1 == number_lexeme(src@, i as int).end,
{
    let whole_end = scan_run(src, i, ByteClass::Digit);
    let has_fraction = whole_end < src.len() && src.len() - whole_end > 1 && src[whole_end] == 46
        && byte_is_digit(src[whole_end + 1]);
    let digits_end = if has_fraction {
        scan_run(src, whole_end + 1, ByteClass::Digit)
    } else {
        whole_end
    };
    if digits_end < src.len() && byte_is_letter(src[digits_end]) {
        (Some(Tokens::InvalidNumber), scan_run(src, digits_end, ByteClass::Word))
    } else if has_fraction {
        (Some(Tokens::Float(Slice { start: i, end: digits_end })), digits_end)
    } else {
        proof {
            lemma_run_end(src@, i as int, ByteClass::Digit);
        }
        match decimal_of(src, i, whole_end) {
            Some(v) => (Some(Tokens::Integer(v)), whole_end),
            None => (Some(Tokens::InvalidNumber), whole_end),
        }
    }
}

fn scan_colon(src: &[u8], i: usize) -> (r: (Option<Tokens>, usize))
    requires
        i < src.len(),
    ensures
        r.0 == colon_lexeme(src@, i as int).kind,
        r.1 == colon_lexeme(src@, i as int).end,
{
    if src.len() - i > 1 && byte_is_word_start(src[i + 1]) {
        let end = scan_run(src, i + 1, ByteClass::AtomBody);
        (Some(Tokens::Atom(Slice { start: i, end })), end)
    } else {
        (Some(Tokens::Colon), i + 1)
    }
}

fn scan_symbol(src: &[u8], i: usize) -> (r: (Option<Tokens>, usize))
    requires
        i < src.len(),
    ensures
        r.0 == symbol_lexeme(src@, i as int).kind,
        r.1 == symbol_lexeme(src@, i as int).end,
{
    let b = src[i];
    let has_next = src.len() - i > 1;
    if has_next && src[i + 1] == 47 && b == 47 {
        return (None, scan_run(src, i + 2, ByteClass::InLine));
    }
    if has_next {
        let two = double_byte(b, src[i + 1]);
        if two.is_some() {
            return (two, i + 2);
        }
    }
    let one = single_byte(b);
    if one.is_some() {
        (one, i + 1)
    } else {
        (Some(Tokens::Unknown), scan_run(src, i + 1, ByteClass::Continuation))
    }
}

/// One step of the scan at offset `i`: the token that starts there, or
/// `None` for whitespace and comments, and where the next step starts.
pub fn next_lexeme(src: &[u8], i: usize) -> (r: (Option<Tokens>, usize))
    requires
        i < src.len(),
    ensures
        r.0 == lexeme_at(src@, i as int).kind,
        r.1 == lexeme_at(src@, i as int).end,
        i < r.1 <= src@.len(),
{
    proof {
        lemma_lexeme_advances(src@, i as int);
    }
    let b = src[i];
    if b == 34 {
        scan_string(src, i)
    } else if b == 39 {
        scan_char(src, i)
    } else if byte_is_word_start(b) {
        scan_word(src, i)
    } else if byte_is_digit(b) {
        scan_number(src, i)
    } else if b == 58 {
        scan_colon(src, i)
    } else if byte_is_whitespace(b) {
        (None, i + 1)
    } else {
        scan_symbol(src, i)
    }
}

/// The token stream of the bytes `src`. The tokens tile the text: put
/// together in order, the skipped whitespace and comments and the spans of
/// the tokens give back `src`. No token is positioned before an earlier one.
pub fn scan(src: &[u8]) -> (tokens: Vec<Token>)
    ensures
        tokens@ == token_stream(src@),
        tiles(src@, tokens@, 0),
        reassemble(src@, tokens@, 0) == src@,
        forall|a: int, b: int|
            0 <= a <= b < tokens@.len() ==> not_after(
                (#[trigger] tokens@[a]).position,
                (#[trigger] tokens@[b]).position,
            ),
{
    let mut tokens: Vec<Token> = Vec::new();
    let mut position = Position::start();
    let mut i: usize = 0;
    while i < src.len()
        invariant
            i <= src@.len(),
            is_position_of(position, src@, i as int),
            token_stream(src@) == tokens@ + tokens_from(src@, i as int),
        decreases src@.len() - i,
    {
        let (kind, end) = next_lexeme(src, i);
        proof {
            lemma_position_bounded(src@, i as int);
        }
        let ghost before = tokens@;
        match kind {
            Some(kind) => {
                tokens.push(Token { kind, span: Slice { start: i, end }, position });
                assert(tokens@ + tokens_from(src@, end as int) =~= before + tokens_from(
                    src@,
                    i as int,
                ));
            },
            None => {},
        }
        position = position.advance(src, i, end);
        i = end;
    }
    proof {
        lemma_position_bounded(src@, i as int);
    }
    let ghost before = tokens@;
    tokens.push(
        Token { kind: Tokens::EndOfInput, span: Slice { start: i, end: i }, position },
    );
    assert(tokens@ =~= before + tokens_from(src@, i as int));
    proof {
        lemma_span_coverage(src@);
        assert forall|a: int, b: int| 0 <= a <= b < tokens@.len() implies not_after(
            (#[trigger] tokens@[a]).position,
            (#[trigger] tokens@[b]).position,
        ) by {
            lemma_positions_monotonic(src@, a, b);
        }
    }
    tokens
}

/// The token stream of a source text. Scanning never fails: text that starts
/// no token comes out as `Unknown` or `InvalidNumber` tokens. The tokens
/// tile the text: put together in order, the skipped whitespace and
/// comments and the spans of the tokens give back the text. No token is
/// positioned before an earlier one.
pub fn tokenize(source: &str) -> (tokens: Vec<Token>)
    ensures
        tokens@ == token_stream(source.spec_bytes()),
        tiles(source.spec_bytes(), tokens@, 0),
        reassemble(source.spec_bytes(), tokens@, 0) == source.spec_bytes(),
        forall|a: int, b: int|
            0 <= a <= b < tokens@.len() ==> not_after(
                (#[trigger] tokens@[a]).position,
                (#[trigger] tokens@[b]).position,
            ),
{
    scan(source.as_bytes())
}


/// What a lexing run gives back: the name of the file, its text, and the
/// tokens of the text.
#[derive(Debug)]
pub struct LexOutput {
    pub filename: String,
    pub original: String,
    pub lexed: Vec<Token>,
}

/// The text of one file, ready to be tokenized.
pub struct LexProvider {
    pub data: String,
    pub filename: String,
}

impl LexProvider {
    pub fn new(data: String, filename: String) -> (p: Self)
        ensures
            p.data == data,
            p.filename == filename,
    {
        Self { data, filename }
    }

    /// Tokenizes the text and hands it back with its tokens.
    pub fn lex(self) -> (out: LexOutput)
        ensures
            out.filename == self.filename,
            out.original == self.data,
            out.lexed@ == token_stream(encode_utf8(self.data@)),
    {
        let lexed = tokenize(self.data.as_str());
        LexOutput { filename: self.filename, original: self.data, lexed }
    }
}

/// A tokenizer for the texts of one file.
pub struct Lexer {
    pub filename: String,
}

impl Lexer {
    pub fn new(filename: String) -> (l: Self)
        ensures
            l.filename == filename,
    {
        Self { filename }
    }

    /// Tokenizes `file`, the text of the file this lexer is for.
    pub fn lex(&mut self, file: String) -> (out: LexOutput)
        ensures
            *final(self) == *old(self),
            out.filename == old(self).filename,
            out.original == file,
            out.lexed@ == token_stream(encode_utf8(file@)),
    {
        let provider = LexProvider::new(file, self.filename.clone());
        provider.lex()
    }
}

} // verus!
