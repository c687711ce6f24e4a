//! What holds of every token stream: the tokens and the whitespace and
//! comments between them tile the source, and positions never go backwards.

use vstd::prelude::*;
use crate::bytes::{is_whitespace, lemma_run_end, run_end, ByteClass};
use crate::lexer::{
    end_token, followed_by, lemma_lexeme_advances, lexeme_at, position_at, span_of,
    token_stream, tokens_from, Lexeme,
};
use crate::span::{lemma_position_bounded, lemma_position_monotonic, Position};
use crate::tokens::Token;

verus! {

/// The bytes `[a, b)` of `src` are whitespace and whole comments only.
pub open spec fn is_trivia(src: Seq<u8>, a: int, b: int) -> bool
    decreases b - a,
{
    if a >= b {
        a == b
    } else if !(0 <= a < src.len()) {
        false
    } else if is_whitespace(src[a]) {
        is_trivia(src, a + 1, b)
    } else if src[a] == 47 && followed_by(src, a, 47) {
        let end = run_end(src, a + 2, ByteClass::InLine);
        a + 2 <= end <= b && is_trivia(src, end, b)
    } else {
        false
    }
}

/// The tokens `toks` tile `src` from offset `from` to its end: each token
/// starts after a gap of whitespace and comments, is the token that the
/// scan finds at its first byte, covers at least one byte, carries the
/// position of its first byte, and the next one starts where the tiling of
/// the rest begins. The last token, and only the last, is the sentinel,
/// with an empty span at the end of `src`.
pub open spec fn tiles(src: Seq<u8>, toks: Seq<Token>, from: int) -> bool
    decreases toks.len(),
{
    if toks.len() == 0 {
        false
    } else {
        let t = toks[0];
        &&& from <= t.span.start <= t.span.end <= src.len()
        &&& is_trivia(src, from, t.span.start as int)
        &&& t.position == position_at(src, t.span.start as int)
        &&& if toks.len() == 1 {
            t == end_token(src)
        } else {
            &&& !(t.kind is EndOfInput)
            &&& t.span.start < t.span.end
            &&& lexeme_at(src, t.span.start as int) == (Lexeme {
                kind: Some(t.kind),
                end: t.span.end as int,
            })
            &&& tiles(src, toks.drop_first(), t.span.end as int)
        }
    }
}

/// The source text put together again from a tiling: before each token the
/// bytes that were skipped, then the bytes of the token.
pub open spec fn reassemble(src: Seq<u8>, toks: Seq<Token>, from: int) -> Seq<u8>
    decreases toks.len(),
{
    if toks.len() == 0 {
        Seq::<u8>::empty()
    } else {
        let t = toks[0];
        src.subrange(from, t.span.start as int) + src.subrange(
            t.span.start as int,
            t.span.end as int,
        ) + reassemble(src, toks.drop_first(), t.span.end as int)
    }
}

/// `a` is not after `b`: it is on an earlier line, or on the same line at a
/// column that is not greater.
pub open spec fn not_after(a: Position, b: Position) -> bool {
    a.line < b.line || (a.line == b.line && a.column <= b.column)
}

proof fn lemma_tiles_from(src: Seq<u8>, i: int)
    requires
        src.len() <= usize::MAX,
        0 <= i <= src.len(),
    ensures
        tiles(src, tokens_from(src, i), i),
    decreases src.len() - i,
{
    if i < src.len() {
        let step = lexeme_at(src, i);
        lemma_lexeme_advances(src, i);
        lemma_tiles_from(src, step.end);
        let rest = tokens_from(src, step.end);
        match step.kind {
            Some(_) => {
                assert(tokens_from(src, i).drop_first() =~= rest);
                assert(is_trivia(src, i, i));
            },
            None => {
                if !is_whitespace(src[i]) {
                    lemma_run_end(src, i + 2, ByteClass::InLine);
                }
            },
        }
    } else {
        assert(is_trivia(src, i, i));
    }
}

proof fn lemma_reassemble_from(src: Seq<u8>, toks: Seq<Token>, from: int)
    requires
        src.len() <= usize::MAX,
        0 <= from <= src.len(),
        tiles(src, toks, from),
    ensures
        reassemble(src, toks, from) == src.subrange(from, src.len() as int),
    decreases toks.len(),
{
    let rest = toks.drop_first();
    let end = toks[0].span.end as int;
    if toks.len() > 1 {
        lemma_reassemble_from(src, rest, end);
    } else {
        assert(reassemble(src, rest, end) == Seq::<u8>::empty());
    }
    assert(reassemble(src, toks, from) =~= src.subrange(from, src.len() as int));
}

proof fn lemma_tiles_index(src: Seq<u8>, toks: Seq<Token>, from: int, k: int)
    requires
        0 <= from <= src.len(),
        tiles(src, toks, from),
        0 <= k < toks.len(),
    ensures
        from <= toks[k].span.start <= toks[k].span.end <= src.len(),
        toks[k].position == position_at(src, toks[k].span.start as int),
        toks.last() == end_token(src),
        is_trivia(src, from, toks[0].span.start as int),
        k < toks.len() - 1 ==> !(toks[k].kind is EndOfInput) && toks[k].span.start
            < toks[k].span.end && toks[k].span.end <= toks[k + 1].span.start && is_trivia(
            src,
            toks[k].span.end as int,
            toks[k + 1].span.start as int,
        ) && lexeme_at(src, toks[k].span.start as int) == (Lexeme {
            kind: Some(toks[k].kind),
            end: toks[k].span.end as int,
        }),
    decreases toks.len(),
{
    if toks.len() > 1 {
        let rest = toks.drop_first();
        assert(forall|j: int| 0 <= j < rest.len() ==> rest[j] == toks[j + 1]);
        assert(rest.last() == toks.last());
        if k > 0 {
            lemma_tiles_index(src, rest, toks[0].span.end as int, k - 1);
        } else {
            lemma_tiles_index(src, rest, toks[0].span.end as int, 0);
        }
    }
}

/// The scan steps over whitespace and comments without a token.
proof fn lemma_trivia_skipped(src: Seq<u8>, a: int, b: int)
    requires
        0 <= a <= b <= src.len(),
        is_trivia(src, a, b),
    ensures
        tokens_from(src, a) == tokens_from(src, b),
    decreases b - a,
{
    if a < b {
        lemma_lexeme_advances(src, a);
        if is_whitespace(src[a]) {
            lemma_trivia_skipped(src, a + 1, b);
        } else {
            lemma_trivia_skipped(src, run_end(src, a + 2, ByteClass::InLine), b);
        }
    }
}

proof fn lemma_tiling_from(src: Seq<u8>, toks: Seq<Token>, from: int)
    requires
        src.len() <= usize::MAX,
        0 <= from <= src.len(),
        tiles(src, toks, from),
    ensures
        toks == tokens_from(src, from),
    decreases toks.len(),
{
    let t = toks[0];
    lemma_trivia_skipped(src, from, t.span.start as int);
    if toks.len() == 1 {
        assert(toks =~= seq![t]);
    } else {
        lemma_tiling_from(src, toks.drop_first(), t.span.end as int);
        assert(toks =~= seq![t] + toks.drop_first());
    }
}

/// A text has one tiling only, its token stream: tokens that tile a text
/// are the tokens that the scan gives for it.
pub proof fn lemma_tiling_is_unique(src: Seq<u8>, toks: Seq<Token>)
    requires
        src.len() <= usize::MAX,
        tiles(src, toks, 0),
    ensures
        toks == token_stream(src),
{
    lemma_tiling_from(src, toks, 0);
}

/// The token stream of a text tiles it: the sentinel is last
/// and nothing else is a sentinel, every other token covers at least one
/// byte, the tokens follow one another without overlap, only whitespace and
/// comments lie between them, and the skipped bytes and the token spans,
/// concatenated in order, give back the exact text.
pub proof fn lemma_span_coverage(src: Seq<u8>)
    requires
        src.len() <= usize::MAX,
    ensures
        tiles(src, token_stream(src), 0),
        reassemble(src, token_stream(src), 0) == src,
{
    lemma_tiles_from(src, 0);
    lemma_reassemble_from(src, token_stream(src), 0);
    assert(src.subrange(0, src.len() as int) =~= src);
}

/// What the tiling says of the token at index `k` of the stream: its span
/// lies inside the text and is not reversed, its position is that of its
/// first byte, and, unless it is the last token, it is no sentinel, covers
/// at least one byte, is the token that the scan finds at its first byte,
/// and is parted from the next token by whitespace and comments only. The
/// last token is the sentinel.
pub proof fn lemma_token_at(src: Seq<u8>, k: int)
    requires
        src.len() <= usize::MAX,
        0 <= k < token_stream(src).len(),
    ensures
        token_stream(src)[k].span.start <= token_stream(src)[k].span.end <= src.len(),
        token_stream(src)[k].position == position_at(
            src,
            token_stream(src)[k].span.start as int,
        ),
        token_stream(src).last() == end_token(src),
        k < token_stream(src).len() - 1 ==> !(token_stream(src)[k].kind is EndOfInput)
            && token_stream(src)[k].span.start < token_stream(src)[k].span.end
            && token_stream(src)[k].span.end <= token_stream(src)[k + 1].span.start
            && is_trivia(
            src,
            token_stream(src)[k].span.end as int,
            token_stream(src)[k + 1].span.start as int,
        ) && lexeme_at(src, token_stream(src)[k].span.start as int) == (Lexeme {
            kind: Some(token_stream(src)[k].kind),
            end: token_stream(src)[k].span.end as int,
        }),
{
    lemma_tiles_from(src, 0);
    lemma_tiles_index(src, token_stream(src), 0, k);
}

proof fn lemma_starts_ordered(src: Seq<u8>, toks: Seq<Token>, from: int, a: int, b: int)
    requires
        0 <= from <= src.len(),
        tiles(src, toks, from),
        0 <= a <= b < toks.len(),
    ensures
        toks[a].span.start <= toks[b].span.start,
    decreases b - a,
{
    if a < b {
        lemma_starts_ordered(src, toks, from, a, b - 1);
        lemma_tiles_index(src, toks, from, b - 1);
    }
}

/// Across the token stream of a text, positions are
/// non-decreasing in (line, column) order: a token that comes later is not
/// positioned before one that comes earlier.
pub proof fn lemma_positions_monotonic(src: Seq<u8>, a: int, b: int)
    requires
        src.len() <= usize::MAX,
        0 <= a <= b < token_stream(src).len(),
    ensures
        not_after(token_stream(src)[a].position, token_stream(src)[b].position),
{
    let toks = token_stream(src);
    lemma_tiles_from(src, 0);
    lemma_starts_ordered(src, toks, 0, a, b);
    lemma_tiles_index(src, toks, 0, a);
    lemma_tiles_index(src, toks, 0, b);
    let x = toks[a].span.start as int;
    let y = toks[b].span.start as int;
    lemma_position_monotonic(src, x, y);
    lemma_position_bounded(src, x);
    lemma_position_bounded(src, y);
}

} // verus!
