//! Byte ranges into the source text and the line/column positions derived
//! from them.

use vstd::prelude::*;

verus! {

/// A half-open range `[start, end)` of byte offsets into the source text.
#[derive(Clone, Copy, Debug, PartialEq, Eq, Structural)]
pub struct Slice {
    pub start: usize,
    pub end: usize,
}

/// A zero-based line and column. The column counts characters: a byte that
/// continues a multi-byte character does not advance it.
#[derive(Clone, Copy, Debug, PartialEq, Eq, Structural)]
pub struct Position {
    pub line: usize,
    pub column: usize,
}

impl Slice {
    /// The range with one byte removed at each end, as for a quoted literal
    /// whose delimiters are dropped.
    pub fn trim(self) -> (r: Slice)
        requires
            self.start < usize::MAX,
            self.end > 0,
        ensures
            r.start == self.start + 1,
            r.end == self.end - 1,
    {
        Slice { start: self.start + 1, end: self.end - 1 }
    }

    /// The range that a pair of offsets describes.
    pub fn from(span: core::ops::Range<usize>) -> (r: Slice)
        ensures
            r.start == span.start,
            r.end == span.end,
    {
        Slice { start: span.start, end: span.end }
    }

    /// Number of bytes covered; a reversed range covers none.
    pub fn len(&self) -> (n: usize)
        ensures
            n == if self.start <= self.end {
                self.end - self.start
            } else {
                0
            },
    {
        if self.start <= self.end {
            self.end - self.start
        } else {
            0
        }
    }
}

/// The line feed, which ends a line.
pub open spec fn is_newline(b: u8) -> bool {
    b == 10
}

/// A byte of the form `10xxxxxx`, which continues a multi-byte character.
pub open spec fn is_continuation(b: u8) -> bool {
    0x80 <= b <= 0xbf
}

/// Number of line feeds among the first `offset` bytes of `src`.
pub open spec fn line_at(src: Seq<u8>, offset: int) -> nat
    decreases offset,
{
    if offset <= 0 || offset > src.len() {
        0
    } else if is_newline(src[offset - 1]) {
        line_at(src, offset - 1) + 1
    } else {
        line_at(src, offset - 1)
    }
}

/// Number of characters that start between the last line feed before
/// `offset` and `offset` itself.
pub open spec fn column_at(src: Seq<u8>, offset: int) -> nat
    decreases offset,
{
    if offset <= 0 || offset > src.len() {
        0
    } else if is_newline(src[offset - 1]) {
        0
    } else if is_continuation(src[offset - 1]) {
        column_at(src, offset - 1)
    } else {
        column_at(src, offset - 1) + 1
    }
}

/// `p` is the position of byte offset `offset` in `src`.
pub open spec fn is_position_of(p: Position, src: Seq<u8>, offset: int) -> bool {
    p.line == line_at(src, offset) && p.column == column_at(src, offset)
}

/// Neither count exceeds the offset, so both fit in a `usize`.
pub proof fn lemma_position_bounded(src: Seq<u8>, offset: int)
    requires
        0 <= offset <= src.len(),
    ensures
        line_at(src, offset) <= offset,
        column_at(src, offset) <= offset,
    decreases offset,
{
    if offset > 0 {
        lemma_position_bounded(src, offset - 1);
    }
}

/// Positions never go backwards: a later offset is on a later line, or on the
/// same line at a column that is not smaller.
pub proof fn lemma_position_monotonic(src: Seq<u8>, a: int, b: int)
    requires
        0 <= a <= b <= src.len(),
    ensures
        line_at(src, a) <= line_at(src, b),
        line_at(src, a) == line_at(src, b) ==> column_at(src, a) <= column_at(src, b),
    decreases b - a,
{
    if a < b {
        lemma_position_monotonic(src, a, b - 1);
    }
}

impl Position {
    /// The first position of a text.
    pub fn start() -> (p: Position)
        ensures
            p.line == 0,
            p.column == 0,
    {
        Position { line: 0, column: 0 }
    }

    /// Moves a position that stands at byte `from` of `src` over the bytes up
    /// to `to`: a line feed starts a new line at column 0, a continuation
    /// byte leaves the column alone, any other byte advances it by one.
    pub fn advance(self, src: &[u8], from: usize, to: usize) -> (p: Position)
        requires
            from <= to <= src@.len(),
            is_position_of(self, src@, from as int),
        ensures
            is_position_of(p, src@, to as int),
    {
        let mut line: usize = self.line;
        let mut column: usize = self.column;
        let mut i: usize = from;
        while i < to
            invariant
                from <= i <= to <= src@.len(),
                line == line_at(src@, i as int),
                column == column_at(src@, i as int),
            decreases to - i,
        {
            proof {
                lemma_position_bounded(src@, i as int);
            }
            let b = src[i];
            if b == 10 {
                line = line + 1;
                column = 0;
            } else if !(b >= 0x80 && b <= 0xbf) {
                column = column + 1;
            }
            i = i + 1;
        }
        Position { line, column }
    }
}

/// The position of byte offset `offset` in `src`; an offset past the end
/// counts as the end.
pub fn position_of(src: &[u8], offset: usize) -> (p: Position)
    ensures
        offset <= src@.len() ==> is_position_of(p, src@, offset as int),
        offset > src@.len() ==> is_position_of(p, src@, src@.len() as int),
{
    let to = if offset <= src.len() {
        offset
    } else {
        src.len()
    };
    Position::start().advance(src, 0, to)
}

} // verus!
