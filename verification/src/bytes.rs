//! Classes of bytes and the maximal runs that the tokenizer measures.

use vstd::prelude::*;

verus! {

/// The sets of bytes whose runs make up the longer tokens.
#[derive(Clone, Copy, Debug, PartialEq, Eq, Structural)]
pub enum ByteClass {
    /// `0`..`9`.
    Digit,
    /// A letter, a digit or `_`: what may follow the first byte of a name.
    Word,
    /// A letter or `_`: the body of an atom.
    AtomBody,
    /// Anything but `"`.
    InString,
    /// Anything but `'`.
    InChar,
    /// Anything but a line feed.
    InLine,
    /// A byte that continues a multi-byte character.
    Continuation,
}

/// `0`..`9`.
pub open spec fn is_digit(b: u8) -> bool {
    48 <= b <= 57
}

/// `A`..`Z` or `a`..`z`.
pub open spec fn is_letter(b: u8) -> bool {
    (65 <= b <= 90) || (97 <= b <= 122)
}

/// A letter or `_`: what a name starts with.
pub open spec fn is_word_start(b: u8) -> bool {
    is_letter(b) || b == 95
}

/// Space, tab, line feed, form feed or carriage return.
pub open spec fn is_whitespace(b: u8) -> bool {
    b == 32 || b == 9 || b == 10 || b == 12 || b == 13
}

/// Membership of a byte in a class.
pub open spec fn in_class(c: ByteClass, b: u8) -> bool {
    match c {
        ByteClass::Digit => is_digit(b),
        ByteClass::Word => is_word_start(b) || is_digit(b),
        ByteClass::AtomBody => is_word_start(b),
        ByteClass::InString => b != 34,
        ByteClass::InChar => b != 39,
        ByteClass::InLine => b != 10,
        ByteClass::Continuation => 0x80 <= b <= 0xbf,
    }
}

/// The end of the longest run of bytes of class `c` that starts at `start`:
/// the first offset at or after `start` that is the end of `src` or holds a
/// byte outside the class.
pub open spec fn run_end(src: Seq<u8>, start: int, c: ByteClass) -> int
    decreases src.len() - start,
{
    if 0 <= start < src.len() && in_class(c, src[start]) {
        run_end(src, start + 1, c)
    } else {
        start
    }
}

/// What `run_end` is, without the recursion: every byte of the run is in the
/// class, and the run cannot be extended.
pub proof fn lemma_run_end(src: Seq<u8>, start: int, c: ByteClass)
    requires
        0 <= start <= src.len(),
    ensures
        start <= run_end(src, start, c) <= src.len(),
        forall|k: int| start <= k < run_end(src, start, c) ==> in_class(c, #[trigger] src[k]),
        run_end(src, start, c) < src.len() ==> !in_class(c, src[run_end(src, start, c)]),
    decreases src.len() - start,
{
    if start < src.len() && in_class(c, src[start]) {
        lemma_run_end(src, start + 1, c);
    }
}

/// Whether `b` is a decimal digit.
pub fn byte_is_digit(b: u8) -> (r: bool)
    ensures
        r == is_digit(b),
{
    b >= 48 && b <= 57
}

/// Whether `b` is an ASCII letter.
pub fn byte_is_letter(b: u8) -> (r: bool)
    ensures
        r == is_letter(b),
{
    (b >= 65 && b <= 90) || (b >= 97 && b <= 122)
}

/// Whether `b` can start a name.
pub fn byte_is_word_start(b: u8) -> (r: bool)
    ensures
        r == is_word_start(b),
{
    byte_is_letter(b) || b == 95
}

/// Whether `b` is whitespace.
pub fn byte_is_whitespace(b: u8) -> (r: bool)
    ensures
        r == is_whitespace(b),
{
    b == 32 || b == 9 || b == 10 || b == 12 || b == 13
}

/// Whether `b` belongs to class `c`.
pub fn byte_in_class(c: ByteClass, b: u8) -> (r: bool)
    ensures
        r == in_class(c, b),
{
    match c {
        ByteClass::Digit => byte_is_digit(b),
        ByteClass::Word => byte_is_word_start(b) || byte_is_digit(b),
        ByteClass::AtomBody => byte_is_word_start(b),
        ByteClass::InString => b != 34,
        ByteClass::InChar => b != 39,
        ByteClass::InLine => b != 10,
        ByteClass::Continuation => b >= 0x80 && b <= 0xbf,
    }
}

/// Measures the longest run of bytes of class `c` from `start`.
pub fn scan_run(src: &[u8], start: usize, c: ByteClass) -> (end: usize)
    requires
        start <= src@.len(),
    ensures
        end == run_end(src@, start as int, c),
        start <= end <= src@.len(),
{
    let mut i: usize = start;
    while i < src.len() && byte_in_class(c, src[i])
        invariant
            start <= i <= src@.len(),
            run_end(src@, start as int, c) == run_end(src@, i as int, c),
        decreases src@.len() - i,
    {
        i = i + 1;
    }
    i
}

} // verus!
