//! The diagnostic renderer: the text that shows a diagnostic against the
//! source it was raised for.

use vstd::prelude::*;
use vstd::string::{StrSliceExecFns, StringExecFns, StringSliceAdditionalSpecFns};
use vstd::utf8::{
    decode_utf8, encode_utf8_valid_utf8, is_char_boundary, is_char_boundary_start_end_of_seq,
};
use crate::bytes::{lemma_run_end, run_end, scan_run, ByteClass};
use crate::colors::{as_dim, as_error, as_number, dim, error, number};
use crate::error::{texts, CompileError, Diagnostic};
use crate::span::{Position, Slice};
use crate::text::{
    decimal, lemma_ascii_boundaries, push_char, push_decimal, push_repeated, repeated, substring,
};

verus! {

/// The line of a text that a diagnostic is shown against.
pub ghost struct LineChoice {
    /// Byte offset at which the line starts.
    pub start: int,
    /// Zero-based number of the line.
    pub index: nat,
    /// Whether the line asked for lies past the last line of the text.
    pub past_end: bool,
}

/// Walks `want` lines down from the line that starts at `start` and has the
/// number `index`. A line ends at a line feed; a line feed that is the last
/// byte of the text starts no further line. Where the text has fewer lines,
/// the walk stops at the last one.
pub open spec fn select_line(src: Seq<u8>, start: int, index: nat, want: nat) -> LineChoice
    decreases want,
{
    if want == 0 {
        LineChoice { start, index, past_end: false }
    } else {
        let end = run_end(src, start, ByteClass::InLine);
        if end + 1 >= src.len() {
            LineChoice { start, index, past_end: true }
        } else {
            select_line(src, end + 1, index + 1, (want - 1) as nat)
        }
    }
}

/// Where the text of the line that starts at `start` ends: before its line
/// feed, and before a carriage return that directly precedes the line feed.
pub open spec fn line_end(src: Seq<u8>, start: int) -> int {
    let end = run_end(src, start, ByteClass::InLine);
    if end > start && src[end - 1] == 13 {
        end - 1
    } else {
        end
    }
}

/// The text of the line that starts at `start`.
pub open spec fn line_text(src: Seq<u8>, start: int) -> Seq<char> {
    decode_utf8(src.subrange(start, line_end(src, start)))
}

/// The line that the diagnostic at line `want` is shown against: that line,
/// or the last line of the text if there is no such line.
pub open spec fn shown_line(src: Seq<u8>, want: usize) -> LineChoice {
    select_line(src, 0, 0, want as nat)
}

/// How far the underline is indented below a line of `width` characters:
/// to the diagnostic's column, but never past the end of the line; a
/// diagnostic past the last line is shown at the end of that line. Columns
/// count from 0, so the underline starts below the character that a reader
/// counts as column `column + 1`.
pub open spec fn indent(choice: LineChoice, width: nat, column: usize) -> nat {
    if choice.past_end || column > width {
        width
    } else {
        column as nat
    }
}

/// Number of carets under a span: one for each byte, and one for an empty
/// or reversed span.
pub open spec fn carets(span: Slice) -> nat {
    if span.end > span.start {
        (span.end - span.start) as nat
    } else {
        1
    }
}

/// `s`, in bold red if styles are wanted.
pub open spec fn paint_error(s: Seq<char>, styled: bool) -> Seq<char> {
    if styled {
        as_error(s)
    } else {
        s
    }
}

/// `s`, in yellow if styles are wanted.
pub open spec fn paint_number(s: Seq<char>, styled: bool) -> Seq<char> {
    if styled {
        as_number(s)
    } else {
        s
    }
}

/// `s`, dimmed if styles are wanted.
pub open spec fn paint_dim(s: Seq<char>, styled: bool) -> Seq<char> {
    if styled {
        as_dim(s)
    } else {
        s
    }
}

/// `error: <message> [E<code>]` and a line feed.
pub open spec fn header(d: Diagnostic, styled: bool) -> Seq<char> {
    paint_error("error"@, styled) + ": "@ + d.message + " [E"@ + paint_number(
        decimal(d.code as nat),
        styled,
    ) + "]\n"@
}

/// The line number as a reader counts it, from 1, and a bar.
pub open spec fn gutter(index: nat, styled: bool) -> Seq<char> {
    paint_number(decimal(index + 1), styled) + paint_dim(" | "@, styled)
}

/// Number of columns that the gutter takes on screen.
pub open spec fn gutter_width(index: nat) -> nat {
    decimal(index + 1).len() + 3
}

/// One line for each item: the label, a space, the item, a line feed.
pub open spec fn labelled(label: Seq<char>, items: Seq<Seq<char>>, styled: bool) -> Seq<char>
    decreases items.len(),
{
    if items.len() == 0 {
        Seq::<char>::empty()
    } else {
        labelled(label, items.drop_last(), styled) + paint_dim(label, styled) + " "@
            + items.last() + "\n"@
    }
}

/// The rendering of a diagnostic against a source text: the header; the
/// source line behind its gutter; the underline, indented to the column
/// below the line's text; a line for each hint and then for each note.
pub open spec fn layout(src: Seq<u8>, d: Diagnostic, styled: bool) -> Seq<char> {
    let choice = shown_line(src, d.at.line);
    let line = line_text(src, choice.start);
    header(d, styled) + gutter(choice.index, styled) + line + "\n"@ + repeated(
        ' ',
        gutter_width(choice.index) + indent(choice, line.len(), d.at.column),
    ) + paint_error(repeated('^', carets(d.span)), styled) + "\n"@ + labelled(
        "hint:"@,
        d.hints,
        styled,
    ) + labelled("note:"@, d.notes, styled)
}

/// The plain rendering of a diagnostic.
pub open spec fn rendered(src: Seq<u8>, d: Diagnostic) -> Seq<char> {
    layout(src, d, false)
}

/// The rendering of a diagnostic with terminal styles.
pub open spec fn rendered_styled(src: Seq<u8>, d: Diagnostic) -> Seq<char> {
    layout(src, d, true)
}

/// The styled renderings of several diagnostics, one after the other.
pub open spec fn all_rendered(src: Seq<u8>, errors: Seq<CompileError>) -> Seq<char>
    decreases errors.len(),
{
    if errors.len() == 0 {
        Seq::<char>::empty()
    } else {
        all_rendered(src, errors.drop_last()) + rendered_styled(src, errors.last()@)
    }
}

fn put_error(out: &mut String, s: &str, styled: bool)
    ensures
        final(out)@ == old(out)@ + paint_error(s@, styled),
{
    if styled {
        let painted = error(String::from_str(s));
        out.append(painted.as_str());
    } else {
        out.append(s);
    }
}

fn put_dim(out: &mut String, s: &str, styled: bool)
    ensures
        final(out)@ == old(out)@ + paint_dim(s@, styled),
{
    if styled {
        let painted = dim(s);
        out.append(painted.as_str());
    } else {
        out.append(s);
    }
}

fn put_number(out: &mut String, n: usize, styled: bool)
    ensures
        final(out)@ == old(out)@ + paint_number(decimal(n as nat), styled),
{
    if styled {
        let painted = number(n);
        out.append(painted.as_str());
    } else {
        push_decimal(out, n as u128);
    }
}

fn put_labelled(out: &mut String, label: &str, items: &Vec<String>, styled: bool)
    ensures
        final(out)@ == old(out)@ + labelled(label@, texts(items@), styled),
{
    let mut k: usize = 0;
    assert(texts(items@).subrange(0, 0) =~= Seq::<Seq<char>>::empty());
    assert(out@ =~= old(out)@ + labelled(label@, texts(items@).subrange(0, 0), styled));
    while k < items.len()
        invariant
            k <= items@.len(),
            out@ == old(out)@ + labelled(label@, texts(items@).subrange(0, k as int), styled),
        decreases items@.len() - k,
    {
        let ghost before = out@;
        put_dim(out, label, styled);
        push_char(out, ' ');
        out.append(items[k].as_str());
        push_char(out, '\n');
        proof {
            let done = texts(items@).subrange(0, k + 1);
            assert(done.drop_last() =~= texts(items@).subrange(0, k as int));
            assert(done.last() == items@[k as int]@);
            reveal_strlit(" ");
            reveal_strlit("\n");
            assert(out@ =~= before + paint_dim(label@, styled) + " "@ + items@[k as int]@
                + "\n"@);
            assert(out@ =~= old(out)@ + labelled(label@, done, styled));
        }
        k = k + 1;
    }
    assert(texts(items@).subrange(0, k as int) =~= texts(items@));
}

impl CompileError {
    /// Picks the line of `source` that this diagnostic is shown against and
    /// the place of the underline below it. Returns the text of the line
    /// and, as a position, the zero-based number of that line and the
    /// number of columns by which the underline is indented.
    ///
    /// A line or column that the text does not have is brought back into
    /// it: a line past the last one gives the last line, with the underline
    /// at its end, and a column past the end of the line gives that end.
    pub fn prepare_line<'a>(&self, source: &'a str) -> (r: (&'a str, Position))
        ensures
            r.0@ == line_text(
                source.spec_bytes(),
                shown_line(source.spec_bytes(), self@.at.line).start,
            ),
            r.1.line == shown_line(source.spec_bytes(), self@.at.line).index,
            r.1.column == indent(
                shown_line(source.spec_bytes(), self@.at.line),
                r.0@.len(),
                self@.at.column,
            ),
            r.1.line < usize::MAX,
    {
        let bytes = source.as_bytes();
        let ghost src = source.spec_bytes();
        let want = self.at.line;
        let mut start: usize = 0;
        let mut index: usize = 0;
        let mut past_end = false;
        proof {
            encode_utf8_valid_utf8(source@);
            is_char_boundary_start_end_of_seq(src);
        }
        while index < want && !past_end
            invariant
                bytes@ == src,
                src == source.spec_bytes(),
                vstd::utf8::valid_utf8(src),
                start <= src.len(),
                index <= want,
                index <= start,
                index == 0 || start < src.len(),
                is_char_boundary(src, start as int),
                !past_end ==> shown_line(src, want) == select_line(
                    src,
                    start as int,
                    index as nat,
                    (want - index) as nat,
                ),
                past_end ==> shown_line(src, want) == (LineChoice {
                    start: start as int,
                    index: index as nat,
                    past_end: true,
                }),
            decreases want - index, if past_end { 0int } else { 1int },
        {
            let end = scan_run(bytes, start, ByteClass::InLine);
            if end >= bytes.len() || bytes.len() - end <= 1 {
                past_end = true;
            } else {
                proof {
                    lemma_run_end(src, start as int, ByteClass::InLine);
                    lemma_ascii_boundaries(src, end as int);
                }
                start = end + 1;
                index = index + 1;
            }
        }
        assert(index < usize::MAX) by {
            assert(start <= bytes.len());
        }
        let stop = scan_run(bytes, start, ByteClass::InLine);
        let end = if stop > start && bytes[stop - 1] == 13 {
            stop - 1
        } else {
            stop
        };
        proof {
            lemma_run_end(src, start as int, ByteClass::InLine);
            if end < stop {
                lemma_ascii_boundaries(src, end as int);
            } else if stop < src.len() {
                lemma_ascii_boundaries(src, stop as int);
            } else {
                is_char_boundary_start_end_of_seq(src);
            }
        }
        let line = substring(source, start, end);
        let width = line.unicode_len();
        let column = if past_end || self.at.column > width {
            width
        } else {
            self.at.column
        };
        (line, Position { line: index, column })
    }
}

fn render_with(source: &str, diagnostic: &CompileError, styled: bool) -> (out: String)
    ensures
        out@ == layout(source.spec_bytes(), diagnostic@, styled),
{
    let ghost d = diagnostic@;
    let (line, place) = diagnostic.prepare_line(source);
    let mut digits = String::new();
    push_decimal(&mut digits, place.line as u128 + 1);
    let width = digits.as_str().unicode_len();
    let count = diagnostic.span.len();
    let count = if count == 0 {
        1
    } else {
        count
    };
    let mut marks = String::new();
    push_repeated(&mut marks, '^', count);

    let mut out = String::new();
    put_error(&mut out, "error", styled);
    out.append(": ");
    out.append(diagnostic.message.as_str());
    out.append(" [E");
    put_number(&mut out, diagnostic.code as usize, styled);
    out.append("]\n");
    assert(out@ =~= header(d, styled));
    put_number(&mut out, place.line + 1, styled);
    put_dim(&mut out, " | ", styled);
    assert(out@ =~= header(d, styled) + gutter(place.line as nat, styled));
    out.append(line);
    push_char(&mut out, '\n');
    let ghost upper = out@;
    proof {
        reveal_strlit("\n");
        assert(upper =~= header(d, styled) + gutter(place.line as nat, styled) + line@ + "\n"@);
    }
    push_repeated(&mut out, ' ', width);
    push_repeated(&mut out, ' ', 3);
    push_repeated(&mut out, ' ', place.column);
    proof {
        assert(digits@ =~= decimal((place.line + 1) as nat));
        assert(repeated(' ', width as nat) + repeated(' ', 3) + repeated(
            ' ',
            place.column as nat,
        ) =~= repeated(' ', gutter_width(place.line as nat) + place.column as nat));
        assert(out@ =~= upper + repeated(
            ' ',
            gutter_width(place.line as nat) + place.column as nat,
        ));
    }
    put_error(&mut out, marks.as_str(), styled);
    push_char(&mut out, '\n');
    let ghost middle = out@;
    proof {
        assert(marks@ =~= repeated('^', carets(d.span)));
        assert(middle =~= upper + repeated(
            ' ',
            gutter_width(place.line as nat) + place.column as nat,
        ) + paint_error(repeated('^', carets(d.span)), styled) + "\n"@);
    }
    put_labelled(&mut out, "hint:", &diagnostic.hints, styled);
    put_labelled(&mut out, "note:", &diagnostic.notes, styled);
    assert(out@ =~= middle + labelled("hint:"@, d.hints, styled) + labelled(
        "note:"@,
        d.notes,
        styled,
    ));
    out
}

/// Renders a diagnostic against the source it was raised for, as plain
/// text. Positions that the source does not have are brought back into it;
/// rendering never fails.
pub fn render(source: &str, diagnostic: &CompileError) -> (out: String)
    ensures
        out@ == rendered(source.spec_bytes(), diagnostic@),
{
    render_with(source, diagnostic, false)
}

/// Renders a diagnostic as `render` does, with terminal styles: the word
/// `error`, and the carets, in bold red; the code and the line number in
/// yellow; the bar of the gutter and the labels of hints and notes dimmed.
pub fn render_styled(source: &str, diagnostic: &CompileError) -> (out: String)
    ensures
        out@ == rendered_styled(source.spec_bytes(), diagnostic@),
{
    render_with(source, diagnostic, true)
}

/// The styled renderings of all `errors` against `raw`, in their order.
pub fn format_errs(raw: &str, errors: &Vec<CompileError>) -> (out: String)
    ensures
        out@ == all_rendered(raw.spec_bytes(), errors@),
{
    let mut out = String::new();
    let mut k: usize = 0;
    assert(errors@.subrange(0, 0) =~= Seq::<CompileError>::empty());
    assert(out@ =~= all_rendered(raw.spec_bytes(), errors@.subrange(0, 0)));
    while k < errors.len()
        invariant
            k <= errors@.len(),
            out@ == all_rendered(raw.spec_bytes(), errors@.subrange(0, k as int)),
        decreases errors@.len() - k,
    {
        let one = render_styled(raw, &errors[k]);
        out.append(one.as_str());
        proof {
            let done = errors@.subrange(0, k + 1);
            assert(done.drop_last() =~= errors@.subrange(0, k as int));
            assert(done.last() == errors@[k as int]);
        }
        k = k + 1;
    }
    assert(errors@.subrange(0, k as int) =~= errors@);
    out
}

/// Rendering is a function of the source and the diagnostic alone: two
/// renderings of the same diagnostic against the same source are the same
/// text, character for character.
pub proof fn lemma_render_deterministic(
    source: Seq<u8>,
    diagnostic: Diagnostic,
    first: Seq<char>,
    second: Seq<char>,
)
    requires
        first == rendered(source, diagnostic),
        second == rendered(source, diagnostic),
    ensures
        first == second,
{
}

} // verus!
