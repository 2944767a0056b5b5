//! From text to display lines: splitting on line endings, hard wrapping at a
//! fixed number of characters, and cropping to the rows that fit.
//!
//! Wrapping is by character count. It knows nothing of words: a line longer
//! than the content width is cut into chunks of exactly that many
//! characters, the last one holding the rest.

use vstd::prelude::*;
use vstd::string::*;
use crate::text::{chars_of, free_of, string_of};

verus! {

/// Length of the first line of `text`: the index of its first line feed, or
/// the length of `text` where it holds none.
pub open spec fn line_end(text: Seq<char>) -> int
    decreases text.len(),
{
    if text.len() == 0 || text[0] == '\n' {
        0
    } else {
        1 + line_end(text.drop_first())
    }
}

/// `line` without the carriage return that ends it, if one does.
pub open spec fn strip_cr(line: Seq<char>) -> Seq<char> {
    if line.len() > 0 && line.last() == '\r' {
        line.drop_last()
    } else {
        line
    }
}

/// The logical lines of `text`.
///
/// A line ends at a line feed, or at a carriage return directly followed by
/// a line feed; the terminator is not part of the line. The last line needs
/// no terminator, and a terminator at the very end of the text starts no
/// further line. A carriage return that no line feed follows is an ordinary
/// character.
pub open spec fn lines_of(text: Seq<char>) -> Seq<Seq<char>>
    decreases text.len(),
{
    if text.len() == 0 {
        Seq::empty()
    } else {
        let end = line_end(text);
        if 0 <= end < text.len() {
            seq![strip_cr(text.take(end))] + lines_of(text.skip(end + 1))
        } else {
            seq![text]
        }
    }
}

/// The display lines that one logical line becomes at the given width.
///
/// A line that fits stays whole, the empty line included. A longer one
/// gives its first `width` characters as one chunk, and the rest is wrapped
/// in the same way. At width zero no character can be shown: the line
/// becomes one empty display line.
pub open spec fn wrapped(line: Seq<char>, width: int) -> Seq<Seq<char>>
    decreases line.len(),
{
    if width <= 0 {
        seq![Seq::empty()]
    } else if line.len() <= width {
        seq![line]
    } else {
        seq![line.take(width)] + wrapped(line.skip(width), width)
    }
}

/// The display lines of several logical lines, in their order.
pub open spec fn wrapped_all(lines: Seq<Seq<char>>, width: int) -> Seq<Seq<char>>
    decreases lines.len(),
{
    if lines.len() == 0 {
        Seq::empty()
    } else {
        wrapped_all(lines.drop_last(), width) + wrapped(lines.last(), width)
    }
}

/// The display lines of `text` at the given width.
pub open spec fn laid_out(text: Seq<char>, width: int) -> Seq<Seq<char>> {
    wrapped_all(lines_of(text), width)
}

/// The first `height` of `lines`, or all of them where there are no more.
pub open spec fn cropped(lines: Seq<Seq<char>>, height: int) -> Seq<Seq<char>> {
    if height < 0 {
        Seq::empty()
    } else if lines.len() > height {
        lines.take(height)
    } else {
        lines
    }
}

/// `line_end` is the one index up to which no line feed occurs and at which
/// the text ends or holds a line feed.
pub proof fn lemma_line_end(text: Seq<char>, end: int)
    requires
        0 <= end <= text.len(),
        forall|k: int| 0 <= k < end ==> text[k] != '\n',
        end == text.len() || text[end] == '\n',
    ensures
        line_end(text) == end,
    decreases text.len(),
{
    if end > 0 {
        let rest = text.drop_first();
        assert forall|k: int| 0 <= k < end - 1 implies rest[k] != '\n' by {
            assert(rest[k] == text[k + 1]);
        }
        lemma_line_end(rest, end - 1);
    }
}

/// Splits `content` into its logical lines.
pub fn split_lines(content: &str) -> (lines: Vec<String>)
    ensures
        lines.deep_view() == lines_of(content@),
{
    let chars = chars_of(content);
    let n: usize = chars.len();
    let ghost text = content@;
    let mut lines: Vec<String> = Vec::new();
    let mut start: usize = 0;
    assert(text.skip(0) =~= text);
    assert(lines.deep_view() =~= Seq::<Seq<char>>::empty());
    while start < n
        invariant
            chars@ == text,
            n == text.len(),
            start <= n,
            lines_of(text) == lines.deep_view() + lines_of(text.skip(start as int)),
        decreases n - start,
    {
        let ghost rest = text.skip(start as int);
        let ghost before = lines.deep_view();
        let mut end: usize = start;
        while end < n && chars[end] != '\n'
            invariant
                chars@ == text,
                n == text.len(),
                start <= end <= n,
                forall|k: int| start <= k < end ==> text[k] != '\n',
            decreases n - end,
        {
            end += 1;
        }
        proof {
            lemma_line_end(rest, end - start);
        }
        if end == n {
            let line = string_of(&chars, start, n);
            assert(line@ =~= rest);
            lines.push(line);
            assert(lines.deep_view() =~= before.push(rest));
            start = n;
            assert(lines_of(text.skip(n as int)) =~= Seq::<Seq<char>>::empty());
        } else {
            let cut: usize = if end > start && chars[end - 1] == '\r' {
                end - 1
            } else {
                end
            };
            let line = string_of(&chars, start, cut);
            assert(line@ =~= strip_cr(rest.take(end - start)));
            lines.push(line);
            assert(lines.deep_view() =~= before.push(strip_cr(rest.take(end - start))));
            assert(rest.skip(end - start + 1) =~= text.skip(end + 1));
            start = end + 1;
        }
    }
    assert(lines_of(text.skip(n as int)) =~= Seq::<Seq<char>>::empty());
    lines
}

/// Splits `line` into display lines of at most `width` characters.
pub fn wrap_line(line: &str, width: usize) -> (chunks: Vec<String>)
    ensures
        chunks.deep_view() == wrapped(line@, width as int),
{
    let mut chunks: Vec<String> = Vec::new();
    if width == 0 {
        chunks.push(String::new());
        assert(chunks.deep_view() =~= seq![Seq::<char>::empty()]);
        return chunks;
    }
    let chars = chars_of(line);
    let n: usize = chars.len();
    let ghost text = line@;
    let mut start: usize = 0;
    assert(text.skip(0) =~= text);
    assert(chunks.deep_view() =~= Seq::<Seq<char>>::empty());
    while n - start > width
        invariant
            chars@ == text,
            n == text.len(),
            start <= n,
            width > 0,
            wrapped(text, width as int) == chunks.deep_view() + wrapped(
                text.skip(start as int),
                width as int,
            ),
        decreases n - start,
    {
        let ghost rest = text.skip(start as int);
        let ghost before = chunks.deep_view();
        let chunk = string_of(&chars, start, start + width);
        assert(chunk@ =~= rest.take(width as int));
        chunks.push(chunk);
        assert(chunks.deep_view() =~= before.push(rest.take(width as int)));
        assert(rest.skip(width as int) =~= text.skip(start + width));
        start += width;
    }
    let ghost before = chunks.deep_view();
    let last = string_of(&chars, start, n);
    assert(last@ =~= text.skip(start as int));
    chunks.push(last);
    assert(chunks.deep_view() =~= before.push(text.skip(start as int)));
    chunks
}

/// Lays `content` out at the given width: every logical line wrapped, the
/// chunks in their order.
pub fn layout(content: &str, width: usize) -> (buffer: Vec<String>)
    ensures
        buffer.deep_view() == laid_out(content@, width as int),
{
    let lines = split_lines(content);
    let ghost all = lines.deep_view();
    let mut buffer: Vec<String> = Vec::new();
    let mut i: usize = 0;
    assert(buffer.deep_view() =~= Seq::<Seq<char>>::empty());
    assert(all.take(0) =~= Seq::<Seq<char>>::empty());
    while i < lines.len()
        invariant
            i <= lines.len(),
            all == lines.deep_view(),
            buffer.deep_view() == wrapped_all(all.take(i as int), width as int),
        decreases lines.len() - i,
    {
        let ghost before = buffer.deep_view();
        let mut chunks = wrap_line(lines[i].as_str(), width);
        let ghost added = chunks.deep_view();
        buffer.append(&mut chunks);
        assert(buffer.deep_view() =~= before + added);
        assert(all.take(i + 1).drop_last() =~= all.take(i as int));
        assert(all.take(i + 1).last() == lines[i as int]@);
        i += 1;
    }
    assert(all.take(lines.len() as int) =~= all);
    buffer
}

/// Drops from `buffer` every line after the first `height`.
pub fn crop(buffer: &mut Vec<String>, height: usize)
    ensures
        final(buffer).deep_view() == cropped(old(buffer).deep_view(), height as int),
{
    if buffer.len() > height {
        buffer.truncate(height);
    }
    assert(buffer.deep_view() =~= cropped(old(buffer).deep_view(), height as int));
}

/// Wrapping never makes a display line wider than the content area: every
/// chunk holds at most `width` characters, and every chunk but the last
/// holds exactly `width`. A logical line gives at least one display line.
pub proof fn lemma_wrapped_widths(line: Seq<char>, width: int)
    requires
        width >= 0,
    ensures
        wrapped(line, width).len() >= 1,
        forall|i: int|
            0 <= i < wrapped(line, width).len() ==> (#[trigger] wrapped(line, width)[i]).len()
                <= width,
        forall|i: int|
            0 <= i < wrapped(line, width).len() - 1 ==> (#[trigger] wrapped(line, width)[i]).len()
                == width,
    decreases line.len(),
{
    if width > 0 && line.len() > width {
        let rest = wrapped(line.skip(width), width);
        lemma_wrapped_widths(line.skip(width), width);
        assert forall|i: int| 0 <= i < wrapped(line, width).len() implies (#[trigger] wrapped(
            line,
            width,
        )[i]).len() <= width by {
            if i > 0 {
                assert(wrapped(line, width)[i] == rest[i - 1]);
            }
        }
        assert forall|i: int| 0 <= i < wrapped(line, width).len() - 1 implies (#[trigger] wrapped(
            line,
            width,
        )[i]).len() == width by {
            if i > 0 {
                assert(wrapped(line, width)[i] == rest[i - 1]);
            }
        }
    }
}

/// Wrapping loses and reorders nothing: the chunks of a line, put end to
/// end, are the line.
pub proof fn lemma_wrapped_concat(line: Seq<char>, width: int)
    requires
        width > 0,
    ensures
        wrapped(line, width).flatten() == line,
    decreases line.len(),
{
    let chunks = wrapped(line, width);
    if line.len() <= width {
        assert(chunks.first() == line);
        assert(chunks.drop_first() =~= Seq::<Seq<char>>::empty());
        assert(chunks.drop_first().flatten() =~= Seq::<char>::empty());
        assert(chunks.flatten() =~= line);
    } else {
        lemma_wrapped_concat(line.skip(width), width);
        assert(chunks.first() == line.take(width));
        assert(chunks.drop_first() =~= wrapped(line.skip(width), width));
        assert(chunks.flatten() =~= line.take(width) + line.skip(width));
        assert(line.take(width) + line.skip(width) =~= line);
    }
}

/// A line of `width * k + r` characters with `r < width`, and at least one
/// character, wraps to `k` full chunks and, where `r` is not zero, one more
/// that holds the last `r` characters.
pub proof fn lemma_wrapped_count(line: Seq<char>, width: int, k: int, r: int)
    requires
        width > 0,
        k >= 0,
        0 <= r < width,
        line.len() == width * k + r,
        line.len() > 0,
    ensures
        wrapped(line, width).len() == k + if r > 0 { 1int } else { 0int },
        wrapped(line, width).flatten() == line,
    decreases line.len(),
{
    lemma_wrapped_concat(line, width);
    if line.len() <= width {
        if k >= 2 {
            assert(width * k >= width * 2) by (nonlinear_arith)
                requires
                    k >= 2,
                    width > 0,
            ;
        }
        if k == 1 {
            assert(width * k == width) by (nonlinear_arith)
                requires
                    k == 1,
            ;
        }
        if k == 0 {
            assert(width * k == 0) by (nonlinear_arith)
                requires
                    k == 0,
            ;
        }
    } else {
        if k == 0 {
            assert(width * k == 0) by (nonlinear_arith)
                requires
                    k == 0,
            ;
        }
        assert(width * (k - 1) == width * k - width) by (nonlinear_arith);
        lemma_wrapped_count(line.skip(width), width, k - 1, r);
    }
}

/// No display line of a layout is wider than the content area.
pub proof fn lemma_wrapped_all_widths(lines: Seq<Seq<char>>, width: int)
    requires
        width >= 0,
    ensures
        forall|i: int|
            0 <= i < wrapped_all(lines, width).len() ==> (#[trigger] wrapped_all(
                lines,
                width,
            )[i]).len() <= width,
    decreases lines.len(),
{
    if lines.len() > 0 {
        let head = wrapped_all(lines.drop_last(), width);
        let tail = wrapped(lines.last(), width);
        lemma_wrapped_all_widths(lines.drop_last(), width);
        lemma_wrapped_widths(lines.last(), width);
        assert forall|i: int| 0 <= i < wrapped_all(lines, width).len() implies (
        #[trigger] wrapped_all(lines, width)[i]).len() <= width by {
            if i < head.len() {
                assert(wrapped_all(lines, width)[i] == head[i]);
            } else {
                assert(wrapped_all(lines, width)[i] == tail[i - head.len()]);
            }
        }
    }
}

/// No line feed occurs before `line_end`, which lies within the text.
pub proof fn lemma_line_end_bounds(text: Seq<char>)
    ensures
        0 <= line_end(text) <= text.len(),
        forall|k: int| 0 <= k < line_end(text) ==> text[k] != '\n',
        line_end(text) == text.len() || text[line_end(text)] == '\n',
    decreases text.len(),
{
    if !(text.len() == 0 || text[0] == '\n') {
        let rest = text.drop_first();
        lemma_line_end_bounds(rest);
        assert forall|k: int| 0 <= k < line_end(text) implies text[k] != '\n' by {
            if k > 0 {
                assert(text[k] == rest[k - 1]);
            }
        }
        if line_end(text) < text.len() {
            assert(text[line_end(text)] == rest[line_end(rest)]);
        }
    }
}

/// No logical line holds a line feed.
pub proof fn lemma_lines_hold_no_feed(text: Seq<char>)
    ensures
        forall|i: int|
            0 <= i < lines_of(text).len() ==> free_of(#[trigger] lines_of(text)[i], '\n'),
    decreases text.len(),
{
    if text.len() > 0 {
        let end = line_end(text);
        lemma_line_end_bounds(text);
        if end < text.len() {
            let rest = lines_of(text.skip(end + 1));
            lemma_lines_hold_no_feed(text.skip(end + 1));
            assert forall|i: int| 0 <= i < lines_of(text).len() implies free_of(
                #[trigger] lines_of(text)[i],
                '\n',
            ) by {
                if i > 0 {
                    assert(lines_of(text)[i] == rest[i - 1]);
                }
            }
        }
    }
}

/// A character that a line does not hold is in none of its chunks.
pub proof fn lemma_wrapped_free_of(line: Seq<char>, width: int, c: char)
    requires
        free_of(line, c),
    ensures
        forall|i: int|
            0 <= i < wrapped(line, width).len() ==> free_of(#[trigger] wrapped(line, width)[i], c),
    decreases line.len(),
{
    if width > 0 && line.len() > width {
        let rest = wrapped(line.skip(width), width);
        assert(free_of(line.skip(width), c));
        lemma_wrapped_free_of(line.skip(width), width, c);
        assert forall|i: int| 0 <= i < wrapped(line, width).len() implies free_of(
            #[trigger] wrapped(line, width)[i],
            c,
        ) by {
            if i > 0 {
                assert(wrapped(line, width)[i] == rest[i - 1]);
            }
        }
    }
}

/// No display line of a layout holds a line feed.
pub proof fn lemma_laid_out_holds_no_feed(text: Seq<char>, width: int)
    ensures
        forall|i: int|
            0 <= i < laid_out(text, width).len() ==> free_of(
                #[trigger] laid_out(text, width)[i],
                '\n',
            ),
{
    lemma_lines_hold_no_feed(text);
    lemma_wrapped_all_free_of(lines_of(text), width, '\n');
}

/// A character that none of the lines holds is in no chunk of any of them.
pub proof fn lemma_wrapped_all_free_of(lines: Seq<Seq<char>>, width: int, c: char)
    requires
        forall|i: int| 0 <= i < lines.len() ==> free_of(#[trigger] lines[i], c),
    ensures
        forall|i: int|
            0 <= i < wrapped_all(lines, width).len() ==> free_of(
                #[trigger] wrapped_all(lines, width)[i],
                c,
            ),
    decreases lines.len(),
{
    if lines.len() > 0 {
        let head = wrapped_all(lines.drop_last(), width);
        let tail = wrapped(lines.last(), width);
        assert forall|i: int| 0 <= i < lines.drop_last().len() implies free_of(
            #[trigger] lines.drop_last()[i],
            c,
        ) by {
            assert(lines.drop_last()[i] == lines[i]);
        }
        lemma_wrapped_all_free_of(lines.drop_last(), width, c);
        lemma_wrapped_free_of(lines.last(), width, c);
        assert forall|i: int| 0 <= i < wrapped_all(lines, width).len() implies free_of(
            #[trigger] wrapped_all(lines, width)[i],
            c,
        ) by {
            if i < head.len() {
                assert(wrapped_all(lines, width)[i] == head[i]);
            } else {
                assert(wrapped_all(lines, width)[i] == tail[i - head.len()]);
            }
        }
    }
}

/// Only the empty text lays out to no display line at all.
pub proof fn lemma_laid_out_empty(text: Seq<char>, width: int)
    requires
        width >= 0,
    ensures
        laid_out(text, width).len() == 0 <==> text.len() == 0,
{
    let lines = lines_of(text);
    if text.len() > 0 {
        assert(lines.len() > 0);
        lemma_wrapped_widths(lines.last(), width);
    } else {
        assert(wrapped_all(lines, width) =~= Seq::<Seq<char>>::empty());
    }
}

} // verus!
