//! Row composition: from a buffer of display lines to the rows of a frame.
//!
//! A painted frame is, from the top: the margin rows, the upper border, one
//! padding row, one row per buffered line, filler padding rows, one closing
//! padding row, and the lower border. Every row below the top margin starts
//! with the left margin and ends with the right border, so it is shorter
//! than the surface by the right margin, whose cells the preceding clear has
//! already blanked.
//!
//! The left margin and the left padding are always drawn with [`SPACE`]. The
//! fill glyph of the configuration draws the top margin, the inside of the
//! padding rows and what follows a content line up to the border.

use vstd::prelude::*;
use vstd::string::*;
use crate::config::{FrameConfig, SPACE};
use crate::text::{free_of, push_repeated, repeated};

verus! {

impl FrameConfig {
    /// The blank cells left of the border.
    pub open spec fn spec_left_margin(self) -> Seq<char> {
        repeated(SPACE, self.margin as int)
    }

    /// The blank cells between the left border and a content line.
    pub open spec fn spec_left_padding(self) -> Seq<char> {
        repeated(SPACE, self.padding as int)
    }

    /// The border cells on one side of a row.
    pub open spec fn spec_frame_col(self) -> Seq<char> {
        repeated(self.frame_char, self.border_thickness as int)
    }

    /// The border cells of a border row.
    pub open spec fn spec_frame_row(self) -> Seq<char> {
        repeated(self.frame_char, self.spec_frame_width())
    }

    /// A row of the top margin: blank over the whole surface width.
    pub open spec fn spec_margin_row(self) -> Seq<char> {
        repeated(self.space_char, self.width as int)
    }

    /// A row of the upper or lower border.
    pub open spec fn spec_border_row(self) -> Seq<char> {
        self.spec_left_margin() + self.spec_frame_row()
    }

    /// A row that holds no content: blank between the two borders.
    pub open spec fn spec_padding_row(self) -> Seq<char> {
        self.spec_left_margin() + self.spec_frame_col() + repeated(
            self.space_char,
            self.spec_content_width() + 2 * self.padding,
        ) + self.spec_frame_col()
    }

    /// Blank cells that follow a content line of `len` characters: what the
    /// line leaves of the content width, then the right padding.
    pub open spec fn spec_right_fill(self, len: int) -> int {
        if len <= self.spec_content_width() {
            self.spec_content_width() - len + self.padding
        } else {
            self.padding as int
        }
    }

    /// The row that shows `line`.
    pub open spec fn spec_content_row(self, line: Seq<char>) -> Seq<char> {
        self.spec_left_margin() + self.spec_frame_col() + self.spec_left_padding() + line
            + repeated(self.space_char, self.spec_right_fill(line.len() as int))
            + self.spec_frame_col()
    }

    /// Rows a frame has besides its filler rows when it shows `shown`
    /// lines: top margin, both borders, the two fixed padding rows and the
    /// content rows.
    pub open spec fn spec_fixed_rows(self, shown: int) -> int {
        self.margin + 2 * self.border_thickness + 2 + shown
    }

    /// Padding rows that fill the frame up to the surface height when it
    /// shows `shown` lines; none where the other rows already reach it.
    pub open spec fn spec_filler_rows(self, shown: int) -> int {
        if self.spec_fixed_rows(shown) <= self.height {
            self.height - self.spec_fixed_rows(shown)
        } else {
            0
        }
    }

    /// The rows of the frame around `buffer`, top to bottom.
    pub open spec fn painted(self, buffer: Seq<Seq<char>>) -> Seq<Seq<char>> {
        let margin_rows = Seq::new(self.margin as nat, |i: int| self.spec_margin_row());
        let border_rows = Seq::new(self.border_thickness as nat, |i: int| self.spec_border_row());
        let content_rows = Seq::new(buffer.len(), |i: int| self.spec_content_row(buffer[i]));
        let filler_rows = Seq::new(
            self.spec_filler_rows(buffer.len() as int) as nat,
            |i: int| self.spec_padding_row(),
        );
        margin_rows + border_rows + seq![self.spec_padding_row()] + content_rows + filler_rows
            + seq![self.spec_padding_row()] + border_rows
    }

    /// The blank cells left of the border.
    pub fn left_margin(&self) -> (s: String)
        ensures
            s@ == self.spec_left_margin(),
    {
        let mut s = String::new();
        push_repeated(&mut s, SPACE, self.margin);
        assert(s@ =~= self.spec_left_margin());
        s
    }

    /// The blank cells between the left border and a content line.
    pub fn left_padding(&self) -> (s: String)
        ensures
            s@ == self.spec_left_padding(),
    {
        let mut s = String::new();
        push_repeated(&mut s, SPACE, self.padding);
        assert(s@ =~= self.spec_left_padding());
        s
    }

    /// The border cells on one side of a row.
    pub fn frame_col(&self) -> (s: String)
        ensures
            s@ == self.spec_frame_col(),
    {
        let mut s = String::new();
        push_repeated(&mut s, self.frame_char, self.border_thickness);
        assert(s@ =~= self.spec_frame_col());
        s
    }

    /// The border cells of a border row.
    pub fn frame_row(&self) -> (s: String)
        ensures
            s@ == self.spec_frame_row(),
    {
        let mut s = String::new();
        push_repeated(&mut s, self.frame_char, self.frame_width());
        assert(s@ =~= self.spec_frame_row());
        s
    }

    /// A row of the top margin.
    pub fn margin_row(&self) -> (s: String)
        ensures
            s@ == self.spec_margin_row(),
    {
        let mut s = String::new();
        push_repeated(&mut s, self.space_char, self.width);
        assert(s@ =~= self.spec_margin_row());
        s
    }

    /// A row of the upper or lower border.
    pub fn border_row(&self) -> (s: String)
        ensures
            s@ == self.spec_border_row(),
    {
        let mut s = self.left_margin();
        s.append(self.frame_row().as_str());
        s
    }

    /// A row that holds no content.
    pub fn padding_row(&self) -> (s: String)
        ensures
            s@ == self.spec_padding_row(),
    {
        let frame_col = self.frame_col();
        let mut s = self.left_margin();
        s.append(frame_col.as_str());
        let ghost head = s@;
        push_repeated(&mut s, self.space_char, self.padding);
        push_repeated(&mut s, self.space_char, self.content_width());
        push_repeated(&mut s, self.space_char, self.padding);
        assert(s@ =~= head + repeated(
            self.space_char,
            self.spec_content_width() + 2 * self.padding,
        ));
        s.append(frame_col.as_str());
        s
    }

    /// The row that shows `line`.
    pub fn content_row(&self, line: &str) -> (s: String)
        ensures
            s@ == self.spec_content_row(line@),
    {
        let len: usize = line.unicode_len();
        let width: usize = self.content_width();
        let rest: usize = if len <= width {
            width - len
        } else {
            0
        };
        let frame_col = self.frame_col();
        let mut s = self.left_margin();
        s.append(frame_col.as_str());
        s.append(self.left_padding().as_str());
        s.append(line);
        let ghost head = s@;
        push_repeated(&mut s, self.space_char, rest);
        push_repeated(&mut s, self.space_char, self.padding);
        assert(s@ =~= head + repeated(self.space_char, self.spec_right_fill(line@.len() as int)));
        s.append(frame_col.as_str());
        s
    }

    /// Padding rows that fill the frame up to the surface height when it
    /// shows `shown` lines.
    pub fn filler_rows(&self, shown: usize) -> (rows: usize)
        ensures
            rows == self.spec_filler_rows(shown as int),
    {
        let used: usize = match self.margin.checked_add(self.border_thickness) {
            Some(u) => u,
            None => { return 0; },
        };
        let used: usize = match used.checked_add(self.border_thickness) {
            Some(u) => u,
            None => { return 0; },
        };
        let used: usize = match used.checked_add(2) {
            Some(u) => u,
            None => { return 0; },
        };
        let used: usize = match used.checked_add(shown) {
            Some(u) => u,
            None => { return 0; },
        };
        if used <= self.height {
            self.height - used
        } else {
            0
        }
    }

    /// Composes the rows of the frame around `buffer`, top to bottom.
    pub fn paint(&self, buffer: &Vec<String>) -> (rows: Vec<String>)
        ensures
            rows.deep_view() == self.painted(buffer.deep_view()),
    {
        let margin_row = self.margin_row();
        let border_row = self.border_row();
        let padding_row = self.padding_row();
        let filler: usize = self.filler_rows(buffer.len());
        let ghost lines = buffer.deep_view();
        let ghost margin_rows = Seq::new(self.margin as nat, |i: int| self.spec_margin_row());
        let ghost border_rows = Seq::new(
            self.border_thickness as nat,
            |i: int| self.spec_border_row(),
        );
        let ghost content_rows = Seq::new(lines.len(), |i: int| self.spec_content_row(lines[i]));
        let ghost filler_rows = Seq::new(filler as nat, |i: int| self.spec_padding_row());

        let mut rows: Vec<String> = Vec::new();
        push_copies(&mut rows, &margin_row, self.margin);
        assert(rows.deep_view() =~= margin_rows);
        push_copies(&mut rows, &border_row, self.border_thickness);
        assert(rows.deep_view() =~= margin_rows + border_rows);
        rows.push(padding_row.clone());
        assert(rows.deep_view() =~= margin_rows + border_rows + seq![self.spec_padding_row()]);

        let ghost top = rows.deep_view();
        let mut i: usize = 0;
        while i < buffer.len()
            invariant
                i <= buffer.len(),
                lines == buffer.deep_view(),
                rows.deep_view() == top + content_rows.take(i as int),
                content_rows == Seq::new(lines.len(), |i: int| self.spec_content_row(lines[i])),
            decreases buffer.len() - i,
        {
            let ghost prev = rows.deep_view();
            let row = self.content_row(buffer[i].as_str());
            rows.push(row);
            assert(rows.deep_view() =~= prev.push(content_rows[i as int]));
            assert(content_rows.take(i + 1) =~= content_rows.take(i as int).push(
                content_rows[i as int],
            ));
            i += 1;
        }
        assert(content_rows.take(buffer.len() as int) =~= content_rows);

        let ghost body = rows.deep_view();
        push_copies(&mut rows, &padding_row, filler);
        assert(rows.deep_view() =~= body + filler_rows);
        rows.push(padding_row);
        let ghost closed = rows.deep_view();
        assert(closed =~= body + filler_rows + seq![self.spec_padding_row()]);
        push_copies(&mut rows, &border_row, self.border_thickness);
        assert(rows.deep_view() =~= closed + border_rows);
        rows
    }
}

/// The row that a frame around `buffer` shows at position `i`, counted from
/// the top.
pub open spec fn row_at(config: FrameConfig, buffer: Seq<Seq<char>>, i: int) -> Seq<char> {
    let top = config.margin + config.border_thickness;
    let bottom = top + 1 + buffer.len() + config.spec_filler_rows(buffer.len() as int);
    if i < config.margin {
        config.spec_margin_row()
    } else if i < top {
        config.spec_border_row()
    } else if i == top {
        config.spec_padding_row()
    } else if i <= top + buffer.len() {
        config.spec_content_row(buffer[i - top - 1])
    } else if i <= bottom {
        config.spec_padding_row()
    } else {
        config.spec_border_row()
    }
}

/// A painted frame has its fixed rows and its filler rows, and shows at each
/// position the row that `row_at` names.
pub proof fn lemma_painted_rows(config: FrameConfig, buffer: Seq<Seq<char>>)
    ensures
        config.painted(buffer).len() == config.spec_fixed_rows(buffer.len() as int)
            + config.spec_filler_rows(buffer.len() as int),
        forall|i: int|
            0 <= i < config.painted(buffer).len() ==> #[trigger] config.painted(buffer)[i]
                == row_at(config, buffer, i),
{
    let margin_rows = Seq::new(config.margin as nat, |i: int| config.spec_margin_row());
    let border_rows = Seq::new(config.border_thickness as nat, |i: int| config.spec_border_row());
    let content_rows = Seq::new(buffer.len(), |i: int| config.spec_content_row(buffer[i]));
    let filler_rows = Seq::new(
        config.spec_filler_rows(buffer.len() as int) as nat,
        |i: int| config.spec_padding_row(),
    );
    let padding = seq![config.spec_padding_row()];
    let a = margin_rows + border_rows;
    let b = a + padding;
    let c = b + content_rows;
    let d = c + filler_rows;
    let e = d + padding;
    assert(config.painted(buffer) == e + border_rows);
    assert forall|i: int| 0 <= i < config.painted(buffer).len() implies #[trigger] config.painted(
        buffer,
    )[i] == row_at(config, buffer, i) by {
        if i < a.len() {
            assert(e[i] == d[i] && d[i] == c[i] && c[i] == b[i] && b[i] == a[i]);
        } else if i < b.len() {
            assert(e[i] == d[i] && d[i] == c[i] && c[i] == b[i]);
        } else if i < c.len() {
            assert(e[i] == d[i] && d[i] == c[i]);
        } else if i < d.len() {
            assert(e[i] == d[i]);
        }
    }
}

/// The width of every row of a frame whose content area is not clamped and
/// whose lines fit it: a top margin row spans the surface, every other row
/// ends with the right border, one margin short of the surface width.
pub proof fn lemma_row_widths(config: FrameConfig, buffer: Seq<Seq<char>>)
    requires
        config.spec_framespace() <= config.width,
        forall|i: int|
            0 <= i < buffer.len() ==> (#[trigger] buffer[i]).len() <= config.spec_content_width(),
    ensures
        forall|i: int|
            0 <= i < config.painted(buffer).len() ==> (#[trigger] config.painted(buffer)[i]).len()
                == if i < config.margin {
                config.width as int
            } else {
                config.width - config.margin
            },
{
    lemma_painted_rows(config, buffer);
    assert(config.spec_margin_row().len() == config.width);
    assert(config.spec_border_row().len() == config.width - config.margin);
    assert(config.spec_padding_row().len() == config.width - config.margin);
    assert forall|i: int| 0 <= i < config.painted(buffer).len() implies (#[trigger] config.painted(
        buffer,
    )[i]).len() == if i < config.margin {
        config.width as int
    } else {
        config.width - config.margin
    } by {
        let top = config.margin + config.border_thickness;
        if top < i <= top + buffer.len() {
            let line = buffer[i - top - 1];
            assert(config.spec_content_row(line).len() == config.width - config.margin);
        }
    }
}

/// A character that is neither a glyph of the frame nor the blank, and that
/// no buffered line holds, is in no row of the frame.
pub proof fn lemma_rows_free_of(config: FrameConfig, buffer: Seq<Seq<char>>, c: char)
    requires
        c != SPACE,
        c != config.space_char,
        c != config.frame_char,
        forall|i: int| 0 <= i < buffer.len() ==> free_of(#[trigger] buffer[i], c),
    ensures
        forall|i: int|
            0 <= i < config.painted(buffer).len() ==> free_of(
                #[trigger] config.painted(buffer)[i],
                c,
            ),
{
    lemma_painted_rows(config, buffer);
    assert(free_of(config.spec_margin_row(), c));
    assert(free_of(config.spec_border_row(), c));
    assert(free_of(config.spec_padding_row(), c));
    assert forall|i: int| 0 <= i < config.painted(buffer).len() implies free_of(
        #[trigger] config.painted(buffer)[i],
        c,
    ) by {
        let top = config.margin + config.border_thickness;
        if top < i <= top + buffer.len() {
            let line = buffer[i - top - 1];
            assert(free_of(line, c));
            assert(free_of(config.spec_content_row(line), c));
        }
    }
}

/// Where the fixed rows of a frame do not exceed the surface height, the
/// frame has exactly as many rows as the surface.
pub proof fn lemma_row_count(config: FrameConfig, buffer: Seq<Seq<char>>)
    requires
        config.spec_fixed_rows(buffer.len() as int) <= config.height,
    ensures
        config.painted(buffer).len() == config.height,
{
    lemma_painted_rows(config, buffer);
}

/// With a content area of at least one row and `2 * padding + margin` of at
/// least two, the fixed rows never exceed the surface height, however many
/// of the content rows are taken.
pub proof fn lemma_rows_fit(config: FrameConfig, shown: int)
    requires
        config.spec_framespace() <= config.height,
        2 * config.padding + config.margin >= 2,
        0 <= shown <= config.spec_content_height(),
    ensures
        config.spec_fixed_rows(shown) <= config.height,
{
}

/// Appends `count` copies of `row` to `rows`.
pub fn push_copies(rows: &mut Vec<String>, row: &String, count: usize)
    ensures
        final(rows).deep_view() == old(rows).deep_view() + Seq::new(count as nat, |i: int| row@),
{
    let ghost before = rows.deep_view();
    let mut i: usize = 0;
    assert(rows.deep_view() =~= before + Seq::new(0nat, |i: int| row@));
    while i < count
        invariant
            i <= count,
            rows.deep_view() == before + Seq::new(i as nat, |i: int| row@),
        decreases count - i,
    {
        let ghost prev = rows.deep_view();
        rows.push(row.clone());
        assert(rows.deep_view() =~= prev.push(row@));
        i += 1;
        assert(Seq::new(i as nat, |i: int| row@) =~= Seq::new((i - 1) as nat, |i: int| row@).push(
            row@,
        ));
    }
}

} // verus!
