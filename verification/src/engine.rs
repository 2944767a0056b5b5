//! The frame engine: one configuration, one content buffer, one surface.
//!
//! An update clears the surface, lays the new content out, crops it to the
//! rows that fit and, unless the content has no line at all, paints the whole
//! frame. Nothing is redrawn in part, and what an update shows depends on the
//! configuration and the content alone.

use vstd::prelude::*;
use vstd::string::*;
use crate::config::FrameConfig;
use crate::layout::{
    crop, cropped, laid_out, layout, lemma_laid_out_empty, lemma_laid_out_holds_no_feed,
    lemma_wrapped_all_widths, lines_of,
};
use crate::paint::{lemma_row_count, lemma_row_widths, lemma_rows_free_of};
use crate::text::free_of;
use crate::surface::{lemma_since_clear, line_events, since_clear, FrameRender, RenderEvent};

verus! {

/// A surface whose size cannot hold a frame: one of its dimensions is zero.
#[derive(Clone, Copy, Debug, PartialEq, Eq, Structural)]
pub struct ConfigurationError {
    /// The width that the surface reported.
    pub width: usize,
    /// The height that the surface reported.
    pub height: usize,
}

/// `config` with the size of the surface in place of its own.
pub open spec fn reconciled(config: FrameConfig, size: (usize, usize)) -> FrameConfig {
    FrameConfig { width: size.0, height: size.1, ..config }
}

/// The events of painting the frame around `buffer`: none for a buffer
/// without lines, else a cursor reset and the rows of the frame around the
/// lines that fit.
pub open spec fn paint_events(config: FrameConfig, buffer: Seq<Seq<char>>) -> Seq<RenderEvent> {
    if buffer.len() == 0 {
        Seq::empty()
    } else {
        seq![RenderEvent::ResetCursor] + line_events(
            config.painted(cropped(buffer, config.spec_content_height())),
        )
    }
}

/// The events of one update with `content`: a clear with the fill glyph,
/// then the painting of the laid-out content.
pub open spec fn update_events(config: FrameConfig, content: Seq<char>) -> Seq<RenderEvent> {
    seq![RenderEvent::Clear(config.space_char)] + paint_events(
        config,
        laid_out(content, config.spec_content_width()),
    )
}

/// A frame bound to a surface.
pub struct FrameEngine<R: FrameRender> {
    frame_buffer: Vec<String>,
    config: FrameConfig,
    render_engine: R,
}

/// What a [`FrameEngine`] holds.
pub struct FrameEngineView<R> {
    /// The layout configuration.
    pub config: FrameConfig,
    /// The display lines of the last update.
    pub buffer: Seq<Seq<char>>,
    /// The surface that the engine paints on.
    pub surface: R,
}

impl<R: FrameRender> FrameEngineView<R> {
    /// `after` is what an engine in this state holds once it has been
    /// updated with `content`: the same configuration, the cropped layout of
    /// the content as its buffer, and a surface of the same size whose
    /// history has grown by the events of the update.
    pub open spec fn updated(self, content: Seq<char>, after: Self) -> bool {
        &&& after.config == self.config
        &&& after.buffer == cropped(
            laid_out(content, self.config.spec_content_width()),
            self.config.spec_content_height(),
        )
        &&& after.surface.history() == self.surface.history() + update_events(self.config, content)
        &&& after.surface.spec_dimensions() == self.surface.spec_dimensions()
    }
}

impl<R: FrameRender> View for FrameEngine<R> {
    type V = FrameEngineView<R>;

    closed spec fn view(&self) -> FrameEngineView<R> {
        FrameEngineView {
            config: self.config,
            buffer: self.frame_buffer.deep_view(),
            surface: self.render_engine,
        }
    }
}

impl<R: FrameRender> FrameEngine<R> {
    /// The configuration has the size of the surface, which is not zero,
    /// and the buffer fits the content area.
    pub open spec fn wf(&self) -> bool {
        &&& self@.config.width == self@.surface.spec_dimensions().0
        &&& self@.config.height == self@.surface.spec_dimensions().1
        &&& self@.config.width > 0
        &&& self@.config.height > 0
        &&& self@.buffer.len() <= self@.config.spec_content_height()
        &&& forall|i: int|
            0 <= i < self@.buffer.len() ==> (#[trigger] self@.buffer[i]).len()
                <= self@.config.spec_content_width()
    }

    /// Binds a frame to `render_engine`. The surface is authoritative for
    /// the size: its dimensions replace those of `config`. A surface with a
    /// zero dimension is refused.
    pub fn new(config: &FrameConfig, render_engine: R) -> (engine: Result<Self, ConfigurationError>)
        ensures
            match engine {
                Ok(e) => {
                    &&& render_engine.spec_dimensions().0 > 0
                    &&& render_engine.spec_dimensions().1 > 0
                    &&& e@.config == reconciled(*config, render_engine.spec_dimensions())
                    &&& e@.buffer == Seq::<Seq<char>>::empty()
                    &&& e@.surface == render_engine
                    &&& e.wf()
                },
                Err(error) => {
                    &&& render_engine.spec_dimensions().0 == 0
                        || render_engine.spec_dimensions().1 == 0
                    &&& error.width == render_engine.spec_dimensions().0
                    &&& error.height == render_engine.spec_dimensions().1
                },
            },
    {
        let (width, height) = render_engine.dimensions();
        if width == 0 || height == 0 {
            return Err(ConfigurationError { width, height });
        }
        let engine = FrameEngine {
            frame_buffer: Vec::new(),
            config: config.with_width(width).with_height(height),
            render_engine,
        };
        assert(engine@.buffer =~= Seq::<Seq<char>>::empty());
        Ok(engine)
    }

    /// The layout configuration.
    pub fn config(&self) -> (config: &FrameConfig)
        ensures
            *config == self@.config,
    {
        &self.config
    }

    /// The display lines of the last update.
    pub fn frame_buffer(&self) -> (buffer: &Vec<String>)
        ensures
            buffer.deep_view() == self@.buffer,
    {
        &self.frame_buffer
    }

    /// The surface that the engine paints on.
    pub fn render_engine(&self) -> (surface: &R)
        ensures
            *surface == self@.surface,
    {
        &self.render_engine
    }

    /// Blanks the surface with the fill glyph and empties the buffer.
    fn clear(&mut self)
        ensures
            final(self)@.config == old(self)@.config,
            final(self)@.buffer == Seq::<Seq<char>>::empty(),
            final(self)@.surface.history() == old(self)@.surface.history().push(
                RenderEvent::Clear(old(self)@.config.space_char),
            ),
            final(self)@.surface.spec_dimensions() == old(self)@.surface.spec_dimensions(),
    {
        self.render_engine.clear(self.config.space_char);
        self.frame_buffer = Vec::new();
        assert(self@.buffer =~= Seq::<Seq<char>>::empty());
    }

    /// Crops the buffer to the content height and paints the frame around
    /// it; does nothing where the buffer has no line.
    fn render(&mut self)
        ensures
            final(self)@.config == old(self)@.config,
            final(self)@.buffer == cropped(
                old(self)@.buffer,
                old(self)@.config.spec_content_height(),
            ),
            final(self)@.surface.history() == old(self)@.surface.history() + paint_events(
                old(self)@.config,
                old(self)@.buffer,
            ),
            final(self)@.surface.spec_dimensions() == old(self)@.surface.spec_dimensions(),
    {
        if self.frame_buffer.len() > 0 {
            crop(&mut self.frame_buffer, self.config.content_height());
            self.render_engine.reset_cursor();
            let rows = self.config.paint(&self.frame_buffer);
            let ghost start = self.render_engine.history();
            let ghost events = line_events(rows.deep_view());
            let mut i: usize = 0;
            assert(start + events.take(0) =~= start);
            while i < rows.len()
                invariant
                    i <= rows.len(),
                    events == line_events(rows.deep_view()),
                    self.render_engine.history() == start + events.take(i as int),
                    self.render_engine.spec_dimensions() == old(
                        self,
                    ).render_engine.spec_dimensions(),
                    self.config == old(self).config,
                    self.frame_buffer.deep_view() == cropped(
                        old(self)@.buffer,
                        old(self)@.config.spec_content_height(),
                    ),
                decreases rows.len() - i,
            {
                self.render_engine.render_line(rows[i].as_str());
                assert(start + events.take(i + 1) =~= (start + events.take(i as int)).push(
                    events[i as int],
                ));
                i += 1;
            }
            assert(events.take(rows.len() as int) =~= events);
            assert(self.render_engine.history() =~= old(self)@.surface.history() + paint_events(
                old(self)@.config,
                old(self)@.buffer,
            ));
        } else {
            assert(self@.buffer =~= cropped(
                old(self)@.buffer,
                old(self)@.config.spec_content_height(),
            ));
            assert(self.render_engine.history() =~= old(self)@.surface.history() + paint_events(
                old(self)@.config,
                old(self)@.buffer,
            ));
        }
    }

    /// Replaces what the frame shows by `content`.
    ///
    /// The surface is cleared, the content laid out at the content width and
    /// cropped to the content height, and the frame painted around it. Content
    /// without any line leaves the surface blank.
    pub fn update(&mut self, content: &str)
        ensures
            old(self)@.updated(content@, final(self)@),
            since_clear(final(self)@.surface.history()) == update_events(
                old(self)@.config,
                content@,
            ),
            old(self).wf() ==> final(self).wf(),
    {
        self.clear();
        self.frame_buffer = layout(content, self.config.content_width());
        self.render();
        proof {
            let config = old(self)@.config;
            let lines = laid_out(content@, config.spec_content_width());
            lemma_wrapped_all_widths(lines_of(content@), config.spec_content_width());
            lemma_update_shown(old(self)@.surface.history(), config, content@);
            assert(self@.surface.history() =~= old(self)@.surface.history() + update_events(
                config,
                content@,
            ));
            let buffer = self@.buffer;
            assert forall|i: int| 0 <= i < buffer.len() implies (#[trigger] buffer[i]).len()
                <= config.spec_content_width() by {
                assert(buffer[i] == lines[i]);
            }
        }
    }
}

/// Whatever a surface showed before, after an update it shows the events of
/// that update and nothing else.
pub proof fn lemma_update_shown(before: Seq<RenderEvent>, config: FrameConfig, content: Seq<char>)
    ensures
        since_clear(before + update_events(config, content)) == update_events(config, content),
{
    let clear = RenderEvent::Clear(config.space_char);
    let after = paint_events(config, laid_out(content, config.spec_content_width()));
    assert(before + update_events(config, content) =~= before + seq![clear] + after);
    lemma_since_clear(before, clear, after);
}

/// Every line that an update emits is as wide as the surface, where the frame
/// leaves a content area of at least one cell on both axes and has no margin.
pub proof fn lemma_exact_width(config: FrameConfig, content: Seq<char>)
    requires
        config.is_valid(),
        config.margin == 0,
    ensures
        forall|i: int|
            0 <= i < update_events(config, content).len() ==> (#[trigger] update_events(
                config,
                content,
            )[i] matches RenderEvent::Line(row) ==> row.len() == config.width),
{
    lemma_emitted_widths(config, content);
}

/// The width of every line that an update emits, where the content area is
/// not clamped: a top margin line spans the surface, every other line is one
/// margin short of it.
pub proof fn lemma_emitted_widths(config: FrameConfig, content: Seq<char>)
    requires
        config.spec_framespace() <= config.width,
    ensures
        forall|i: int|
            0 <= i < update_events(config, content).len() ==> (#[trigger] update_events(
                config,
                content,
            )[i] matches RenderEvent::Line(row) ==> row.len() == if i < 2 + config.margin {
                config.width as int
            } else {
                config.width - config.margin
            }),
{
    let lines = laid_out(content, config.spec_content_width());
    let buffer = cropped(lines, config.spec_content_height());
    let rows = config.painted(buffer);
    lemma_wrapped_all_widths(lines_of(content), config.spec_content_width());
    assert forall|i: int| 0 <= i < buffer.len() implies (#[trigger] buffer[i]).len()
        <= config.spec_content_width() by {
        assert(buffer[i] == lines[i]);
    }
    lemma_row_widths(config, buffer);
    assert forall|i: int| 0 <= i < update_events(config, content).len() implies (
    #[trigger] update_events(config, content)[i] matches RenderEvent::Line(row) ==> row.len()
        == if i < 2 + config.margin {
        config.width as int
    } else {
        config.width - config.margin
    }) by {
        if i >= 2 {
            assert(update_events(config, content)[i] == RenderEvent::Line(rows[i - 2]));
        }
    }
}

/// No line that an update emits holds a line feed, where neither glyph of the
/// configuration is one: each line is one row of the surface.
pub proof fn lemma_emitted_lines_hold_no_feed(config: FrameConfig, content: Seq<char>)
    requires
        config.space_char != '\n',
        config.frame_char != '\n',
    ensures
        forall|i: int|
            0 <= i < update_events(config, content).len() ==> (#[trigger] update_events(
                config,
                content,
            )[i] matches RenderEvent::Line(row) ==> free_of(row, '\n')),
{
    let lines = laid_out(content, config.spec_content_width());
    let buffer = cropped(lines, config.spec_content_height());
    let rows = config.painted(buffer);
    lemma_laid_out_holds_no_feed(content, config.spec_content_width());
    assert forall|i: int| 0 <= i < buffer.len() implies free_of(#[trigger] buffer[i], '\n') by {
        assert(buffer[i] == lines[i]);
    }
    lemma_rows_free_of(config, buffer, '\n');
    assert forall|i: int| 0 <= i < update_events(config, content).len() implies (
    #[trigger] update_events(config, content)[i] matches RenderEvent::Line(row) ==> free_of(
        row,
        '\n',
    )) by {
        if i >= 2 {
            assert(update_events(config, content)[i] == RenderEvent::Line(rows[i - 2]));
        }
    }
}

/// An update with content that has at least one line emits exactly as many
/// lines as the surface has rows, where the frame leaves a content area of at
/// least one cell on both axes and its fixed rows do not exceed the surface
/// height.
pub proof fn lemma_exact_height(config: FrameConfig, content: Seq<char>)
    requires
        config.is_valid(),
        content.len() > 0,
        config.spec_fixed_rows(
            cropped(
                laid_out(content, config.spec_content_width()),
                config.spec_content_height(),
            ).len() as int,
        ) <= config.height,
    ensures
        update_events(config, content) == seq![
            RenderEvent::Clear(config.space_char),
            RenderEvent::ResetCursor,
        ] + line_events(
            config.painted(
                cropped(
                    laid_out(content, config.spec_content_width()),
                    config.spec_content_height(),
                ),
            ),
        ),
        config.painted(
            cropped(
                laid_out(content, config.spec_content_width()),
                config.spec_content_height(),
            ),
        ).len() == config.height,
{
    let lines = laid_out(content, config.spec_content_width());
    let buffer = cropped(lines, config.spec_content_height());
    lemma_laid_out_empty(content, config.spec_content_width());
    lemma_row_count(config, buffer);
    assert(update_events(config, content) =~= seq![
        RenderEvent::Clear(config.space_char),
        RenderEvent::ResetCursor,
    ] + line_events(config.painted(buffer)));
}

/// Content with more display lines than the content area has rows is
/// painted as its first rows alone: the buffer is that prefix, and the lines
/// after it have no part in what the update emits.
pub proof fn lemma_crop_policy(config: FrameConfig, content: Seq<char>, other: Seq<char>)
    requires
        laid_out(content, config.spec_content_width()).len() > config.spec_content_height(),
        laid_out(other, config.spec_content_width()).len() > config.spec_content_height(),
        laid_out(content, config.spec_content_width()).take(config.spec_content_height())
            == laid_out(other, config.spec_content_width()).take(config.spec_content_height()),
    ensures
        cropped(laid_out(content, config.spec_content_width()), config.spec_content_height())
            == laid_out(content, config.spec_content_width()).take(config.spec_content_height()),
        update_events(config, content) == update_events(config, other),
{
}

/// Two updates in succession with the same content emit the same events and
/// leave the same buffer.
pub proof fn lemma_update_idempotent<R: FrameRender>(
    start: FrameEngineView<R>,
    first: FrameEngineView<R>,
    second: FrameEngineView<R>,
    content: Seq<char>,
)
    requires
        start.updated(content, first),
        first.updated(content, second),
    ensures
        first.surface.history().skip(start.surface.history().len() as int)
            == second.surface.history().skip(first.surface.history().len() as int),
        first.surface.history().skip(start.surface.history().len() as int) == update_events(
            start.config,
            content,
        ),
        second.buffer == first.buffer,
        second.config == first.config,
{
    let events = update_events(start.config, content);
    assert((start.surface.history() + events).skip(start.surface.history().len() as int)
        =~= events);
    assert((first.surface.history() + events).skip(first.surface.history().len() as int)
        =~= events);
}

/// An update emits nothing but the clear exactly when the content is empty:
/// empty content leaves the surface blank, any other content has the frame
/// painted.
pub proof fn lemma_empty_content(config: FrameConfig, content: Seq<char>)
    ensures
        content.len() == 0 <==> update_events(config, content) == seq![
            RenderEvent::Clear(config.space_char),
        ],
        content.len() == 0 ==> cropped(
            laid_out(content, config.spec_content_width()),
            config.spec_content_height(),
        ) == Seq::<Seq<char>>::empty(),
        content.len() > 0 ==> update_events(config, content)[1] == RenderEvent::ResetCursor,
{
    lemma_laid_out_empty(content, config.spec_content_width());
    let lines = laid_out(content, config.spec_content_width());
    if content.len() == 0 {
        assert(update_events(config, content) =~= seq![RenderEvent::Clear(config.space_char)]);
        assert(cropped(lines, config.spec_content_height()) =~= Seq::<Seq<char>>::empty());
    } else {
        assert(update_events(config, content).len() >= 2);
    }
}

} // verus!
