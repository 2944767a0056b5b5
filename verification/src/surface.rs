//! The output surface: where rows land.
//!
//! A surface is a grid of cells that takes whole lines. The frame engine
//! knows it only through [`FrameRender`]. What a surface has been asked to do
//! is modelled as its history, a sequence of [`RenderEvent`]s: the engine's
//! contracts say exactly which events an update adds.
//!
//! [`MemoryFrame`] is a surface that keeps in memory what it shows, for
//! callers that want to look at what was painted, or to carry it to a medium
//! of their own.

use vstd::prelude::*;
use vstd::string::*;

verus! {

/// One request made of a surface.
pub enum RenderEvent {
    /// Every cell was overwritten with the given glyph.
    Clear(char),
    /// The write position went back to the top-left cell.
    ResetCursor,
    /// One line of text was written at the write position.
    Line(Seq<char>),
}

/// The events of writing `rows` one after the other.
pub open spec fn line_events(rows: Seq<Seq<char>>) -> Seq<RenderEvent> {
    Seq::new(rows.len(), |i: int| RenderEvent::Line(rows[i]))
}

/// A line-oriented output surface.
///
/// An implementation carries out each request on its medium and returns when
/// the request is done; a medium that fails does not return. The requests
/// change what the surface shows, never its size.
pub trait FrameRender: Sized {
    /// Everything this surface was asked to do, oldest first.
    spec fn history(&self) -> Seq<RenderEvent>;

    /// Width and height of the surface, in cells.
    spec fn spec_dimensions(&self) -> (usize, usize);

    /// Acquires the surface. Nothing has been asked of a new surface.
    fn new() -> (surface: Self)
        ensures
            surface.history() == Seq::<RenderEvent>::empty(),
    ;

    /// Width and height of the surface, in cells.
    fn dimensions(&self) -> (size: (usize, usize))
        ensures
            size == self.spec_dimensions(),
    ;

    /// Writes one line. The line is shown as it is: the surface neither
    /// wraps nor pads it.
    fn render_line(&mut self, line: &str)
        ensures
            final(self).history() == old(self).history().push(RenderEvent::Line(line@)),
            final(self).spec_dimensions() == old(self).spec_dimensions(),
    ;

    /// Moves the write position to the top-left cell and leaves the cells
    /// as they are.
    fn reset_cursor(&mut self)
        ensures
            final(self).history() == old(self).history().push(RenderEvent::ResetCursor),
            final(self).spec_dimensions() == old(self).spec_dimensions(),
    ;

    /// Overwrites every cell with `clear_char`.
    fn clear(&mut self, clear_char: char)
        ensures
            final(self).history() == old(self).history().push(RenderEvent::Clear(clear_char)),
            final(self).spec_dimensions() == old(self).spec_dimensions(),
    ;
}

/// One recorded request, as [`MemoryFrame`] keeps it.
#[derive(Clone, Debug, PartialEq, Eq)]
pub enum RenderOp {
    /// Every cell was overwritten with the given glyph.
    Clear(char),
    /// The write position went back to the top-left cell.
    ResetCursor,
    /// One line of text was written.
    Line(String),
}

impl View for RenderOp {
    type V = RenderEvent;

    open spec fn view(&self) -> RenderEvent {
        match self {
            RenderOp::Clear(c) => RenderEvent::Clear(*c),
            RenderOp::ResetCursor => RenderEvent::ResetCursor,
            RenderOp::Line(s) => RenderEvent::Line(s@),
        }
    }
}

/// The events that a record of requests stands for.
pub open spec fn events_of(ops: Seq<RenderOp>) -> Seq<RenderEvent> {
    Seq::new(ops.len(), |i: int| ops[i]@)
}

/// What a surface shows: its history from the last clear on, that clear
/// included, or the whole history where it was never cleared.
pub open spec fn since_clear(events: Seq<RenderEvent>) -> Seq<RenderEvent>
    decreases events.len(),
{
    if events.len() == 0 {
        events
    } else if events.last() is Clear {
        seq![events.last()]
    } else {
        since_clear(events.drop_last()).push(events.last())
    }
}

/// After a clear that no further clear follows, a surface shows the clear
/// and what came after it, whatever came before.
pub proof fn lemma_since_clear(
    before: Seq<RenderEvent>,
    clear: RenderEvent,
    after: Seq<RenderEvent>,
)
    requires
        clear is Clear,
        forall|i: int| 0 <= i < after.len() ==> !(#[trigger] after[i] is Clear),
    ensures
        since_clear(before + seq![clear] + after) == seq![clear] + after,
    decreases after.len(),
{
    let all = before + seq![clear] + after;
    if after.len() == 0 {
        assert(all.last() == clear);
        assert(seq![clear] + after =~= seq![clear]);
    } else {
        lemma_since_clear(before, clear, after.drop_last());
        assert(all.last() == after.last());
        assert(all.drop_last() =~= before + seq![clear] + after.drop_last());
        assert((seq![clear] + after.drop_last()).push(after.last()) =~= seq![clear] + after);
    }
}

/// A surface of fixed size that keeps in memory what it shows: the requests
/// made of it since it was last cleared.
pub struct MemoryFrame {
    width: usize,
    height: usize,
    ops: Vec<RenderOp>,
    earlier: Ghost<Seq<RenderEvent>>,
}

impl MemoryFrame {
    /// The requests kept are the history from the last clear on.
    #[verifier::type_invariant]
    spec fn shows_since_clear(self) -> bool {
        events_of(self.ops@) == since_clear(self.earlier@ + events_of(self.ops@))
    }

    /// A surface of the given size of which nothing has been asked.
    pub fn with_dimensions(width: usize, height: usize) -> (surface: Self)
        ensures
            surface.spec_dimensions() == (width, height),
            surface.history() == Seq::<RenderEvent>::empty(),
    {
        let ops: Vec<RenderOp> = Vec::new();
        assert(events_of(ops@) =~= Seq::<RenderEvent>::empty());
        assert(Seq::<RenderEvent>::empty() + events_of(ops@) =~= Seq::<RenderEvent>::empty());
        MemoryFrame { width, height, ops, earlier: Ghost(Seq::empty()) }
    }

    /// Appends one request to the history. A clear starts the record anew.
    fn record(&mut self, op: RenderOp)
        ensures
            final(self).history() == old(self).history().push(op@),
            final(self).spec_dimensions() == old(self).spec_dimensions(),
    {
        proof {
            use_type_invariant(&*self);
        }
        let ghost history = self.history();
        let ghost shown = events_of(self.ops@);
        let ghost event = op@;
        let is_clear = match op {
            RenderOp::Clear(_) => true,
            _ => false,
        };
        let mut taken = MemoryFrame::with_dimensions(self.width, self.height);
        core::mem::swap(self, &mut taken);
        let MemoryFrame { width, height, ops, earlier } = taken;
        let mut ops = ops;
        if is_clear {
            ops.clear();
            ops.push(op);
            assert(events_of(ops@) =~= seq![event]);
            assert(history + events_of(ops@) =~= history.push(event));
            *self = MemoryFrame { width, height, ops, earlier: Ghost(history) };
        } else {
            ops.push(op);
            assert(events_of(ops@) =~= shown.push(event));
            assert(earlier@ + events_of(ops@) =~= history.push(event));
            assert(history.push(event).drop_last() =~= history);
            *self = MemoryFrame { width, height, ops, earlier };
        }
    }

    /// The requests made since the surface was last cleared, oldest first,
    /// the clear itself included.
    pub fn ops(&self) -> (ops: &Vec<RenderOp>)
        ensures
            events_of(ops@) == since_clear(self.history()),
    {
        proof {
            use_type_invariant(self);
        }
        &self.ops
    }
}

impl FrameRender for MemoryFrame {
    closed spec fn history(&self) -> Seq<RenderEvent> {
        self.earlier@ + events_of(self.ops@)
    }

    closed spec fn spec_dimensions(&self) -> (usize, usize) {
        (self.width, self.height)
    }

    /// An 80 by 24 surface of which nothing has been asked.
    fn new() -> (surface: Self)
        ensures
            surface.spec_dimensions() == (80usize, 24usize),
    {
        MemoryFrame::with_dimensions(80, 24)
    }

    fn dimensions(&self) -> (size: (usize, usize)) {
        (self.width, self.height)
    }

    fn render_line(&mut self, line: &str) {
        self.record(RenderOp::Line(line.to_owned()));
    }

    fn reset_cursor(&mut self) {
        self.record(RenderOp::ResetCursor);
    }

    fn clear(&mut self, clear_char: char) {
        self.record(RenderOp::Clear(clear_char));
    }
}

} // verus!
