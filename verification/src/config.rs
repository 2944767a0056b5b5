//! Layout configuration and the geometry derived from it.
//!
//! A frame sits on a surface of `width` by `height` cells. From the surface
//! edge inwards come the margin, the border ring and the padding; what is
//! left in the middle is the content area. All derived sizes are clamped at
//! zero, so a configuration that leaves no room is degenerate, never an
//! arithmetic fault.

use vstd::prelude::*;

verus! {

/// Glyph that fills blank cells unless configured otherwise.
pub const SPACE: char = ' ';

/// Glyph that draws the border unless configured otherwise.
pub const FRAME_BG: char = '▓';

/// Geometry and glyphs of a frame.
#[derive(Clone, Copy, Debug, PartialEq, Eq, Structural)]
pub struct FrameConfig {
    /// Width of the border ring, in cells, on each side.
    pub border_thickness: usize,
    /// Blank cells between border and content, on each side.
    pub padding: usize,
    /// Blank cells between surface edge and border, on each side.
    pub margin: usize,
    /// Total surface width in cells.
    pub width: usize,
    /// Total surface height in cells.
    pub height: usize,
    /// Glyph for blank cells.
    pub space_char: char,
    /// Glyph for border cells.
    pub frame_char: char,
}

/// The configuration every builder chain starts from: one cell each of
/// border, padding and margin on an 80 by 24 surface.
pub open spec fn default_config() -> FrameConfig {
    FrameConfig {
        border_thickness: 1,
        padding: 1,
        margin: 1,
        width: 80,
        height: 24,
        space_char: SPACE,
        frame_char: FRAME_BG,
    }
}

impl Default for FrameConfig {
    fn default() -> (config: Self)
        ensures
            config == default_config(),
    {
        FrameConfig {
            border_thickness: 1,
            padding: 1,
            margin: 1,
            width: 80,
            height: 24,
            space_char: SPACE,
            frame_char: FRAME_BG,
        }
    }
}

impl FrameConfig {
    /// Cells taken on one axis by border, margin and padding of both sides.
    pub open spec fn spec_framespace(self) -> int {
        2 * (self.border_thickness + self.margin + self.padding)
    }

    /// Width of the content area; zero where the frame leaves no room.
    pub open spec fn spec_content_width(self) -> int {
        if self.spec_framespace() <= self.width {
            self.width - self.spec_framespace()
        } else {
            0
        }
    }

    /// Height of the content area; zero where the frame leaves no room.
    pub open spec fn spec_content_height(self) -> int {
        if self.spec_framespace() <= self.height {
            self.height - self.spec_framespace()
        } else {
            0
        }
    }

    /// Width of the border ring's outer edge; zero where the margins meet.
    pub open spec fn spec_frame_width(self) -> int {
        if 2 * self.margin <= self.width {
            self.width - 2 * self.margin
        } else {
            0
        }
    }

    /// The frame leaves a content area of at least one cell on both axes.
    pub open spec fn is_valid(self) -> bool {
        &&& self.spec_framespace() < self.width
        &&& self.spec_framespace() < self.height
    }

    /// Starts a builder chain from the defaults.
    pub fn new() -> (config: Self)
        ensures
            config == default_config(),
    {
        FrameConfig {
            border_thickness: 1,
            padding: 1,
            margin: 1,
            width: 80,
            height: 24,
            space_char: SPACE,
            frame_char: FRAME_BG,
        }
    }

    /// Replaces the glyph for blank cells.
    pub fn with_space_char(self, space_char: char) -> (config: Self)
        ensures
            config == (FrameConfig { space_char, ..self }),
    {
        FrameConfig { space_char, ..self }
    }

    /// Replaces the glyph for border cells.
    pub fn with_frame_char(self, frame_char: char) -> (config: Self)
        ensures
            config == (FrameConfig { frame_char, ..self }),
    {
        FrameConfig { frame_char, ..self }
    }

    /// Replaces the border thickness.
    pub fn with_border_thickness(self, border_thickness: usize) -> (config: Self)
        ensures
            config == (FrameConfig { border_thickness, ..self }),
    {
        FrameConfig { border_thickness, ..self }
    }

    /// Replaces the padding.
    pub fn with_padding(self, padding: usize) -> (config: Self)
        ensures
            config == (FrameConfig { padding, ..self }),
    {
        FrameConfig { padding, ..self }
    }

    /// Replaces the margin.
    pub fn with_margin(self, margin: usize) -> (config: Self)
        ensures
            config == (FrameConfig { margin, ..self }),
    {
        FrameConfig { margin, ..self }
    }

    /// Replaces the surface width.
    pub fn with_width(self, width: usize) -> (config: Self)
        ensures
            config == (FrameConfig { width, ..self }),
    {
        FrameConfig { width, ..self }
    }

    /// Replaces the surface height.
    pub fn with_height(self, height: usize) -> (config: Self)
        ensures
            config == (FrameConfig { height, ..self }),
    {
        FrameConfig { height, ..self }
    }

    /// Cells taken on one axis by border, margin and padding of both sides,
    /// or `None` where that count does not fit the machine word.
    pub fn framespace(&self) -> (space: Option<usize>)
        ensures
            match space {
                Some(s) => s == self.spec_framespace(),
                None => self.spec_framespace() > usize::MAX,
            },
    {
        let side: usize = match self.border_thickness.checked_add(self.margin) {
            Some(s) => s,
            None => { return None; },
        };
        let side: usize = match side.checked_add(self.padding) {
            Some(s) => s,
            None => { return None; },
        };
        side.checked_mul(2)
    }

    /// Width of the content area, clamped at zero.
    pub fn content_width(&self) -> (w: usize)
        ensures
            w == self.spec_content_width(),
    {
        match self.framespace() {
            Some(space) => if space <= self.width { self.width - space } else { 0 },
            None => 0,
        }
    }

    /// Height of the content area, clamped at zero.
    pub fn content_height(&self) -> (h: usize)
        ensures
            h == self.spec_content_height(),
    {
        match self.framespace() {
            Some(space) => if space <= self.height { self.height - space } else { 0 },
            None => 0,
        }
    }

    /// Width of the border ring's outer edge, clamped at zero.
    pub fn frame_width(&self) -> (w: usize)
        ensures
            w == self.spec_frame_width(),
    {
        match self.margin.checked_mul(2) {
            Some(both) => if both <= self.width { self.width - both } else { 0 },
            None => 0,
        }
    }
}

} // verus!
