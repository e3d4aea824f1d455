//! Plain value types shared by the buffer and the terminal: render ticks,
//! buffer modes, wrap modes, cursor positions and shapes.

use vstd::prelude::*;

verus! {

/// A render counter. Cells and lines remember the tick at which they last
/// changed so that a flush can skip what has not changed since.
#[derive(Debug, Clone, Copy, PartialEq, Eq, PartialOrd, Ord, Hash, Structural)]
pub struct Tick(pub u32);

impl Tick {
    /// Tick zero.
    pub fn default() -> (r: Self)
        ensures
            r.0 == 0,
    {
        Tick(0)
    }

    /// The first tick of a screen: one, so that the first flush redraws.
    pub fn first() -> (r: Self)
        ensures
            r.0 == 1,
    {
        Tick(1)
    }

    /// Advances the counter, wrapping around at `u32::MAX`.
    pub fn increment(&mut self)
        ensures
            final(self).0 == (if old(self).0 == u32::MAX { 0 } else { old(self).0 + 1 }),
    {
        self.0 = if self.0 == u32::MAX { 0 } else { self.0 + 1 };
    }
}

/// How many frame buffers the host draws into in turn. The buffer keeps
/// the mode for the host; a [`crate::screen::Screen`] draws every frame
/// whole, so the pixels of a flush are the same in every mode.
#[derive(Debug, Clone, Copy, PartialEq, Eq, PartialOrd, Ord, Hash, Structural)]
pub enum BufMode {
    /// One frame buffer, with no previous frame to build on.
    Unbuffered,
    /// One frame buffer.
    Single,
    /// Two frame buffers.
    Double,
    /// Three frame buffers.
    Triple,
}

/// The numeric code of a buffer mode.
pub open spec fn buf_mode_code(m: BufMode) -> usize {
    match m {
        BufMode::Unbuffered => 0usize,
        BufMode::Single => 1,
        BufMode::Double => 2,
        BufMode::Triple => 3,
    }
}

impl BufMode {
    /// The numeric code of the mode (0 to 3).
    pub fn code(self) -> (r: usize)
        ensures
            r == buf_mode_code(self),
    {
        match self {
            BufMode::Unbuffered => 0,
            BufMode::Single => 1,
            BufMode::Double => 2,
            BufMode::Triple => 3,
        }
    }

    /// The mode with the given numeric code, if any.
    pub fn from_code(code: usize) -> (r: Option<Self>)
        ensures
            r matches Some(m) ==> buf_mode_code(m) == code,
            r is None <==> code > 3,
    {
        match code {
            0 => Some(BufMode::Unbuffered),
            1 => Some(BufMode::Single),
            2 => Some(BufMode::Double),
            3 => Some(BufMode::Triple),
            _ => None,
        }
    }

    /// The number of frames kept.
    pub fn frames(self) -> (r: usize)
        ensures
            r == (match self {
                BufMode::Unbuffered => 1usize,
                BufMode::Single => 1,
                BufMode::Double => 2,
                BufMode::Triple => 3,
            }),
    {
        match self {
            BufMode::Unbuffered => 1,
            BufMode::Single => 1,
            BufMode::Double => 2,
            BufMode::Triple => 3,
        }
    }
}

/// What the cursor does when a character reaches the end of the line.
#[derive(Debug, Clone, Copy, PartialEq, Eq, PartialOrd, Ord, Hash, Structural)]
pub enum AutoWrap {
    /// No wrapping: the cursor returns to the start of the same line.
    Disabled,
    /// Wrap to the next line as soon as the line is full.
    Immediate,
    /// Remember that the line is full and wrap before the next character.
    Delayed,
}

impl AutoWrap {
    /// The default mode, [`AutoWrap::Delayed`].
    pub fn default() -> (r: Self)
        ensures
            r == AutoWrap::Delayed,
    {
        AutoWrap::Delayed
    }
}

/// A cursor position, counted from zero: `col < width` and `row < height`.
#[derive(Debug, Clone, Copy, PartialEq, Eq, PartialOrd, Ord, Hash, Structural)]
pub struct CursorPosition {
    pub col: u32,
    pub row: u32,
}

impl CursorPosition {
    /// The top left corner.
    pub fn origin() -> (r: Self)
        ensures
            r.col == 0 && r.row == 0,
    {
        CursorPosition { col: 0, row: 0 }
    }
}

/// The shape in which the cursor is drawn.
#[derive(Debug, Clone, Copy, PartialEq, Eq, PartialOrd, Ord, Hash, Structural)]
pub enum CursorShape {
    /// A block like `▒` (the default).
    Block,
    /// An underscore like `_`.
    Underline,
    /// A vertical bar `⎸`.
    Beam,
    /// A box like `☐`.
    HollowBlock,
    /// An invisible cursor.
    Hidden,
}

impl CursorShape {
    /// The default shape, [`CursorShape::Block`].
    pub fn default() -> (r: Self)
        ensures
            r == CursorShape::Block,
    {
        CursorShape::Block
    }
}

/// The cursor: its position, shape and visibility.
#[derive(Debug, Clone, Copy, PartialEq, Eq, Structural)]
pub struct Cursor {
    /// The position, kept within `0..width` and `0..height`.
    pub pos: CursorPosition,
    /// The shape.
    pub shape: CursorShape,
    /// Whether the cursor is shown.
    pub visible: bool,
}

impl Cursor {
    /// A visible block cursor at the origin.
    pub fn default() -> (r: Self)
        ensures
            r.pos == (CursorPosition { col: 0, row: 0 }),
            r.shape == CursorShape::Block,
            r.visible,
    {
        Cursor { pos: CursorPosition { col: 0, row: 0 }, shape: CursorShape::Block, visible: true }
    }
}

} // verus!
