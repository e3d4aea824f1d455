//! Character cells of the terminal buffer and their attributes.

use vstd::prelude::*;

use unicode_width::UnicodeWidthChar;

use crate::ansi_color::{AnsiColor, AnsiNamedColor};

verus! {

/// Font attributes of a cell: bold and italic.
#[derive(Debug, Clone, Copy, PartialEq, Eq, PartialOrd, Ord, Hash, Structural)]
pub struct FontFlags(pub u8);

/// Whether the bold bit is set.
pub open spec fn spec_is_bold(f: FontFlags) -> bool {
    f.0 & 1 != 0
}

/// Whether the italic bit is set.
pub open spec fn spec_is_italic(f: FontFlags) -> bool {
    f.0 & 2 != 0
}

impl FontFlags {
    /// The bold bit.
    pub const BOLD: u8 = 1;
    /// The italic bit.
    pub const ITALIC: u8 = 2;

    /// No attributes.
    pub fn default() -> (r: Self)
        ensures
            r.0 == 0,
            !spec_is_bold(r) && !spec_is_italic(r),
    {
        assert(0u8 & 1 == 0 && 0u8 & 2 == 0) by (bit_vector);
        FontFlags(0)
    }

    /// Bold only.
    pub fn bold() -> (r: Self)
        ensures
            r.0 == 1,
            spec_is_bold(r) && !spec_is_italic(r),
    {
        assert(1u8 & 1 != 0 && 1u8 & 2 == 0) by (bit_vector);
        FontFlags(1)
    }

    /// Italic only.
    pub fn italic() -> (r: Self)
        ensures
            r.0 == 2,
            !spec_is_bold(r) && spec_is_italic(r),
    {
        assert(2u8 & 1 == 0 && 2u8 & 2 != 0) by (bit_vector);
        FontFlags(2)
    }

    /// Bold and italic.
    pub fn bold_italic() -> (r: Self)
        ensures
            r.0 == 3,
            spec_is_bold(r) && spec_is_italic(r),
    {
        assert(3u8 & 1 != 0 && 3u8 & 2 != 0) by (bit_vector);
        FontFlags(3)
    }

    /// Whether the text is bold.
    pub fn is_bold(&self) -> (r: bool)
        ensures
            r == spec_is_bold(*self),
    {
        self.0 & 1 != 0
    }

    /// Whether the text is italic.
    pub fn is_italic(&self) -> (r: bool)
        ensures
            r == spec_is_italic(*self),
    {
        self.0 & 2 != 0
    }

    /// Sets or clears the bold bit, leaving the other bits alone.
    pub fn set_bold(&mut self, bold: bool)
        ensures
            final(self).0 == (if bold { old(self).0 | 1 } else { old(self).0 & !1u8 }),
            spec_is_bold(*final(self)) == bold,
            spec_is_italic(*final(self)) == spec_is_italic(*old(self)),
    {
        let v = self.0;
        if bold {
            assert((v | 1) & 1 != 0 && ((v | 1) & 2 != 0) == (v & 2 != 0)) by (bit_vector);
            self.0 = v | 1;
        } else {
            assert((v & !1u8) & 1 == 0 && ((v & !1u8) & 2 != 0) == (v & 2 != 0)) by (bit_vector);
            self.0 = v & !1u8;
        }
    }

    /// Sets or clears the italic bit, leaving the other bits alone.
    pub fn set_italic(&mut self, italic: bool)
        ensures
            final(self).0 == (if italic { old(self).0 | 2 } else { old(self).0 & !2u8 }),
            spec_is_italic(*final(self)) == italic,
            spec_is_bold(*final(self)) == spec_is_bold(*old(self)),
    {
        let v = self.0;
        if italic {
            assert((v | 2) & 2 != 0 && ((v | 2) & 1 != 0) == (v & 1 != 0)) by (bit_vector);
            self.0 = v | 2;
        } else {
            assert((v & !2u8) & 2 == 0 && ((v & !2u8) & 1 != 0) == (v & 1 != 0)) by (bit_vector);
            self.0 = v & !2u8;
        }
    }
}

/// Decoration flags of a cell: underline (bit 2) and strikethrough (bit 3).
#[derive(Debug, Clone, Copy, PartialEq, Eq, PartialOrd, Ord, Hash, Structural)]
pub struct CharFlags(pub u8);

impl CharFlags {
    /// The underline bit.
    pub const UNDERLINE: u8 = 4;
    /// The strikethrough bit.
    pub const STRIKETHROUGH: u8 = 8;

    /// No decoration.
    pub fn empty() -> (r: Self)
        ensures
            r.0 == 0,
    {
        CharFlags(0)
    }

    /// Underline only.
    pub fn underline() -> (r: Self)
        ensures
            r.0 == 4,
    {
        CharFlags(4)
    }

    /// Strikethrough only.
    pub fn strikethrough() -> (r: Self)
        ensures
            r.0 == 8,
    {
        CharFlags(8)
    }

    /// The raw bits.
    pub fn bits(&self) -> (r: u8)
        ensures
            r == self.0,
    {
        self.0
    }

    /// Whether no flag is set.
    pub fn is_empty(&self) -> (r: bool)
        ensures
            r == (self.0 == 0),
    {
        self.0 == 0
    }

    /// Whether every flag of `other` is set.
    pub fn contains(&self, other: CharFlags) -> (r: bool)
        ensures
            r == (self.0 & other.0 == other.0),
    {
        self.0 & other.0 == other.0
    }

    /// Sets the flags of `other`.
    pub fn insert(&mut self, other: CharFlags)
        ensures
            final(self).0 == old(self).0 | other.0,
    {
        self.0 = self.0 | other.0;
    }

    /// Clears the flags of `other`.
    pub fn remove(&mut self, other: CharFlags)
        ensures
            final(self).0 == old(self).0 & !other.0,
    {
        self.0 = self.0 & !other.0;
    }
}

/// The display width that `unicode-width` gives a character (`None` for
/// control characters).
pub uninterp spec fn unicode_char_width(c: char) -> Option<usize>;

/// `UnicodeWidthChar::width`: the column width of a character. The crate's
/// source returns `Some(1)` for printable ASCII (U+0020..U+007E), `None` for
/// the C0 and C1 control characters, and otherwise `Some` of a width read
/// from its `u8` tables; the table values are left to the name.
#[verifier::external_body]
fn char_width(c: char) -> (r: Option<usize>)
    ensures
        r == unicode_char_width(c),
        0x20 <= (c as u32) < 0x7f ==> r == Some(1usize),
        ((c as u32) < 0x20 || 0x7f <= (c as u32) < 0xa0) ==> r is None,
        (c as u32) >= 0xa0 ==> r is Some && r->0 <= 255,
{
    c.width()
}

/// The number of cells a character takes: its Unicode width, and at least
/// one (control and zero-width characters take one cell).
pub open spec fn cell_width(c: char) -> u8 {
    match unicode_char_width(c) {
        Some(w) => if w == 0 { 1u8 } else { w as u8 },
        None => 1u8,
    }
}

/// The number of cells a character takes in the terminal.
pub fn widthof(ch: char) -> (r: u8)
    ensures
        r == cell_width(ch),
        r >= 1,
        0x20 <= (ch as u32) < 0x7f ==> r == 1,
        ((ch as u32) < 0x20 || 0x7f <= (ch as u32) < 0xa0) ==> r == 1,
        unicode_char_width(ch) is Some && unicode_char_width(ch)->0 > 0 ==> r == unicode_char_width(ch)->0,
{
    let w = char_width(ch);
    match w {
        Some(w) => {
            if w == 0 {
                1
            } else {
                w as u8
            }
        },
        None => 1,
    }
}

/// One character cell: the character, its width in cells, its attributes and
/// colors, and whether it changed since the last flush.
#[derive(Debug, Clone, Copy, PartialEq, Eq, PartialOrd, Ord, Hash, Structural)]
pub struct Char {
    /// The character itself.
    pub ch: char,
    /// Width in cells; wide characters take more than one. Zero marks a
    /// placeholder that follows a wide character.
    pub width: u8,
    /// Bold and italic.
    pub font: FontFlags,
    /// Underline and strikethrough.
    pub flags: CharFlags,
    /// Whether the cell changed and has not been flushed yet.
    pub dirty: bool,
    /// Foreground color.
    pub fg: AnsiColor,
    /// Background color.
    pub bg: AnsiColor,
}

/// The cell `Char::new(ch, width)` builds: default attributes and colors,
/// marked dirty.
pub open spec fn plain_char(ch: char, width: u8) -> Char {
    Char {
        ch,
        width,
        font: FontFlags(0),
        flags: CharFlags(0),
        dirty: true,
        fg: AnsiColor::Named(AnsiNamedColor::Foreground),
        bg: AnsiColor::Named(AnsiNamedColor::Background),
    }
}

/// The cell for unfilled parts of the terminal.
pub open spec fn empty_char() -> Char {
    plain_char('\0', 1)
}

/// Whether a cell is empty: no character and width one.
pub open spec fn spec_is_empty(c: Char) -> bool {
    c.ch == '\0' && c.width == 1
}

/// Whether a cell is a placeholder behind a wide character.
pub open spec fn spec_is_placeholder(c: Char) -> bool {
    c.ch == '\0' && c.width == 0
}

impl Char {
    fn new(ch: char, width: u8) -> (r: Self)
        ensures
            r == plain_char(ch, width),
    {
        Char {
            ch,
            width,
            font: FontFlags(0),
            flags: CharFlags(0),
            dirty: true,
            fg: AnsiColor::Named(AnsiNamedColor::Foreground),
            bg: AnsiColor::Named(AnsiNamedColor::Background),
        }
    }

    /// The cell for parts of the terminal that hold no text.
    pub fn empty() -> (r: Self)
        ensures
            r == empty_char(),
    {
        Self::new('\0', 1)
    }

    /// The placeholder cell that follows a wide character.
    pub fn placeholder() -> (r: Self)
        ensures
            r == plain_char('\0', 0),
    {
        Self::new('\0', 0)
    }

    /// A space.
    pub fn space() -> (r: Self)
        ensures
            r == plain_char(' ', 1),
    {
        Self::new(' ', 1)
    }

    /// The same attributes with no content: character `\0`, width one.
    pub fn as_empty(self) -> (r: Self)
        ensures
            r == (Char { ch: '\0', width: 1, dirty: true, ..self }),
    {
        let mut c = self;
        c.ch = '\0';
        c.width = 1;
        c.dirty = true;
        c
    }

    /// The same attributes as a placeholder: character `\0`, width zero.
    pub fn as_placeholder(self) -> (r: Self)
        ensures
            r == (Char { ch: '\0', width: 0, dirty: true, ..self }),
    {
        let mut c = self;
        c.ch = '\0';
        c.width = 0;
        c.dirty = true;
        c
    }

    /// The same attributes holding a space.
    pub fn as_space(self) -> (r: Self)
        ensures
            r == (Char { ch: ' ', width: 1, dirty: true, ..self }),
    {
        let mut c = self;
        c.ch = ' ';
        c.width = 1;
        c.dirty = true;
        c
    }

    /// Whether the cell is empty.
    pub fn is_empty(&self) -> (r: bool)
        ensures
            r == spec_is_empty(*self),
    {
        self.ch == '\0' && self.width == 1
    }

    /// Whether the cell is a placeholder.
    pub fn is_placeholder(&self) -> (r: bool)
        ensures
            r == spec_is_placeholder(*self),
    {
        self.ch == '\0' && self.width == 0
    }

    /// Whether the cell holds a space.
    pub fn is_space(&self) -> (r: bool)
        ensures
            r == (self.ch == ' '),
    {
        self.ch == ' '
    }

    /// The same attributes holding `content`, with its cell width.
    pub fn with_content(self, content: char) -> (r: Self)
        ensures
            r == (Char { ch: content, width: cell_width(content), dirty: true, ..self }),
            r.width >= 1,
            0x20 <= (content as u32) < 0x7f ==> r.width == 1,
    {
        let mut c = self;
        c.ch = content;
        c.width = widthof(content);
        c.dirty = true;
        c
    }

    /// The same cell with other colors.
    pub fn with_color(self, fg: AnsiColor, bg: AnsiColor) -> (r: Self)
        ensures
            r == (Char { fg, bg, dirty: true, ..self }),
    {
        let mut c = self;
        c.fg = fg;
        c.bg = bg;
        c.dirty = true;
        c
    }

    /// The same cell with foreground and background swapped.
    pub fn invert_color(self) -> (r: Self)
        ensures
            r == (Char { fg: self.bg, bg: self.fg, dirty: true, ..self }),
    {
        let mut c = self;
        c.fg = self.bg;
        c.bg = self.fg;
        c.dirty = true;
        c
    }

    /// What a font renderer needs to know of this cell.
    pub fn as_font_char(&self) -> (r: FontChar)
        ensures
            r@ == (self.ch, self.width, spec_is_bold(self.font), spec_is_italic(self.font)),
    {
        FontChar::new(self.ch, self.width, self.font.is_bold(), self.font.is_italic())
    }
}

/// The key under which a rendered glyph is cached: the character, its width
/// in cells, and whether it is bold and italic.
#[derive(Debug, Clone, Copy, PartialEq, Eq, PartialOrd, Ord, Hash, Default, Structural)]
pub struct FontChar {
    ch: char,
    width: u8,
    bold: bool,
    italic: bool,
}

impl View for FontChar {
    type V = (char, u8, bool, bool);

    closed spec fn view(&self) -> (char, u8, bool, bool) {
        (self.ch, self.width, self.bold, self.italic)
    }
}

impl FontChar {
    /// The key of `ch`, `width` cells wide, in the given style.
    pub fn new(ch: char, width: u8, bold: bool, italic: bool) -> (r: Self)
        ensures
            r@ == (ch, width, bold, italic),
    {
        FontChar { ch, width, bold, italic }
    }

    /// The character.
    pub fn ch(&self) -> (r: char)
        ensures
            r == self@.0,
    {
        self.ch
    }

    /// The width in cells.
    pub fn width(&self) -> (r: u8)
        ensures
            r == self@.1,
    {
        self.width
    }

    /// Whether it is bold.
    pub fn bold(&self) -> (r: bool)
        ensures
            r == self@.2,
    {
        self.bold
    }

    /// Whether it is italic.
    pub fn italic(&self) -> (r: bool)
        ensures
            r == self@.3,
    {
        self.italic
    }
}


/// The characters of `cells[start..stop]`, leaving out empty (`'\0'`) cells.
pub open spec fn cells_text(cells: Seq<Char>, start: int, stop: int) -> Seq<char>
    decreases stop - start,
{
    if stop <= start {
        Seq::empty()
    } else {
        let prev = cells_text(cells, start, stop - 1);
        if cells[stop - 1].ch == '\0' {
            prev
        } else {
            prev.push(cells[stop - 1].ch)
        }
    }
}

} // verus!
