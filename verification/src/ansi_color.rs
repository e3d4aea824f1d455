//! ANSI color values: the named colors of the 16-color palette and the
//! special foreground / background / cursor entries, RGB specifications and
//! 256-color palette indices, together with their SGR escape encodings.

use vstd::prelude::*;

use crate::helper::{dec_digits, push_all, push_decimal};

verus! {

/// A named color. Each color has a fixed index into the 512-entry color
/// scheme: 0..=15 for the 16 ANSI colors and 256..=268 for the special ones.
#[derive(Debug, Clone, Copy, PartialEq, Eq, PartialOrd, Ord, Hash, Structural)]
pub enum AnsiNamedColor {
    Black,
    Red,
    Green,
    Yellow,
    Blue,
    Magenta,
    Cyan,
    White,
    BrightBlack,
    BrightRed,
    BrightGreen,
    BrightYellow,
    BrightBlue,
    BrightMagenta,
    BrightCyan,
    BrightWhite,
    /// The foreground color.
    Foreground,
    /// The background color.
    Background,
    /// Color for the cursor itself.
    Cursor,
    DimBlack,
    DimRed,
    DimGreen,
    DimYellow,
    DimBlue,
    DimMagenta,
    DimCyan,
    DimWhite,
    /// The bright foreground color.
    BrightForeground,
    /// Dim foreground.
    DimForeground,
}

/// The palette index of a named color.
pub open spec fn named_index(c: AnsiNamedColor) -> int {
    match c {
        AnsiNamedColor::Black => 0,
        AnsiNamedColor::Red => 1,
        AnsiNamedColor::Green => 2,
        AnsiNamedColor::Yellow => 3,
        AnsiNamedColor::Blue => 4,
        AnsiNamedColor::Magenta => 5,
        AnsiNamedColor::Cyan => 6,
        AnsiNamedColor::White => 7,
        AnsiNamedColor::BrightBlack => 8,
        AnsiNamedColor::BrightRed => 9,
        AnsiNamedColor::BrightGreen => 10,
        AnsiNamedColor::BrightYellow => 11,
        AnsiNamedColor::BrightBlue => 12,
        AnsiNamedColor::BrightMagenta => 13,
        AnsiNamedColor::BrightCyan => 14,
        AnsiNamedColor::BrightWhite => 15,
        AnsiNamedColor::Foreground => 256,
        AnsiNamedColor::Background => 257,
        AnsiNamedColor::Cursor => 258,
        AnsiNamedColor::DimBlack => 259,
        AnsiNamedColor::DimRed => 260,
        AnsiNamedColor::DimGreen => 261,
        AnsiNamedColor::DimYellow => 262,
        AnsiNamedColor::DimBlue => 263,
        AnsiNamedColor::DimMagenta => 264,
        AnsiNamedColor::DimCyan => 265,
        AnsiNamedColor::DimWhite => 266,
        AnsiNamedColor::BrightForeground => 267,
        AnsiNamedColor::DimForeground => 268,
    }
}

/// Whether `n` is the index of some named color.
pub open spec fn is_named_index(n: int) -> bool {
    (0 <= n <= 15) || (256 <= n <= 268)
}

/// The named color with index `n`, if any.
pub open spec fn named_at(n: int) -> Option<AnsiNamedColor> {
    if n == 0 {
        Some(AnsiNamedColor::Black)
    } else if n == 1 {
        Some(AnsiNamedColor::Red)
    } else if n == 2 {
        Some(AnsiNamedColor::Green)
    } else if n == 3 {
        Some(AnsiNamedColor::Yellow)
    } else if n == 4 {
        Some(AnsiNamedColor::Blue)
    } else if n == 5 {
        Some(AnsiNamedColor::Magenta)
    } else if n == 6 {
        Some(AnsiNamedColor::Cyan)
    } else if n == 7 {
        Some(AnsiNamedColor::White)
    } else if n == 8 {
        Some(AnsiNamedColor::BrightBlack)
    } else if n == 9 {
        Some(AnsiNamedColor::BrightRed)
    } else if n == 10 {
        Some(AnsiNamedColor::BrightGreen)
    } else if n == 11 {
        Some(AnsiNamedColor::BrightYellow)
    } else if n == 12 {
        Some(AnsiNamedColor::BrightBlue)
    } else if n == 13 {
        Some(AnsiNamedColor::BrightMagenta)
    } else if n == 14 {
        Some(AnsiNamedColor::BrightCyan)
    } else if n == 15 {
        Some(AnsiNamedColor::BrightWhite)
    } else if n == 256 {
        Some(AnsiNamedColor::Foreground)
    } else if n == 257 {
        Some(AnsiNamedColor::Background)
    } else if n == 258 {
        Some(AnsiNamedColor::Cursor)
    } else if n == 259 {
        Some(AnsiNamedColor::DimBlack)
    } else if n == 260 {
        Some(AnsiNamedColor::DimRed)
    } else if n == 261 {
        Some(AnsiNamedColor::DimGreen)
    } else if n == 262 {
        Some(AnsiNamedColor::DimYellow)
    } else if n == 263 {
        Some(AnsiNamedColor::DimBlue)
    } else if n == 264 {
        Some(AnsiNamedColor::DimMagenta)
    } else if n == 265 {
        Some(AnsiNamedColor::DimCyan)
    } else if n == 266 {
        Some(AnsiNamedColor::DimWhite)
    } else if n == 267 {
        Some(AnsiNamedColor::BrightForeground)
    } else if n == 268 {
        Some(AnsiNamedColor::DimForeground)
    } else {
        None
    }
}

/// Every named color has a valid index, and distinct colors have distinct
/// indices; every valid index belongs to a named color.
pub proof fn lemma_named_index(c: AnsiNamedColor, d: AnsiNamedColor)
    ensures
        is_named_index(named_index(c)),
        named_index(c) == named_index(d) ==> c == d,
        named_at(named_index(c)) == Some(c),
{
}

/// A valid index names exactly the color whose index it is.
pub proof fn lemma_named_at(n: int)
    ensures
        is_named_index(n) <==> named_at(n) is Some,
        named_at(n) matches Some(c) ==> named_index(c) == n,
{
}

/// The index-level intensity ladder that [`AnsiNamedColor::brighter`] follows.
pub open spec fn brighter_index(i: int) -> int {
    if 0 <= i <= 7 {
        i + 8
    } else if 259 <= i <= 266 {
        i - 259
    } else if i == 256 {
        267
    } else if i == 268 {
        256
    } else {
        i
    }
}

/// The index-level intensity ladder that [`AnsiNamedColor::dimmer`] follows.
pub open spec fn dimmer_index(i: int) -> int {
    if 0 <= i <= 7 {
        i + 259
    } else if 8 <= i <= 15 {
        i - 8
    } else if i == 256 {
        268
    } else if i == 267 {
        256
    } else {
        i
    }
}

/// The index of the normal variant of a color of the ladder.
pub open spec fn normal_index(i: int) -> int {
    if 8 <= i <= 15 {
        i - 8
    } else if 259 <= i <= 266 {
        i - 259
    } else if i == 267 || i == 268 {
        256
    } else {
        i
    }
}

/// The index of the bright variant of a color of the ladder.
pub open spec fn bright_index(i: int) -> int {
    if 0 <= i <= 7 {
        i + 8
    } else if 259 <= i <= 266 {
        i - 251
    } else if i == 256 || i == 268 {
        267
    } else {
        i
    }
}

/// The index of the dim variant of a color of the ladder.
pub open spec fn dim_index(i: int) -> int {
    if 0 <= i <= 7 {
        i + 259
    } else if 8 <= i <= 15 {
        i + 251
    } else if i == 256 || i == 267 {
        268
    } else {
        i
    }
}

/// The color that a foreground SGR code (30..=37, 90..=97) selects.
pub open spec fn spec_from_named_fg(code: u8) -> Option<AnsiNamedColor> {
    if 30 <= code <= 37 {
        named_at(code - 30)
    } else if 90 <= code <= 97 {
        named_at(code - 82)
    } else {
        None
    }
}

/// The foreground SGR code of a color of the 16-color palette.
pub open spec fn spec_to_named_fg(c: AnsiNamedColor) -> Option<u8> {
    let i = named_index(c);
    if 0 <= i <= 7 {
        Some((30 + i) as u8)
    } else if 8 <= i <= 15 {
        Some((82 + i) as u8)
    } else {
        None
    }
}

/// SGR code prefix `ESC [`.
pub open spec fn csi_prefix() -> Seq<u8> {
    seq![0x1bu8, 0x5bu8]
}

/// `ESC [ <n> m`.
pub open spec fn sgr_one(n: nat) -> Seq<u8> {
    csi_prefix() + dec_digits(n) + seq![0x6du8]
}

/// `ESC [ 2 ; <n> m`.
pub open spec fn sgr_dim(n: nat) -> Seq<u8> {
    csi_prefix() + seq![0x32u8, 0x3bu8] + dec_digits(n) + seq![0x6du8]
}

/// The SGR sequence that selects a named color as foreground (or as
/// background when `background` holds).
pub open spec fn named_sgr(c: AnsiNamedColor, background: bool) -> Seq<u8> {
    let i = named_index(c);
    if c == AnsiNamedColor::Cursor {
        Seq::empty()
    } else if c == AnsiNamedColor::BrightForeground {
        sgr_one(1)
    } else if c == AnsiNamedColor::DimForeground {
        sgr_one(2)
    } else if c == AnsiNamedColor::Foreground {
        if background { sgr_one(49) } else { sgr_one(39) }
    } else if c == AnsiNamedColor::Background {
        sgr_one(49)
    } else {
        let n = normal_index(i);
        let code: nat = if background { (n + 40) as nat } else { (n + 30) as nat };
        if 259 <= i <= 266 { sgr_dim(code) } else { sgr_one(code) }
    }
}

impl AnsiNamedColor {
    /// The palette index of this color.
    pub fn index(self) -> (r: usize)
        ensures
            r == named_index(self),
    {
        match self {
            AnsiNamedColor::Black => 0,
            AnsiNamedColor::Red => 1,
            AnsiNamedColor::Green => 2,
            AnsiNamedColor::Yellow => 3,
            AnsiNamedColor::Blue => 4,
            AnsiNamedColor::Magenta => 5,
            AnsiNamedColor::Cyan => 6,
            AnsiNamedColor::White => 7,
            AnsiNamedColor::BrightBlack => 8,
            AnsiNamedColor::BrightRed => 9,
            AnsiNamedColor::BrightGreen => 10,
            AnsiNamedColor::BrightYellow => 11,
            AnsiNamedColor::BrightBlue => 12,
            AnsiNamedColor::BrightMagenta => 13,
            AnsiNamedColor::BrightCyan => 14,
            AnsiNamedColor::BrightWhite => 15,
            AnsiNamedColor::Foreground => 256,
            AnsiNamedColor::Background => 257,
            AnsiNamedColor::Cursor => 258,
            AnsiNamedColor::DimBlack => 259,
            AnsiNamedColor::DimRed => 260,
            AnsiNamedColor::DimGreen => 261,
            AnsiNamedColor::DimYellow => 262,
            AnsiNamedColor::DimBlue => 263,
            AnsiNamedColor::DimMagenta => 264,
            AnsiNamedColor::DimCyan => 265,
            AnsiNamedColor::DimWhite => 266,
            AnsiNamedColor::BrightForeground => 267,
            AnsiNamedColor::DimForeground => 268,
        }
    }

    /// The named color with palette index `n`, if there is one.
    pub fn from_index(n: usize) -> (r: Option<Self>)
        ensures
            r == named_at(n as int),
    {
        let r = match n {
            0 => Some(AnsiNamedColor::Black),
            1 => Some(AnsiNamedColor::Red),
            2 => Some(AnsiNamedColor::Green),
            3 => Some(AnsiNamedColor::Yellow),
            4 => Some(AnsiNamedColor::Blue),
            5 => Some(AnsiNamedColor::Magenta),
            6 => Some(AnsiNamedColor::Cyan),
            7 => Some(AnsiNamedColor::White),
            8 => Some(AnsiNamedColor::BrightBlack),
            9 => Some(AnsiNamedColor::BrightRed),
            10 => Some(AnsiNamedColor::BrightGreen),
            11 => Some(AnsiNamedColor::BrightYellow),
            12 => Some(AnsiNamedColor::BrightBlue),
            13 => Some(AnsiNamedColor::BrightMagenta),
            14 => Some(AnsiNamedColor::BrightCyan),
            15 => Some(AnsiNamedColor::BrightWhite),
            256 => Some(AnsiNamedColor::Foreground),
            257 => Some(AnsiNamedColor::Background),
            258 => Some(AnsiNamedColor::Cursor),
            259 => Some(AnsiNamedColor::DimBlack),
            260 => Some(AnsiNamedColor::DimRed),
            261 => Some(AnsiNamedColor::DimGreen),
            262 => Some(AnsiNamedColor::DimYellow),
            263 => Some(AnsiNamedColor::DimBlue),
            264 => Some(AnsiNamedColor::DimMagenta),
            265 => Some(AnsiNamedColor::DimCyan),
            266 => Some(AnsiNamedColor::DimWhite),
            267 => Some(AnsiNamedColor::BrightForeground),
            268 => Some(AnsiNamedColor::DimForeground),
            _ => None,
        };
        proof {
            if let Some(c) = r {
                lemma_named_index(c, c);
            }
        }
        r
    }
}


/// Intensity ladder steps: normal, bright and dim.
const INTENSITY_NORMAL: u8 = 0;
const INTENSITY_BRIGHT: u8 = 1;
const INTENSITY_DIM: u8 = 2;

/// The family number of the special foreground color in the ladder.
const FAMILY_FOREGROUND: u8 = 8;

/// `(family, intensity)` of a color of the bright/dim ladder: families 0..=7
/// are the eight ANSI colors and family 8 is the foreground.
pub open spec fn spec_family(c: AnsiNamedColor) -> Option<(u8, u8)> {
    let i = named_index(c);
    if 0 <= i <= 7 {
        Some((i as u8, 0u8))
    } else if 8 <= i <= 15 {
        Some(((i - 8) as u8, 1u8))
    } else if 259 <= i <= 266 {
        Some(((i - 259) as u8, 2u8))
    } else if i == 256 {
        Some((8u8, 0u8))
    } else if i == 267 {
        Some((8u8, 1u8))
    } else if i == 268 {
        Some((8u8, 2u8))
    } else {
        None
    }
}

impl AnsiNamedColor {
    fn family(self) -> (r: Option<(u8, u8)>)
        ensures
            r == spec_family(self),
    {
        let n = self.index();
        if n <= 7 {
            Some((n as u8, INTENSITY_NORMAL))
        } else if n <= 15 {
            Some(((n - 8) as u8, INTENSITY_BRIGHT))
        } else if 259 <= n && n <= 266 {
            Some(((n - 259) as u8, INTENSITY_DIM))
        } else if n == 256 {
            Some((FAMILY_FOREGROUND, INTENSITY_NORMAL))
        } else if n == 267 {
            Some((FAMILY_FOREGROUND, INTENSITY_BRIGHT))
        } else if n == 268 {
            Some((FAMILY_FOREGROUND, INTENSITY_DIM))
        } else {
            None
        }
    }

    fn from_family(family: u8, intensity: u8) -> (r: Self)
        requires
            family <= 8,
        ensures
            family == 8 ==> named_index(r) == (if intensity == 1 { 267int } else if intensity == 2 { 268int } else { 256int }),
            family < 8 ==> named_index(r) == (if intensity == 1 { family + 8 } else if intensity == 2 { family + 259 } else { family as int }),
    {
        if family == FAMILY_FOREGROUND {
            return if intensity == INTENSITY_BRIGHT {
                AnsiNamedColor::BrightForeground
            } else if intensity == INTENSITY_DIM {
                AnsiNamedColor::DimForeground
            } else {
                AnsiNamedColor::Foreground
            };
        }
        let n: usize = if intensity == INTENSITY_BRIGHT {
            8 + family as usize
        } else if intensity == INTENSITY_DIM {
            259 + family as usize
        } else {
            family as usize
        };
        proof { lemma_named_at(n as int); }
        match Self::from_index(n) {
            Some(c) => c,
            None => AnsiNamedColor::Black,
        }
    }

    fn with_intensity(self, intensity: u8) -> (r: Self)
        requires
            intensity <= 2,
        ensures
            spec_family(self) is None ==> r == self,
            spec_family(self) matches Some((f, _)) ==> spec_family(r) == Some((f, intensity)),
    {
        proof { lemma_named_index(self, self); }
        match self.family() {
            Some((family, _)) => {
                let r = Self::from_family(family, intensity);
                proof { lemma_named_index(r, r); }
                r
            },
            None => self,
        }
    }

    /// Parses a foreground SGR code (30..=37 or 90..=97) into a named color.
    pub fn from_named_fg(code: u8) -> (r: Option<Self>)
        ensures
            r == spec_from_named_fg(code),
    {
        let idx: usize = if 30 <= code && code <= 37 {
            (code - 30) as usize
        } else if 90 <= code && code <= 97 {
            (code - 90 + 8) as usize
        } else {
            return None;
        };
        Self::from_index(idx)
    }

    /// The foreground SGR code of this color, for the 16 palette colors.
    pub fn to_named_fg(self) -> (r: Option<u8>)
        ensures
            r == spec_to_named_fg(self),
    {
        let n = self.index();
        if n <= 7 {
            Some(30 + n as u8)
        } else if n <= 15 {
            Some(90 + (n as u8 - 8))
        } else {
            None
        }
    }

    /// Parses a background SGR code (40..=47 or 100..=107) into a named color.
    pub fn from_named_bg(code: u8) -> (r: Option<Self>)
        ensures
            r == (if code >= 10 { spec_from_named_fg((code - 10) as u8) } else { None }),
    {
        // Background codes are the foreground codes plus ten.
        if code >= 10 {
            Self::from_named_fg(code - 10)
        } else {
            None
        }
    }

    /// The background SGR code of this color, for the 16 palette colors.
    pub fn to_named_bg(self) -> (r: Option<u8>)
        ensures
            r == (match spec_to_named_fg(self) {
                Some(c) => Some((c + 10) as u8),
                None => None,
            }),
    {
        match self.to_named_fg() {
            Some(c) => Some(c + 10),
            None => None,
        }
    }

    /// Whether this is a normal (neither bright nor dim) color.
    pub fn is_normal(self) -> (r: bool)
        ensures
            r == ((0 <= named_index(self) <= 7) || (256 <= named_index(self) <= 258)),
    {
        let n = self.index();
        n <= 7 || (256 <= n && n <= 258)
    }

    /// Whether this is a bright variant.
    pub fn is_bright(self) -> (r: bool)
        ensures
            r == ((8 <= named_index(self) <= 15) || named_index(self) == 267),
    {
        let n = self.index();
        (8 <= n && n <= 15) || n == 267
    }

    /// Whether this is a dim variant.
    pub fn is_dim(self) -> (r: bool)
        ensures
            r == ((259 <= named_index(self) <= 266) || named_index(self) == 268),
    {
        let n = self.index();
        (259 <= n && n <= 266) || n == 268
    }

    /// The brighter variant: normal to bright, dim to normal, bright stays.
    pub fn brighter(self) -> (r: Self)
        ensures
            named_index(r) == brighter_index(named_index(self)),
    {
        proof { lemma_named_index(self, self); }
        match self.family() {
            Some((family, intensity)) => {
                if intensity == INTENSITY_NORMAL {
                    Self::from_family(family, INTENSITY_BRIGHT)
                } else if intensity == INTENSITY_DIM {
                    Self::from_family(family, INTENSITY_NORMAL)
                } else {
                    self
                }
            },
            None => self,
        }
    }

    /// The dimmer variant: normal to dim, bright to normal, dim stays.
    pub fn dimmer(self) -> (r: Self)
        ensures
            named_index(r) == dimmer_index(named_index(self)),
    {
        proof { lemma_named_index(self, self); }
        match self.family() {
            Some((family, intensity)) => {
                if intensity == INTENSITY_NORMAL {
                    Self::from_family(family, INTENSITY_DIM)
                } else if intensity == INTENSITY_BRIGHT {
                    Self::from_family(family, INTENSITY_NORMAL)
                } else {
                    self
                }
            },
            None => self,
        }
    }

    /// The normal variant (bright and dim collapse to normal).
    pub fn normal(self) -> (r: Self)
        ensures
            named_index(r) == normal_index(named_index(self)),
    {
        proof { lemma_named_index(self, self); }
        match self.family() {
            Some((family, _)) => Self::from_family(family, INTENSITY_NORMAL),
            None => self,
        }
    }

    /// The bright variant.
    pub fn bright(self) -> (r: Self)
        ensures
            named_index(r) == bright_index(named_index(self)),
    {
        proof { lemma_named_index(self, self); }
        match self.family() {
            Some((family, _)) => Self::from_family(family, INTENSITY_BRIGHT),
            None => self,
        }
    }

    /// The dim variant.
    pub fn dim(self) -> (r: Self)
        ensures
            named_index(r) == dim_index(named_index(self)),
    {
        proof { lemma_named_index(self, self); }
        match self.family() {
            Some((family, _)) => Self::from_family(family, INTENSITY_DIM),
            None => self,
        }
    }
}


impl AnsiNamedColor {
    /// The SGR escape sequence that selects this color as foreground, or as
    /// background when `background` holds.
    pub fn sgr(self, background: bool) -> (r: Vec<u8>)
        ensures
            r@ == named_sgr(self, background),
    {
        let mut out: Vec<u8> = Vec::new();
        match self {
            AnsiNamedColor::Cursor => {
                assert(out@ =~= Seq::<u8>::empty());
                return out;
            },
            AnsiNamedColor::BrightForeground => {
                push_sgr_one(&mut out, 1);
            },
            AnsiNamedColor::DimForeground => {
                push_sgr_one(&mut out, 2);
            },
            AnsiNamedColor::Foreground => {
                push_sgr_one(&mut out, if background { 49 } else { 39 });
            },
            AnsiNamedColor::Background => {
                push_sgr_one(&mut out, 49);
            },
            _ => {
                let dim = self.is_dim();
                let base = self.normal().index() as u32;
                let code = if background { base + 40 } else { base + 30 };
                if dim {
                    out.push(0x1b);
                    out.push(0x5b);
                    out.push(0x32);
                    out.push(0x3b);
                    push_decimal(&mut out, code);
                    out.push(0x6d);
                } else {
                    push_sgr_one(&mut out, code);
                }
            },
        }
        assert(out@ =~= named_sgr(self, background));
        out
    }
}

/// Appends `ESC [ <n> m`.
fn push_sgr_one(out: &mut Vec<u8>, n: u32)
    ensures
        final(out)@ == old(out)@ + sgr_one(n as nat),
{
    out.push(0x1b);
    out.push(0x5b);
    push_decimal(out, n);
    out.push(0x6d);
    assert(final(out)@ =~= old(out)@ + sgr_one(n as nat));
}

/// A 24-bit RGB color, as used by `ESC [ 38 ; 2 ; R ; G ; B m`.
#[derive(Debug, Clone, Copy, PartialEq, Eq, PartialOrd, Ord, Hash, Structural)]
pub struct AnsiRgb {
    /// Red component.
    pub r: u8,
    /// Green component.
    pub g: u8,
    /// Blue component.
    pub b: u8,
}

/// The SGR selector for foreground (38) or background (48) extended colors.
pub open spec fn extended_selector(background: bool) -> nat {
    if background { 48 } else { 38 }
}

/// `ESC [ 38|48 ; 2 ; R ; G ; B m`.
pub open spec fn rgb_sgr(c: AnsiRgb, background: bool) -> Seq<u8> {
    csi_prefix() + dec_digits(extended_selector(background)) + seq![0x3bu8, 0x32u8, 0x3bu8]
        + dec_digits(c.r as nat) + seq![0x3bu8] + dec_digits(c.g as nat) + seq![0x3bu8]
        + dec_digits(c.b as nat) + seq![0x6du8]
}

/// `ESC [ 38|48 ; 5 ; N m`.
pub open spec fn indexed_sgr(index: u8, background: bool) -> Seq<u8> {
    csi_prefix() + dec_digits(extended_selector(background)) + seq![0x3bu8, 0x35u8, 0x3bu8]
        + dec_digits(index as nat) + seq![0x6du8]
}

impl AnsiRgb {
    /// The SGR escape sequence that selects this color as foreground, or as
    /// background when `background` holds.
    pub fn sgr(self, background: bool) -> (r: Vec<u8>)
        ensures
            r@ == rgb_sgr(self, background),
    {
        let mut out: Vec<u8> = Vec::new();
        out.push(0x1b);
        out.push(0x5b);
        push_decimal(&mut out, if background { 48 } else { 38 });
        out.push(0x3b);
        out.push(0x32);
        out.push(0x3b);
        push_decimal(&mut out, self.r as u32);
        out.push(0x3b);
        push_decimal(&mut out, self.g as u32);
        out.push(0x3b);
        push_decimal(&mut out, self.b as u32);
        out.push(0x6d);
        assert(out@ =~= rgb_sgr(self, background));
        out
    }
}

/// An ANSI color value: a named color, an RGB specification or an index into
/// the 256-color palette.
#[derive(Debug, Clone, Copy, PartialEq, Eq, PartialOrd, Ord, Hash, Structural)]
pub enum AnsiColor {
    /// A named color (16 ANSI colors and the special colors).
    Named(AnsiNamedColor),
    /// A 24-bit RGB color.
    Spec(AnsiRgb),
    /// A 256-color palette index.
    Indexed(u8),
}

/// The SGR escape sequence of an ANSI color.
pub open spec fn color_sgr(c: AnsiColor, background: bool) -> Seq<u8> {
    match c {
        AnsiColor::Named(n) => named_sgr(n, background),
        AnsiColor::Spec(rgb) => rgb_sgr(rgb, background),
        AnsiColor::Indexed(i) => indexed_sgr(i, background),
    }
}

impl AnsiColor {
    /// The SGR escape sequence that selects this color as foreground, or as
    /// background when `background` holds.
    pub fn sgr(self, background: bool) -> (r: Vec<u8>)
        ensures
            r@ == color_sgr(self, background),
    {
        match self {
            AnsiColor::Named(named) => named.sgr(background),
            AnsiColor::Spec(rgb) => rgb.sgr(background),
            AnsiColor::Indexed(index) => {
                let mut out: Vec<u8> = Vec::new();
                out.push(0x1b);
                out.push(0x5b);
                push_decimal(&mut out, if background { 48 } else { 38 });
                out.push(0x3b);
                out.push(0x35);
                out.push(0x3b);
                push_decimal(&mut out, index as u32);
                out.push(0x6d);
                assert(out@ =~= indexed_sgr(index, background));
                out
            },
        }
    }

    /// Wraps a named color.
    pub fn from_named(color: AnsiNamedColor) -> (r: Self)
        ensures
            r == AnsiColor::Named(color),
    {
        AnsiColor::Named(color)
    }

    /// Wraps an RGB color.
    pub fn from_rgb(rgb: AnsiRgb) -> (r: Self)
        ensures
            r == AnsiColor::Spec(rgb),
    {
        AnsiColor::Spec(rgb)
    }

    /// Wraps a palette index.
    pub fn from_index(index: u8) -> (r: Self)
        ensures
            r == AnsiColor::Indexed(index),
    {
        AnsiColor::Indexed(index)
    }
}

/// The foreground SGR code of a palette color parses back to that color;
/// the same holds of the background code.
pub proof fn law_named_code_round_trip(c: AnsiNamedColor)
    ensures
        spec_to_named_fg(c) matches Some(code) ==> spec_from_named_fg(code) == Some(c),
        spec_to_named_fg(c) matches Some(code) ==> code + 10 >= 10 && code + 10 <= 255
            && spec_from_named_fg((((code + 10) as u8) - 10) as u8) == Some(c),
        spec_to_named_fg(c) is Some <==> (0 <= named_index(c) <= 15),
{
}

/// Parsing a foreground code and encoding the color again gives back the code.
pub proof fn law_named_fg_parse_encode(code: u8)
    ensures
        spec_from_named_fg(code) matches Some(c) ==> spec_to_named_fg(c) == Some(code),
{
    lemma_named_at(code - 30);
    lemma_named_at(code - 82);
}

/// The intensity ladder: dimming then brightening gives back any color of the
/// ladder that is not dim, and brightening then dimming gives back any that is
/// not bright. Colors outside the ladder (background, cursor) never change.
pub proof fn law_intensity_ladder(i: int)
    requires
        is_named_index(i),
    ensures
        !(259 <= i <= 266 || i == 268) ==> brighter_index(dimmer_index(i)) == i,
        !(8 <= i <= 15 || i == 267) ==> dimmer_index(brighter_index(i)) == i,
        i == 257 || i == 258 ==> brighter_index(i) == i && dimmer_index(i) == i
            && normal_index(i) == i && bright_index(i) == i && dim_index(i) == i,
        is_named_index(brighter_index(i)) && is_named_index(dimmer_index(i)),
        is_named_index(normal_index(i)) && is_named_index(bright_index(i)) && is_named_index(dim_index(i)),
{
}

/// Forcing an intensity forgets the previous one: the normal variant of the
/// bright or dim variant is the normal variant, and each forced variant has
/// the intensity it names.
pub proof fn law_intensity_forcing(i: int)
    requires
        is_named_index(i),
        i != 257 && i != 258,
    ensures
        normal_index(bright_index(i)) == normal_index(i),
        normal_index(dim_index(i)) == normal_index(i),
        bright_index(normal_index(i)) == bright_index(i),
        dim_index(normal_index(i)) == dim_index(i),
        (8 <= bright_index(i) <= 15) || bright_index(i) == 267,
        (259 <= dim_index(i) <= 266) || dim_index(i) == 268,
        (0 <= normal_index(i) <= 7) || normal_index(i) == 256,
{
}

} // verus!
