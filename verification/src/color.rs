//! 32-bit true colors, named palettes and the 512-entry color scheme that
//! maps ANSI colors to true colors.

use vstd::prelude::*;

use aligned_vec::ABox;

use crate::ansi_color::{AnsiColor, AnsiNamedColor, AnsiRgb, named_index};

verus! {

/// An 8-bit-per-channel RGBA color.
#[derive(Debug, Clone, Copy, PartialEq, Eq, PartialOrd, Ord, Hash, Structural)]
pub struct Color {
    pub r: u8,
    pub g: u8,
    pub b: u8,
    pub a: u8,
}

/// The opaque color with the given channels.
pub open spec fn opaque(r: u8, g: u8, b: u8) -> Color {
    Color { r, g, b, a: 255 }
}

/// Transparent black, the value of an unset pixel.
pub open spec fn transparent() -> Color {
    Color { r: 0, g: 0, b: 0, a: 0 }
}

/// The opaque color written `0xRRGGBB`.
pub open spec fn readable_color(v: u32) -> Color {
    opaque(((v / 65536) % 256) as u8, ((v / 256) % 256) as u8, (v % 256) as u8)
}

impl Default for Color {
    fn default() -> (r: Self)
        ensures
            r == (Color { r: 0, g: 0, b: 0, a: 0 }),
    {
        Color { r: 0, g: 0, b: 0, a: 0 }
    }
}

impl Color {
    /// The transparent black of an unset pixel.
    pub fn zero() -> (r: Self)
        ensures
            r == (Color { r: 0, g: 0, b: 0, a: 0 }),
    {
        Color { r: 0, g: 0, b: 0, a: 0 }
    }

    /// An opaque color.
    pub fn rgb(r: u8, g: u8, b: u8) -> (c: Self)
        ensures
            c == opaque(r, g, b),
    {
        Color { r, g, b, a: 255 }
    }

    /// A color with the given alpha.
    pub fn rgba(r: u8, g: u8, b: u8, a: u8) -> (c: Self)
        ensures
            c == (Color { r, g, b, a }),
    {
        Color { r, g, b, a }
    }

    /// An opaque gray of the given luminance.
    pub fn gray(v: u8) -> (c: Self)
        ensures
            c == opaque(v, v, v),
    {
        Color { r: v, g: v, b: v, a: 255 }
    }

    /// Opaque black.
    pub fn black() -> (c: Self)
        ensures
            c == opaque(0, 0, 0),
    {
        Color::rgb(0, 0, 0)
    }

    /// Opaque white.
    pub fn white() -> (c: Self)
        ensures
            c == opaque(255, 255, 255),
    {
        Color::rgb(255, 255, 255)
    }

    /// The opaque color written as `0xRRGGBB` (the top byte is ignored).
    pub fn from_readable_u32(v: u32) -> (c: Self)
        ensures
            c == readable_color(v),
    {
        let r = ((v >> 16) & 0xff) as u8;
        let g = ((v >> 8) & 0xff) as u8;
        let b = (v & 0xff) as u8;
        assert((v >> 16) & 0xff == (v / 65536) % 256) by (bit_vector);
        assert((v >> 8) & 0xff == (v / 256) % 256) by (bit_vector);
        assert(v & 0xff == v % 256) by (bit_vector);
        Color { r, g, b, a: 255 }
    }

    /// The opaque color of an RGB specification.
    pub fn from_ansi_rgb(rgb: AnsiRgb) -> (c: Self)
        ensures
            c == opaque(rgb.r, rgb.g, rgb.b),
    {
        Color::rgb(rgb.r, rgb.g, rgb.b)
    }
}

/// A named color palette: foreground, background, cursor and the 16 ANSI
/// colors.
#[derive(Debug, Clone, PartialEq, Eq, PartialOrd, Ord, Hash)]
pub struct Palette<'name> {
    /// The name of the palette, for display and selection.
    pub name: &'name str,
    /// The foreground color.
    pub foreground: Color,
    /// The background color.
    pub background: Color,
    /// The cursor color.
    pub cursor: Color,
    /// The 16 ANSI colors.
    pub ansi_colors: [Color; 16],
}

/// The classic xterm values of the 16 ANSI colors, written `0xRRGGBB`.
pub open spec fn spec_xterm_colors() -> Seq<u32> {
    seq![
        0x000000u32, 0xcd0000u32, 0x00cd00u32, 0xcdcd00u32, 0x0000eeu32, 0xcd00cdu32, 0x00cdcdu32, 0xe5e5e5u32,
        0x7f7f7fu32, 0xff0000u32, 0x00ff00u32, 0xffff00u32, 0x5c5cffu32, 0xff00ffu32, 0x00ffffu32, 0xffffffu32,
    ]
}

/// The `(foreground, background, cursor)` triple of built-in palette `i`.
pub open spec fn builtin_pair(i: int) -> (u32, u32, u32) {
    if i == 1 {
        (0x000000u32, 0xffffffu32, 0x000000u32)
    } else if i == 2 {
        (0x839496u32, 0x002b36u32, 0x93a1a1u32)
    } else {
        (0xe5e5e5u32, 0x000000u32, 0xe5e5e5u32)
    }
}

/// The 16 ANSI colors of built-in palette `i`.
pub open spec fn builtin_colors(i: int) -> Seq<u32> {
    if i == 2 {
        seq![
            0x073642u32, 0xdc322fu32, 0x859900u32, 0xb58900u32, 0x268bd2u32, 0xd33682u32, 0x2aa198u32, 0xeee8d5u32,
            0x002b36u32, 0xcb4b16u32, 0x586e75u32, 0x657b83u32, 0x839496u32, 0x6c71c4u32, 0x93a1a1u32, 0xfdf6e3u32,
        ]
    } else {
        spec_xterm_colors()
    }
}

/// The name of built-in palette `i`.
pub open spec fn builtin_name(i: int) -> Seq<char> {
    if i == 1 {
        "xterm-light"@
    } else if i == 2 {
        "solarized-dark"@
    } else {
        "xterm"@
    }
}

/// The number of built-in palettes.
pub const BUILTIN_PALETTE_COUNT: usize = 3;

/// The index of the default built-in palette.
pub const DEFAULT_PALETTE_INDEX: usize = 0;

/// Whether `p` is the palette `Palette::new(name, pair, colors)` builds.
pub open spec fn palette_built(p: Palette, pair: (u32, u32, u32), colors: Seq<u32>) -> bool {
    &&& p.foreground == readable_color(pair.0)
    &&& p.background == readable_color(pair.1)
    &&& p.cursor == readable_color(pair.2)
    &&& colors.len() == 16
    &&& forall|i: int| 0 <= i < 16 ==> p.ansi_colors@[i] == readable_color(#[trigger] colors[i])
}

impl<'name> Palette<'name> {
    /// Creates a palette from a name, a `(foreground, background, cursor)`
    /// triple and the 16 ANSI colors, all written `0xRRGGBB`.
    pub fn new(name: &'name str, pair: (u32, u32, u32), colors: [u32; 16]) -> (p: Self)
        ensures
            p.name == name,
            palette_built(p, pair, colors@),
    {
        let mut ansi_colors = [Color::zero(); 16];
        let mut i: usize = 0;
        while i < 16
            invariant
                i <= 16,
                ansi_colors@.len() == 16,
                forall|j: int| 0 <= j < i ==> ansi_colors@[j] == readable_color(colors@[j]),
            decreases 16 - i,
        {
            ansi_colors[i] = Color::from_readable_u32(colors[i]);
            i += 1;
        }
        Palette {
            name,
            foreground: Color::from_readable_u32(pair.0),
            background: Color::from_readable_u32(pair.1),
            cursor: Color::from_readable_u32(pair.2),
            ansi_colors,
        }
    }

    /// The classic xterm values of the 16 ANSI colors.
    pub fn xterm_colors() -> (r: [u32; 16])
        ensures
            r@ == spec_xterm_colors(),
    {
        let r = [
            0x000000, 0xcd0000, 0x00cd00, 0xcdcd00, 0x0000ee, 0xcd00cd, 0x00cdcd, 0xe5e5e5,
            0x7f7f7f, 0xff0000, 0x00ff00, 0xffff00, 0x5c5cff, 0xff00ff, 0x00ffff, 0xffffff,
        ];
        assert(r@ =~= spec_xterm_colors());
        r
    }

    /// The built-in palette with the given index.
    fn builtin_at(index: usize) -> (p: Palette<'static>)
        requires
            index < BUILTIN_PALETTE_COUNT,
        ensures
            palette_built(p, builtin_pair(index as int), builtin_colors(index as int)),
            p.name@ == builtin_name(index as int),
    {
        if index == 0 {
            Palette::new("xterm", (0xe5e5e5, 0x000000, 0xe5e5e5), Palette::xterm_colors())
        } else if index == 1 {
            Palette::new("xterm-light", (0x000000, 0xffffff, 0x000000), Palette::xterm_colors())
        } else {
            let colors: [u32; 16] = [
                0x073642, 0xdc322f, 0x859900, 0xb58900, 0x268bd2, 0xd33682, 0x2aa198, 0xeee8d5,
                0x002b36, 0xcb4b16, 0x586e75, 0x657b83, 0x839496, 0x6c71c4, 0x93a1a1, 0xfdf6e3,
            ];
            assert(colors@ =~= builtin_colors(2));
            Palette::new("solarized-dark", (0x839496, 0x002b36, 0x93a1a1), colors)
        }
    }

    /// All built-in palettes, in index order.
    pub fn builtin() -> (r: Vec<Palette<'static>>)
        ensures
            r.len() == BUILTIN_PALETTE_COUNT,
            forall|i: int| 0 <= i < BUILTIN_PALETTE_COUNT ==>
                palette_built(#[trigger] r@[i], builtin_pair(i), builtin_colors(i)),
            forall|i: int| 0 <= i < BUILTIN_PALETTE_COUNT ==> (#[trigger] r@[i]).name@ == builtin_name(i),
    {
        let mut r: Vec<Palette<'static>> = Vec::new();
        let mut i: usize = 0;
        while i < BUILTIN_PALETTE_COUNT
            invariant
                i <= BUILTIN_PALETTE_COUNT,
                r.len() == i,
                forall|j: int| 0 <= j < i ==> palette_built(#[trigger] r@[j], builtin_pair(j), builtin_colors(j)),
                forall|j: int| 0 <= j < i ==> (#[trigger] r@[j]).name@ == builtin_name(j),
            decreases BUILTIN_PALETTE_COUNT - i,
        {
            r.push(Palette::builtin_at(i));
            i += 1;
        }
        r
    }

    /// The index of the default palette among the built-in ones.
    pub fn default_index() -> (r: usize)
        ensures
            r == DEFAULT_PALETTE_INDEX,
            r < BUILTIN_PALETTE_COUNT,
    {
        DEFAULT_PALETTE_INDEX
    }

    /// The default palette.
    pub fn default() -> (p: Palette<'static>)
        ensures
            palette_built(p, builtin_pair(DEFAULT_PALETTE_INDEX as int), builtin_colors(DEFAULT_PALETTE_INDEX as int)),
            p.name@ == builtin_name(DEFAULT_PALETTE_INDEX as int),
    {
        Palette::new("xterm", (0xe5e5e5, 0x000000, 0xe5e5e5), Palette::xterm_colors())
    }

    /// The built-in palette with the given index, or the default palette when
    /// the index is out of range.
    pub fn get(index: usize) -> (p: Palette<'static>)
        ensures
            index < BUILTIN_PALETTE_COUNT ==> palette_built(p, builtin_pair(index as int), builtin_colors(index as int)),
            index >= BUILTIN_PALETTE_COUNT ==> palette_built(
                p,
                builtin_pair(DEFAULT_PALETTE_INDEX as int),
                builtin_colors(DEFAULT_PALETTE_INDEX as int),
            ),
            index < BUILTIN_PALETTE_COUNT ==> p.name@ == builtin_name(index as int),
            index >= BUILTIN_PALETTE_COUNT ==> p.name@ == builtin_name(DEFAULT_PALETTE_INDEX as int),
    {
        if index < BUILTIN_PALETTE_COUNT {
            Palette::builtin_at(index)
        } else {
            Palette::default()
        }
    }
}


/// 512 colors held in a cache-line aligned box (`aligned_vec::ABox`).
#[verifier::external_body]
pub struct ColorTable {
    inner: ABox<[Color; 512]>,
}

/// The colors a [`ColorTable`] holds, in index order.
pub uninterp spec fn color_table(t: ColorTable) -> Seq<Color>;

impl ColorTable {
    /// `ABox::new`: a box holding 512 copies of `fill`.
    #[verifier::external_body]
    fn filled(fill: Color) -> (r: Self)
        ensures
            color_table(r) == Seq::new(512, |_i: int| fill),
    {
        ColorTable { inner: ABox::new(0, [fill; 512]) }
    }

    /// Reads entry `i` of the boxed array.
    #[verifier::external_body]
    fn get(&self, i: usize) -> (r: Color)
        requires
            i < color_table(*self).len(),
        ensures
            r == color_table(*self)[i as int],
    {
        self.inner[i]
    }

    /// Writes entry `i` of the boxed array.
    #[verifier::external_body]
    fn set(&mut self, i: usize, c: Color)
        requires
            i < color_table(*old(self)).len(),
        ensures
            color_table(*final(self)) == color_table(*old(self)).update(i as int, c),
    {
        self.inner[i] = c;
    }
}

/// The channel value of step `c` (0..=5) of the 6x6x6 color cube.
pub open spec fn cube_level(c: int) -> int {
    if c == 0 { 0 } else { c * 40 + 55 }
}

/// Entry `i` of the color scheme built from palette `p`: the 16 palette
/// colors, the 6x6x6 cube, the 24-step gray ramp, then foreground,
/// background and cursor; the remaining entries are transparent black.
pub open spec fn scheme_entry(p: Palette, i: int) -> Color {
    if 0 <= i < 16 {
        p.ansi_colors@[i]
    } else if 16 <= i < 232 {
        let k = i - 16;
        opaque(cube_level(k / 36) as u8, cube_level((k % 36) / 6) as u8, cube_level(k % 6) as u8)
    } else if 232 <= i < 256 {
        let l = ((i - 232) * 10 + 8) as u8;
        opaque(l, l, l)
    } else if i == 256 {
        p.foreground
    } else if i == 257 {
        p.background
    } else if i == 258 {
        p.cursor
    } else {
        Color { r: 0, g: 0, b: 0, a: 0 }
    }
}

/// The cube of the 256-color set: entry `16 + 36 r + 6 g + b` of a scheme,
/// for `r`, `g`, `b` in `0..6`, is the opaque color whose red, green and blue
/// channels are steps `r`, `g` and `b` of the levels 0, 95, 135, 175, 215,
/// 255. Red is the most significant digit of the entry's offset: entry 196
/// is pure red, entry 46 pure green, entry 21 pure blue.
pub proof fn law_color_cube(p: Palette, r: int, g: int, b: int)
    requires
        0 <= r < 6,
        0 <= g < 6,
        0 <= b < 6,
    ensures
        ({
            let levels = seq![0u8, 95u8, 135u8, 175u8, 215u8, 255u8];
            scheme_entry(p, 16 + 36 * r + 6 * g + b) == (Color { r: levels[r], g: levels[g], b: levels[b], a: 255 })
        }),
{
    let k = 36 * r + 6 * g + b;
    assert(k / 36 == r && (k % 36) / 6 == g && k % 6 == b) by (nonlinear_arith)
        requires
            0 <= r < 6,
            0 <= g < 6,
            0 <= b < 6,
            k == 36 * r + 6 * g + b,
    ;
}

/// The gray ramp of the 256-color set: entry `232 + k` of a scheme, for `k`
/// in `0..24`, is the opaque gray of level `8 + 10 k`, from 8 (entry 232)
/// to 238 (entry 255).
pub proof fn law_gray_ramp(p: Palette, k: int)
    requires
        0 <= k < 24,
    ensures
        scheme_entry(p, 232 + k) == (Color { r: (8 + 10 * k) as u8, g: (8 + 10 * k) as u8, b: (8 + 10 * k) as u8, a: 255 }),
{
}

/// The 512-color scheme: 16 ANSI colors, a 216-color cube, 24 grays and the
/// foreground, background and cursor colors, indexed as [`AnsiColor`] values
/// index it.
pub struct ColorScheme {
    table: ColorTable,
}

impl View for ColorScheme {
    type V = Seq<Color>;

    closed spec fn view(&self) -> Seq<Color> {
        color_table(self.table)
    }
}

/// The color a scheme gives an ANSI color.
pub open spec fn scheme_color(s: Seq<Color>, c: AnsiColor) -> Color {
    match c {
        AnsiColor::Spec(rgb) => opaque(rgb.r, rgb.g, rgb.b),
        AnsiColor::Named(n) => s[named_index(n)],
        AnsiColor::Indexed(i) => s[i as int],
    }
}

fn cube_scale(c: usize) -> (r: u8)
    requires
        c <= 5,
    ensures
        r == cube_level(c as int),
{
    if c == 0 { 0 } else { (c * 40 + 55) as u8 }
}

impl ColorScheme {
    #[verifier::type_invariant]
    closed spec fn full(&self) -> bool {
        color_table(self.table).len() == 512
    }

    /// Builds the scheme of a palette.
    pub fn new(palette: &Palette) -> (r: Self)
        ensures
            r@.len() == 512,
            forall|i: int| 0 <= i < 512 ==> #[trigger] r@[i] == scheme_entry(*palette, i),
    {
        let mut t = ColorTable::filled(Color::zero());
        let mut i: usize = 0;
        while i < 16
            invariant
                i <= 16,
                color_table(t).len() == 512,
                forall|j: int| 0 <= j < i ==> color_table(t)[j] == scheme_entry(*palette, j),
                forall|j: int| 16 <= j < 512 ==> color_table(t)[j] == transparent(),
            decreases 16 - i,
        {
            t.set(i, palette.ansi_colors[i]);
            i += 1;
        }
        let mut k: usize = 0;
        while k < 216
            invariant
                k <= 216,
                color_table(t).len() == 512,
                forall|j: int| 0 <= j < 16 + k ==> color_table(t)[j] == scheme_entry(*palette, j),
                forall|j: int| 16 + k <= j < 512 ==> color_table(t)[j] == transparent(),
            decreases 216 - k,
        {
            let r = cube_scale(k / 36);
            let g = cube_scale(k % 36 / 6);
            let b = cube_scale(k % 6);
            t.set(k + 16, Color::rgb(r, g, b));
            k += 1;
        }
        let mut g: usize = 0;
        while g < 24
            invariant
                g <= 24,
                color_table(t).len() == 512,
                forall|j: int| 0 <= j < 232 + g ==> color_table(t)[j] == scheme_entry(*palette, j),
                forall|j: int| 232 + g <= j < 512 ==> color_table(t)[j] == transparent(),
            decreases 24 - g,
        {
            let l = (g * 10 + 8) as u8;
            t.set(g + 232, Color::gray(l));
            g += 1;
        }
        t.set(256, palette.foreground);
        t.set(257, palette.background);
        t.set(258, palette.cursor);
        ColorScheme { table: t }
    }

    /// The color of palette entry `index`.
    fn entry(&self, index: usize) -> (r: Color)
        requires
            index < 512,
        ensures
            r == self@[index as int],
    {
        proof { use_type_invariant(self); }
        self.table.get(index)
    }

    /// The color this scheme gives an ANSI color.
    pub fn get(&self, color: AnsiColor) -> (r: Color)
        ensures
            r == scheme_color(self@, color),
    {
        match color {
            AnsiColor::Spec(rgb) => Color::from_ansi_rgb(rgb),
            AnsiColor::Named(named) => {
                proof { crate::ansi_color::lemma_named_index(named, named); }
                self.entry(named.index())
            },
            AnsiColor::Indexed(index) => self.entry(index as usize),
        }
    }

    pub fn black(&self) -> (r: Color) ensures r == self@[0] { self.entry(0) }
    pub fn red(&self) -> (r: Color) ensures r == self@[1] { self.entry(1) }
    pub fn green(&self) -> (r: Color) ensures r == self@[2] { self.entry(2) }
    pub fn yellow(&self) -> (r: Color) ensures r == self@[3] { self.entry(3) }
    pub fn blue(&self) -> (r: Color) ensures r == self@[4] { self.entry(4) }
    pub fn magenta(&self) -> (r: Color) ensures r == self@[5] { self.entry(5) }
    pub fn cyan(&self) -> (r: Color) ensures r == self@[6] { self.entry(6) }
    pub fn white(&self) -> (r: Color) ensures r == self@[7] { self.entry(7) }

    /// The foreground color.
    pub fn foreground(&self) -> (r: Color)
        ensures
            r == self@[256],
    {
        self.entry(256)
    }

    /// The background color.
    pub fn background(&self) -> (r: Color)
        ensures
            r == self@[257],
    {
        self.entry(257)
    }

    /// The cursor color.
    pub fn cursor(&self) -> (r: Color)
        ensures
            r == self@[258],
    {
        self.entry(258)
    }
}

impl Default for ColorScheme {
    /// The scheme of the default palette.
    fn default() -> (r: Self)
        ensures
            r@.len() == 512,
    {
        ColorScheme::new(&Palette::default())
    }
}

} // verus!
