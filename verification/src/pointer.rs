//! Pointer (mouse) state and the encoding of pointer events into the xterm
//! mouse-report escape sequences (X10, normal, button-event and any-event
//! tracking; legacy, UTF-8, SGR, SGR-pixel and URXVT coordinates).

use vstd::prelude::*;
use vstd::utf8::{encode_scalar, is_scalar};

use crate::event::ScrollDirection;
use crate::helper::{dec_digits, push_decimal};
use crate::utf8::push_scalar;

verus! {

/// A pointer button.
#[derive(Debug, Clone, Copy, PartialEq, Eq, PartialOrd, Ord, Hash, Structural)]
pub enum PointerButton {
    /// Left button.
    Left,
    /// Right button.
    Right,
    /// Middle button.
    Middle,
    /// Back (X1) button.
    X1,
    /// Forward (X2) button.
    X2,
}

/// The bit number of a button in a [`PointerButtonState`].
pub open spec fn button_index(b: PointerButton) -> u32 {
    match b {
        PointerButton::Left => 0,
        PointerButton::Right => 1,
        PointerButton::Middle => 2,
        PointerButton::X1 => 3,
        PointerButton::X2 => 4,
    }
}

/// The xterm button code of a button.
pub open spec fn xterm_code(b: PointerButton) -> u8 {
    match b {
        PointerButton::Left => 0,
        PointerButton::Middle => 1,
        PointerButton::Right => 2,
        PointerButton::X1 => 128,
        PointerButton::X2 => 129,
    }
}

/// The button whose bit number is `i`.
pub open spec fn button_at(i: u32) -> Option<PointerButton> {
    if i == 0 {
        Some(PointerButton::Left)
    } else if i == 1 {
        Some(PointerButton::Right)
    } else if i == 2 {
        Some(PointerButton::Middle)
    } else if i == 3 {
        Some(PointerButton::X1)
    } else if i == 4 {
        Some(PointerButton::X2)
    } else {
        None
    }
}

impl PointerButton {
    /// All buttons, in bit order.
    pub const ALL: [PointerButton; 5] = [
        PointerButton::Left,
        PointerButton::Right,
        PointerButton::Middle,
        PointerButton::X1,
        PointerButton::X2,
    ];

    /// The xterm mouse-report code of the button.
    pub fn to_xterm_code(self) -> (r: u8)
        ensures
            r == xterm_code(self),
    {
        match self {
            PointerButton::Left => 0,
            PointerButton::Middle => 1,
            PointerButton::Right => 2,
            PointerButton::X1 => 128,
            PointerButton::X2 => 129,
        }
    }

    /// The bit number of the button.
    pub fn index(self) -> (r: usize)
        ensures
            r == button_index(self),
    {
        match self {
            PointerButton::Left => 0,
            PointerButton::Right => 1,
            PointerButton::Middle => 2,
            PointerButton::X1 => 3,
            PointerButton::X2 => 4,
        }
    }

    /// The button with the given bit number, if any.
    pub fn from_index(i: usize) -> (r: Option<Self>)
        ensures
            i < 5 ==> r == button_at(i as u32),
            i >= 5 ==> r is None,
    {
        match i {
            0 => Some(PointerButton::Left),
            1 => Some(PointerButton::Right),
            2 => Some(PointerButton::Middle),
            3 => Some(PointerButton::X1),
            4 => Some(PointerButton::X2),
            _ => None,
        }
    }
}

/// Whether bit `i` of `flags` is set.
pub open spec fn bit_set(flags: u32, i: u32) -> bool {
    flags & (1u32 << i) != 0
}

/// How many of the five button bits of `flags` are set.
pub open spec fn count_pressed(flags: u32) -> nat {
    (if bit_set(flags, 0) { 1nat } else { 0nat }) + (if bit_set(flags, 1) { 1nat } else { 0nat }) + (
    if bit_set(flags, 2) { 1nat } else { 0nat }) + (if bit_set(flags, 3) { 1nat } else { 0nat }) + (
    if bit_set(flags, 4) { 1nat } else { 0nat })
}

/// The pressed button with the lowest bit number, if any.
pub open spec fn lowest_pressed(flags: u32) -> Option<PointerButton> {
    if bit_set(flags, 0) {
        Some(PointerButton::Left)
    } else if bit_set(flags, 1) {
        Some(PointerButton::Right)
    } else if bit_set(flags, 2) {
        Some(PointerButton::Middle)
    } else if bit_set(flags, 3) {
        Some(PointerButton::X1)
    } else if bit_set(flags, 4) {
        Some(PointerButton::X2)
    } else {
        None
    }
}

/// The set of pressed buttons, as a bit mask over the five buttons.
#[derive(Debug, Clone, Copy, PartialEq, Eq, PartialOrd, Ord, Hash)]
pub struct PointerButtonState {
    flags: u32,
}

impl PointerButtonState {
    /// The bit mask.
    pub closed spec fn mask(&self) -> u32 {
        self.flags
    }

    /// Whether `b` is pressed.
    pub open spec fn pressed(&self, b: PointerButton) -> bool {
        bit_set(self.mask(), button_index(b))
    }

    #[verifier::type_invariant]
    closed spec fn only_button_bits(&self) -> bool {
        self.flags < 32
    }

    /// The state with no button pressed.
    pub closed spec fn none_pressed() -> PointerButtonState {
        PointerButtonState { flags: 0 }
    }

    /// This state with `b` pressed as well.
    pub closed spec fn with_pressed(self, b: PointerButton) -> PointerButtonState {
        PointerButtonState { flags: self.flags | (1u32 << button_index(b)) }
    }

    /// This state with `b` released.
    pub closed spec fn with_released(self, b: PointerButton) -> PointerButtonState {
        PointerButtonState { flags: self.flags & !(1u32 << button_index(b)) }
    }

    /// The state with no button pressed has an empty mask.
    pub proof fn lemma_none_pressed()
        ensures
            Self::none_pressed().mask() == 0,
    {
    }

    /// Pressing and releasing act on the mask bit of the button.
    pub proof fn lemma_masks(self, b: PointerButton)
        ensures
            self.with_pressed(b).mask() == self.mask() | (1u32 << button_index(b)),
            self.with_released(b).mask() == self.mask() & !(1u32 << button_index(b)),
    {
    }

    /// No button pressed.
    pub fn new() -> (r: Self)
        ensures
            r == Self::none_pressed(),
            r.mask() == 0,
    {
        PointerButtonState { flags: 0 }
    }

    /// Releases every button.
    pub fn clear(&mut self)
        ensures
            *final(self) == Self::none_pressed(),
            final(self).mask() == 0,
            forall|ops: Seq<ButtonOp>| #[trigger] after_button_ops(Self::none_pressed(), ops) == *old(self)
                ==> after_button_ops(Self::none_pressed(), ops.push(ButtonOp::Clear)) == *final(self),
    {
        assert forall|ops: Seq<ButtonOp>| #[trigger] after_button_ops(Self::none_pressed(), ops) == *old(self)
            implies after_button_ops(Self::none_pressed(), ops.push(ButtonOp::Clear)) == Self::none_pressed() by {
            assert(ops.push(ButtonOp::Clear).drop_last() =~= ops);
        }
        self.flags = 0;
    }

    /// Marks `button` as pressed.
    pub fn press(&mut self, button: PointerButton)
        ensures
            *final(self) == old(self).with_pressed(button),
            final(self).mask() == old(self).mask() | (1u32 << button_index(button)),
            final(self).pressed(button),
            forall|o: PointerButton| o != button ==> final(self).pressed(o) == old(self).pressed(o),
            forall|ops: Seq<ButtonOp>| #[trigger] after_button_ops(Self::none_pressed(), ops) == *old(self)
                ==> after_button_ops(Self::none_pressed(), ops.push(ButtonOp::Press(button))) == *final(self),
    {
        assert forall|ops: Seq<ButtonOp>| #[trigger] after_button_ops(Self::none_pressed(), ops) == *old(self)
            implies after_button_ops(Self::none_pressed(), ops.push(ButtonOp::Press(button))) == old(self).with_pressed(
            button,
        ) by {
            assert(ops.push(ButtonOp::Press(button)).drop_last() =~= ops);
        }
        proof { use_type_invariant(&*self); }
        let i = button.index() as u32;
        let f = self.flags;
        assert(forall|j: u32| j < 5 && j != i ==> ((f | (1u32 << i)) & (1u32 << j) != 0) == (f & (1u32 << j) != 0)) by (bit_vector)
            requires i < 5;
        assert((f | (1u32 << i)) & (1u32 << i) != 0) by (bit_vector) requires i < 5;
        assert(f < 32 ==> (f | (1u32 << i)) < 32) by (bit_vector) requires i < 5;
        self.flags = f | (1u32 << i);
    }

    /// Marks `button` as released.
    pub fn release(&mut self, button: PointerButton)
        ensures
            *final(self) == old(self).with_released(button),
            final(self).mask() == old(self).mask() & !(1u32 << button_index(button)),
            !final(self).pressed(button),
            forall|o: PointerButton| o != button ==> final(self).pressed(o) == old(self).pressed(o),
            forall|ops: Seq<ButtonOp>| #[trigger] after_button_ops(Self::none_pressed(), ops) == *old(self)
                ==> after_button_ops(Self::none_pressed(), ops.push(ButtonOp::Release(button))) == *final(self),
    {
        assert forall|ops: Seq<ButtonOp>| #[trigger] after_button_ops(Self::none_pressed(), ops) == *old(self)
            implies after_button_ops(Self::none_pressed(), ops.push(ButtonOp::Release(button))) == old(
            self,
        ).with_released(button) by {
            assert(ops.push(ButtonOp::Release(button)).drop_last() =~= ops);
        }
        proof { use_type_invariant(&*self); }
        let i = button.index() as u32;
        let f = self.flags;
        assert(forall|j: u32| j < 5 && j != i ==> ((f & !(1u32 << i)) & (1u32 << j) != 0) == (f & (1u32 << j) != 0)) by (bit_vector)
            requires i < 5;
        assert((f & !(1u32 << i)) & (1u32 << i) == 0) by (bit_vector) requires i < 5;
        assert(f < 32 ==> (f & !(1u32 << i)) < 32) by (bit_vector) requires i < 5;
        self.flags = f & !(1u32 << i);
    }

    /// Whether `button` is pressed.
    pub fn is_pressed(&self, button: PointerButton) -> (r: bool)
        ensures
            r == self.pressed(button),
    {
        let i = button.index() as u32;
        (self.flags & (1u32 << i)) != 0
    }

    /// Whether `button` is released.
    pub fn is_released(&self, button: PointerButton) -> (r: bool)
        ensures
            r == !self.pressed(button),
    {
        !self.is_pressed(button)
    }

    /// The number of pressed buttons.
    pub fn num_pressed(&self) -> (r: u32)
        ensures
            r == count_pressed(self.mask()),
    {
        let mut n: u32 = 0;
        if self.flags & 1 != 0 {
            n += 1;
        }
        if self.flags & 2 != 0 {
            n += 1;
        }
        if self.flags & 4 != 0 {
            n += 1;
        }
        if self.flags & 8 != 0 {
            n += 1;
        }
        if self.flags & 16 != 0 {
            n += 1;
        }
        let f = self.flags;
        assert(1u32 << 0u32 == 1 && 1u32 << 1u32 == 2 && 1u32 << 2u32 == 4 && 1u32 << 3u32 == 8 && 1u32 << 4u32 == 16) by (bit_vector);
        n
    }

    /// The pressed button with the lowest bit number.
    pub fn first_pressed(self) -> (r: Option<PointerButton>)
        ensures
            r == lowest_pressed(self.mask()),
    {
        assert(1u32 << 0u32 == 1 && 1u32 << 1u32 == 2 && 1u32 << 2u32 == 4 && 1u32 << 3u32 == 8 && 1u32 << 4u32 == 16) by (bit_vector);
        if self.flags & 1 != 0 {
            Some(PointerButton::Left)
        } else if self.flags & 2 != 0 {
            Some(PointerButton::Right)
        } else if self.flags & 4 != 0 {
            Some(PointerButton::Middle)
        } else if self.flags & 8 != 0 {
            Some(PointerButton::X1)
        } else if self.flags & 16 != 0 {
            Some(PointerButton::X2)
        } else {
            None
        }
    }
}

/// Which pointer events are reported (DECSET tracking modes).
#[derive(Debug, Clone, Copy, PartialEq, Eq, PartialOrd, Ord, Hash, Structural)]
pub enum PointerReportFilter {
    /// No reporting (the default).
    Off,
    /// X10 reporting: presses only (mode 9).
    X10,
    /// Presses and releases (mode 1000, and 1001 treated alike).
    Button,
    /// Presses, releases and motion with a button down (mode 1002).
    ButtonMotion,
    /// Presses, releases and all motion (mode 1003).
    AnyMotion,
}

impl PointerReportFilter {
    /// Whether presses (and wheel events) are reported.
    pub fn report_press(&self) -> (r: bool)
        ensures
            r == (*self != PointerReportFilter::Off),
    {
        !matches!(self, PointerReportFilter::Off)
    }

    /// Whether releases are reported.
    pub fn report_release(&self) -> (r: bool)
        ensures
            r == (*self != PointerReportFilter::Off && *self != PointerReportFilter::X10),
    {
        !matches!(self, PointerReportFilter::Off | PointerReportFilter::X10)
    }

    /// Whether motion is reported, given whether a button is down.
    pub fn report_motion(&self, button_down: bool) -> (r: bool)
        ensures
            r == (*self == PointerReportFilter::AnyMotion || (*self == PointerReportFilter::ButtonMotion
                && button_down)),
    {
        matches!(self, PointerReportFilter::AnyMotion) || (matches!(self, PointerReportFilter::ButtonMotion)
            && button_down)
    }

    /// Whether anything is reported.
    pub fn reporting(&self) -> (r: bool)
        ensures
            r == (*self != PointerReportFilter::Off),
    {
        !matches!(self, PointerReportFilter::Off)
    }
}

/// How the coordinates of a report are encoded.
#[derive(Debug, Clone, Copy, PartialEq, Eq, PartialOrd, Ord, Hash, Structural)]
pub enum PointerReportEncoding {
    /// `ESC [ M` with coordinates as single bytes, limited to 1..=223 (the default).
    Legacy,
    /// Mode 1005: `ESC [ M` with UTF-8 encoded coordinates, limited to 1..=2015.
    UTF8,
    /// Mode 1006: `ESC [ < b ; x ; y M|m` in decimal.
    SGR,
    /// Mode 1015: `ESC [ b ; x ; y M` in decimal.
    URXVT,
}

/// The divisor a font dimension gives the cell computation: the dimension,
/// at least one, as an `i32`.
pub open spec fn divisor(size: u32) -> i32 {
    (if size == 0 { 1u32 } else { size }) as i32
}

/// Whether dividing `v` by `d` with Euclidean division stays in range.
pub open spec fn euclid_ok(v: i32, d: i32) -> bool {
    d != 0 && i32::MIN <= v / d <= i32::MAX
}

/// `v` clamped into `lo..=hi`.
pub open spec fn clamp(v: int, lo: int, hi: int) -> int {
    if v < lo { lo } else if v > hi { hi } else { v }
}

/// `a + b` saturating at 255.
pub open spec fn sat_add(a: u8, b: u8) -> u8 {
    if a + b > 255 { 255u8 } else { (a + b) as u8 }
}

/// `ESC [ M` followed by button and coordinates as single bytes offset by 32.
pub open spec fn legacy_report(b: u8, x: int, y: int) -> Seq<u8> {
    seq![
        0x1bu8,
        0x5bu8,
        0x4du8,
        (b + 32) as u8,
        (clamp(x + 1, 1, 223) + 32) as u8,
        (clamp(y + 1, 1, 223) + 32) as u8,
    ]
}

/// `ESC [ M` followed by button and coordinates as UTF-8 encoded characters
/// offset by 32.
pub open spec fn utf8_report(b: u8, x: int, y: int) -> Seq<u8> {
    seq![0x1bu8, 0x5bu8, 0x4du8] + encode_scalar((b + 32) as u32) + encode_scalar(
        (clamp(x + 1, 1, 2015) + 32) as u32,
    ) + encode_scalar((clamp(y + 1, 1, 2015) + 32) as u32)
}

/// `ESC [ < b ; x ; y` followed by `m` for a release and `M` otherwise.
pub open spec fn sgr_report(b: u8, x: int, y: int, release: bool) -> Seq<u8> {
    seq![0x1bu8, 0x5bu8, 0x3cu8] + dec_digits(b as nat) + seq![0x3bu8] + dec_digits(
        clamp(x + 1, 1, 99999) as nat,
    ) + seq![0x3bu8] + dec_digits(clamp(y + 1, 1, 99999) as nat) + seq![
        if release { 0x6du8 } else { 0x4du8 },
    ]
}

/// `ESC [ b+32 ; x ; y M`.
pub open spec fn urxvt_report(b: u8, x: int, y: int) -> Seq<u8> {
    seq![0x1bu8, 0x5bu8] + dec_digits((b + 32) as nat) + seq![0x3bu8] + dec_digits(
        clamp(x + 1, 1, 99999) as nat,
    ) + seq![0x3bu8] + dec_digits(clamp(y + 1, 1, 99999) as nat) + seq![0x4du8]
}

/// The report of button code `b` at `(x, y)` in the given encoding.
pub open spec fn encoded_report(
    enc: PointerReportEncoding,
    b: u8,
    x: int,
    y: int,
    release: bool,
) -> Seq<u8> {
    match enc {
        PointerReportEncoding::Legacy => legacy_report(b, x, y),
        PointerReportEncoding::UTF8 => utf8_report(b, x, y),
        PointerReportEncoding::SGR => sgr_report(b, x, y, release),
        PointerReportEncoding::URXVT => urxvt_report(b, x, y),
    }
}

/// The encoding that the enabled DEC modes select: SGR (1006 or 1016), then
/// URXVT (1015), then UTF-8 (1005), then legacy.
pub open spec fn mode_encoding(e1005: bool, e1006: bool, e1015: bool, e1016: bool) -> PointerReportEncoding {
    if e1016 || e1006 {
        PointerReportEncoding::SGR
    } else if e1015 {
        PointerReportEncoding::URXVT
    } else if e1005 {
        PointerReportEncoding::UTF8
    } else {
        PointerReportEncoding::Legacy
    }
}

/// The filter that the enabled DEC modes select: any motion (1003), then
/// button motion (1002), then buttons (1000 or 1001), then X10 (9).
pub open spec fn mode_filter(e9: bool, e1000: bool, e1001: bool, e1002: bool, e1003: bool) -> PointerReportFilter {
    if e1003 {
        PointerReportFilter::AnyMotion
    } else if e1002 {
        PointerReportFilter::ButtonMotion
    } else if e1000 || e1001 {
        PointerReportFilter::Button
    } else if e9 {
        PointerReportFilter::X10
    } else {
        PointerReportFilter::Off
    }
}

/// Whether `mode` is one of the DEC private mouse modes the pointer keeps.
pub open spec fn is_mouse_mode(mode: u16) -> bool {
    mode == 9 || mode == 1000 || mode == 1001 || mode == 1002 || mode == 1003 || mode == 1004
        || mode == 1005 || mode == 1006 || mode == 1007 || mode == 1015 || mode == 1016
}

/// The pointer state: position, modifiers, pressed buttons, the enabled
/// mouse modes and the report filter and encoding they select.
pub struct Pointer {
    /// X coordinate in the window, in pixels.
    pub x: i32,
    /// Y coordinate in the window, in pixels.
    pub y: i32,
    /// Whether the pointer is inside the terminal area.
    pub captured: bool,
    /// Scroll wheel speed multiplier.
    pub scroll_speed: i32,
    /// Modifier bits: Shift=4, Alt=8, Ctrl=16.
    pub modifiers: u8,
    /// The pressed buttons.
    pub button_state: PointerButtonState,
    /// The most recently pressed button that is still down.
    pub last_pressed: Option<PointerButton>,
    /// The cell of the last report, so that motion within a cell is reported once.
    pub last_cell: Option<(i32, i32)>,
    /// Which events are reported.
    pub report_filter: PointerReportFilter,
    /// How coordinates are encoded.
    pub report_encoding: PointerReportEncoding,
    /// X10 reporting (DECSET 9).
    pub enabled_9: bool,
    /// Click reporting (DECSET 1000).
    pub enabled_1000: bool,
    /// Highlight tracking (DECSET 1001), treated as 1000.
    pub enabled_1001: bool,
    /// Click and drag reporting (DECSET 1002).
    pub enabled_1002: bool,
    /// All motion reporting (DECSET 1003).
    pub enabled_1003: bool,
    /// Focus in/out reporting (DECSET 1004).
    pub enabled_1004: bool,
    /// UTF-8 coordinates (DECSET 1005).
    pub enabled_1005: bool,
    /// SGR coordinates (DECSET 1006).
    pub enabled_1006: bool,
    /// Wheel as cursor keys on the alternate screen (DECSET 1007).
    pub enabled_1007: bool,
    /// URXVT coordinates (DECSET 1015).
    pub enabled_1015: bool,
    /// SGR pixel coordinates (DECSET 1016).
    pub enabled_1016: bool,
}

impl Pointer {
    /// Whether the enabled-mode flag of `mode` is set (false for other modes).
    pub open spec fn mode_flag(&self, mode: u16) -> bool {
        if mode == 9 {
            self.enabled_9
        } else if mode == 1000 {
            self.enabled_1000
        } else if mode == 1001 {
            self.enabled_1001
        } else if mode == 1002 {
            self.enabled_1002
        } else if mode == 1003 {
            self.enabled_1003
        } else if mode == 1004 {
            self.enabled_1004
        } else if mode == 1005 {
            self.enabled_1005
        } else if mode == 1006 {
            self.enabled_1006
        } else if mode == 1007 {
            self.enabled_1007
        } else if mode == 1015 {
            self.enabled_1015
        } else if mode == 1016 {
            self.enabled_1016
        } else {
            false
        }
    }

    /// Filter and encoding agree with the enabled modes.
    pub open spec fn modes_consistent(&self) -> bool {
        &&& self.report_encoding == mode_encoding(
            self.enabled_1005,
            self.enabled_1006,
            self.enabled_1015,
            self.enabled_1016,
        )
        &&& self.report_filter == mode_filter(
            self.enabled_9,
            self.enabled_1000,
            self.enabled_1001,
            self.enabled_1002,
            self.enabled_1003,
        )
    }

    /// The cell under the pointer for the given font size.
    pub open spec fn cell_of(&self, font_size: (u32, u32)) -> (i32, i32) {
        ((self.x / divisor(font_size.0)) as i32, (self.y / divisor(font_size.1)) as i32)
    }

    /// Computing the cell under the pointer does not overflow.
    pub open spec fn cell_ok(&self, font_size: (u32, u32)) -> bool {
        euclid_ok(self.x, divisor(font_size.0)) && euclid_ok(self.y, divisor(font_size.1))
    }

    /// The coordinates a report carries: pixels in mode 1016, cells otherwise.
    pub open spec fn report_coords(&self, font_size: (u32, u32)) -> (i32, i32) {
        if self.enabled_1016 {
            (self.x, self.y)
        } else {
            self.cell_of(font_size)
        }
    }

    /// The button byte of a report: the code, plus 32 for motion, plus the
    /// modifiers except in X10 mode, saturating at 255.
    pub open spec fn report_button(&self, code: u8, motion: bool) -> u8 {
        let c = if motion { sat_add(code, 32) } else { code };
        if self.report_filter == PointerReportFilter::X10 {
            c
        } else {
            sat_add(c, self.modifiers)
        }
    }

    /// The report of button code `code`.
    pub open spec fn report(&self, code: u8, motion: bool, release: bool, font_size: (u32, u32)) -> Seq<u8> {
        encoded_report(
            self.report_encoding,
            self.report_button(code, motion),
            self.report_coords(font_size).0 as int,
            self.report_coords(font_size).1 as int,
            release,
        )
    }

    /// Building the report of `code` stays within the integer ranges: the
    /// cell division does not overflow, the coordinates can be incremented,
    /// and in the single-byte encodings the button byte plus 32 fits a byte.
    pub open spec fn report_ok(&self, code: u8, motion: bool, font_size: (u32, u32)) -> bool {
        &&& self.cell_ok(font_size)
        &&& self.report_coords(font_size).0 < i32::MAX
        &&& self.report_coords(font_size).1 < i32::MAX
        &&& (self.report_encoding == PointerReportEncoding::Legacy || self.report_encoding
            == PointerReportEncoding::URXVT) ==> self.report_button(code, motion) + 32 <= 255
    }

    /// The button code a motion report carries: the last pressed button, or
    /// 3 (no button) when none is down.
    pub open spec fn motion_code(&self) -> u8 {
        match self.last_pressed {
            Some(b) => xterm_code(b),
            None => 3,
        }
    }
}


/// The button code of a wheel event.
pub open spec fn wheel_code(d: ScrollDirection) -> u8 {
    match d {
        ScrollDirection::Up => 64,
        ScrollDirection::Down => 65,
        ScrollDirection::Left => 66,
        ScrollDirection::Right => 67,
    }
}

/// `ESC [ I` when focus was gained, `ESC [ O` when it was lost.
pub open spec fn focus_report(gained: bool) -> Seq<u8> {
    seq![0x1bu8, 0x5bu8, if gained { 0x49u8 } else { 0x4fu8 }]
}

impl Pointer {
    /// The state of a new pointer: at the origin, not captured, scroll speed
    /// three, nothing pressed and no mode enabled.
    pub open spec fn initial() -> Pointer {
        Pointer {
            x: 0,
            y: 0,
            captured: false,
            scroll_speed: 3,
            modifiers: 0,
            button_state: PointerButtonState::none_pressed(),
            last_pressed: None,
            last_cell: None,
            report_filter: PointerReportFilter::Off,
            report_encoding: PointerReportEncoding::Legacy,
            enabled_9: false,
            enabled_1000: false,
            enabled_1001: false,
            enabled_1002: false,
            enabled_1003: false,
            enabled_1004: false,
            enabled_1005: false,
            enabled_1006: false,
            enabled_1007: false,
            enabled_1015: false,
            enabled_1016: false,
        }
    }

    /// This pointer with the flag of mouse mode `mode` set to `enable`.
    pub open spec fn with_flag(self, mode: u16, enable: bool) -> Pointer {
        Pointer {
            enabled_9: if mode == 9 { enable } else { self.enabled_9 },
            enabled_1000: if mode == 1000 { enable } else { self.enabled_1000 },
            enabled_1001: if mode == 1001 { enable } else { self.enabled_1001 },
            enabled_1002: if mode == 1002 { enable } else { self.enabled_1002 },
            enabled_1003: if mode == 1003 { enable } else { self.enabled_1003 },
            enabled_1004: if mode == 1004 { enable } else { self.enabled_1004 },
            enabled_1005: if mode == 1005 { enable } else { self.enabled_1005 },
            enabled_1006: if mode == 1006 { enable } else { self.enabled_1006 },
            enabled_1007: if mode == 1007 { enable } else { self.enabled_1007 },
            enabled_1015: if mode == 1015 { enable } else { self.enabled_1015 },
            enabled_1016: if mode == 1016 { enable } else { self.enabled_1016 },
            ..self
        }
    }

    /// This pointer with filter and encoding recomputed from the enabled modes.
    pub open spec fn recalculated(self) -> Pointer {
        Pointer {
            report_encoding: mode_encoding(
                self.enabled_1005,
                self.enabled_1006,
                self.enabled_1015,
                self.enabled_1016,
            ),
            report_filter: mode_filter(
                self.enabled_9,
                self.enabled_1000,
                self.enabled_1001,
                self.enabled_1002,
                self.enabled_1003,
            ),
            ..self
        }
    }

    /// The DECRQM status of `mode`: 1 when set, 2 when reset, 0 when it is
    /// not a mouse mode.
    pub open spec fn mode_status(&self, mode: u16) -> u8 {
        if !is_mouse_mode(mode) {
            0
        } else if self.mode_flag(mode) {
            1
        } else {
            2
        }
    }

    /// Whether a motion event is reported in the current state.
    pub open spec fn motion_reported(&self) -> bool {
        self.report_filter == PointerReportFilter::AnyMotion || (self.report_filter
            == PointerReportFilter::ButtonMotion && count_pressed(self.button_state.mask()) > 0)
    }

    /// Creates a new pointer.
    pub fn new() -> (r: Self)
        ensures
            r == Self::initial(),
    {
        Pointer {
            x: 0,
            y: 0,
            captured: false,
            scroll_speed: 3,
            modifiers: 0,
            button_state: PointerButtonState::new(),
            last_pressed: None,
            last_cell: None,
            report_filter: PointerReportFilter::Off,
            report_encoding: PointerReportEncoding::Legacy,
            enabled_9: false,
            enabled_1000: false,
            enabled_1001: false,
            enabled_1002: false,
            enabled_1003: false,
            enabled_1004: false,
            enabled_1005: false,
            enabled_1006: false,
            enabled_1007: false,
            enabled_1015: false,
            enabled_1016: false,
        }
    }

    /// Whether pointer events are currently reported to the program.
    pub fn reporting(&self) -> (r: bool)
        ensures
            r == (self.report_filter != PointerReportFilter::Off),
    {
        self.report_filter.reporting()
    }

    /// Sets or clears a DEC private mouse mode and recomputes filter and
    /// encoding; other modes are ignored.
    pub fn set_dec_mode(&mut self, mode: u16, enable: bool)
        ensures
            is_mouse_mode(mode) ==> *final(self) == old(self).with_flag(mode, enable).recalculated(),
            !is_mouse_mode(mode) ==> *final(self) == *old(self),
            forall|ops: Seq<ModeOp>| #[trigger] after_mode_ops(Self::initial(), ops) == *old(self)
                ==> after_mode_ops(Self::initial(), ops.push(ModeOp::Mode(mode, enable))) == *final(self),
    {
        proof {
            lemma_mode_push(Self::initial(), ModeOp::Mode(mode, enable));
        }
        let known = mode == 9 || mode == 1000 || mode == 1001 || mode == 1002 || mode == 1003
            || mode == 1004 || mode == 1005 || mode == 1006 || mode == 1007 || mode == 1015
            || mode == 1016;
        if !known {
            return;
        }
        self.set_flag(mode, enable);
        self.calc_mode();
    }

    /// Sets the flag of mouse mode `mode`.
    fn set_flag(&mut self, mode: u16, enable: bool)
        ensures
            *final(self) == old(self).with_flag(mode, enable),
    {
        if mode == 9 {
            *self = Pointer { enabled_9: enable, ..*self };
        } else if mode == 1000 {
            *self = Pointer { enabled_1000: enable, ..*self };
        } else if mode == 1001 {
            *self = Pointer { enabled_1001: enable, ..*self };
        } else if mode == 1002 {
            *self = Pointer { enabled_1002: enable, ..*self };
        } else if mode == 1003 {
            *self = Pointer { enabled_1003: enable, ..*self };
        } else if mode == 1004 {
            *self = Pointer { enabled_1004: enable, ..*self };
        } else if mode == 1005 {
            *self = Pointer { enabled_1005: enable, ..*self };
        } else if mode == 1006 {
            *self = Pointer { enabled_1006: enable, ..*self };
        } else if mode == 1007 {
            *self = Pointer { enabled_1007: enable, ..*self };
        } else if mode == 1015 {
            *self = Pointer { enabled_1015: enable, ..*self };
        } else if mode == 1016 {
            *self = Pointer { enabled_1016: enable, ..*self };
        }
    }

    /// Resets all mouse modes and transient state, keeping the pointer
    /// coordinates and the scroll speed.
    pub fn reset_modes(&mut self)
        ensures
            *final(self) == (Pointer {
                x: old(self).x,
                y: old(self).y,
                scroll_speed: old(self).scroll_speed,
                ..Self::initial()
            }),
            forall|ops: Seq<ModeOp>| #[trigger] after_mode_ops(Self::initial(), ops) == *old(self)
                ==> after_mode_ops(Self::initial(), ops.push(ModeOp::Reset)) == *final(self),
    {
        proof {
            lemma_mode_push(Self::initial(), ModeOp::Reset);
        }
        let x = self.x;
        let y = self.y;
        let scroll_speed = self.scroll_speed;
        *self = Self::new();
        self.x = x;
        self.y = y;
        self.scroll_speed = scroll_speed;
    }

    /// Recomputes the report filter and encoding from the enabled modes.
    pub fn calc_mode(&mut self)
        ensures
            *final(self) == old(self).recalculated(),
    {
        self.report_encoding = if self.enabled_1016 || self.enabled_1006 {
            PointerReportEncoding::SGR
        } else if self.enabled_1015 {
            PointerReportEncoding::URXVT
        } else if self.enabled_1005 {
            PointerReportEncoding::UTF8
        } else {
            PointerReportEncoding::Legacy
        };
        self.report_filter = if self.enabled_1003 {
            PointerReportFilter::AnyMotion
        } else if self.enabled_1002 {
            PointerReportFilter::ButtonMotion
        } else if self.enabled_1000 || self.enabled_1001 {
            PointerReportFilter::Button
        } else if self.enabled_9 {
            PointerReportFilter::X10
        } else {
            PointerReportFilter::Off
        };
    }

    /// The cell under the pointer.
    fn cell_pos(&self, font_size: (u32, u32)) -> (r: (i32, i32))
        requires
            self.cell_ok(font_size),
        ensures
            r == self.cell_of(font_size),
    {
        let w: u32 = if font_size.0 == 0 { 1 } else { font_size.0 };
        let h: u32 = if font_size.1 == 0 { 1 } else { font_size.1 };
        let width = w as i32;
        let height = h as i32;
        let cx = match self.x.checked_div_euclid(width) {
            Some(v) => v,
            None => 0,
        };
        let cy = match self.y.checked_div_euclid(height) {
            Some(v) => v,
            None => 0,
        };
        (cx, cy)
    }

    /// The button byte of a report.
    fn cb(&self, button: u8, motion: bool) -> (r: u8)
        ensures
            r == self.report_button(button, motion),
    {
        let mut code = button;
        if motion {
            code = code.saturating_add(32);
        }
        if !matches!(self.report_filter, PointerReportFilter::X10) {
            code = code.saturating_add(self.modifiers);
        }
        code
    }

    /// Whether the report of button code `code` can be built (see
    /// [`Pointer::report_ok`]).
    pub fn can_report(&self, code: u8, motion: bool, font_size: (u32, u32)) -> (r: bool)
        ensures
            r == self.report_ok(code, motion, font_size),
    {
        let w: u32 = if font_size.0 == 0 { 1 } else { font_size.0 };
        let h: u32 = if font_size.1 == 0 { 1 } else { font_size.1 };
        let width = w as i32;
        let height = h as i32;
        let cx = self.x.checked_div_euclid(width);
        let cy = self.y.checked_div_euclid(height);
        let (cx, cy) = match (cx, cy) {
            (Some(a), Some(b)) => (a, b),
            _ => {
                return false;
            },
        };
        let (x, y) = if self.enabled_1016 { (self.x, self.y) } else { (cx, cy) };
        if x == i32::MAX || y == i32::MAX {
            return false;
        }
        let b = self.cb(code, motion);
        match self.report_encoding {
            PointerReportEncoding::Legacy | PointerReportEncoding::URXVT => b <= 223,
            _ => true,
        }
    }

    /// Whether `button` is pressed.
    pub fn is_pressed(&self, button: PointerButton) -> (r: bool)
        ensures
            r == self.button_state.pressed(button),
    {
        self.button_state.is_pressed(button)
    }

    /// The DECRQM status of a mouse mode: 1 when set, 2 when reset and 0
    /// when `mode` is not a mouse mode.
    pub fn dec_mode_status(&self, mode: u16) -> (r: u8)
        ensures
            r == self.mode_status(mode),
    {
        let set = if mode == 9 {
            self.enabled_9
        } else if mode == 1000 {
            self.enabled_1000
        } else if mode == 1001 {
            self.enabled_1001
        } else if mode == 1002 {
            self.enabled_1002
        } else if mode == 1003 {
            self.enabled_1003
        } else if mode == 1004 {
            self.enabled_1004
        } else if mode == 1005 {
            self.enabled_1005
        } else if mode == 1006 {
            self.enabled_1006
        } else if mode == 1007 {
            self.enabled_1007
        } else if mode == 1015 {
            self.enabled_1015
        } else if mode == 1016 {
            self.enabled_1016
        } else {
            return 0;
        };
        if set {
            1
        } else {
            2
        }
    }

    /// The report of button code `button` in the current encoding.
    fn encode_report(&self, button: u8, motion: bool, release: bool, font_size: (u32, u32)) -> (r: Vec<u8>)
        requires
            self.report_ok(button, motion, font_size),
        ensures
            r@ == self.report(button, motion, release, font_size),
    {
        let (x, y) = if self.enabled_1016 {
            (self.x, self.y)
        } else {
            self.cell_pos(font_size)
        };
        let b = self.cb(button, motion);
        match self.report_encoding {
            PointerReportEncoding::Legacy => encode_legacy(b, x, y),
            PointerReportEncoding::UTF8 => encode_utf8(b, x, y),
            PointerReportEncoding::SGR => encode_sgr(b, x, y, release),
            PointerReportEncoding::URXVT => encode_urxvt(b, x, y),
        }
    }

    /// Encodes a pointer move. Motion is reported when the filter asks for
    /// it and the pointer entered another cell since the last report.
    pub fn encode_move(&mut self, font_size: (u32, u32)) -> (r: Vec<u8>)
        requires
            old(self).motion_reported() ==> old(self).report_ok(old(self).motion_code(), true, font_size),
        ensures
            old(self).motion_reported() && old(self).last_cell != Some(old(self).cell_of(font_size)) ==> {
                &&& *final(self) == (Pointer { last_cell: Some(old(self).cell_of(font_size)), ..*old(self) })
                &&& r@ == old(self).report(old(self).motion_code(), true, false, font_size)
            },
            !(old(self).motion_reported() && old(self).last_cell != Some(old(self).cell_of(font_size)))
                ==> *final(self) == *old(self) && r@.len() == 0,
    {
        if !self.report_filter.report_motion(self.button_state.num_pressed() > 0) {
            return Vec::new();
        }
        let cell = self.cell_pos(font_size);
        let same = match self.last_cell {
            Some(c) => c.0 == cell.0 && c.1 == cell.1,
            None => false,
        };
        if same {
            return Vec::new();
        }
        self.last_cell = Some(cell);
        let button = match self.last_pressed {
            Some(b) => b.to_xterm_code(),
            None => 3,
        };
        self.encode_report(button, true, false, font_size)
    }

    /// Encodes a wheel event; reported whenever presses are.
    pub fn encode_scroll(&mut self, direction: ScrollDirection, font_size: (u32, u32)) -> (r: Vec<u8>)
        requires
            old(self).report_filter != PointerReportFilter::Off ==> old(self).report_ok(
                wheel_code(direction),
                false,
                font_size,
            ),
        ensures
            old(self).report_filter != PointerReportFilter::Off ==> {
                &&& *final(self) == (Pointer { last_cell: Some(old(self).cell_of(font_size)), ..*old(self) })
                &&& r@ == old(self).report(wheel_code(direction), false, false, font_size)
            },
            old(self).report_filter == PointerReportFilter::Off ==> *final(self) == *old(self) && r@.len()
                == 0,
    {
        if !self.report_filter.report_press() {
            return Vec::new();
        }
        let button: u8 = match direction {
            ScrollDirection::Up => 64,
            ScrollDirection::Down => 65,
            ScrollDirection::Left => 66,
            ScrollDirection::Right => 67,
        };
        self.last_cell = Some(self.cell_pos(font_size));
        self.encode_report(button, false, false, font_size)
    }

    /// Encodes a button press. The button is recorded as pressed and as the
    /// last pressed one whether or not presses are reported.
    pub fn encode_press(&mut self, button: PointerButton, font_size: (u32, u32)) -> (r: Vec<u8>)
        requires
            old(self).report_filter != PointerReportFilter::Off ==> old(self).report_ok(
                xterm_code(button),
                false,
                font_size,
            ),
        ensures
            final(self).button_state == old(self).button_state.with_pressed(button),
            final(self).last_pressed == Some(button),
            old(self).report_filter != PointerReportFilter::Off ==> {
                &&& *final(self) == (Pointer {
                    button_state: old(self).button_state.with_pressed(button),
                    last_pressed: Some(button),
                    last_cell: Some(old(self).cell_of(font_size)),
                    ..*old(self)
                })
                &&& r@ == old(self).report(xterm_code(button), false, false, font_size)
            },
            old(self).report_filter == PointerReportFilter::Off ==> {
                &&& *final(self) == (Pointer {
                    button_state: old(self).button_state.with_pressed(button),
                    last_pressed: Some(button),
                    ..*old(self)
                })
                &&& r@.len() == 0
            },
    {
        self.button_state.press(button);
        self.last_pressed = Some(button);
        if !self.report_filter.report_press() {
            return Vec::new();
        }
        self.last_cell = Some(self.cell_pos(font_size));
        self.encode_report(button.to_xterm_code(), false, false, font_size)
    }

    /// The last pressed button after `button` was released: the lowest
    /// pressed button when `button` was the last pressed one.
    pub open spec fn last_after_release(&self, button: PointerButton) -> Option<PointerButton> {
        if self.last_pressed == Some(button) {
            lowest_pressed(self.button_state.with_released(button).mask())
        } else {
            self.last_pressed
        }
    }

    /// The button code and release flag of a release report: SGR reports the
    /// button and marks the release, the other encodings report button 3.
    pub open spec fn release_code(&self, button: PointerButton) -> (u8, bool) {
        if self.report_encoding == PointerReportEncoding::SGR {
            (xterm_code(button), true)
        } else {
            (3u8, false)
        }
    }

    /// Encodes a button release. Releases are reported in every mode but X10.
    pub fn encode_release(&mut self, button: PointerButton, font_size: (u32, u32)) -> (r: Vec<u8>)
        requires
            old(self).report_filter != PointerReportFilter::Off && old(self).report_filter
                != PointerReportFilter::X10 ==> old(self).report_ok(
                old(self).release_code(button).0,
                false,
                font_size,
            ),
        ensures
            old(self).report_filter != PointerReportFilter::Off && old(self).report_filter
                != PointerReportFilter::X10 ==> {
                &&& *final(self) == (Pointer {
                    button_state: old(self).button_state.with_released(button),
                    last_pressed: old(self).last_after_release(button),
                    last_cell: Some(old(self).cell_of(font_size)),
                    ..*old(self)
                })
                &&& r@ == old(self).report(
                    old(self).release_code(button).0,
                    false,
                    old(self).release_code(button).1,
                    font_size,
                )
            },
            old(self).report_filter == PointerReportFilter::Off || old(self).report_filter
                == PointerReportFilter::X10 ==> {
                &&& *final(self) == (Pointer {
                    button_state: old(self).button_state.with_released(button),
                    last_pressed: old(self).last_after_release(button),
                    ..*old(self)
                })
                &&& r@.len() == 0
            },
    {
        let mut buttons = self.button_state;
        buttons.release(button);
        let was_last = match self.last_pressed {
            Some(b) => b == button,
            None => false,
        };
        let last = if was_last {
            buttons.first_pressed()
        } else {
            self.last_pressed
        };
        if !self.report_filter.report_release() {
            *self = Pointer { button_state: buttons, last_pressed: last, ..*self };
            return Vec::new();
        }
        let cell = self.cell_pos(font_size);
        let r = match self.report_encoding {
            PointerReportEncoding::SGR => self.encode_report(button.to_xterm_code(), false, true, font_size),
            _ => self.encode_report(3, false, false, font_size),
        };
        *self = Pointer { button_state: buttons, last_pressed: last, last_cell: Some(cell), ..*self };
        r
    }

    /// The pointer entered the terminal area; nothing is reported.
    pub fn encode_enter(&mut self, font_size: (u32, u32)) -> (r: Vec<u8>)
        ensures
            *final(self) == (Pointer { captured: true, ..*old(self) }),
            r@.len() == 0,
    {
        self.captured = true;
        Vec::new()
    }

    /// The pointer left the terminal area; nothing is reported.
    pub fn encode_leave(&mut self, font_size: (u32, u32)) -> (r: Vec<u8>)
        ensures
            *final(self) == (Pointer { captured: false, ..*old(self) }),
            r@.len() == 0,
    {
        self.captured = false;
        Vec::new()
    }

    /// Forgets the cell of the last report, so that the next motion is
    /// reported even within the same cell.
    pub fn forget_cell(&mut self)
        ensures
            *final(self) == (Pointer { last_cell: None, ..*old(self) }),
    {
        self.last_cell = None;
    }

    /// A move to the current position: the motion report of
    /// [`Pointer::encode_move`] when one is due and can be built, with the
    /// pointer it leaves; otherwise the pointer unchanged and no report.
    pub closed spec fn move_result(self, font_size: (u32, u32)) -> (Pointer, Seq<u8>) {
        let code = self.motion_code();
        if self.motion_reported() && self.last_cell != Some(self.cell_of(font_size)) && self.report_ok(
            code,
            true,
            font_size,
        ) {
            (Pointer { last_cell: Some(self.cell_of(font_size)), ..self }, self.report(code, true, false, font_size))
        } else {
            (self, Seq::empty())
        }
    }

    /// A press of `button`: recorded as pressed and last pressed; reported
    /// as [`Pointer::encode_press`] does when presses are reported and the
    /// report can be built.
    pub closed spec fn press_result(self, button: PointerButton, font_size: (u32, u32)) -> (Pointer, Seq<u8>) {
        let code = xterm_code(button);
        let q = Pointer { button_state: self.button_state.with_pressed(button), last_pressed: Some(button), ..self };
        if self.report_filter != PointerReportFilter::Off && self.report_ok(code, false, font_size) {
            (Pointer { last_cell: Some(self.cell_of(font_size)), ..q }, self.report(code, false, false, font_size))
        } else {
            (q, Seq::empty())
        }
    }

    /// A release of `button`: recorded; reported as
    /// [`Pointer::encode_release`] does when releases are reported and the
    /// report can be built.
    pub closed spec fn release_result(self, button: PointerButton, font_size: (u32, u32)) -> (Pointer, Seq<u8>) {
        let code = self.release_code(button);
        let q = Pointer {
            button_state: self.button_state.with_released(button),
            last_pressed: self.last_after_release(button),
            ..self
        };
        if self.report_filter != PointerReportFilter::Off && self.report_filter != PointerReportFilter::X10
            && self.report_ok(code.0, false, font_size) {
            (Pointer { last_cell: Some(self.cell_of(font_size)), ..q }, self.report(code.0, false, code.1, font_size))
        } else {
            (q, Seq::empty())
        }
    }

    /// A wheel notch in `direction`, when wheel events are reported and the
    /// report can be built: the pointer it leaves and the report.
    pub closed spec fn wheel_result(self, direction: ScrollDirection, font_size: (u32, u32)) -> Option<(Pointer, Seq<u8>)> {
        let code = wheel_code(direction);
        if self.report_filter != PointerReportFilter::Off && self.report_ok(code, false, font_size) {
            Some((Pointer { last_cell: Some(self.cell_of(font_size)), ..self }, self.report(code, false, false, font_size)))
        } else {
            None
        }
    }

    /// Handles a move to the current position (see
    /// [`Pointer::move_result`]).
    pub fn handle_move(&mut self, font_size: (u32, u32)) -> (r: Vec<u8>)
        ensures
            *final(self) == old(self).move_result(font_size).0,
            r@ == old(self).move_result(font_size).1,
    {
        let code: u8 = match self.last_pressed {
            Some(b) => b.to_xterm_code(),
            None => 3,
        };
        let reported = self.report_filter.report_motion(self.button_state.num_pressed() > 0);
        if !reported || self.can_report(code, true, font_size) {
            self.move_checked(font_size)
        } else {
            Vec::new()
        }
    }

    /// A move whose motion report, if due, can be built.
    fn move_checked(&mut self, font_size: (u32, u32)) -> (r: Vec<u8>)
        requires
            old(self).motion_reported() ==> old(self).report_ok(old(self).motion_code(), true, font_size),
        ensures
            *final(self) == old(self).move_result(font_size).0,
            r@ == old(self).move_result(font_size).1,
    {
        self.encode_move(font_size)
    }

    /// Handles a press of `button` (see [`Pointer::press_result`]).
    pub fn handle_press(&mut self, button: PointerButton, font_size: (u32, u32)) -> (r: Vec<u8>)
        ensures
            *final(self) == old(self).press_result(button, font_size).0,
            r@ == old(self).press_result(button, font_size).1,
    {
        let code = button.to_xterm_code();
        let ok = self.can_report(code, false, font_size);
        if !self.reporting() || ok {
            self.press_reported(button, font_size)
        } else {
            self.press_unreported(button, font_size);
            Vec::new()
        }
    }

    /// A press whose report, if due, can be built.
    fn press_reported(&mut self, button: PointerButton, font_size: (u32, u32)) -> (r: Vec<u8>)
        requires
            old(self).report_filter != PointerReportFilter::Off ==> old(self).report_ok(xterm_code(button), false, font_size),
        ensures
            *final(self) == old(self).press_result(button, font_size).0,
            r@ == old(self).press_result(button, font_size).1,
    {
        self.encode_press(button, font_size)
    }

    /// A press whose report cannot be built: only recorded.
    fn press_unreported(&mut self, button: PointerButton, font_size: (u32, u32))
        requires
            old(self).report_filter != PointerReportFilter::Off,
            !old(self).report_ok(xterm_code(button), false, font_size),
        ensures
            *final(self) == old(self).press_result(button, font_size).0,
            old(self).press_result(button, font_size).1.len() == 0,
    {
        self.button_state.press(button);
        self.last_pressed = Some(button);
    }

    /// Handles a release of `button` (see [`Pointer::release_result`]).
    pub fn handle_release(&mut self, button: PointerButton, font_size: (u32, u32)) -> (r: Vec<u8>)
        ensures
            *final(self) == old(self).release_result(button, font_size).0,
            r@ == old(self).release_result(button, font_size).1,
    {
        let code: u8 = match self.report_encoding {
            PointerReportEncoding::SGR => button.to_xterm_code(),
            _ => 3,
        };
        if !self.report_filter.report_release() || self.can_report(code, false, font_size) {
            self.release_checked(button, font_size)
        } else {
            self.release_unreported(button, font_size);
            Vec::new()
        }
    }

    /// A release whose report, if due, can be built.
    fn release_checked(&mut self, button: PointerButton, font_size: (u32, u32)) -> (r: Vec<u8>)
        requires
            old(self).report_filter != PointerReportFilter::Off && old(self).report_filter
                != PointerReportFilter::X10 ==> old(self).report_ok(old(self).release_code(button).0, false, font_size),
        ensures
            *final(self) == old(self).release_result(button, font_size).0,
            r@ == old(self).release_result(button, font_size).1,
    {
        self.encode_release(button, font_size)
    }

    /// A release whose report cannot be built: only recorded.
    fn release_unreported(&mut self, button: PointerButton, font_size: (u32, u32))
        requires
            old(self).report_filter != PointerReportFilter::Off,
            old(self).report_filter != PointerReportFilter::X10,
            !old(self).report_ok(old(self).release_code(button).0, false, font_size),
        ensures
            *final(self) == old(self).release_result(button, font_size).0,
            old(self).release_result(button, font_size).1.len() == 0,
    {
        let mut buttons = self.button_state;
        buttons.release(button);
        let was_last = match self.last_pressed {
            Some(b) => b == button,
            None => false,
        };
        if was_last {
            self.last_pressed = buttons.first_pressed();
        }
        self.button_state = buttons;
    }

    /// Handles a wheel notch (see [`Pointer::wheel_result`]); `None` when
    /// it is not reported, the pointer then unchanged.
    pub fn handle_wheel(&mut self, direction: ScrollDirection, font_size: (u32, u32)) -> (r: Option<Vec<u8>>)
        ensures
            match old(self).wheel_result(direction, font_size) {
                Some((q, bytes)) => *final(self) == q && r is Some && r->0@ == bytes,
                None => *final(self) == *old(self) && r is None,
            },
    {
        let code: u8 = match direction {
            ScrollDirection::Up => 64,
            ScrollDirection::Down => 65,
            ScrollDirection::Left => 66,
            ScrollDirection::Right => 67,
        };
        if self.reporting() && self.can_report(code, false, font_size) {
            Some(self.encode_scroll(direction, font_size))
        } else {
            None
        }
    }

    /// Encodes a focus change; reported only with mode 1004 enabled.
    pub fn encode_focus(&self, gained: bool) -> (r: Vec<u8>)
        ensures
            self.enabled_1004 ==> r@ == focus_report(gained),
            !self.enabled_1004 ==> r@.len() == 0,
    {
        if !self.enabled_1004 {
            return Vec::new();
        }
        let r = vec![0x1bu8, 0x5bu8, if gained { 0x49u8 } else { 0x4fu8 }];
        assert(r@ =~= focus_report(gained));
        r
    }
}

/// `v` clamped into `lo..=hi`.
fn clamp_i32(v: i32, lo: i32, hi: i32) -> (r: i32)
    requires
        lo <= hi,
    ensures
        r == clamp(v as int, lo as int, hi as int),
{
    if v < lo {
        lo
    } else if v > hi {
        hi
    } else {
        v
    }
}

/// The legacy report: `ESC [ M` and three bytes offset by 32.
fn encode_legacy(b: u8, x: i32, y: i32) -> (r: Vec<u8>)
    requires
        b + 32 <= 255,
        x < i32::MAX,
        y < i32::MAX,
    ensures
        r@ == legacy_report(b, x as int, y as int),
{
    let cx = clamp_i32(x + 1, 1, 223) as u8;
    let cy = clamp_i32(y + 1, 1, 223) as u8;
    let r = vec![0x1bu8, 0x5bu8, 0x4du8, b + 32, cx + 32, cy + 32];
    assert(r@ =~= legacy_report(b, x as int, y as int));
    r
}

/// The UTF-8 report: `ESC [ M` and three characters offset by 32.
fn encode_utf8(b: u8, x: i32, y: i32) -> (r: Vec<u8>)
    requires
        x < i32::MAX,
        y < i32::MAX,
    ensures
        r@ == utf8_report(b, x as int, y as int),
{
    let cb = b as u32 + 32;
    let cx = (clamp_i32(x + 1, 1, 2015) + 32) as u32;
    let cy = (clamp_i32(y + 1, 1, 2015) + 32) as u32;
    let mut out: Vec<u8> = vec![0x1bu8, 0x5bu8, 0x4du8];
    push_scalar(&mut out, cb);
    push_scalar(&mut out, cx);
    push_scalar(&mut out, cy);
    assert(out@ =~= utf8_report(b, x as int, y as int));
    out
}

/// The SGR report: `ESC [ < b ; x ; y` and `m` or `M`.
fn encode_sgr(b: u8, x: i32, y: i32, release: bool) -> (r: Vec<u8>)
    requires
        x < i32::MAX,
        y < i32::MAX,
    ensures
        r@ == sgr_report(b, x as int, y as int, release),
{
    let cx = clamp_i32(x + 1, 1, 99999) as u32;
    let cy = clamp_i32(y + 1, 1, 99999) as u32;
    let mut out: Vec<u8> = vec![0x1bu8, 0x5bu8, 0x3cu8];
    push_decimal(&mut out, b as u32);
    out.push(0x3bu8);
    push_decimal(&mut out, cx);
    out.push(0x3bu8);
    push_decimal(&mut out, cy);
    out.push(if release { 0x6du8 } else { 0x4du8 });
    assert(out@ =~= sgr_report(b, x as int, y as int, release));
    out
}

/// The URXVT report: `ESC [ b+32 ; x ; y M`.
fn encode_urxvt(b: u8, x: i32, y: i32) -> (r: Vec<u8>)
    requires
        b + 32 <= 255,
        x < i32::MAX,
        y < i32::MAX,
    ensures
        r@ == urxvt_report(b, x as int, y as int),
{
    let cx = clamp_i32(x + 1, 1, 99999) as u32;
    let cy = clamp_i32(y + 1, 1, 99999) as u32;
    let mut out: Vec<u8> = vec![0x1bu8, 0x5bu8];
    push_decimal(&mut out, (b + 32) as u32);
    out.push(0x3bu8);
    push_decimal(&mut out, cx);
    out.push(0x3bu8);
    push_decimal(&mut out, cy);
    out.push(0x4du8);
    assert(out@ =~= urxvt_report(b, x as int, y as int));
    out
}


/// Setting a mouse mode is reflected by its DECRQM status: 1 when set and 2
/// when reset; filter and encoding then agree with the enabled modes.
pub proof fn law_mode_status_after_set(p: Pointer, mode: u16, enable: bool)
    requires
        is_mouse_mode(mode),
    ensures
        p.with_flag(mode, enable).recalculated().mode_status(mode) == (if enable { 1u8 } else { 2u8 }),
        p.with_flag(mode, enable).recalculated().modes_consistent(),
{
}

/// Setting a mouse mode leaves the DECRQM status of every other mode as it was.
pub proof fn law_mode_status_of_others(p: Pointer, mode: u16, enable: bool, other: u16)
    requires
        other != mode,
    ensures
        p.with_flag(mode, enable).recalculated().mode_status(other) == p.mode_status(other),
{
}

/// After a reset no mouse mode is set, nothing is reported, coordinates are
/// encoded the legacy way and no button is held.
pub proof fn law_reset_clears_modes(p: Pointer, mode: u16)
    requires
        is_mouse_mode(mode),
    ensures
        ({
            let q = Pointer { x: p.x, y: p.y, scroll_speed: p.scroll_speed, ..Pointer::initial() };
            &&& q.mode_status(mode) == 2
            &&& q.report_filter == PointerReportFilter::Off
            &&& q.report_encoding == PointerReportEncoding::Legacy
            &&& q.button_state.mask() == 0
            &&& q.modes_consistent()
        }),
{
    PointerButtonState::lemma_none_pressed();
}

/// Releasing a button that was just pressed leaves it released, and neither
/// touches any other button.
pub proof fn law_press_release(s: PointerButtonState, b: PointerButton, o: PointerButton)
    ensures
        s.with_pressed(b).pressed(b),
        !s.with_pressed(b).with_released(b).pressed(b),
        o != b ==> s.with_pressed(b).with_released(b).pressed(o) == s.pressed(o),
{
    s.lemma_masks(b);
    s.with_pressed(b).lemma_masks(b);
    let m = s.mask();
    let i = button_index(b);
    let j = button_index(o);
    assert(i < 5 && j < 5);
    assert(((m | (1u32 << i)) & (1u32 << i)) != 0) by (bit_vector)
        requires i < 5;
    assert((((m | (1u32 << i)) & !(1u32 << i)) & (1u32 << i)) == 0) by (bit_vector)
        requires i < 5;
    assert(i != j ==> ((((m | (1u32 << i)) & !(1u32 << i)) & (1u32 << j)) != 0) == ((m & (1u32 << j)) != 0))
        by (bit_vector)
        requires i < 5, j < 5;
}

/// The encoding follows the coordinate modes alone: enabling SGR coordinates
/// on a fresh pointer selects the SGR encoding without starting to report.
pub proof fn law_encoding_independent_of_filter(p: Pointer, enable: bool)
    requires
        p.modes_consistent(),
        !p.enabled_9 && !p.enabled_1000 && !p.enabled_1001 && !p.enabled_1002 && !p.enabled_1003,
    ensures
        p.with_flag(1006, true).recalculated().report_encoding == PointerReportEncoding::SGR,
        p.with_flag(1006, true).recalculated().report_filter == PointerReportFilter::Off,
        p.with_flag(1016, enable).recalculated().report_filter == PointerReportFilter::Off,
{
}

/// What a call does to the pressed buttons: `encode_press` presses its
/// button, `encode_release` releases its button, `reset_modes` releases
/// every button, and every other call of a pointer keeps them.
pub enum ButtonOp {
    Press(PointerButton),
    Release(PointerButton),
    Clear,
    Keep,
}

/// The state after the calls `ops`, in order, starting from `s`.
pub open spec fn after_button_ops(s: PointerButtonState, ops: Seq<ButtonOp>) -> PointerButtonState
    decreases ops.len(),
{
    if ops.len() == 0 {
        s
    } else {
        let prev = after_button_ops(s, ops.drop_last());
        match ops.last() {
            ButtonOp::Press(b) => prev.with_pressed(b),
            ButtonOp::Release(b) => prev.with_released(b),
            ButtonOp::Clear => PointerButtonState::none_pressed(),
            ButtonOp::Keep => prev,
        }
    }
}

/// Whether call `i` of `ops` presses `b` and no later call releases it or
/// releases every button.
pub open spec fn pressed_last(ops: Seq<ButtonOp>, b: PointerButton, i: int) -> bool {
    &&& 0 <= i < ops.len()
    &&& ops[i] == ButtonOp::Press(b)
    &&& forall|j: int| i < j < ops.len() ==> #[trigger] ops[j] != ButtonOp::Release(b) && ops[j] != ButtonOp::Clear
}

impl PointerButtonState {
    /// Pressing a button twice leaves the state of pressing it once.
    pub proof fn law_press_idempotent(self, b: PointerButton)
        ensures
            self.with_pressed(b).with_pressed(b) == self.with_pressed(b),
    {
        let f = self.flags;
        let i = button_index(b);
        assert((f | (1u32 << i)) | (1u32 << i) == f | (1u32 << i)) by (bit_vector);
    }

    /// Pressing a released button and releasing it again gives back the
    /// state before.
    pub proof fn law_press_release(self, b: PointerButton)
        requires
            !self.pressed(b),
        ensures
            self.with_pressed(b).with_released(b) == self,
    {
        let f = self.flags;
        let i = button_index(b);
        assert(f & (1u32 << i) == 0 ==> (f | (1u32 << i)) & !(1u32 << i) == f) by (bit_vector);
    }

    /// Pressing or releasing a button changes only that button.
    pub proof fn law_other_buttons(self, b: PointerButton, c: PointerButton)
        requires
            b != c,
        ensures
            self.with_pressed(b).pressed(b),
            !self.with_released(b).pressed(b),
            self.with_pressed(b).pressed(c) == self.pressed(c),
            self.with_released(b).pressed(c) == self.pressed(c),
    {
        let f = self.flags;
        let i = button_index(b);
        let j = button_index(c);
        assert(i != j);
        assert(i < 5 && j < 5 && i != j ==> {
            &&& (f | (1u32 << i)) & (1u32 << i) != 0
            &&& (f & !(1u32 << i)) & (1u32 << i) == 0
            &&& ((f | (1u32 << i)) & (1u32 << j) != 0) == (f & (1u32 << j) != 0)
            &&& ((f & !(1u32 << i)) & (1u32 << j) != 0) == (f & (1u32 << j) != 0)
        }) by (bit_vector);
    }

    /// Starting with no button pressed, a button is pressed after a sequence
    /// of calls exactly when the sequence presses it after it last releases
    /// it and after the last clear.
    pub proof fn law_button_sequence(ops: Seq<ButtonOp>, b: PointerButton)
        ensures
            after_button_ops(Self::none_pressed(), ops).pressed(b) <==> exists|i: int| pressed_last(ops, b, i),
        decreases ops.len(),
    {
        let bi = button_index(b);
        assert(0u32 & (1u32 << bi) == 0) by (bit_vector);
        if ops.len() > 0 {
            let prefix = ops.drop_last();
            let n = ops.len() - 1;
            Self::law_button_sequence(prefix, b);
            let prev = after_button_ops(Self::none_pressed(), prefix);
            match ops.last() {
                ButtonOp::Press(c) => {
                    if c == b {
                        prev.law_other_buttons(c, if b == PointerButton::Left { PointerButton::Right } else { PointerButton::Left });
                        assert(pressed_last(ops, b, n));
                    } else {
                        prev.law_other_buttons(c, b);
                    }
                },
                ButtonOp::Release(c) => {
                    if c != b {
                        prev.law_other_buttons(c, b);
                    } else {
                        prev.law_other_buttons(c, if b == PointerButton::Left { PointerButton::Right } else { PointerButton::Left });
                    }
                },
                ButtonOp::Clear => {},
                ButtonOp::Keep => {},
            }
            if exists|i: int| pressed_last(prefix, b, i) {
                let i = choose|i: int| pressed_last(prefix, b, i);
                if !(ops.last() == ButtonOp::Release(b) || ops.last() == ButtonOp::Clear) {
                    assert forall|j: int| i < j < ops.len() implies #[trigger] ops[j] != ButtonOp::Release(b) && ops[j]
                        != ButtonOp::Clear by {
                        if j < n {
                            assert(ops[j] == prefix[j]);
                        }
                    }
                    assert(pressed_last(ops, b, i));
                }
            }
            if exists|i: int| pressed_last(ops, b, i) {
                let i = choose|i: int| pressed_last(ops, b, i);
                assert(ops[n] == ops.last());
                if i < n {
                    assert(ops[n] != ButtonOp::Release(b) && ops[n] != ButtonOp::Clear);
                    assert forall|j: int| i < j < prefix.len() implies #[trigger] prefix[j] != ButtonOp::Release(b)
                        && prefix[j] != ButtonOp::Clear by {
                        assert(ops[j] == prefix[j]);
                    }
                    assert(pressed_last(prefix, b, i));
                }
            }
        }
    }
}

/// A call that changes the mouse modes.
pub enum ModeOp {
    /// `set_dec_mode(mode, enable)`.
    Mode(u16, bool),
    /// `reset_modes()`.
    Reset,
}

/// The pointer after mode call `op`.
pub open spec fn mode_step(p: Pointer, op: ModeOp) -> Pointer {
    match op {
        ModeOp::Mode(mode, enable) => if is_mouse_mode(mode) {
            p.with_flag(mode, enable).recalculated()
        } else {
            p
        },
        ModeOp::Reset => Pointer { x: p.x, y: p.y, scroll_speed: p.scroll_speed, ..Pointer::initial() },
    }
}

/// The pointer after the mode calls `ops`, in order, starting from `p`.
pub open spec fn after_mode_ops(p: Pointer, ops: Seq<ModeOp>) -> Pointer
    decreases ops.len(),
{
    if ops.len() == 0 {
        p
    } else {
        mode_step(after_mode_ops(p, ops.drop_last()), ops.last())
    }
}

/// One more mode call takes one more step.
pub proof fn lemma_mode_push(p: Pointer, op: ModeOp)
    ensures
        forall|ops: Seq<ModeOp>| #[trigger] after_mode_ops(p, ops.push(op)) == mode_step(after_mode_ops(p, ops), op),
{
    assert forall|ops: Seq<ModeOp>| #[trigger] after_mode_ops(p, ops.push(op)) == mode_step(after_mode_ops(p, ops), op) by {
        assert(ops.push(op).drop_last() =~= ops);
    }
}

/// Whether a pointer reports mouse events: mode 9 or one of 1000 to 1003 is
/// enabled.
pub open spec fn reporting_modes(p: Pointer) -> bool {
    p.enabled_9 || p.enabled_1000 || p.enabled_1001 || p.enabled_1002 || p.enabled_1003
}

/// For every pointer that mode calls reach from a new one, reporting is on
/// exactly when mode 9 or one of 1000 to 1003 is enabled; the other mouse
/// modes alone never turn it on.
pub proof fn law_reporting_modes(ops: Seq<ModeOp>)
    ensures
        (after_mode_ops(Pointer::initial(), ops).report_filter != PointerReportFilter::Off) <==> reporting_modes(
            after_mode_ops(Pointer::initial(), ops),
        ),
    decreases ops.len(),
{
    if ops.len() > 0 {
        law_reporting_modes(ops.drop_last());
    }
}


/// For every pointer that mode calls reach from a new one, the report
/// encoding follows the enabled modes: SGR exactly when 1006 or 1016 is
/// enabled; otherwise URXVT exactly when 1015 is; otherwise UTF-8 exactly
/// when 1005 is; the legacy encoding when none of the four is.
pub proof fn law_report_encoding(ops: Seq<ModeOp>)
    ensures
        ({
            let q = after_mode_ops(Pointer::initial(), ops);
            &&& (q.report_encoding == PointerReportEncoding::SGR) <==> (q.enabled_1006 || q.enabled_1016)
            &&& (q.report_encoding == PointerReportEncoding::URXVT) <==> (q.enabled_1015 && !q.enabled_1006
                && !q.enabled_1016)
            &&& (q.report_encoding == PointerReportEncoding::UTF8) <==> (q.enabled_1005 && !q.enabled_1015
                && !q.enabled_1006 && !q.enabled_1016)
            &&& (q.report_encoding == PointerReportEncoding::Legacy) <==> !(q.enabled_1005 || q.enabled_1006
                || q.enabled_1015 || q.enabled_1016)
        }),
    decreases ops.len(),
{
    if ops.len() > 0 {
        law_report_encoding(ops.drop_last());
    }
}

/// Enabling a coordinate mode (what `set_dec_mode(mode, true)` does) picks
/// its encoding unless one that takes precedence is on: 1006 or 1016 picks
/// SGR always; 1015 picks URXVT unless 1006 or 1016 is on; 1005 picks UTF-8
/// unless 1006, 1015 or 1016 is on. Turning 1015 off with 1005 on and 1006
/// and 1016 off falls back to UTF-8.
pub proof fn law_enable_encoding(p: Pointer, mode: u16)
    ensures
        (mode == 1006 || mode == 1016) ==> p.with_flag(mode, true).recalculated().report_encoding
            == PointerReportEncoding::SGR,
        mode == 1015 && !p.enabled_1006 && !p.enabled_1016 ==> p.with_flag(mode, true).recalculated().report_encoding
            == PointerReportEncoding::URXVT,
        mode == 1005 && !p.enabled_1006 && !p.enabled_1015 && !p.enabled_1016 ==> p.with_flag(
            mode,
            true,
        ).recalculated().report_encoding == PointerReportEncoding::UTF8,
        mode == 1015 && p.enabled_1005 && !p.enabled_1006 && !p.enabled_1016 ==> p.with_flag(
            mode,
            false,
        ).recalculated().report_encoding == PointerReportEncoding::UTF8,
{
}

} // verus!
