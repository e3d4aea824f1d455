//! Input events that the terminal handles: key input, clipboard requests,
//! color scheme switches, scrolling and pointer events.

use vstd::prelude::*;

use crate::pointer::PointerButton;

verus! {

/// A scrolling direction.
#[derive(Debug, Clone, Copy, PartialEq, Eq, PartialOrd, Ord, Hash, Structural)]
pub enum ScrollDirection {
    Up,
    Down,
    Left,
    Right,
}

/// A unified input event.
#[derive(Debug, Clone, PartialEq, Eq)]
pub enum Event {
    /// A single character (an ordinary key press).
    Char(char),
    /// Several bytes of input that do not form a single character.
    Bytes(Vec<u8>),
    /// A predefined string, such as a function key sequence.
    String(&'static str),
    /// A copy request.
    Copy,
    /// A paste request.
    Paste,
    /// Switch to a built-in color scheme.
    SetColorScheme(usize),
    /// Scrolling, from any source.
    Scroll {
        direction: ScrollDirection,
        count: u32,
        /// Scroll by pages rather than lines.
        page: bool,
    },
    /// The pointer moved to new pixel coordinates.
    PointerMove(i32, i32),
    /// A pointer button was pressed.
    PointerPress(PointerButton),
    /// A pointer button was released.
    PointerRelease(PointerButton),
    /// The pointer entered the terminal area.
    PointerEnter,
    /// The pointer left the terminal area.
    PointerLeave,
    /// The window gained or lost focus.
    Focus(bool),
}

/// The event that `Event::scroll(lines)` builds.
pub open spec fn scroll_event(lines: i32) -> Event {
    Event::Scroll {
        direction: if lines < 0 { ScrollDirection::Down } else { ScrollDirection::Up },
        count: (if lines < 0 { -(lines as int) } else { lines as int }) as u32,
        page: false,
    }
}

impl Event {
    /// Line scrolling: a positive count scrolls up, a negative one down.
    pub fn scroll(lines: i32) -> (r: Self)
        ensures
            r == scroll_event(lines),
    {
        let count: u32 = if lines < 0 {
            if lines == i32::MIN { 0x8000_0000u32 } else { (-lines) as u32 }
        } else {
            lines as u32
        };
        Event::Scroll {
            direction: if lines < 0 { ScrollDirection::Down } else { ScrollDirection::Up },
            count,
            page: false,
        }
    }

    /// Scrolling along the axis that moved more (vertical on a tie); `None`
    /// when neither moved.
    pub fn scroll_xy(dx: i32, dy: i32) -> (r: Option<Self>)
        ensures
            dx == 0 && dy == 0 ==> r is None,
            !(dx == 0 && dy == 0) && abs(dy as int) >= abs(dx as int) ==> r == Some(scroll_event(dy)),
            !(dx == 0 && dy == 0) && abs(dy as int) < abs(dx as int) ==> r == Some(
                Event::Scroll {
                    direction: if dx < 0 { ScrollDirection::Left } else { ScrollDirection::Right },
                    count: abs(dx as int) as u32,
                    page: false,
                },
            ),
    {
        if dx == 0 && dy == 0 {
            return None;
        }
        let ax: u32 = if dx < 0 { if dx == i32::MIN { 0x8000_0000u32 } else { (-dx) as u32 } } else { dx as u32 };
        let ay: u32 = if dy < 0 { if dy == i32::MIN { 0x8000_0000u32 } else { (-dy) as u32 } } else { dy as u32 };
        if ay >= ax {
            Some(Self::scroll(dy))
        } else {
            Some(Event::Scroll {
                direction: if dx < 0 { ScrollDirection::Left } else { ScrollDirection::Right },
                count: ax,
                page: false,
            })
        }
    }
}

/// The absolute value.
pub open spec fn abs(v: int) -> int {
    if v < 0 { -v } else { v }
}

} // verus!
