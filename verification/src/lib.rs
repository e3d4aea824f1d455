//! A terminal emulator core: ANSI escape-sequence processing, a character
//! buffer with scrollback and an alternate screen, mouse-report encoding, and
//! drawing the screen on pixel surfaces.

pub mod helper;
pub mod ansi_color;
pub mod color;
pub mod types;
pub mod cell;
pub mod utf8;
pub mod event;
pub mod pointer;
pub mod row;
pub mod primary;
pub mod alternate;
pub mod buffer;
pub mod terminal;
pub mod parser;
pub mod drawable;
pub mod keyboard;
pub mod glyph;
pub mod render;
pub mod screen;
pub mod ansi_backend;
pub mod handler;
