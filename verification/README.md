# shitty

A terminal emulator core whose behaviour is stated in contracts and proved
with Verus: it parses a program's output (text, C0 controls, `ESC`, CSI with
SGR and DEC private modes, OSC titles and clipboard writes), keeps the
screen with scrollback and an alternate screen, encodes mouse and keyboard
input the way xterm does, queues what it needs from its host (bytes for
the program, a title, a bell, clipboard access) as outputs, and draws the
screen on a pixel surface.

Layout:

- `src/` — the verified library
  - `parser.rs` — the escape sequence state machine, specified byte by byte
  - `ansi_backend.rs` — a second front end that lets the ansi-parser crate
    read each escape sequence
  - `handler.rs` — terminal operations for a front end that reports
    control functions by callback (the vte crate's, driven from `app/`)
  - `terminal.rs` — the terminal: every operation as a function on its model
  - `buffer.rs`, `primary.rs`, `alternate.rs`, `row.rs` — the screens and
    the history, their reflow on resize
  - `pointer.rs`, `event.rs`, `keyboard.rs` — mouse reports, input events,
    key mapping
  - `glyph.rs` — glyph pixels in their storage layouts, and the font
    renderers that need no font file
  - `render.rs`, `screen.rs` — glyphs as the font buffer keeps them, the
    render cells of a screen, and flushing a screen to a pixel surface
  - `cell.rs`, `ansi_color.rs`, `color.rs`, `drawable.rs`, `types.rs`,
    `utf8.rs`, `helper.rs` — cells, colors, palettes, pixel surfaces and
    small helpers
- `tests/` — tests against the compiled library
- `app/` — a headless host program that runs a command through the terminal
  (`--parser builtin|ansi-parser|vte` picks the front end) and draws its
  frames into a pixel buffer
