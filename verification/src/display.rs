//! Plain console-facing data: font and cursor kinds, the adjustable display
//! settings that shell commands read and write, and the opaque buffer
//! statistics snapshot a framebuffer owner reports.
//!
//! Pixel pushing itself is the renderer's business and stays outside this
//! crate; what lives here is the state those commands decide about.

use vstd::prelude::*;

verus! {

/// The text faces the console can render.
#[derive(Clone, Copy, Debug, PartialEq, Eq, Structural)]
pub enum FontKind {
    Vga8,
    Terminus8x16,
    Spleen8x16,
}

impl FontKind {
    /// Pixel scale a face is drawn at unless overridden.
    pub fn default_scale(self) -> (r: usize)
        ensures
            r == (if self is Vga8 {
                2int
            } else {
                1int
            }),
    {
        match self {
            FontKind::Vga8 => 2,
            FontKind::Terminus8x16 => 1,
            FontKind::Spleen8x16 => 1,
        }
    }
}

/// A position given in character cells.
#[derive(Clone, Copy, Debug, PartialEq, Eq, Structural)]
pub enum DrawPos {
    Char(usize, usize),
}

/// Horizontal placement of a HUD fragment.
#[derive(Clone, Copy, Debug, PartialEq, Eq, Structural)]
pub enum HudAlign {
    Left,
    Center,
    Right,
}

/// Shape of the text cursor.
#[derive(Clone, Copy, Debug, PartialEq, Eq, Structural)]
pub enum CursorStyle {
    Underscore,
    Line,
    Block,
    Hidden,
}

/// Blink behaviour of the text cursor; `Off` means a steady cursor.
#[derive(Clone, Copy, Debug, PartialEq, Eq, Structural)]
pub enum CursorBlink {
    Off,
    Pulse,
    Fade,
}

/// Sizes of the display buffers, reported by the framebuffer owner and
/// passed through the memory overview untouched.
#[derive(Clone, Copy, Debug, PartialEq, Eq, Structural)]
pub struct DisplayBufferStats {
    pub framebuffer_bytes: usize,
    pub backbuffer_bytes: usize,
    pub width_px: usize,
    pub height_px: usize,
    pub stride_px: usize,
    pub bytes_per_pixel: usize,
}

/// The console knobs that shell commands adjust: font, colors and cursor.
pub struct ConsoleSettings {
    font_kind: FontKind,
    cursor_style: CursorStyle,
    cursor_blink: CursorBlink,
    cursor_color: u32,
    fg: u32,
    bg: u32,
}

impl ConsoleSettings {
    pub closed spec fn font(&self) -> FontKind {
        self.font_kind
    }

    pub closed spec fn style(&self) -> CursorStyle {
        self.cursor_style
    }

    pub closed spec fn blink(&self) -> CursorBlink {
        self.cursor_blink
    }

    pub closed spec fn cursor(&self) -> u32 {
        self.cursor_color
    }

    pub closed spec fn text_color(&self) -> u32 {
        self.fg
    }

    pub closed spec fn back_color(&self) -> u32 {
        self.bg
    }

    /// The values the console boots with.
    pub fn new() -> (s: ConsoleSettings)
        ensures
            s.font() == FontKind::Vga8,
            s.style() == CursorStyle::Line,
            s.blink() == CursorBlink::Pulse,
            s.cursor() == 0xFFFFFFu32,
            s.text_color() == 0xCCCCCCu32,
            s.back_color() == 0u32,
    {
        ConsoleSettings {
            font_kind: FontKind::Vga8,
            cursor_style: CursorStyle::Line,
            cursor_blink: CursorBlink::Pulse,
            cursor_color: 0xFFFFFF,
            fg: 0xCCCCCC,
            bg: 0x000000,
        }
    }

    pub fn set_font(&mut self, kind: FontKind)
        ensures
            final(self).font() == kind,
            final(self).style() == old(self).style(),
            final(self).blink() == old(self).blink(),
            final(self).cursor() == old(self).cursor(),
            final(self).text_color() == old(self).text_color(),
            final(self).back_color() == old(self).back_color(),
    {
        self.font_kind = kind;
    }

    pub fn current_font(&self) -> (r: FontKind)
        ensures
            r == self.font(),
    {
        self.font_kind
    }

    pub fn set_cursor_style(&mut self, style: CursorStyle)
        ensures
            final(self).style() == style,
            final(self).font() == old(self).font(),
            final(self).blink() == old(self).blink(),
            final(self).cursor() == old(self).cursor(),
            final(self).text_color() == old(self).text_color(),
            final(self).back_color() == old(self).back_color(),
    {
        self.cursor_style = style;
    }

    pub fn set_cursor_blink(&mut self, blink: CursorBlink)
        ensures
            final(self).blink() == blink,
            final(self).font() == old(self).font(),
            final(self).style() == old(self).style(),
            final(self).cursor() == old(self).cursor(),
            final(self).text_color() == old(self).text_color(),
            final(self).back_color() == old(self).back_color(),
    {
        self.cursor_blink = blink;
    }

    pub fn set_cursor_color(&mut self, color: u32)
        ensures
            final(self).cursor() == color,
            final(self).font() == old(self).font(),
            final(self).style() == old(self).style(),
            final(self).blink() == old(self).blink(),
            final(self).text_color() == old(self).text_color(),
            final(self).back_color() == old(self).back_color(),
    {
        self.cursor_color = color;
    }

    pub fn set_default_fg(&mut self, color: u32)
        ensures
            final(self).text_color() == color,
            final(self).font() == old(self).font(),
            final(self).style() == old(self).style(),
            final(self).blink() == old(self).blink(),
            final(self).cursor() == old(self).cursor(),
            final(self).back_color() == old(self).back_color(),
    {
        self.fg = color;
    }

    pub fn set_default_bg(&mut self, color: u32)
        ensures
            final(self).back_color() == color,
            final(self).font() == old(self).font(),
            final(self).style() == old(self).style(),
            final(self).blink() == old(self).blink(),
            final(self).cursor() == old(self).cursor(),
            final(self).text_color() == old(self).text_color(),
    {
        self.bg = color;
    }

    pub fn set_default_colors(&mut self, fg: u32, bg: u32)
        ensures
            final(self).text_color() == fg,
            final(self).back_color() == bg,
            final(self).font() == old(self).font(),
            final(self).style() == old(self).style(),
            final(self).blink() == old(self).blink(),
            final(self).cursor() == old(self).cursor(),
    {
        self.fg = fg;
        self.bg = bg;
    }

    pub fn default_colors(&self) -> (r: (u32, u32))
        ensures
            r.0 == self.text_color(),
            r.1 == self.back_color(),
    {
        (self.fg, self.bg)
    }

    pub fn default_fg(&self) -> (r: u32)
        ensures
            r == self.text_color(),
    {
        self.fg
    }

    pub fn default_bg(&self) -> (r: u32)
        ensures
            r == self.back_color(),
    {
        self.bg
    }
}

} // verus!
