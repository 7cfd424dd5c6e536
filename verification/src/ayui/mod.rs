//! AYUI desktop: compositor and window manager, software rasteriser with an
//! 8x8 bitmap font, terminal grid, notifications, clipboard, monitors and themes.

pub mod raster;
pub mod terminal;
pub mod compositor;

use vstd::prelude::*;

verus! {

pub const MAX_WINDOWS: usize = 64;
pub const MAX_EVENTS: usize = 128;
pub const MAX_WIDTH: u32 = 16384;
pub const MAX_HEIGHT: u32 = 16384;
pub const MAX_NOTIFICATIONS: usize = 16;
pub const MAX_MONITORS: usize = 4;
pub const MAX_CLIPBOARD_LEN: usize = 1024;
pub const TERM_ROWS: usize = 25;
pub const TERM_COLS: usize = 80;

#[derive(Clone, Copy, Debug, PartialEq, Eq, Structural)]
pub struct Rect {
    pub x: i32,
    pub y: i32,
    pub width: u32,
    pub height: u32,
}

impl Rect {
    pub open spec fn spec_valid(self) -> bool {
        self.width > 0 && self.height > 0 && self.width <= MAX_WIDTH && self.height <= MAX_HEIGHT
    }

    /// A non-empty rectangle no larger than 16384 x 16384.
    pub fn valid(self) -> (r: bool)
        ensures
            r == self.spec_valid(),
    {
        self.width > 0 && self.height > 0 && self.width <= MAX_WIDTH && self.height <= MAX_HEIGHT
    }

    pub open spec fn spec_contains(self, px: int, py: int) -> bool {
        self.x <= px < self.x + (self.width as i32) && self.y <= py < self.y + (self.height as i32)
    }

    /// Whether the point lies inside (left and top edges inclusive).
    pub fn contains(&self, px: i32, py: i32) -> (r: bool)
        requires
            px >= self.x ==> i32::MIN <= self.x + (self.width as i32) <= i32::MAX,
            px >= self.x && px < self.x + (self.width as i32) && py >= self.y
                ==> i32::MIN <= self.y + (self.height as i32) <= i32::MAX,
        ensures
            r == self.spec_contains(px as int, py as int),
    {
        px >= self.x && px < self.x + (self.width as i32) && py >= self.y && py < self.y + (self.height as i32)
    }
}

#[derive(Clone, Copy, Debug, PartialEq, Eq, Structural)]
pub struct Color {
    pub r: u8,
    pub g: u8,
    pub b: u8,
    pub a: u8,
}

impl Color {
    pub fn black() -> (c: Color)
        ensures c == (Color { r: 0, g: 0, b: 0, a: 255 }),
    {
        Color { r: 0, g: 0, b: 0, a: 255 }
    }

    pub fn white() -> (c: Color)
        ensures c == (Color { r: 255, g: 255, b: 255, a: 255 }),
    {
        Color { r: 255, g: 255, b: 255, a: 255 }
    }

    pub fn red() -> (c: Color)
        ensures c == (Color { r: 255, g: 0, b: 0, a: 255 }),
    {
        Color { r: 255, g: 0, b: 0, a: 255 }
    }

    pub fn green() -> (c: Color)
        ensures c == (Color { r: 0, g: 255, b: 0, a: 255 }),
    {
        Color { r: 0, g: 255, b: 0, a: 255 }
    }

    pub fn blue() -> (c: Color)
        ensures c == (Color { r: 0, g: 120, b: 215, a: 255 }),
    {
        Color { r: 0, g: 120, b: 215, a: 255 }
    }

    pub fn dark_gray() -> (c: Color)
        ensures c == (Color { r: 32, g: 32, b: 32, a: 255 }),
    {
        Color { r: 32, g: 32, b: 32, a: 255 }
    }

    pub fn light_gray() -> (c: Color)
        ensures c == (Color { r: 192, g: 192, b: 192, a: 255 }),
    {
        Color { r: 192, g: 192, b: 192, a: 255 }
    }

    pub fn yellow() -> (c: Color)
        ensures c == (Color { r: 255, g: 255, b: 0, a: 255 }),
    {
        Color { r: 255, g: 255, b: 0, a: 255 }
    }
}

#[derive(Clone, Copy, Debug, PartialEq, Eq, Structural)]
pub struct WindowId(pub u16);

#[derive(Clone, Copy, Debug, PartialEq, Eq, Structural)]
pub enum AppType {
    Launcher,
    Shell,
    Terminal,
    FileManager,
    Settings,
    SystemMonitor,
    TextEditor,
    PackageCenter,
    UpdateCenter,
    Recovery,
    Generic,
}

#[derive(Clone, Copy, Debug, PartialEq, Eq)]
pub struct Window {
    pub id: WindowId,
    pub bounds: Rect,
    pub visible: bool,
    pub focused: bool,
    pub minimized: bool,
    pub maximized: bool,
    pub bg_color: Color,
    pub app_type: AppType,
    pub title_len: usize,
    pub title_bytes: [u8; 32],
}

#[derive(Clone, Copy, Debug, PartialEq, Eq, Structural)]
pub enum InputEvent {
    Pointer { x: i32, y: i32, buttons: u8 },
    Key { code: u16, pressed: bool },
}

#[derive(Clone, Copy, Debug, PartialEq, Eq, Structural)]
pub enum UiError {
    Full,
    InvalidRect,
    InvalidWindow,
    InvalidEvent,
    BufferTooSmall,
}

#[derive(Clone, Copy, Debug, PartialEq, Eq, Structural)]
pub struct Theme {
    pub bg_color: Color,
    pub window_border: Color,
    pub titlebar_active: Color,
    pub titlebar_inactive: Color,
    pub text_color: Color,
    pub accent_color: Color,
    pub dark_mode: bool,
}

impl Theme {
    pub open spec fn spec_default_dark() -> Theme {
        Theme {
            bg_color: Color { r: 24, g: 28, b: 36, a: 255 },
            window_border: Color { r: 60, g: 64, b: 72, a: 255 },
            titlebar_active: Color { r: 0, g: 120, b: 215, a: 255 },
            titlebar_inactive: Color { r: 45, g: 50, b: 60, a: 255 },
            text_color: Color { r: 255, g: 255, b: 255, a: 255 },
            accent_color: Color { r: 0, g: 153, b: 255, a: 255 },
            dark_mode: true,
        }
    }

    pub fn default_dark() -> (t: Theme)
        ensures
            t == Theme::spec_default_dark(),
    {
        Theme {
            bg_color: Color { r: 24, g: 28, b: 36, a: 255 },
            window_border: Color { r: 60, g: 64, b: 72, a: 255 },
            titlebar_active: Color { r: 0, g: 120, b: 215, a: 255 },
            titlebar_inactive: Color { r: 45, g: 50, b: 60, a: 255 },
            text_color: Color::white(),
            accent_color: Color { r: 0, g: 153, b: 255, a: 255 },
            dark_mode: true,
        }
    }
}

#[derive(Clone, Copy, Debug, PartialEq, Eq, Structural)]
pub struct Accessibility {
    pub high_contrast: bool,
    pub large_text: bool,
    pub screen_reader_active: bool,
    pub sticky_keys: bool,
}

impl Accessibility {
    pub fn new() -> (a: Accessibility)
        ensures
            a == (Accessibility { high_contrast: false, large_text: false, screen_reader_active: false, sticky_keys: false }),
    {
        Accessibility { high_contrast: false, large_text: false, screen_reader_active: false, sticky_keys: false }
    }
}

impl Default for Accessibility {
    fn default() -> (a: Accessibility)
        ensures
            a == (Accessibility { high_contrast: false, large_text: false, screen_reader_active: false, sticky_keys: false }),
    {
        Accessibility::new()
    }
}

/// A bounded clipboard holding one byte string.
pub struct Clipboard {
    data: [u8; MAX_CLIPBOARD_LEN],
    len: usize,
}

impl Clipboard {
    pub closed spec fn wf(&self) -> bool {
        self.len <= MAX_CLIPBOARD_LEN
    }

    /// The clipboard's contents.
    pub closed spec fn contents(&self) -> Seq<u8> {
        self.data@.subrange(0, self.len as int)
    }

    pub fn new() -> (c: Clipboard)
        ensures
            c.wf(),
            c.contents() == Seq::<u8>::empty(),
    {
        let c = Clipboard { data: [0; MAX_CLIPBOARD_LEN], len: 0 };
        assert(c.contents() =~= Seq::<u8>::empty());
        c
    }

    /// Replaces the contents with `src`, which must fit in 1024 bytes.
    pub fn copy(&mut self, src: &[u8]) -> (r: Result<(), UiError>)
        requires
            old(self).wf(),
        ensures
            final(self).wf(),
            src@.len() > MAX_CLIPBOARD_LEN ==> r == Err::<(), UiError>(UiError::BufferTooSmall) && final(self).contents() == old(self).contents(),
            src@.len() <= MAX_CLIPBOARD_LEN ==> r == Ok::<(), UiError>(()) && final(self).contents() == src@,
    {
        if src.len() > MAX_CLIPBOARD_LEN {
            return Err(UiError::BufferTooSmall);
        }
        let mut i: usize = 0;
        while i < src.len()
            invariant
                i <= src@.len() <= MAX_CLIPBOARD_LEN,
                self.data@.len() == MAX_CLIPBOARD_LEN,
                forall|j: int| 0 <= j < i ==> self.data@[j] == src@[j],
            decreases src@.len() - i,
        {
            self.data[i] = src[i];
            i += 1;
        }
        self.len = src.len();
        assert(self.contents() =~= src@);
        Ok(())
    }

    /// Copies as much of the contents as fits into `dst`; returns how many bytes.
    pub fn paste(&self, dst: &mut [u8]) -> (n: usize)
        requires
            self.wf(),
        ensures
            n == (if self.contents().len() < old(dst)@.len() { self.contents().len() } else { old(dst)@.len() }),
            final(dst)@ == self.contents().subrange(0, n as int) + old(dst)@.subrange(n as int, old(dst)@.len() as int),
    {
        let copy_len = if self.len < dst.len() { self.len } else { dst.len() };
        let mut i: usize = 0;
        while i < copy_len
            invariant
                copy_len <= self.len <= MAX_CLIPBOARD_LEN,
                copy_len <= dst@.len(),
                dst@.len() == old(dst)@.len(),
                i <= copy_len,
                self.data@.len() == MAX_CLIPBOARD_LEN,
                forall|j: int| 0 <= j < i ==> dst@[j] == self.data@[j],
                forall|j: int| i <= j < dst@.len() ==> dst@[j] == old(dst)@[j],
            decreases copy_len - i,
        {
            dst[i] = self.data[i];
            i += 1;
        }
        assert(dst@ =~= self.contents().subrange(0, copy_len as int) + old(dst)@.subrange(copy_len as int, old(dst)@.len() as int));
        copy_len
    }

    pub fn text(&self) -> (t: &[u8])
        requires
            self.wf(),
        ensures
            t@ == self.contents(),
    {
        let t = self.data.as_slice();
        slice_prefix(t, self.len)
    }
}

fn slice_prefix(s: &[u8], n: usize) -> (t: &[u8])
    requires
        n <= s@.len(),
    ensures
        t@ == s@.subrange(0, n as int),
{
    &s[0..n]
}

impl Default for Clipboard {
    fn default() -> (c: Clipboard)
        ensures
            c.wf(),
            c.contents() == Seq::<u8>::empty(),
    {
        Clipboard::new()
    }
}

#[derive(Clone, Copy, Debug, PartialEq, Eq, Structural)]
pub struct Monitor {
    pub id: u8,
    pub bounds: Rect,
    pub primary: bool,
    pub gpu_accelerated: bool,
}

/// 8x8 bitmap font for ASCII 0x20 (' ') through 0x7E ('~'); each row's most
/// significant bit is the leftmost pixel.
pub const FONT_8X8: [[u8; 8]; 95] = [
    [0x00, 0x00, 0x00, 0x00, 0x00, 0x00, 0x00, 0x00],
    [0x18, 0x18, 0x18, 0x18, 0x18, 0x00, 0x18, 0x00],
    [0x66, 0x66, 0x66, 0x00, 0x00, 0x00, 0x00, 0x00],
    [0x66, 0x66, 0xFF, 0x66, 0xFF, 0x66, 0x66, 0x00],
    [0x18, 0x7E, 0x18, 0x3C, 0x18, 0x7E, 0x18, 0x00],
    [0x00, 0x63, 0x6C, 0x18, 0x30, 0x66, 0x43, 0x00],
    [0x38, 0x6C, 0x38, 0x76, 0xDC, 0xCC, 0x76, 0x00],
    [0x18, 0x18, 0x30, 0x00, 0x00, 0x00, 0x00, 0x00],
    [0x0C, 0x18, 0x30, 0x30, 0x30, 0x18, 0x0C, 0x00],
    [0x30, 0x18, 0x0C, 0x0C, 0x0C, 0x18, 0x30, 0x00],
    [0x00, 0x66, 0x3C, 0xFF, 0x3C, 0x66, 0x00, 0x00],
    [0x00, 0x18, 0x18, 0x7E, 0x18, 0x18, 0x00, 0x00],
    [0x00, 0x00, 0x00, 0x00, 0x18, 0x18, 0x30, 0x00],
    [0x00, 0x00, 0x00, 0x7E, 0x00, 0x00, 0x00, 0x00],
    [0x00, 0x00, 0x00, 0x00, 0x00, 0x18, 0x18, 0x00],
    [0x06, 0x0C, 0x18, 0x30, 0x60, 0xC0, 0x80, 0x00],
    [0x3C, 0x66, 0x6E, 0x76, 0x66, 0x66, 0x3C, 0x00],
    [0x18, 0x38, 0x18, 0x18, 0x18, 0x18, 0x7E, 0x00],
    [0x3C, 0x66, 0x0C, 0x18, 0x30, 0x60, 0x7E, 0x00],
    [0x3C, 0x66, 0x06, 0x1C, 0x06, 0x66, 0x3C, 0x00],
    [0x0C, 0x1C, 0x3C, 0x6C, 0xFE, 0x0C, 0x0C, 0x00],
    [0x7E, 0x60, 0x7C, 0x06, 0x06, 0x66, 0x3C, 0x00],
    [0x3C, 0x66, 0x60, 0x7C, 0x66, 0x66, 0x3C, 0x00],
    [0x7E, 0x66, 0x0C, 0x18, 0x18, 0x18, 0x18, 0x00],
    [0x3C, 0x66, 0x66, 0x3C, 0x66, 0x66, 0x3C, 0x00],
    [0x3C, 0x66, 0x66, 0x3E, 0x06, 0x66, 0x3C, 0x00],
    [0x00, 0x18, 0x18, 0x00, 0x18, 0x18, 0x00, 0x00],
    [0x00, 0x18, 0x18, 0x00, 0x18, 0x18, 0x30, 0x00],
    [0x0C, 0x18, 0x30, 0x60, 0x30, 0x18, 0x0C, 0x00],
    [0x00, 0x00, 0x7E, 0x00, 0x7E, 0x00, 0x00, 0x00],
    [0x30, 0x18, 0x0C, 0x06, 0x0C, 0x18, 0x30, 0x00],
    [0x3C, 0x66, 0x0C, 0x18, 0x18, 0x00, 0x18, 0x00],
    [0x3C, 0x66, 0x6E, 0x6E, 0x60, 0x62, 0x3C, 0x00],
    [0x18, 0x3C, 0x66, 0x66, 0x7E, 0x66, 0x66, 0x00],
    [0x7C, 0x66, 0x66, 0x7C, 0x66, 0x66, 0x7C, 0x00],
    [0x3C, 0x66, 0x60, 0x60, 0x60, 0x66, 0x3C, 0x00],
    [0x78, 0x6C, 0x66, 0x66, 0x66, 0x6C, 0x78, 0x00],
    [0x7E, 0x60, 0x60, 0x78, 0x60, 0x60, 0x7E, 0x00],
    [0x7E, 0x60, 0x60, 0x78, 0x60, 0x60, 0x60, 0x00],
    [0x3C, 0x66, 0x60, 0x6E, 0x66, 0x66, 0x3E, 0x00],
    [0x66, 0x66, 0x66, 0x7E, 0x66, 0x66, 0x66, 0x00],
    [0x3C, 0x18, 0x18, 0x18, 0x18, 0x18, 0x3C, 0x00],
    [0x1E, 0x0C, 0x0C, 0x0C, 0x0C, 0x6C, 0x38, 0x00],
    [0x66, 0x6C, 0x78, 0x70, 0x78, 0x6C, 0x66, 0x00],
    [0x60, 0x60, 0x60, 0x60, 0x60, 0x60, 0x7E, 0x00],
    [0x63, 0x77, 0x7F, 0x6B, 0x63, 0x63, 0x63, 0x00],
    [0x66, 0x76, 0x7E, 0x7E, 0x6E, 0x66, 0x66, 0x00],
    [0x3C, 0x66, 0x66, 0x66, 0x66, 0x66, 0x3C, 0x00],
    [0x7C, 0x66, 0x66, 0x7C, 0x60, 0x60, 0x60, 0x00],
    [0x3C, 0x66, 0x66, 0x66, 0x66, 0x3C, 0x0E, 0x00],
    [0x7C, 0x66, 0x66, 0x7C, 0x70, 0x68, 0x66, 0x00],
    [0x3C, 0x66, 0x60, 0x3C, 0x06, 0x66, 0x3C, 0x00],
    [0x7E, 0x18, 0x18, 0x18, 0x18, 0x18, 0x18, 0x00],
    [0x66, 0x66, 0x66, 0x66, 0x66, 0x66, 0x3C, 0x00],
    [0x66, 0x66, 0x66, 0x66, 0x66, 0x3C, 0x18, 0x00],
    [0x63, 0x63, 0x63, 0x6B, 0x7F, 0x77, 0x63, 0x00],
    [0x66, 0x66, 0x3C, 0x18, 0x3C, 0x66, 0x66, 0x00],
    [0x66, 0x66, 0x66, 0x3C, 0x18, 0x18, 0x18, 0x00],
    [0x7E, 0x06, 0x0C, 0x18, 0x30, 0x60, 0x7E, 0x00],
    [0x3C, 0x30, 0x30, 0x30, 0x30, 0x30, 0x3C, 0x00],
    [0x80, 0x40, 0x20, 0x10, 0x08, 0x04, 0x02, 0x00],
    [0x3C, 0x0C, 0x0C, 0x0C, 0x0C, 0x0C, 0x3C, 0x00],
    [0x18, 0x3C, 0x66, 0x00, 0x00, 0x00, 0x00, 0x00],
    [0x00, 0x00, 0x00, 0x00, 0x00, 0x00, 0xFF, 0x00],
    [0x30, 0x18, 0x0C, 0x00, 0x00, 0x00, 0x00, 0x00],
    [0x00, 0x00, 0x3C, 0x06, 0x3E, 0x66, 0x3E, 0x00],
    [0x60, 0x60, 0x7C, 0x66, 0x66, 0x66, 0x7C, 0x00],
    [0x00, 0x00, 0x3C, 0x66, 0x60, 0x66, 0x3C, 0x00],
    [0x06, 0x06, 0x3E, 0x66, 0x66, 0x66, 0x3E, 0x00],
    [0x00, 0x00, 0x3C, 0x66, 0x7E, 0x60, 0x3C, 0x00],
    [0x1C, 0x30, 0x7C, 0x30, 0x30, 0x30, 0x30, 0x00],
    [0x00, 0x00, 0x3E, 0x66, 0x66, 0x3E, 0x06, 0x7C],
    [0x60, 0x60, 0x6C, 0x76, 0x66, 0x66, 0x66, 0x00],
    [0x18, 0x00, 0x38, 0x18, 0x18, 0x18, 0x3C, 0x00],
    [0x06, 0x00, 0x0E, 0x06, 0x06, 0x06, 0x66, 0x3C],
    [0x60, 0x60, 0x66, 0x6C, 0x78, 0x6C, 0x66, 0x00],
    [0x38, 0x18, 0x18, 0x18, 0x18, 0x18, 0x3C, 0x00],
    [0x00, 0x00, 0x66, 0x7F, 0x7F, 0x6B, 0x63, 0x00],
    [0x00, 0x00, 0x7C, 0x66, 0x66, 0x66, 0x66, 0x00],
    [0x00, 0x00, 0x3C, 0x66, 0x66, 0x66, 0x3C, 0x00],
    [0x00, 0x00, 0x7C, 0x66, 0x66, 0x7C, 0x60, 0x60],
    [0x00, 0x00, 0x3E, 0x66, 0x66, 0x3E, 0x06, 0x06],
    [0x00, 0x00, 0x6C, 0x76, 0x60, 0x60, 0x60, 0x00],
    [0x00, 0x00, 0x3E, 0x60, 0x3C, 0x06, 0x7C, 0x00],
    [0x18, 0x18, 0x7E, 0x18, 0x18, 0x18, 0x0E, 0x00],
    [0x00, 0x00, 0x66, 0x66, 0x66, 0x66, 0x3E, 0x00],
    [0x00, 0x00, 0x66, 0x66, 0x66, 0x3C, 0x18, 0x00],
    [0x00, 0x00, 0x63, 0x6B, 0x7F, 0x3E, 0x36, 0x00],
    [0x00, 0x00, 0x66, 0x3C, 0x18, 0x3C, 0x66, 0x00],
    [0x00, 0x00, 0x66, 0x66, 0x66, 0x3E, 0x06, 0x7C],
    [0x00, 0x00, 0x7E, 0x0C, 0x18, 0x30, 0x7E, 0x00],
    [0x0E, 0x18, 0x18, 0x70, 0x18, 0x18, 0x0E, 0x00],
    [0x18, 0x18, 0x18, 0x18, 0x18, 0x18, 0x18, 0x00],
    [0x70, 0x18, 0x18, 0x0E, 0x18, 0x18, 0x70, 0x00],
    [0x32, 0x4C, 0x00, 0x00, 0x00, 0x00, 0x00, 0x00],
];

/// The glyph drawn for `ch`: its font entry when printable, otherwise '?'.
pub open spec fn spec_get_glyph(ch: u8) -> [u8; 8] {
    if 32 <= ch <= 126 { FONT_8X8[ch - 32] } else { FONT_8X8[31] }
}

pub fn get_glyph(ch: u8) -> (g: [u8; 8])
    ensures
        g == spec_get_glyph(ch),
{
    if 32 <= ch && ch <= 126 {
        FONT_8X8[(ch - 32) as usize]
    } else {
        FONT_8X8[31]
    }
}

/// Column `col` (0 = leftmost) of a glyph row is set.
pub open spec fn glyph_bit(row_mask: u8, col: int) -> bool {
    row_mask & (1u8 << ((7 - col) as u8)) != 0
}

} // verus!
