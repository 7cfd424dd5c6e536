//! Compositor and window manager: window table, focus, pointer handling,
//! the input event queue, monitors, installed apps and desktop rendering.

use vstd::prelude::*;
use vstd::string::StringSliceAdditionalSpecFns;
use vstd::utf8::valid_utf8;
use crate::table::{compact, count_some};
use super::{AppType, Accessibility, Clipboard, Color, InputEvent, Monitor, Rect, Theme, UiError, Window, WindowId,
    MAX_EVENTS, MAX_HEIGHT, MAX_MONITORS, MAX_WIDTH, MAX_WINDOWS};
use super::raster::{rect_pts, text_pts, Framebuffer, Plot, lemma_plot_all_concat, lemma_plot_all_len, plot_all};

verus! {

/// Every window in `ws` has its focus flag set exactly when its id is `id`.
pub open spec fn focused_on(ws: Seq<Option<Window>>, id: WindowId) -> Seq<Option<Window>> {
    Seq::new(ws.len(), |i: int| match ws[i] {
        Some(w) => Some(Window { focused: w.id == id, ..w }),
        None => None,
    })
}

pub open spec fn win_is(o: Option<Window>, id: WindowId) -> bool {
    o matches Some(w) && w.id == id
}

pub open spec fn has_window(ws: Seq<Option<Window>>, id: WindowId) -> bool {
    exists|i: int| 0 <= i < ws.len() && win_is(#[trigger] ws[i], id)
}

/// `i` is the first slot holding window `id`.
pub open spec fn first_window(ws: Seq<Option<Window>>, id: WindowId, i: int) -> bool {
    &&& 0 <= i < ws.len()
    &&& win_is(ws[i], id)
    &&& forall|j: int| 0 <= j < i ==> !win_is(#[trigger] ws[j], id)
}

/// The window table after destroying the first window `id` (unchanged when there is none).
pub open spec fn without_window(ws: Seq<Option<Window>>, id: WindowId) -> Seq<Option<Window>> {
    if has_window(ws, id) {
        let i = choose|i: int| first_window(ws, id, i);
        ws.update(i, None)
    } else {
        ws
    }
}

/// The size limits every window keeps: a rectangle no larger than
/// 16384 x 16384 and a title of at most 32 bytes.
pub open spec fn window_sized(o: Option<Window>) -> bool {
    o matches Some(w) ==> w.bounds.width <= MAX_WIDTH && w.bounds.height <= MAX_HEIGHT && w.title_len <= 32
}

/// Every window of the table keeps the size limits.
pub open spec fn windows_sized(ws: Seq<Option<Window>>) -> bool {
    forall|i: int| 0 <= i < ws.len() ==> window_sized(#[trigger] ws[i])
}

/// Every window's id is below `next`, the id the next window will get.
pub open spec fn ids_below(ws: Seq<Option<Window>>, next: u16) -> bool {
    forall|i: int| 0 <= i < ws.len() && (#[trigger] ws[i]) is Some ==> ws[i]->Some_0.id.0 < next
}

/// Drawing window `w` keeps every coordinate it computes within `i32`:
/// its right edge (less the 36-pixel mark offset), its title bar and body,
/// and the cells of its title text.
pub open spec fn window_drawable(w: Window) -> bool {
    let right = w.bounds.x + (w.bounds.width as i32);
    let body_h = if w.bounds.height >= 24 { (w.bounds.height - 24) as u32 } else { 0u32 };
    &&& w.title_len <= 32
    &&& i32::MIN + 36 <= right <= i32::MAX
    &&& w.bounds.y <= i32::MAX - 24
    &&& i32::MIN <= w.bounds.y + 24 + (body_h as i32) <= i32::MAX
    &&& w.bounds.x + 8 + 9 * title_text(w).len() <= i32::MAX
}

/// Every window that is drawn (visible and not minimised) is drawable.
pub open spec fn windows_drawable(ws: Seq<Option<Window>>) -> bool {
    forall|i: int| 0 <= i < ws.len() && (#[trigger] ws[i]) is Some && ws[i]->Some_0.visible && !ws[i]->Some_0.minimized
        ==> window_drawable(ws[i]->Some_0)
}

/// A window the pointer drags: focused, visible and not minimised.
pub open spec fn draggable(o: Option<Window>) -> bool {
    o matches Some(w) && w.focused && w.visible && !w.minimized
}

/// Index of the first draggable window at or after `i` (`ws.len()` when none).
pub open spec fn first_draggable(ws: Seq<Option<Window>>, i: int) -> int
    decreases ws.len() - i,
{
    if i >= ws.len() || i < 0 {
        ws.len() as int
    } else if draggable(ws[i]) {
        i
    } else {
        first_draggable(ws, i + 1)
    }
}

/// The window table after a drag by `(dx, dy)`: the first draggable window moves.
pub open spec fn dragged(ws: Seq<Option<Window>>, dx: int, dy: int) -> Seq<Option<Window>> {
    let i = first_draggable(ws, 0);
    if i < ws.len() {
        let w = ws[i]->Some_0;
        ws.update(i, Some(Window { bounds: Rect { x: (w.bounds.x + dx) as i32, y: (w.bounds.y + dy) as i32, ..w.bounds }, ..w }))
    } else {
        ws
    }
}

/// Moving the first draggable window by `(dx, dy)` keeps its corner within `i32`.
pub open spec fn drag_fits(ws: Seq<Option<Window>>, dx: int, dy: int) -> bool {
    let i = first_draggable(ws, 0);
    i < ws.len() ==> {
        let w = ws[i]->Some_0;
        i32::MIN <= w.bounds.x + dx <= i32::MAX && i32::MIN <= w.bounds.y + dy <= i32::MAX
    }
}

/// The window move `push_input(event)` makes stays within `i32`.
pub open spec fn event_fits(c: Compositor, event: InputEvent) -> bool {
    match event {
        InputEvent::Pointer { x, y, buttons } => pointer_in_range(x, y) ==> {
            &&& i32::MIN <= x - c.pointer_x <= i32::MAX && i32::MIN <= y - c.pointer_y <= i32::MAX
            &&& buttons & 1 != 0 && (x != c.pointer_x || y != c.pointer_y) ==> drag_fits(c.windows@, x - c.pointer_x, y - c.pointer_y)
        },
        InputEvent::Key { .. } => true,
    }
}

/// What a press on a window's title bar asks for.
#[derive(Clone, Copy, Debug, PartialEq, Eq, Structural)]
pub enum TitleHit {
    Close(WindowId),
    Minimize(usize),
}

/// A press at `(x, y)` hits a visible window.
pub open spec fn hit(o: Option<Window>, x: i32, y: i32) -> bool {
    o matches Some(w) && w.visible && w.bounds.spec_contains(x as int, y as int)
}

/// Scans the windows from slot `i` for a press at `(x, y)`: the last window hit
/// is to be focused; a hit on a title bar's close or minimise area ends the scan.
pub open spec fn click_scan(ws: Seq<Option<Window>>, x: i32, y: i32, i: int, focus: Option<WindowId>) -> (Option<WindowId>, Option<TitleHit>)
    decreases ws.len() - i,
{
    if i >= ws.len() || i < 0 {
        (focus, None)
    } else if hit(ws[i], x, y) {
        let w = ws[i]->Some_0;
        let right = w.bounds.x + (w.bounds.width as i32);
        if y >= w.bounds.y && y <= w.bounds.y + 24 && x >= right - 20 {
            (Some(w.id), Some(TitleHit::Close(w.id)))
        } else if y >= w.bounds.y && y <= w.bounds.y + 24 && x >= right - 40 {
            (Some(w.id), Some(TitleHit::Minimize(i as usize)))
        } else {
            click_scan(ws, x, y, i + 1, Some(w.id))
        }
    } else {
        click_scan(ws, x, y, i + 1, focus)
    }
}

/// The window table after a press at `(x, y)`.
pub open spec fn clicked(ws: Seq<Option<Window>>, x: i32, y: i32) -> Seq<Option<Window>> {
    let (focus, action) = click_scan(ws, x, y, 0, None);
    match action {
        Some(TitleHit::Close(id)) => without_window(ws, id),
        Some(TitleHit::Minimize(i)) => {
            let w = ws[i as int]->Some_0;
            focused_on(ws.update(i as int, Some(Window { minimized: !w.minimized, ..w })), focus->Some_0)
        },
        None => match focus {
            Some(id) => focused_on(ws, id),
            None => ws,
        },
    }
}

pub open spec fn pointer_in_range(x: i32, y: i32) -> bool {
    -1_048_576 <= x <= 1_048_576 && -1_048_576 <= y <= 1_048_576
}

/// The queue after offering `event`: appended while there is room.
pub open spec fn queued(old: Compositor, event: InputEvent, new: Compositor, r: Result<(), UiError>) -> bool {
    if old.queue().len() == MAX_EVENTS {
        r == Err::<(), UiError>(UiError::Full) && new.queue() == old.queue()
    } else {
        r == Ok::<(), UiError>(()) && new.queue() == old.queue().push(event)
    }
}

/// The queue after one read returned `r`: nothing from an empty queue,
/// otherwise the oldest event, which leaves the queue.
pub open spec fn popped(old: Compositor, new: Compositor, r: Option<InputEvent>) -> bool {
    if old.queue().len() == 0 {
        r is None && new.queue() == old.queue()
    } else {
        r == Some(old.queue()[0]) && new.queue() == old.queue().drop_first()
    }
}

/// The compositor after `push_input(event)` returned `r`.
pub open spec fn input_applied(old: Compositor, event: InputEvent, new: Compositor, r: Result<(), UiError>) -> bool {
    match event {
        InputEvent::Pointer { x, y, buttons } => {
            if !pointer_in_range(x, y) {
                r == Err::<(), UiError>(UiError::InvalidEvent) && new == old
            } else {
                let drag = buttons & 1 != 0 && (x != old.pointer_x || y != old.pointer_y);
                let moved = if drag { dragged(old.windows@, x - old.pointer_x, y - old.pointer_y) } else { old.windows@ };
                let press = old.pointer_buttons & 1 == 0 && buttons & 1 != 0;
                &&& new.windows@ == (if press { clicked(moved, x, y) } else { moved })
                &&& new.start_menu_open == (old.start_menu_open != (press && y >= 560 && x <= 120))
                &&& new.pointer_x == x && new.pointer_y == y && new.pointer_buttons == buttons
                &&& queued(old, event, new, r)
            }
        },
        InputEvent::Key { .. } => {
            &&& new.windows == old.windows && new.start_menu_open == old.start_menu_open
            &&& new.pointer_x == old.pointer_x && new.pointer_y == old.pointer_y
            &&& new.pointer_buttons == old.pointer_buttons
            &&& queued(old, event, new, r)
        },
    }
}

/// The text shown in a window's title bar: its title when that is valid
/// UTF-8, otherwise "App".
pub open spec fn title_text(w: Window) -> Seq<u8> {
    let t = w.title_bytes@.subrange(0, w.title_len as int);
    if valid_utf8(t) { t } else { "App".spec_bytes() }
}

pub open spec fn text_of(x: int, y: int, s: Seq<u8>, c: Color) -> Seq<Plot> {
    text_pts(x, y, s, s.len() as int, c)
}

pub open spec fn white() -> Color {
    Color { r: 255, g: 255, b: 255, a: 255 }
}

/// A visible, non-minimised window: title bar, body, title text, then the
/// minimise and close marks.
pub open spec fn window_pts(w: Window, theme: Theme, fw: u32, fh: u32) -> Seq<Plot> {
    let bx = w.bounds.x as int;
    let by = w.bounds.y as int;
    let right = bx + (w.bounds.width as i32);
    rect_pts(Rect { x: w.bounds.x, y: w.bounds.y, width: w.bounds.width, height: 24 }, fw, fh,
            if w.focused { theme.titlebar_active } else { theme.titlebar_inactive })
        + rect_pts(Rect { x: w.bounds.x, y: (by + 24) as i32, width: w.bounds.width,
            height: if w.bounds.height >= 24 { (w.bounds.height - 24) as u32 } else { 0 } }, fw, fh, w.bg_color)
        + text_of(bx + 8, by + 6, title_text(w), white())
        + text_of(right - 36, by + 6, "-".spec_bytes(), white())
        + text_of(right - 18, by + 6, "X".spec_bytes(), Color { r: 255, g: 0, b: 0, a: 255 })
}

/// The windows of slots `0..n` that are drawn, in slot order.
pub open spec fn windows_pts(ws: Seq<Option<Window>>, theme: Theme, fw: u32, fh: u32, n: int) -> Seq<Plot>
    decreases n,
{
    if n <= 0 {
        Seq::empty()
    } else {
        let rest = windows_pts(ws, theme, fw, fh, n - 1);
        match ws[n - 1] {
            Some(w) => if w.visible && !w.minimized { rest + window_pts(w, theme, fw, fh) } else { rest },
            None => rest,
        }
    }
}

pub open spec fn menu_item(i: int) -> Seq<u8> {
    if i == 0 {
        "1. Terminal".spec_bytes()
    } else if i == 1 {
        "2. FileManager".spec_bytes()
    } else if i == 2 {
        "3. PackageCenter".spec_bytes()
    } else if i == 3 {
        "4. Settings".spec_bytes()
    } else if i == 4 {
        "5. SysMon".spec_bytes()
    } else {
        "6. TextEditor".spec_bytes()
    }
}

/// The start menu: panel, heading and the first `n` application entries.
pub open spec fn menu_pts(fw: u32, fh: u32, n: int) -> Seq<Plot>
    decreases n,
{
    if n <= 0 {
        rect_pts(Rect { x: 10, y: (fh - 260) as i32, width: 220, height: 215 }, fw, fh, Color { r: 30, g: 34, b: 44, a: 255 })
            + text_of(20, fh - 250, "AWE_OS Applications".spec_bytes(), white())
    } else {
        menu_pts(fw, fh, n - 1) + text_of(25, fh - 220 + (n - 1) * 26, menu_item(n - 1), Color { r: 180, g: 190, b: 210, a: 255 })
    }
}

/// The whole desktop: wallpaper, taskbar and its label, the windows, the
/// start menu when open, and the pointer.
pub open spec fn desktop_pts(c: Compositor, fw: u32, fh: u32) -> Seq<Plot> {
    rect_pts(Rect { x: 0, y: 0, width: fw, height: fh }, fw, fh, c.theme.bg_color)
        + rect_pts(Rect { x: 0, y: (fh - 40) as i32, width: fw, height: 40 }, fw, fh, Color { r: 18, g: 20, b: 26, a: 255 })
        + text_of(10, fh - 30, "AWE_OS AYUI Desktop".spec_bytes(), c.theme.text_color)
        + windows_pts(c.windows@, c.theme, fw, fh, MAX_WINDOWS as int)
        + (if c.start_menu_open { menu_pts(fw, fh, 6) } else { Seq::empty() })
        + rect_pts(Rect { x: c.pointer_x, y: c.pointer_y, width: 10, height: 10 }, fw, fh, Color { r: 255, g: 255, b: 0, a: 255 })
}

/// The first `n` bytes of `b`.
fn slice_to(b: &[u8; 32], n: usize) -> (t: &[u8])
    requires
        n <= 32,
    ensures
        t@ == b@.subrange(0, n as int),
{
    let s = b.as_slice();
    &s[0..n]
}

/// `core::str::from_utf8`: the bytes as a string when they are valid UTF-8.
#[verifier::external_body]
fn utf8_str(bytes: &[u8]) -> (r: Option<&str>)
    ensures
        match r {
            Some(s) => valid_utf8(bytes@) && s.spec_bytes() == bytes@,
            None => !valid_utf8(bytes@),
        },
{
    core::str::from_utf8(bytes).ok()
}

pub struct Compositor {
    pub windows: [Option<Window>; MAX_WINDOWS],
    pub events: [Option<InputEvent>; MAX_EVENTS],
    pub event_head: usize,
    pub event_len: usize,
    pub next_id: u16,
    pub monitors: [Option<Monitor>; MAX_MONITORS],
    pub monitor_count: usize,
    pub theme: Theme,
    pub accessibility: Accessibility,
    pub clipboard: Clipboard,
    pub pointer_x: i32,
    pub pointer_y: i32,
    pub pointer_buttons: u8,
    pub start_menu_open: bool,
    pub installed_apps_mask: u32,
}

impl Compositor {
    pub closed spec fn wf(&self) -> bool {
        &&& self.event_head < MAX_EVENTS
        &&& self.event_len <= MAX_EVENTS
        &&& forall|i: int| 0 <= i < self.event_len ==> (#[trigger] self.events@[(self.event_head + i) % (MAX_EVENTS as int)]) is Some
        &&& self.monitor_count <= MAX_MONITORS
        &&& forall|i: int| 0 <= i < self.monitor_count ==> (#[trigger] self.monitors@[i]) is Some
    }

    /// Input events waiting to be read, oldest first.
    pub closed spec fn queue(&self) -> Seq<InputEvent> {
        Seq::new(self.event_len as nat, |i: int| self.events@[(self.event_head + i) % (MAX_EVENTS as int)]->Some_0)
    }

    /// Registered monitors, in registration order.
    pub closed spec fn monitor_list(&self) -> Seq<Monitor> {
        Seq::new(self.monitor_count as nat, |i: int| self.monitors@[i]->Some_0)
    }

    /// The id the next window will get.
    pub closed spec fn next_window_id(&self) -> u16 {
        self.next_id
    }

    /// Only the window table (and nothing else) may differ from `old`.
    pub open spec fn same_but_windows(&self, old: Self) -> bool {
        &&& self.queue() == old.queue() && self.monitor_list() == old.monitor_list()
        &&& self.next_window_id() == old.next_window_id()
        &&& self.theme == old.theme && self.accessibility == old.accessibility
        &&& self.clipboard.contents() == old.clipboard.contents()
        &&& self.pointer_x == old.pointer_x && self.pointer_y == old.pointer_y
        &&& self.pointer_buttons == old.pointer_buttons && self.start_menu_open == old.start_menu_open
        &&& self.installed_apps_mask == old.installed_apps_mask
    }

    pub fn new() -> (c: Self)
        ensures
            c.wf(),
            c.clipboard.wf(),
            forall|i: int| 0 <= i < MAX_WINDOWS ==> (#[trigger] c.windows@[i]) is None,
            windows_sized(c.windows@),
            ids_below(c.windows@, c.next_window_id()),
            c.queue() == Seq::<InputEvent>::empty(),
            c.monitor_list() == Seq::<Monitor>::empty(),
            c.next_window_id() == 1,
            c.theme == Theme::spec_default_dark(),
            c.accessibility == (Accessibility { high_contrast: false, large_text: false, screen_reader_active: false, sticky_keys: false }),
            c.clipboard.contents() == Seq::<u8>::empty(),
            c.pointer_x == 400 && c.pointer_y == 300 && c.pointer_buttons == 0,
            !c.start_menu_open,
            c.installed_apps_mask == 0xFF,
    {
        let mut windows: [Option<Window>; MAX_WINDOWS] = [None; MAX_WINDOWS];
        let mut k: usize = 0;
        while k < MAX_WINDOWS
            invariant
                k <= MAX_WINDOWS,
                forall|i: int| 0 <= i < k ==> (#[trigger] windows@[i]) is None,
            decreases MAX_WINDOWS - k,
        {
            windows[k] = None;
            k += 1;
        }
        let c = Compositor {
            windows,
            events: [None; MAX_EVENTS],
            event_head: 0,
            event_len: 0,
            next_id: 1,
            monitors: [None; MAX_MONITORS],
            monitor_count: 0,
            theme: Theme::default_dark(),
            accessibility: Accessibility::new(),
            clipboard: Clipboard::new(),
            pointer_x: 400,
            pointer_y: 300,
            pointer_buttons: 0,
            start_menu_open: false,
            installed_apps_mask: 0xFF,
        };
        assert(c.queue() =~= Seq::<InputEvent>::empty());
        assert(c.monitor_list() =~= Seq::<Monitor>::empty());
        c
    }

    pub fn toggle_start_menu(&mut self)
        ensures
            final(self).start_menu_open == !old(self).start_menu_open,
            final(self).windows == old(self).windows,
            final(self).same_but_menu(*old(self)),
    {
        self.start_menu_open = !self.start_menu_open;
    }

    /// Everything but the start-menu flag is as in `old`.
    pub open spec fn same_but_menu(&self, old: Self) -> bool {
        &&& self.queue() == old.queue() && self.monitor_list() == old.monitor_list()
        &&& self.next_window_id() == old.next_window_id() && self.windows == old.windows
        &&& self.wf() == old.wf()
        &&& self.pointer_x == old.pointer_x && self.pointer_y == old.pointer_y
        &&& self.pointer_buttons == old.pointer_buttons && self.installed_apps_mask == old.installed_apps_mask
    }

    /// App `app_id` (below 32) is marked installed in `mask`.
    pub open spec fn app_bit(mask: u32, app_id: u8) -> bool {
        app_id < 32 && mask & (1u32 << app_id) != 0
    }

    pub fn install_app_package(&mut self, app_id: u8)
        ensures
            app_id < 32 ==> final(self).installed_apps_mask == old(self).installed_apps_mask | (1u32 << app_id),
            app_id >= 32 ==> final(self).installed_apps_mask == old(self).installed_apps_mask,
            final(self).windows == old(self).windows,
            final(self).start_menu_open == old(self).start_menu_open,
    {
        if app_id < 32 {
            self.installed_apps_mask = self.installed_apps_mask | (1u32 << app_id);
        }
    }

    pub fn remove_app_package(&mut self, app_id: u8)
        ensures
            app_id < 32 ==> final(self).installed_apps_mask == old(self).installed_apps_mask & !(1u32 << app_id),
            app_id >= 32 ==> final(self).installed_apps_mask == old(self).installed_apps_mask,
            final(self).windows == old(self).windows,
            final(self).start_menu_open == old(self).start_menu_open,
    {
        if app_id < 32 {
            self.installed_apps_mask = self.installed_apps_mask & !(1u32 << app_id);
        }
    }

    pub fn is_app_installed(&self, app_id: u8) -> (r: bool)
        ensures
            r == Self::app_bit(self.installed_apps_mask, app_id),
    {
        if app_id < 32 {
            (self.installed_apps_mask & (1u32 << app_id)) != 0
        } else {
            false
        }
    }

    pub fn register_monitor(&mut self, bounds: Rect, primary: bool, gpu_accel: bool) -> (r: Result<u8, UiError>)
        requires
            old(self).wf(),
        ensures
            final(self).wf(),
            final(self).windows == old(self).windows,
            final(self).queue() == old(self).queue(),
            old(self).monitor_list().len() == MAX_MONITORS ==> r == Err::<u8, UiError>(UiError::Full)
                && final(self).monitor_list() == old(self).monitor_list(),
            old(self).monitor_list().len() < MAX_MONITORS ==> {
                let id = old(self).monitor_list().len() as u8;
                &&& r == Ok::<u8, UiError>(id)
                &&& final(self).monitor_list() == old(self).monitor_list().push(Monitor { id, bounds, primary, gpu_accelerated: gpu_accel })
            },
    {
        if self.monitor_count >= MAX_MONITORS {
            return Err(UiError::Full);
        }
        let id = self.monitor_count as u8;
        let ghost before = self.monitor_list();
        let ghost q = self.queue();
        self.monitors[self.monitor_count] = Some(Monitor { id, bounds, primary, gpu_accelerated: gpu_accel });
        self.monitor_count = self.monitor_count + 1;
        assert(self.monitor_list() =~= before.push(Monitor { id, bounds, primary, gpu_accelerated: gpu_accel }));
        assert(self.queue() =~= q);
        Ok(id)
    }

    pub fn create_window(&mut self, bounds: Rect) -> (r: Result<WindowId, UiError>)
        requires
            old(self).wf(),
        ensures
            final(self).wf(),
            final(self).window_created(*old(self), bounds, AppType::Generic, seq![87u8, 105u8, 110u8, 100u8, 111u8, 119u8], r),
            windows_sized(old(self).windows@) ==> windows_sized(final(self).windows@),
    {
        let title: [u8; 6] = [87, 105, 110, 100, 111, 119];
        self.create_app_window(bounds, AppType::Generic, &title)
    }

    /// The title bytes stored for `title`: its first 32 bytes, zero-padded.
    pub open spec fn stored_title(title: Seq<u8>) -> Seq<u8> {
        Seq::new(32, |i: int| if i < title.len() { title[i] } else { 0u8 })
    }

    /// The outcome of creating a window: invalid bounds, no free slot or no
    /// ids left are refused with nothing changed; otherwise the window goes
    /// to the lowest free slot with the next id and takes the focus.
    pub open spec fn window_created(&self, old: Self, bounds: Rect, app_type: AppType, title: Seq<u8>, r: Result<WindowId, UiError>) -> bool {
        let ws = old.windows@;
        if !bounds.spec_valid() {
            r == Err::<WindowId, UiError>(UiError::InvalidRect) && *self == old
        } else if forall|j: int| 0 <= j < MAX_WINDOWS ==> (#[trigger] ws[j]) is Some {
            r == Err::<WindowId, UiError>(UiError::Full) && *self == old
        } else if old.next_window_id() == u16::MAX {
            r == Err::<WindowId, UiError>(UiError::Full) && *self == old
        } else {
            let id = WindowId(old.next_window_id());
            let tl = if title.len() < 32 { title.len() as usize } else { 32usize };
            let w = Window {
                id,
                bounds,
                visible: true,
                focused: false,
                minimized: false,
                maximized: false,
                bg_color: old.theme.bg_color,
                app_type,
                title_len: tl,
                title_bytes: self.windows@[crate::table::first_free_index(ws)]->Some_0.title_bytes,
            };
            &&& r == Ok::<WindowId, UiError>(id)
            &&& self.windows@[crate::table::first_free_index(ws)]->Some_0.title_bytes@ == Self::stored_title(title)
            &&& self.windows@ == focused_on(ws.update(crate::table::first_free_index(ws), Some(w)), id)
            &&& self.next_window_id() == old.next_window_id() + 1
            &&& self.queue() == old.queue() && self.monitor_list() == old.monitor_list()
            &&& self.theme == old.theme && self.pointer_x == old.pointer_x && self.pointer_y == old.pointer_y
            &&& self.pointer_buttons == old.pointer_buttons && self.start_menu_open == old.start_menu_open
            &&& self.installed_apps_mask == old.installed_apps_mask
        }
    }

    pub fn create_app_window(&mut self, bounds: Rect, app_type: AppType, title: &[u8]) -> (r: Result<WindowId, UiError>)
        requires
            old(self).wf(),
        ensures
            final(self).wf(),
            final(self).window_created(*old(self), bounds, app_type, title@, r),
            windows_sized(old(self).windows@) ==> windows_sized(final(self).windows@),
    {
        if !bounds.valid() {
            return Err(UiError::InvalidRect);
        }
        let slot = match crate::table::find_free(&self.windows) {
            Some(i) => i,
            None => {
                return Err(UiError::Full);
            },
        };
        proof {
            crate::table::lemma_first_free_index(self.windows@, slot as int);
        }
        if self.next_id == u16::MAX {
            return Err(UiError::Full);
        }
        let id = WindowId(self.next_id);
        self.next_id = self.next_id + 1;
        let mut title_bytes = [0u8; 32];
        let title_len: usize = if title.len() < 32 { title.len() } else { 32 };
        let mut k: usize = 0;
        while k < title_len
            invariant
                title_len <= 32,
                title_len <= title@.len(),
                k <= title_len,
                title_bytes@.len() == 32,
                forall|j: int| 0 <= j < k ==> title_bytes@[j] == title@[j],
                forall|j: int| k <= j < 32 ==> title_bytes@[j] == 0u8,
            decreases title_len - k,
        {
            title_bytes[k] = title[k];
            k += 1;
        }
        assert(title_bytes@ =~= Self::stored_title(title@));
        self.windows[slot] = Some(Window {
            id,
            bounds,
            visible: true,
            focused: false,
            minimized: false,
            maximized: false,
            bg_color: self.theme.bg_color,
            app_type,
            title_len,
            title_bytes,
        });
        let _ = self.focus(id);
        Ok(id)
    }

    /// Removes the first window with this id.
    pub fn destroy_window(&mut self, id: WindowId) -> (r: Result<(), UiError>)
        ensures
            final(self).windows@ == without_window(old(self).windows@, id),
            windows_sized(old(self).windows@) ==> windows_sized(final(self).windows@),
            ids_below(old(self).windows@, old(self).next_window_id()) ==> ids_below(final(self).windows@, final(self).next_window_id()),
            final(self).same_but_windows(*old(self)),
            final(self).wf() == old(self).wf(),
            r is Ok <==> has_window(old(self).windows@, id),
            r is Err ==> r == Err::<(), UiError>(UiError::InvalidWindow),
    {
        let mut i: usize = 0;
        while i < MAX_WINDOWS
            invariant
                i <= MAX_WINDOWS,
                *self == *old(self),
                self.windows@.len() == MAX_WINDOWS,
                forall|j: int| 0 <= j < i ==> !win_is(#[trigger] self.windows@[j], id),
            decreases MAX_WINDOWS - i,
        {
            if let Some(w) = self.windows[i] {
                if w.id == id {
                    proof {
                        assert(first_window(old(self).windows@, id, i as int));
                        assert(has_window(old(self).windows@, id));
                        let c = choose|c: int| first_window(old(self).windows@, id, c);
                        if c < i { assert(!win_is(old(self).windows@[c], id)); }
                        if c > i { assert(!win_is(old(self).windows@[i as int], id)); }
                    }
                    self.windows[i] = None;
                    return Ok(());
                }
            }
            i += 1;
        }
        Err(UiError::InvalidWindow)
    }

    /// Gives the focus to every window with this id and takes it from all others.
    pub fn focus(&mut self, id: WindowId) -> (r: Result<(), UiError>)
        ensures
            final(self).windows@ == focused_on(old(self).windows@, id),
            windows_sized(old(self).windows@) ==> windows_sized(final(self).windows@),
            ids_below(old(self).windows@, old(self).next_window_id()) ==> ids_below(final(self).windows@, final(self).next_window_id()),
            final(self).same_but_windows(*old(self)),
            final(self).wf() == old(self).wf(),
            r is Ok <==> has_window(old(self).windows@, id),
            r is Err ==> r == Err::<(), UiError>(UiError::InvalidWindow),
    {
        let mut found = false;
        let mut i: usize = 0;
        while i < MAX_WINDOWS
            invariant
                i <= MAX_WINDOWS,
                self.windows@.len() == MAX_WINDOWS,
                self.same_but_windows(*old(self)),
                self.wf() == old(self).wf(),
                found <==> exists|j: int| 0 <= j < i && win_is(#[trigger] old(self).windows@[j], id),
                forall|j: int| 0 <= j < i ==> #[trigger] self.windows@[j] == focused_on(old(self).windows@, id)[j],
                forall|j: int| i <= j < MAX_WINDOWS ==> #[trigger] self.windows@[j] == old(self).windows@[j],
            decreases MAX_WINDOWS - i,
        {
            if let Some(w) = self.windows[i] {
                if w.id == id {
                    self.windows[i] = Some(Window { focused: true, ..w });
                    found = true;
                } else {
                    self.windows[i] = Some(Window { focused: false, ..w });
                }
            }
            proof {
                assert(win_is(old(self).windows@[i as int], id) ==> exists|j: int| 0 <= j < i + 1 && win_is(#[trigger] old(self).windows@[j], id));
            }
            i += 1;
        }
        assert(self.windows@ =~= focused_on(old(self).windows@, id));
        if found {
            Ok(())
        } else {
            Err(UiError::InvalidWindow)
        }
    }

    #[verifier::spinoff_prover]
    #[verifier::rlimit(40)]
    pub fn pop_input(&mut self) -> (r: Option<InputEvent>)
        requires
            old(self).wf(),
        ensures
            final(self).wf(),
            final(self).windows == old(self).windows,
            popped(*old(self), *final(self), r),
    {
        if self.event_len == 0 {
            return None;
        }
        let ghost q = self.queue();
        let event = self.events[self.event_head];
        self.events[self.event_head] = None;
        self.event_head = (self.event_head + 1) % MAX_EVENTS;
        self.event_len = self.event_len - 1;
        assert forall|i: int| 0 <= i < self.event_len implies (#[trigger] self.events@[(self.event_head + i) % (MAX_EVENTS as int)]) is Some by {
            assert((self.event_head + i) % (MAX_EVENTS as int) == (old(self).event_head + (i + 1)) % (MAX_EVENTS as int));
            assert(old(self).events@[(old(self).event_head + (i + 1)) % (MAX_EVENTS as int)] is Some);
        }
        assert(self.queue() =~= q.drop_first()) by {
            assert forall|i: int| 0 <= i < self.event_len implies #[trigger] self.queue()[i] == q.drop_first()[i] by {
                assert((self.event_head + i) % (MAX_EVENTS as int) == (old(self).event_head + (i + 1)) % (MAX_EVENTS as int));
            }
        }
        event
    }

    /// Appends `event` to the queue.
    #[verifier::spinoff_prover]
    #[verifier::rlimit(40)]
    fn enqueue(&mut self, event: InputEvent) -> (r: Result<(), UiError>)
        requires
            old(self).wf(),
        ensures
            final(self).wf(),
            final(self).windows == old(self).windows,
            final(self).same_but_queue(*old(self)),
            old(self).queue().len() == MAX_EVENTS ==> r == Err::<(), UiError>(UiError::Full) && final(self).queue() == old(self).queue(),
            old(self).queue().len() < MAX_EVENTS ==> r == Ok::<(), UiError>(()) && final(self).queue() == old(self).queue().push(event),
    {
        if self.event_len == MAX_EVENTS {
            return Err(UiError::Full);
        }
        let ghost q = self.queue();
        let index = (self.event_head + self.event_len) % MAX_EVENTS;
        self.events[index] = Some(event);
        self.event_len = self.event_len + 1;
        assert forall|i: int| 0 <= i < self.event_len implies (#[trigger] self.events@[(self.event_head + i) % (MAX_EVENTS as int)]) is Some by {
            if i < self.event_len - 1 {
                assert((self.event_head + i) % (MAX_EVENTS as int) != index);
            }
        }
        assert(self.queue() =~= q.push(event)) by {
            assert forall|i: int| 0 <= i < self.event_len implies #[trigger] self.queue()[i] == q.push(event)[i] by {
                if i < self.event_len - 1 {
                    assert((self.event_head + i) % (MAX_EVENTS as int) != index);
                }
            }
        }
        Ok(())
    }

    /// Everything but the event queue is as in `old`.
    pub open spec fn same_but_queue(&self, old: Self) -> bool {
        &&& self.monitor_list() == old.monitor_list() && self.next_window_id() == old.next_window_id()
        &&& self.windows == old.windows && self.theme == old.theme
        &&& self.pointer_x == old.pointer_x && self.pointer_y == old.pointer_y
        &&& self.pointer_buttons == old.pointer_buttons && self.start_menu_open == old.start_menu_open
        &&& self.installed_apps_mask == old.installed_apps_mask
    }


    /// Moves the first draggable window by `(dx, dy)`.
    fn drag_focused(&mut self, dx: i32, dy: i32)
        requires
            windows_sized(old(self).windows@),
            drag_fits(old(self).windows@, dx as int, dy as int),
        ensures
            final(self).windows@ == dragged(old(self).windows@, dx as int, dy as int),
            windows_sized(final(self).windows@),
            ids_below(old(self).windows@, old(self).next_window_id()) ==> ids_below(final(self).windows@, final(self).next_window_id()),
            final(self).same_but_windows(*old(self)),
            final(self).wf() == old(self).wf(),
    {
        let ghost ws = self.windows@;
        let mut i: usize = 0;
        while i < MAX_WINDOWS
            invariant
                i <= MAX_WINDOWS,
                *self == *old(self),
                ws == self.windows@,
                ws.len() == MAX_WINDOWS,
                windows_sized(ws),
                drag_fits(ws, dx as int, dy as int),
                first_draggable(ws, 0) == first_draggable(ws, i as int),
            decreases MAX_WINDOWS - i,
        {
            if let Some(w) = self.windows[i] {
                if w.focused && w.visible && !w.minimized {
                    proof {
                        assert(first_draggable(ws, i as int) == i);
                    }
                    let moved = Window { bounds: Rect { x: w.bounds.x + dx, y: w.bounds.y + dy, ..w.bounds }, ..w };
                    self.windows[i] = Some(moved);
                    proof {
                        assert(window_sized(ws[i as int]));
                        assert forall|j: int| 0 <= j < MAX_WINDOWS implies window_sized(#[trigger] self.windows@[j]) by {
                            if j != i {
                                assert(window_sized(ws[j]));
                            }
                        }
                    }
                    return;
                }
            }
            i += 1;
        }
        proof {
            assert(first_draggable(ws, MAX_WINDOWS as int) == MAX_WINDOWS);
        }
    }

    /// Handles a button press at `(x, y)`: closes, minimises or focuses the
    /// window under the pointer.
    fn press(&mut self, x: i32, y: i32)
        requires
            windows_sized(old(self).windows@),
            pointer_in_range(x, y),
        ensures
            final(self).windows@ == clicked(old(self).windows@, x, y),
            windows_sized(final(self).windows@),
            ids_below(old(self).windows@, old(self).next_window_id()) ==> ids_below(final(self).windows@, final(self).next_window_id()),
            final(self).same_but_windows(*old(self)),
            final(self).wf() == old(self).wf(),
    {
        let ghost ws = self.windows@;
        let mut focus: Option<WindowId> = None;
        let mut action: Option<TitleHit> = None;
        let mut i: usize = 0;
        while i < MAX_WINDOWS
            invariant_except_break
                action is None,
            invariant
                i <= MAX_WINDOWS,
                *self == *old(self),
                ws == self.windows@,
                ws.len() == MAX_WINDOWS,
                windows_sized(ws),
                pointer_in_range(x, y),
                action is None ==> click_scan(ws, x, y, 0, None) == click_scan(ws, x, y, i as int, focus),
            ensures
                click_scan(ws, x, y, 0, None) == (focus, action),
                action matches Some(TitleHit::Minimize(k)) ==> k < MAX_WINDOWS && ws[k as int] is Some && focus is Some,
            decreases MAX_WINDOWS - i,
        {
            if let Some(w) = self.windows[i] {
                proof {
                    assert(window_sized(ws[i as int]));
                }
                if w.visible && w.bounds.contains(x, y) {
                    let wid = w.id;
                    focus = Some(wid);
                    let close_x = w.bounds.x + (w.bounds.width as i32) - 20;
                    let min_x = w.bounds.x + (w.bounds.width as i32) - 40;
                    if y >= w.bounds.y && y <= w.bounds.y + 24 {
                        if x >= close_x {
                            action = Some(TitleHit::Close(wid));
                            break;
                        } else if x >= min_x {
                            action = Some(TitleHit::Minimize(i));
                            break;
                        }
                    }
                }
            }
            i += 1;
        }
        proof {
            if action is None {
                assert(click_scan(ws, x, y, MAX_WINDOWS as int, focus) == (focus, None::<TitleHit>));
            }
        }
        match action {
            Some(TitleHit::Close(wid)) => {
                let _ = self.destroy_window(wid);
            },
            Some(TitleHit::Minimize(k)) => {
                let w = self.windows[k].unwrap();
                self.windows[k] = Some(Window { minimized: !w.minimized, ..w });
                let fid = focus.unwrap();
                let _ = self.focus(fid);
            },
            None => {
                if let Some(fid) = focus {
                    let _ = self.focus(fid);
                }
            },
        }
    }

    /// Records an input event. A pointer event is checked against the
    /// coordinate range, then moves the pointer, drags the focused window
    /// while the button is held, and on a fresh press toggles the start
    /// menu (taskbar corner) and closes, minimises or focuses the window
    /// under the pointer. Every accepted event is queued while there is room.
    pub fn push_input(&mut self, event: InputEvent) -> (r: Result<(), UiError>)
        requires
            old(self).wf(),
            windows_sized(old(self).windows@),
            event_fits(*old(self), event),
        ensures
            final(self).wf(),
            windows_sized(final(self).windows@),
            ids_below(old(self).windows@, old(self).next_window_id()) ==> ids_below(final(self).windows@, final(self).next_window_id()),
            final(self).monitor_list() == old(self).monitor_list(),
            final(self).next_window_id() == old(self).next_window_id(),
            final(self).installed_apps_mask == old(self).installed_apps_mask,
            final(self).theme == old(self).theme,
            input_applied(*old(self), event, *final(self), r),
    {
        match event {
            InputEvent::Pointer { x, y, buttons } => {
                if x < -1_048_576 || y < -1_048_576 || x > 1_048_576 || y > 1_048_576 {
                    return Err(UiError::InvalidEvent);
                }
                let dx = x - self.pointer_x;
                let dy = y - self.pointer_y;
                let was_down = (self.pointer_buttons & 1) != 0;
                let is_down = (buttons & 1) != 0;
                self.pointer_x = x;
                self.pointer_y = y;
                self.pointer_buttons = buttons;
                let ghost ws0 = self.windows@;
                if is_down && (dx != 0 || dy != 0) {
                    self.drag_focused(dx, dy);
                }
                if !was_down && is_down && y >= 560 && x <= 120 {
                    self.start_menu_open = !self.start_menu_open;
                }
                if !was_down && is_down {
                    self.press(x, y);
                }
            },
            InputEvent::Key { .. } => {},
        }
        self.enqueue(event)
    }


    /// Draws `text` (a literal) and records its pixels in `acc`.
    fn label(fb: &mut Framebuffer, x: i32, y: i32, text: &str, color: Color)
        requires
            old(fb).addressable(),
            x + 9 * text.spec_bytes().len() <= i32::MAX,
            y <= i32::MAX - 7,
        ensures
            final(fb).plotted(*old(fb), text_of(x as int, y as int, text.spec_bytes(), color)),
            final(fb).addressable(),
    {
        fb.draw_text(x, y, text, color);
    }

    #[verifier::rlimit(40)]
    fn draw_window(&self, fb: &mut Framebuffer, w: Window)
        requires
            old(fb).addressable(),
            window_drawable(w),
        ensures
            final(fb).plotted(*old(fb), window_pts(w, self.theme, old(fb).width, old(fb).height)),
    {
        let ghost f0 = *fb;
        let ghost (fw, fh, st) = (fb.width, fb.height, fb.stride);
        let titlebar_color = if w.focused { self.theme.titlebar_active } else { self.theme.titlebar_inactive };
        let title_rect = Rect { x: w.bounds.x, y: w.bounds.y, width: w.bounds.width, height: 24 };
        fb.fill_rect(title_rect, titlebar_color);
        let ghost a1 = rect_pts(title_rect, fw, fh, titlebar_color);
        let body_h: u32 = if w.bounds.height >= 24 { w.bounds.height - 24 } else { 0 };
        let content_rect = Rect { x: w.bounds.x, y: w.bounds.y + 24, width: w.bounds.width, height: body_h };
        fb.fill_rect(content_rect, w.bg_color);
        let ghost a2 = rect_pts(content_rect, fw, fh, w.bg_color);
        proof { lemma_plot_all_concat(f0.buffer@, fw, fh, st, a1, a2); }
        let title = slice_to(&w.title_bytes, w.title_len);
        let white = Color { r: 255, g: 255, b: 255, a: 255 };
        let ghost a3 = text_of(w.bounds.x + 8, w.bounds.y + 6, title_text(w), white);
        match utf8_str(title) {
            Some(t) => {
                fb.draw_text(w.bounds.x + 8, w.bounds.y + 6, t, white);
            },
            None => {
                proof {
                    reveal_strlit("App");
                    vstd::string::is_ascii_spec_bytes("App");
                }
                fb.draw_text(w.bounds.x + 8, w.bounds.y + 6, "App", white);
            },
        }
        proof { lemma_plot_all_concat(f0.buffer@, fw, fh, st, a1 + a2, a3); }
        let close_x = w.bounds.x + (w.bounds.width as i32) - 18;
        let min_x = w.bounds.x + (w.bounds.width as i32) - 36;
        proof {
            reveal_strlit("-");
            vstd::string::is_ascii_spec_bytes("-");
            reveal_strlit("X");
            vstd::string::is_ascii_spec_bytes("X");
        }
        fb.draw_text(min_x, w.bounds.y + 6, "-", white);
        let ghost a4 = text_of(min_x as int, w.bounds.y + 6, "-".spec_bytes(), white);
        proof { lemma_plot_all_concat(f0.buffer@, fw, fh, st, a1 + a2 + a3, a4); }
        fb.draw_text(close_x, w.bounds.y + 6, "X", Color { r: 255, g: 0, b: 0, a: 255 });
        let ghost a5 = text_of(close_x as int, w.bounds.y + 6, "X".spec_bytes(), Color { r: 255, g: 0, b: 0, a: 255 });
        proof { lemma_plot_all_concat(f0.buffer@, fw, fh, st, a1 + a2 + a3 + a4, a5); }
    }

    /// Draws the desktop into `fb`: wallpaper, taskbar, every visible window
    /// in slot order, the start menu when open, and the pointer.
    #[verifier::rlimit(40)]
    pub fn render_to_framebuffer(&self, fb: &mut Framebuffer)
        requires
            old(fb).addressable(),
            old(fb).width <= i32::MAX,
            old(fb).height <= 0x4000_0000,
            windows_drawable(self.windows@),
            self.pointer_x + 10 <= i32::MAX,
            self.pointer_y + 10 <= i32::MAX,
        ensures
            final(fb).plotted(*old(fb), desktop_pts(*self, old(fb).width, old(fb).height)),
    {
        let ghost f0 = *fb;
        let ghost (fw, fh, st) = (fb.width, fb.height, fb.stride);
        let h = fb.height as i32;
        fb.fill_rect(Rect { x: 0, y: 0, width: fb.width, height: fb.height }, self.theme.bg_color);
        let ghost mut acc = rect_pts(Rect { x: 0, y: 0, width: fw, height: fh }, fw, fh, self.theme.bg_color);
        fb.fill_rect(Rect { x: 0, y: h - 40, width: fb.width, height: 40 }, Color { r: 18, g: 20, b: 26, a: 255 });
        proof {
            let p = rect_pts(Rect { x: 0, y: (fh - 40) as i32, width: fw, height: 40 }, fw, fh, Color { r: 18, g: 20, b: 26, a: 255 });
            lemma_plot_all_concat(f0.buffer@, fw, fh, st, acc, p);
            acc = acc + p;
            reveal_strlit("AWE_OS AYUI Desktop");
            vstd::string::is_ascii_spec_bytes("AWE_OS AYUI Desktop");
        }
        Self::label(fb, 10, h - 30, "AWE_OS AYUI Desktop", self.theme.text_color);
        proof {
            let p = text_of(10, fh - 30, "AWE_OS AYUI Desktop".spec_bytes(), self.theme.text_color);
            lemma_plot_all_concat(f0.buffer@, fw, fh, st, acc, p);
            acc = acc + p;
        }
        let mut i: usize = 0;
        while i < MAX_WINDOWS
            invariant
                i <= MAX_WINDOWS,
                fb.addressable(),
                fb.width == fw && fb.height == fh && fb.stride == st,
                f0.width == fw && f0.height == fh && f0.stride == st,
                windows_drawable(self.windows@),
                self.windows@.len() == MAX_WINDOWS,
                fb.plotted(f0, acc + windows_pts(self.windows@, self.theme, fw, fh, i as int)),
                acc == rect_pts(Rect { x: 0, y: 0, width: fw, height: fh }, fw, fh, self.theme.bg_color)
                    + rect_pts(Rect { x: 0, y: (fh - 40) as i32, width: fw, height: 40 }, fw, fh, Color { r: 18, g: 20, b: 26, a: 255 })
                    + text_of(10, fh - 30, "AWE_OS AYUI Desktop".spec_bytes(), self.theme.text_color),
            decreases MAX_WINDOWS - i,
        {
            if let Some(win) = self.windows[i] {
                if win.visible && !win.minimized {
                    proof { assert(self.windows@[i as int] == Some(win)); }
                    let ghost before = *fb;
                    self.draw_window(fb, win);
                    proof {
                        lemma_plot_all_concat(f0.buffer@, fw, fh, st, acc + windows_pts(self.windows@, self.theme, fw, fh, i as int),
                            window_pts(win, self.theme, fw, fh));
                        assert(acc + windows_pts(self.windows@, self.theme, fw, fh, i as int + 1)
                            =~= acc + windows_pts(self.windows@, self.theme, fw, fh, i as int) + window_pts(win, self.theme, fw, fh));
                    }
                }
            }
            i += 1;
        }
        proof {
            acc = acc + windows_pts(self.windows@, self.theme, fw, fh, MAX_WINDOWS as int);
        }
        if self.start_menu_open {
            let ghost m0 = *fb;
            fb.fill_rect(Rect { x: 10, y: h - 260, width: 220, height: 215 }, Color { r: 30, g: 34, b: 44, a: 255 });
            proof {
                reveal_strlit("AWE_OS Applications");
                vstd::string::is_ascii_spec_bytes("AWE_OS Applications");
                reveal_strlit("1. Terminal");
                vstd::string::is_ascii_spec_bytes("1. Terminal");
                reveal_strlit("2. FileManager");
                vstd::string::is_ascii_spec_bytes("2. FileManager");
                reveal_strlit("3. PackageCenter");
                vstd::string::is_ascii_spec_bytes("3. PackageCenter");
                reveal_strlit("4. Settings");
                vstd::string::is_ascii_spec_bytes("4. Settings");
                reveal_strlit("5. SysMon");
                vstd::string::is_ascii_spec_bytes("5. SysMon");
                reveal_strlit("6. TextEditor");
                vstd::string::is_ascii_spec_bytes("6. TextEditor");
            }
            Self::label(fb, 20, h - 250, "AWE_OS Applications", Color { r: 255, g: 255, b: 255, a: 255 });
            proof {
                lemma_plot_all_concat(m0.buffer@, fw, fh, st,
                    rect_pts(Rect { x: 10, y: (fh - 260) as i32, width: 220, height: 215 }, fw, fh, Color { r: 30, g: 34, b: 44, a: 255 }),
                    text_of(20, fh - 250, "AWE_OS Applications".spec_bytes(), white()));
            }
            Self::menu_entry(fb, h, 0, "1. Terminal", Ghost(m0));
            Self::menu_entry(fb, h, 1, "2. FileManager", Ghost(m0));
            Self::menu_entry(fb, h, 2, "3. PackageCenter", Ghost(m0));
            Self::menu_entry(fb, h, 3, "4. Settings", Ghost(m0));
            Self::menu_entry(fb, h, 4, "5. SysMon", Ghost(m0));
            Self::menu_entry(fb, h, 5, "6. TextEditor", Ghost(m0));
            proof {
                lemma_plot_all_concat(f0.buffer@, fw, fh, st, acc, menu_pts(fw, fh, 6));
                acc = acc + menu_pts(fw, fh, 6);
            }
        } else {
            proof {
                assert(acc + Seq::<Plot>::empty() =~= acc);
                acc = acc + Seq::<Plot>::empty();
            }
        }
        fb.draw_cursor(self.pointer_x, self.pointer_y, Color { r: 255, g: 255, b: 0, a: 255 });
        proof {
            let p = rect_pts(Rect { x: self.pointer_x, y: self.pointer_y, width: 10, height: 10 }, fw, fh, Color { r: 255, g: 255, b: 0, a: 255 });
            lemma_plot_all_concat(f0.buffer@, fw, fh, st, acc, p);
        }
    }

    /// Draws start-menu entry `k` below the entries before it.
    fn menu_entry(fb: &mut Framebuffer, h: i32, k: i32, text: &str, Ghost(m0): Ghost<Framebuffer>)
        requires
            old(fb).addressable(),
            0 <= k < 6,
            h == old(fb).height,
            old(fb).height <= 0x4000_0000,
            text.spec_bytes() == menu_item(k as int),
            text.spec_bytes().len() <= 20,
            old(fb).plotted(m0, menu_pts(m0.width, m0.height, k as int)),
        ensures
            final(fb).plotted(m0, menu_pts(m0.width, m0.height, k as int + 1)),
            final(fb).addressable(),
    {
        let item = Color { r: 180, g: 190, b: 210, a: 255 };
        Self::label(fb, 25, h - 220 + k * 26, text, item);
        proof {
            lemma_plot_all_concat(m0.buffer@, m0.width, m0.height, m0.stride, menu_pts(m0.width, m0.height, k as int),
                text_of(25, h - 220 + k * 26, menu_item(k as int), item));
        }
    }

    /// Number of occupied window slots.
    pub fn window_count(&self) -> (n: usize)
        ensures
            n == count_some(self.windows@),
    {
        let mut count: usize = 0;
        let mut i: usize = 0;
        while i < MAX_WINDOWS
            invariant
                i <= MAX_WINDOWS,
                self.windows@.len() == MAX_WINDOWS,
                count == count_some(self.windows@.take(i as int)),
                count <= i,
            decreases MAX_WINDOWS - i,
        {
            proof {
                assert(self.windows@.take(i as int + 1).drop_last() =~= self.windows@.take(i as int));
            }
            if self.windows[i].is_some() {
                count = count + 1;
            }
            i += 1;
        }
        assert(self.windows@.take(MAX_WINDOWS as int) =~= self.windows@);
        count
    }
}

impl Default for Compositor {
    fn default() -> (c: Self)
        ensures
            c.wf(),
            forall|i: int| 0 <= i < MAX_WINDOWS ==> (#[trigger] c.windows@[i]) is None,
            c.queue() == Seq::<InputEvent>::empty(),
            c.next_window_id() == 1,
    {
        Self::new()
    }
}

/// Installing an app marks it installed; removing it clears the mark; other
/// apps keep their state.
pub proof fn lemma_install_remove(mask: u32, app_id: u8, other: u8)
    requires
        app_id < 32,
        other != app_id,
    ensures
        Compositor::app_bit(mask | (1u32 << app_id), app_id),
        !Compositor::app_bit(mask & !(1u32 << app_id), app_id),
        Compositor::app_bit(mask | (1u32 << app_id), other) == Compositor::app_bit(mask, other),
        Compositor::app_bit(mask & !(1u32 << app_id), other) == Compositor::app_bit(mask, other),
{
    assert(app_id < 32 ==> (mask | (1u32 << app_id)) & (1u32 << app_id) != 0) by (bit_vector);
    assert(app_id < 32 ==> (mask & !(1u32 << app_id)) & (1u32 << app_id) == 0) by (bit_vector);
    if other < 32 {
        assert(app_id < 32 && other < 32 && other != app_id ==>
            (((mask | (1u32 << app_id)) & (1u32 << other) != 0) == (mask & (1u32 << other) != 0))) by (bit_vector);
        assert(app_id < 32 && other < 32 && other != app_id ==>
            (((mask & !(1u32 << app_id)) & (1u32 << other) != 0) == (mask & (1u32 << other) != 0))) by (bit_vector);
    }
}

/// The queue is first in, first out: after queueing `e` behind a non-empty
/// queue, the front is unchanged, and `e` comes out after everything before it.
pub proof fn lemma_queue_fifo(q: Seq<InputEvent>, e: InputEvent)
    ensures
        q.len() > 0 ==> q.push(e)[0] == q[0],
        q.len() > 0 ==> q.push(e).drop_first() == q.drop_first().push(e),
        q.len() == 0 ==> q.push(e)[0] == e && q.push(e).drop_first() == Seq::<InputEvent>::empty(),
{
    if q.len() > 0 {
        assert(q.push(e).drop_first() =~= q.drop_first().push(e));
    } else {
        assert(q.push(e).drop_first() =~= Seq::<InputEvent>::empty());
    }
}

/// Draining the queue after one more event was queued gives back the events
/// first in, first out: the read number `k` sees the queue without its first
/// `k` events, returns the oldest of those left (`q[k]`, and `e` last) and
/// leaves the queue without `k + 1`; after `q.len() + 1` reads it is empty,
/// so the next read returns nothing.
pub proof fn lemma_queue_drain(q: Seq<InputEvent>, e: InputEvent)
    ensures
        forall|k: int| 0 <= k <= q.len() ==> {
            &&& (#[trigger] q.push(e).skip(k)).len() > 0
            &&& q.push(e).skip(k)[0] == (if k < q.len() { q[k] } else { e })
            &&& q.push(e).skip(k).drop_first() == q.push(e).skip(k + 1)
        },
        q.push(e).skip(q.len() + 1int).len() == 0,
{
    let s = q.push(e);
    assert forall|k: int| 0 <= k <= q.len() implies {
        &&& (#[trigger] s.skip(k)).len() > 0
        &&& s.skip(k)[0] == (if k < q.len() { q[k] } else { e })
        &&& s.skip(k).drop_first() == s.skip(k + 1)
    } by {
        assert(s.skip(k)[0] == s[k]);
        assert(s.skip(k).drop_first() =~= s.skip(k + 1));
    }
}

/// The press at `(x, y)` falls on the close or minimise area of window `o`'s
/// title bar: the window is visible, contains the point, the point is in the
/// top 25 rows and within 40 pixels of the right edge.
pub open spec fn on_title_controls(o: Option<Window>, x: int, y: int) -> bool {
    &&& o is Some
    &&& o->Some_0.visible
    &&& o->Some_0.bounds.x <= x < o->Some_0.bounds.x + o->Some_0.bounds.width
    &&& o->Some_0.bounds.y <= y < o->Some_0.bounds.y + o->Some_0.bounds.height
    &&& y <= o->Some_0.bounds.y + 24
    &&& x >= o->Some_0.bounds.x + o->Some_0.bounds.width - 40
}

/// A press on a window's title bar acts on the glyph drawn there: at the
/// right-most 20 pixels (where the "X" is drawn, from `right - 18`) it
/// closes the window, removing it from the table; in the 20 pixels before
/// them (where the "-" is drawn, from `right - 36`) it keeps the window,
/// toggles only its minimised flag and focuses it. This holds for the first
/// window, in slot order, whose title controls the press falls on.
pub proof fn lemma_title_press(ws: Seq<Option<Window>>, x: i32, y: i32, i: int)
    requires
        ws.len() == MAX_WINDOWS,
        windows_sized(ws),
        0 <= i < ws.len(),
        on_title_controls(ws[i], x as int, y as int),
        forall|j: int| 0 <= j < i ==> !on_title_controls(#[trigger] ws[j], x as int, y as int),
    ensures
        ({
            let w = ws[i]->Some_0;
            x >= w.bounds.x + w.bounds.width - 20 ==> clicked(ws, x, y) == without_window(ws, w.id)
        }),
        ({
            let w = ws[i]->Some_0;
            x < w.bounds.x + w.bounds.width - 20 ==> clicked(ws, x, y)
                == focused_on(ws.update(i, Some(Window { minimized: !w.minimized, ..w })), w.id)
        }),
{
    let w = ws[i]->Some_0;
    let expected = if x >= w.bounds.x + w.bounds.width - 20 { TitleHit::Close(w.id) } else { TitleHit::Minimize(i as usize) };
    lemma_scan_reaches(ws, x, y, i, 0, None, expected);
}

proof fn lemma_scan_reaches(ws: Seq<Option<Window>>, x: i32, y: i32, i: int, j: int, f: Option<WindowId>, expected: TitleHit)
    requires
        ws.len() == MAX_WINDOWS,
        windows_sized(ws),
        0 <= j <= i < ws.len(),
        on_title_controls(ws[i], x as int, y as int),
        forall|k: int| 0 <= k < i ==> !on_title_controls(#[trigger] ws[k], x as int, y as int),
        expected == (if x >= ws[i]->Some_0.bounds.x + ws[i]->Some_0.bounds.width - 20 {
            TitleHit::Close(ws[i]->Some_0.id)
        } else {
            TitleHit::Minimize(i as usize)
        }),
    ensures
        click_scan(ws, x, y, j, f) == (Some(ws[i]->Some_0.id), Some(expected)),
    decreases i - j,
{
    assert(window_sized(ws[j]));
    if j < i {
        assert(!on_title_controls(ws[j], x as int, y as int));
        if hit(ws[j], x, y) {
            lemma_scan_reaches(ws, x, y, i, j + 1, Some(ws[j]->Some_0.id), expected);
        } else {
            lemma_scan_reaches(ws, x, y, i, j + 1, f, expected);
        }
    }
}

/// Events come out first in, first out over several calls: when
/// `push_input(e)` took `c0` (queue `q`) to `c1` with `Ok`, and `q.len() + 2`
/// reads follow, each read `k` starting from `cs[k]` (with `cs[0] == c1`),
/// the reads return `q[0]`, ..., `q[q.len() - 1]`, then `e`, then nothing,
/// and leave the queue empty.
pub proof fn lemma_push_then_drain(
    c0: Compositor,
    e: InputEvent,
    c1: Compositor,
    cs: Seq<Compositor>,
    rs: Seq<Option<InputEvent>>,
)
    requires
        input_applied(c0, e, c1, Ok(())),
        rs.len() == c0.queue().len() + 2,
        cs.len() == rs.len() + 1,
        cs[0] == c1,
        forall|k: int| 0 <= k < rs.len() ==> popped(cs[k], cs[k + 1], #[trigger] rs[k]),
    ensures
        forall|k: int| 0 <= k < c0.queue().len() ==> #[trigger] rs[k] == Some(c0.queue()[k]),
        rs[c0.queue().len() as int] == Some(e),
        rs[c0.queue().len() + 1int] is None,
        cs[c0.queue().len() + 2int].queue().len() == 0,
{
    let q = c0.queue();
    let s = q.push(e);
    assert(c1.queue() == s);
    lemma_queue_drain(q, e);
    lemma_drain_states(s, cs, rs, rs.len() as int);
    assert forall|k: int| 0 <= k < q.len() implies #[trigger] rs[k] == Some(q[k]) by {
        lemma_drain_states(s, cs, rs, k);
        assert(popped(cs[k], cs[k + 1], rs[k]));
        assert(s.skip(k)[0] == s[k]);
    }
    lemma_drain_states(s, cs, rs, q.len() as int);
    assert(popped(cs[q.len() as int], cs[q.len() + 1int], rs[q.len() as int]));
    assert(s.skip(q.len() as int)[0] == s[q.len() as int]);
    lemma_drain_states(s, cs, rs, q.len() + 1int);
    assert(popped(cs[q.len() + 1int], cs[q.len() + 2int], rs[q.len() + 1int]));
}

/// After `k` reads of a queue holding `s`, it holds `s` without its first
/// `k` events (and nothing once they are all read).
proof fn lemma_drain_states(s: Seq<InputEvent>, cs: Seq<Compositor>, rs: Seq<Option<InputEvent>>, k: int)
    requires
        rs.len() == s.len() + 1,
        cs.len() == rs.len() + 1,
        cs[0].queue() == s,
        forall|j: int| 0 <= j < rs.len() ==> popped(cs[j], cs[j + 1], #[trigger] rs[j]),
        0 <= k <= rs.len(),
    ensures
        k <= s.len() ==> cs[k].queue() == s.skip(k),
        k > s.len() ==> cs[k].queue().len() == 0,
    decreases k,
{
    if k == 0 {
        assert(s.skip(0) =~= s);
    } else {
        lemma_drain_states(s, cs, rs, k - 1);
        assert(popped(cs[k - 1], cs[k], rs[k - 1]));
        if k - 1 < s.len() {
            assert(s.skip(k - 1).drop_first() =~= s.skip(k));
        } else {
            assert(s.skip(k - 1).len() == 0);
        }
    }
}

/// Destroying a window that exists empties the first slot holding it, so
/// the number of windows drops by one.
pub proof fn lemma_window_destroyed(ws: Seq<Option<Window>>, id: WindowId)
    requires
        has_window(ws, id),
    ensures
        exists|i: int| first_window(ws, id, i) && without_window(ws, id) == ws.update(i, None),
        count_some(without_window(ws, id)) + 1 == count_some(ws),
{
    let k = choose|k: int| 0 <= k < ws.len() && win_is(#[trigger] ws[k], id);
    lemma_first_window_exists(ws, id, k);
    let i = choose|i: int| first_window(ws, id, i);
    let t = ws.update(i, None);
    crate::table::lemma_count_fill(t, i, ws[i]->Some_0);
    assert(t.update(i, Some(ws[i]->Some_0)) =~= ws);
}

/// A window held at slot `k` has a first slot, at or before `k`.
proof fn lemma_first_window_exists(ws: Seq<Option<Window>>, id: WindowId, k: int)
    requires
        0 <= k < ws.len(),
        win_is(ws[k], id),
    ensures
        exists|i: int| first_window(ws, id, i),
    decreases k,
{
    if forall|j: int| 0 <= j < k ==> !win_is(#[trigger] ws[j], id) {
        assert(first_window(ws, id, k));
    } else {
        let j = choose|j: int| 0 <= j < k && win_is(#[trigger] ws[j], id);
        lemma_first_window_exists(ws, id, j);
    }
}

/// Creating a window adds exactly one: the new id is held by a window, the
/// number of windows grows by one, and when every earlier id is below the
/// next id the new id is fresh and the ids stay below the next one.
pub proof fn lemma_window_created(new: Compositor, old: Compositor, bounds: Rect, app_type: AppType, title: Seq<u8>, r: Result<WindowId, UiError>)
    requires
        old.windows@.len() == MAX_WINDOWS,
        new.window_created(old, bounds, app_type, title, r),
        r is Ok,
    ensures
        has_window(new.windows@, r->Ok_0),
        count_some(new.windows@) == count_some(old.windows@) + 1,
        ids_below(old.windows@, old.next_window_id()) ==> !has_window(old.windows@, r->Ok_0)
            && ids_below(new.windows@, new.next_window_id()),
{
    let ws = old.windows@;
    assert(!crate::table::all_full(ws));
    crate::table::lemma_first_free_exists(ws);
    let i = crate::table::first_free_index(ws);
    let id = r->Ok_0;
    let u = ws.update(i, Some(new.windows@[i]->Some_0));
    assert(new.windows@[i] is Some);
    assert(win_is(new.windows@[i], id));
    crate::table::lemma_count_fill(ws, i, new.windows@[i]->Some_0);
    let w = Window {
        id,
        bounds,
        visible: true,
        focused: false,
        minimized: false,
        maximized: false,
        bg_color: old.theme.bg_color,
        app_type,
        title_len: if title.len() < 32 { title.len() as usize } else { 32usize },
        title_bytes: new.windows@[i]->Some_0.title_bytes,
    };
    let u2 = ws.update(i, Some(w));
    crate::table::lemma_count_fill(ws, i, w);
    crate::table::lemma_count_same_shape(new.windows@, u2);
    if ids_below(ws, old.next_window_id()) {
        assert forall|j: int| 0 <= j < ws.len() implies !win_is(#[trigger] ws[j], id) by {}
        assert(!has_window(ws, id));
        assert forall|j: int| 0 <= j < new.windows@.len() && (#[trigger] new.windows@[j]) is Some
            implies new.windows@[j]->Some_0.id.0 < new.next_window_id() by {
            if j != i {
                assert(ws[j] is Some);
            }
        }
    }
}

} // verus!
