use aweos::ayui::compositor::Compositor;
use aweos::ayui::raster::Framebuffer;
use aweos::ayui::terminal::{NotificationDaemon, TerminalBackend};
use aweos::ayui::{get_glyph, Clipboard, Color, InputEvent, Rect, UiError, WindowId};

#[test]
fn compositor_creates_and_focuses_windows() {
    let mut c = Compositor::new();
    let a = c.create_window(Rect { x: 0, y: 0, width: 800, height: 600 }).unwrap();
    let b = c.create_window(Rect { x: 10, y: 10, width: 400, height: 300 }).unwrap();
    c.focus(b).unwrap();
    assert_eq!(c.window_count(), 2);
    assert!(c.windows.iter().flatten().find(|w| w.id == b).unwrap().focused);
    assert!(!c.windows.iter().flatten().find(|w| w.id == a).unwrap().focused);
}

#[test]
fn terminal_and_notifications_work() {
    let mut term = TerminalBackend::new();
    term.write_char(b'A');
    term.write_char(b'W');
    term.write_char(b'E');
    assert_eq!(term.grid[0][0], b'A');
    assert_eq!(term.grid[0][1], b'W');
    assert_eq!(term.grid[0][2], b'E');
    let mut notif = NotificationDaemon::new();
    let nid = notif.push_notification(0xABCD, 100).unwrap();
    assert_eq!(nid, 1);
}

#[test]
fn multi_monitor_and_clipboard_work() {
    let mut c = Compositor::new();
    let mid = c.register_monitor(Rect { x: 0, y: 0, width: 1920, height: 1080 }, true, true).unwrap();
    assert_eq!(mid, 0);
    c.clipboard.copy(b"AWEOS Clipboard").unwrap();
    assert_eq!(c.clipboard.text(), b"AWEOS Clipboard");
}

#[test]
fn font_rendering_and_glyph_drawing_work() {
    let glyph_a = get_glyph(b'A');
    assert_eq!(glyph_a, [0x18, 0x3C, 0x66, 0x66, 0x7E, 0x66, 0x66, 0x00]);
    let glyph_lower_a = get_glyph(b'a');
    assert_eq!(glyph_lower_a, [0x00, 0x00, 0x3C, 0x06, 0x3E, 0x66, 0x3E, 0x00]);
    let glyph_num_5 = get_glyph(b'5');
    assert_eq!(glyph_num_5, [0x7E, 0x60, 0x7C, 0x06, 0x06, 0x66, 0x3C, 0x00]);
    let glyph_symbol = get_glyph(b'>');
    assert_eq!(glyph_symbol, [0x30, 0x18, 0x0C, 0x06, 0x0C, 0x18, 0x30, 0x00]);

    let mut fb = Framebuffer { width: 100, height: 100, stride: 100, buffer: vec![0u8; 100 * 100 * 4], gpu_accel: false };
    fb.draw_text(10, 10, "AWEOS 2026!", Color::white());
    let offset_13_10 = ((10 * 100 + 13) * 4) as usize;
    assert_eq!(fb.buffer[offset_13_10], 255);
}

#[test]
fn test_start_menu_controls_and_app_installer() {
    let mut c = Compositor::new();
    assert!(!c.start_menu_open);
    c.toggle_start_menu();
    assert!(c.start_menu_open);
    c.install_app_package(10);
    assert!(c.is_app_installed(10));
    c.remove_app_package(10);
    assert!(!c.is_app_installed(10));
    let win_id = c.create_window(Rect { x: 10, y: 10, width: 200, height: 150 }).unwrap();
    let _ = c.destroy_window(win_id);
    assert_eq!(c.window_count(), 0);
}

#[test]
fn events_come_out_in_push_order() {
    let mut c = Compositor::new();
    c.push_input(InputEvent::Key { code: 30, pressed: true }).unwrap();
    c.push_input(InputEvent::Key { code: 31, pressed: false }).unwrap();
    assert_eq!(c.pop_input(), Some(InputEvent::Key { code: 30, pressed: true }));
    assert_eq!(c.pop_input(), Some(InputEvent::Key { code: 31, pressed: false }));
    assert_eq!(c.pop_input(), None);
}

#[test]
fn invalid_windows_are_refused() {
    let mut c = Compositor::new();
    assert_eq!(c.create_window(Rect { x: 0, y: 0, width: 0, height: 10 }), Err(UiError::InvalidRect));
    assert_eq!(c.focus(WindowId(999)), Err(UiError::InvalidWindow));
    assert_eq!(c.destroy_window(WindowId(999)), Err(UiError::InvalidWindow));
}

#[test]
fn fill_rect_writes_bgra_and_clips() {
    let mut fb = Framebuffer { width: 4, height: 4, stride: 4, buffer: vec![0u8; 4 * 4 * 4], gpu_accel: false };
    fb.fill_rect(Rect { x: 2, y: 2, width: 10, height: 10 }, Color { r: 1, g: 2, b: 3, a: 4 });
    let off = ((3 * 4 + 3) * 4) as usize;
    assert_eq!(&fb.buffer[off..off + 4], &[3, 2, 1, 4]);
    let untouched = ((1 * 4 + 1) * 4) as usize;
    assert_eq!(&fb.buffer[untouched..untouched + 4], &[0, 0, 0, 0]);
}

#[test]
fn draw_line_plots_both_endpoints() {
    let mut fb = Framebuffer { width: 8, height: 8, stride: 8, buffer: vec![0u8; 8 * 8 * 4], gpu_accel: false };
    fb.draw_line(1, 1, 6, 4, Color::white());
    assert_eq!(fb.buffer[((1 * 8 + 1) * 4) as usize], 255);
    assert_eq!(fb.buffer[((4 * 8 + 6) * 4) as usize], 255);
}

#[test]
fn clipboard_copy_then_paste() {
    let mut clip = Clipboard::new();
    clip.copy(b"hello").unwrap();
    let mut out = [0u8; 8];
    let n = clip.paste(&mut out);
    assert_eq!(n, 5);
    assert_eq!(&out[..5], b"hello");
    let big = [b'x'; 2000];
    assert_eq!(clip.copy(&big), Err(UiError::BufferTooSmall));
}

#[test]
fn rect_contains_is_half_open() {
    let r = Rect { x: 10, y: 10, width: 5, height: 5 };
    assert!(r.contains(10, 10));
    assert!(r.contains(14, 14));
    assert!(!r.contains(15, 10));
    assert!(r.valid());
}
