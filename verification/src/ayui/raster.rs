//! Software framebuffer: 32-bit BGRA pixels, clipped to the frame.
//!
//! Every drawing operation is described by the sequence of pixels it plots,
//! in order; `plot_all` gives the buffer after plotting them.

use vstd::prelude::*;
use super::{get_glyph, glyph_bit, spec_get_glyph, Color, Rect};
use vstd::string::StringSliceAdditionalSpecFns;

verus! {

/// One plotted pixel: column, row and colour.
pub type Plot = (int, int, Color);

/// Byte offset of pixel (`x`, `y`) in a frame with `stride` pixels per row.
pub open spec fn pixel_offset(stride: u32, x: int, y: int) -> int {
    (y * stride + x) * 4
}

/// The buffer after plotting one pixel: pixels outside the frame, or whose
/// four bytes do not fit in the buffer, are skipped.
pub open spec fn plot(buf: Seq<u8>, width: u32, height: u32, stride: u32, p: Plot) -> Seq<u8> {
    let off = pixel_offset(stride, p.0, p.1);
    if 0 <= p.0 < width && 0 <= p.1 < height && off + 3 < buf.len() {
        buf.update(off, p.2.b).update(off + 1, p.2.g).update(off + 2, p.2.r).update(off + 3, p.2.a)
    } else {
        buf
    }
}

/// The buffer after plotting `pts` in order.
pub open spec fn plot_all(buf: Seq<u8>, width: u32, height: u32, stride: u32, pts: Seq<Plot>) -> Seq<u8>
    decreases pts.len(),
{
    if pts.len() == 0 {
        buf
    } else {
        plot(plot_all(buf, width, height, stride, pts.drop_last()), width, height, stride, pts.last())
    }
}

pub proof fn lemma_plot_all_len(buf: Seq<u8>, width: u32, height: u32, stride: u32, pts: Seq<Plot>)
    ensures
        plot_all(buf, width, height, stride, pts).len() == buf.len(),
    decreases pts.len(),
{
    if pts.len() > 0 {
        lemma_plot_all_len(buf, width, height, stride, pts.drop_last());
    }
}

pub proof fn lemma_plot_all_push(buf: Seq<u8>, width: u32, height: u32, stride: u32, pts: Seq<Plot>, p: Plot)
    ensures
        plot_all(buf, width, height, stride, pts.push(p)) == plot(plot_all(buf, width, height, stride, pts), width, height, stride, p),
{
    assert(pts.push(p).drop_last() =~= pts);
}

/// Plotting two sequences one after the other is plotting their concatenation.
pub proof fn lemma_plot_all_concat(buf: Seq<u8>, width: u32, height: u32, stride: u32, a: Seq<Plot>, b: Seq<Plot>)
    ensures
        plot_all(buf, width, height, stride, a + b) == plot_all(plot_all(buf, width, height, stride, a), width, height, stride, b),
    decreases b.len(),
{
    if b.len() == 0 {
        assert(a + b =~= a);
    } else {
        lemma_plot_all_concat(buf, width, height, stride, a, b.drop_last());
        assert((a + b).drop_last() =~= a + b.drop_last());
        assert((a + b).last() == b.last());
    }
}

/// Pixels (`sx`..`ex`, `y`) in colour `c`.
pub open spec fn span(sx: int, ex: int, y: int, c: Color) -> Seq<Plot> {
    Seq::new(if ex > sx { (ex - sx) as nat } else { 0 }, |i: int| (sx + i, y, c))
}

pub proof fn lemma_span_push(sx: int, ex: int, y: int, c: Color)
    requires
        sx <= ex,
    ensures
        span(sx, ex + 1, y, c) == span(sx, ex, y, c).push((ex, y, c)),
{
    assert(span(sx, ex + 1, y, c) =~= span(sx, ex, y, c).push((ex, y, c)));
}

/// Pixels (`x`, `sy`..`ey`) in colour `c`.
pub open spec fn column(x: int, sy: int, ey: int, c: Color) -> Seq<Plot> {
    Seq::new(if ey > sy { (ey - sy) as nat } else { 0 }, |i: int| (x, sy + i, c))
}

pub proof fn lemma_column_push(x: int, sy: int, ey: int, c: Color)
    requires
        sy <= ey,
    ensures
        column(x, sy, ey + 1, c) == column(x, sy, ey, c).push((x, ey, c)),
{
    assert(column(x, sy, ey + 1, c) =~= column(x, sy, ey, c).push((x, ey, c)));
}

/// Rows `sy`..`ey` of columns `sx`..`ex`, row by row.
pub open spec fn grid(sx: int, ex: int, sy: int, ey: int, c: Color) -> Seq<Plot>
    decreases ey - sy,
{
    if ey <= sy {
        Seq::empty()
    } else {
        grid(sx, ex, sy, ey - 1, c) + span(sx, ex, ey - 1, c)
    }
}

/// A grid with no rows or no columns plots nothing.
pub proof fn lemma_grid_empty(sx: int, ex: int, sy: int, ey: int, c: Color)
    requires
        ey <= sy || ex <= sx,
    ensures
        grid(sx, ex, sy, ey, c) == Seq::<Plot>::empty(),
    decreases ey - sy,
{
    if ey > sy {
        lemma_grid_empty(sx, ex, sy, ey - 1, c);
        assert(span(sx, ex, ey - 1, c) =~= Seq::<Plot>::empty());
        assert(grid(sx, ex, sy, ey - 1, c) + span(sx, ex, ey - 1, c) =~= Seq::<Plot>::empty());
    }
}

pub open spec fn max0(v: int) -> int {
    if v < 0 { 0 } else { v }
}

pub open spec fn min_of(a: int, b: int) -> int {
    if a < b { a } else { b }
}

/// The pixels of a horizontal line, clipped to a frame `width` x `height`.
pub open spec fn hline_pts(x: i32, y: i32, length: u32, width: u32, height: u32, c: Color) -> Seq<Plot> {
    if y < 0 || y >= height || length == 0 {
        Seq::empty()
    } else {
        span(max0(x as int), min_of(max0(x + (length as i32)), width as int), y as int, c)
    }
}

/// The pixels of a vertical line, clipped to the frame.
pub open spec fn vline_pts(x: i32, y: i32, length: u32, width: u32, height: u32, c: Color) -> Seq<Plot> {
    if x < 0 || x >= width || length == 0 {
        Seq::empty()
    } else {
        column(x as int, max0(y as int), min_of(max0(y + (length as i32)), height as int), c)
    }
}

/// The pixels of a filled rectangle, clipped to the frame, row by row.
pub open spec fn rect_pts(rect: Rect, width: u32, height: u32, c: Color) -> Seq<Plot> {
    if rect.x + (rect.width as i32) <= 0 || rect.y + (rect.height as i32) <= 0 || rect.x >= (width as i32)
        || rect.y >= (height as i32) {
        Seq::empty()
    } else {
        grid(
            max0(rect.x as int),
            min_of(max0(rect.x + (rect.width as i32)), width as int),
            max0(rect.y as int),
            min_of(max0(rect.y + (rect.height as i32)), height as int),
            c,
        )
    }
}

/// A rectangle whose right and bottom edges are representable.
pub open spec fn rect_edges_fit(rect: Rect) -> bool {
    &&& i32::MIN <= rect.x + (rect.width as i32) <= i32::MAX
    &&& i32::MIN <= rect.y + (rect.height as i32) <= i32::MAX
}

/// The outline of a valid rectangle: top, bottom, left and right edges.
pub open spec fn outline_pts(rect: Rect, width: u32, height: u32, c: Color) -> Seq<Plot> {
    if !rect.spec_valid() {
        Seq::empty()
    } else {
        hline_pts(rect.x, rect.y, rect.width, width, height, c)
            + hline_pts(rect.x, (rect.y + (rect.height as i32) - 1) as i32, rect.width, width, height, c)
            + vline_pts(rect.x, rect.y, rect.height, width, height, c)
            + vline_pts((rect.x + (rect.width as i32) - 1) as i32, rect.y, rect.height, width, height, c)
    }
}

/// One step of the line walk: `(x, y, err)` after the point `(x, y)`.
pub open spec fn line_step(x: int, y: int, err: int, sx: int, sy: int, dx: int, dy: int) -> (int, int, int) {
    let e2 = 2 * err;
    let (x1, err1) = if e2 >= dy { (x + sx, err + dy) } else { (x, err) };
    let (y1, err2) = if e2 <= dx { (y + sy, err1 + dx) } else { (y, err1) };
    (x1, y1, err2)
}

/// The integer line walk from `(x, y)` to `(x1, y1)`, at most `fuel` points.
pub open spec fn line_walk(fuel: nat, x: int, y: int, err: int, x1: int, y1: int, sx: int, sy: int, dx: int, dy: int, c: Color) -> Seq<Plot>
    decreases fuel,
{
    if fuel == 0 {
        Seq::empty()
    } else if x == x1 && y == y1 {
        seq![(x, y, c)]
    } else {
        let n = line_step(x, y, err, sx, sy, dx, dy);
        seq![(x, y, c)] + line_walk((fuel - 1) as nat, n.0, n.1, n.2, x1, y1, sx, sy, dx, dy, c)
    }
}

/// The walk's arithmetic stays within `i32` up to its last point: at each
/// point before it, doubling the error and both error updates fit.
pub open spec fn walk_fits(fuel: nat, x: int, y: int, err: int, x1: int, y1: int, sx: int, sy: int, dx: int, dy: int) -> bool
    decreases fuel,
{
    if fuel == 0 || (x == x1 && y == y1) {
        true
    } else {
        let e2 = 2 * err;
        let err1 = if e2 >= dy { err + dy } else { err };
        let n = line_step(x, y, err, sx, sy, dx, dy);
        &&& i32::MIN <= e2 <= i32::MAX
        &&& i32::MIN <= err1 <= i32::MAX
        &&& i32::MIN <= n.2 <= i32::MAX
        &&& walk_fits((fuel - 1) as nat, n.0, n.1, n.2, x1, y1, sx, sy, dx, dy)
    }
}

/// Drawing the line from `(x0, y0)` to `(x1, y1)` stays within `i32`: both
/// spans and their magnitudes fit, and so does every step of the walk.
pub open spec fn line_fits(x0: i32, y0: i32, x1: i32, y1: i32) -> bool {
    let dx = iabs(x1 - x0);
    let dy = -iabs(y1 - y0);
    let sx: int = if x0 < x1 { 1 } else { -1 };
    let sy: int = if y0 < y1 { 1 } else { -1 };
    &&& -i32::MAX <= x1 - x0 <= i32::MAX
    &&& -i32::MAX <= y1 - y0 <= i32::MAX
    &&& walk_fits((dx - dy + 1) as nat, x0 as int, y0 as int, dx + dy, x1 as int, y1 as int, sx, sy, dx, dy)
}

/// While the error stays within one and a half spans, the walk's
/// arithmetic fits `i32` for spans up to 0x2AAA_AAAA.
pub proof fn lemma_walk_fits_bounded(fuel: nat, x: int, y: int, err: int, x1: int, y1: int, sx: int, sy: int, dx: int, dy: int)
    requires
        0 <= dx <= 0x2AAA_AAAA,
        -0x2AAA_AAAA <= dy <= 0,
        3 * dy <= 2 * err <= 3 * dx,
    ensures
        walk_fits(fuel, x, y, err, x1, y1, sx, sy, dx, dy),
    decreases fuel,
{
    if fuel > 0 && !(x == x1 && y == y1) {
        let n = line_step(x, y, err, sx, sy, dx, dy);
        lemma_walk_fits_bounded((fuel - 1) as nat, n.0, n.1, n.2, x1, y1, sx, sy, dx, dy);
    }
}

/// Lines whose spans are at most 0x2AAA_AAAA on each axis can always be drawn.
pub proof fn lemma_short_line_fits(x0: i32, y0: i32, x1: i32, y1: i32)
    requires
        -0x2AAA_AAAA <= x1 - x0 <= 0x2AAA_AAAA,
        -0x2AAA_AAAA <= y1 - y0 <= 0x2AAA_AAAA,
    ensures
        line_fits(x0, y0, x1, y1),
{
    let dx = iabs(x1 - x0);
    let dy = -iabs(y1 - y0);
    let sx: int = if x0 < x1 { 1 } else { -1 };
    let sy: int = if y0 < y1 { 1 } else { -1 };
    lemma_walk_fits_bounded((dx - dy + 1) as nat, x0 as int, y0 as int, dx + dy, x1 as int, y1 as int, sx, sy, dx, dy);
}

pub open spec fn iabs(v: int) -> int {
    if v < 0 { -v } else { v }
}

/// The pixels of the line from `(x0, y0)` to `(x1, y1)`, both ends included.
pub open spec fn line_pts(x0: i32, y0: i32, x1: i32, y1: i32, c: Color) -> Seq<Plot> {
    let dx = iabs(x1 - x0);
    let dy = -iabs(y1 - y0);
    let sx: int = if x0 < x1 { 1 } else { -1 };
    let sy: int = if y0 < y1 { 1 } else { -1 };
    line_walk((dx - dy + 1) as nat, x0 as int, y0 as int, dx + dy, x1 as int, y1 as int, sx, sy, dx, dy, c)
}

/// The eight symmetric points of a circle step.
pub open spec fn octants(cx: int, cy: int, x: int, y: int, c: Color) -> Seq<Plot> {
    seq![
        (cx + x, cy + y, c), (cx + y, cy + x, c), (cx - y, cy + x, c), (cx - x, cy + y, c),
        (cx - x, cy - y, c), (cx - y, cy - x, c), (cx + y, cy - x, c), (cx + x, cy - y, c),
    ]
}

pub open spec fn circle_next(x: int, y: int, err: int) -> (int, int, int) {
    let (y1, e1) = if err <= 0 { (y + 1, err + 2 * (y + 1) + 1) } else { (y, err) };
    if e1 > 0 { (x - 1, y1, e1 - 2 * (x - 1) - 1) } else { (x, y1, e1) }
}

/// The midpoint circle walk from `(x, y)` while `x >= y`.
pub open spec fn circle_walk(cx: int, cy: int, x: int, y: int, err: int, c: Color) -> Seq<Plot>
    decreases (if x >= y { x - y + 1 } else { 0 }),
{
    if x < y {
        Seq::empty()
    } else {
        let n = circle_next(x, y, err);
        octants(cx, cy, x, y, c) + circle_walk(cx, cy, n.0, n.1, n.2, c)
    }
}

/// The eight-way midpoint circle of `radius` around `(cx, cy)`.
pub open spec fn circle_pts(cx: i32, cy: i32, radius: i32, c: Color) -> Seq<Plot> {
    circle_walk(cx as int, cy as int, radius as int, 0, 0, c)
}

/// The colour stored at byte offset `off` of a BGRA buffer.
pub open spec fn bgra_at(src: Seq<u8>, off: int) -> Color {
    Color { r: src[off + 2], g: src[off + 1], b: src[off], a: src[off + 3] }
}

/// Row `y` of a blit, columns `0..n`.
pub open spec fn blit_row(dest_x: int, dest_y: int, src_w: u32, src: Seq<u8>, y: int, n: int, width: u32, height: u32) -> Seq<Plot>
    decreases n,
{
    if n <= 0 {
        Seq::empty()
    } else {
        let x = n - 1;
        let px = dest_x + x;
        let py = dest_y + y;
        let off = (y * src_w + x) * 4;
        let rest = blit_row(dest_x, dest_y, src_w, src, y, n - 1, width, height);
        if 0 <= py < height && 0 <= px < width && off + 3 < src.len() {
            rest.push((px, py, bgra_at(src, off)))
        } else {
            rest
        }
    }
}

/// Rows `0..m` of a blit of a `src_w`-pixel-wide BGRA image.
pub open spec fn blit_rows(dest_x: int, dest_y: int, src_w: u32, src: Seq<u8>, m: int, width: u32, height: u32) -> Seq<Plot>
    decreases m,
{
    if m <= 0 {
        Seq::empty()
    } else {
        blit_rows(dest_x, dest_y, src_w, src, m - 1, width, height) + blit_row(dest_x, dest_y, src_w, src, m - 1, src_w as int, width, height)
    }
}

/// Set pixels of glyph rows `0..rows` (the last row only up to column `cols`).
pub open spec fn glyph_cols(x: int, y: int, glyph: [u8; 8], row: int, cols: int, c: Color) -> Seq<Plot>
    decreases cols,
{
    if cols <= 0 {
        Seq::empty()
    } else {
        let col = cols - 1;
        let rest = glyph_cols(x, y, glyph, row, cols - 1, c);
        if glyph_bit(glyph[row], col) { rest.push((x + col, y + row, c)) } else { rest }
    }
}

pub open spec fn glyph_rows(x: int, y: int, glyph: [u8; 8], rows: int, c: Color) -> Seq<Plot>
    decreases rows,
{
    if rows <= 0 {
        Seq::empty()
    } else {
        glyph_rows(x, y, glyph, rows - 1, c) + glyph_cols(x, y, glyph, rows - 1, 8, c)
    }
}

/// The pixels of character `ch` with its top-left corner at `(x, y)`.
pub open spec fn char_pts(x: int, y: int, ch: u8, c: Color) -> Seq<Plot> {
    glyph_rows(x, y, spec_get_glyph(ch), 8, c)
}

/// The pixels of the first `n` bytes of `text`, one 9-pixel cell per byte;
/// spaces leave their cell blank.
pub open spec fn text_pts(x: int, y: int, text: Seq<u8>, n: int, c: Color) -> Seq<Plot>
    decreases n,
{
    if n <= 0 {
        Seq::empty()
    } else {
        let i = n - 1;
        let rest = text_pts(x, y, text, n - 1, c);
        if text[i] != 32 { rest + char_pts(x + 9 * i, y, text[i], c) } else { rest }
    }
}

/// A software framebuffer of `width` x `height` BGRA pixels, `stride` pixels per row.
#[derive(Debug)]
pub struct Framebuffer {
    pub width: u32,
    pub height: u32,
    pub stride: u32,
    pub buffer: Vec<u8>,
    pub gpu_accel: bool,
}

impl Framebuffer {
    /// Every in-frame pixel's byte offset, and the three bytes after it, fit in 32 bits.
    pub open spec fn addressable(&self) -> bool {
        self.width == 0 || self.height == 0
            || ((self.height - 1) * self.stride + (self.width - 1)) * 4 + 3 <= u32::MAX
    }

    /// `self` is `old` with `pts` plotted, and nothing else changed.
    pub open spec fn plotted(&self, old: Framebuffer, pts: Seq<Plot>) -> bool {
        &&& self.width == old.width && self.height == old.height && self.stride == old.stride
        &&& self.gpu_accel == old.gpu_accel
        &&& self.buffer@ == plot_all(old.buffer@, old.width, old.height, old.stride, pts)
    }

    proof fn lemma_offset_fits(&self, x: int, y: int)
        requires
            self.addressable(),
            0 <= x < self.width,
            0 <= y < self.height,
        ensures
            pixel_offset(self.stride, x, y) + 3 <= u32::MAX,
            0 <= y * self.stride + x,
            y * self.stride + x <= u32::MAX,
    {
        assert(y * self.stride <= (self.height - 1) * self.stride) by (nonlinear_arith)
            requires 0 <= y <= self.height - 1, self.stride >= 0;
        assert(0 <= y * self.stride) by (nonlinear_arith)
            requires 0 <= y, self.stride >= 0;
    }

    /// Writes pixel (`x`, `y`), known to be inside the frame.
    fn put(&mut self, x: u32, y: u32, color: Color)
        requires
            old(self).addressable(),
            x < old(self).width,
            y < old(self).height,
        ensures
            final(self).plotted(*old(self), seq![(x as int, y as int, color)]),
    {
        proof {
            self.lemma_offset_fits(x as int, y as int);
            lemma_plot_all_push(self.buffer@, self.width, self.height, self.stride, Seq::empty(), (x as int, y as int, color));
        }
        let offset = ((y * self.stride + x) * 4) as usize;
        if offset + 3 < self.buffer.len() {
            self.buffer.set(offset, color.b);
            self.buffer.set(offset + 1, color.g);
            self.buffer.set(offset + 2, color.r);
            self.buffer.set(offset + 3, color.a);
        }
        proof {
            assert(seq![(x as int, y as int, color)] =~= Seq::<Plot>::empty().push((x as int, y as int, color)));
        }
    }

    pub fn draw_pixel(&mut self, x: i32, y: i32, color: Color)
        requires
            old(self).addressable(),
        ensures
            final(self).plotted(*old(self), seq![(x as int, y as int, color)]),
    {
        if x < 0 || y < 0 || (x as u32) >= self.width || (y as u32) >= self.height {
            proof {
                assert(seq![(x as int, y as int, color)] =~= Seq::<Plot>::empty().push((x as int, y as int, color)));
                lemma_plot_all_push(self.buffer@, self.width, self.height, self.stride, Seq::empty(), (x as int, y as int, color));
            }
            return;
        }
        self.put(x as u32, y as u32, color);
    }

    pub fn draw_hline(&mut self, x: i32, y: i32, length: u32, color: Color)
        requires
            old(self).addressable(),
            i32::MIN <= x + (length as i32) <= i32::MAX,
        ensures
            final(self).plotted(*old(self), hline_pts(x, y, length, old(self).width, old(self).height, color)),
    {
        if y < 0 || (y as u32) >= self.height || length == 0 {
            return;
        }
        let start_x: u32 = if x < 0 { 0 } else { x as u32 };
        let e: i32 = x + length as i32;
        let e0: u32 = if e < 0 { 0 } else { e as u32 };
        let end_x: u32 = if e0 < self.width { e0 } else { self.width };
        if end_x <= start_x {
            return;
        }
        let ghost old_fb = *self;
        let mut px: u32 = start_x;
        proof {
            assert(span(start_x as int, px as int, y as int, color) =~= Seq::<Plot>::empty());
        }
        while px < end_x
            invariant
                start_x <= px <= end_x,
                end_x <= self.width,
                end_x <= i32::MAX,
                0 <= y < self.height,
                self.addressable(),
                self.plotted(old_fb, span(start_x as int, px as int, y as int, color)),
            decreases end_x - px,
        {
            let ghost before = *self;
            self.put(px, y as u32, color);
            proof {
                lemma_span_push(start_x as int, px as int, y as int, color);
                lemma_plot_all_push(old_fb.buffer@, old_fb.width, old_fb.height, old_fb.stride, span(start_x as int, px as int, y as int, color), (px as int, y as int, color));
                lemma_plot_all_push(before.buffer@, before.width, before.height, before.stride, Seq::empty(), (px as int, y as int, color));
                assert(Seq::<Plot>::empty().push((px as int, y as int, color)) =~= seq![(px as int, y as int, color)]);
            }
            px = px + 1;
        }
    }

    pub fn draw_vline(&mut self, x: i32, y: i32, length: u32, color: Color)
        requires
            old(self).addressable(),
            i32::MIN <= y + (length as i32) <= i32::MAX,
        ensures
            final(self).plotted(*old(self), vline_pts(x, y, length, old(self).width, old(self).height, color)),
    {
        if x < 0 || (x as u32) >= self.width || length == 0 {
            return;
        }
        let start_y: u32 = if y < 0 { 0 } else { y as u32 };
        let e: i32 = y + length as i32;
        let e0: u32 = if e < 0 { 0 } else { e as u32 };
        let end_y: u32 = if e0 < self.height { e0 } else { self.height };
        if end_y <= start_y {
            return;
        }
        let ghost old_fb = *self;
        let mut py: u32 = start_y;
        proof {
            assert(column(x as int, start_y as int, py as int, color) =~= Seq::<Plot>::empty());
        }
        while py < end_y
            invariant
                start_y <= py <= end_y,
                end_y <= self.height,
                0 <= x < self.width,
                self.addressable(),
                self.plotted(old_fb, column(x as int, start_y as int, py as int, color)),
            decreases end_y - py,
        {
            let ghost before = *self;
            self.put(x as u32, py, color);
            proof {
                lemma_column_push(x as int, start_y as int, py as int, color);
                lemma_plot_all_push(old_fb.buffer@, old_fb.width, old_fb.height, old_fb.stride, column(x as int, start_y as int, py as int, color), (x as int, py as int, color));
                lemma_plot_all_push(before.buffer@, before.width, before.height, before.stride, Seq::empty(), (x as int, py as int, color));
                assert(Seq::<Plot>::empty().push((x as int, py as int, color)) =~= seq![(x as int, py as int, color)]);
            }
            py = py + 1;
        }
    }

    pub fn fill_rect(&mut self, rect: Rect, color: Color)
        requires
            old(self).addressable(),
            rect_edges_fit(rect),
        ensures
            final(self).plotted(*old(self), rect_pts(rect, old(self).width, old(self).height, color)),
    {
        if rect.x + (rect.width as i32) <= 0 || rect.y + (rect.height as i32) <= 0 || rect.x >= (self.width as i32)
            || rect.y >= (self.height as i32) {
            return;
        }
        let start_x: u32 = if rect.x < 0 { 0 } else { rect.x as u32 };
        let start_y: u32 = if rect.y < 0 { 0 } else { rect.y as u32 };
        let ex: i32 = rect.x + rect.width as i32;
        let ex0: u32 = if ex < 0 { 0 } else { ex as u32 };
        let end_x: u32 = if ex0 < self.width { ex0 } else { self.width };
        let ey: i32 = rect.y + rect.height as i32;
        let ey0: u32 = if ey < 0 { 0 } else { ey as u32 };
        let end_y: u32 = if ey0 < self.height { ey0 } else { self.height };
        if end_y <= start_y || end_x <= start_x {
            proof {
                lemma_grid_empty(start_x as int, end_x as int, start_y as int, end_y as int, color);
            }
            return;
        }
        let ghost old_fb = *self;
        let mut y: u32 = start_y;
        while y < end_y
            invariant
                start_y <= y <= end_y,
                start_x < end_x,
                end_x <= self.width,
                end_y <= self.height,
                self.addressable(),
                self.plotted(old_fb, grid(start_x as int, end_x as int, start_y as int, y as int, color)),
            decreases end_y - y,
        {
            let ghost row_start = *self;
            let mut x: u32 = start_x;
            proof {
                assert(span(start_x as int, x as int, y as int, color) =~= Seq::<Plot>::empty());
            }
            while x < end_x
                invariant
                    start_x <= x <= end_x,
                    end_x <= self.width,
                    y < self.height,
                    self.addressable(),
                    row_start.plotted(old_fb, grid(start_x as int, end_x as int, start_y as int, y as int, color)),
                    self.plotted(row_start, span(start_x as int, x as int, y as int, color)),
                decreases end_x - x,
            {
                let ghost before = *self;
                self.put(x, y, color);
                proof {
                    lemma_span_push(start_x as int, x as int, y as int, color);
                    lemma_plot_all_push(row_start.buffer@, row_start.width, row_start.height, row_start.stride, span(start_x as int, x as int, y as int, color), (x as int, y as int, color));
                    lemma_plot_all_push(before.buffer@, before.width, before.height, before.stride, Seq::empty(), (x as int, y as int, color));
                    assert(Seq::<Plot>::empty().push((x as int, y as int, color)) =~= seq![(x as int, y as int, color)]);
                }
                x = x + 1;
            }
            proof {
                lemma_plot_all_concat(old_fb.buffer@, old_fb.width, old_fb.height, old_fb.stride,
                    grid(start_x as int, end_x as int, start_y as int, y as int, color), span(start_x as int, end_x as int, y as int, color));
            }
            y = y + 1;
        }
    }

    /// Fills the whole frame.
    pub fn clear(&mut self, color: Color)
        requires
            old(self).addressable(),
            old(self).width <= i32::MAX,
            old(self).height <= i32::MAX,
        ensures
            final(self).plotted(*old(self), rect_pts(Rect { x: 0, y: 0, width: old(self).width, height: old(self).height }, old(self).width, old(self).height, color)),
    {
        self.fill_rect(Rect { x: 0, y: 0, width: self.width, height: self.height }, color);
    }

    pub fn draw_rect(&mut self, rect: Rect, color: Color)
        requires
            old(self).addressable(),
            rect_edges_fit(rect),
        ensures
            final(self).plotted(*old(self), outline_pts(rect, old(self).width, old(self).height, color)),
    {
        if !rect.valid() {
            return;
        }
        let ghost f0 = *self;
        let w = self.width;
        let h = self.height;
        let bottom: i32 = rect.y + (rect.height as i32) - 1;
        let right: i32 = rect.x + (rect.width as i32) - 1;
        self.draw_hline(rect.x, rect.y, rect.width, color);
        let ghost f1 = *self;
        self.draw_hline(rect.x, bottom, rect.width, color);
        let ghost f2 = *self;
        self.draw_vline(rect.x, rect.y, rect.height, color);
        let ghost f3 = *self;
        self.draw_vline(right, rect.y, rect.height, color);
        proof {
            let a = hline_pts(rect.x, rect.y, rect.width, w, h, color);
            let b = hline_pts(bottom, rect.y, rect.width, w, h, color);
            let b = hline_pts(rect.x, bottom, rect.width, w, h, color);
            let cc = vline_pts(rect.x, rect.y, rect.height, w, h, color);
            let d = vline_pts(right, rect.y, rect.height, w, h, color);
            lemma_plot_all_concat(f0.buffer@, w, h, f0.stride, a, b);
            lemma_plot_all_concat(f0.buffer@, w, h, f0.stride, a + b, cc);
            lemma_plot_all_concat(f0.buffer@, w, h, f0.stride, a + b + cc, d);
        }
    }

    /// Draws a line from `(x0, y0)` to `(x1, y1)` with the integer midpoint
    /// walk; both ends are plotted.
    pub fn draw_line(&mut self, x0: i32, y0: i32, x1: i32, y1: i32, color: Color)
        requires
            old(self).addressable(),
            line_fits(x0, y0, x1, y1),
        ensures
            final(self).plotted(*old(self), line_pts(x0, y0, x1, y1, color)),
    {
        let ddx: i32 = x1 - x0;
        let dx: i32 = if ddx < 0 { -ddx } else { ddx };
        let sx: i32 = if x0 < x1 { 1 } else { -1 };
        let ddy: i32 = y1 - y0;
        let dy: i32 = if ddy < 0 { ddy } else { -ddy };
        let sy: i32 = if y0 < y1 { 1 } else { -1 };
        let mut err: i32 = dx + dy;
        let mut cx: i32 = x0;
        let mut cy: i32 = y0;
        let ghost big_dx: int = dx as int;
        let ghost big_dy: int = -(dy as int);
        let ghost fuel: nat = (big_dx + big_dy + 1) as nat;
        let ghost old_fb = *self;
        let ghost mut done: Seq<Plot> = Seq::empty();
        let ghost mut a: int = 0;
        let ghost mut b: int = 0;
        proof {
            assert(big_dx * (0 + 1) - big_dy * (0 + 1) == big_dx - big_dy) by (nonlinear_arith);
            assert(done + line_walk(fuel, cx as int, cy as int, err as int, x1 as int, y1 as int, sx as int, sy as int, dx as int, dy as int, color) =~= line_pts(x0, y0, x1, y1, color));
            lemma_plot_all_len(old_fb.buffer@, old_fb.width, old_fb.height, old_fb.stride, done);
        }
        loop
            invariant_except_break
                self.addressable(),
                0 <= a <= big_dx,
                0 <= b <= big_dy,
                big_dx == dx,
                big_dy == -dy,
                0 <= dx,
                0 <= big_dy,
                walk_fits((fuel - done.len()) as nat, cx as int, cy as int, err as int, x1 as int, y1 as int, sx as int, sy as int, dx as int, dy as int),
                sx == (if x0 < x1 { 1i32 } else { -1i32 }),
                sy == (if y0 < y1 { 1i32 } else { -1i32 }),
                dx == iabs(x1 - x0),
                dy == -iabs(y1 - y0),
                cx == (if x0 < x1 { x0 + a } else { x0 - a }),
                cy == (if y0 < y1 { y0 + b } else { y0 - b }),
                err == big_dx * (b + 1) - big_dy * (a + 1),
                -3 * big_dy <= 2 * err <= 3 * big_dx,
                fuel == big_dx + big_dy + 1,
                done.len() <= a + b,
                self.plotted(old_fb, done),
                done + line_walk((fuel - done.len()) as nat, cx as int, cy as int, err as int, x1 as int, y1 as int, sx as int, sy as int, dx as int, dy as int, color)
                    == line_pts(x0, y0, x1, y1, color),
            ensures
                self.plotted(old_fb, line_pts(x0, y0, x1, y1, color)),
            decreases big_dx - a + big_dy - b,
        {
            let ghost rest = line_walk((fuel - done.len()) as nat, cx as int, cy as int, err as int, x1 as int, y1 as int, sx as int, sy as int, dx as int, dy as int, color);
            let ghost p: Plot = (cx as int, cy as int, color);
            self.draw_pixel(cx, cy, color);
            proof {
                lemma_plot_all_concat(old_fb.buffer@, old_fb.width, old_fb.height, old_fb.stride, done, seq![p]);
            }
            if cx == x1 && cy == y1 {
                proof {
                    assert(rest == seq![p]);
                    done = done + seq![p];
                }
                break;
            }
            proof {
                if x0 < x1 { assert(cx == x1 <==> a == big_dx); } else { assert(cx == x1 <==> a == big_dx); }
                if y0 < y1 { assert(cy == y1 <==> b == big_dy); } else { assert(cy == y1 <==> b == big_dy); }
                lemma_line_no_overshoot(big_dx, big_dy, a, b, err as int);
            }
            let e2: i32 = 2 * err;
            let ghost n = line_step(cx as int, cy as int, err as int, sx as int, sy as int, dx as int, dy as int);
            let ghost a0 = a;
            let ghost b0 = b;
            if e2 >= dy {
                err = err + dy;
                cx = cx + sx;
                proof { a = a + 1; }
            }
            if e2 <= dx {
                err = err + dx;
                cy = cy + sy;
                proof { b = b + 1; }
            }
            proof {
                assert(big_dy * (a0 + 2) == big_dy * (a0 + 1) + big_dy) by (nonlinear_arith);
                assert(big_dx * (b0 + 2) == big_dx * (b0 + 1) + big_dx) by (nonlinear_arith);
                assert(n == (cx as int, cy as int, err as int));
                let f = (fuel - done.len()) as nat;
                assert(f >= 1);
                assert(rest == seq![p] + line_walk((f - 1) as nat, cx as int, cy as int, err as int, x1 as int, y1 as int, sx as int, sy as int, dx as int, dy as int, color));
                assert((done + seq![p]) + line_walk((f - 1) as nat, cx as int, cy as int, err as int, x1 as int, y1 as int, sx as int, sy as int, dx as int, dy as int, color)
                    =~= done + rest);
                done = done + seq![p];
            }
        }
    }

    /// Plots the eight symmetric points of one circle step, in order.
    fn plot8(&mut self, cx: i32, cy: i32, x: i32, y: i32, color: Color)
        requires
            old(self).addressable(),
            0 <= x,
            0 <= y,
            i32::MIN <= cx - x && cx + x <= i32::MAX && i32::MIN <= cx - y && cx + y <= i32::MAX,
            i32::MIN <= cy - x && cy + x <= i32::MAX && i32::MIN <= cy - y && cy + y <= i32::MAX,
        ensures
            final(self).plotted(*old(self), octants(cx as int, cy as int, x as int, y as int, color)),
    {
        let ghost f0 = *self;
        let ghost pts = octants(cx as int, cy as int, x as int, y as int, color);
        self.draw_pixel(cx + x, cy + y, color);
        proof { assert(pts.take(1) =~= seq![pts[0]]); }
        self.draw_pixel(cx + y, cy + x, color);
        proof { lemma_plot_all_concat(f0.buffer@, f0.width, f0.height, f0.stride, pts.take(1), seq![pts[1]]); assert(pts.take(1) + seq![pts[1]] =~= pts.take(2)); }
        self.draw_pixel(cx - y, cy + x, color);
        proof { lemma_plot_all_concat(f0.buffer@, f0.width, f0.height, f0.stride, pts.take(2), seq![pts[2]]); assert(pts.take(2) + seq![pts[2]] =~= pts.take(3)); }
        self.draw_pixel(cx - x, cy + y, color);
        proof { lemma_plot_all_concat(f0.buffer@, f0.width, f0.height, f0.stride, pts.take(3), seq![pts[3]]); assert(pts.take(3) + seq![pts[3]] =~= pts.take(4)); }
        self.draw_pixel(cx - x, cy - y, color);
        proof { lemma_plot_all_concat(f0.buffer@, f0.width, f0.height, f0.stride, pts.take(4), seq![pts[4]]); assert(pts.take(4) + seq![pts[4]] =~= pts.take(5)); }
        self.draw_pixel(cx - y, cy - x, color);
        proof { lemma_plot_all_concat(f0.buffer@, f0.width, f0.height, f0.stride, pts.take(5), seq![pts[5]]); assert(pts.take(5) + seq![pts[5]] =~= pts.take(6)); }
        self.draw_pixel(cx + y, cy - x, color);
        proof { lemma_plot_all_concat(f0.buffer@, f0.width, f0.height, f0.stride, pts.take(6), seq![pts[6]]); assert(pts.take(6) + seq![pts[6]] =~= pts.take(7)); }
        self.draw_pixel(cx + x, cy - y, color);
        proof { lemma_plot_all_concat(f0.buffer@, f0.width, f0.height, f0.stride, pts.take(7), seq![pts[7]]); assert(pts.take(7) + seq![pts[7]] =~= pts); }
    }

    /// Draws the eight-way midpoint circle of `radius` around `(cx, cy)`;
    /// a negative radius draws nothing.
    pub fn draw_circle(&mut self, cx: i32, cy: i32, radius: i32, color: Color)
        requires
            old(self).addressable(),
            radius < 0 || (radius <= 0x3FFF_FFFE && i32::MIN <= cx - radius && cx + radius <= i32::MAX
                && i32::MIN <= cy - radius && cy + radius <= i32::MAX),
        ensures
            final(self).plotted(*old(self), circle_pts(cx, cy, radius, color)),
    {
        let ghost old_fb = *self;
        if radius < 0 {
            proof {
                assert(circle_pts(cx, cy, radius, color) =~= Seq::<Plot>::empty());
            }
            return;
        }
        let mut x: i32 = radius;
        let mut y: i32 = 0;
        let mut err: i32 = 0;
        let ghost mut done: Seq<Plot> = Seq::empty();
        proof {
            assert(done + circle_walk(cx as int, cy as int, x as int, y as int, err as int, color) =~= circle_pts(cx, cy, radius, color));
            lemma_plot_all_len(old_fb.buffer@, old_fb.width, old_fb.height, old_fb.stride, done);
        }
        while x >= y
            invariant
                self.addressable(),
                0 <= radius <= 0x3FFF_FFFE,
                i32::MIN <= cx - radius && cx + radius <= i32::MAX,
                i32::MIN <= cy - radius && cy + radius <= i32::MAX,
                0 <= y,
                x <= radius,
                y <= radius + 1,
                x >= -1,
                -2 * x - 1 <= err <= 2 * y + 2,
                x >= y ==> err <= 0,
                self.plotted(old_fb, done),
                done + circle_walk(cx as int, cy as int, x as int, y as int, err as int, color) == circle_pts(cx, cy, radius, color),
            decreases (if x >= y { x - y + 1 } else { 0 }),
        {
            let ghost rest = circle_walk(cx as int, cy as int, x as int, y as int, err as int, color);
            let ghost n = circle_next(x as int, y as int, err as int);
            let ghost oct = octants(cx as int, cy as int, x as int, y as int, color);
            self.plot8(cx, cy, x, y, color);
            proof {
                lemma_plot_all_concat(old_fb.buffer@, old_fb.width, old_fb.height, old_fb.stride, done, oct);
            }
            if err <= 0 {
                y = y + 1;
                err = err + 2 * y + 1;
            }
            if err > 0 {
                x = x - 1;
                err = err - (2 * x + 1);
            }
            proof {
                assert(n == (x as int, y as int, err as int));
                assert(rest == oct + circle_walk(cx as int, cy as int, x as int, y as int, err as int, color));
                assert((done + oct) + circle_walk(cx as int, cy as int, x as int, y as int, err as int, color) =~= done + rest);
                done = done + oct;
            }
        }
        proof {
            assert(circle_walk(cx as int, cy as int, x as int, y as int, err as int, color) =~= Seq::<Plot>::empty());
            assert(done + Seq::<Plot>::empty() =~= done);
        }
    }

    proof fn lemma_src_offset_fits(src_w: u32, src_h: u32, x: int, y: int)
        requires
            ((src_h - 1) * src_w + (src_w - 1)) * 4 + 3 <= u32::MAX,
            0 <= x < src_w,
            0 <= y < src_h,
        ensures
            0 <= y * src_w + x,
            (y * src_w + x) * 4 + 3 <= u32::MAX,
    {
        assert(y * src_w <= (src_h - 1) * src_w) by (nonlinear_arith)
            requires 0 <= y <= src_h - 1, src_w >= 0;
        assert(0 <= y * src_w) by (nonlinear_arith)
            requires 0 <= y, src_w >= 0;
    }

    /// Copies a `src_w` x `src_h` BGRA image to `(dest_x, dest_y)`, clipped
    /// to the frame; source pixels past the end of `src_buf` are skipped.
    pub fn blit_buffer(&mut self, dest_x: i32, dest_y: i32, src_w: u32, src_h: u32, src_buf: &[u8])
        requires
            old(self).addressable(),
            src_w == 0 || src_h == 0 || ((src_h - 1) * src_w + (src_w - 1)) * 4 + 3 <= u32::MAX,
            src_h == 0 || (src_h - 1 <= i32::MAX && dest_y + (src_h - 1) <= i32::MAX),
            src_w == 0 || (src_w - 1 <= i32::MAX && dest_x + (src_w - 1) <= i32::MAX),
        ensures
            final(self).plotted(*old(self), blit_rows(dest_x as int, dest_y as int, src_w, src_buf@, src_h as int, old(self).width, old(self).height)),
    {
        let ghost old_fb = *self;
        let ghost w = self.width;
        let ghost h = self.height;
        let mut y: u32 = 0;
        proof {
            lemma_plot_all_len(old_fb.buffer@, w, h, old_fb.stride, Seq::empty());
        }
        while y < src_h
            invariant
                y <= src_h,
                self.addressable(),
                self.width == w && self.height == h,
                old_fb.width == w && old_fb.height == h,
                src_w == 0 || src_h == 0 || ((src_h - 1) * src_w + (src_w - 1)) * 4 + 3 <= u32::MAX,
                src_h == 0 || (src_h - 1 <= i32::MAX && dest_y + (src_h - 1) <= i32::MAX),
                src_w == 0 || (src_w - 1 <= i32::MAX && dest_x + (src_w - 1) <= i32::MAX),
                self.plotted(old_fb, blit_rows(dest_x as int, dest_y as int, src_w, src_buf@, y as int, w, h)),
            decreases src_h - y,
        {
            let ghost row_start = *self;
            let py: i32 = dest_y + (y as i32);
            let mut x: u32 = 0;
            while x < src_w
                invariant
                    x <= src_w,
                    y < src_h,
                    py == dest_y + y,
                    self.addressable(),
                    self.width == w && self.height == h,
                    row_start.width == w && row_start.height == h,
                    src_w == 0 || src_h == 0 || ((src_h - 1) * src_w + (src_w - 1)) * 4 + 3 <= u32::MAX,
                    src_w == 0 || (src_w - 1 <= i32::MAX && dest_x + (src_w - 1) <= i32::MAX),
                    self.plotted(row_start, blit_row(dest_x as int, dest_y as int, src_w, src_buf@, y as int, x as int, w, h)),
                decreases src_w - x,
            {
                let ghost before = *self;
                let px: i32 = dest_x + (x as i32);
                proof {
                    reveal_with_fuel(blit_row, 2);
                }
                if py >= 0 && (py as u32) < self.height && px >= 0 && (px as u32) < self.width {
                    proof {
                        self.lemma_src_offset_fits_pub(src_w, src_h, x as int, y as int);
                    }
                    let src_off = ((y * src_w + x) * 4) as usize;
                    if src_off + 3 < src_buf.len() {
                        let color = Color { r: src_buf[src_off + 2], g: src_buf[src_off + 1], b: src_buf[src_off], a: src_buf[src_off + 3] };
                        self.draw_pixel(px, py, color);
                        proof {
                            lemma_plot_all_concat(row_start.buffer@, w, h, row_start.stride,
                                blit_row(dest_x as int, dest_y as int, src_w, src_buf@, y as int, x as int, w, h), seq![(px as int, py as int, color)]);
                            assert(blit_row(dest_x as int, dest_y as int, src_w, src_buf@, y as int, x as int, w, h) + seq![(px as int, py as int, color)]
                                =~= blit_row(dest_x as int, dest_y as int, src_w, src_buf@, y as int, x as int + 1, w, h));
                        }
                    }
                }
                x = x + 1;
            }
            proof {
                lemma_plot_all_concat(old_fb.buffer@, w, h, old_fb.stride,
                    blit_rows(dest_x as int, dest_y as int, src_w, src_buf@, y as int, w, h),
                    blit_row(dest_x as int, dest_y as int, src_w, src_buf@, y as int, src_w as int, w, h));
            }
            y = y + 1;
        }
    }

    proof fn lemma_src_offset_fits_pub(&self, src_w: u32, src_h: u32, x: int, y: int)
        requires
            ((src_h - 1) * src_w + (src_w - 1)) * 4 + 3 <= u32::MAX,
            0 <= x < src_w,
            0 <= y < src_h,
        ensures
            0 <= y * src_w + x,
            (y * src_w + x) * 4 + 3 <= u32::MAX,
            y * src_w + x <= u32::MAX,
    {
        Self::lemma_src_offset_fits(src_w, src_h, x, y);
    }

    /// Renders character `ch` from the 8x8 font with its top-left corner at `(x, y)`.
    pub fn draw_char(&mut self, x: i32, y: i32, ch: u8, color: Color)
        requires
            old(self).addressable(),
            x <= i32::MAX - 7,
            y <= i32::MAX - 7,
        ensures
            final(self).plotted(*old(self), char_pts(x as int, y as int, ch, color)),
    {
        let glyph = get_glyph(ch);
        let ghost old_fb = *self;
        let mut row: u8 = 0;
        proof {
            lemma_plot_all_len(old_fb.buffer@, old_fb.width, old_fb.height, old_fb.stride, Seq::empty());
        }
        while row < 8
            invariant
                row <= 8,
                glyph == spec_get_glyph(ch),
                x <= i32::MAX - 7,
                y <= i32::MAX - 7,
                self.addressable(),
                self.plotted(old_fb, glyph_rows(x as int, y as int, glyph, row as int, color)),
            decreases 8 - row,
        {
            let ghost row_start = *self;
            let row_mask = glyph[row as usize];
            let mut col: u8 = 0;
            while col < 8
                invariant
                    col <= 8,
                    row < 8,
                    row_mask == glyph[row as int],
                    x <= i32::MAX - 7,
                    y <= i32::MAX - 7,
                    self.addressable(),
                    self.plotted(row_start, glyph_cols(x as int, y as int, glyph, row as int, col as int, color)),
                decreases 8 - col,
            {
                proof {
                    reveal_with_fuel(glyph_cols, 2);
                }
                if (row_mask & (1u8 << (7 - col))) != 0 {
                    let ghost before = *self;
                    self.draw_pixel(x + col as i32, y + row as i32, color);
                    proof {
                        lemma_plot_all_concat(row_start.buffer@, row_start.width, row_start.height, row_start.stride,
                            glyph_cols(x as int, y as int, glyph, row as int, col as int, color), seq![(x + col, y + row, color)]);
                        assert(glyph_cols(x as int, y as int, glyph, row as int, col as int, color) + seq![(x + col, y + row, color)]
                            =~= glyph_cols(x as int, y as int, glyph, row as int, col as int + 1, color));
                    }
                }
                col = col + 1;
            }
            proof {
                lemma_plot_all_concat(old_fb.buffer@, old_fb.width, old_fb.height, old_fb.stride,
                    glyph_rows(x as int, y as int, glyph, row as int, color), glyph_cols(x as int, y as int, glyph, row as int, 8, color));
            }
            row = row + 1;
        }
    }

    /// Renders the bytes of `text` in 9-pixel cells from `(x, y)`; spaces leave their cell blank.
    pub fn draw_text(&mut self, x: i32, y: i32, text: &str, color: Color)
        requires
            old(self).addressable(),
            x + 9 * text.spec_bytes().len() <= i32::MAX,
            y <= i32::MAX - 7,
        ensures
            final(self).plotted(*old(self), text_pts(x as int, y as int, text.spec_bytes(), text.spec_bytes().len() as int, color)),
    {
        let bytes = text.as_bytes();
        let ghost old_fb = *self;
        let mut cur_x: i32 = x;
        let mut i: usize = 0;
        proof {
            lemma_plot_all_len(old_fb.buffer@, old_fb.width, old_fb.height, old_fb.stride, Seq::empty());
        }
        while i < bytes.len()
            invariant
                bytes@ == text.spec_bytes(),
                i <= bytes@.len(),
                cur_x == x + 9 * i,
                x + 9 * bytes@.len() <= i32::MAX,
                y <= i32::MAX - 7,
                self.addressable(),
                self.plotted(old_fb, text_pts(x as int, y as int, bytes@, i as int, color)),
            decreases bytes@.len() - i,
        {
            let byte = bytes[i];
            if byte != 32u8 {
                let ghost before = *self;
                self.draw_char(cur_x, y, byte, color);
                proof {
                    lemma_plot_all_concat(old_fb.buffer@, old_fb.width, old_fb.height, old_fb.stride,
                        text_pts(x as int, y as int, bytes@, i as int, color), char_pts(cur_x as int, y as int, byte, color));
                }
            }
            cur_x = cur_x + 9;
            i = i + 1;
        }
    }

    /// Draws the 10 x 10 pointer square at `(x, y)`.
    pub fn draw_cursor(&mut self, x: i32, y: i32, color: Color)
        requires
            old(self).addressable(),
            x + 10 <= i32::MAX,
            y + 10 <= i32::MAX,
        ensures
            final(self).plotted(*old(self), rect_pts(Rect { x, y, width: 10, height: 10 }, old(self).width, old(self).height, color)),
    {
        self.fill_rect(Rect { x, y, width: 10, height: 10 }, color);
    }
}

/// The walk never steps past the end point: at the end column no column
/// step is taken, and at the end row no row step.
proof fn lemma_line_no_overshoot(dx: int, dy: int, a: int, b: int, err: int)
    requires
        0 <= a <= dx,
        0 <= b <= dy,
        err == dx * (b + 1) - dy * (a + 1),
        !(a == dx && b == dy),
    ensures
        a == dx ==> 2 * err < -dy,
        b == dy ==> 2 * err > dx,
{
    if a == dx {
        assert(dx * (b + 1) <= dx * dy) by (nonlinear_arith)
            requires 0 <= dx, b + 1 <= dy;
        assert(dy * (a + 1) == dy * dx + dy) by (nonlinear_arith)
            requires a == dx;
        assert(dy >= 1);
    }
    if b == dy {
        assert(dy * (a + 1) <= dy * dx) by (nonlinear_arith)
            requires 0 <= dy, a + 1 <= dx;
        assert(dx * (b + 1) == dx * dy + dx) by (nonlinear_arith)
            requires b == dy;
        assert(dx >= 1);
    }
}

} // verus!
