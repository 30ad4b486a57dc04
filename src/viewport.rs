//! Mapping between the letterboxed display of the image and its pixels. The image is
//! scaled by `num / den = min(Vh / h, Vw / w)` to fit a `Vw × Vh` area, centred across a
//! window `Ww` wide, and centred vertically in the area below a panel. All positions are
//! whole screen pixels; the mapping is exact rational arithmetic, rounded down.
use vstd::prelude::*;
use crate::brush::floor_div;
use crate::raster::MAX_SIDE;

verus! {

/// The largest screen coordinate or size the mapping takes.
pub const SCREEN_LIMIT: i32 = 0x40_0000;

/// Height of the frame drawn around the panel above the image, in screen pixels.
pub const PANEL_MARGIN: i32 = 2;

/// Sizes and offsets of the display, in screen pixels.
#[derive(Clone, Copy, Debug, PartialEq, Eq, Structural)]
pub struct Viewport {
    /// Width of the area the image is fitted into.
    pub available_w: i32,
    /// Height of the area the image is fitted into.
    pub available_h: i32,
    /// Width of the whole window, across which the image is centred.
    pub window_w: i32,
    /// Height of the panel above the area.
    pub panel_h: i32,
}

/// The image and the area both have positive sizes within the limits.
pub open spec fn geometry_ok(w: int, h: int, v: Viewport) -> bool {
    &&& 0 < w <= MAX_SIDE
    &&& 0 < h <= MAX_SIDE
    &&& 0 < v.available_w <= SCREEN_LIMIT
    &&& 0 < v.available_h <= SCREEN_LIMIT
    &&& -SCREEN_LIMIT <= v.window_w <= SCREEN_LIMIT
    &&& -SCREEN_LIMIT <= v.panel_h <= SCREEN_LIMIT
}

/// The image fills the area's height (rather than its width).
pub open spec fn fits_height(w: int, h: int, v: Viewport) -> bool {
    v.available_h * w <= v.available_w * h
}

/// Numerator of the display scale: screen pixels per `den` image pixels.
pub open spec fn scale_num(w: int, h: int, v: Viewport) -> int {
    if fits_height(w, h, v) { v.available_h as int } else { v.available_w as int }
}

/// Denominator of the display scale.
pub open spec fn scale_den(w: int, h: int, v: Viewport) -> int {
    if fits_height(w, h, v) { h } else { w }
}

/// Top of the area the image is fitted into.
pub open spec fn area_top(v: Viewport) -> int {
    v.panel_h + PANEL_MARGIN
}

/// Image column under screen column `cx`, rounded down:
/// `(cx − (Ww − w · s) / 2) / s` with `s = num / den`.
pub open spec fn column_of(w: int, h: int, v: Viewport, cx: int) -> int {
    ((2 * cx - v.window_w) * scale_den(w, h, v) + w * scale_num(w, h, v)) / (2 * scale_num(w, h, v))
}

/// Image row under screen row `cy`, rounded down:
/// `(cy − top − (Vh − h · s) / 2) / s` with `s = num / den`.
pub open spec fn row_of(w: int, h: int, v: Viewport, cy: int) -> int {
    ((2 * (cy - area_top(v)) - v.available_h) * scale_den(w, h, v) + h * scale_num(w, h, v)) / (2 * scale_num(w, h, v))
}

/// Screen column at which image column `px` starts, rounded up.
pub open spec fn screen_column(w: int, h: int, v: Viewport, px: int) -> int {
    -((-(v.window_w * scale_den(w, h, v) - w * scale_num(w, h, v) + 2 * px * scale_num(w, h, v))) / (2 * scale_den(w, h, v)))
}

/// Screen row at which image row `py` starts, rounded up.
pub open spec fn screen_row(w: int, h: int, v: Viewport, py: int) -> int {
    -((-((2 * area_top(v) + v.available_h) * scale_den(w, h, v) - h * scale_num(w, h, v) + 2 * py * scale_num(w, h, v)))
        / (2 * scale_den(w, h, v)))
}

pub open spec fn fits_i32(x: int) -> bool {
    i32::MIN <= x <= i32::MAX
}

proof fn lemma_scale(w: int, h: int, v: Viewport)
    requires
        geometry_ok(w, h, v),
    ensures
        0 < scale_num(w, h, v) <= SCREEN_LIMIT,
        0 < scale_den(w, h, v) <= MAX_SIDE,
{
}

/// The pixel that `screen_to_pixel` reports.
pub open spec fn pixel_under(w: u32, h: u32, v: Viewport, cursor: (i32, i32), return_always: bool) -> Option<(i32, i32)> {
    let x = column_of(w as int, h as int, v, cursor.0 as int);
    let y = row_of(w as int, h as int, v, cursor.1 as int);
    if geometry_ok(w as int, h as int, v) && fits_i32(x) && fits_i32(y) && (return_always || (0 <= x < w && 0 <= y < h)) {
        Some((x as i32, y as i32))
    } else {
        None
    }
}

/// Image pixel under the screen point `cursor` of a `w × h` image shown in `v`. `None`
/// when the geometry is degenerate or the result does not fit an `i32`; otherwise
/// `None` also when the point lies outside the image, unless `return_always` asks for
/// the position wherever it is.
pub fn screen_to_pixel(w: u32, h: u32, v: Viewport, cursor: (i32, i32), return_always: bool) -> (r: Option<(i32, i32)>)
    ensures
        r.is_some() <==> {
            &&& geometry_ok(w as int, h as int, v)
            &&& fits_i32(column_of(w as int, h as int, v, cursor.0 as int))
            &&& fits_i32(row_of(w as int, h as int, v, cursor.1 as int))
            &&& (return_always || (0 <= column_of(w as int, h as int, v, cursor.0 as int) < w && 0 <= row_of(
                w as int,
                h as int,
                v,
                cursor.1 as int,
            ) < h))
        },
        r matches Some(p) ==> p.0 == column_of(w as int, h as int, v, cursor.0 as int) && p.1 == row_of(
            w as int,
            h as int,
            v,
            cursor.1 as int,
        ),
        r == pixel_under(w, h, v, cursor, return_always),
{
    if w == 0 || h == 0 || w > MAX_SIDE || h > MAX_SIDE || v.available_w <= 0 || v.available_h <= 0
        || v.available_w > SCREEN_LIMIT || v.available_h > SCREEN_LIMIT || v.window_w < -SCREEN_LIMIT
        || v.window_w > SCREEN_LIMIT || v.panel_h < -SCREEN_LIMIT || v.panel_h > SCREEN_LIMIT {
        return None;
    }
    let wi = w as i64;
    let hi = h as i64;
    let aw = v.available_w as i64;
    let ah = v.available_h as i64;
    proof {
        assert(ah * wi <= 0x40_0000 * 0x80_0000) by (nonlinear_arith)
            requires 0 < ah <= 0x40_0000, 0 < wi <= 0x80_0000;
        assert(aw * hi <= 0x40_0000 * 0x80_0000) by (nonlinear_arith)
            requires 0 < aw <= 0x40_0000, 0 < hi <= 0x80_0000;
    }
    let (num, den) = if ah * wi <= aw * hi { (ah, hi) } else { (aw, wi) };
    let cx = cursor.0 as i64;
    let cy = cursor.1 as i64;
    let top = v.panel_h as i64 + PANEL_MARGIN as i64;
    proof {
        assert((2 * cx - v.window_w) * den <= 0x4_0000_0000 * 0x80_0000) by (nonlinear_arith)
            requires -0x2_0000_0000 <= 2 * cx - v.window_w <= 0x2_0000_0000, 0 < den <= 0x80_0000;
        assert((2 * cx - v.window_w) * den >= -0x4_0000_0000 * 0x80_0000) by (nonlinear_arith)
            requires -0x2_0000_0000 <= 2 * cx - v.window_w <= 0x2_0000_0000, 0 < den <= 0x80_0000;
        assert(0 < wi * num <= 0x80_0000 * 0x40_0000) by (nonlinear_arith)
            requires 0 < num <= 0x40_0000, 0 < wi <= 0x80_0000;
        assert((2 * (cy - top) - ah) * den <= 0x8_0000_0000 * 0x80_0000) by (nonlinear_arith)
            requires -0x4_0000_0000 <= 2 * (cy - top) - ah <= 0x4_0000_0000, 0 < den <= 0x80_0000;
        assert((2 * (cy - top) - ah) * den >= -0x8_0000_0000 * 0x80_0000) by (nonlinear_arith)
            requires -0x4_0000_0000 <= 2 * (cy - top) - ah <= 0x4_0000_0000, 0 < den <= 0x80_0000;
        assert(0 < hi * num <= 0x80_0000 * 0x40_0000) by (nonlinear_arith)
            requires 0 < num <= 0x40_0000, 0 < hi <= 0x80_0000;
    }
    let px = floor_div((2 * cx - v.window_w as i64) * den + wi * num, 2 * num);
    let py = floor_div((2 * (cy - top) - ah) * den + hi * num, 2 * num);
    if px < i32::MIN as i64 || px > i32::MAX as i64 || py < i32::MIN as i64 || py > i32::MAX as i64 {
        return None;
    }
    if !return_always && (px < 0 || px >= wi || py < 0 || py >= hi) {
        return None;
    }
    Some((px as i32, py as i32))
}

/// Screen point at which image pixel `(px, py)` starts, rounded up: the inverse of
/// `screen_to_pixel`.
pub fn pixel_to_screen(w: u32, h: u32, v: Viewport, px: u32, py: u32) -> (r: (i64, i64))
    requires
        geometry_ok(w as int, h as int, v),
        px < w,
        py < h,
    ensures
        r.0 == screen_column(w as int, h as int, v, px as int),
        r.1 == screen_row(w as int, h as int, v, py as int),
{
    let wi = w as i64;
    let hi = h as i64;
    let aw = v.available_w as i64;
    let ah = v.available_h as i64;
    proof {
        assert(ah * wi <= 0x40_0000 * 0x80_0000) by (nonlinear_arith)
            requires 0 < ah <= 0x40_0000, 0 < wi <= 0x80_0000;
        assert(aw * hi <= 0x40_0000 * 0x80_0000) by (nonlinear_arith)
            requires 0 < aw <= 0x40_0000, 0 < hi <= 0x80_0000;
    }
    let (num, den) = if ah * wi <= aw * hi { (ah, hi) } else { (aw, wi) };
    let top = v.panel_h as i64 + PANEL_MARGIN as i64;
    let x = px as i64;
    let y = py as i64;
    proof {
        assert(-0x40_0000 * 0x80_0000 <= (v.window_w as int) * den <= 0x40_0000 * 0x80_0000) by (nonlinear_arith)
            requires -0x40_0000 <= v.window_w <= 0x40_0000, 0 < den <= 0x80_0000;
        assert(0 < wi * num <= 0x80_0000 * 0x40_0000) by (nonlinear_arith)
            requires 0 < num <= 0x40_0000, 0 < wi <= 0x80_0000;
        assert(0 <= 2 * x * num <= 2 * 0x80_0000 * 0x40_0000) by (nonlinear_arith)
            requires 0 < num <= 0x40_0000, 0 <= x <= 0x80_0000;
        assert(-0x100_0000 * 0x80_0000 <= (2 * top + ah) * den <= 0x100_0000 * 0x80_0000) by (nonlinear_arith)
            requires -0x80_0000 <= 2 * top + ah <= 0x100_0000, 0 < den <= 0x80_0000;
        assert(0 < hi * num <= 0x80_0000 * 0x40_0000) by (nonlinear_arith)
            requires 0 < num <= 0x40_0000, 0 < hi <= 0x80_0000;
        assert(0 <= 2 * y * num <= 2 * 0x80_0000 * 0x40_0000) by (nonlinear_arith)
            requires 0 < num <= 0x40_0000, 0 <= y <= 0x80_0000;
    }
    let sx = -floor_div(-(v.window_w as i64 * den - wi * num + 2 * x * num), 2 * den);
    let sy = -floor_div(-((2 * top + ah) * den - hi * num + 2 * y * num), 2 * den);
    (sx, sy)
}

/// Rounding `(k + 2pn) / 2d` up and mapping back with `(2d · s − k) / 2n` rounded down
/// lands on `p`, or less than `d / n` past it.
proof fn lemma_up_then_down(k: int, n: int, d: int, p: int)
    requires
        n > 0,
        d > 0,
    ensures
        ({
            let s = -((-(k + 2 * p * n)) / (2 * d));
            let b = (2 * d * s - k) / (2 * n);
            p <= b && (b - p) * n < d
        }),
{
    let a = k + 2 * p * n;
    let q = (-a) / (2 * d);
    vstd::arithmetic::div_mod::lemma_fundamental_div_mod(-a, 2 * d);
    let m = (-a) % (2 * d);
    assert(0 <= m < 2 * d);
    let s = -q;
    assert(2 * d * s == a + m) by (nonlinear_arith)
        requires
            -a == 2 * d * q + m,
            s == -q,
    ;
    let bb = 2 * d * s - k;
    assert(bb == 2 * p * n + m);
    let b = bb / (2 * n);
    vstd::arithmetic::div_mod::lemma_fundamental_div_mod(bb, 2 * n);
    let m2 = bb % (2 * n);
    assert(0 <= m2 < 2 * n);
    assert(p <= b) by (nonlinear_arith)
        requires
            bb == 2 * n * b + m2,
            bb == 2 * p * n + m,
            0 <= m,
            m2 < 2 * n,
            n > 0,
    ;
    assert((b - p) * n < d) by (nonlinear_arith)
        requires
            bb == 2 * n * b + m2,
            bb == 2 * p * n + m,
            m < 2 * d,
            0 <= m2,
            n > 0,
    ;
}

/// Mapping an image pixel to the screen point where it starts and back gives the pixel
/// again when the display does not shrink the image (`num ≥ den`); when it does, the
/// result lies less than one screen pixel, `den / num` image pixels, past it.
pub proof fn lemma_pixel_round_trip(w: int, h: int, v: Viewport, px: int, py: int)
    requires
        geometry_ok(w, h, v),
        0 <= px < w,
        0 <= py < h,
    ensures
        ({
            let bx = column_of(w, h, v, screen_column(w, h, v, px));
            let by = row_of(w, h, v, screen_row(w, h, v, py));
            let n = scale_num(w, h, v);
            let d = scale_den(w, h, v);
            &&& px <= bx
            &&& (bx - px) * n < d
            &&& py <= by
            &&& (by - py) * n < d
            &&& (n >= d ==> bx == px && by == py)
        }),
{
    let n = scale_num(w, h, v);
    let d = scale_den(w, h, v);
    lemma_scale(w, h, v);
    let kx = v.window_w * d - w * n;
    let ky = (2 * area_top(v) + v.available_h) * d - h * n;
    lemma_up_then_down(kx, n, d, px);
    lemma_up_then_down(ky, n, d, py);
    let sx = screen_column(w, h, v, px);
    let sy = screen_row(w, h, v, py);
    assert(sx == -((-(kx + 2 * px * n)) / (2 * d)));
    assert(sy == -((-(ky + 2 * py * n)) / (2 * d)));
    assert((2 * sx - v.window_w) * d + w * n == 2 * d * sx - kx) by (nonlinear_arith)
        requires
            kx == v.window_w * d - w * n,
    ;
    assert((2 * (sy - area_top(v)) - v.available_h) * d + h * n == 2 * d * sy - ky) by (nonlinear_arith)
        requires
            ky == (2 * area_top(v) + v.available_h) * d - h * n,
    ;
    let bx = column_of(w, h, v, sx);
    let by = row_of(w, h, v, sy);
    if n >= d {
        assert(bx - px < 1) by (nonlinear_arith)
            requires
                (bx - px) * n < d,
                n >= d,
                d > 0,
        ;
        assert(by - py < 1) by (nonlinear_arith)
            requires
                (by - py) * n < d,
                n >= d,
                d > 0,
        ;
    }
}

/// Where the image is shown, in screen pixels rounded down, and the display scale
/// `scale_num / scale_den`.
#[derive(Clone, Copy, Debug, PartialEq, Eq, Structural)]
pub struct ImageRect {
    pub left: i64,
    pub top: i64,
    pub width: i64,
    pub height: i64,
    pub scale_num: i64,
    pub scale_den: i64,
}

/// The letterboxed rectangle of a `w × h` image shown in `v`; `None` when the geometry
/// is degenerate.
pub fn letterbox(w: u32, h: u32, v: Viewport) -> (r: Option<ImageRect>)
    ensures
        r.is_some() == geometry_ok(w as int, h as int, v),
        r matches Some(b) ==> {
            let n = scale_num(w as int, h as int, v);
            let d = scale_den(w as int, h as int, v);
            &&& b.scale_num == n
            &&& b.scale_den == d
            &&& b.width == w * n / d
            &&& b.height == h * n / d
            &&& b.left == (v.window_w * d - w * n) / (2 * d)
            &&& b.top == ((2 * area_top(v) + v.available_h) * d - h * n) / (2 * d)
        },
{
    if w == 0 || h == 0 || w > MAX_SIDE || h > MAX_SIDE || v.available_w <= 0 || v.available_h <= 0
        || v.available_w > SCREEN_LIMIT || v.available_h > SCREEN_LIMIT || v.window_w < -SCREEN_LIMIT
        || v.window_w > SCREEN_LIMIT || v.panel_h < -SCREEN_LIMIT || v.panel_h > SCREEN_LIMIT {
        return None;
    }
    let wi = w as i64;
    let hi = h as i64;
    let aw = v.available_w as i64;
    let ah = v.available_h as i64;
    proof {
        assert(ah * wi <= 0x40_0000 * 0x80_0000) by (nonlinear_arith)
            requires 0 < ah <= 0x40_0000, 0 < wi <= 0x80_0000;
        assert(aw * hi <= 0x40_0000 * 0x80_0000) by (nonlinear_arith)
            requires 0 < aw <= 0x40_0000, 0 < hi <= 0x80_0000;
    }
    let (num, den) = if ah * wi <= aw * hi { (ah, hi) } else { (aw, wi) };
    let top = v.panel_h as i64 + PANEL_MARGIN as i64;
    proof {
        assert(-0x40_0000 * 0x80_0000 <= (v.window_w as int) * den <= 0x40_0000 * 0x80_0000) by (nonlinear_arith)
            requires -0x40_0000 <= v.window_w <= 0x40_0000, 0 < den <= 0x80_0000;
        assert(0 < wi * num <= 0x80_0000 * 0x40_0000) by (nonlinear_arith)
            requires 0 < num <= 0x40_0000, 0 < wi <= 0x80_0000;
        assert(-0x100_0000 * 0x80_0000 <= (2 * top + ah) * den <= 0x100_0000 * 0x80_0000) by (nonlinear_arith)
            requires -0x80_0000 <= 2 * top + ah <= 0x100_0000, 0 < den <= 0x80_0000;
        assert(0 < hi * num <= 0x80_0000 * 0x40_0000) by (nonlinear_arith)
            requires 0 < num <= 0x40_0000, 0 < hi <= 0x80_0000;
    }
    Some(ImageRect {
        left: floor_div(v.window_w as i64 * den - wi * num, 2 * den),
        top: floor_div((2 * top + ah) * den - hi * num, 2 * den),
        width: wi * num / den,
        height: hi * num / den,
        scale_num: num,
        scale_den: den,
    })
}

} // verus!
