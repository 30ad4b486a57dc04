//! The drawing tools on a screenshot: the thick brush stroke, the highlighter, the
//! rectangle and circle outlines drawn over the checkpoint, and text.
use vstd::prelude::*;
use crate::backend::{self, circle_cover, on_outline, segment_cover};
use crate::brush::{
    band_covers, band_covers_upto, floor_div, isqrt, lemma_root_bounds, lemma_shift_bound, seg_len, shift,
    stroke_covers, stroke_covers_upto, stroke_line_covers,
};
use crate::pixel::{blend, blend_spec, lemma_blend_transparent, Rgba};
use crate::raster::{grid_at, grid_has, index_of, lemma_index, same_size, Raster};
use crate::screenshot::{preview_base, Screenshot};

verus! {

/// The largest coordinate magnitude, and the largest brush size, that the drawing
/// tools take.
pub const POINT_LIMIT: i32 = 0x80_0000;

pub open spec fn point_ok(p: (i32, i32)) -> bool {
    -POINT_LIMIT <= p.0 <= POINT_LIMIT && -POINT_LIMIT <= p.1 <= POINT_LIMIT
}

/// The working pixels of `new` are those of `old` with the covered cells set to `color`.
pub open spec fn painted_over(
    new: (u32, u32, Seq<Rgba>),
    old: (u32, u32, Seq<Rgba>),
    covered: spec_fn(int, int) -> bool,
    color: Rgba,
) -> bool {
    forall|x: int, y: int|
        grid_has(old, x, y) ==> #[trigger] grid_at(new, x, y) == if covered(x, y) {
            color
        } else {
            grid_at(old, x, y)
        }
}

/// What a call of `draw_line(a, b, color, size)` makes of the screenshot `old`.
pub open spec fn stroke_result(
    new: ((u32, u32, Seq<Rgba>), (u32, u32, Seq<Rgba>), (u32, u32, Seq<Rgba>)),
    old: ((u32, u32, Seq<Rgba>), (u32, u32, Seq<Rgba>), (u32, u32, Seq<Rgba>)),
    a: (i32, i32),
    b: (i32, i32),
    color: Rgba,
    size: int,
) -> bool {
    &&& same_size(new.0, old.0)
    &&& new.1 == old.1
    &&& new.2 == old.2
    &&& forall|x: int, y: int|
        grid_has(old.0, x, y) ==> #[trigger] grid_at(new.0, x, y) == if stroke_covers(
            a.0 as int,
            a.1 as int,
            b.0 as int,
            b.1 as int,
            size,
            x,
            y,
        ) {
            color
        } else {
            grid_at(old.0, x, y)
        }
}

impl Screenshot {
    /// Draws a band of thickness `size` along the segment from `starting_point` to
    /// `ending_point`: `2 · size + 1` segments parallel to it, half a pixel apart along
    /// its normal.
    pub fn draw_line(&mut self, starting_point: (i32, i32), ending_point: (i32, i32), color: Rgba, size: u32)
        requires
            old(self).wf(),
            point_ok(starting_point),
            point_ok(ending_point),
            size <= POINT_LIMIT,
        ensures
            final(self).wf(),
            stroke_result(final(self)@, old(self)@, starting_point, ending_point, color, size as int),
    {
        let ghost before = self.screenshot@;
        let x0 = starting_point.0 as i64;
        let y0 = starting_point.1 as i64;
        let x1 = ending_point.0 as i64;
        let y1 = ending_point.1 as i64;
        let dx = x1 - x0;
        let dy = y1 - y0;
        proof {
            assert(0 <= dx * dx <= 0x200_0000 * 0x200_0000) by (nonlinear_arith)
                requires
                    -0x200_0000 <= dx <= 0x200_0000,
            ;
            assert(0 <= dy * dy <= 0x200_0000 * 0x200_0000) by (nonlinear_arith)
                requires
                    -0x200_0000 <= dy <= 0x200_0000,
            ;
        }
        let sq = (dx * dx + dy * dy) as u64;
        let len_u = isqrt(sq);
        proof {
            assert(sq as int == dx * dx + dy * dy);
            assert(len_u < 0x400_0000) by (nonlinear_arith)
                requires
                    len_u * len_u <= sq,
                    sq <= 2 * (0x200_0000 * 0x200_0000),
            ;
        }
        let len = len_u as i64;
        proof {
            lemma_root_bounds(dx * dx + dy * dy, dx as int);
            lemma_root_bounds(dx * dx + dy * dy, dy as int);
            assert((x1 - x0) * (x1 - x0) + (y1 - y0) * (y1 - y0) == dx * dx + dy * dy);
            assert(len as int == seg_len(x0 as int, y0 as int, x1 as int, y1 as int));
            assert(len < 0x400_0000) by (nonlinear_arith)
                requires
                    len * len <= dx * dx + dy * dy,
                    dx * dx + dy * dy <= 2 * (0x200_0000 * 0x200_0000),
                    0 <= len,
            ;
            assert((x0 - x1) * (x0 - x1) == dx * dx) by (nonlinear_arith)
                requires
                    dx == x1 - x0,
            ;
        }
        let s = size as i64;
        let n = 2 * s + 1;
        let w = self.screenshot.width;
        let h = self.screenshot.height;
        let mut k: i64 = 0;
        while k < n
            invariant
                self.wf(),
                self.screenshot.width == w,
                self.screenshot.height == h,
                before == old(self).screenshot@,
                same_size(self.screenshot@, before),
                self.original_image@ == old(self).original_image@,
                self.intermediate_image@ == old(self).intermediate_image@,
                x0 == starting_point.0,
                y0 == starting_point.1,
                x1 == ending_point.0,
                y1 == ending_point.1,
                dx == x1 - x0,
                dy == y1 - y0,
                -0x100_0000 <= x0 <= 0x100_0000,
                -0x100_0000 <= y0 <= 0x100_0000,
                -0x100_0000 <= x1 <= 0x100_0000,
                -0x100_0000 <= y1 <= 0x100_0000,
                -len <= dx <= len,
                -len <= dy <= len,
                0 <= len < 0x400_0000,
                len as int == seg_len(x0 as int, y0 as int, x1 as int, y1 as int),
                s == size,
                s <= 0x100_0000,
                n == 2 * s + 1,
                0 <= k <= n,
                forall|x: int, y: int|
                    grid_has(before, x, y) ==> #[trigger] grid_at(self.screenshot@, x, y) == if stroke_covers_upto(
                        x0 as int,
                        y0 as int,
                        x1 as int,
                        y1 as int,
                        s as int,
                        k as int,
                        x,
                        y,
                    ) {
                        color
                    } else {
                        grid_at(before, x, y)
                    },
            decreases n - k,
        {
            let (ox, oy) = if len == 0 {
                (0i64, 0i64)
            } else {
                proof {
                    assert(-len * s <= dy * (k - s) <= len * s) by (nonlinear_arith)
                        requires
                            -len <= dy <= len,
                            -s <= k - s <= s,
                            len > 0,
                    ;
                    assert(-len * s <= (-dx) * (k - s) <= len * s) by (nonlinear_arith)
                        requires
                            -len <= dx <= len,
                            -s <= k - s <= s,
                            len > 0,
                    ;
                    assert(len * s <= 0x400_0000 * 0x100_0000) by (nonlinear_arith)
                        requires
                            0 < len <= 0x400_0000,
                            0 <= s <= 0x100_0000,
                    ;
                    let c = k - s;
                    assert(-0x400_0000 * 0x100_0000 <= dy * c <= 0x400_0000 * 0x100_0000) by (nonlinear_arith)
                        requires
                            -len <= dy <= len,
                            -s <= c <= s,
                            0 < len <= 0x400_0000,
                            0 <= s <= 0x100_0000,
                    ;
                    assert(-0x400_0000 * 0x100_0000 <= (-dx) * c <= 0x400_0000 * 0x100_0000) by (nonlinear_arith)
                        requires
                            -len <= dx <= len,
                            -s <= c <= s,
                            0 < len <= 0x400_0000,
                            0 <= s <= 0x100_0000,
                    ;
                    assert((x0 - x1) * (k - s) == (-dx) * (k - s));
                }
                (floor_div(dy * (k - s), 2 * len), floor_div((x0 - x1) * (k - s), 2 * len))
            };
            proof {
                lemma_shift_bound(dy as int, k as int, s as int, len as int);
                lemma_shift_bound((x0 - x1) as int, k as int, s as int, len as int);
                assert(ox == shift(dy as int, k as int, s as int, len as int));
                assert(oy == shift((x0 - x1) as int, k as int, s as int, len as int));
            }
            let ghost mid = self.screenshot@;
            backend::paint_segment(&mut self.screenshot.pixels, w, h, x0 + ox, y0 + oy, x1 + ox, y1 + oy, color);
            proof {
                assert forall|x: int, y: int| grid_has(before, x, y) implies #[trigger] grid_at(self.screenshot@, x, y)
                    == if stroke_covers_upto(x0 as int, y0 as int, x1 as int, y1 as int, s as int, k + 1, x, y) {
                    color
                } else {
                    grid_at(before, x, y)
                } by {
                    assert(grid_at(mid, x, y) == grid_at(self.screenshot@, x, y) || stroke_line_covers(
                        x0 as int, y0 as int, x1 as int, y1 as int, s as int, k as int, x, y));
                    if stroke_line_covers(x0 as int, y0 as int, x1 as int, y1 as int, s as int, k as int, x, y) {
                        assert(stroke_covers_upto(x0 as int, y0 as int, x1 as int, y1 as int, s as int, k + 1, x, y));
                    } else if stroke_covers_upto(x0 as int, y0 as int, x1 as int, y1 as int, s as int, k + 1, x, y) {
                        let j = choose|j: int| 0 <= j < k + 1 && #[trigger] stroke_line_covers(
                            x0 as int, y0 as int, x1 as int, y1 as int, s as int, j, x, y);
                        assert(j != k);
                        assert(stroke_covers_upto(x0 as int, y0 as int, x1 as int, y1 as int, s as int, k as int, x, y));
                    }
                }
            }
            k = k + 1;
        }
    }
}

/// The highlighter's colour: the given red, green and blue at opacity 64 / 255.
pub open spec fn highlight_tint(color: Rgba) -> Rgba {
    Rgba { r: color.r, g: color.g, b: color.b, a: 64 }
}

/// What a call of `highlight_line(a, b, size, color)` makes of the screenshot `old`.
pub open spec fn highlight_result(
    new: ((u32, u32, Seq<Rgba>), (u32, u32, Seq<Rgba>), (u32, u32, Seq<Rgba>)),
    old: ((u32, u32, Seq<Rgba>), (u32, u32, Seq<Rgba>), (u32, u32, Seq<Rgba>)),
    a: (i32, i32),
    b: (i32, i32),
    size: int,
    color: Rgba,
) -> bool {
    &&& same_size(new.0, old.0)
    &&& new.1 == old.1
    &&& new.2 == old.2
    &&& forall|x: int, y: int|
        grid_has(old.0, x, y) ==> #[trigger] grid_at(new.0, x, y) == if band_covers(
            a.0 as int,
            a.1 as int,
            b.0 as int,
            b.1 as int,
            size,
            x,
            y,
        ) {
            blend_spec(grid_at(old.0, x, y), highlight_tint(color))
        } else {
            grid_at(old.0, x, y)
        }
}

impl Screenshot {
    /// Highlights a band along the segment from `starting_point` to `ending_point`: the
    /// segment and its copies moved up by `1 ..= size` pixels are drawn on a transparent
    /// overlay in the highlighter's colour, and the overlay is blended once over the
    /// working image. A pixel under several lines of the band is tinted once.
    pub fn highlight_line(&mut self, starting_point: (i32, i32), ending_point: (i32, i32), size: u32, color: Rgba)
        requires
            old(self).wf(),
            point_ok(starting_point),
            point_ok(ending_point),
            size <= POINT_LIMIT,
        ensures
            final(self).wf(),
            highlight_result(final(self)@, old(self)@, starting_point, ending_point, size as int, color),
    {
        let ghost before = self.screenshot@;
        let tint = Rgba { r: color.r, g: color.g, b: color.b, a: 64 };
        let clear = Rgba { r: 0, g: 0, b: 0, a: 0 };
        let w = self.screenshot.width;
        let h = self.screenshot.height;
        let n = self.screenshot.pixels.len();
        let mut overlay = Raster::new_filled(w, h, clear);
        let x0 = starting_point.0 as i64;
        let y0 = starting_point.1 as i64;
        let x1 = ending_point.0 as i64;
        let y1 = ending_point.1 as i64;
        let s = size as i64;
        let mut i: i64 = 0;
        proof {
            assert forall|x: int, y: int| grid_has(before, x, y) implies #[trigger] grid_at(overlay@, x, y)
                == if band_covers_upto(x0 as int, y0 as int, x1 as int, y1 as int, i as int, x, y) { tint } else { clear } by {
                lemma_index(w as int, h as int, x, y);
            }
        }
        while i <= s
            invariant
                overlay.wf(),
                overlay.width == w,
                overlay.height == h,
                before == old(self).screenshot@,
                self.screenshot@ == before,
                w == before.0,
                h == before.1,
                x0 == starting_point.0,
                y0 == starting_point.1,
                x1 == ending_point.0,
                y1 == ending_point.1,
                -0x100_0000 <= x0 <= 0x100_0000,
                -0x100_0000 <= y0 <= 0x100_0000,
                -0x100_0000 <= x1 <= 0x100_0000,
                -0x100_0000 <= y1 <= 0x100_0000,
                s == size,
                s <= 0x100_0000,
                0 <= i <= s + 1,
                forall|x: int, y: int|
                    grid_has(before, x, y) ==> #[trigger] grid_at(overlay@, x, y) == if band_covers_upto(
                        x0 as int,
                        y0 as int,
                        x1 as int,
                        y1 as int,
                        i as int,
                        x,
                        y,
                    ) {
                        tint
                    } else {
                        clear
                    },
            decreases s + 1 - i,
        {
            let ghost mid = overlay@;
            backend::paint_segment(&mut overlay.pixels, w, h, x0, y0 - i, x1, y1 - i, tint);
            proof {
                assert forall|x: int, y: int| grid_has(before, x, y) implies #[trigger] grid_at(overlay@, x, y)
                    == if band_covers_upto(x0 as int, y0 as int, x1 as int, y1 as int, i + 1, x, y) { tint } else { clear } by {
                    assert(grid_at(mid, x, y) == mid.2[index_of(w as int, x, y)]);
                    assert(overlay.pixels@[index_of(w as int, x, y)] == if segment_cover(x0 as int, y0 - i, x1 as int, y1 - i).contains((x, y)) {
                        tint
                    } else {
                        mid.2[index_of(w as int, x, y)]
                    });
                    if segment_cover(x0 as int, y0 - i, x1 as int, y1 - i).contains((x, y)) {
                        assert(band_covers_upto(x0 as int, y0 as int, x1 as int, y1 as int, i + 1, x, y));
                    } else if band_covers_upto(x0 as int, y0 as int, x1 as int, y1 as int, i + 1, x, y) {
                        let j = choose|j: int| 0 <= j < i + 1 && #[trigger] segment_cover(x0 as int, y0 - j, x1 as int, y1 - j).contains((x, y));
                        assert(j != i);
                        assert(band_covers_upto(x0 as int, y0 as int, x1 as int, y1 as int, i as int, x, y));
                    }
                    if band_covers_upto(x0 as int, y0 as int, x1 as int, y1 as int, i as int, x, y) {
                        let j = choose|j: int| 0 <= j < i && #[trigger] segment_cover(x0 as int, y0 - j, x1 as int, y1 - j).contains((x, y));
                        assert(band_covers_upto(x0 as int, y0 as int, x1 as int, y1 as int, i + 1, x, y));
                    }
                }
            }
            i = i + 1;
        }
        let mut j: usize = 0;
        while j < n
            invariant
                overlay.wf(),
                overlay.width == w,
                overlay.height == h,
                self.wf(),
                same_size(self.screenshot@, before),
                self.original_image@ == old(self).original_image@,
                self.intermediate_image@ == old(self).intermediate_image@,
                before == old(self).screenshot@,
                n == before.2.len(),
                self.screenshot.pixels@.len() == n,
                overlay.pixels@.len() == n,
                0 <= j <= n,
                forall|k: int| 0 <= k < j ==> #[trigger] self.screenshot.pixels@[k] == blend_spec(before.2[k], overlay.pixels@[k]),
                forall|k: int| j <= k < n ==> #[trigger] self.screenshot.pixels@[k] == before.2[k],
            decreases n - j,
        {
            let bg = self.screenshot.pixels[j];
            let fg = overlay.pixels[j];
            self.screenshot.pixels.set(j, blend(bg, fg));
            j = j + 1;
        }
        proof {
            assert forall|x: int, y: int| grid_has(before, x, y) implies #[trigger] grid_at(self.screenshot@, x, y)
                == if band_covers(x0 as int, y0 as int, x1 as int, y1 as int, s as int, x, y) {
                blend_spec(grid_at(before, x, y), highlight_tint(color))
            } else {
                grid_at(before, x, y)
            } by {
                lemma_index(w as int, h as int, x, y);
                let k = index_of(w as int, x, y);
                assert(grid_at(overlay@, x, y) == overlay.pixels@[k]);
                if !band_covers(x0 as int, y0 as int, x1 as int, y1 as int, s as int, x, y) {
                    lemma_blend_transparent(before.2[k], clear);
                }
            }
        }
    }
}

/// The `t`-th outline of a rectangle preview from `a` to `b` with half thickness `half`:
/// both corners move apart by `d = t - half` along the diagonal. Returns its left, top,
/// right and bottom edges.
pub open spec fn ring_edges(a: (i32, i32), b: (i32, i32), half: int, t: int) -> (int, int, int, int) {
    let d = t - half;
    let e = if (a.0 > b.0) != (a.1 > b.1) { -d } else { d };
    let sx = a.0 - d;
    let sy = a.1 - e;
    let ex = b.0 + d;
    let ey = b.1 + e;
    let left = if sx < ex { sx } else { ex };
    let top = if sy < ey { sy } else { ey };
    let right = if sx < ex { ex - 1 } else { sx - 1 };
    let bottom = if sy < ey { ey - 1 } else { sy - 1 };
    (left, top, right, bottom)
}

/// Whether the `t`-th outline is drawn: it has a non-zero width and height.
pub open spec fn ring_drawn(a: (i32, i32), b: (i32, i32), half: int, t: int) -> bool {
    let d = t - half;
    let e = if (a.0 > b.0) != (a.1 > b.1) { -d } else { d };
    let sx = a.0 - d;
    let sy = a.1 - e;
    let ex = b.0 + d;
    let ey = b.1 + e;
    sx != ex && sy != ey
}

/// Whether one of the first `n` outlines covers `(x, y)`.
pub open spec fn rect_covers_upto(a: (i32, i32), b: (i32, i32), half: int, n: int, x: int, y: int) -> bool {
    exists|t: int|
        0 <= t < n && ring_drawn(a, b, half, t) && #[trigger] on_outline(
            ring_edges(a, b, half, t).0,
            ring_edges(a, b, half, t).1,
            ring_edges(a, b, half, t).2,
            ring_edges(a, b, half, t).3,
            x,
            y,
        )
}

/// Whether the rectangle preview from corner `a` to corner `b`, thickness `size`, on a
/// `w × h` image covers `(x, y)`: `2 · (size / 2) + 1` nested outlines.
pub open spec fn rect_covers(a: (i32, i32), b: (i32, i32), size: int, x: int, y: int) -> bool {
    rect_covers_upto(a, b, size / 2, 2 * (size / 2) + 1, x, y)
}

/// `new` is `base` with the rectangle preview from `a` to `b` drawn in `color`.
pub open spec fn rectangle_over(
    new: (u32, u32, Seq<Rgba>),
    base: (u32, u32, Seq<Rgba>),
    a: (i32, i32),
    b: (i32, i32),
    size: int,
    color: Rgba,
) -> bool {
    &&& same_size(new, base)
    &&& forall|x: int, y: int|
        grid_has(base, x, y) ==> #[trigger] grid_at(new, x, y) == if rect_covers(a, b, size, x, y) {
            color
        } else {
            grid_at(base, x, y)
        }
}

/// What a call of `rectangle(a, b, size, color)` makes of the screenshot `old`.
pub open spec fn rectangle_result(
    new: ((u32, u32, Seq<Rgba>), (u32, u32, Seq<Rgba>), (u32, u32, Seq<Rgba>)),
    old: ((u32, u32, Seq<Rgba>), (u32, u32, Seq<Rgba>), (u32, u32, Seq<Rgba>)),
    a: (i32, i32),
    b: (i32, i32),
    size: int,
    color: Rgba,
) -> bool {
    &&& rectangle_over(new.0, preview_base(old), a, b, size, color)
    &&& new.1 == old.1
    &&& new.2 == preview_base(old)
}

/// Dragging a rectangle preview never piles outlines up: after previews from corner `a`
/// to `b` and then to `b2`, the working image is the checkpoint the first preview drew
/// over, with exactly the outline from `a` to `b2`.
pub proof fn lemma_rectangle_previews_do_not_compound(
    s1: ((u32, u32, Seq<Rgba>), (u32, u32, Seq<Rgba>), (u32, u32, Seq<Rgba>)),
    s2: ((u32, u32, Seq<Rgba>), (u32, u32, Seq<Rgba>), (u32, u32, Seq<Rgba>)),
    s3: ((u32, u32, Seq<Rgba>), (u32, u32, Seq<Rgba>), (u32, u32, Seq<Rgba>)),
    a: (i32, i32),
    b: (i32, i32),
    b2: (i32, i32),
    size: int,
    color: Rgba,
)
    requires
        rectangle_result(s2, s1, a, b, size, color),
        rectangle_result(s3, s2, a, b2, size, color),
    ensures
        rectangle_over(s3.0, preview_base(s1), a, b2, size, color),
        s3.2 == preview_base(s1),
{
    assert(preview_base(s2) == preview_base(s1));
}

/// However many previews a drag has drawn, from corner `a` to the corners `bs[0]`,
/// `bs[1]`, ..., the working image after the last one is the checkpoint the first drew
/// over, with exactly the last outline: states `ss[i + 1]` come from `ss[i]` by one
/// `rectangle` call each.
pub proof fn lemma_rectangle_drag_does_not_compound(
    ss: Seq<((u32, u32, Seq<Rgba>), (u32, u32, Seq<Rgba>), (u32, u32, Seq<Rgba>))>,
    a: (i32, i32),
    bs: Seq<(i32, i32)>,
    size: int,
    color: Rgba,
)
    requires
        bs.len() >= 1,
        ss.len() == bs.len() + 1,
        forall|i: int| 0 <= i < bs.len() ==> #[trigger] rectangle_result(ss[i + 1], ss[i], a, bs[i], size, color),
    ensures
        rectangle_over(ss.last().0, preview_base(ss[0]), a, bs.last(), size, color),
        ss.last().2 == preview_base(ss[0]),
    decreases bs.len(),
{
    if bs.len() > 1 {
        let n = bs.len();
        lemma_rectangle_drag_does_not_compound(ss.drop_last(), a, bs.drop_last(), size, color);
        assert(rectangle_result(ss[n as int], ss[n - 1], a, bs[n - 1], size, color));
        assert(ss.drop_last().last() == ss[n - 1]);
        assert(preview_base(ss[n - 1]) == preview_base(ss[0]));
    } else {
        let i = 0int;
        assert(rectangle_result(ss[i + 1], ss[i], a, bs[i], size, color));
    }
}

impl Screenshot {
    /// Previews a rectangle from corner `starting_point` to corner `ending_point`: the
    /// working image is first reset to the checkpoint (a checkpoint gone stale with
    /// another size is first replaced by the working image), then `2 · (size / 2) + 1` nested
    /// outlines are drawn, so that dragging redraws the preview instead of piling
    /// outlines up.
    pub fn rectangle(&mut self, starting_point: (i32, i32), ending_point: (i32, i32), size: u32, color: Rgba)
        requires
            old(self).wf(),
            point_ok(starting_point),
            point_ok(ending_point),
            size <= POINT_LIMIT,
        ensures
            final(self).wf(),
            rectangle_result(final(self)@, old(self)@, starting_point, ending_point, size as int, color),
    {
        if self.intermediate_image.width == self.screenshot.width
            && self.intermediate_image.height == self.screenshot.height {
            self.restore_intermediate_image();
        } else {
            self.save_intermediate_image();
        }
        let ghost base = self.screenshot@;
        let w = self.screenshot.width;
        let h = self.screenshot.height;
        let half = (size / 2) as i32;
        let n: i32 = 2 * half + 1;
        let a = starting_point;
        let b = ending_point;
        let mut t: i32 = 0;
        while t < n
            invariant
                self.wf(),
                base == preview_base(old(self)@),
                self.screenshot.width == w,
                self.screenshot.height == h,
                base.0 == w,
                base.1 == h,
                same_size(self.screenshot@, base),
                self.original_image@ == old(self).original_image@,
                self.intermediate_image@ == base,
                a == starting_point,
                b == ending_point,
                -0x80_0000 <= a.0 <= 0x80_0000,
                -0x80_0000 <= a.1 <= 0x80_0000,
                -0x80_0000 <= b.0 <= 0x80_0000,
                -0x80_0000 <= b.1 <= 0x80_0000,
                w <= 0x80_0000,
                h <= 0x80_0000,
                half == size / 2,
                0 <= half <= 0x40_0000,
                n == 2 * half + 1,
                0 <= t <= n,
                forall|x: int, y: int|
                    grid_has(base, x, y) ==> #[trigger] grid_at(self.screenshot@, x, y) == if rect_covers_upto(
                        a,
                        b,
                        half as int,
                        t as int,
                        x,
                        y,
                    ) {
                        color
                    } else {
                        grid_at(base, x, y)
                    },
            decreases n - t,
        {
            let d = t - half;
            let e = if (a.0 > b.0) != (a.1 > b.1) { -d } else { d };
            let sx = a.0 - d;
            let sy = a.1 - e;
            let ex = b.0 + d;
            let ey = b.1 + e;
            let ghost mid = self.screenshot@;
            if sx != ex && sy != ey {
                let left = if sx < ex { sx } else { ex };
                let top = if sy < ey { sy } else { ey };
                let rw = if sx < ex { ex - sx } else { sx - ex };
                let rh = if sy < ey { ey - sy } else { sy - ey };
                backend::paint_outline(&mut self.screenshot.pixels, w, h, left, top, rw as u32, rh as u32, color);
                proof {
                    assert forall|x: int, y: int| grid_has(base, x, y) implies #[trigger] grid_at(self.screenshot@, x, y)
                        == if rect_covers_upto(a, b, half as int, t + 1, x, y) { color } else { grid_at(base, x, y) } by {
                        let r = ring_edges(a, b, half as int, t as int);
                        assert(grid_at(mid, x, y) == mid.2[index_of(w as int, x, y)]);
                        if on_outline(r.0, r.1, r.2, r.3, x, y) {
                            assert(rect_covers_upto(a, b, half as int, t + 1, x, y));
                        } else {
                            if rect_covers_upto(a, b, half as int, t + 1, x, y) {
                                let j = choose|j: int| 0 <= j < t + 1 && ring_drawn(a, b, half as int, j) && #[trigger] on_outline(
                                    ring_edges(a, b, half as int, j).0, ring_edges(a, b, half as int, j).1,
                                    ring_edges(a, b, half as int, j).2, ring_edges(a, b, half as int, j).3, x, y);
                                assert(j != t);
                                assert(rect_covers_upto(a, b, half as int, t as int, x, y));
                            }
                            if rect_covers_upto(a, b, half as int, t as int, x, y) {
                                let j = choose|j: int| 0 <= j < t && ring_drawn(a, b, half as int, j) && #[trigger] on_outline(
                                    ring_edges(a, b, half as int, j).0, ring_edges(a, b, half as int, j).1,
                                    ring_edges(a, b, half as int, j).2, ring_edges(a, b, half as int, j).3, x, y);
                                assert(rect_covers_upto(a, b, half as int, t + 1, x, y));
                            }
                        }
                    }
                }
            } else {
                proof {
                    assert forall|x: int, y: int| grid_has(base, x, y) implies #[trigger] grid_at(self.screenshot@, x, y)
                        == if rect_covers_upto(a, b, half as int, t + 1, x, y) { color } else { grid_at(base, x, y) } by {
                        if rect_covers_upto(a, b, half as int, t + 1, x, y) {
                            let j = choose|j: int| 0 <= j < t + 1 && ring_drawn(a, b, half as int, j) && #[trigger] on_outline(
                                ring_edges(a, b, half as int, j).0, ring_edges(a, b, half as int, j).1,
                                ring_edges(a, b, half as int, j).2, ring_edges(a, b, half as int, j).3, x, y);
                            assert(j != t);
                            assert(rect_covers_upto(a, b, half as int, t as int, x, y));
                        }
                        if rect_covers_upto(a, b, half as int, t as int, x, y) {
                            let j = choose|j: int| 0 <= j < t && ring_drawn(a, b, half as int, j) && #[trigger] on_outline(
                                ring_edges(a, b, half as int, j).0, ring_edges(a, b, half as int, j).1,
                                ring_edges(a, b, half as int, j).2, ring_edges(a, b, half as int, j).3, x, y);
                            assert(rect_covers_upto(a, b, half as int, t + 1, x, y));
                        }
                    }
                }
            }
            t = t + 1;
        }
    }
}

/// Whether one of the first `n` rings of a circle preview covers `(x, y)`: ring `t` has
/// radius `radius + t - half`.
pub open spec fn rings_cover_upto(c: (i32, i32), radius: int, half: int, n: int, x: int, y: int) -> bool {
    exists|t: int| 0 <= t < n && #[trigger] circle_cover(c.0 as int, c.1 as int, radius + t - half).contains((x, y))
}

/// Whether the circle preview centred on `c` through `e`, thickness `size`, on a `w × h`
/// image covers `(x, y)`: `2 · (size / 2) + 1` concentric rings around the distance
/// from `c` to `e`.
pub open spec fn circle_covers(c: (i32, i32), e: (i32, i32), size: int, x: int, y: int) -> bool {
    rings_cover_upto(c, seg_len(c.0 as int, c.1 as int, e.0 as int, e.1 as int), size / 2, 2 * (size / 2) + 1, x, y)
}

/// What a call of `circle(c, e, size, color)` makes of the screenshot `old`.
pub open spec fn circle_result(
    new: ((u32, u32, Seq<Rgba>), (u32, u32, Seq<Rgba>), (u32, u32, Seq<Rgba>)),
    old: ((u32, u32, Seq<Rgba>), (u32, u32, Seq<Rgba>), (u32, u32, Seq<Rgba>)),
    c: (i32, i32),
    e: (i32, i32),
    size: int,
    color: Rgba,
) -> bool {
    let base = preview_base(old);
    &&& same_size(new.0, base)
    &&& forall|x: int, y: int|
        grid_has(base, x, y) ==> #[trigger] grid_at(new.0, x, y) == if circle_covers(c, e, size, x, y) {
            color
        } else {
            grid_at(base, x, y)
        }
    &&& new.1 == old.1
    &&& new.2 == base
}

impl Screenshot {
    /// Previews a circle centred on `center` whose radius is the distance to
    /// `ending_point`, rounded down: the working image is first reset to the checkpoint
    /// (a stale checkpoint of another size is first replaced by the working image), then
    /// `2 · (size / 2) + 1` concentric rings are drawn.
    pub fn circle(&mut self, center: (i32, i32), ending_point: (i32, i32), size: u32, color: Rgba)
        requires
            old(self).wf(),
            point_ok(center),
            point_ok(ending_point),
            size <= POINT_LIMIT,
        ensures
            final(self).wf(),
            circle_result(final(self)@, old(self)@, center, ending_point, size as int, color),
    {
        if self.intermediate_image.width == self.screenshot.width
            && self.intermediate_image.height == self.screenshot.height {
            self.restore_intermediate_image();
        } else {
            self.save_intermediate_image();
        }
        let ghost base = self.screenshot@;
        let w = self.screenshot.width;
        let h = self.screenshot.height;
        let c = center;
        let dx = ending_point.0 as i64 - c.0 as i64;
        let dy = ending_point.1 as i64 - c.1 as i64;
        proof {
            assert(0 <= dx * dx <= 0x100_0000 * 0x100_0000) by (nonlinear_arith)
                requires
                    -0x100_0000 <= dx <= 0x100_0000,
            ;
            assert(0 <= dy * dy <= 0x100_0000 * 0x100_0000) by (nonlinear_arith)
                requires
                    -0x100_0000 <= dy <= 0x100_0000,
            ;
        }
        let sq = (dx * dx + dy * dy) as u64;
        let radius_u = isqrt(sq);
        proof {
            assert(radius_u < 0x200_0000) by (nonlinear_arith)
                requires
                    radius_u * radius_u <= sq,
                    sq <= 2 * (0x100_0000 * 0x100_0000),
            ;
            assert((ending_point.0 - c.0) * (ending_point.0 - c.0) + (ending_point.1 - c.1) * (ending_point.1 - c.1) == dx * dx + dy * dy);
        }
        let radius = radius_u as i32;
        let half = (size / 2) as i32;
        let n: i32 = 2 * half + 1;
        let mut t: i32 = 0;
        while t < n
            invariant
                self.wf(),
                base == preview_base(old(self)@),
                self.screenshot.width == w,
                self.screenshot.height == h,
                base.0 == w,
                base.1 == h,
                same_size(self.screenshot@, base),
                self.original_image@ == old(self).original_image@,
                self.intermediate_image@ == base,
                c == center,
                -0x80_0000 <= c.0 <= 0x80_0000,
                -0x80_0000 <= c.1 <= 0x80_0000,
                w <= 0x80_0000,
                h <= 0x80_0000,
                radius as int == seg_len(c.0 as int, c.1 as int, ending_point.0 as int, ending_point.1 as int),
                0 <= radius < 0x200_0000,
                half == size / 2,
                0 <= half <= 0x40_0000,
                n == 2 * half + 1,
                0 <= t <= n,
                forall|x: int, y: int|
                    grid_has(base, x, y) ==> #[trigger] grid_at(self.screenshot@, x, y) == if rings_cover_upto(
                        c,
                        radius as int,
                        half as int,
                        t as int,
                        x,
                        y,
                    ) {
                        color
                    } else {
                        grid_at(base, x, y)
                    },
            decreases n - t,
        {
            let ghost mid = self.screenshot@;
            backend::paint_circle(&mut self.screenshot.pixels, w, h, c.0, c.1, radius + t - half, color);
            proof {
                assert forall|x: int, y: int| grid_has(base, x, y) implies #[trigger] grid_at(self.screenshot@, x, y)
                    == if rings_cover_upto(c, radius as int, half as int, t + 1, x, y) { color } else { grid_at(base, x, y) } by {
                    assert(grid_at(mid, x, y) == mid.2[index_of(w as int, x, y)]);
                    if rings_cover_upto(c, radius as int, half as int, t + 1, x, y)
                        && !circle_cover(c.0 as int, c.1 as int, radius + t - half).contains((x, y)) {
                        let j = choose|j: int| 0 <= j < t + 1 && #[trigger] circle_cover(c.0 as int, c.1 as int, radius + j - half).contains((x, y));
                        assert(j != t);
                        assert(rings_cover_upto(c, radius as int, half as int, t as int, x, y));
                    }
                    if rings_cover_upto(c, radius as int, half as int, t as int, x, y) {
                        let j = choose|j: int| 0 <= j < t && #[trigger] circle_cover(c.0 as int, c.1 as int, radius + j - half).contains((x, y));
                        assert(rings_cover_upto(c, radius as int, half as int, t + 1, x, y));
                    }
                    if circle_cover(c.0 as int, c.1 as int, radius + t - half).contains((x, y)) {
                        assert(rings_cover_upto(c, radius as int, half as int, t + 1, x, y));
                    }
                }
            }
            t = t + 1;
        }
    }
}

} // verus!
