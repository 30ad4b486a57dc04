//! Text stamping: the text is split into lines at each newline, and line `k` is drawn
//! `k` line heights below the first.
use vstd::prelude::*;
use vstd::string::StringSliceAdditionalSpecFns;
use crate::backend::{self, advance_of, bearing_of, face_header, font_parses, line_glyphs, renders, text_stamp};
use crate::pixel::Rgba;
use crate::raster::{same_size, MAX_SIDE};
use crate::screenshot::{ScreenShotError, Screenshot};
use crate::drawing::point_ok;

verus! {

/// The lines of `text`, split at each newline byte; the newlines themselves are dropped,
/// and a text without newlines is a single line.
pub open spec fn lines_of(text: Seq<u8>) -> Seq<Seq<u8>>
    decreases text.len(),
{
    if text.len() == 0 {
        seq![Seq::<u8>::empty()]
    } else {
        let ls = lines_of(text.drop_last());
        if text.last() == 10u8 {
            ls.push(Seq::<u8>::empty())
        } else {
            ls.update(ls.len() - 1, ls.last().push(text.last()))
        }
    }
}

proof fn lemma_lines_nonempty(text: Seq<u8>)
    ensures
        lines_of(text).len() >= 1,
    decreases text.len(),
{
    if text.len() > 0 {
        lemma_lines_nonempty(text.drop_last());
    }
}

/// The lines of `text`, split at each newline.
pub fn split_lines(text: &str) -> (lines: Vec<Vec<u8>>)
    ensures
        lines@.map_values(|l: Vec<u8>| l@) == lines_of(text.spec_bytes()),
{
    let bytes = text.as_bytes();
    let mut lines: Vec<Vec<u8>> = Vec::new();
    let mut cur: Vec<u8> = Vec::new();
    let mut i: usize = 0;
    proof {
        assert(bytes@.subrange(0, 0) =~= Seq::<u8>::empty());
        assert(lines@.map_values(|l: Vec<u8>| l@).push(cur@) =~= lines_of(bytes@.subrange(0, 0)));
    }
    while i < bytes.len()
        invariant
            i <= bytes@.len(),
            bytes@ == text.spec_bytes(),
            lines@.map_values(|l: Vec<u8>| l@).push(cur@) == lines_of(bytes@.subrange(0, i as int)),
        decreases bytes@.len() - i,
    {
        let ghost prev = bytes@.subrange(0, i as int);
        let ghost next = bytes@.subrange(0, i + 1);
        proof {
            assert(next.drop_last() =~= prev);
            lemma_lines_nonempty(prev);
        }
        if bytes[i] == 10 {
            let done = cur;
            cur = Vec::new();
            lines.push(done);
            proof {
                assert(lines@.map_values(|l: Vec<u8>| l@).push(cur@) =~= lines_of(next));
            }
        } else {
            cur.push(bytes[i]);
            proof {
                assert(lines@.map_values(|l: Vec<u8>| l@).push(cur@) =~= lines_of(next));
            }
        }
        i = i + 1;
    }
    lines.push(cur);
    proof {
        assert(bytes@.subrange(0, bytes@.len() as int) =~= bytes@);
        assert(lines@.map_values(|l: Vec<u8>| l@) =~= lines_of(text.spec_bytes()));
    }
    lines
}

/// How many lines of a text of `n` lines starting at `y`, `sy` apart, begin no lower
/// than `MAX_SIDE`, the tallest an image can be: those below are not drawn.
pub open spec fn shown_lines(n: int, y: int, sy: int) -> int {
    if y > MAX_SIDE {
        0
    } else if sy == 0 {
        n
    } else if (MAX_SIDE - y) / sy + 1 < n {
        (MAX_SIDE - y) / sy + 1
    } else {
        n
    }
}

/// The pixels after the first `k` lines are stamped, line `j` with its top at
/// `y + j · sy`.
pub open spec fn stamp_lines(
    canvas: (u32, u32, Seq<Rgba>),
    font: Seq<u8>,
    x: int,
    y: int,
    sx: int,
    sy: int,
    color: Rgba,
    lines: Seq<Seq<u8>>,
    k: int,
) -> Seq<Rgba>
    decreases k,
{
    if k <= 0 {
        canvas.2
    } else {
        text_stamp(
            (canvas.0, canvas.1, stamp_lines(canvas, font, x, y, sx, sy, color, lines, k - 1)),
            font,
            x,
            y + (k - 1) * sy,
            sx,
            sy,
            color,
            lines[k - 1],
        )
    }
}

/// The opaque colour that text is drawn in.
pub open spec fn ink(color: Rgba) -> Rgba {
    Rgba { r: color.r, g: color.g, b: color.b, a: 255 }
}

/// Whether each of the first `n` lines can be laid out in `font`.
pub open spec fn all_render(font: Seq<u8>, lines: Seq<Seq<u8>>, n: int, sx: int, sy: int) -> bool {
    forall|k: int| 0 <= k < n ==> #[trigger] renders(font, lines[k], sx, sy)
}

/// Whether `line` can be laid out in `font` at glyph size `sx × sy`; see `renders`.
pub fn line_renders(font: &Vec<u8>, line: &Vec<u8>, sx: u32, sy: u32) -> (r: bool)
    ensures
        r == renders(font@, line@, sx as int, sy as int),
{
    let (a, d, count) = match backend::read_face_header(font) {
        Some(t) => t,
        None => {
            return false;
        },
    };
    let fh = a as i64 - d as i64;
    if fh < 1 {
        return false;
    }
    let gs = backend::glyphs_of_line(font, line);
    let m: u32 = if sx > sy { sx } else { sy };
    let glen = gs.len();
    proof {
        assert((gs@.len() + 1) * m <= 0x1_0000_0000_0000_0001 * 0x1_0000_0000) by (nonlinear_arith)
            requires
                gs@.len() <= 0x1_0000_0000_0000_0000,
                m <= 0xffff_ffff,
                glen == gs@.len(),
        ;
    }
    if (glen as u128 + 1) * (m as u128) > 0x800 * (fh as u128) {
        return false;
    }
    let mut i: usize = 0;
    while i < gs.len()
        invariant
            font_parses(font@),
            gs@ == line_glyphs(font@, line@),
            count as int == face_header(font@).2,
            0 <= i <= gs@.len(),
            forall|j: int|
                0 <= j < i ==> (#[trigger] gs@[j] as int) < count && advance_of(font@, gs@[j] as int).is_some()
                    && bearing_of(font@, gs@[j] as int).is_some(),
        decreases gs@.len() - i,
    {
        let g = gs[i];
        if g >= count {
            return false;
        }
        if backend::glyph_advance(font, g).is_none() {
            return false;
        }
        if backend::glyph_bearing(font, g).is_none() {
            return false;
        }
        i = i + 1;
    }
    true
}

/// What a call of `draw_text(text, x, y, color, scale_x, scale_y, font)` returning `r`
/// makes of the screenshot `old`, for a text of bytes `text`.
pub open spec fn text_result(
    new: ((u32, u32, Seq<Rgba>), (u32, u32, Seq<Rgba>), (u32, u32, Seq<Rgba>)),
    old: ((u32, u32, Seq<Rgba>), (u32, u32, Seq<Rgba>), (u32, u32, Seq<Rgba>)),
    text: Seq<u8>,
    x: i32,
    y: i32,
    color: Rgba,
    scale_x: u32,
    scale_y: u32,
    font: Seq<u8>,
    r: Result<(), ScreenShotError>,
) -> bool {
    let lines = lines_of(text);
    let shown = shown_lines(lines.len() as int, y as int, scale_y as int);
    &&& same_size(new.0, old.0)
    &&& new.1 == old.1
    &&& new.2 == old.2
    &&& r.is_err() <==> !all_render(font, lines, shown, scale_x as int, scale_y as int)
    &&& r matches Err(e) ==> e == ScreenShotError::FontError && new == old
    &&& r.is_ok() ==> new.0.2 == stamp_lines(old.0, font, x as int, y as int, scale_x as int, scale_y as int, ink(color), lines, shown)
}

impl Screenshot {
    /// Draws `text` in `font` with its top-left corner at `(x, y)`, glyphs `scale_x`
    /// wide and `scale_y` high, opaque in the given colour. Each line starts `scale_y`
    /// pixels below the one before. When a line to be drawn cannot be laid out in the
    /// font (see `renders`), for instance because the bytes are no font, the result is a
    /// `FontError` and nothing is drawn.
    pub fn draw_text(
        &mut self,
        text: &str,
        x: i32,
        y: i32,
        color: Rgba,
        scale_x: u32,
        scale_y: u32,
        font: &Vec<u8>,
    ) -> (r: Result<(), ScreenShotError>)
        requires
            old(self).wf(),
            point_ok((x, y)),
            scale_x <= 0x1_0000,
            scale_y <= 0x1_0000,
        ensures
            final(self).wf(),
            text_result(final(self)@, old(self)@, text.spec_bytes(), x, y, color, scale_x, scale_y, font@, r),
    {
        let ghost before = self.screenshot@;
        let ghost ls = lines_of(text.spec_bytes());
        let lines = split_lines(text);
        let n = lines.len();
        proof {
            assert(ls.len() == lines@.len());
        }
        let limit = MAX_SIDE as i64;
        let sy = scale_y as i64;
        let shown: usize = if y as i64 > limit {
            0
        } else if sy == 0 {
            n
        } else {
            let q = (limit - y as i64) / sy + 1;
            if (q as u64) < (n as u64) {
                q as usize
            } else {
                n
            }
        };
        let mut c: usize = 0;
        while c < shown
            invariant
                self.wf(),
                self.screenshot@ == old(self).screenshot@,
                ls == lines_of(text.spec_bytes()),
                shown as int == shown_lines(n as int, y as int, scale_y as int),
                shown <= n,
                n == ls.len(),
                lines@.map_values(|l: Vec<u8>| l@) == ls,
                0 <= c <= shown,
                all_render(font@, ls, c as int, scale_x as int, scale_y as int),
            decreases shown - c,
        {
            proof {
                assert(lines@[c as int]@ == ls[c as int]);
            }
            if !line_renders(font, &lines[c], scale_x, scale_y) {
                proof {
                    assert(!renders(font@, ls[c as int], scale_x as int, scale_y as int));
                }
                return Err(ScreenShotError::FontError);
            }
            c = c + 1;
        }
        let opaque = Rgba { r: color.r, g: color.g, b: color.b, a: 255 };
        let w = self.screenshot.width;
        let h = self.screenshot.height;
        let mut k: usize = 0;
        let mut top: i64 = y as i64;
        while k < shown
            invariant
                self.wf(),
                self.screenshot.width == w,
                self.screenshot.height == h,
                same_size(self.screenshot@, before),
                before == old(self).screenshot@,
                self.original_image@ == old(self).original_image@,
                self.intermediate_image@ == old(self).intermediate_image@,
                ls == lines_of(text.spec_bytes()),
                lines@.map_values(|l: Vec<u8>| l@) == ls,
                n == ls.len(),
                shown as int == shown_lines(n as int, y as int, sy as int),
                shown <= n,
                sy == scale_y,
                scale_x <= 0x1_0000,
                scale_y <= 0x1_0000,
                all_render(font@, ls, shown as int, scale_x as int, scale_y as int),
                -0x80_0000 <= x <= 0x80_0000,
                -0x80_0000 <= y <= 0x80_0000,
                0 <= sy <= 0x1_0000,
                0 <= k <= shown,
                top == y + k * sy,
                self.screenshot.pixels@ == stamp_lines(before, font@, x as int, y as int, scale_x as int, sy as int, opaque, ls, k as int),
            decreases shown - k,
        {
            proof {
                assert(top <= 0x80_0000) by {
                    if sy > 0 {
                        let a: int = 0x80_0000 - y;
                        let b: int = sy as int;
                        let q = a / b;
                        vstd::arithmetic::div_mod::lemma_fundamental_div_mod(a, b);
                        assert(k <= q);
                        assert(k * sy <= q * sy) by (nonlinear_arith)
                            requires
                                k <= q,
                                sy >= 0,
                        ;
                        assert(q * sy <= a) by (nonlinear_arith)
                            requires
                                a == b * q + a % b,
                                a % b >= 0,
                                b == sy,
                        ;
                    }
                }
                assert(k * sy >= 0) by (nonlinear_arith)
                    requires
                        k >= 0,
                        sy >= 0,
                ;
                assert(lines@[k as int]@ == ls[k as int]);
                assert(renders(font@, ls[k as int], scale_x as int, scale_y as int));
            }
            backend::stamp_text_line(
                &mut self.screenshot.pixels,
                w,
                h,
                font,
                x,
                top as i32,
                scale_x,
                scale_y,
                opaque,
                &lines[k],
            );
            proof {
                assert((k + 1) * sy == k * sy + sy) by (nonlinear_arith);
            }
            top = top + sy;
            k = k + 1;
        }
        Ok(())
    }
}

} // verus!
