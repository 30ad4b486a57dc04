//! The captured image: the working pixels being edited, the pixels as captured (the
//! source that erasing restores from), and the checkpoint that shape previews redraw from.
use vstd::prelude::*;
use crate::backend;
use crate::pixel::{blend, blend_spec, Rgba};
use crate::raster::{
    decode_at, grid_at, grid_has, grid_wf, index_of, lemma_index, same_size, Raster, MAX_SIDE,
};

verus! {

/// What can go wrong while editing, saving or capturing.
#[derive(Clone, Copy, Debug, PartialEq, Eq, Structural)]
pub enum ScreenShotError {
    /// A crop rectangle with a negative side or reaching past the image.
    ResizeSize,
    /// The save location is not a directory.
    PathError,
    /// An image format that screenshots are not saved in.
    ExtensionError,
    /// The capture delivered no pixels, or a buffer that does not match its size.
    CaptureError,
    /// The font cannot lay the text out at the asked size, so no text was drawn.
    FontError,
}

impl ScreenShotError {
    /// A sentence that describes the error to the user.
    pub fn message(&self) -> &'static str {
        match self {
            ScreenShotError::ResizeSize => "sizes are not compatible",
            ScreenShotError::PathError => "Path is not a dir",
            ScreenShotError::ExtensionError => "extension error",
            ScreenShotError::CaptureError => "the screen could not be captured",
            ScreenShotError::FontError => "the text cannot be drawn in this font at this size",
        }
    }
}

/// `r` is the `cw × ch` window of `v` whose top-left cell is `(x, y)`.
pub open spec fn is_crop(r: (u32, u32, Seq<Rgba>), v: (u32, u32, Seq<Rgba>), x: int, y: int, cw: int, ch: int) -> bool {
    &&& grid_wf(r)
    &&& r.0 == cw
    &&& r.1 == ch
    &&& forall|i: int, j: int| 0 <= i < cw && 0 <= j < ch ==> #[trigger] grid_at(r, i, j) == grid_at(v, x + i, y + j)
}

/// `r` is `v` turned a quarter clockwise.
pub open spec fn is_turn_clockwise(r: (u32, u32, Seq<Rgba>), v: (u32, u32, Seq<Rgba>)) -> bool {
    &&& grid_wf(r)
    &&& r.0 == v.1
    &&& r.1 == v.0
    &&& forall|i: int, j: int| 0 <= i < v.1 && 0 <= j < v.0 ==> #[trigger] grid_at(r, i, j) == grid_at(v, j, v.1 - 1 - i)
}

/// `r` is `v` turned a quarter counter-clockwise.
pub open spec fn is_turn_counter_clockwise(r: (u32, u32, Seq<Rgba>), v: (u32, u32, Seq<Rgba>)) -> bool {
    &&& grid_wf(r)
    &&& r.0 == v.1
    &&& r.1 == v.0
    &&& forall|i: int, j: int| 0 <= i < v.1 && 0 <= j < v.0 ==> #[trigger] grid_at(r, i, j) == grid_at(v, v.0 - 1 - j, i)
}

/// Whether `(x, y)` is within Euclidean distance `r` of `(cx, cy)`.
pub open spec fn in_disc(cx: int, cy: int, r: int, x: int, y: int) -> bool {
    (x - cx) * (x - cx) + (y - cy) * (y - cy) <= r * r
}

proof fn lemma_square_grows(d: int, r: int)
    requires
        0 <= r < d,
    ensures
        r * r < d * d,
{
    assert(r * r < d * d) by (nonlinear_arith)
        requires
            0 <= r < d,
    ;
}

/// A cell of the disc lies in the square of side `2r + 1` around the centre.
proof fn lemma_disc_window(cx: int, cy: int, r: int, x: int, y: int)
    requires
        0 <= r,
        in_disc(cx, cy, r, x, y),
    ensures
        cx - r <= x <= cx + r,
        cy - r <= y <= cy + r,
{
    assert(0 <= (x - cx) * (x - cx)) by (nonlinear_arith);
    assert(0 <= (y - cy) * (y - cy)) by (nonlinear_arith);
    if x > cx + r {
        lemma_square_grows(x - cx, r);
    }
    if x < cx - r {
        lemma_square_grows(cx - x, r);
        assert((cx - x) * (cx - x) == (x - cx) * (x - cx)) by (nonlinear_arith);
    }
    if y > cy + r {
        lemma_square_grows(y - cy, r);
    }
    if y < cy - r {
        lemma_square_grows(cy - y, r);
        assert((cy - y) * (cy - y) == (y - cy) * (y - cy)) by (nonlinear_arith);
    }
}

/// What a call of `erase_point(x, y, r)` makes of the screenshot `old`: the working
/// pixels within distance `r` of `(x, y)` are those of the captured image.
pub open spec fn erase_result(
    new: ((u32, u32, Seq<Rgba>), (u32, u32, Seq<Rgba>), (u32, u32, Seq<Rgba>)),
    old: ((u32, u32, Seq<Rgba>), (u32, u32, Seq<Rgba>), (u32, u32, Seq<Rgba>)),
    x: i32,
    y: i32,
    r: u32,
) -> bool {
    &&& same_size(new.0, old.0)
    &&& new.1 == old.1
    &&& new.2 == old.2
    &&& forall|px: int, py: int|
        grid_has(old.0, px, py) ==> #[trigger] grid_at(new.0, px, py) == if in_disc(x as int, y as int, r as int, px, py) {
            grid_at(old.1, px, py)
        } else {
            grid_at(old.0, px, py)
        }
}

/// The working image, the image as captured, and the checkpoint.
pub struct Screenshot {
    /// The pixels shown and edited.
    pub screenshot: Raster,
    /// The pixels as captured, cropped and turned along with the working image.
    pub original_image: Raster,
    /// The checkpoint that previews redraw from.
    pub intermediate_image: Raster,
}

impl View for Screenshot {
    type V = ((u32, u32, Seq<Rgba>), (u32, u32, Seq<Rgba>), (u32, u32, Seq<Rgba>));

    open spec fn view(&self) -> Self::V {
        (self.screenshot@, self.original_image@, self.intermediate_image@)
    }
}

/// The image that shape previews draw over: the checkpoint, unless it has gone stale
/// with another size, in which case the working image.
pub open spec fn preview_base(s: ((u32, u32, Seq<Rgba>), (u32, u32, Seq<Rgba>), (u32, u32, Seq<Rgba>))) -> (u32, u32, Seq<Rgba>) {
    if same_size(s.2, s.0) {
        s.2
    } else {
        s.0
    }
}

impl Screenshot {
    /// All three images are well formed; the working and the captured image have one size.
    pub open spec fn wf(&self) -> bool {
        &&& self.screenshot.wf()
        &&& self.original_image.wf()
        &&& self.intermediate_image.wf()
        &&& same_size(self.screenshot@, self.original_image@)
    }

    /// A screenshot with no pixels.
    pub fn new_empty() -> (s: Screenshot)
        ensures
            s.wf(),
            s.screenshot.width == 0 && s.screenshot.height == 0,
            s.intermediate_image.width == 0 && s.intermediate_image.height == 0,
    {
        Screenshot {
            screenshot: Raster { width: 0, height: 0, pixels: Vec::new() },
            original_image: Raster { width: 0, height: 0, pixels: Vec::new() },
            intermediate_image: Raster { width: 0, height: 0, pixels: Vec::new() },
        }
    }

    /// Starts an editing session from captured RGBA bytes: the working image, the
    /// captured image and the checkpoint all hold them. A capture with no pixels, or
    /// with a buffer that does not hold `width × height` pixels, is a `CaptureError`.
    pub fn new(width: u32, height: u32, rgba: &Vec<u8>) -> (r: Result<Screenshot, ScreenShotError>)
        ensures
            r.is_ok() <==> (0 < width <= MAX_SIDE && 0 < height <= MAX_SIDE && rgba@.len() == 4 * (
            width as int * height as int)),
            r matches Err(e) ==> e == ScreenShotError::CaptureError,
            r matches Ok(s) ==> {
                &&& s.wf()
                &&& s.screenshot.width == width
                &&& s.screenshot.height == height
                &&& forall|i: int| 0 <= i < s.screenshot.pixels@.len() ==> #[trigger] s.screenshot.pixels@[i] == decode_at(rgba@, i)
                &&& s.original_image@ == s.screenshot@
                &&& s.intermediate_image@ == s.screenshot@
            },
    {
        if width == 0 || height == 0 {
            return Err(ScreenShotError::CaptureError);
        }
        match Raster::from_rgba(width, height, rgba) {
            Some(img) => {
                let original_image = img.duplicate();
                let intermediate_image = img.duplicate();
                Ok(Screenshot { screenshot: img, original_image, intermediate_image })
            },
            None => Err(ScreenShotError::CaptureError),
        }
    }

    /// A copy of the working image, ready to be shown or exported.
    pub fn get_image(&self) -> (r: Raster)
        ensures
            r@ == self.screenshot@,
    {
        self.screenshot.duplicate()
    }

    pub fn get_width(&self) -> (r: u32)
        ensures
            r == self.screenshot.width,
    {
        self.screenshot.width
    }

    pub fn get_height(&self) -> (r: u32)
        ensures
            r == self.screenshot.height,
    {
        self.screenshot.height
    }

    /// Crops the working image, the captured image and the checkpoint to the
    /// `width × height` window whose top-left cell is `(x, y)`. A negative side, or a
    /// window that reaches past the working image, is a `ResizeSize` error and changes
    /// nothing.
    pub fn resize_image(&mut self, x: u32, y: u32, height: i32, width: i32) -> (r: Result<(), ScreenShotError>)
        requires
            old(self).wf(),
        ensures
            final(self).wf(),
            r.is_err() <==> (height < 0 || width < 0 || x + width > old(self).screenshot.width || y
                + height > old(self).screenshot.height),
            r matches Err(e) ==> e == ScreenShotError::ResizeSize && final(self)@ == old(self)@,
            r.is_ok() ==> {
                &&& is_crop(final(self).screenshot@, old(self).screenshot@, x as int, y as int, width as int, height as int)
                &&& is_crop(final(self).original_image@, old(self).original_image@, x as int, y as int, width as int, height as int)
                &&& final(self).intermediate_image@ == final(self).screenshot@
            },
    {
        if height < 0 || width < 0 || (x as u64) + (width as u64) > self.screenshot.width as u64
            || (y as u64) + (height as u64) > self.screenshot.height as u64 {
            return Err(ScreenShotError::ResizeSize);
        }
        let cw = width as u32;
        let ch = height as u32;
        let w = self.screenshot.width;
        let h = self.screenshot.height;
        let cells = backend::crop_cells(&self.screenshot.pixels, w, h, x, y, cw, ch);
        let kept = backend::crop_cells(&self.original_image.pixels, w, h, x, y, cw, ch);
        self.screenshot = Raster { width: cw, height: ch, pixels: cells };
        self.original_image = Raster { width: cw, height: ch, pixels: kept };
        self.intermediate_image = self.screenshot.duplicate();
        Ok(())
    }

    /// Turns the working and the captured image a quarter clockwise. The checkpoint is
    /// left as it was.
    pub fn rotate_sx_90(&mut self)
        requires
            old(self).wf(),
        ensures
            final(self).wf(),
            is_turn_clockwise(final(self).screenshot@, old(self).screenshot@),
            is_turn_clockwise(final(self).original_image@, old(self).original_image@),
            final(self).intermediate_image@ == old(self).intermediate_image@,
    {
        let w = self.screenshot.width;
        let h = self.screenshot.height;
        let cells = backend::rotate_cells_90(&self.screenshot.pixels, w, h);
        let kept = backend::rotate_cells_90(&self.original_image.pixels, w, h);
        proof {
            assert(h as int * w as int == w as int * h as int) by (nonlinear_arith);
        }
        self.screenshot = Raster { width: h, height: w, pixels: cells };
        self.original_image = Raster { width: h, height: w, pixels: kept };
    }

    /// Turns the working and the captured image a quarter counter-clockwise. The
    /// checkpoint is left as it was.
    pub fn rotate_dx_90(&mut self)
        requires
            old(self).wf(),
        ensures
            final(self).wf(),
            is_turn_counter_clockwise(final(self).screenshot@, old(self).screenshot@),
            is_turn_counter_clockwise(final(self).original_image@, old(self).original_image@),
            final(self).intermediate_image@ == old(self).intermediate_image@,
    {
        let w = self.screenshot.width;
        let h = self.screenshot.height;
        let cells = backend::rotate_cells_270(&self.screenshot.pixels, w, h);
        let kept = backend::rotate_cells_270(&self.original_image.pixels, w, h);
        proof {
            assert(h as int * w as int == w as int * h as int) by (nonlinear_arith);
        }
        self.screenshot = Raster { width: h, height: w, pixels: cells };
        self.original_image = Raster { width: h, height: w, pixels: kept };
    }

    /// Makes the working image the new checkpoint.
    pub fn save_intermediate_image(&mut self)
        requires
            old(self).wf(),
        ensures
            final(self).wf(),
            final(self).intermediate_image@ == old(self).screenshot@,
            final(self).screenshot@ == old(self).screenshot@,
            final(self).original_image@ == old(self).original_image@,
    {
        self.intermediate_image = self.screenshot.duplicate();
    }

    /// Puts the checkpoint back as the working image, discarding what was drawn since.
    /// A checkpoint of another size (taken before a turn of a non-square image) no longer
    /// fits the captured image and is not restored.
    pub fn restore_intermediate_image(&mut self)
        requires
            old(self).wf(),
        ensures
            final(self).wf(),
            final(self).screenshot@ == if same_size(old(self).intermediate_image@, old(self).screenshot@) {
                old(self).intermediate_image@
            } else {
                old(self).screenshot@
            },
            final(self).original_image@ == old(self).original_image@,
            final(self).intermediate_image@ == old(self).intermediate_image@,
    {
        if self.intermediate_image.width == self.screenshot.width
            && self.intermediate_image.height == self.screenshot.height {
            self.screenshot = self.intermediate_image.duplicate();
        }
    }

    /// Lays `foreground` over `background`: each colour channel becomes
    /// `(fg · α + bg · (255 − α)) / 255` rounded down, with `α` the foreground's alpha;
    /// the background keeps its own alpha.
    pub fn blend_colors(background: Rgba, foreground: Rgba) -> (r: Rgba)
        ensures
            r == blend_spec(background, foreground),
    {
        blend(background, foreground)
    }
}

impl Screenshot {
    /// Restores from the captured image every working pixel within distance `r` of
    /// `(x, y)`: erasing undoes edits back to the capture, it does not blank pixels.
    pub fn erase_point(&mut self, x: i32, y: i32, r: u32)
        requires
            old(self).wf(),
        ensures
            final(self).wf(),
            erase_result(final(self)@, old(self)@, x, y, r),
    {
        let ghost before = self.screenshot@;
        let w = self.screenshot.width as i64;
        let h = self.screenshot.height as i64;
        let cx = x as i64;
        let cy = y as i64;
        let rr = r as i64;
        let y_lo: i64 = if cy - rr > 0 { cy - rr } else { 0 };
        let y_hi: i64 = if cy + rr + 1 < h { cy + rr + 1 } else { h };
        let x_lo: i64 = if cx - rr > 0 { cx - rr } else { 0 };
        let x_hi: i64 = if cx + rr + 1 < w { cx + rr + 1 } else { w };
        let mut yy: i64 = y_lo;
        proof {
            assert forall|px: int, py: int| grid_has(before, px, py) implies #[trigger] grid_at(self.screenshot@, px, py)
                == if py < yy && in_disc(cx as int, cy as int, rr as int, px, py) {
                grid_at(self.original_image@, px, py)
            } else {
                grid_at(before, px, py)
            } by {
                if py < yy && in_disc(cx as int, cy as int, rr as int, px, py) {
                    lemma_disc_window(cx as int, cy as int, rr as int, px, py);
                }
            }
        }
        while yy < y_hi
            invariant
                self.wf(),
                same_size(self.screenshot@, before),
                self.original_image@ == old(self).original_image@,
                self.intermediate_image@ == old(self).intermediate_image@,
                before == old(self).screenshot@,
                cx == x as i64,
                cy == y as i64,
                rr == r as i64,
                w == before.0,
                h == before.1,
                0 <= y_lo <= yy,
                y_hi <= h,
                0 <= x_lo,
                x_hi <= w,
                y_lo == (if cy - rr > 0 { cy - rr } else { 0int }),
                x_lo == (if cx - rr > 0 { cx - rr } else { 0int }),
                x_hi == (if cx + rr + 1 < w { cx + rr + 1 } else { w as int }),
                forall|px: int, py: int|
                    grid_has(before, px, py) ==> #[trigger] grid_at(self.screenshot@, px, py) == if py < yy
                        && in_disc(cx as int, cy as int, rr as int, px, py) {
                        grid_at(self.original_image@, px, py)
                    } else {
                        grid_at(before, px, py)
                    },
            decreases y_hi - yy,
        {
            let mut xx: i64 = x_lo;
            proof {
                assert forall|px: int, py: int| grid_has(before, px, py) implies #[trigger] grid_at(self.screenshot@, px, py)
                    == if (py < yy || (py == yy && px < xx)) && in_disc(cx as int, cy as int, rr as int, px, py) {
                    grid_at(self.original_image@, px, py)
                } else {
                    grid_at(before, px, py)
                } by {
                    if py == yy && px < xx && in_disc(cx as int, cy as int, rr as int, px, py) {
                        lemma_disc_window(cx as int, cy as int, rr as int, px, py);
                    }
                }
            }
            while xx < x_hi
                invariant
                    self.wf(),
                    same_size(self.screenshot@, before),
                    self.original_image@ == old(self).original_image@,
                    self.intermediate_image@ == old(self).intermediate_image@,
                    cx == x as i64,
                    cy == y as i64,
                    rr == r as i64,
                    w == before.0,
                    h == before.1,
                    0 <= y_lo <= yy < y_hi,
                    y_hi <= h,
                    0 <= x_lo <= xx,
                    x_hi <= w,
                    x_lo == (if cx - rr > 0 { cx - rr } else { 0int }),
                    forall|px: int, py: int|
                        grid_has(before, px, py) ==> #[trigger] grid_at(self.screenshot@, px, py) == if (py < yy
                            || (py == yy && px < xx)) && in_disc(cx as int, cy as int, rr as int, px, py) {
                            grid_at(self.original_image@, px, py)
                        } else {
                            grid_at(before, px, py)
                        },
                decreases x_hi - xx,
            {
                let dx = xx as i128 - cx as i128;
                let dy = yy as i128 - cy as i128;
                proof {
                    assert(dx * dx <= 0x1_0000_0000 * 0x1_0000_0000) by (nonlinear_arith)
                        requires -0x1_0000_0000 <= dx <= 0x1_0000_0000;
                    assert(dy * dy <= 0x1_0000_0000 * 0x1_0000_0000) by (nonlinear_arith)
                        requires -0x1_0000_0000 <= dy <= 0x1_0000_0000;
                    assert(0 <= dx * dx) by (nonlinear_arith);
                    assert(0 <= dy * dy) by (nonlinear_arith);
                    assert(rr * rr <= 0x1_0000_0000 * 0x1_0000_0000) by (nonlinear_arith)
                        requires 0 <= rr <= 0x1_0000_0000;
                }
                let r2 = (rr as i128) * (rr as i128);
                if dx * dx + dy * dy <= r2 {
                    let p = self.original_image.get_pixel(xx as u32, yy as u32);
                    let ghost mid = self.screenshot@;
                    self.screenshot.put_pixel(xx as u32, yy as u32, p);
                    proof {
                        assert forall|px: int, py: int| grid_has(before, px, py) implies #[trigger] grid_at(self.screenshot@, px, py)
                            == if (py < yy || (py == yy && px < xx + 1)) && in_disc(cx as int, cy as int, rr as int, px, py) {
                            grid_at(self.original_image@, px, py)
                        } else {
                            grid_at(before, px, py)
                        } by {
                            if px != xx || py != yy {
                                lemma_index(w as int, h as int, px, py);
                                lemma_index(w as int, h as int, xx as int, yy as int);
                                if index_of(w as int, px, py) == index_of(w as int, xx as int, yy as int) {
                                    crate::raster::lemma_index_injective(w as int, px, py, xx as int, yy as int);
                                }
                                assert(grid_at(self.screenshot@, px, py) == grid_at(mid, px, py));
                            } else {
                                lemma_index(w as int, h as int, xx as int, yy as int);
                                assert(in_disc(cx as int, cy as int, rr as int, px, py));
                            }
                        }
                    }
                } else {
                    proof {
                        assert forall|px: int, py: int| grid_has(before, px, py) implies #[trigger] grid_at(self.screenshot@, px, py)
                            == if (py < yy || (py == yy && px < xx + 1)) && in_disc(cx as int, cy as int, rr as int, px, py) {
                            grid_at(self.original_image@, px, py)
                        } else {
                            grid_at(before, px, py)
                        } by {
                            if px == xx && py == yy {
                                assert(!in_disc(cx as int, cy as int, rr as int, px, py));
                            }
                        }
                    }
                }
                xx = xx + 1;
            }
            proof {
                assert forall|px: int, py: int| grid_has(before, px, py) implies #[trigger] grid_at(self.screenshot@, px, py)
                    == if py < yy + 1 && in_disc(cx as int, cy as int, rr as int, px, py) {
                    grid_at(self.original_image@, px, py)
                } else {
                    grid_at(before, px, py)
                } by {
                    if py == yy && px >= xx && in_disc(cx as int, cy as int, rr as int, px, py) {
                        lemma_disc_window(cx as int, cy as int, rr as int, px, py);
                    }
                }
            }
            yy = yy + 1;
        }
        proof {
            assert forall|px: int, py: int| grid_has(before, px, py) implies #[trigger] grid_at(self.screenshot@, px, py)
                == if in_disc(x as int, y as int, r as int, px, py) {
                grid_at(old(self).original_image@, px, py)
            } else {
                grid_at(before, px, py)
            } by {
                if py >= yy && in_disc(cx as int, cy as int, rr as int, px, py) {
                    lemma_disc_window(cx as int, cy as int, rr as int, px, py);
                }
            }
        }
    }
}

} // verus!
