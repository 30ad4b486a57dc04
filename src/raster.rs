use vstd::prelude::*;
use crate::pixel::Rgba;

verus! {

/// A width × height grid of pixels, stored row by row.
pub struct Raster {
    pub width: u32,
    pub height: u32,
    pub pixels: Vec<Rgba>,
}

/// Position of pixel `(x, y)` in the row-major storage of a grid `w` pixels wide.
pub open spec fn index_of(w: int, x: int, y: int) -> int {
    y * w + x
}

/// The largest side a raster may have: the drawing routines take coordinates as `f32`,
/// which holds every integer up to 2^24 exactly.
pub const MAX_SIDE: u32 = 0x80_0000;

impl View for Raster {
    type V = (u32, u32, Seq<Rgba>);

    open spec fn view(&self) -> (u32, u32, Seq<Rgba>) {
        (self.width, self.height, self.pixels@)
    }
}

/// The sides are within `MAX_SIDE` and the storage holds exactly one pixel per cell.
pub open spec fn grid_wf(v: (u32, u32, Seq<Rgba>)) -> bool {
    &&& v.0 <= MAX_SIDE
    &&& v.1 <= MAX_SIDE
    &&& v.2.len() == v.0 as int * v.1 as int
}

/// Whether `(x, y)` is a cell of a `v.0 × v.1` grid.
pub open spec fn grid_has(v: (u32, u32, Seq<Rgba>), x: int, y: int) -> bool {
    0 <= x < v.0 && 0 <= y < v.1
}

/// The pixel at `(x, y)`.
pub open spec fn grid_at(v: (u32, u32, Seq<Rgba>), x: int, y: int) -> Rgba {
    v.2[index_of(v.0 as int, x, y)]
}

/// Two grids of the same size.
pub open spec fn same_size(a: (u32, u32, Seq<Rgba>), b: (u32, u32, Seq<Rgba>)) -> bool {
    a.0 == b.0 && a.1 == b.1
}

/// Cells of a `w`-wide grid sit at distinct positions inside its storage.
pub proof fn lemma_index(w: int, h: int, x: int, y: int)
    requires
        0 <= x < w,
        0 <= y < h,
    ensures
        0 <= index_of(w, x, y) < w * h,
        index_of(w, x, y) + w <= w * h + x,
{
    assert(y * w + x < w * h) by (nonlinear_arith)
        requires
            0 <= x < w,
            0 <= y < h,
    ;
    assert(0 <= y * w) by (nonlinear_arith)
        requires
            0 <= y,
            0 <= w,
    ;
    assert((y + 1) * w <= h * w) by (nonlinear_arith)
        requires
            0 <= y < h,
            0 <= w,
    ;
    assert((y + 1) * w == y * w + w) by (nonlinear_arith);
    assert(h * w == w * h) by (nonlinear_arith);
}

/// Distinct cells have distinct storage positions.
pub proof fn lemma_index_injective(w: int, x1: int, y1: int, x2: int, y2: int)
    requires
        0 <= x1 < w,
        0 <= x2 < w,
        0 <= y1,
        0 <= y2,
        index_of(w, x1, y1) == index_of(w, x2, y2),
    ensures
        x1 == x2 && y1 == y2,
{
    if y1 < y2 {
        assert(y1 * w + w <= y2 * w) by (nonlinear_arith)
            requires
                y1 < y2,
                0 <= w,
        ;
    } else if y2 < y1 {
        assert(y2 * w + w <= y1 * w) by (nonlinear_arith)
            requires
                y2 < y1,
                0 <= w,
        ;
    }
}

/// The pixel stored in bytes `4i .. 4i + 4` of an RGBA byte buffer.
pub open spec fn decode_at(bytes: Seq<u8>, i: int) -> Rgba {
    Rgba { r: bytes[4 * i], g: bytes[4 * i + 1], b: bytes[4 * i + 2], a: bytes[4 * i + 3] }
}

/// Byte `k` of an RGBA byte buffer that holds the pixels `px`.
pub open spec fn encode_at(px: Seq<Rgba>, k: int) -> u8 {
    let p = px[k / 4];
    if k % 4 == 0 {
        p.r
    } else if k % 4 == 1 {
        p.g
    } else if k % 4 == 2 {
        p.b
    } else {
        p.a
    }
}

impl Raster {
    pub open spec fn wf(&self) -> bool {
        grid_wf(self@)
    }

    /// A `width × height` raster with every pixel set to `color`.
    pub fn new_filled(width: u32, height: u32, color: Rgba) -> (r: Raster)
        requires
            width <= MAX_SIDE,
            height <= MAX_SIDE,
            width as int * height as int <= usize::MAX,
        ensures
            r.wf(),
            r.width == width,
            r.height == height,
            forall|i: int| 0 <= i < r.pixels@.len() ==> r.pixels@[i] == color,
    {
        let n = width as usize * height as usize;
        let mut pixels: Vec<Rgba> = Vec::new();
        let mut i: usize = 0;
        while i < n
            invariant
                i <= n,
                pixels@.len() == i,
                forall|j: int| 0 <= j < i ==> pixels@[j] == color,
            decreases n - i,
        {
            pixels.push(color);
            i = i + 1;
        }
        Raster { width, height, pixels }
    }

    /// Reads `width × height` pixels from an RGBA byte buffer, four bytes per pixel,
    /// row by row; `None` when the buffer does not hold exactly that many pixels or a
    /// side is over `MAX_SIDE`.
    pub fn from_rgba(width: u32, height: u32, bytes: &Vec<u8>) -> (r: Option<Raster>)
        ensures
            r.is_some() <==> (width <= MAX_SIDE && height <= MAX_SIDE && bytes@.len()
                == 4 * (width as int * height as int)),
            r matches Some(img) ==> img.wf() && img.width == width && img.height == height
                && forall|i: int| 0 <= i < img.pixels@.len() ==> #[trigger] img.pixels@[i] == decode_at(bytes@, i),
    {
        if width > MAX_SIDE || height > MAX_SIDE {
            return None;
        }
        proof {
            assert(width as int * height as int <= 0x80_0000 * 0x80_0000) by (nonlinear_arith)
                requires
                    width <= 0x80_0000,
                    height <= 0x80_0000,
            ;
        }
        let n = width as u64 * height as u64;
        if bytes.len() as u64 / 4 != n || bytes.len() % 4 != 0 {
            return None;
        }
        let n = n as usize;
        let mut pixels: Vec<Rgba> = Vec::new();
        let mut i: usize = 0;
        while i < n
            invariant
                i <= n,
                4 * n == bytes@.len(),
                bytes@.len() <= usize::MAX,
                pixels@.len() == i,
                forall|j: int| 0 <= j < i ==> #[trigger] pixels@[j] == decode_at(bytes@, j),
            decreases n - i,
        {
            let k = 4 * i;
            pixels.push(Rgba { r: bytes[k], g: bytes[k + 1], b: bytes[k + 2], a: bytes[k + 3] });
            i = i + 1;
        }
        Some(Raster { width, height, pixels })
    }

    /// The pixels as an RGBA byte buffer, four bytes per pixel, row by row.
    pub fn to_rgba(&self) -> (bytes: Vec<u8>)
        requires
            self.wf(),
        ensures
            bytes@.len() == 4 * self.pixels@.len(),
            forall|k: int| 0 <= k < bytes@.len() ==> #[trigger] bytes@[k] == encode_at(self.pixels@, k),
    {
        let n = self.pixels.len();
        let mut bytes: Vec<u8> = Vec::new();
        let mut i: usize = 0;
        while i < n
            invariant
                i <= n,
                n == self.pixels@.len(),
                bytes@.len() == 4 * i,
                forall|k: int| 0 <= k < bytes@.len() ==> #[trigger] bytes@[k] == encode_at(self.pixels@, k),
            decreases n - i,
        {
            let p = self.pixels[i];
            bytes.push(p.r);
            bytes.push(p.g);
            bytes.push(p.b);
            bytes.push(p.a);
            proof {
                assert forall|k: int| 0 <= k < bytes@.len() implies #[trigger] bytes@[k] == encode_at(self.pixels@, k) by {
                    if k >= 4 * i {
                        assert(k / 4 == i);
                    }
                }
            }
            i = i + 1;
        }
        bytes
    }

    /// The pixel at `(x, y)`.
    pub fn get_pixel(&self, x: u32, y: u32) -> (p: Rgba)
        requires
            self.wf(),
            x < self.width,
            y < self.height,
        ensures
            p == grid_at(self@, x as int, y as int),
    {
        let n = self.pixels.len();
        proof {
            lemma_index(self.width as int, self.height as int, x as int, y as int);
            assert(0 <= y as int * self.width as int <= index_of(self.width as int, x as int, y as int)) by (nonlinear_arith)
                requires 0 <= x, 0 <= y, 0 <= self.width;
        }
        self.pixels[y as usize * self.width as usize + x as usize]
    }

    /// Sets the pixel at `(x, y)` and leaves every other pixel as it was.
    pub fn put_pixel(&mut self, x: u32, y: u32, p: Rgba)
        requires
            old(self).wf(),
            x < old(self).width,
            y < old(self).height,
        ensures
            final(self).wf(),
            same_size(final(self)@, old(self)@),
            final(self).pixels@ == old(self).pixels@.update(
                index_of(old(self).width as int, x as int, y as int),
                p,
            ),
    {
        let n = self.pixels.len();
        proof {
            lemma_index(self.width as int, self.height as int, x as int, y as int);
            assert(0 <= y as int * self.width as int <= index_of(self.width as int, x as int, y as int)) by (nonlinear_arith)
                requires 0 <= x, 0 <= y, 0 <= self.width;
        }
        let i = y as usize * self.width as usize + x as usize;
        self.pixels.set(i, p);
    }

    /// A copy holding the same pixels.
    pub fn duplicate(&self) -> (r: Raster)
        ensures
            r@ == self@,
    {
        let mut pixels: Vec<Rgba> = Vec::new();
        let mut i: usize = 0;
        while i < self.pixels.len()
            invariant
                i <= self.pixels@.len(),
                pixels@ == self.pixels@.subrange(0, i as int),
            decreases self.pixels@.len() - i,
        {
            pixels.push(self.pixels[i]);
            i = i + 1;
            proof {
                assert(pixels@ =~= self.pixels@.subrange(0, i as int));
            }
        }
        proof {
            assert(pixels@ =~= self.pixels@);
        }
        Raster { width: self.width, height: self.height, pixels }
    }
}

} // verus!
