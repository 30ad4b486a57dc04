//! Integer geometry of the brushes: square roots, the parallel lines that make a thick
//! stroke, and the bands and rings of the other tools.
use vstd::prelude::*;
use crate::backend::segment_cover;

verus! {

/// `r` is the integer square root of `n`, rounded down.
pub open spec fn is_root(n: int, r: int) -> bool {
    0 <= r && r * r <= n < (r + 1) * (r + 1)
}

/// The integer square root of `n`, rounded down.
pub open spec fn root(n: int) -> int {
    choose|r: int| #[trigger] is_root(n, r)
}

/// The integer square root exists and is unique.
pub proof fn lemma_root(n: int, r: int)
    requires
        is_root(n, r),
    ensures
        root(n) == r,
{
    let q = root(n);
    assert(is_root(n, q));
    if q < r {
        assert((q + 1) * (q + 1) <= r * r) by (nonlinear_arith)
            requires
                0 <= q < r,
        ;
    } else if r < q {
        assert((r + 1) * (r + 1) <= q * q) by (nonlinear_arith)
            requires
                0 <= r < q,
        ;
    }
}

/// The integer square root of `n`, rounded down.
pub fn isqrt(n: u64) -> (r: u64)
    ensures
        is_root(n as int, r as int),
        r as int == root(n as int),
{
    let mut lo: u64 = 0;
    let mut hi: u64 = 0x1_0000_0000;
    assert(0x1_0000_0000 * 0x1_0000_0000 > u64::MAX) by (nonlinear_arith);
    while hi - lo > 1
        invariant
            lo < hi <= 0x1_0000_0000,
            lo as int * lo as int <= n,
            n < hi as int * hi as int,
        decreases hi - lo,
    {
        let mid = lo + (hi - lo) / 2;
        assert(mid as int * mid as int <= 0x1_0000_0000 * 0x1_0000_0000) by (nonlinear_arith)
            requires
                mid < 0x1_0000_0000,
        ;
        if (mid as u128) * (mid as u128) <= n as u128 {
            lo = mid;
        } else {
            hi = mid;
        }
    }
    proof {
        lemma_root(n as int, lo as int);
    }
    lo
}

/// A value whose square is at most `n` is at most the square root of `n`.
pub proof fn lemma_root_bounds(n: int, d: int)
    requires
        0 <= n,
        d * d <= n,
    ensures
        -root(n) <= d <= root(n),
{
    assert(exists|r: int| #[trigger] is_root(n, r)) by {
        lemma_root_exists(n);
    }
    let q = root(n);
    if d > q {
        assert((q + 1) * (q + 1) <= d * d) by (nonlinear_arith)
            requires
                0 <= q < d,
        ;
    }
    if d < -q {
        assert((q + 1) * (q + 1) <= d * d) by (nonlinear_arith)
            requires
                0 <= q,
                d < -q,
        ;
    }
}

/// Every non-negative integer has an integer square root.
pub proof fn lemma_root_exists(n: int)
    requires
        0 <= n,
    ensures
        exists|r: int| #[trigger] is_root(n, r),
    decreases n,
{
    if n == 0 {
        assert(is_root(0, 0));
    } else {
        lemma_root_exists(n - 1);
        let r = choose|r: int| #[trigger] is_root(n - 1, r);
        if (r + 1) * (r + 1) <= n {
            assert((r + 1) * (r + 1) == n) by (nonlinear_arith)
                requires
                    r * r <= n - 1 < (r + 1) * (r + 1),
                    (r + 1) * (r + 1) <= n,
            ;
            assert(n < (r + 2) * (r + 2)) by (nonlinear_arith)
                requires
                    (r + 1) * (r + 1) == n,
                    0 <= r,
            ;
            assert(is_root(n, r + 1));
        } else {
            assert(is_root(n, r));
        }
    }
}

/// Length of the segment from `(x0, y0)` to `(x1, y1)`, rounded down.
pub open spec fn seg_len(x0: int, y0: int, x1: int, y1: int) -> int {
    root((x1 - x0) * (x1 - x0) + (y1 - y0) * (y1 - y0))
}

/// How far line `k` of a brush of size `size` is moved along one axis: `d` is the
/// normal's component scaled by the length `len`, and lines are half a pixel apart,
/// from `-size / 2` to `size / 2`. A segment of length zero has no normal and is not moved.
pub open spec fn shift(d: int, k: int, size: int, len: int) -> int {
    if len == 0 {
        0
    } else {
        (d * (k - size)) / (2 * len)
    }
}

/// Whether line `k` of the stroke covers `(x, y)`.
pub open spec fn stroke_line_covers(x0: int, y0: int, x1: int, y1: int, size: int, k: int, x: int, y: int) -> bool {
    let len = seg_len(x0, y0, x1, y1);
    let ox = shift(y1 - y0, k, size, len);
    let oy = shift(x0 - x1, k, size, len);
    segment_cover(x0 + ox, y0 + oy, x1 + ox, y1 + oy).contains((x, y))
}

/// Whether one of the first `n` lines of the stroke covers `(x, y)`.
pub open spec fn stroke_covers_upto(x0: int, y0: int, x1: int, y1: int, size: int, n: int, x: int, y: int) -> bool {
    exists|k: int| 0 <= k < n && #[trigger] stroke_line_covers(x0, y0, x1, y1, size, k, x, y)
}

/// Whether the thick stroke of size `size` from `(x0, y0)` to `(x1, y1)` covers
/// `(x, y)`: it is made of the `2 · size + 1` lines parallel to the segment.
pub open spec fn stroke_covers(x0: int, y0: int, x1: int, y1: int, size: int, x: int, y: int) -> bool {
    stroke_covers_upto(x0, y0, x1, y1, size, 2 * size + 1, x, y)
}

/// Whether one of the first `n` lines of the highlighter band covers `(x, y)`: line
/// `i` is the segment moved `i` pixels up.
pub open spec fn band_covers_upto(x0: int, y0: int, x1: int, y1: int, n: int, x: int, y: int) -> bool {
    exists|i: int| 0 <= i < n && #[trigger] segment_cover(x0, y0 - i, x1, y1 - i).contains((x, y))
}

/// Whether the highlighter band of size `size` covers `(x, y)`: the segment and its
/// copies moved up by `1 ..= size` pixels.
pub open spec fn band_covers(x0: int, y0: int, x1: int, y1: int, size: int, x: int, y: int) -> bool {
    band_covers_upto(x0, y0, x1, y1, size + 1, x, y)
}

/// The shift of a stroke line stays within `size` when `|d|` is at most `len`.
pub proof fn lemma_shift_bound(d: int, k: int, size: int, len: int)
    requires
        0 <= k <= 2 * size,
        -len <= d <= len,
        0 <= size,
    ensures
        -size - 1 <= shift(d, k, size, len) <= size,
{
    if len > 0 {
        let a = d * (k - size);
        let b = 2 * len;
        let q = a / b;
        assert(-len * size <= a <= len * size) by (nonlinear_arith)
            requires
                -len <= d <= len,
                -size <= k - size <= size,
                a == d * (k - size),
                len > 0,
        ;
        vstd::arithmetic::div_mod::lemma_fundamental_div_mod(a, b);
        let m = a % b;
        assert(0 <= m < b);
        assert(q <= size) by (nonlinear_arith)
            requires
                a == b * q + m,
                0 <= m,
                a <= len * size,
                b == 2 * len,
                len > 0,
                0 <= size,
        ;
        assert(-size - 1 <= q) by (nonlinear_arith)
            requires
                a == b * q + m,
                m < b,
                -len * size <= a,
                b == 2 * len,
                len > 0,
                0 <= size,
        ;
    }
}

/// `a / b` rounded down, as the specification's integer division is.
pub fn floor_div(a: i64, b: i64) -> (q: i64)
    requires
        b > 0,
        a > i64::MIN,
    ensures
        q as int == a as int / b as int,
        a >= 0 ==> 0 <= q <= a,
        a < 0 ==> a <= q <= 0,
{
    if a >= 0 {
        proof {
            vstd::arithmetic::div_mod::lemma_div_is_ordered_by_denominator(a as int, 1, b as int);
            vstd::arithmetic::div_mod::lemma_div_pos_is_pos(a as int, b as int);
        }
        a / b
    } else {
        let na = -a;
        let t = (na as u64 + b as u64 - 1) / b as u64;
        proof {
            let ti = t as int;
            let bi = b as int;
            let ni = na as int;
            vstd::arithmetic::div_mod::lemma_fundamental_div_mod(ni + bi - 1, bi);
            let m = (ni + bi - 1) % bi;
            assert(ni + bi - 1 == bi * ti + m);
            assert(0 <= m < bi);
            assert(ti * bi == bi * ti) by (nonlinear_arith);
            assert(0 <= ti * bi - ni < bi);
            assert(ti <= ni) by (nonlinear_arith)
                requires
                    ti * bi - ni < bi,
                    bi >= 1,
                    ni >= 1,
                    ti >= 0,
            ;
            assert(a as int == (-ti) * bi + (ti * bi - ni)) by (nonlinear_arith)
                requires
                    ni == -(a as int),
            ;
            vstd::arithmetic::div_mod::lemma_fundamental_div_mod_converse_div(
                a as int,
                bi,
                -ti,
                ti * bi - ni,
            );
        }
        -(t as i64)
    }
}

} // verus!
