//! Scaling the logical 64x32 pixel grid onto a physical display: per-cell
//! pixel extents, centering offsets, the set of physical pixels one logical
//! cell covers, and the byte offset and color of one physical pixel.

use vstd::arithmetic::div_mod::lemma_fundamental_div_mod;
use vstd::arithmetic::div_mod::lemma_fundamental_div_mod_converse_div;
use vstd::arithmetic::div_mod::lemma_fundamental_div_mod_converse_mod;
use vstd::arithmetic::mul::lemma_mul_is_commutative;
use vstd::arithmetic::mul::lemma_mul_is_distributive_add_other_way;
use vstd::arithmetic::mul::lemma_mul_inequality;
use vstd::prelude::*;

verus! {

/// Logical grid width in cells.
pub const GRID_W: usize = 64;

/// Logical grid height in cells.
pub const GRID_H: usize = 32;

/// Horizontal pixels per logical cell on a physical width `w`: the full
/// per-cell share halved, a deliberate letterboxing choice.
pub open spec fn spec_rx(w: int) -> int {
    (w / 64) / 2
}

/// Vertical pixels per logical cell on a physical height `h`, halved as the
/// horizontal share is.
pub open spec fn spec_ry(h: int) -> int {
    (h / 32) / 2
}

/// Horizontal centering offset: half the physical width left over once all
/// 64 cells are drawn.
pub open spec fn spec_xs(w: int) -> int {
    (w - 64 * spec_rx(w)) / 2
}

/// Vertical centering offset: half the physical height left over once all
/// 32 cells are drawn.
pub open spec fn spec_ys(h: int) -> int {
    (h - 32 * spec_ry(h)) / 2
}

/// The scaled canvas fits the screen: each cell extent is nonnegative and
/// offset plus canvas stays within the physical dimension.
pub proof fn lemma_scale_fits(w: int, h: int)
    requires
        0 <= w,
        0 <= h,
    ensures
        0 <= spec_rx(w),
        0 <= spec_ry(h),
        0 <= spec_xs(w),
        0 <= spec_ys(h),
        spec_xs(w) + 64 * spec_rx(w) <= w,
        spec_ys(h) + 32 * spec_ry(h) <= h,
{
    lemma_fundamental_div_mod(w, 64);
    lemma_fundamental_div_mod(w / 64, 2);
    lemma_fundamental_div_mod(h, 32);
    lemma_fundamental_div_mod(h / 32, 2);
    assert(64 * spec_rx(w) <= w) by {
        assert(spec_rx(w) <= w / 64);
        lemma_mul_inequality(spec_rx(w), w / 64, 64);
        lemma_mul_is_commutative(spec_rx(w), 64);
        lemma_mul_is_commutative(w / 64, 64);
    }
    lemma_fundamental_div_mod(w - 64 * spec_rx(w), 2);
    assert(32 * spec_ry(h) <= h) by {
        assert(spec_ry(h) <= h / 32);
        lemma_mul_inequality(spec_ry(h), h / 32, 32);
        lemma_mul_is_commutative(spec_ry(h), 32);
        lemma_mul_is_commutative(h / 32, 32);
    }
    lemma_fundamental_div_mod(h - 32 * spec_ry(h), 2);
}

/// Per-cell pixel extents and centering offsets for a physical resolution
/// `(w, h)`: `(rx, ry, xs, ys)`.
pub fn scale_params(w: usize, h: usize) -> (r: (usize, usize, usize, usize))
    ensures
        r.0 == spec_rx(w as int),
        r.1 == spec_ry(h as int),
        r.2 == spec_xs(w as int),
        r.3 == spec_ys(h as int),
        r.2 + 64 * r.0 <= w,
        r.3 + 32 * r.1 <= h,
{
    proof {
        lemma_scale_fits(w as int, h as int);
    }
    let rx = (w / 64) / 2;
    let ry = (h / 32) / 2;
    let xs = (w - 64 * rx) / 2;
    let ys = (h - 32 * ry) / 2;
    (rx, ry, xs, ys)
}

/// The physical pixels covered by logical cell `(x, y)` on a physical
/// resolution `(w, h)`, row by row from the cell's top-left corner. Every
/// returned coordinate lies on the screen; with a zero cell extent the cell
/// covers no pixel at all.
pub fn cell_pixels(w: usize, h: usize, x: usize, y: usize) -> (r: Vec<(usize, usize)>)
    requires
        x < 64,
        y < 32,
    ensures
        r@.len() == spec_rx(w as int) * spec_ry(h as int),
        forall|i: int|
            0 <= i < r@.len() ==> (#[trigger] r@[i]).0 == spec_xs(w as int) + x * spec_rx(
                w as int,
            ) + i % spec_rx(w as int),
        forall|i: int|
            0 <= i < r@.len() ==> (#[trigger] r@[i]).1 == spec_ys(h as int) + y * spec_ry(
                h as int,
            ) + i / spec_rx(w as int),
        forall|i: int| 0 <= i < r@.len() ==> (#[trigger] r@[i]).0 < w && r@[i].1 < h,
{
    let (rx, ry, xs, ys) = scale_params(w, h);
    proof {
        lemma_mul_inequality(x as int, 63, rx as int);
        lemma_mul_is_commutative(63, rx as int);
        lemma_mul_inequality(y as int, 31, ry as int);
        lemma_mul_is_commutative(31, ry as int);
    }
    let xb = x * rx;
    let yb = y * ry;
    let mut r: Vec<(usize, usize)> = Vec::new();
    let mut yo: usize = 0;
    while yo < ry
        invariant
            yo <= ry,
            xb == x * rx,
            yb == y * ry,
            rx == spec_rx(w as int),
            ry == spec_ry(h as int),
            xs == spec_xs(w as int),
            ys == spec_ys(h as int),
            x < 64,
            y < 32,
            xs + 64 * rx <= w,
            ys + 32 * ry <= h,
            xb <= 63 * rx,
            yb <= 31 * ry,
            r@.len() == yo * rx,
            forall|i: int|
                0 <= i < r@.len() ==> (#[trigger] r@[i]).0 == xs + xb + i % (rx as int),
            forall|i: int|
                0 <= i < r@.len() ==> (#[trigger] r@[i]).1 == ys + yb + i / (rx as int),
        decreases ry - yo,
    {
        let mut xo: usize = 0;
        while xo < rx
            invariant
                yo < ry,
                xo <= rx,
                xb == x * rx,
                yb == y * ry,
                rx == spec_rx(w as int),
                ry == spec_ry(h as int),
                xs == spec_xs(w as int),
                ys == spec_ys(h as int),
                x < 64,
                y < 32,
                xs + 64 * rx <= w,
                ys + 32 * ry <= h,
                xb <= 63 * rx,
                yb <= 31 * ry,
                r@.len() == yo * rx + xo,
                forall|i: int|
                    0 <= i < r@.len() ==> (#[trigger] r@[i]).0 == xs + xb + i % (rx as int),
                forall|i: int|
                    0 <= i < r@.len() ==> (#[trigger] r@[i]).1 == ys + yb + i / (rx as int),
            decreases rx - xo,
        {
            proof {
                lemma_fundamental_div_mod_converse_mod(
                    yo * rx + xo,
                    rx as int,
                    yo as int,
                    xo as int,
                );
                lemma_fundamental_div_mod_converse_div(
                    yo * rx + xo,
                    rx as int,
                    yo as int,
                    xo as int,
                );
            }
            r.push((xs + xb + xo, ys + yb + yo));
            xo = xo + 1;
        }
        proof {
            lemma_mul_is_distributive_add_other_way(rx as int, yo as int, 1);
        }
        yo = yo + 1;
    }
    proof {
        lemma_mul_is_commutative(ry as int, rx as int);
    }
    assert forall|i: int| 0 <= i < r@.len() implies (#[trigger] r@[i]).0 < w && r@[i].1 < h by {
        assert(r@.len() == ry * rx);
        assert(rx > 0) by {
            if rx == 0 {
                vstd::arithmetic::mul::lemma_mul_by_zero_is_zero(ry as int);
            }
        }
        assert(0 <= i % (rx as int) < rx) by {
            vstd::arithmetic::div_mod::lemma_mod_bound(i, rx as int);
        }
        assert(0 <= i / (rx as int)) by {
            vstd::arithmetic::div_mod::lemma_div_pos_is_pos(i, rx as int);
        }
        assert(i / (rx as int) < ry) by {
            assert(ry * rx - 1 == (ry - 1) * (rx as int) + (rx - 1)) by {
                vstd::arithmetic::mul::lemma_mul_is_distributive_sub_other_way(
                    rx as int,
                    ry as int,
                    1,
                );
            }
            lemma_fundamental_div_mod_converse_div(
                ry * rx - 1,
                rx as int,
                ry as int - 1,
                rx as int - 1,
            );
            vstd::arithmetic::div_mod::lemma_div_is_ordered(i, ry * rx - 1, rx as int);
        }
        assert(r@[i].0 == xs + xb + i % (rx as int));
        assert(xs + xb + i % (rx as int) < xs + 64 * rx);
        assert(r@[i].1 == ys + yb + i / (rx as int));
        assert(ys + yb + i / (rx as int) < ys + 32 * ry);
    }
    r
}

/// The byte offset of physical pixel `(x, y)` in a framebuffer with the
/// given row stride and four bytes per pixel.
pub fn pixel_offset(stride: usize, x: usize, y: usize) -> (r: usize)
    requires
        4 * (y * stride + x) <= usize::MAX,
    ensures
        r == 4 * (y * stride + x),
{
    4 * (y * stride + x)
}

/// The fixed two-tone color of a pixel: full white when lit, black when not.
pub fn pixel_color(lit: bool) -> (r: (u8, u8, u8))
    ensures
        r == (if lit {
            (255u8, 255u8, 255u8)
        } else {
            (0u8, 0u8, 0u8)
        }),
{
    if lit {
        (255, 255, 255)
    } else {
        (0, 0, 0)
    }
}

} // verus!
