//! The tiling layout: a deterministic partition of a workspace's
//! reserved rectangle into one equal-width column per window.
//!
//! The slot functions here are pure functions of the slot index, the
//! window count and the reserved rectangle, so a structural change can
//! recompute every geometry from scratch and always get the same
//! answer.

use vstd::prelude::*;
use vstd::arithmetic::mul::lemma_mul_inequality;
use vstd::arithmetic::div_mod::lemma_fundamental_div_mod;

verus! {

/// The layout mode of a workspace.  Only tiling exists today; the enum
/// is open for extension.
#[derive(Clone, Copy, Debug, PartialEq, Eq, Structural)]
pub enum Layout {
    Tiling,
}

/// Horizontal start of slot `i` of `n`: the reserved rectangle is cut
/// into `n` columns of `w / n` pixels each, in window order.
pub open spec fn tile_x(i: int, n: int, x: int, w: int) -> int {
    x + i * (w / n)
}

/// Width of every slot when `n` windows share a `w` pixel wide
/// rectangle.
pub open spec fn tile_w(n: int, w: int) -> int {
    w / n
}

/// Two consecutive slots never overlap: slot `i` ends at or before
/// slot `j` starts, for any `i < j`.
pub proof fn lemma_tile_slots_ordered(i: int, j: int, n: int, x: int, w: int)
    requires
        0 <= i < j < n,
        0 <= w,
    ensures
        tile_x(i, n, x, w) + tile_w(n, w) <= tile_x(j, n, x, w),
{
    let c = w / n;
    assert(0 <= c) by {
        lemma_fundamental_div_mod(w, n);
        assert(w == n * c + w % n);
        if c < 0 {
            lemma_mul_inequality(c, -1, n);
        }
    }
    assert(i * c + c == (i + 1) * c) by {
        assert((i + 1) * c == i * c + 1 * c) by (nonlinear_arith);
    }
    lemma_mul_inequality(i + 1, j, c);
}

/// Every slot lies inside the reserved rectangle.
pub proof fn lemma_tile_slot_in_rect(i: int, n: int, x: int, w: int)
    requires
        0 <= i < n,
        0 <= w,
    ensures
        x <= tile_x(i, n, x, w),
        tile_x(i, n, x, w) + tile_w(n, w) <= x + w,
{
    let c = w / n;
    lemma_fundamental_div_mod(w, n);
    assert(w == n * c + w % n);
    assert(0 <= w % n < n);
    assert(0 <= c) by {
        if c < 0 {
            lemma_mul_inequality(c, -1, n);
            assert(n * c == c * n) by (nonlinear_arith);
        }
    }
    assert(0 <= i * c) by (nonlinear_arith)
        requires 0 <= i && 0 <= c;
    assert(i * c + c == (i + 1) * c) by {
        assert((i + 1) * c == i * c + 1 * c) by (nonlinear_arith);
    }
    lemma_mul_inequality(i + 1, n, c);
    assert(n * c == c * n) by (nonlinear_arith);
}

/// The union of the `n` slots covers the reserved rectangle up to
/// rounding: the slots together have area `n * (w / n) * h`, which
/// falls short of the full `w * h` by exactly `(w % n) * h`, and
/// `w % n` is less than `n`.
pub proof fn lemma_tile_area(n: int, w: int, h: int)
    requires
        0 < n,
        0 <= w,
        0 <= h,
    ensures
        n * (tile_w(n, w) * h) == (w - (w % n)) * h,
        0 <= w % n < n,
        w * h - n * (tile_w(n, w) * h) == (w % n) * h,
{
    let c = w / n;
    lemma_fundamental_div_mod(w, n);
    assert(w == n * c + w % n);
    assert(n * (c * h) == (n * c) * h) by (nonlinear_arith);
    assert((w - (w % n)) * h == w * h - (w % n) * h) by (nonlinear_arith);
    assert((n * c) * h == (w - (w % n)) * h) by {
        assert(n * c == w - (w % n));
    }
}

/// Computes slot `i` of `n` of the rectangle at `x`, `y` sized
/// `w` by `h`: the column's x position, y position, width and height.
pub fn tile_slot(i: usize, n: usize, x: i32, y: i32, w: u32, h: u32) -> (r: (i32, i32, u32, u32))
    requires
        i < n,
        0 <= x <= 0xFFFF,
        w <= 0xFFFF,
    ensures
        r.0 == tile_x(i as int, n as int, x as int, w as int),
        r.1 == y,
        r.2 == tile_w(n as int, w as int),
        r.3 == h,
{
    let n64: u64 = n as u64;
    let w64: u64 = w as u64;
    let col: u64 = w64 / n64;
    proof {
        lemma_tile_slot_in_rect(i as int, n as int, x as int, w as int);
        assert(col == tile_w(n as int, w as int));
        assert((i as int) * (col as int) + col <= w as int);
        assert(0 <= (i as int) * (col as int)) by (nonlinear_arith)
            requires 0 <= i as int && 0 <= col as int;
    }
    let off: u64 = (i as u64) * col;
    let slot_x: i32 = x + (off as i32);
    (slot_x, y, col as u32, h)
}

} // verus!
