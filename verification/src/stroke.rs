//! The geometry of a stroke between two pixels: its length in whole pixels
//! and the points along it, all in integer arithmetic.

use vstd::prelude::*;
use vstd::arithmetic::div_mod::lemma_fundamental_div_mod_converse;

verus! {

/// The largest pixel coordinate a stroke may have.
pub const COORD_MAX: usize = 0xffff_ffff;

/// The largest length a stroke may have, in pixels.
pub const DIST_MAX: u64 = 0x2_0000_0000;

/// `v` times `v`.
pub open spec fn square(v: int) -> int {
    v * v
}

/// `r` is the whole number nearest to the square root of `n`. The square
/// root of a whole number never lies halfway between two others, so there is
/// one such `r`.
pub open spec fn nearest_root(n: int, r: int) -> bool {
    &&& 0 <= r
    &&& r > 0 ==> square(2 * r - 1) <= 4 * n
    &&& 4 * n < square(2 * r + 1)
}

/// The square root of `n`, rounded to the nearest whole number.
pub open spec fn round_sqrt(n: int) -> int {
    choose|r: int| nearest_root(n, r)
}

/// The distance between two pixels, rounded to the nearest whole number.
pub open spec fn distance(x1: int, y1: int, x2: int, y2: int) -> int {
    round_sqrt(square(x2 - x1) + square(y2 - y1))
}

/// Coordinate of point `k` of `last + 1` points spread evenly from `from`
/// to `to`: `from + k * (to - from) / last`, rounded to the nearest whole
/// number, a half rounding up.
pub open spec fn lerp(from: int, to: int, k: int, last: int) -> int {
    from + (2 * k * (to - from) + last) / (2 * last)
}

/// No two whole numbers are nearest to the same square root.
pub proof fn lemma_nearest_root_unique(n: int, a: int, b: int)
    requires
        nearest_root(n, a),
        nearest_root(n, b),
    ensures
        a == b,
{
    if a < b {
        assert(square(2 * a + 1) <= square(2 * b - 1)) by (nonlinear_arith)
            requires
                0 <= 2 * a + 1 <= 2 * b - 1,
        ;
    } else if b < a {
        assert(square(2 * b + 1) <= square(2 * a - 1)) by (nonlinear_arith)
            requires
                0 <= 2 * b + 1 <= 2 * a - 1,
        ;
    }
}

/// The first and the last point of a stroke are its two ends.
pub proof fn lemma_lerp_ends(from: int, to: int, last: int)
    requires
        last > 0,
    ensures
        lerp(from, to, 0, last) == from,
        lerp(from, to, last, last) == to,
{
    lemma_fundamental_div_mod_converse(last, 2 * last, 0, last);
    assert(2 * 0 * (to - from) + last == last) by (nonlinear_arith);
    assert(2 * last * (to - from) + last == (to - from) * (2 * last) + last) by (nonlinear_arith);
    lemma_fundamental_div_mod_converse(
        2 * last * (to - from) + last,
        2 * last,
        to - from,
        last,
    );
}

/// The largest whole number whose square is at most `n`.
fn floor_sqrt(n: u128) -> (r: u128)
    requires
        n < 0x10_0000_0000_0000_0000,
    ensures
        r * r <= n < (r + 1) * (r + 1),
        r < 0x4_0000_0000,
{
    let mut lo: u128 = 0;
    let mut hi: u128 = 0x4_0000_0000;
    assert(0x4_0000_0000int * 0x4_0000_0000int == 0x10_0000_0000_0000_0000int) by (nonlinear_arith);
    while hi - lo > 1
        invariant
            lo < hi <= 0x4_0000_0000,
            lo * lo <= n < hi * hi,
        decreases hi - lo,
    {
        let mid: u128 = lo + (hi - lo) / 2;
        assert(mid * mid <= 0x10_0000_0000_0000_0000) by (nonlinear_arith)
            requires
                mid <= 0x4_0000_0000,
        ;
        if mid * mid <= n {
            lo = mid;
        } else {
            hi = mid;
        }
    }
    lo
}

/// The distance between two coordinates on one axis.
fn span(a: usize, b: usize) -> (d: u128)
    requires
        a <= COORD_MAX,
        b <= COORD_MAX,
    ensures
        d <= COORD_MAX,
        d * d == square(b - a),
{
    let d: usize = if a <= b {
        b - a
    } else {
        a - b
    };
    assert(d * d == (b - a) * (b - a)) by (nonlinear_arith)
        requires
            d == b - a || d == a - b,
    ;
    d as u128
}

/// The distance between the pixels `(x1, y1)` and `(x2, y2)`, rounded to the
/// nearest whole number.
pub fn rounded_distance(x1: usize, y1: usize, x2: usize, y2: usize) -> (d: u64)
    requires
        x1 <= COORD_MAX,
        y1 <= COORD_MAX,
        x2 <= COORD_MAX,
        y2 <= COORD_MAX,
    ensures
        d == distance(x1 as int, y1 as int, x2 as int, y2 as int),
        nearest_root(square(x2 - x1) + square(y2 - y1), d as int),
        d <= DIST_MAX,
{
    let dx: u128 = span(x1, x2);
    let dy: u128 = span(y1, y2);
    assert(dx * dx <= 0xffff_ffff * 0xffff_ffff && dy * dy <= 0xffff_ffff * 0xffff_ffff)
        by (nonlinear_arith)
        requires
            dx <= 0xffff_ffff,
            dy <= 0xffff_ffff,
    ;
    let n: u128 = dx * dx + dy * dy;
    let s: u128 = floor_sqrt(4 * n);
    let r: u128 = (s + 1) / 2;
    proof {
        let m = square(x2 - x1) + square(y2 - y1);
        assert(m == n);
        assert(nearest_root(m, r as int)) by (nonlinear_arith)
            requires
                s * s <= 4 * m < (s + 1) * (s + 1),
                r == (s + 1) / 2,
                0 <= s,
        {
            assert(s == 2 * r - 1 || s == 2 * r);
            assert(square(2 * r - 1) == (2 * r - 1) * (2 * r - 1));
            assert(square(2 * r + 1) == (2 * r + 1) * (2 * r + 1));
        }
        lemma_nearest_root_unique(m, r as int, round_sqrt(m));
    }
    r as u64
}

/// Coordinate of point `k` of `last + 1` points spread evenly from `from`
/// to `to`, rounded to the nearest whole number, a half rounding up.
pub fn interpolate(from: usize, to: usize, k: u64, last: u64) -> (p: usize)
    requires
        from <= COORD_MAX,
        to <= COORD_MAX,
        0 < last <= DIST_MAX,
        k <= last,
    ensures
        p == lerp(from as int, to as int, k as int, last as int),
        from <= p <= to || to <= p <= from,
{
    let den: u128 = 2 * (last as u128);
    if to >= from {
        let d: u128 = (to - from) as u128;
        assert(2 * k * d <= 2 * last * d <= 2 * 0x2_0000_0000 * 0xffff_ffff) by (nonlinear_arith)
            requires
                0 <= k <= last <= 0x2_0000_0000,
                0 <= d <= 0xffff_ffff,
        ;
        let num: u128 = 2 * (k as u128) * d + (last as u128);
        let off: u128 = num / den;
        proof {
            assert(off <= d) by (nonlinear_arith)
                requires
                    off == num / den,
                    den == 2 * last,
                    num == 2 * k * d + last,
                    0 <= k <= last,
                    0 < last,
                    0 <= d,
            ;
            assert(2 * k * (to - from) + last == num) by (nonlinear_arith)
                requires
                    num == 2 * k * d + last,
                    d == to - from,
            ;
        }
        from + off as usize
    } else {
        let d: u128 = (from - to) as u128;
        assert(2 * k * d <= 2 * last * d <= 2 * 0x2_0000_0000 * 0xffff_ffff) by (nonlinear_arith)
            requires
                0 <= k <= last <= 0x2_0000_0000,
                0 <= d <= 0xffff_ffff,
        ;
        let num: u128 = 2 * (k as u128) * d + (last as u128) - 1;
        let off: u128 = num / den;
        proof {
            let rem = num as int % den as int;
            assert(off <= d) by (nonlinear_arith)
                requires
                    off == num / den,
                    den == 2 * last,
                    num == 2 * k * d + last - 1,
                    0 <= k <= last,
                    0 < last,
                    0 <= d,
            ;
            assert(num == off * den + rem && 0 <= rem < den) by (nonlinear_arith)
                requires
                    off == num / den,
                    rem == num % den,
                    den > 0,
            ;
            let x = 2 * k * (to - from) + last;
            assert(x == (-off) * den + (den - 1 - rem)) by (nonlinear_arith)
                requires
                    x == 2 * k * (to - from) + last,
                    num == 2 * k * d + last - 1,
                    d == from - to,
                    den == 2 * last,
                    num == off * den + rem,
            ;
            lemma_fundamental_div_mod_converse(x, den as int, -off, den - 1 - rem);
        }
        from - off as usize
    }
}

} // verus!
