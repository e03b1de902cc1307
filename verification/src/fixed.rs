//! Scalar fixed-point arithmetic.
//!
//! A quantity is held as an `i64` equal to its value multiplied by
//! [`SCALE`]; products and quotients are rescaled with division that
//! truncates toward zero, and results are clamped to the representable
//! coordinate range `[-VMAX, VMAX]`.

use vstd::arithmetic::div_mod::*;
use vstd::arithmetic::mul::*;
use vstd::prelude::*;

verus! {

/// Fixed-point steps per unit: sixteen fractional bits.
pub const SCALE: i64 = 65536;

/// Largest raw magnitude a coordinate may take (32768 units).
pub const VMAX: i64 = 0x8000_0000;

/// Magnitude of an integer.
pub open spec fn iabs(v: int) -> int {
    if v < 0 {
        -v
    } else {
        v
    }
}

/// Division truncating toward zero, the rounding used by every
/// executable helper in this module.
pub open spec fn tdiv(p: int, q: int) -> int
    recommends
        q != 0,
{
    if (p < 0) == (q < 0) {
        iabs(p) / iabs(q)
    } else {
        -(iabs(p) / iabs(q))
    }
}

/// Clamp a value into the representable coordinate range.
pub open spec fn clampv(v: int) -> int {
    if v > VMAX {
        VMAX as int
    } else if v < -VMAX {
        -(VMAX as int)
    } else {
        v
    }
}

/// Fixed-point product: multiply and scale back, truncating, then clamp.
pub open spec fn fmul(a: int, b: int) -> int {
    clampv(tdiv(a * b, SCALE as int))
}

/// Fixed-point quotient, truncating, then clamped.
pub open spec fn fdiv(a: int, b: int) -> int
    recommends
        b != 0,
{
    clampv(tdiv(a * SCALE, b))
}

/// The non-negative integer square root (floor).
pub open spec fn sqrt_floor(x: int) -> int
    recommends
        x >= 0,
{
    choose|r: int| 0 <= r && #[trigger] (r * r) <= x && x < (r + 1) * (r + 1)
}

proof fn lemma_sqrt_exists(x: int) -> (r: int)
    requires
        x >= 0,
    ensures
        0 <= r && r * r <= x && x < (r + 1) * (r + 1),
    decreases x,
{
    if x == 0 {
        0
    } else {
        let s = lemma_sqrt_exists(x - 1);
        if (s + 1) * (s + 1) <= x {
            assert(x < (s + 2) * (s + 2)) by (nonlinear_arith)
                requires
                    x - 1 < (s + 1) * (s + 1),
                    0 <= s,
            ;
            s + 1
        } else {
            s
        }
    }
}

/// `sqrt_floor` is pinned down by its defining inequalities.
pub proof fn lemma_sqrt_floor_is(x: int, r: int)
    requires
        0 <= r,
        r * r <= x,
        x < (r + 1) * (r + 1),
    ensures
        sqrt_floor(x) == r,
{
    let s = sqrt_floor(x);
    assert(0 <= s && s * s <= x && x < (s + 1) * (s + 1));
    assert(s == r) by (nonlinear_arith)
        requires
            0 <= s,
            0 <= r,
            s * s <= x,
            x < (s + 1) * (s + 1),
            r * r <= x,
            x < (r + 1) * (r + 1),
    ;
}

/// The defining inequalities hold of `sqrt_floor` whenever its
/// argument is non-negative.
pub proof fn lemma_sqrt_floor_props(x: int)
    requires
        x >= 0,
    ensures
        0 <= sqrt_floor(x),
        sqrt_floor(x) * sqrt_floor(x) <= x,
        x < (sqrt_floor(x) + 1) * (sqrt_floor(x) + 1),
{
    let w = lemma_sqrt_exists(x);
    assert(0 <= w && w * w <= x && x < (w + 1) * (w + 1));
    lemma_sqrt_floor_is(x, w);
}

/// Magnitude and sign facts about truncating division.
pub proof fn lemma_tdiv_props(p: int, q: int)
    requires
        q != 0,
    ensures
        iabs(tdiv(p, q)) == iabs(p) / iabs(q),
        iabs(tdiv(p, q)) <= iabs(p),
        p >= 0 && q > 0 ==> tdiv(p, q) >= 0,
        p <= 0 && q > 0 ==> tdiv(p, q) <= 0,
        tdiv(-p, q) == -tdiv(p, q),
{
    let pa = iabs(p);
    let qa = iabs(q);
    lemma_div_pos_is_pos(pa, qa);
    if qa == 1 {
        lemma_div_basics(pa);
    } else {
        lemma_div_is_ordered_by_denominator(pa, 1, qa);
        lemma_div_basics(pa);
    }
}

/// Truncating division is monotone in a non-negative dividend.
pub proof fn lemma_tdiv_le(p1: int, p2: int, q: int)
    requires
        0 <= p1 <= p2,
        q > 0,
    ensures
        0 <= tdiv(p1, q) <= tdiv(p2, q),
{
    lemma_div_pos_is_pos(p1, q);
    lemma_div_is_ordered(p1, p2, q);
}

/// A fixed-point product with a factor in the unit interval does not
/// grow: `0 <= fmul(a, b) <= a` when `0 <= b <= SCALE`.
pub proof fn lemma_fmul_le_factor(a: int, b: int)
    requires
        0 <= a <= VMAX,
        0 <= b <= SCALE,
    ensures
        0 <= fmul(a, b) <= a,
{
    lemma_mul_inequality(b, SCALE as int, a);
    assert(a * b == b * a) by (nonlinear_arith);
    assert(iabs(a * b) == a * b) by (nonlinear_arith)
        requires
            a >= 0 && b >= 0,
    ;
    lemma_div_pos_is_pos(a * b, SCALE as int);
    lemma_div_is_ordered(a * b, (SCALE as int) * a, SCALE as int);
    lemma_div_multiples_vanish(a, SCALE as int);
}

/// The mirror bound: with the first factor in the unit interval the
/// product does not exceed the second factor.
pub proof fn lemma_fmul_le_other(a: int, b: int)
    requires
        0 <= a <= SCALE,
        0 <= b <= VMAX,
    ensures
        0 <= fmul(a, b) <= b,
{
    lemma_mul_inequality(a, SCALE as int, b);
    assert(iabs(a * b) == a * b) by (nonlinear_arith)
        requires
            a >= 0 && b >= 0,
    ;
    lemma_div_pos_is_pos(a * b, SCALE as int);
    lemma_div_is_ordered(a * b, (SCALE as int) * b, SCALE as int);
    lemma_div_multiples_vanish(b, SCALE as int);
}

/// The fixed-point square of a value in `[-1, 1]` lies in `[0, 1]`.
pub proof fn lemma_fmul_square_unit(c: int)
    requires
        -SCALE <= c <= SCALE,
    ensures
        0 <= fmul(c, c) <= SCALE,
{
    assert(0 <= c * c <= (SCALE as int) * (SCALE as int)) by (nonlinear_arith)
        requires
            -SCALE <= c <= SCALE,
    ;
    lemma_div_pos_is_pos(c * c, SCALE as int);
    lemma_div_is_ordered(c * c, (SCALE as int) * (SCALE as int), SCALE as int);
    lemma_div_multiples_vanish(SCALE as int, SCALE as int);
}

/// A product of bounded factors is bounded.
pub proof fn lemma_mul_abs_bound(a: int, b: int, m: int, n: int)
    requires
        iabs(a) <= m,
        iabs(b) <= n,
    ensures
        iabs(a * b) <= m * n,
{
    assert(iabs(a * b) <= m * n) by (nonlinear_arith)
        requires
            iabs(a) <= m,
            iabs(b) <= n,
    ;
}

/// Clamp a wide intermediate into the coordinate range.
pub(crate) fn clamp_i128(v: i128) -> (r: i64)
    ensures
        r == clampv(v as int),
{
    if v > 0x8000_0000i128 {
        0x8000_0000i64
    } else if v < -0x8000_0000i128 {
        -0x8000_0000i64
    } else {
        v as i64
    }
}

/// Exact truncating division of 128-bit values.
pub(crate) fn tdiv_i128(p: i128, q: i128) -> (r: i128)
    requires
        q != 0,
        -0x4000_0000_0000_0000_0000_0000_0000_0000 <= p
            <= 0x4000_0000_0000_0000_0000_0000_0000_0000,
        -0x4000_0000_0000_0000_0000_0000_0000_0000 <= q
            <= 0x4000_0000_0000_0000_0000_0000_0000_0000,
    ensures
        r == tdiv(p as int, q as int),
        iabs(r as int) <= iabs(p as int),
{
    proof {
        lemma_tdiv_props(p as int, q as int);
    }
    let pu: u128 = if p < 0 {
        (-p) as u128
    } else {
        p as u128
    };
    let qu: u128 = if q < 0 {
        (-q) as u128
    } else {
        q as u128
    };
    let m: u128 = pu / qu;
    proof {
        lemma_div_pos_is_pos(pu as int, qu as int);
        if qu == 1 {
            lemma_div_basics(pu as int);
        } else {
            lemma_div_is_ordered_by_denominator(pu as int, 1, qu as int);
            lemma_div_basics(pu as int);
        }
    }
    let mi: i128 = m as i128;
    if (p < 0) != (q < 0) {
        -mi
    } else {
        mi
    }
}

/// Fixed-point product of two raw values.
pub fn fx_mul(a: i64, b: i64) -> (r: i64)
    ensures
        r == fmul(a as int, b as int),
        -VMAX <= r <= VMAX,
{
    proof {
        lemma_mul_upper_bound(iabs(a as int), 0x8000_0000_0000_0000, iabs(b as int),
            0x8000_0000_0000_0000);
        assert(iabs((a as int) * (b as int)) == iabs(a as int) * iabs(b as int)) by (
        nonlinear_arith);
    }
    let p: i128 = (a as i128) * (b as i128);
    let d: i128 = tdiv_i128(p, 65536);
    if d > 0x8000_0000i128 {
        0x8000_0000i64
    } else if d < -0x8000_0000i128 {
        -0x8000_0000i64
    } else {
        d as i64
    }
}

/// Fixed-point quotient of two raw values.
pub fn fx_div(a: i64, b: i64) -> (r: i64)
    requires
        b != 0,
    ensures
        r == fdiv(a as int, b as int),
        -VMAX <= r <= VMAX,
{
    let p: i128 = (a as i128) * 65536;
    let d: i128 = tdiv_i128(p, b as i128);
    if d > 0x8000_0000i128 {
        0x8000_0000i64
    } else if d < -0x8000_0000i128 {
        -0x8000_0000i64
    } else {
        d as i64
    }
}

/// Floor square root of an unsigned 128-bit value, by bisection.
pub fn isqrt128(x: u128) -> (r: u64)
    ensures
        (r as int) * (r as int) <= x as int,
        (x as int) < (r as int + 1) * (r as int + 1),
{
    let mut lo: u64 = 0;
    let mut hi: u64 = u64::MAX;
    proof {
        assert((u64::MAX as int + 1) * (u64::MAX as int + 1) > u128::MAX as int) by (
        nonlinear_arith);
    }
    while lo < hi
        invariant
            lo <= hi,
            (lo as int) * (lo as int) <= x as int,
            (x as int) < (hi as int + 1) * (hi as int + 1),
        decreases hi - lo,
    {
        let step: u64 = (hi - lo) / 2 + 1;
        proof {
            lemma_div_pos_is_pos((hi - lo) as int, 2);
            lemma_div_is_strictly_smaller((hi - lo) as int, 2);
        }
        let mid: u64 = lo + step;
        proof {
            lemma_mul_upper_bound(mid as int, u64::MAX as int, mid as int, u64::MAX as int);
            assert((u64::MAX as int) * (u64::MAX as int) <= u128::MAX as int) by (
            nonlinear_arith);
        }
        let sq: u128 = (mid as u128) * (mid as u128);
        if sq <= x {
            lo = mid;
        } else {
            hi = mid - 1;
        }
    }
    lo
}

/// Square root in fixed point: the root of `a` units is
/// `sqrt_floor(a * SCALE)` raw steps.
pub fn fx_sqrt(a: i64) -> (r: i64)
    requires
        a >= 0,
    ensures
        r == sqrt_floor(a * SCALE),
        0 <= r <= 0x1_0000_0000_0000,
{
    let p: u128 = (a as u128) * 65536;
    let s: u64 = isqrt128(p);
    proof {
        lemma_sqrt_floor_is(p as int, s as int);
        assert(s <= 0x1_0000_0000_0000) by (nonlinear_arith)
            requires
                (s as int) * (s as int) <= p as int,
                p <= 0x8000_0000_0000_0000_0000_0000u128,
        ;
    }
    s as i64
}

/// What an output channel becomes: negative values floor to 0, values
/// above one saturate to 255, and the unit range maps by
/// `floor(v * 255.999)` expressed over raw steps.
pub open spec fn cast_pixel_spec(v: int) -> int {
    if v < 0 {
        0
    } else if v > SCALE {
        255
    } else {
        (v * 255999) / 65536000
    }
}

/// Map one linear colour channel to an 8-bit intensity.
pub fn cast_pixel(v: i64) -> (r: u8)
    ensures
        r == cast_pixel_spec(v as int),
{
    if v < 0 {
        0
    } else if v > SCALE {
        255
    } else {
        let n: u64 = (v as u64) * 255999;
        let d: u64 = n / 65536000;
        proof {
            lemma_div_is_ordered(n as int, 16777150464, 65536000);
            assert(16777150464int / 65536000 == 255) by (nonlinear_arith);
            lemma_div_pos_is_pos(n as int, 65536000);
        }
        d as u8
    }
}

} // verus!
