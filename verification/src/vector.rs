//! Three-component vectors in fixed point, used interchangeably as
//! points, directions and linear colours (one colour unit per channel
//! is `SCALE` raw steps).
//!
//! Every operation is total: wide intermediates are computed exactly
//! in 128 bits and the componentwise results are clamped into
//! `[-VMAX, VMAX]`, so a well-formed vector always comes back.

use crate::fixed::{
    clamp_i128, clampv, fdiv, fmul, fx_div, fx_mul, fx_sqrt, iabs, lemma_mul_abs_bound,
    lemma_sqrt_floor_props, lemma_tdiv_props, sqrt_floor, tdiv, tdiv_i128, SCALE, VMAX,
};
use vstd::arithmetic::div_mod::*;
use vstd::prelude::*;

verus! {

/// A point, direction or colour; each component is a raw fixed-point
/// value (the coordinate times `SCALE`).
#[derive(Clone, Copy, Debug, PartialEq, Eq, Structural)]
pub struct Vector {
    pub x: i64,
    pub y: i64,
    pub z: i64,
}

/// A colour is a vector of channels; one unit per channel is `SCALE`.
pub type Color = Vector;

/// A colour whose channels all lie within one unit: what a material's
/// albedo must satisfy, and what the radiance recursion preserves.
pub open spec fn color_ok(c: Color) -> bool {
    &&& 0 <= c.x <= SCALE
    &&& 0 <= c.y <= SCALE
    &&& 0 <= c.z <= SCALE
}

impl Vector {
    /// All components within the representable coordinate range.
    pub open spec fn wf(self) -> bool {
        &&& -VMAX <= self.x <= VMAX
        &&& -VMAX <= self.y <= VMAX
        &&& -VMAX <= self.z <= VMAX
    }
}

pub open spec fn add_spec(a: Vector, b: Vector) -> Vector {
    Vector { x: clampv(a.x + b.x) as i64, y: clampv(a.y + b.y) as i64, z: clampv(a.z + b.z) as i64 }
}

pub open spec fn sub_spec(a: Vector, b: Vector) -> Vector {
    Vector { x: clampv(a.x - b.x) as i64, y: clampv(a.y - b.y) as i64, z: clampv(a.z - b.z) as i64 }
}

pub open spec fn neg_spec(a: Vector) -> Vector {
    Vector { x: clampv(-a.x) as i64, y: clampv(-a.y) as i64, z: clampv(-a.z) as i64 }
}

pub open spec fn scale_spec(a: Vector, k: int) -> Vector {
    Vector { x: fmul(a.x as int, k) as i64, y: fmul(a.y as int, k) as i64, z: fmul(
        a.z as int,
        k,
    ) as i64 }
}

/// Componentwise product, the attenuation of a colour by a colour.
pub open spec fn mul_spec(a: Vector, b: Vector) -> Vector {
    Vector { x: fmul(a.x as int, b.x as int) as i64, y: fmul(a.y as int, b.y as int) as i64, z:
    fmul(a.z as int, b.z as int) as i64 }
}

pub open spec fn div_scalar_spec(a: Vector, k: int) -> Vector
    recommends
        k != 0,
{
    Vector { x: fdiv(a.x as int, k) as i64, y: fdiv(a.y as int, k) as i64, z: fdiv(
        a.z as int,
        k,
    ) as i64 }
}

/// The fixed-point dot product: componentwise products summed exactly,
/// then scaled back once, truncating.
pub open spec fn dot_spec(a: Vector, b: Vector) -> int {
    tdiv(a.x * b.x + a.y * b.y + a.z * b.z, SCALE as int)
}

pub open spec fn norm_sq_spec(a: Vector) -> int {
    dot_spec(a, a)
}

pub open spec fn norm_spec(a: Vector) -> int {
    sqrt_floor(norm_sq_spec(a) * SCALE)
}

pub open spec fn normalized_spec(a: Vector) -> Vector {
    div_scalar_spec(a, norm_spec(a))
}

pub open spec fn cross_spec(a: Vector, b: Vector) -> Vector {
    Vector {
        x: clampv(fmul(a.y as int, b.z as int) - fmul(b.y as int, a.z as int)) as i64,
        y: clampv(fmul(a.z as int, b.x as int) - fmul(b.z as int, a.x as int)) as i64,
        z: clampv(fmul(a.x as int, b.y as int) - fmul(b.x as int, a.y as int)) as i64,
    }
}

/// A squared norm is never negative.
pub proof fn lemma_norm_sq_nonneg(a: Vector)
    ensures
        norm_sq_spec(a) >= 0,
{
    assert(a.x * a.x + a.y * a.y + a.z * a.z >= 0) by (nonlinear_arith);
    lemma_tdiv_props(a.x * a.x + a.y * a.y + a.z * a.z, SCALE as int);
}

/// Negating one argument negates the dot product, for well-formed
/// vectors (the componentwise clamp never engages there).
pub proof fn lemma_dot_neg(a: Vector, b: Vector)
    requires
        b.wf(),
    ensures
        dot_spec(a, neg_spec(b)) == -dot_spec(a, b),
{
    assert(neg_spec(b).x == -b.x && neg_spec(b).y == -b.y && neg_spec(b).z == -b.z);
    assert(a.x * (-b.x as int) + a.y * (-b.y as int) + a.z * (-b.z as int) == -(a.x * b.x + a.y
        * b.y + a.z * b.z)) by (nonlinear_arith);
    lemma_tdiv_props(a.x * b.x + a.y * b.y + a.z * b.z, SCALE as int);
}

/// Negation preserves the squared norm of a well-formed vector.
pub proof fn lemma_norm_sq_neg(v: Vector)
    requires
        v.wf(),
    ensures
        norm_sq_spec(neg_spec(v)) == norm_sq_spec(v),
{
    assert(neg_spec(v).x == -v.x && neg_spec(v).y == -v.y && neg_spec(v).z == -v.z);
    assert((-v.x as int) * (-v.x as int) + (-v.y as int) * (-v.y as int) + (-v.z as int) * (-v.z
        as int) == v.x * v.x + v.y * v.y + v.z * v.z) by (nonlinear_arith);
}

impl Vector {
    pub fn new(x: i64, y: i64, z: i64) -> (r: Vector)
        requires
            -VMAX <= x <= VMAX,
            -VMAX <= y <= VMAX,
            -VMAX <= z <= VMAX,
        ensures
            r == (Vector { x, y, z }),
            r.wf(),
    {
        Vector { x, y, z }
    }

    pub fn x(&self) -> (r: i64)
        ensures
            r == self.x,
    {
        self.x
    }

    pub fn y(&self) -> (r: i64)
        ensures
            r == self.y,
    {
        self.y
    }

    pub fn z(&self) -> (r: i64)
        ensures
            r == self.z,
    {
        self.z
    }

    pub fn add(self, o: Vector) -> (r: Vector)
        ensures
            r == add_spec(self, o),
            r.wf(),
    {
        Vector {
            x: clamp_i128(self.x as i128 + o.x as i128),
            y: clamp_i128(self.y as i128 + o.y as i128),
            z: clamp_i128(self.z as i128 + o.z as i128),
        }
    }

    pub fn sub(self, o: Vector) -> (r: Vector)
        ensures
            r == sub_spec(self, o),
            r.wf(),
    {
        Vector {
            x: clamp_i128(self.x as i128 - o.x as i128),
            y: clamp_i128(self.y as i128 - o.y as i128),
            z: clamp_i128(self.z as i128 - o.z as i128),
        }
    }

    pub fn neg(self) -> (r: Vector)
        ensures
            r == neg_spec(self),
            r.wf(),
    {
        Vector {
            x: clamp_i128(-(self.x as i128)),
            y: clamp_i128(-(self.y as i128)),
            z: clamp_i128(-(self.z as i128)),
        }
    }

    /// Scale by a raw fixed-point factor.
    pub fn scale(self, k: i64) -> (r: Vector)
        ensures
            r == scale_spec(self, k as int),
            r.wf(),
    {
        Vector { x: fx_mul(self.x, k), y: fx_mul(self.y, k), z: fx_mul(self.z, k) }
    }

    /// Componentwise product.
    pub fn mul(self, o: Vector) -> (r: Vector)
        ensures
            r == mul_spec(self, o),
            r.wf(),
    {
        Vector { x: fx_mul(self.x, o.x), y: fx_mul(self.y, o.y), z: fx_mul(self.z, o.z) }
    }

    /// Divide every component by a raw fixed-point factor.
    pub fn div_scalar(self, k: i64) -> (r: Vector)
        requires
            k != 0,
        ensures
            r == div_scalar_spec(self, k as int),
            r.wf(),
    {
        Vector { x: fx_div(self.x, k), y: fx_div(self.y, k), z: fx_div(self.z, k) }
    }

    pub fn dot(&self, other: &Vector) -> (r: i64)
        requires
            self.wf(),
            other.wf(),
        ensures
            r == dot_spec(*self, *other),
            -0xC000_0000_0000 <= r <= 0xC000_0000_0000,
    {
        proof {
            lemma_mul_abs_bound(self.x as int, other.x as int, VMAX as int, VMAX as int);
            lemma_mul_abs_bound(self.y as int, other.y as int, VMAX as int, VMAX as int);
            lemma_mul_abs_bound(self.z as int, other.z as int, VMAX as int, VMAX as int);
        }
        let px: i128 = (self.x as i128) * (other.x as i128);
        let py: i128 = (self.y as i128) * (other.y as i128);
        let pz: i128 = (self.z as i128) * (other.z as i128);
        let s: i128 = px + py + pz;
        let d: i128 = tdiv_i128(s, 65536);
        proof {
            lemma_tdiv_props(s as int, 65536);
            lemma_div_is_ordered(iabs(s as int), 0xC000_0000_0000_0000, 65536);
            assert(0xC000_0000_0000_0000int / 65536int == 0xC000_0000_0000int) by (nonlinear_arith);
        }
        d as i64
    }

    pub fn norm_squared(&self) -> (r: i64)
        requires
            self.wf(),
        ensures
            r == norm_sq_spec(*self),
            0 <= r <= 0xC000_0000_0000,
    {
        proof {
            lemma_norm_sq_nonneg(*self);
        }
        self.dot(self)
    }

    pub fn norm(&self) -> (r: i64)
        requires
            self.wf(),
        ensures
            r == norm_spec(*self),
            r >= 0,
    {
        let nsq = self.norm_squared();
        fx_sqrt(nsq)
    }

    pub fn normalized(&self) -> (r: Vector)
        requires
            self.wf(),
            norm_sq_spec(*self) >= 1,
        ensures
            r == normalized_spec(*self),
            r.wf(),
    {
        let n = self.norm();
        proof {
            lemma_sqrt_floor_props(norm_sq_spec(*self) * SCALE);
            assert(norm_spec(*self) >= 1) by (nonlinear_arith)
                requires
                    norm_sq_spec(*self) >= 1,
                    norm_spec(*self) >= 0,
                    (norm_spec(*self) + 1) * (norm_spec(*self) + 1) > norm_sq_spec(*self) * (
                    SCALE as int),
            ;
        }
        self.div_scalar(n)
    }

    pub fn cross(&self, other: &Vector) -> (r: Vector)
        ensures
            r == cross_spec(*self, *other),
            r.wf(),
    {
        let a = fx_mul(self.y, other.z);
        let b = fx_mul(other.y, self.z);
        let c = fx_mul(self.z, other.x);
        let d = fx_mul(other.z, self.x);
        let e = fx_mul(self.x, other.y);
        let f = fx_mul(other.x, self.y);
        Vector {
            x: clamp_i128(a as i128 - b as i128),
            y: clamp_i128(c as i128 - d as i128),
            z: clamp_i128(e as i128 - f as i128),
        }
    }
}

} // verus!
