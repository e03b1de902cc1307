//! Ray-sphere intersection.
//!
//! For a ray `R(t) = O + t*D` and a sphere of center `C` and signed
//! radius `r`, the intersections solve
//! `t^2*|D|^2 + 2t*(D . (O-C)) + |O-C|^2 - r^2 = 0`.
//! With the half coefficient `b2 = D . (O-C)` the discriminant is
//! `b2^2 - a*c`; a negative discriminant is a miss.  Otherwise the
//! nearer root is taken; a root below one raw step (the
//! self-intersection guard) falls back to the farther root, and only
//! when both roots fall below the guard is a miss reported.  The
//! stored parameter saturates at the largest `i64` step, a value no
//! intersection inside the representable world approaches.  The
//! returned normal always opposes the incoming direction;
//! `front_face` records whether the ray arrived from outside (with
//! respect to the signed radius).

use crate::fixed::{
    fmul, isqrt128, lemma_mul_abs_bound, lemma_sqrt_floor_is, sqrt_floor, tdiv, tdiv_i128, SCALE,
    VMAX,
};
use crate::ray::Ray;
use crate::vector::{
    div_scalar_spec, dot_spec, lemma_dot_neg, neg_spec, norm_sq_spec, sub_spec, Vector,
};
use vstd::prelude::*;

verus! {

/// Scene geometry: a sphere with a signed radius (a negative radius
/// models a hollow shell whose surface normal points inward).
#[derive(Clone, Copy, Debug, PartialEq, Eq, Structural)]
pub struct Sphere {
    pub center: Vector,
    pub radius: i64,
}

/// One intersection: the point, the unit-scale normal opposing the
/// ray, the ray parameter, and which side the ray arrived from.
#[derive(Clone, Copy, Debug, PartialEq, Eq, Structural)]
pub struct HitPoint {
    pub point: Vector,
    pub normal: Vector,
    pub t: i64,
    pub front_face: bool,
}

impl Sphere {
    pub open spec fn wf(self) -> bool {
        &&& self.center.wf()
        &&& self.radius != 0
        &&& -VMAX <= self.radius <= VMAX
    }

    /// Offset from the sphere's center to the ray's origin.
    pub open spec fn co_spec(self, ray: Ray) -> Vector {
        sub_spec(ray.origin, self.center)
    }

    /// Quadratic coefficient `a = |D|^2`.
    pub open spec fn qa_spec(self, ray: Ray) -> int {
        norm_sq_spec(ray.direction)
    }

    /// Half coefficient `b2 = D . (O - C)`.
    pub open spec fn qb2_spec(self, ray: Ray) -> int {
        dot_spec(ray.direction, self.co_spec(ray))
    }

    /// Constant coefficient `c = |O - C|^2 - r^2`.
    pub open spec fn qc_spec(self, ray: Ray) -> int {
        norm_sq_spec(self.co_spec(ray)) - fmul(self.radius as int, self.radius as int)
    }

    /// The discriminant, held at the square of the raw scale.
    pub open spec fn disc_spec(self, ray: Ray) -> int {
        self.qb2_spec(ray) * self.qb2_spec(ray) - self.qa_spec(ray) * self.qc_spec(ray)
    }

    /// The nearer root of the quadratic, in raw steps.
    pub open spec fn root1_spec(self, ray: Ray) -> int {
        tdiv((-self.qb2_spec(ray) - sqrt_floor(self.disc_spec(ray))) * SCALE, self.qa_spec(ray))
    }

    /// The farther root of the quadratic, in raw steps.
    pub open spec fn root2_spec(self, ray: Ray) -> int {
        tdiv((-self.qb2_spec(ray) + sqrt_floor(self.disc_spec(ray))) * SCALE, self.qa_spec(ray))
    }

    /// Exactly when an intersection is reported: the discriminant is
    /// non-negative and a root reaches the self-intersection guard of
    /// one raw step, the nearer root taking precedence and the
    /// farther one consulted only when the nearer falls below the
    /// guard.
    pub open spec fn hit_cond(self, ray: Ray) -> bool {
        &&& self.disc_spec(ray) >= 0
        &&& {
            ||| 1 <= self.root1_spec(ray)
            ||| (self.root1_spec(ray) < 1 && 1 <= self.root2_spec(ray))
        }
    }

    /// The stored ray parameter saturates at the largest `i64` step.
    pub open spec fn tsat(v: int) -> int {
        if v > i64::MAX {
            i64::MAX as int
        } else {
            v
        }
    }

    /// The reported ray parameter, when `hit_cond` holds.
    pub open spec fn chosen_t_spec(self, ray: Ray) -> int {
        if self.root1_spec(ray) >= 1 {
            self.root1_spec(ray)
        } else {
            self.root2_spec(ray)
        }
    }

    /// The outward normal at parameter `t`, scaled by the signed
    /// radius (so a hollow shell's normal points inward).
    pub open spec fn normal_raw_spec(self, ray: Ray, t: int) -> Vector {
        div_scalar_spec(sub_spec(ray.at_spec(t), self.center), self.radius as int)
    }

    /// The whole result of the intersection test.
    pub open spec fn hit_spec(self, ray: Ray) -> Option<HitPoint> {
        if !self.hit_cond(ray) {
            None
        } else {
            let t = Self::tsat(self.chosen_t_spec(ray));
            let point = ray.at_spec(t);
            let nraw = self.normal_raw_spec(ray, t);
            if dot_spec(ray.direction, nraw) <= 0 {
                Some(HitPoint { point, normal: nraw, t: t as i64, front_face: true })
            } else {
                Some(HitPoint { point, normal: neg_spec(nraw), t: t as i64, front_face: false })
            }
        }
    }

    /// A sphere that lies behind the ray, or swallows its origin
    /// deeper than the radius, is never reported as a hit: when the
    /// origin-to-center coefficients satisfy `b2 >= 0` (the center is
    /// not ahead) and `c >= 0` (the origin is not inside), both roots
    /// fall below the self-intersection guard.
    pub proof fn lemma_behind_is_a_miss(self, ray: Ray)
        requires
            self.wf(),
            ray.wf(),
            self.qb2_spec(ray) >= 0,
            self.qc_spec(ray) >= 0,
        ensures
            self.hit_spec(ray) is None,
    {
        let a = self.qa_spec(ray);
        let b2 = self.qb2_spec(ray);
        let c = self.qc_spec(ray);
        let disc = self.disc_spec(ray);
        if disc >= 0 {
            let s = sqrt_floor(disc);
            crate::fixed::lemma_sqrt_floor_props(disc);
            assert(disc <= b2 * b2) by (nonlinear_arith)
                requires
                    disc == b2 * b2 - a * c,
                    a >= 1,
                    c >= 0,
            ;
            assert(s <= b2) by (nonlinear_arith)
                requires
                    0 <= s,
                    0 <= b2,
                    s * s <= disc,
                    disc <= b2 * b2,
            ;
            assert((-b2 + s) * SCALE <= 0) by (nonlinear_arith)
                requires
                    s <= b2,
            ;
            assert((-b2 - s) * SCALE <= 0) by (nonlinear_arith)
                requires
                    0 <= s,
                    0 <= b2,
            ;
            crate::fixed::lemma_tdiv_props((-b2 + s) * SCALE, a);
            crate::fixed::lemma_tdiv_props((-b2 - s) * SCALE, a);
            assert(self.root1_spec(ray) <= 0);
            assert(self.root2_spec(ray) <= 0);
        }
    }

    pub fn new(center: Vector, radius: i64) -> (s: Sphere)
        requires
            center.wf(),
            radius != 0,
            -VMAX <= radius <= VMAX,
        ensures
            s == (Sphere { center, radius }),
            s.wf(),
    {
        Sphere { center, radius }
    }

    /// The nearest valid intersection of the ray with this sphere,
    /// or `None` when the ray misses it.
    pub fn hit(&self, ray: &Ray) -> (res: Option<HitPoint>)
        requires
            self.wf(),
            ray.wf(),
        ensures
            res == self.hit_spec(*ray),
            res.is_some() == self.hit_cond(*ray),
            res matches Some(h) ==> {
                &&& dot_spec(ray.direction, h.normal) <= 0
                &&& h.t == Self::tsat(self.chosen_t_spec(*ray))
                &&& 1 <= h.t
                &&& h.point.wf()
                &&& h.normal.wf()
            },
    {
        let co = ray.origin.sub(self.center);
        let a = ray.direction.norm_squared();
        let b2 = ray.direction.dot(&co);
        let cc = co.norm_squared();
        let rr = crate::fixed::fx_mul(self.radius, self.radius);
        let c = cc - rr;
        let b2w: i128 = b2 as i128;
        let aw: i128 = a as i128;
        let cw: i128 = c as i128;
        proof {
            lemma_mul_abs_bound(b2w as int, b2w as int, 0xC000_0000_0000, 0xC000_0000_0000);
            lemma_mul_abs_bound(aw as int, cw as int, 0xC000_0000_0000, 0xC001_0000_0000);
        }
        let disc: i128 = b2w * b2w - aw * cw;
        if disc < 0 {
            return None;
        }
        let s64: u64 = isqrt128(disc as u128);
        proof {
            lemma_sqrt_floor_is(disc as int, s64 as int);
            assert(s64 <= 0x2_0000_0000_0000) by (nonlinear_arith)
                requires
                    (s64 as int) * (s64 as int) <= disc as int,
                    disc <= 0x4_0000_0000_0000_0000_0000_0000i128,
            ;
        }
        let sw: i128 = s64 as i128;
        let num1: i128 = (-b2w - sw) * 65536;
        let t1: i128 = tdiv_i128(num1, aw);
        let num2: i128 = (-b2w + sw) * 65536;
        let t2: i128 = tdiv_i128(num2, aw);
        let t: i128 = if t1 < 1 {
            t2
        } else {
            t1
        };
        if t < 1 {
            return None;
        }
        let ti: i64 = if t > 0x7FFF_FFFF_FFFF_FFFFi128 {
            i64::MAX
        } else {
            t as i64
        };
        let point = ray.at(ti);
        let nraw = point.sub(self.center).div_scalar(self.radius);
        let d = ray.direction.dot(&nraw);
        if d <= 0 {
            Some(HitPoint { point, normal: nraw, t: ti, front_face: true })
        } else {
            proof {
                lemma_dot_neg(ray.direction, nraw);
            }
            Some(HitPoint { point, normal: nraw.neg(), t: ti, front_face: false })
        }
    }
}

} // verus!
