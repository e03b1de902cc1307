//! The material model: how a surface answers an incoming ray.
//!
//! Three behaviours: ideal diffuse reflection (Lambertian), specular
//! reflection with optional roughness (Metal, which absorbs rays that
//! end up under the surface), and a clear dielectric that reflects or
//! refracts by Snell's law, total internal reflection and the Schlick
//! reflectance approximation.  A scattered ray must have a usable
//! (non-zero) direction; when a computed direction degenerates past
//! the guard it falls back to the surface normal, and past that to
//! the incoming direction, so Lambertian and dielectric surfaces
//! never absorb, and a metal absorbs exactly when the perturbed
//! reflection points under the surface.

use crate::fixed::{
    fdiv, fmul, fx_div, fx_mul, fx_sqrt, iabs, lemma_fmul_square_unit, sqrt_floor, SCALE, VMAX,
};
use crate::ray::{white_color, Ray};
use crate::sample::ball_draw;
use crate::sphere::HitPoint;
use crate::vector::{
    add_spec, color_ok, dot_spec, norm_sq_spec, normalized_spec, scale_spec, sub_spec, Color,
    Vector,
};
use vstd::prelude::*;

verus! {

#[derive(Clone, Copy, Debug, PartialEq, Eq, Structural)]
pub enum Material {
    /// Ideal diffuse reflectance.
    Lambertian { color: Color },
    /// Specular reflection, roughened by `fuzz` (raw fixed point,
    /// zero to one).
    Metal { color: Color, fuzz: i64 },
    /// A clear refractive medium; transmits with attenuation one.
    Dielectric { index_of_refraction: i64 },
}

/// Mirror reflection of `v` about the normal `n`.
pub open spec fn reflect_spec(v: Vector, n: Vector) -> Vector {
    sub_spec(v, scale_spec(n, 2 * dot_spec(v, n)))
}

/// The cosine of the incidence angle, clamped into `[-1, 1]`.
pub open spec fn cos_clamp_spec(uv: Vector, n: Vector) -> int {
    let m = -dot_spec(uv, n);
    if m > SCALE {
        SCALE as int
    } else if m < -SCALE {
        -(SCALE as int)
    } else {
        m
    }
}

/// Snell refraction of the unit direction `uv` at normal `n` with the
/// given ratio of refractive indices, decomposed into the component
/// perpendicular to `n` and the parallel remainder.
pub open spec fn refract_spec(uv: Vector, n: Vector, ratio: int) -> Vector {
    let cos = cos_clamp_spec(uv, n);
    let perp = scale_spec(add_spec(uv, scale_spec(n, cos)), ratio);
    let k = iabs(SCALE - norm_sq_spec(perp));
    let par = scale_spec(n, sqrt_floor(k * SCALE));
    sub_spec(perp, par)
}

/// The Schlick approximation of Fresnel reflectance.
pub open spec fn reflectance_spec(cos: int, ref_idx: int) -> int {
    let r0a = fdiv(SCALE - ref_idx, SCALE + ref_idx);
    let r0 = fmul(r0a, r0a);
    let p = SCALE - cos;
    let p5 = fmul(fmul(fmul(fmul(p, p), p), p), p);
    r0 + fmul(SCALE - r0, p5)
}

/// The ratio of refractive indices seen by the ray: the reciprocal
/// index entering from outside, the index itself leaving.
pub open spec fn dielectric_ratio(ior: int, front_face: bool) -> int {
    if front_face {
        fdiv(SCALE as int, ior)
    } else {
        ior
    }
}

/// The sine of the incidence angle, from the clamped cosine.
pub open spec fn dielectric_sin(uv: Vector, n: Vector) -> int {
    sqrt_floor((SCALE - fmul(cos_clamp_spec(uv, n), cos_clamp_spec(uv, n))) * SCALE)
}

/// Total internal reflection: the refracted angle would need a sine
/// beyond one.
pub open spec fn dielectric_tir(ray: Ray, h: HitPoint, ior: int) -> bool {
    let u = normalized_spec(ray.direction);
    fmul(dielectric_ratio(ior, h.front_face), dielectric_sin(u, h.normal)) > SCALE
}

/// A direction can stand in a ray when it has at least one raw step
/// of length.
pub open spec fn usable_dir(v: Vector) -> bool {
    norm_sq_spec(v) >= 1
}

/// The scattered direction, or the nearest usable stand-in: the
/// surface normal when the computed direction degenerates past the
/// guard, the incoming direction when the normal does too.
pub open spec fn fallback_dir(d0: Vector, n: Vector, raw: Vector) -> Vector {
    if usable_dir(d0) {
        d0
    } else if usable_dir(n) {
        n
    } else {
        raw
    }
}

fn usable_or(d0: Vector, n: Vector, raw: Vector) -> (r: Vector)
    requires
        d0.wf(),
        n.wf(),
        raw.wf(),
        norm_sq_spec(raw) >= 1,
    ensures
        r == fallback_dir(d0, n, raw),
        r.wf(),
        norm_sq_spec(r) >= 1,
{
    if d0.norm_squared() >= 1 {
        d0
    } else if n.norm_squared() >= 1 {
        n
    } else {
        raw
    }
}

fn reflect(v: Vector, n: Vector) -> (r: Vector)
    requires
        v.wf(),
        n.wf(),
    ensures
        r == reflect_spec(v, n),
        r.wf(),
{
    let d = v.dot(&n);
    v.sub(n.scale(2 * d))
}

fn refract(uv: Vector, n: Vector, ratio: i64) -> (r: Vector)
    requires
        uv.wf(),
        n.wf(),
    ensures
        r == refract_spec(uv, n, ratio as int),
        r.wf(),
{
    let d = uv.dot(&n);
    let m = -d;
    let cos: i64 = if m > 65536 {
        65536
    } else if m < -65536 {
        -65536
    } else {
        m
    };
    let perp = uv.add(n.scale(cos)).scale(ratio);
    let k0 = 65536 - perp.norm_squared();
    let k = if k0 < 0 {
        -k0
    } else {
        k0
    };
    let par = n.scale(fx_sqrt(k));
    perp.sub(par)
}

/// The Schlick reflectance, compared against a uniform draw to pick
/// reflection over refraction.
fn reflectance(cos: i64, ref_idx: i64) -> (r: i64)
    requires
        -SCALE <= cos <= SCALE,
        1 <= ref_idx <= VMAX,
    ensures
        r == reflectance_spec(cos as int, ref_idx as int),
{
    let r0a = fx_div(65536 - ref_idx, 65536 + ref_idx);
    let r0 = fx_mul(r0a, r0a);
    let p = 65536 - cos;
    let p5 = fx_mul(fx_mul(fx_mul(fx_mul(p, p), p), p), p);
    r0 + fx_mul(65536 - r0, p5)
}

impl Material {
    /// Well-formed materials: albedo channels within one colour unit
    /// (no energy gain per bounce), roughness within one, refractive
    /// index at least one.
    pub open spec fn wf(self) -> bool {
        match self {
            Material::Lambertian { color } => color_ok(color),
            Material::Metal { color, fuzz } => color_ok(color) && 0 <= fuzz <= SCALE,
            Material::Dielectric { index_of_refraction } => 1 <= index_of_refraction <= VMAX,
        }
    }

    /// The attenuation a scatter applies: the albedo for Lambertian
    /// and Metal surfaces, plain white for a dielectric.
    pub open spec fn albedo_spec(self) -> Color {
        match self {
            Material::Lambertian { color } => color,
            Material::Metal { color, .. } => color,
            Material::Dielectric { .. } => white_color(),
        }
    }

    /// Scatter an incoming ray at a hit point: either an outgoing ray
    /// with its attenuation, or `None` for absorption.
    pub fn scatter(
        &self,
        rng: &mut rand_pcg::Mcg128Xsl64,
        ray: &Ray,
        hit: &HitPoint,
    ) -> (res: Option<(Ray, Color)>)
        requires
            self.wf(),
            ray.wf(),
            hit.point.wf(),
            hit.normal.wf(),
        ensures
            res matches Some(p) ==> {
                &&& p.0.wf()
                &&& p.0.origin == hit.point
                &&& p.1 == self.albedo_spec()
                &&& color_ok(p.1)
            },
            self matches Material::Lambertian { .. } ==> res.is_some(),
            self matches Material::Lambertian { .. } ==> (res matches Some(p) ==> exists|s: Vector|
                (#[trigger] ball_draw(s)) && p.0.direction == fallback_dir(
                    add_spec(hit.normal, normalized_spec(s)),
                    hit.normal,
                    ray.direction,
                )),
            self matches Material::Metal { fuzz, .. } ==> exists|s: Vector|
                #![trigger ball_draw(s)]
                {
                    let d = add_spec(
                        reflect_spec(normalized_spec(ray.direction), hit.normal),
                        scale_spec(s, fuzz as int),
                    );
                    &&& ball_draw(s)
                    &&& (res.is_some() <==> dot_spec(d, hit.normal) > 0)
                    &&& (res matches Some(p) ==> p.0.direction == fallback_dir(
                        d,
                        hit.normal,
                        ray.direction,
                    ))
                },
            self matches Material::Metal { .. } ==> (res matches Some(p) ==> (usable_dir(
                hit.normal,
            ) ==> dot_spec(p.0.direction, hit.normal) > 0)),
            self matches Material::Metal { fuzz, .. } ==> (fuzz == 0 ==> {
                let refl = reflect_spec(normalized_spec(ray.direction), hit.normal);
                &&& (res.is_some() <==> dot_spec(refl, hit.normal) > 0)
                &&& (res matches Some(p) ==> p.0.direction == fallback_dir(
                    refl,
                    hit.normal,
                    ray.direction,
                ))
            }),
            self matches Material::Dielectric { .. } ==> res.is_some(),
            self matches Material::Dielectric { index_of_refraction: ior } ==> {
                let u = normalized_spec(ray.direction);
                let refl = fallback_dir(reflect_spec(u, hit.normal), hit.normal, ray.direction);
                let refr = fallback_dir(
                    refract_spec(u, hit.normal, dielectric_ratio(ior as int, hit.front_face)),
                    hit.normal,
                    ray.direction,
                );
                &&& (res matches Some(p) ==> p.0.direction == refl || p.0.direction == refr)
                &&& (dielectric_tir(*ray, *hit, ior as int) ==> (res matches Some(p)
                    ==> p.0.direction == refl))
            },
    {
        match self {
            Material::Lambertian { color } => {
                let rv = Vector::random_in_unit_sphere(rng);
                let unit = rv.normalized();
                let candidate = hit.normal.add(unit);
                let direction = usable_or(candidate, hit.normal, ray.direction);
                proof {
                    assert(ball_draw(rv) && direction == fallback_dir(
                        add_spec(hit.normal, normalized_spec(rv)),
                        hit.normal,
                        ray.direction,
                    ));
                }
                Some((Ray::new(hit.point, direction), *color))
            },
            Material::Metal { color, fuzz } => {
                let random = Vector::random_in_unit_sphere(rng);
                let u = ray.direction.normalized();
                let mirror = reflect(u, hit.normal);
                let reflected = mirror.add(random.scale(*fuzz));
                proof {
                    if *fuzz == 0i64 {
                        vstd::arithmetic::div_mod::lemma_div_of0(SCALE as int);
                        assert(random.x * 0 == 0 && random.y * 0 == 0 && random.z * 0 == 0);
                        assert(scale_spec(random, 0) == (Vector { x: 0i64, y: 0i64, z: 0i64 }));
                        assert(reflected == mirror);
                    }
                }
                if reflected.dot(&hit.normal) > 0 {
                    let direction = usable_or(reflected, hit.normal, ray.direction);
                    proof {
                        if usable_dir(hit.normal) {
                            assert(dot_spec(direction, hit.normal) > 0);
                        }
                    }
                    Some((Ray::new(hit.point, direction), *color))
                } else {
                    None
                }
            },
            Material::Dielectric { index_of_refraction } => {
                let ior = *index_of_refraction;
                let attenuation = Vector::new(65536, 65536, 65536);
                let ratio = if hit.front_face {
                    fx_div(65536, ior)
                } else {
                    ior
                };
                let u = ray.direction.normalized();
                let d = u.dot(&hit.normal);
                let m = -d;
                let cos: i64 = if m > 65536 {
                    65536
                } else if m < -65536 {
                    -65536
                } else {
                    m
                };
                proof {
                    lemma_fmul_square_unit(cos as int);
                }
                let sin2 = 65536 - fx_mul(cos, cos);
                let sin = fx_sqrt(sin2);
                let direction0 = if fx_mul(ratio, sin) > 65536 {
                    reflect(u, hit.normal)
                } else {
                    let refl_prob = reflectance(cos, ior);
                    let draw = crate::rng::rand_unit(rng);
                    if refl_prob > draw {
                        reflect(u, hit.normal)
                    } else {
                        refract(u, hit.normal, ratio)
                    }
                };
                let direction = usable_or(direction0, hit.normal, ray.direction);
                Some((Ray::new(hit.point, direction), attenuation))
            },
        }
    }
}

} // verus!
