//! The camera: an orthonormal viewing basis built once from the
//! viewpoint, the target and the up direction, plus a virtual image
//! plane at the focus distance and an optional thin lens for defocus
//! blur.
//!
//! The vertical half height of the viewport is taken directly (it is
//! the tangent of half the vertical field of view, which a caller
//! computes in whatever precision it likes), so construction itself
//! is pure fixed-point algebra.  A degenerate basis — target equal to
//! the viewpoint, or an up direction parallel to the view direction —
//! is rejected with `None`.

use crate::fixed::{fdiv, fmul, iabs, lemma_fmul_le_factor, tdiv, SCALE, VMAX};
use crate::ray::Ray;
use crate::sample::disk_draw;
use crate::vector::{
    add_spec, cross_spec, lemma_norm_sq_neg, norm_spec, norm_sq_spec, normalized_spec,
    scale_spec, sub_spec, Vector,
};
use vstd::arithmetic::div_mod::{lemma_div_multiples_vanish, lemma_div_of0};
use vstd::prelude::*;

verus! {

#[derive(Clone, Copy, Debug, PartialEq, Eq, Structural)]
pub struct Camera {
    pub origin: Vector,
    pub horizontal: Vector,
    pub vertical: Vector,
    pub lower_left_corner: Vector,
    pub u: Vector,
    pub v: Vector,
    pub w: Vector,
    pub lens_radius: i64,
}

/// The un-normalized view direction.
pub open spec fn cam_dir_spec(look_from: Vector, look_at: Vector) -> Vector {
    sub_spec(look_from, look_at)
}

/// The basis vector pointing from the target to the viewpoint.
pub open spec fn cam_w_spec(look_from: Vector, look_at: Vector) -> Vector {
    normalized_spec(cam_dir_spec(look_from, look_at))
}

/// The right-hand basis vector, before normalization.
pub open spec fn cam_u_raw_spec(view_up: Vector, w: Vector) -> Vector {
    cross_spec(view_up, w)
}

/// All the non-degeneracy conditions construction checks, in order.
pub open spec fn camera_ok(look_from: Vector, look_at: Vector, view_up: Vector) -> bool {
    let w = cam_w_spec(look_from, look_at);
    let uraw = cam_u_raw_spec(view_up, w);
    let u = normalized_spec(uraw);
    let v = cross_spec(w, u);
    &&& norm_sq_spec(cam_dir_spec(look_from, look_at)) >= 1
    &&& norm_sq_spec(w) >= 1
    &&& norm_sq_spec(uraw) >= 1
    &&& norm_sq_spec(u) >= 1
    &&& norm_sq_spec(v) >= 1
}

impl Camera {
    /// The basis is sound: every stored vector is well formed and the
    /// three basis vectors have positive length.
    pub open spec fn wf(self) -> bool {
        &&& self.origin.wf()
        &&& self.horizontal.wf()
        &&& self.vertical.wf()
        &&& self.lower_left_corner.wf()
        &&& self.u.wf()
        &&& self.v.wf()
        &&& self.w.wf()
        &&& norm_sq_spec(self.u) >= 1
        &&& norm_sq_spec(self.v) >= 1
        &&& norm_sq_spec(self.w) >= 1
        &&& 0 <= self.lens_radius <= VMAX
    }

    /// The image-plane direction for normalized coordinates `(s, t)`,
    /// before any lens offset.
    pub open spec fn dir0_spec(self, s: int, t: int) -> Vector {
        sub_spec(
            add_spec(
                add_spec(self.lower_left_corner, scale_spec(self.horizontal, s)),
                scale_spec(self.vertical, t),
            ),
            self.origin,
        )
    }

    /// Build a camera, or `None` when the basis degenerates.
    pub fn new(
        look_from: Vector,
        look_at: Vector,
        view_up: Vector,
        half_height: i64,
        aspect_ratio: i64,
        aperture: i64,
        focus_distance: i64,
    ) -> (res: Option<Camera>)
        requires
            look_from.wf(),
            look_at.wf(),
            view_up.wf(),
            1 <= half_height <= VMAX,
            1 <= aspect_ratio <= VMAX,
            0 <= aperture <= VMAX,
            1 <= focus_distance <= VMAX,
        ensures
            res.is_some() == camera_ok(look_from, look_at, view_up),
            res matches Some(c) ==> {
                let w = cam_w_spec(look_from, look_at);
                let u = normalized_spec(cam_u_raw_spec(view_up, w));
                let v = cross_spec(w, u);
                let vph = 2 * half_height;
                let vpw = fmul(vph, aspect_ratio as int);
                &&& c.origin == look_from
                &&& c.w == w
                &&& c.u == u
                &&& c.v == v
                &&& c.horizontal == scale_spec(u, fmul(vpw, focus_distance as int))
                &&& c.vertical == scale_spec(v, fmul(vph, focus_distance as int))
                &&& c.lower_left_corner == sub_spec(
                    sub_spec(
                        sub_spec(look_from, scale_spec(c.horizontal, 32768)),
                        scale_spec(c.vertical, 32768),
                    ),
                    scale_spec(w, focus_distance as int),
                )
                &&& c.lens_radius == fmul(aperture as int, 32768)
                &&& c.wf()
            },
    {
        let dir = look_from.sub(look_at);
        if dir.norm_squared() < 1 {
            return None;
        }
        let w = dir.normalized();
        if w.norm_squared() < 1 {
            return None;
        }
        let uraw = view_up.cross(&w);
        if uraw.norm_squared() < 1 {
            return None;
        }
        let u = uraw.normalized();
        if u.norm_squared() < 1 {
            return None;
        }
        let v = w.cross(&u);
        if v.norm_squared() < 1 {
            return None;
        }
        let viewport_height = 2 * half_height;
        let viewport_width = crate::fixed::fx_mul(viewport_height, aspect_ratio);
        let horizontal = u.scale(crate::fixed::fx_mul(viewport_width, focus_distance));
        let vertical = v.scale(crate::fixed::fx_mul(viewport_height, focus_distance));
        let lower_left_corner = look_from.sub(horizontal.scale(32768)).sub(vertical.scale(32768))
            .sub(w.scale(focus_distance));
        let lens_radius = crate::fixed::fx_mul(aperture, 32768);
        proof {
            lemma_fmul_le_factor(aperture as int, 32768);
        }
        Some(
            Camera {
                origin: look_from,
                horizontal,
                vertical,
                lower_left_corner,
                u,
                v,
                w,
                lens_radius,
            },
        )
    }

    /// The ratio of the viewport's width to its height, in fixed
    /// point (zero when the vertical extent is degenerate).
    pub fn aspect_ratio(&self) -> (r: i64)
        requires
            self.wf(),
        ensures
            norm_spec(self.vertical) != 0 ==> r == crate::fixed::fdiv(
                norm_spec(self.horizontal),
                norm_spec(self.vertical),
            ),
            norm_spec(self.vertical) == 0 ==> r == 0,
    {
        let nv = self.vertical.norm();
        if nv == 0 {
            return 0;
        }
        crate::fixed::fx_div(self.horizontal.norm(), nv)
    }

    /// The origin shift a lens sample produces: the sample's plane
    /// coordinates, scaled by the lens radius, along the camera's
    /// `u` and `v` basis vectors.
    pub open spec fn lens_offset_spec(self, rd: Vector) -> Vector {
        add_spec(
            scale_spec(self.u, fmul(rd.x as int, self.lens_radius as int)),
            scale_spec(self.v, fmul(rd.y as int, self.lens_radius as int)),
        )
    }

    /// The ray through image-plane coordinates `(s, t)`, its origin
    /// jittered over the lens disk when the aperture is open and the
    /// direction compensated so the ray still meets the same
    /// focus-plane point.  A degenerate image-plane direction falls
    /// back to the view axis, so the result is always a usable ray.
    pub fn get_ray(&self, rng: &mut rand_pcg::Mcg128Xsl64, s: i64, t: i64) -> (r: Ray)
        requires
            self.wf(),
            -2 * SCALE <= s <= 2 * SCALE,
            -2 * SCALE <= t <= 2 * SCALE,
        ensures
            r.wf(),
            self.lens_radius == 0 ==> r.origin == self.origin,
            self.lens_radius == 0 && norm_sq_spec(self.dir0_spec(s as int, t as int)) >= 1
                ==> r.direction == self.dir0_spec(s as int, t as int),
            self.lens_radius == 0 && norm_sq_spec(self.dir0_spec(s as int, t as int)) < 1
                ==> r.direction == crate::vector::neg_spec(self.w),
            self.lens_radius > 0 ==> exists|rd: Vector|
                (#[trigger] disk_draw(rd)) && r.origin == add_spec(
                    self.origin,
                    self.lens_offset_spec(rd),
                ) && {
                    let d0 = sub_spec(
                        self.dir0_spec(s as int, t as int),
                        self.lens_offset_spec(rd),
                    );
                    r.direction == (if norm_sq_spec(d0) >= 1 {
                        d0
                    } else {
                        crate::vector::neg_spec(self.w)
                    })
                },
    {
        let ghost mut grd: Vector = Vector { x: 0, y: 0, z: 0 };
        let offset = if self.lens_radius > 0 {
            let rd = Vector::random_in_unit_disk(rng);
            proof {
                grd = rd;
            }
            let rs = rd.scale(self.lens_radius);
            self.u.scale(rs.x).add(self.v.scale(rs.y))
        } else {
            Vector::new(0, 0, 0)
        };
        proof {
            if self.lens_radius > 0 {
                assert(disk_draw(grd) && offset == self.lens_offset_spec(grd));
            }
        }
        let origin = self.origin.add(offset);
        let dir0 = self.lower_left_corner.add(self.horizontal.scale(s)).add(
            self.vertical.scale(t),
        ).sub(self.origin);
        let direction = dir0.sub(offset);
        if direction.norm_squared() < 1 {
            proof {
                lemma_norm_sq_neg(self.w);
            }
            Ray::new(origin, self.w.neg())
        } else {
            Ray::new(origin, direction)
        }
    }
}

/// The exact value of the stock camera: eye at the origin looking
/// down the negative z axis with the y axis up, a ninety-degree
/// vertical field of view (half height one unit), a sixteen-to-nine
/// viewport at focus distance one, and a closed lens.  In raw steps
/// the viewport is 32/9 wide (233016, rounded down) by 2 high.
pub open spec fn stock_camera() -> Camera {
    Camera {
        origin: Vector { x: 0, y: 0, z: 0 },
        horizontal: Vector { x: 233016, y: 0, z: 0 },
        vertical: Vector { x: 0, y: 131072, z: 0 },
        lower_left_corner: Vector { x: -116508i64, y: -65536i64, z: -65536i64 },
        u: Vector { x: 65536, y: 0, z: 0 },
        v: Vector { x: 0, y: 65536, z: 0 },
        w: Vector { x: 0, y: 0, z: 65536 },
        lens_radius: 0,
    }
}

impl Default for Camera {
    /// The stock camera, built through `Camera::new`; the proof
    /// evaluates that construction down to [`stock_camera`].
    fn default() -> (c: Camera)
        ensures
            c == stock_camera(),
            c.wf(),
    {
        let made = Camera::new(
            Vector::new(0, 0, 0),
            Vector::new(0, 0, -65536),
            Vector::new(0, 65536, 0),
            65536,
            116508,
            0,
            65536,
        );
        proof {
            lemma_div_of0(65536);
            lemma_div_multiples_vanish(65536, 65536);
            lemma_div_multiples_vanish(131072, 65536);
            lemma_div_multiples_vanish(233016, 65536);
            lemma_div_multiples_vanish(116508, 65536);
            assert(65536int * 65536int == 4294967296int) by (nonlinear_arith);
            assert(65537int * 65537int > 4294967296int) by (nonlinear_arith);
            crate::fixed::lemma_sqrt_floor_is(4294967296int, 65536int);
            assert(131072int * 116508int == 65536int * 233016int) by (nonlinear_arith);
            assert(233016int * 65536int == 65536int * 233016int) by (nonlinear_arith);
            assert(131072int * 65536int == 65536int * 131072int) by (nonlinear_arith);
            assert(233016int * 32768int == 65536int * 116508int) by (nonlinear_arith);
            assert(131072int * 32768int == 65536int * 65536int) by (nonlinear_arith);
            assert(iabs(4294967296int) == 4294967296int);
            assert(4294967296int / 65536int == 65536int);
            assert(tdiv(4294967296int, 65536int) == 65536int);
            assert(tdiv(0int, 65536int) == 0int);
            assert(fmul(65536, 65536) == 65536);
            assert(fmul(0, 65536) == 0 && fmul(65536, 0) == 0 && fmul(0, 0) == 0);
            assert(fmul(0, 233016) == 0 && fmul(0, 131072) == 0 && fmul(0, 32768) == 0);
            assert(fmul(65536, 233016) == 233016);
            assert(fmul(65536, 131072) == 131072);
            assert(fmul(233016, 32768) == 116508);
            assert(fmul(131072, 32768) == 65536);
            assert(fdiv(0, 65536) == 0 && fdiv(65536, 65536) == 65536);
            let from0 = Vector { x: 0i64, y: 0i64, z: 0i64 };
            let at0 = Vector { x: 0i64, y: 0i64, z: -65536i64 };
            let up0 = Vector { x: 0i64, y: 65536i64, z: 0i64 };
            assert(cam_dir_spec(from0, at0) == (Vector { x: 0i64, y: 0i64, z: 65536i64 }));
            assert(norm_sq_spec(cam_dir_spec(from0, at0)) == tdiv(4294967296int, 65536int));
            assert(cam_w_spec(from0, at0) == stock_camera().w);
            assert(cam_u_raw_spec(up0, stock_camera().w) == (Vector {
                x: 65536i64,
                y: 0i64,
                z: 0i64,
            }));
            assert(normalized_spec(cam_u_raw_spec(up0, stock_camera().w)) == stock_camera().u);
            assert(cross_spec(stock_camera().w, stock_camera().u) == stock_camera().v);
            assert(camera_ok(from0, at0, up0));
            assert(fmul(131072, 116508) == 233016);
            assert(fmul(233016, 65536) == 233016);
            assert(fmul(131072, 65536) == 131072);
            assert(scale_spec(stock_camera().u, 233016) == stock_camera().horizontal);
            assert(scale_spec(stock_camera().v, 131072) == stock_camera().vertical);
            assert(scale_spec(stock_camera().horizontal, 32768) == (Vector {
                x: 116508i64,
                y: 0i64,
                z: 0i64,
            }));
            assert(scale_spec(stock_camera().vertical, 32768) == (Vector {
                x: 0i64,
                y: 65536i64,
                z: 0i64,
            }));
            assert(scale_spec(stock_camera().w, 65536) == (Vector {
                x: 0i64,
                y: 0i64,
                z: 65536i64,
            }));
            assert(fmul(0, 32768) == 0);
            assert(made == Some(stock_camera()));
        }
        match made {
            Some(cam) => cam,
            None => vstd::pervasive::unreached(),
        }
    }
}

} // verus!

