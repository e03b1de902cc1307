//! The path integrator and the pixel pipeline.
//!
//! `ray_color` walks a ray against the scene: the nearest hit's
//! material scatters it (or absorbs it into black), the recursion
//! descends with the attenuation multiplied in, and a miss returns
//! the sky.  The recursion stops at depth zero with black.  Channels
//! stay within `[0, 1]` throughout: albedos are bounded by one and a
//! fixed-point product with a factor below one never grows.
//!
//! `render` averages jittered samples per pixel, applies gamma two
//! (a square root) and emits bytes in raster order, row-major from
//! the top row down.

use crate::camera::Camera;
use crate::fixed::{
    cast_pixel, cast_pixel_spec, fx_sqrt, lemma_fmul_le_factor, lemma_tdiv_le, sqrt_floor, tdiv,
    tdiv_i128, SCALE, VMAX,
};
use crate::material::Material;
use crate::ray::Ray;
use crate::sphere::{HitPoint, Sphere};
use crate::vector::{color_ok, dot_spec, mul_spec, Color, Vector};
use vstd::arithmetic::div_mod::*;
use vstd::prelude::*;

verus! {

/// A scene entry: a sphere paired by value with its material.
#[derive(Clone, Copy, Debug, PartialEq, Eq, Structural)]
pub struct Object {
    pub sphere: Sphere,
    pub material: Material,
}

impl Object {
    pub open spec fn wf(self) -> bool {
        &&& self.sphere.wf()
        &&& self.material.wf()
    }
}

/// Every object of the scene is well formed.
pub open spec fn scene_wf(objects: Seq<Object>) -> bool {
    forall|j: int| 0 <= j < objects.len() ==> (#[trigger] objects[j]).wf()
}

/// No light at all.
pub open spec fn black() -> Color {
    Vector { x: 0, y: 0, z: 0 }
}

/// Object `i` is struck at `h` and is the scene's nearest strike:
/// earlier objects intersect strictly farther, later ones no nearer
/// (so equal distances keep the earliest object).
pub open spec fn nearest_of(objects: Seq<Object>, ray: Ray, i: int, h: HitPoint) -> bool {
    &&& 0 <= i < objects.len()
    &&& objects[i].sphere.hit_spec(ray) == Some(h)
    &&& forall|j: int|
        0 <= j < i ==> ((#[trigger] objects[j]).sphere.hit_spec(ray) matches Some(g) ==> g.t > h.t)
    &&& forall|j: int|
        i < j < objects.len() ==> ((#[trigger] objects[j]).sphere.hit_spec(ray) matches Some(g)
            ==> g.t >= h.t)
}

/// The nearest valid intersection over the whole scene, with the
/// index of the object that was struck.  Ties keep the earliest
/// object.
pub fn nearest_hit(objects: &Vec<Object>, ray: &Ray) -> (res: Option<(HitPoint, usize)>)
    requires
        scene_wf(objects@),
        ray.wf(),
    ensures
        res matches Some(p) ==> {
            &&& nearest_of(objects@, *ray, p.1 as int, p.0)
            &&& p.0.point.wf()
            &&& p.0.normal.wf()
            &&& dot_spec(ray.direction, p.0.normal) <= 0
            &&& 1 <= p.0.t
        },
        res is None ==> forall|j: int|
            0 <= j < objects@.len() ==> (#[trigger] objects@[j]).sphere.hit_spec(*ray) is None,
{
    let mut best: Option<(HitPoint, usize)> = None;
    let mut i: usize = 0;
    while i < objects.len()
        invariant
            scene_wf(objects@),
            ray.wf(),
            i <= objects@.len(),
            best matches Some(p) ==> {
                &&& p.1 < i
                &&& objects@[p.1 as int].sphere.hit_spec(*ray) == Some(p.0)
                &&& forall|j: int|
                    0 <= j < p.1 ==> ((#[trigger] objects@[j]).sphere.hit_spec(*ray) matches Some(
                        h,
                    ) ==> h.t > p.0.t)
                &&& forall|j: int|
                    p.1 < j < i ==> ((#[trigger] objects@[j]).sphere.hit_spec(*ray) matches Some(h)
                        ==> h.t >= p.0.t)
                &&& p.0.point.wf()
                &&& p.0.normal.wf()
                &&& dot_spec(ray.direction, p.0.normal) <= 0
                &&& 1 <= p.0.t
            },
            best is None ==> forall|j: int|
                0 <= j < i ==> (#[trigger] objects@[j]).sphere.hit_spec(*ray) is None,
        decreases objects@.len() - i,
    {
        let obj = objects[i];
        if let Some(new_hit) = obj.sphere.hit(ray) {
            let replace = match &best {
                Some(cur) => new_hit.t < cur.0.t,
                None => true,
            };
            if replace {
                best = Some((new_hit, i));
            }
        }
        i = i + 1;
    }
    best
}

/// One Monte-Carlo radiance sample: walk the ray through up to
/// `depth` bounces.  At depth zero the answer is black, whatever the
/// scene holds.
pub fn ray_color(
    rng: &mut rand_pcg::Mcg128Xsl64,
    ray: &Ray,
    objects: &Vec<Object>,
    depth: u32,
) -> (c: Color)
    requires
        ray.wf(),
        scene_wf(objects@),
    ensures
        c.wf(),
        color_ok(c),
        depth == 0 ==> c == black(),
        depth >= 1 && (forall|j: int|
            0 <= j < objects@.len() ==> (#[trigger] objects@[j]).sphere.hit_spec(*ray) is None)
            ==> c == ray.background_spec(),
        depth >= 1 && !(forall|j: int|
            0 <= j < objects@.len() ==> (#[trigger] objects@[j]).sphere.hit_spec(*ray) is None)
            ==> (c == black() || exists|i: int, h: HitPoint, rec: Color|
            #![trigger nearest_of(objects@, *ray, i, h), color_ok(rec)]
            {
                &&& nearest_of(objects@, *ray, i, h)
                &&& rec.wf()
                &&& color_ok(rec)
                &&& c == mul_spec(objects@[i].material.albedo_spec(), rec)
            }),
    decreases depth,
{
    if depth == 0 {
        return Vector::new(0, 0, 0);
    }
    match nearest_hit(objects, ray) {
        None => ray.background(),
        Some(found) => {
            let hp = found.0;
            let idx = found.1;
            let mat = objects[idx].material;
            match mat.scatter(rng, ray, &hp) {
                None => Vector::new(0, 0, 0),
                Some(scattered) => {
                    let rec = ray_color(rng, &scattered.0, objects, depth - 1);
                    let att = scattered.1;
                    proof {
                        lemma_fmul_le_factor(att.x as int, rec.x as int);
                        lemma_fmul_le_factor(att.y as int, rec.y as int);
                        lemma_fmul_le_factor(att.z as int, rec.z as int);
                        assert(nearest_of(objects@, *ray, idx as int, hp));
                        assert(color_ok(rec));
                    }
                    att.mul(rec)
                },
            }
        },
    }
}

/// What one finished channel reports: the sample sum averaged,
/// gamma-corrected with a square root, and mapped to a byte.
pub open spec fn finish_channel_spec(sum: int, spp: int) -> int
    recommends
        spp >= 1,
        sum >= 0,
{
    cast_pixel_spec(sqrt_floor(tdiv(sum, spp) * SCALE))
}

/// A pixel is the finished form of an accumulated sample sum: every
/// channel of the sum non-negative and at most `spp` colour units,
/// and each byte the averaged, gamma-corrected cast of its channel.
pub open spec fn pixel_of_sum(px: (u8, u8, u8), sum: Vector, spp: int) -> bool {
    &&& 0 <= sum.x <= spp * SCALE
    &&& 0 <= sum.y <= spp * SCALE
    &&& 0 <= sum.z <= spp * SCALE
    &&& px.0 == finish_channel_spec(sum.x as int, spp)
    &&& px.1 == finish_channel_spec(sum.y as int, spp)
    &&& px.2 == finish_channel_spec(sum.z as int, spp)
}

/// Every pixel of the image is the finished form of its entry in a
/// sequence of accumulated sample sums.
pub open spec fn image_sums_ok(pixels: Seq<(u8, u8, u8)>, sums: Seq<Vector>, spp: int) -> bool {
    &&& sums.len() == pixels.len()
    &&& forall|k: int|
        0 <= k < pixels.len() ==> pixel_of_sum(#[trigger] pixels[k], sums[k], spp)
}

/// Average `spp` accumulated samples, gamma-correct, and emit bytes.
pub fn finish_pixel(sum: Color, samples_per_pixel: u32) -> (rgb: (u8, u8, u8))
    requires
        samples_per_pixel >= 1,
        sum.wf(),
        0 <= sum.x && 0 <= sum.y && 0 <= sum.z,
    ensures
        rgb.0 == finish_channel_spec(sum.x as int, samples_per_pixel as int),
        rgb.1 == finish_channel_spec(sum.y as int, samples_per_pixel as int),
        rgb.2 == finish_channel_spec(sum.z as int, samples_per_pixel as int),
{
    let spp = samples_per_pixel as i128;
    let ax = tdiv_i128(sum.x as i128, spp);
    let ay = tdiv_i128(sum.y as i128, spp);
    let az = tdiv_i128(sum.z as i128, spp);
    proof {
        lemma_tdiv_le(0, sum.x as int, spp as int);
        lemma_tdiv_le(0, sum.y as int, spp as int);
        lemma_tdiv_le(0, sum.z as int, spp as int);
    }
    let gx = fx_sqrt(ax as i64);
    let gy = fx_sqrt(ay as i64);
    let gz = fx_sqrt(az as i64);
    (cast_pixel(gx), cast_pixel(gy), cast_pixel(gz))
}

/// Render the whole image: rows from the top of the image down, each
/// row left to right, one byte triple per pixel.
pub fn render(
    rng: &mut rand_pcg::Mcg128Xsl64,
    camera: &Camera,
    objects: &Vec<Object>,
    width: u32,
    height: u32,
    samples_per_pixel: u32,
    max_depth: u32,
) -> (pixels: Vec<(u8, u8, u8)>)
    requires
        camera.wf(),
        scene_wf(objects@),
        2 <= width <= 32768,
        2 <= height <= 32768,
        1 <= samples_per_pixel <= 32768,
    ensures
        pixels@.len() == width * height,
        exists|sums: Seq<Vector>|
            #[trigger] image_sums_ok(pixels@, sums, samples_per_pixel as int),
{
    let mut pixels: Vec<(u8, u8, u8)> = Vec::new();
    let ghost mut sums: Seq<Vector> = Seq::empty();
    let mut y: u32 = height;
    while y > 0
        invariant
            camera.wf(),
            scene_wf(objects@),
            2 <= width <= 32768,
            2 <= height <= 32768,
            1 <= samples_per_pixel <= 32768,
            y <= height,
            pixels@.len() == (height - y) * width,
            image_sums_ok(pixels@, sums, samples_per_pixel as int),
        decreases y,
    {
        y = y - 1;
        let mut x: u32 = 0;
        while x < width
            invariant
                camera.wf(),
                scene_wf(objects@),
                2 <= width <= 32768,
                2 <= height <= 32768,
                1 <= samples_per_pixel <= 32768,
                y < height,
                x <= width,
                pixels@.len() == (height - 1 - y) * width + x,
                image_sums_ok(pixels@, sums, samples_per_pixel as int),
            decreases width - x,
        {
            let mut acc = Vector::new(0, 0, 0);
            let mut s: u32 = 0;
            while s < samples_per_pixel
                invariant
                    camera.wf(),
                    scene_wf(objects@),
                    2 <= width <= 32768,
                    2 <= height <= 32768,
                    1 <= samples_per_pixel <= 32768,
                    y < height,
                    x < width,
                    s <= samples_per_pixel,
                    acc.wf(),
                    0 <= acc.x <= s * SCALE,
                    0 <= acc.y <= s * SCALE,
                    0 <= acc.z <= s * SCALE,
                decreases samples_per_pixel - s,
            {
                let u = image_coord(rng, x, width);
                let v = image_coord(rng, y, height);
                let ray = camera.get_ray(rng, u, v);
                let c = ray_color(rng, &ray, objects, max_depth);
                proof {
                    assert((s + 1) * SCALE == s * SCALE + SCALE) by (nonlinear_arith);
                    assert(s * SCALE + SCALE <= 32768 * 65536) by (nonlinear_arith)
                        requires
                            s < 32768,
                    ;
                }
                acc = acc.add(c);
                s = s + 1;
            }
            let ghost prev = pixels@;
            let px = finish_pixel(acc, samples_per_pixel);
            pixels.push(px);
            proof {
                let ghost prev_sums = sums;
                sums = sums.push(acc);
                assert(pixel_of_sum(px, acc, samples_per_pixel as int));
                assert forall|k: int|
                    0 <= k < pixels@.len() implies pixel_of_sum(
                    #[trigger] pixels@[k],
                    sums[k],
                    samples_per_pixel as int,
                ) by {
                    if k < prev.len() {
                        assert(pixels@[k] == prev[k] && sums[k] == prev_sums[k]);
                    } else {
                        assert(pixels@[k] == px && sums[k] == acc);
                    }
                }
            }
            x = x + 1;
            proof {
                assert((height - 1 - y) * width + x <= (height - y) * width) by (nonlinear_arith)
                    requires
                        x <= width,
                        y < height,
                ;
            }
        }
        proof {
            assert((height - 1 - y) * width + width == (height - y) * width) by (nonlinear_arith);
        }
    }
    proof {
        assert((height as int - 0) * (width as int) == (width as int) * (height as int)) by (
        nonlinear_arith);
        assert(image_sums_ok(pixels@, sums, samples_per_pixel as int));
    }
    pixels
}

/// One jittered normalized image coordinate: the pixel index plus a
/// uniform draw in `[0, 1)`, over the axis extent less one.  The
/// result lies in `[0, 2]` (reached only at the far edge).
fn image_coord(rng: &mut rand_pcg::Mcg128Xsl64, index: u32, extent: u32) -> (r: i64)
    requires
        index < extent,
        2 <= extent <= 32768,
    ensures
        0 <= r <= 2 * SCALE,
{
    let draw = crate::rng::rand_unit(rng);
    let num: i128 = (index as i128) * 65536 + (draw as i128);
    let den: i128 = (extent as i128) - 1;
    proof {
        assert((index as int) * 65536 <= 32767 * 65536) by (nonlinear_arith)
            requires
                index < 32768,
        ;
        assert(num as int <= 2 * (SCALE as int) * (den as int)) by (nonlinear_arith)
            requires
                num == (index as int) * 65536 + draw,
                0 <= draw < 65536,
                index < extent,
                den == extent - 1,
                2 <= extent,
        ;
        assert(num >= 0);
    }
    let q = tdiv_i128(num, den);
    proof {
        lemma_tdiv_le(num as int, 2 * (SCALE as int) * (den as int), den as int);
        lemma_div_multiples_vanish(2 * (SCALE as int), den as int);
        assert((den as int) * (2 * (SCALE as int)) == 2 * (SCALE as int) * (den as int)) by (
        nonlinear_arith);
    }
    q as i64
}


} // verus!
