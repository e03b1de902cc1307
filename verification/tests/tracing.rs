//! Materials, the camera, sampling and full renders, with seeded
//! generators so every expectation is reproducible.

use ray_tracing::material::Material;
use ray_tracing::ray::Ray;
use ray_tracing::render::{finish_pixel, nearest_hit, ray_color, render, Object};
use ray_tracing::rng_from_seed;
use ray_tracing::sphere::{HitPoint, Sphere};
use ray_tracing::vector::Vector;
use ray_tracing::Camera;

const S: i64 = 65536;

fn white() -> Vector {
    Vector::new(S, S, S)
}

#[test]
fn sampling_is_seeded_and_in_the_unit_ball() {
    let mut rng1 = rng_from_seed(42);
    let mut rng2 = rng_from_seed(42);
    for _ in 0..32 {
        let a = Vector::random_in_unit_sphere(&mut rng1);
        let b = Vector::random_in_unit_sphere(&mut rng2);
        assert_eq!(a, b);
        let nsq = a.norm_squared();
        assert!(1 <= nsq && nsq <= S);
    }
}

#[test]
fn lambertian_attenuates_by_its_albedo() {
    let albedo = Vector::new(32768, 16384, 655);
    let mat = Material::Lambertian { color: albedo };
    let sphere = Sphere::new(Vector::new(0, 0, -3 * S), S);
    let ray = Ray::new(Vector::new(0, 0, 0), Vector::new(0, 0, -S));
    let hit = sphere.hit(&ray).unwrap();
    let mut rng = rng_from_seed(7);
    let (scattered, att) = mat.scatter(&mut rng, &ray, &hit).expect("lambertian always scatters");
    assert_eq!(att, albedo);
    assert!(att.x() <= S && att.y() <= S && att.z() <= S);
    assert_eq!(scattered.origin, hit.point);
}

#[test]
fn metal_reflects_above_the_surface_or_absorbs() {
    let albedo = Vector::new(S, S, 32768);
    let mat = Material::Metal { color: albedo, fuzz: 0 };
    let sphere = Sphere::new(Vector::new(0, 0, -3 * S), S);
    let ray = Ray::new(Vector::new(0, 0, 0), Vector::new(0, 0, -S));
    let hit = sphere.hit(&ray).unwrap();
    let mut rng = rng_from_seed(7);
    let (scattered, att) = mat.scatter(&mut rng, &ray, &hit).expect("mirror reflection scatters");
    assert_eq!(att, albedo);
    // The head-on reflection turns the ray straight back.
    assert!(scattered.direction.dot(&hit.normal) > 0);
    assert_eq!(scattered.direction, Vector::new(0, 0, S));
}

#[test]
fn metal_absorbs_a_ray_leaving_under_the_surface() {
    let mat = Material::Metal { color: Vector::new(S, S, S), fuzz: 0 };
    // A hand-built grazing record whose reflection stays below the
    // surface: the normal agrees with the incoming direction.
    let hit = HitPoint {
        point: Vector::new(0, 0, 0),
        normal: Vector::new(0, S, 0),
        t: S,
        front_face: true,
    };
    let ray = Ray::new(Vector::new(0, -S, 0), Vector::new(0, S, 0));
    let mut rng = rng_from_seed(7);
    assert!(mat.scatter(&mut rng, &ray, &hit).is_none());
}

#[test]
fn dielectric_total_internal_reflection() {
    // Inside a glass sphere of index 1.5, off axis so that the
    // incidence sine (about 0.75) passes the critical value 2/3.
    let mat = Material::Dielectric { index_of_refraction: 98304 };
    let sphere = Sphere::new(Vector::new(0, 0, 0), S);
    let ray = Ray::new(Vector::new(49152, 0, 0), Vector::new(0, S, 0));
    let hit = sphere.hit(&ray).expect("the interior ray must strike the shell");
    assert!(!hit.front_face);
    let mut rng = rng_from_seed(7);
    let (scattered, att) = mat.scatter(&mut rng, &ray, &hit).expect("TIR must reflect");
    assert_eq!(att, white());
    // A reflected ray stays on the normal's side; a refracted one
    // would cross the surface.
    assert!(scattered.direction.dot(&hit.normal) > 0);
}

#[test]
fn dielectric_always_transmits_white() {
    let mat = Material::Dielectric { index_of_refraction: 98304 };
    let sphere = Sphere::new(Vector::new(0, 0, -3 * S), S);
    let ray = Ray::new(Vector::new(0, 0, 0), Vector::new(0, 0, -S));
    let hit = sphere.hit(&ray).unwrap();
    let mut rng = rng_from_seed(11);
    let (scattered, att) = mat.scatter(&mut rng, &ray, &hit).expect("dielectric scatters");
    assert_eq!(att, white());
    // At normal incidence the outgoing ray stays on the axis: either
    // reflected straight back or transmitted straight through.
    assert_eq!(scattered.direction.x(), 0);
    assert_eq!(scattered.direction.y(), 0);
    assert!(scattered.direction.z() == S || scattered.direction.z() == -S);
}

#[test]
fn camera_with_an_open_aperture_still_yields_usable_rays() {
    let cam = Camera::new(
        Vector::new(13 * S, 2 * S, 3 * S),
        Vector::new(0, 0, 0),
        Vector::new(0, S, 0),
        11556,
        98304,
        6553,
        10 * S,
    )
    .expect("the standard viewpoint is not degenerate");
    let mut rng = rng_from_seed(21);
    for k in 0i64..8 {
        let ray = cam.get_ray(&mut rng, k * 8192, 32768);
        assert!(ray.direction.norm_squared() >= 1);
    }
}

#[test]
fn dielectric_scatters_even_on_a_degenerate_normal() {
    // A zero surface normal is the worst a record can carry; the
    // dielectric still scatters (here the reflection about the zero
    // normal is the unchanged unit direction) with white attenuation.
    let mat = Material::Dielectric { index_of_refraction: 98304 };
    let hit = HitPoint {
        point: Vector::new(0, 0, 0),
        normal: Vector::new(0, 0, 0),
        t: S,
        front_face: true,
    };
    let ray = Ray::new(Vector::new(0, 0, S), Vector::new(0, 0, -S));
    let mut rng = rng_from_seed(17);
    let (scattered, att) = mat.scatter(&mut rng, &ray, &hit).expect("a dielectric never absorbs");
    assert_eq!(att, white());
    assert_eq!(scattered.direction, Vector::new(0, 0, -S));
}

#[test]
fn lambertian_scatters_even_on_a_degenerate_normal() {
    let mat = Material::Lambertian { color: Vector::new(32768, 32768, 32768) };
    let hit = HitPoint {
        point: Vector::new(0, 0, 0),
        normal: Vector::new(0, 0, 0),
        t: S,
        front_face: true,
    };
    let ray = Ray::new(Vector::new(0, 0, S), Vector::new(0, 0, -S));
    let mut rng = rng_from_seed(19);
    let (scattered, att) = mat.scatter(&mut rng, &ray, &hit).expect("lambertian never absorbs");
    assert_eq!(att, Vector::new(32768, 32768, 32768));
    assert!(scattered.direction.norm_squared() >= 1);
}

#[test]
fn nearest_hit_prefers_the_closer_sphere() {
    let far = Object {
        sphere: Sphere::new(Vector::new(0, 0, -6 * S), S),
        material: Material::Lambertian { color: white() },
    };
    let near = Object {
        sphere: Sphere::new(Vector::new(0, 0, -3 * S), S),
        material: Material::Lambertian { color: white() },
    };
    let objects = vec![far, near];
    let ray = Ray::new(Vector::new(0, 0, 0), Vector::new(0, 0, -S));
    let (hit, idx) = nearest_hit(&objects, &ray).expect("both spheres sit on the axis");
    assert_eq!(idx, 1);
    assert_eq!(hit.t, 2 * S);
}

#[test]
fn ray_color_depth_zero_is_black() {
    let scene = vec![
        Object {
            sphere: Sphere::new(Vector::new(0, 0, -3 * S), S),
            material: Material::Lambertian { color: white() },
        },
    ];
    let ray = Ray::new(Vector::new(0, 0, 0), Vector::new(0, 0, -S));
    let mut rng = rng_from_seed(3);
    let c = ray_color(&mut rng, &ray, &scene, 0);
    assert_eq!(c, Vector::new(0, 0, 0));
}

#[test]
fn ray_color_miss_returns_the_sky() {
    let scene: Vec<Object> = Vec::new();
    let mut rng = rng_from_seed(3);
    let up = Ray::new(Vector::new(0, 0, 0), Vector::new(0, S, 0));
    assert_eq!(ray_color(&mut rng, &up, &scene, 8), Vector::new(32768, 45875, S));
    let down = Ray::new(Vector::new(0, 0, 0), Vector::new(0, -S, 0));
    assert_eq!(ray_color(&mut rng, &down, &scene, 8), white());
}

#[test]
fn ray_color_channels_stay_in_the_unit_range() {
    let scene = vec![
        Object {
            sphere: Sphere::new(Vector::new(0, 0, -S), 32768),
            material: Material::Lambertian { color: Vector::new(45875, 39321, 32768) },
        },
        Object {
            sphere: Sphere::new(Vector::new(0, -6586368, -S), 6553600),
            material: Material::Metal { color: Vector::new(52428, 52428, 52428), fuzz: 6553 },
        },
    ];
    let mut rng = rng_from_seed(9);
    for k in 0i64..16 {
        let dir = Vector::new((k - 8) * 4096, 2048, -S);
        let ray = Ray::new(Vector::new(0, 0, 0), dir);
        let c = ray_color(&mut rng, &ray, &scene, 16);
        assert!(0 <= c.x() && c.x() <= S);
        assert!(0 <= c.y() && c.y() <= S);
        assert!(0 <= c.z() && c.z() <= S);
    }
}

#[test]
fn camera_center_ray_points_down_the_axis() {
    let cam = Camera::default();
    let mut rng = rng_from_seed(5);
    let ray = cam.get_ray(&mut rng, 32768, 32768);
    assert_eq!(ray.origin, Vector::new(0, 0, 0));
    assert_eq!(ray.direction, Vector::new(0, 0, -S));
}

#[test]
fn default_camera_is_the_stock_ninety_degree_viewport() {
    // Half height one (a ninety-degree field of view), sixteen to
    // nine: the viewport is 32/9 wide (rounded down to raw steps) by
    // two high, one unit in front of the origin, lens closed.
    let cam = Camera::default();
    assert_eq!(cam.origin, Vector::new(0, 0, 0));
    assert_eq!(cam.horizontal, Vector::new(233016, 0, 0));
    assert_eq!(cam.vertical, Vector::new(0, 131072, 0));
    assert_eq!(cam.lower_left_corner, Vector::new(-116508, -S, -S));
    assert_eq!(cam.u, Vector::new(S, 0, 0));
    assert_eq!(cam.v, Vector::new(0, S, 0));
    assert_eq!(cam.w, Vector::new(0, 0, S));
    assert_eq!(cam.lens_radius, 0);
}

#[test]
fn camera_rejects_a_degenerate_basis() {
    let eye = Vector::new(0, 0, 0);
    // Looking at oneself.
    assert!(Camera::new(eye, eye, Vector::new(0, S, 0), S, S, 0, S).is_none());
    // An up direction parallel to the view axis.
    let at = Vector::new(0, 0, -S);
    assert!(Camera::new(eye, at, Vector::new(0, 0, S), S, S, 0, S).is_none());
}

#[test]
fn finish_pixel_averages_and_gamma_corrects() {
    let sum = Vector::new(S, 16384, 0);
    assert_eq!(finish_pixel(sum, 1), (255, 127, 0));
    // Two samples summing to one unit: the average 0.5 maps through
    // sqrt to about 0.7071.
    let sum2 = Vector::new(2 * S, S, 0);
    let (r, g, b) = finish_pixel(sum2, 2);
    assert_eq!(r, 255);
    assert_eq!(g, 181);
    assert_eq!(b, 0);
}

#[test]
fn render_is_reproducible_with_a_fixed_seed() {
    let scene = vec![
        Object {
            sphere: Sphere::new(Vector::new(0, 0, -S), 32768),
            material: Material::Lambertian { color: Vector::new(32768, 32768, 32768) },
        },
        Object {
            sphere: Sphere::new(Vector::new(0, -6586368, -S), 6553600),
            material: Material::Lambertian { color: Vector::new(32768, 45875, 0) },
        },
    ];
    let cam = Camera::default();
    let mut rng1 = rng_from_seed(1);
    let img1 = render(&mut rng1, &cam, &scene, 16, 9, 1, 4);
    let mut rng2 = rng_from_seed(1);
    let img2 = render(&mut rng2, &cam, &scene, 16, 9, 1, 4);
    assert_eq!(img1.len(), 144);
    assert_eq!(img1, img2);
    // A different seed is allowed to differ; the shape may not.
    let mut rng3 = rng_from_seed(2);
    let img3 = render(&mut rng3, &cam, &scene, 16, 9, 1, 4);
    assert_eq!(img3.len(), 144);
}
