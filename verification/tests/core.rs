//! Fixed-point algebra, rays and sphere intersection, on exact
//! values.  One colour unit is 65536 raw steps.

use ray_tracing::cast_pixel;
use ray_tracing::ray::Ray;
use ray_tracing::sphere::Sphere;
use ray_tracing::vector::Vector;

const S: i64 = 65536;

#[test]
fn vector_componentwise_ops() {
    let a = Vector::new(S, 2 * S, 3 * S);
    let b = Vector::new(4 * S, 5 * S, 6 * S);
    assert_eq!(a.add(b), Vector::new(5 * S, 7 * S, 9 * S));
    assert_eq!(b.sub(a), Vector::new(3 * S, 3 * S, 3 * S));
    assert_eq!(a.neg(), Vector::new(-S, -2 * S, -3 * S));
    assert_eq!(a.scale(2 * S), Vector::new(2 * S, 4 * S, 6 * S));
    assert_eq!(a.mul(b), Vector::new(4 * S, 10 * S, 18 * S));
}

#[test]
fn vector_dot_and_cross() {
    let a = Vector::new(S, 2 * S, 3 * S);
    let b = Vector::new(4 * S, 5 * S, 6 * S);
    assert_eq!(a.dot(&b), 32 * S);
    assert_eq!(a.cross(&b), Vector::new(-3 * S, 6 * S, -3 * S));
}

#[test]
fn vector_norm_exact() {
    let v = Vector::new(3 * S, 4 * S, 0);
    assert_eq!(v.norm_squared(), 25 * S);
    assert_eq!(v.norm(), 5 * S);
}

#[test]
fn vector_normalized_truncates_toward_zero() {
    let v = Vector::new(3 * S, 4 * S, 0);
    // 0.6 and 0.8 in raw steps round down: 39321.6 and 52428.8.
    assert_eq!(v.normalized(), Vector::new(39321, 52428, 0));
}

#[test]
fn getters_return_components() {
    let v = Vector::new(7, -8, 9);
    assert_eq!(v.x(), 7);
    assert_eq!(v.y(), -8);
    assert_eq!(v.z(), 9);
}

#[test]
fn ray_at_walks_the_direction() {
    let r = Ray::new(Vector::new(S, 0, 0), Vector::new(0, S, 0));
    assert_eq!(r.at(2 * S), Vector::new(S, 2 * S, 0));
}

#[test]
fn background_endpoints() {
    let up = Ray::new(Vector::new(0, 0, 0), Vector::new(0, S, 0));
    assert_eq!(up.background(), Vector::new(32768, 45875, S));
    let down = Ray::new(Vector::new(0, 0, 0), Vector::new(0, -S, 0));
    assert_eq!(down.background(), Vector::new(S, S, S));
}

#[test]
fn sphere_hit_head_on_distance() {
    // Sphere three units ahead, radius one: the hit is at t = 2.
    let sphere = Sphere::new(Vector::new(0, 0, -3 * S), S);
    let ray = Ray::new(Vector::new(0, 0, 0), Vector::new(0, 0, -S));
    let h = sphere.hit(&ray).expect("head-on ray must hit");
    assert_eq!(h.t, 2 * S);
    assert!(h.front_face);
    assert_eq!(h.normal, Vector::new(0, 0, S));
    assert_eq!(h.point, Vector::new(0, 0, -2 * S));
}

#[test]
fn sphere_miss_outside_bounds() {
    // Closest approach two units from the center, radius one: a miss.
    let sphere = Sphere::new(Vector::new(0, 0, -3 * S), S);
    let ray = Ray::new(Vector::new(0, 2 * S, 0), Vector::new(0, 0, -S));
    assert!(sphere.hit(&ray).is_none());
}

#[test]
fn sphere_hit_normal_opposes_ray() {
    let sphere = Sphere::new(Vector::new(0, 0, -3 * S), S);
    // A few directions that still strike the sphere.
    let dirs = [
        Vector::new(0, 0, -S),
        Vector::new(6553, 0, -S),
        Vector::new(-6553, 6553, -S),
    ];
    for d in dirs {
        let ray = Ray::new(Vector::new(0, 0, 0), d);
        let h = sphere.hit(&ray).expect("ray aimed at the sphere must hit");
        assert!(d.dot(&h.normal) <= 0);
    }
}

#[test]
fn sphere_hit_from_inside_reports_back_face() {
    let sphere = Sphere::new(Vector::new(0, 0, 0), S);
    let ray = Ray::new(Vector::new(0, 0, 0), Vector::new(0, S, 0));
    let h = sphere.hit(&ray).expect("a ray from the center must hit the shell");
    assert_eq!(h.t, S);
    assert!(!h.front_face);
    // The reported normal points back toward the center.
    assert!(ray.direction.dot(&h.normal) <= 0);
    assert_eq!(h.normal, Vector::new(0, -S, 0));
}

#[test]
fn far_hit_is_still_reported() {
    // A unit sphere at the far edge of the world, reached by a short
    // direction vector: the ray parameter is huge in raw steps, but
    // the intersection is real and must be reported.
    let sphere = Sphere::new(Vector::new(0, 0, -0x8000_0000), S);
    let ray = Ray::new(Vector::new(0, 0, 0), Vector::new(0, 0, -256));
    let h = sphere.hit(&ray).expect("the sphere sits straight ahead");
    assert_eq!(h.t, 549_739_036_672);
    assert!(h.front_face);
    assert_eq!(h.normal, Vector::new(0, 0, S));
}

#[test]
fn hollow_sphere_negative_radius_flips_the_face() {
    // A negative radius models a shell whose outward normal points
    // inward; a ray arriving from outside then counts as a back face,
    // while the reported normal still opposes the ray.
    let shell = Sphere::new(Vector::new(0, 0, -3 * S), -S);
    let ray = Ray::new(Vector::new(0, 0, 0), Vector::new(0, 0, -S));
    let h = shell.hit(&ray).expect("the shell still blocks the ray");
    assert_eq!(h.t, 2 * S);
    assert!(!h.front_face);
    assert_eq!(h.normal, Vector::new(0, 0, S));
}

#[test]
fn cast_pixel_clamps_and_scales() {
    assert_eq!(cast_pixel(-5), 0);
    assert_eq!(cast_pixel(0), 0);
    assert_eq!(cast_pixel(32768), 127);
    assert_eq!(cast_pixel(S), 255);
    assert_eq!(cast_pixel(S + 1), 255);
    assert_eq!(cast_pixel(70000), 255);
}
