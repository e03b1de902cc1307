//! A small recursive path tracer over spheres, computed in signed
//! fixed-point arithmetic: every coordinate, colour channel and ray
//! parameter is an `i64` holding the value times [`fixed::SCALE`]
//! (65536, i.e. sixteen fractional bits).  All geometry, material
//! scattering and the radiance recursion are verified; randomness is
//! drawn from a seeded permuted-congruential generator behind trusted
//! wrappers, so a render with a fixed seed is reproducible bit for bit.

pub mod camera;
pub mod fixed;
pub mod material;
pub mod ray;
pub mod render;
pub mod rng;
pub mod sample;
pub mod sphere;
pub mod vector;

pub use camera::Camera;
pub use material::Material;
pub use render::{finish_pixel, nearest_hit, ray_color, render, Object};
pub use sphere::{HitPoint, Sphere};

pub use ray::Ray;
pub use rng::{rand_unit, rng_from_seed};

pub use vector::Color;
pub use vector::Vector;

pub use fixed::cast_pixel;
pub use fixed::SCALE;
pub use fixed::VMAX;
