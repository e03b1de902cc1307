//! Rays and the sky they see when they hit nothing.

use crate::fixed::{
    fdiv, fmul, fx_div, lemma_fmul_le_factor, lemma_fmul_le_other, lemma_sqrt_floor_props, tdiv,
    tdiv_i128, SCALE,
};
use crate::vector::{
    add_spec, norm_spec, norm_sq_spec, scale_spec, Color, Vector,
};
use vstd::arithmetic::div_mod::*;
use vstd::prelude::*;

verus! {

/// A half line: origin plus a non-zero direction.  The direction need
/// not be normalized, but its squared norm must be at least one raw
/// step, so that it can be normalized where consumers ask for it.
#[derive(Clone, Copy, Debug, PartialEq, Eq, Structural)]
pub struct Ray {
    pub origin: Vector,
    pub direction: Vector,
}

/// The colour of the horizon: plain white.
pub open spec fn white_color() -> Color {
    Vector { x: SCALE as i64, y: SCALE as i64, z: SCALE as i64 }
}

/// The colour of the zenith: half red, seven tenths green (rounded
/// down to raw steps), full blue.
pub open spec fn sky_blue() -> Color {
    Vector { x: 32768, y: 45875, z: SCALE as i64 }
}

impl Ray {
    pub open spec fn wf(self) -> bool {
        &&& self.origin.wf()
        &&& self.direction.wf()
        &&& norm_sq_spec(self.direction) >= 1
    }

    /// Where the ray stands after parameter `t` (raw fixed point).
    pub open spec fn at_spec(self, t: int) -> Vector {
        add_spec(self.origin, scale_spec(self.direction, t))
    }

    /// The blend parameter of the sky gradient: the direction's
    /// vertical component over its norm, moved from `[-1, 1]` to
    /// `[0, 1]` and clamped there.
    pub open spec fn background_t(self) -> int {
        let u = fdiv(self.direction.y as int, norm_spec(self.direction));
        let t0 = tdiv(u + SCALE, 2);
        if t0 < 0 {
            0
        } else if t0 > SCALE {
            SCALE as int
        } else {
            t0
        }
    }

    /// The sky: white at the horizon blended toward the zenith colour
    /// straight up.
    pub open spec fn background_spec(self) -> Color {
        add_spec(
            scale_spec(white_color(), SCALE - self.background_t()),
            scale_spec(sky_blue(), self.background_t()),
        )
    }

    pub fn new(origin: Vector, direction: Vector) -> (r: Ray)
        ensures
            r.origin == origin,
            r.direction == direction,
    {
        Ray { origin, direction }
    }

    pub fn at(&self, t: i64) -> (r: Vector)
        ensures
            r == self.at_spec(t as int),
            r.wf(),
    {
        self.origin.add(self.direction.scale(t))
    }

    /// The radiance a ray picks up from the sky when it misses every
    /// object.
    pub fn background(&self) -> (r: Color)
        requires
            self.wf(),
        ensures
            r == self.background_spec(),
            r.wf(),
            0 <= r.x <= SCALE,
            0 <= r.y <= SCALE,
            0 <= r.z <= SCALE,
    {
        let n = self.direction.norm();
        proof {
            lemma_sqrt_floor_props(norm_sq_spec(self.direction) * SCALE);
            assert(norm_spec(self.direction) >= 1) by (nonlinear_arith)
                requires
                    norm_sq_spec(self.direction) >= 1,
                    norm_spec(self.direction) >= 0,
                    (norm_spec(self.direction) + 1) * (norm_spec(self.direction) + 1)
                        > norm_sq_spec(self.direction) * (SCALE as int),
            ;
        }
        let u = fx_div(self.direction.y, n);
        let t0: i128 = tdiv_i128(u as i128 + 65536, 2);
        let t: i64 = if t0 < 0 {
            0
        } else if t0 > 65536 {
            65536
        } else {
            t0 as i64
        };
        let w = Vector::new(65536, 65536, 65536);
        let b = Vector::new(32768, 45875, 65536);
        let left = w.scale(65536 - t);
        let right = b.scale(t);
        proof {
            lemma_fmul_le_other((SCALE - t) as int, SCALE as int);
            lemma_fmul_le_other(t as int, 32768);
            lemma_fmul_le_other(t as int, 45875);
            lemma_fmul_le_other(t as int, SCALE as int);
            lemma_fmul_le_factor(32768, t as int);
            lemma_fmul_le_factor(45875, t as int);
            lemma_fmul_le_factor(SCALE as int, t as int);
            lemma_fmul_le_factor(SCALE as int, (SCALE - t) as int);
        }
        left.add(right)
    }
}

/// The sky gradient meets its endpoints exactly: a ray pointing
/// straight up sees the zenith colour, one pointing straight down
/// sees the horizon white.
pub proof fn lemma_background_endpoints(up: Ray, down: Ray)
    requires
        up.direction == (Vector { x: 0, y: 65536, z: 0 }),
        down.direction == (Vector { x: 0, y: -65536i64, z: 0 }),
    ensures
        up.background_spec() == sky_blue(),
        down.background_spec() == white_color(),
{
    lemma_div_multiples_vanish(65536, 65536);
    lemma_div_multiples_vanish(65536, 2);
    lemma_div_of0(65536);
    lemma_div_of0(2);
    assert(65536int * 65536int == 4294967296int) by (nonlinear_arith);
    assert((-65536int) * (-65536int) == 4294967296int) by (nonlinear_arith);
    assert(65537int * 65537int > 4294967296int) by (nonlinear_arith);
    assert(norm_sq_spec(up.direction) == 65536);
    assert(norm_sq_spec(down.direction) == 65536);
    crate::fixed::lemma_sqrt_floor_is(65536int * 65536int, 65536);
    assert(norm_spec(up.direction) == 65536);
    assert(norm_spec(down.direction) == 65536);
    assert(fdiv(65536, 65536) == 65536);
    assert(fdiv(-65536, 65536) == -65536);
    assert(up.background_t() == 65536);
    assert(down.background_t() == 0);
    assert(fmul(32768, 65536) == 32768) by {
        lemma_div_multiples_vanish(32768, 65536);
        assert(32768int * 65536int == 65536int * 32768int) by (nonlinear_arith);
    };
    assert(fmul(45875, 65536) == 45875) by {
        lemma_div_multiples_vanish(45875, 65536);
        assert(45875int * 65536int == 65536int * 45875int) by (nonlinear_arith);
    };
    assert(fmul(65536, 65536) == 65536);
    assert(fmul(32768, 0) == 0 && fmul(45875, 0) == 0 && fmul(65536, 0) == 0);
    assert(up.background_spec() == sky_blue());
    assert(down.background_spec() == white_color());
}

} // verus!
