//! Rejection sampling of random directions.
//!
//! A draw gives three components in `[-1, 1)`; the draw is kept when
//! its squared norm lies in `(0, 1]`, so the result is uniform in the
//! unit ball (zero-length draws are rejected, since they cannot be
//! normalized).  The retry loop is bounded; after 128 rejections in a
//! row — a probability below 2^-128 — an axis vector of length one is
//! returned instead, which satisfies the same bounds.

use crate::fixed::SCALE;
use crate::rng::rand_unit;
use crate::vector::{norm_sq_spec, Vector};
use vstd::arithmetic::div_mod::lemma_div_multiples_vanish;
use vstd::prelude::*;

verus! {

/// What every ball sample satisfies: a vector whose channels lie
/// within one unit and whose squared norm lies in `(0, 1]` units.
pub open spec fn ball_draw(s: Vector) -> bool {
    &&& -SCALE <= s.x <= SCALE
    &&& -SCALE <= s.y <= SCALE
    &&& -SCALE <= s.z <= SCALE
    &&& 1 <= norm_sq_spec(s) <= SCALE
}

/// What every disk sample satisfies: a ball sample lying in the
/// x-y plane.
pub open spec fn disk_draw(s: Vector) -> bool {
    &&& ball_draw(s)
    &&& s.z == 0
}

impl Vector {
    /// A random vector of positive length inside the unit ball.
    pub fn random_in_unit_sphere(rng: &mut rand_pcg::Mcg128Xsl64) -> (r: Vector)
        ensures
            r.wf(),
            ball_draw(r),
    {
        let mut k: u32 = 0;
        while k < 128
            decreases 128 - k,
        {
            let x = 2 * rand_unit(rng) - 65536;
            let y = 2 * rand_unit(rng) - 65536;
            let z = 2 * rand_unit(rng) - 65536;
            let v = Vector::new(x, y, z);
            let nsq = v.norm_squared();
            if 1 <= nsq && nsq <= 65536 {
                return v;
            }
            k = k + 1;
        }
        let up = Vector::new(0, 65536, 0);
        proof {
            lemma_div_multiples_vanish(65536, 65536);
        }
        up
    }

    /// A random vector of positive length inside the unit disk of the
    /// x-y plane, used for lens sampling.
    pub fn random_in_unit_disk(rng: &mut rand_pcg::Mcg128Xsl64) -> (r: Vector)
        ensures
            r.wf(),
            disk_draw(r),
    {
        let mut k: u32 = 0;
        while k < 128
            decreases 128 - k,
        {
            let x = 2 * rand_unit(rng) - 65536;
            let y = 2 * rand_unit(rng) - 65536;
            let v = Vector::new(x, y, 0);
            let nsq = v.norm_squared();
            if 1 <= nsq && nsq <= 65536 {
                return v;
            }
            k = k + 1;
        }
        let axis = Vector::new(65536, 0, 0);
        proof {
            lemma_div_multiples_vanish(65536, 65536);
        }
        axis
    }
}

} // verus!
