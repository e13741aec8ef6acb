//! The sole physical entity of the simulation: a circular point mass.
//!
//! All quantities are fixed-point values (see `fixed`).  The mass is derived
//! once at creation from size and density and never changes afterwards; size
//! and density are clamped to at least 1.0 so that the mass is always
//! positive.

use crate::fixed::{fp_mul, in_range, lemma_mul_fp_at_least, mul_fp, FP_MAX, SCALE};
use vstd::prelude::*;

verus! {

/// A circular body: position, velocity, an acceleration accumulator, the
/// scaled acceleration of the previous step, and its fixed mass, size and
/// density.
#[derive(Clone, Copy, Debug, PartialEq, Eq, Structural)]
pub struct Body {
    pub past_a_x: i64,
    pub past_a_y: i64,
    pub past_x: i64,
    pub past_y: i64,
    pub x: i64,
    pub y: i64,
    pub a_x: i64,
    pub a_y: i64,
    pub v_x: i64,
    pub v_y: i64,
    pub mass: i64,
    pub size: i64,
    pub density: i64,
}

/// Every field is representable, and the radius, density and mass are all
/// at least 1.0.
pub open spec fn body_wf(b: Body) -> bool {
    &&& in_range(b.past_a_x as int)
    &&& in_range(b.past_a_y as int)
    &&& in_range(b.past_x as int)
    &&& in_range(b.past_y as int)
    &&& in_range(b.x as int)
    &&& in_range(b.y as int)
    &&& in_range(b.a_x as int)
    &&& in_range(b.a_y as int)
    &&& in_range(b.v_x as int)
    &&& in_range(b.v_y as int)
    &&& in_range(b.mass as int)
    &&& SCALE as int <= b.size as int
    &&& in_range(b.size as int)
    &&& SCALE as int <= b.density as int
    &&& in_range(b.density as int)
    &&& SCALE as int <= b.mass as int
}

/// A value, raised to at least 1.0.
pub open spec fn clamp_unit(v: int) -> int {
    if v < SCALE as int {
        SCALE as int
    } else {
        v
    }
}

/// The fixed-point representation of 4/3 times pi, the sphere volume factor.
pub const FOUR_THIRDS_PI: i64 = 4_188_790;

/// The mass derived from a clamped size and density:
/// `(4/3) * pi * size^3 * density`, evaluated left to right as the cube
/// `size * (size * size)` times the volume factor, times the density.
pub open spec fn mass_of(size: int, density: int) -> int {
    mul_fp(mul_fp(FOUR_THIRDS_PI as int, mul_fp(size, mul_fp(size, size))), density)
}

/// The body a spawn with these arguments creates: position and velocity as
/// given, all accumulators zero, size and density clamped to at least 1.0,
/// and the mass derived from them.
pub open spec fn spec_new_body(x: i64, y: i64, v_x: i64, v_y: i64, density: i64, size: i64) -> Body {
    Body {
        past_a_x: 0,
        past_a_y: 0,
        past_x: 0,
        past_y: 0,
        x: x,
        y: y,
        a_x: 0,
        a_y: 0,
        v_x: v_x,
        v_y: v_y,
        mass: mass_of(clamp_unit(size as int), clamp_unit(density as int)) as i64,
        size: clamp_unit(size as int) as i64,
        density: clamp_unit(density as int) as i64,
    }
}

/// The derived mass of a well-formed size and density is itself at least 1.0.
pub proof fn lemma_mass_positive(size: int, density: int)
    requires
        SCALE as int <= size <= FP_MAX as int,
        SCALE as int <= density <= FP_MAX as int,
    ensures
        SCALE as int <= mass_of(size, density) <= FP_MAX as int,
{
    lemma_mul_fp_at_least(size, size);
    lemma_mul_fp_at_least(size, mul_fp(size, size));
    lemma_mul_fp_at_least(FOUR_THIRDS_PI as int, mul_fp(size, mul_fp(size, size)));
    lemma_mul_fp_at_least(mul_fp(FOUR_THIRDS_PI as int, mul_fp(size, mul_fp(size, size))), density);
}

impl Body {
    /// Creates a body at `(x, y)` with velocity `(v_x, v_y)`.  Size and
    /// density are clamped to at least 1.0 before the mass is derived, so
    /// the result is always well formed.
    pub fn new(x: i64, y: i64, v_x: i64, v_y: i64, density: i64, size: i64) -> (r: Body)
        requires
            in_range(x as int),
            in_range(y as int),
            in_range(v_x as int),
            in_range(v_y as int),
            in_range(density as int),
            in_range(size as int),
        ensures
            r == spec_new_body(x, y, v_x, v_y, density, size),
            body_wf(r),
    {
        let s: i64 = if size < SCALE {
            SCALE
        } else {
            size
        };
        let d: i64 = if density < SCALE {
            SCALE
        } else {
            density
        };
        let cube: i64 = fp_mul(s, fp_mul(s, s));
        let mass: i64 = fp_mul(fp_mul(FOUR_THIRDS_PI, cube), d);
        proof {
            lemma_mass_positive(s as int, d as int);
        }
        Body {
            past_a_x: 0,
            past_a_y: 0,
            past_x: 0,
            past_y: 0,
            x: x,
            y: y,
            a_x: 0,
            a_y: 0,
            v_x: v_x,
            v_y: v_y,
            mass: mass,
            size: s,
            density: d,
        }
    }
}

/// The same body with a replaced acceleration accumulator.
pub open spec fn with_accel(b: Body, a_x: int, a_y: int) -> Body {
    Body { a_x: a_x as i64, a_y: a_y as i64, ..b }
}

/// The same body with replaced velocity and position, as a collision leaves
/// them.
pub open spec fn with_bounce(b: Body, x: int, y: int, v_x: int, v_y: int) -> Body {
    Body { x: x as i64, y: y as i64, v_x: v_x as i64, v_y: v_y as i64, ..b }
}

/// The state mirrored through the origin: every kinematic quantity is
/// negated while mass, size and density stay.
pub open spec fn mirror_body(b: Body) -> Body {
    Body {
        past_a_x: (-(b.past_a_x as int)) as i64,
        past_a_y: (-(b.past_a_y as int)) as i64,
        past_x: (-(b.past_x as int)) as i64,
        past_y: (-(b.past_y as int)) as i64,
        x: (-(b.x as int)) as i64,
        y: (-(b.y as int)) as i64,
        a_x: (-(b.a_x as int)) as i64,
        a_y: (-(b.a_y as int)) as i64,
        v_x: (-(b.v_x as int)) as i64,
        v_y: (-(b.v_y as int)) as i64,
        mass: b.mass,
        size: b.size,
        density: b.density,
    }
}

} // verus!
