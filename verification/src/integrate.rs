//! The motion integrator.
//!
//! One step advances every body by the elapsed time scaled with `TIME_MULT`:
//! the position by `v * mult + 0.5 * a * mult^2`, the velocity by the average
//! of the current and the previous acceleration, both scaled by `mult`.  The
//! previous acceleration is stored pre-scaled by `mult`, exactly as the
//! velocity update consumes it on the next step, while the current
//! acceleration enters that update unscaled; this asymmetry is kept
//! deliberately, since the step multiplier is in practice the same from tick
//! to tick.  The accumulator is zeroed afterwards for the gravity pass.

use crate::body::{body_wf, Body};
use crate::fixed::{
    add_fp, fp_add, fp_mul, in_range, lemma_add_fp_odd, lemma_add_fp_zero, lemma_mul_fp_odd_left,
    lemma_mul_fp_odd_right, lemma_mul_fp_zero, mul_fp, HALF,
};
use crate::body::mirror_body;
use vstd::prelude::*;

verus! {

/// The scale factor turning elapsed seconds into the step multiplier.
pub const TIME_MULT: i64 = 400_000_000;

/// One integration step of a single body under the step multiplier `mult`.
pub open spec fn integrate_body(b: Body, mult: i64) -> Body {
    let m = mult as int;
    let half_term_x = mul_fp(mul_fp(HALF as int, b.a_x as int), mul_fp(m, m));
    let half_term_y = mul_fp(mul_fp(HALF as int, b.a_y as int), mul_fp(m, m));
    let x = add_fp(b.x as int, add_fp(mul_fp(b.v_x as int, m), half_term_x));
    let y = add_fp(b.y as int, add_fp(mul_fp(b.v_y as int, m), half_term_y));
    let v_x = add_fp(b.v_x as int, mul_fp(mul_fp(add_fp(b.a_x as int, b.past_a_x as int), m), HALF as int));
    let v_y = add_fp(b.v_y as int, mul_fp(mul_fp(add_fp(b.a_y as int, b.past_a_y as int), m), HALF as int));
    Body {
        past_a_x: mul_fp(b.a_x as int, m) as i64,
        past_a_y: mul_fp(b.a_y as int, m) as i64,
        past_x: b.x,
        past_y: b.y,
        x: x as i64,
        y: y as i64,
        a_x: 0,
        a_y: 0,
        v_x: v_x as i64,
        v_y: v_y as i64,
        mass: b.mass,
        size: b.size,
        density: b.density,
    }
}

/// One integration step of every body.
pub open spec fn integrate_all(bs: Seq<Body>, mult: i64) -> Seq<Body> {
    bs.map(|k: int, b: Body| integrate_body(b, mult))
}

/// Integration keeps a body well formed.
pub proof fn lemma_integrate_wf(b: Body, mult: i64)
    requires
        body_wf(b),
        in_range(mult as int),
    ensures
        body_wf(integrate_body(b, mult)),
{
}

/// With a zero accumulator and a zero stored acceleration, one step leaves
/// the velocity untouched and moves the position by exactly `v * mult`.
pub proof fn lemma_integrate_coasting(b: Body, mult: i64)
    requires
        body_wf(b),
        in_range(mult as int),
        b.a_x == 0,
        b.a_y == 0,
        b.past_a_x == 0,
        b.past_a_y == 0,
    ensures
        integrate_body(b, mult).v_x == b.v_x,
        integrate_body(b, mult).v_y == b.v_y,
        integrate_body(b, mult).x as int == add_fp(b.x as int, mul_fp(b.v_x as int, mult as int)),
        integrate_body(b, mult).y as int == add_fp(b.y as int, mul_fp(b.v_y as int, mult as int)),
        integrate_body(b, mult).a_x == 0,
        integrate_body(b, mult).a_y == 0,
        integrate_body(b, mult).past_a_x == 0,
        integrate_body(b, mult).past_a_y == 0,
{
    let m = mult as int;
    lemma_mul_fp_zero(HALF as int);
    lemma_mul_fp_zero(mul_fp(m, m));
    lemma_mul_fp_zero(m);
    lemma_mul_fp_zero(HALF as int);
    lemma_add_fp_zero(mul_fp(b.v_x as int, m));
    lemma_add_fp_zero(mul_fp(b.v_y as int, m));
    lemma_add_fp_zero(b.v_x as int);
    lemma_add_fp_zero(b.v_y as int);
}

/// A zero step multiplier changes neither position nor velocity.
pub proof fn lemma_integrate_zero_mult(b: Body)
    requires
        body_wf(b),
    ensures
        integrate_body(b, 0).x == b.x,
        integrate_body(b, 0).y == b.y,
        integrate_body(b, 0).v_x == b.v_x,
        integrate_body(b, 0).v_y == b.v_y,
{
    lemma_mul_fp_zero(b.v_x as int);
    lemma_mul_fp_zero(b.v_y as int);
    lemma_mul_fp_zero(0);
    lemma_mul_fp_zero(mul_fp(HALF as int, b.a_x as int));
    lemma_mul_fp_zero(mul_fp(HALF as int, b.a_y as int));
    lemma_mul_fp_zero(mul_fp(add_fp(b.a_x as int, b.past_a_x as int), 0));
    lemma_mul_fp_zero(mul_fp(add_fp(b.a_y as int, b.past_a_y as int), 0));
    lemma_mul_fp_zero(add_fp(b.a_x as int, b.past_a_x as int));
    lemma_mul_fp_zero(add_fp(b.a_y as int, b.past_a_y as int));
    lemma_add_fp_zero(b.x as int);
    lemma_add_fp_zero(b.y as int);
    lemma_add_fp_zero(b.v_x as int);
    lemma_add_fp_zero(b.v_y as int);
    lemma_add_fp_zero(0);
}

/// Integration commutes with mirroring the state through the origin.
pub proof fn lemma_integrate_mirror(b: Body, mult: i64)
    requires
        body_wf(b),
        in_range(mult as int),
    ensures
        integrate_body(mirror_body(b), mult) == mirror_body(integrate_body(b, mult)),
{
    let m = mult as int;
    lemma_mul_fp_odd_left(b.v_x as int, m);
    lemma_mul_fp_odd_left(b.v_y as int, m);
    lemma_mul_fp_odd_left(b.a_x as int, m);
    lemma_mul_fp_odd_left(b.a_y as int, m);
    lemma_add_fp_odd(b.a_x as int, b.past_a_x as int);
    lemma_add_fp_odd(b.a_y as int, b.past_a_y as int);
    lemma_mul_fp_odd_right(HALF as int, b.a_x as int);
    lemma_mul_fp_odd_right(HALF as int, b.a_y as int);
    lemma_mul_fp_odd_left(mul_fp(HALF as int, b.a_x as int), mul_fp(m, m));
    lemma_mul_fp_odd_left(mul_fp(HALF as int, b.a_y as int), mul_fp(m, m));
    lemma_mul_fp_odd_left(add_fp(b.a_x as int, b.past_a_x as int), m);
    lemma_mul_fp_odd_left(add_fp(b.a_y as int, b.past_a_y as int), m);
    lemma_mul_fp_odd_left(mul_fp(add_fp(b.a_x as int, b.past_a_x as int), m), HALF as int);
    lemma_mul_fp_odd_left(mul_fp(add_fp(b.a_y as int, b.past_a_y as int), m), HALF as int);
    lemma_add_fp_odd(mul_fp(b.v_x as int, m), mul_fp(mul_fp(HALF as int, b.a_x as int), mul_fp(m, m)));
    lemma_add_fp_odd(mul_fp(b.v_y as int, m), mul_fp(mul_fp(HALF as int, b.a_y as int), mul_fp(m, m)));
    lemma_add_fp_odd(b.x as int, add_fp(mul_fp(b.v_x as int, m), mul_fp(mul_fp(HALF as int, b.a_x as int), mul_fp(m, m))));
    lemma_add_fp_odd(b.y as int, add_fp(mul_fp(b.v_y as int, m), mul_fp(mul_fp(HALF as int, b.a_y as int), mul_fp(m, m))));
    lemma_add_fp_odd(b.v_x as int, mul_fp(mul_fp(add_fp(b.a_x as int, b.past_a_x as int), m), HALF as int));
    lemma_add_fp_odd(b.v_y as int, mul_fp(mul_fp(add_fp(b.a_y as int, b.past_a_y as int), m), HALF as int));
}

/// Advances every body by the elapsed time `dt` (in fixed-point seconds),
/// then zeroes each acceleration accumulator for the following gravity pass.
pub fn update_bodies(bodies: &mut Vec<Body>, dt: i64)
    requires
        0 <= dt,
        in_range(dt as int),
        forall|k: int| 0 <= k < old(bodies)@.len() ==> body_wf(#[trigger] old(bodies)@[k]),
    ensures
        final(bodies)@ == integrate_all(old(bodies)@, mul_fp(dt as int, TIME_MULT as int) as i64),
        forall|k: int| 0 <= k < final(bodies)@.len() ==> body_wf(#[trigger] final(bodies)@[k]),
{
    let ghost orig = bodies@;
    let mult: i64 = fp_mul(dt, TIME_MULT);
    let n: usize = bodies.len();
    let mut i: usize = 0;
    while i < n
        invariant
            n == bodies@.len(),
            n == orig.len(),
            0 <= i <= n,
            in_range(mult as int),
            forall|k: int| 0 <= k < n ==> body_wf(#[trigger] orig[k]),
            forall|k: int| 0 <= k < i ==> bodies@[k] == integrate_body(#[trigger] orig[k], mult),
            forall|k: int| i <= k < n ==> #[trigger] bodies@[k] == orig[k],
            forall|k: int| 0 <= k < n ==> body_wf(#[trigger] bodies@[k]),
        decreases n - i,
    {
        let b: Body = bodies[i];
        let mm: i64 = fp_mul(mult, mult);
        let half_ax: i64 = fp_mul(HALF, b.a_x);
        let half_ay: i64 = fp_mul(HALF, b.a_y);
        let x: i64 = fp_add(b.x, fp_add(fp_mul(b.v_x, mult), fp_mul(half_ax, mm)));
        let y: i64 = fp_add(b.y, fp_add(fp_mul(b.v_y, mult), fp_mul(half_ay, mm)));
        let v_x: i64 = fp_add(b.v_x, fp_mul(fp_mul(fp_add(b.a_x, b.past_a_x), mult), HALF));
        let v_y: i64 = fp_add(b.v_y, fp_mul(fp_mul(fp_add(b.a_y, b.past_a_y), mult), HALF));
        let nb = Body {
            past_a_x: fp_mul(b.a_x, mult),
            past_a_y: fp_mul(b.a_y, mult),
            past_x: b.x,
            past_y: b.y,
            x: x,
            y: y,
            a_x: 0,
            a_y: 0,
            v_x: v_x,
            v_y: v_y,
            mass: b.mass,
            size: b.size,
            density: b.density,
        };
        proof {
            assert(nb == integrate_body(orig[i as int], mult));
            lemma_integrate_wf(orig[i as int], mult);
        }
        bodies.set(i, nb);
        i = i + 1;
    }
    proof {
        assert(bodies@ =~= integrate_all(orig, mult));
    }
}

} // verus!
