//! Laws of the simulation: properties that hold of whole ticks and of the
//! body store, proved from the specifications of the passes.
//!
//! The pairwise form of Newton's third law lives beside the gravity solver
//! (`gravity::lemma_newton_third_law`).

use crate::body::{body_wf, mirror_body, Body};
use crate::collision::{
    coll_distance, coll_impulse, coll_min_distance, coll_normal_x, coll_normal_y,
    coll_overlapping, coll_pair, coll_push_x, coll_push_y, coll_row, coll_rows,
    lemma_coll_pair_mirrored, lemma_coll_pair_wf,
};
use crate::fixed::{
    add_fp, in_range, is_sqrt_floor, lemma_add_fp_zero, lemma_div_fp_self, lemma_mul_fp_double,
    lemma_mul_fp_half_even, lemma_mul_fp_identity, lemma_mul_fp_zero, lemma_sqrt_floor_agrees,
    mul_fp, sub_fp, FP_MAX, HALF, SCALE,
};
use crate::gravity::{
    grav_pair, grav_row, grav_rows, lemma_grav_pair_mirrored, lemma_grav_pair_wf,
    lemma_grav_rows_kinematics, lemma_grav_rows_len, norm2, same_but_accel,
};
use vstd::arithmetic::div_mod::{
    lemma_div_by_multiple, lemma_div_denominator, lemma_div_is_ordered_by_denominator,
    lemma_fundamental_div_mod, lemma_mod_bound,
};
use crate::integrate::{
    integrate_all, integrate_body, lemma_integrate_coasting, lemma_integrate_mirror,
    lemma_integrate_wf, lemma_integrate_zero_mult, TIME_MULT,
};
use crate::sim::tick_spec;
use vstd::prelude::*;

verus! {

/// An isolated body receives no gravitational acceleration: with a zero
/// accumulator and a zero stored acceleration, a tick leaves its velocity
/// exactly as it was, moves it by exactly `v * mult`, and leaves both
/// acceleration fields zero again — so over any number of ticks it coasts
/// in a straight line at constant velocity.
pub proof fn lemma_isolated_body_coasts(b: Body, dt: i64, collisions: bool)
    requires
        body_wf(b),
        0 <= dt,
        in_range(dt as int),
        b.a_x == 0,
        b.a_y == 0,
        b.past_a_x == 0,
        b.past_a_y == 0,
    ensures
        tick_spec(seq![b], dt, collisions).len() == 1,
        tick_spec(seq![b], dt, collisions)[0].v_x == b.v_x,
        tick_spec(seq![b], dt, collisions)[0].v_y == b.v_y,
        tick_spec(seq![b], dt, collisions)[0].x as int == add_fp(
            b.x as int,
            mul_fp(b.v_x as int, mul_fp(dt as int, TIME_MULT as int)),
        ),
        tick_spec(seq![b], dt, collisions)[0].y as int == add_fp(
            b.y as int,
            mul_fp(b.v_y as int, mul_fp(dt as int, TIME_MULT as int)),
        ),
        tick_spec(seq![b], dt, collisions)[0].a_x == 0,
        tick_spec(seq![b], dt, collisions)[0].a_y == 0,
        tick_spec(seq![b], dt, collisions)[0].past_a_x == 0,
        tick_spec(seq![b], dt, collisions)[0].past_a_y == 0,
{
    let mult: i64 = mul_fp(dt as int, TIME_MULT as int) as i64;
    assert(mult as int == mul_fp(dt as int, TIME_MULT as int));
    let one = seq![b];
    let moved = integrate_all(one, mult);
    assert(moved =~= seq![integrate_body(b, mult)]);
    lemma_integrate_coasting(b, mult);
    lemma_mul_fp_zero(mult as int);
    assert(grav_row(moved, 0, 1) == moved);
    assert(grav_rows(moved, 1) == moved);
    assert(grav_rows(moved, 0) == moved);
    assert(coll_rows(moved, 1) == moved);
    assert(coll_rows(moved, 0) == moved);
}

/// Two mirrored equal-mass bodies stay exact mirror images of each other
/// through a tick — with or without the collision resolver — and every
/// field of both stays representable: the symmetric pull never produces an
/// undefined or unbounded value, however small their separation becomes.
pub proof fn lemma_mirrored_pair_stays_mirrored(b: Body, dt: i64, collisions: bool)
    requires
        body_wf(b),
        0 <= dt,
        in_range(dt as int),
    ensures
        tick_spec(seq![b, mirror_body(b)], dt, collisions).len() == 2,
        tick_spec(seq![b, mirror_body(b)], dt, collisions)[1] == mirror_body(
            tick_spec(seq![b, mirror_body(b)], dt, collisions)[0],
        ),
        body_wf(tick_spec(seq![b, mirror_body(b)], dt, collisions)[0]),
        body_wf(tick_spec(seq![b, mirror_body(b)], dt, collisions)[1]),
{
    let m = mirror_body(b);
    assert(body_wf(m));
    let mult: i64 = mul_fp(dt as int, TIME_MULT as int) as i64;
    let two = seq![b, m];
    let moved = integrate_all(two, mult);
    assert(moved =~= seq![integrate_body(b, mult), integrate_body(m, mult)]);
    lemma_integrate_mirror(b, mult);
    lemma_integrate_wf(b, mult);
    lemma_integrate_wf(m, mult);
    let c = integrate_body(b, mult);
    assert(moved[0] == c && moved[1] == mirror_body(c));
    let p = grav_pair(c, mirror_body(c));
    lemma_grav_pair_mirrored(c);
    lemma_grav_pair_wf(c, mirror_body(c));
    let ap = moved.update(0, p.0).update(1, p.1);
    assert(grav_row(ap, 0, 2) == ap);
    assert(grav_row(moved, 0, 1) == ap);
    assert(grav_row(ap, 1, 2) == ap);
    assert(grav_rows(ap, 2) == ap);
    assert(grav_rows(ap, 1) == ap);
    assert(grav_rows(moved, 0) == ap);
    assert(ap[0] == p.0 && ap[1] == p.1);
    assert(ap[1] == mirror_body(ap[0]));
    if collisions {
        let q = coll_pair(ap[0], mirror_body(ap[0]));
        lemma_coll_pair_mirrored(ap[0]);
        lemma_coll_pair_wf(ap[0], mirror_body(ap[0]));
        let cp = ap.update(0, q.0).update(1, q.1);
        assert(coll_row(cp, 0, 2) == cp);
        assert(coll_row(ap, 0, 1) == cp);
        assert(coll_row(cp, 1, 2) == cp);
        assert(coll_rows(cp, 2) == cp);
        assert(coll_rows(cp, 1) == cp);
        assert(coll_rows(ap, 0) == cp);
        assert(tick_spec(two, dt, collisions) == cp);
        assert(cp[0] == q.0 && cp[1] == q.1);
    } else {
        assert(tick_spec(two, dt, collisions) == ap);
    }
}

/// A tick with zero elapsed time changes no position and no velocity: the
/// integrator contributes nothing, and the gravity pass writes only the
/// acceleration accumulators.
pub proof fn lemma_zero_dt_freezes_motion(bs: Seq<Body>, collisions: bool)
    requires
        forall|k: int| 0 <= k < bs.len() ==> body_wf(#[trigger] bs[k]),
        !collisions,
    ensures
        tick_spec(bs, 0, collisions).len() == bs.len(),
        forall|k: int|
            0 <= k < bs.len() ==> {
                &&& (#[trigger] tick_spec(bs, 0, collisions)[k]).x == bs[k].x
                &&& tick_spec(bs, 0, collisions)[k].y == bs[k].y
                &&& tick_spec(bs, 0, collisions)[k].v_x == bs[k].v_x
                &&& tick_spec(bs, 0, collisions)[k].v_y == bs[k].v_y
            },
{
    lemma_mul_fp_zero(TIME_MULT as int);
    let moved = integrate_all(bs, 0);
    assert(moved.len() == bs.len());
    lemma_grav_rows_len(moved, 0);
    lemma_grav_rows_kinematics(moved, 0);
    assert forall|k: int| 0 <= k < bs.len() implies {
        &&& (#[trigger] tick_spec(bs, 0, collisions)[k]).x == bs[k].x
        &&& tick_spec(bs, 0, collisions)[k].y == bs[k].y
        &&& tick_spec(bs, 0, collisions)[k].v_x == bs[k].v_x
        &&& tick_spec(bs, 0, collisions)[k].v_y == bs[k].v_y
    } by {
        assert(moved[k] == integrate_body(bs[k], 0));
        lemma_integrate_zero_mult(bs[k]);
        assert(same_but_accel(grav_rows(moved, 0)[k], moved[k]));
    }
}

/// A head-on collision of two equal masses along the x axis exchanges the
/// normal-component velocities — each body leaves with the other's approach
/// velocity, exact to within one impulse rounding step of `mass / SCALE`
/// representation units — while the velocity sum is conserved exactly and
/// the tangential components are untouched.  The de-penetration push then
/// separates the centers to exactly the sum of the two radii, so no
/// residual overlap remains.  The bounds keep every intermediate clear of
/// saturation, and the overlap is taken even so that its halving is exact.
pub proof fn lemma_head_on_equal_mass_collision(b1: Body, b2: Body)
    requires
        body_wf(b1),
        body_wf(b2),
        b1.mass == b2.mass,
        b1.mass as int <= (FP_MAX as int) / 2,
        b1.y == b2.y,
        b1.x < b2.x,
        b2.v_x < b1.v_x,
        -(FP_MAX as int) / 4 <= b1.x as int <= (FP_MAX as int) / 4,
        -(FP_MAX as int) / 4 <= b2.x as int <= (FP_MAX as int) / 4,
        -(FP_MAX as int) / 4 <= b1.v_x as int <= (FP_MAX as int) / 4,
        -(FP_MAX as int) / 4 <= b2.v_x as int <= (FP_MAX as int) / 4,
        b1.size as int <= (FP_MAX as int) / 4,
        b2.size as int <= (FP_MAX as int) / 4,
        (b2.x as int - b1.x as int) < (b1.size as int + b2.size as int),
        ((b1.size as int + b2.size as int) - (b2.x as int - b1.x as int)) % 2 == 0,
    ensures
        coll_overlapping(b1, b2),
        coll_pair(b1, b2).1.x as int - coll_pair(b1, b2).0.x as int == b1.size as int
            + b2.size as int,
        coll_pair(b1, b2).0.y == b1.y,
        coll_pair(b1, b2).1.y == b2.y,
        coll_pair(b1, b2).0.v_y == b1.v_y,
        coll_pair(b1, b2).1.v_y == b2.v_y,
        coll_pair(b1, b2).0.v_x as int + coll_pair(b1, b2).1.v_x as int == b1.v_x as int
            + b2.v_x as int,
        b2.v_x as int <= coll_pair(b1, b2).0.v_x as int,
        SCALE as int * (coll_pair(b1, b2).0.v_x as int - b2.v_x as int) < (b1.mass as int
            + SCALE as int),
        coll_pair(b1, b2).1.v_x as int <= b1.v_x as int,
        SCALE as int * (b1.v_x as int - coll_pair(b1, b2).1.v_x as int) < (b1.mass as int
            + SCALE as int),
{
    let s = SCALE as int;
    let dx = b2.x as int - b1.x as int;
    let m = b1.mass as int;
    assert(sub_fp(b2.x as int, b1.x as int) == dx);
    assert(sub_fp(b2.y as int, b1.y as int) == 0);
    assert(norm2(dx, 0) == dx * dx);
    assert(is_sqrt_floor(dx * dx, dx)) by (nonlinear_arith)
        requires
            1 <= dx,
    ;
    lemma_sqrt_floor_agrees(dx * dx, dx);
    assert(coll_distance(b1, b2) == dx);
    let mind = b1.size as int + b2.size as int;
    assert(coll_min_distance(b1, b2) == mind);
    assert(coll_overlapping(b1, b2));

    // the contact normal is exactly the unit direction along positive x
    lemma_div_fp_self(dx);
    assert(coll_normal_x(b1, b2) == s);
    assert(0 * dx == 0) by (nonlinear_arith);
    lemma_div_by_multiple(0, dx);
    assert(coll_normal_y(b1, b2) == 0);

    // the impulse is the truncated quotient of the approach speed and mass
    let rel = b1.v_x as int - b2.v_x as int;
    assert(sub_fp(b1.v_x as int, b2.v_x as int) == rel);
    lemma_mul_fp_identity(rel);
    lemma_mul_fp_zero(sub_fp(b1.v_y as int, b2.v_y as int));
    lemma_add_fp_zero(rel);
    lemma_mul_fp_double(rel);
    assert(add_fp(m, m) == 2 * m);
    assert(0 <= (2 * rel) * s) by (nonlinear_arith)
        requires
            0 < rel && 0 < s,
    ;
    lemma_div_denominator((2 * rel) * s, 2, m);
    assert((2 * rel) * s == (rel * s) * 2) by (nonlinear_arith);
    lemma_div_by_multiple(rel * s, 2);
    let q = (rel * s) / m;
    assert(((2 * rel) * s) / (2 * m) == q);
    assert(0 <= rel * s) by (nonlinear_arith)
        requires
            0 < rel && 0 < s,
    ;
    lemma_div_is_ordered_by_denominator(rel * s, s, m);
    lemma_div_by_multiple(rel, s);
    assert(q <= rel);
    assert(coll_impulse(b1, b2) == q);

    // the mass-weighted impulse undershoots the approach speed by less
    // than one representation step
    lemma_fundamental_div_mod(rel * s, m);
    lemma_mod_bound(rel * s, m);
    let r1 = (rel * s) % m;
    assert(0 <= q * m) by (nonlinear_arith)
        requires
            0 <= q && 0 < m,
    ;
    lemma_fundamental_div_mod(q * m, s);
    lemma_mod_bound(q * m, s);
    let d_val = (q * m) / s;
    let r2 = (q * m) % s;
    assert(s * (rel - d_val) == r1 + r2) by (nonlinear_arith)
        requires
            rel * s == m * q + r1 && q * m == s * d_val + r2,
    ;
    assert(0 <= rel - d_val && rel - d_val <= rel);
    assert(mul_fp(q, m) == d_val);
    lemma_mul_fp_identity(d_val);

    // velocities: the normal components swap up to the rounding step, the
    // tangential components and the sum are exact
    assert(coll_pair(b1, b2).0.v_x as int == b1.v_x as int - d_val);
    assert(coll_pair(b1, b2).1.v_x as int == b2.v_x as int + d_val);
    lemma_mul_fp_zero(d_val);
    lemma_add_fp_zero(b1.v_y as int);
    lemma_add_fp_zero(b2.v_y as int);

    // the push splits the even overlap exactly in half
    let ov = mind - dx;
    assert(sub_fp(mind, dx) == ov);
    lemma_mul_fp_identity(ov);
    lemma_mul_fp_half_even(ov);
    assert(coll_push_x(b1, b2) == ov / 2);
    lemma_mul_fp_zero(ov);
    lemma_mul_fp_zero(HALF as int);
    assert(coll_push_y(b1, b2) == 0);
    lemma_fundamental_div_mod(ov, 2);
    assert(coll_pair(b1, b2).0.x as int == b1.x as int - ov / 2);
    assert(coll_pair(b1, b2).1.x as int == b2.x as int + ov / 2);
    lemma_add_fp_zero(b1.y as int);
    lemma_add_fp_zero(b2.y as int);
}

/// Spawning a body and despawning it right away restores the body set and
/// the handle list exactly — only the internal handle counter differs.
/// The pushed handle is fresh, so the removal hits exactly the pushed entry.
pub proof fn lemma_spawn_despawn_roundtrip(
    bodies: Seq<Body>,
    ids: Seq<u64>,
    next_id: u64,
    b: Body,
)
    requires
        bodies.len() == ids.len(),
        forall|k: int| 0 <= k < ids.len() ==> #[trigger] ids[k] < next_id,
    ensures
        ids.push(next_id).contains(next_id),
        ids.push(next_id).index_of(next_id) == ids.len() as int,
        ids.push(next_id).remove(ids.len() as int) == ids,
        bodies.push(b).remove(ids.len() as int) == bodies,
{
    let s2 = ids.push(next_id);
    let n = ids.len() as int;
    assert(s2[n] == next_id);
    assert(s2.contains(next_id));
    let c = s2.index_of(next_id);
    assert(exists|i: int| 0 <= i < s2.len() && s2[i] == next_id);
    assert(0 <= c < s2.len() && s2[c] == next_id);
    if c < n {
        assert(s2[c] == ids[c]);
        assert(false);
    }
    assert(c == n);
    assert forall|t: int| 0 <= t < n implies s2.remove(n)[t] == ids[t] by {}
    assert(s2.remove(n) =~= ids);
    let b2 = bodies.push(b);
    assert forall|t: int| 0 <= t < n implies b2.remove(n)[t] == bodies[t] by {}
    assert(b2.remove(n) =~= bodies);
}

} // verus!

