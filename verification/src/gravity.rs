//! The gravity solver.
//!
//! One pass visits every unordered pair of live bodies exactly once, computes
//! the pairwise attraction from a single shared force magnitude and unit
//! direction, and accumulates equal and opposite contributions into the two
//! acceleration accumulators.  The distance is clamped to a floor so that
//! coinciding bodies never divide by zero, and the squared distance to at
//! least one representation step so that the fixed-point square cannot
//! underrun to zero either.

use crate::body::{body_wf, mirror_body, with_accel, Body};
use crate::fixed::{
    add_fp, clamp_fp, div_fp, fp_add, fp_div, fp_mul, fp_sqrt, fp_sub, is_sqrt_floor,
    lemma_clamp_odd, lemma_div_fp_nonneg, lemma_div_fp_unit_bound, lemma_mul_fp_sign,
    lemma_sqrt_floor_is_sqrt, lemma_weighted_quotient_bound, mul_fp, sqrt_floor, sub_fp, FP_MAX,
    SCALE,
};
use vstd::prelude::*;

verus! {

/// The gravitational constant of the simulation.
pub const GRAVITY_CONST: i64 = 500;

/// The floor of the pairwise distance, guarding against a division blow-up
/// when two bodies coincide.
pub const MIN_GRAVITY_DISTANCE: i64 = 100;

/// The squared length of the separation vector.
pub open spec fn norm2(dx: int, dy: int) -> int {
    dx * dx + dy * dy
}

/// The clamped center distance of a pair: the rounded-down length of the
/// separation vector, floored at `MIN_GRAVITY_DISTANCE` and saturated.
pub open spec fn grav_distance(b1: Body, b2: Body) -> int {
    let dx = sub_fp(b2.x as int, b1.x as int);
    let dy = sub_fp(b2.y as int, b1.y as int);
    let d0 = sqrt_floor(norm2(dx, dy));
    let d1 = if d0 < MIN_GRAVITY_DISTANCE as int {
        MIN_GRAVITY_DISTANCE as int
    } else {
        d0
    };
    clamp_fp(d1)
}

/// The unit direction from the first body toward the second.
pub open spec fn grav_unit_x(b1: Body, b2: Body) -> int {
    div_fp(sub_fp(b2.x as int, b1.x as int), grav_distance(b1, b2))
}

/// The unit direction from the first body toward the second.
pub open spec fn grav_unit_y(b1: Body, b2: Body) -> int {
    div_fp(sub_fp(b2.y as int, b1.y as int), grav_distance(b1, b2))
}

/// The squared clamped distance, floored at one representation step so that
/// the following division stays defined.
pub open spec fn grav_denom(b1: Body, b2: Body) -> int {
    let dd = mul_fp(grav_distance(b1, b2), grav_distance(b1, b2));
    if dd < 1 {
        1
    } else {
        dd
    }
}

/// The shared force magnitude of a pair: `G * m1 * m2 / distance^2`.
pub open spec fn grav_force(b1: Body, b2: Body) -> int {
    div_fp(
        mul_fp(mul_fp(GRAVITY_CONST as int, b1.mass as int), b2.mass as int),
        grav_denom(b1, b2),
    )
}

/// The acceleration magnitude the pair force gives the first body.
pub open spec fn grav_acc1(b1: Body, b2: Body) -> int {
    div_fp(grav_force(b1, b2), b1.mass as int)
}

/// The acceleration magnitude the pair force gives the second body.
pub open spec fn grav_acc2(b1: Body, b2: Body) -> int {
    div_fp(grav_force(b1, b2), b2.mass as int)
}

/// The contribution accumulated into the first body's acceleration.
pub open spec fn grav_on_first_x(b1: Body, b2: Body) -> int {
    mul_fp(grav_unit_x(b1, b2), grav_acc1(b1, b2))
}

/// The contribution accumulated into the first body's acceleration.
pub open spec fn grav_on_first_y(b1: Body, b2: Body) -> int {
    mul_fp(grav_unit_y(b1, b2), grav_acc1(b1, b2))
}

/// The contribution subtracted from the second body's acceleration.
pub open spec fn grav_on_second_x(b1: Body, b2: Body) -> int {
    mul_fp(grav_unit_x(b1, b2), grav_acc2(b1, b2))
}

/// The contribution subtracted from the second body's acceleration.
pub open spec fn grav_on_second_y(b1: Body, b2: Body) -> int {
    mul_fp(grav_unit_y(b1, b2), grav_acc2(b1, b2))
}

/// One pairwise interaction: the first body's accumulator gains the
/// contribution along the unit direction, the second body's accumulator
/// loses the opposite one derived from the same force magnitude.
pub open spec fn grav_pair(b1: Body, b2: Body) -> (Body, Body) {
    (
        with_accel(
            b1,
            add_fp(b1.a_x as int, grav_on_first_x(b1, b2)),
            add_fp(b1.a_y as int, grav_on_first_y(b1, b2)),
        ),
        with_accel(
            b2,
            sub_fp(b2.a_x as int, grav_on_second_x(b1, b2)),
            sub_fp(b2.a_y as int, grav_on_second_y(b1, b2)),
        ),
    )
}

/// The body set after the pair `(i, j)` interacted.
pub open spec fn apply_grav_at(bs: Seq<Body>, i: int, j: int) -> Seq<Body> {
    let p = grav_pair(bs[i], bs[j]);
    bs.update(i, p.0).update(j, p.1)
}

/// The body set after body `i` interacted with every partner from `j` on.
pub open spec fn grav_row(bs: Seq<Body>, i: int, j: int) -> Seq<Body>
    decreases bs.len() - j,
{
    if 0 <= i && i < j && j < bs.len() {
        grav_row(apply_grav_at(bs, i, j), i, j + 1)
    } else {
        bs
    }
}

/// A row of interactions keeps the number of bodies.
pub proof fn lemma_grav_row_len(bs: Seq<Body>, i: int, j: int)
    ensures
        grav_row(bs, i, j).len() == bs.len(),
    decreases bs.len() - j,
{
    if 0 <= i && i < j && j < bs.len() {
        lemma_grav_row_len(apply_grav_at(bs, i, j), i, j + 1);
    }
}

/// The body set after all rows from `i` on ran: row `i` pairs body `i` with
/// every later body, so every unordered pair is visited exactly once.
pub open spec fn grav_rows(bs: Seq<Body>, i: int) -> Seq<Body>
    decreases bs.len() - i,
        via grav_rows_decreases
{
    if 0 <= i && i < bs.len() {
        grav_rows(grav_row(bs, i, i + 1), i + 1)
    } else {
        bs
    }
}

#[via_fn]
proof fn grav_rows_decreases(bs: Seq<Body>, i: int) {
    if 0 <= i && i < bs.len() {
        lemma_grav_row_len(bs, i, i + 1);
    }
}

/// One full solver pass over the body set.
pub open spec fn gravity_pass(bs: Seq<Body>) -> Seq<Body> {
    grav_rows(bs, 0)
}

/// A full pass keeps the number of bodies.
pub proof fn lemma_grav_rows_len(bs: Seq<Body>, i: int)
    ensures
        grav_rows(bs, i).len() == bs.len(),
    decreases bs.len() - i,
{
    if 0 <= i && i < bs.len() {
        lemma_grav_row_len(bs, i, i + 1);
        lemma_grav_rows_len(grav_row(bs, i, i + 1), i + 1);
    }
}

/// Everything of a body except its acceleration accumulator.
pub open spec fn same_but_accel(a: Body, b: Body) -> bool {
    &&& a.x == b.x
    &&& a.y == b.y
    &&& a.v_x == b.v_x
    &&& a.v_y == b.v_y
    &&& a.past_x == b.past_x
    &&& a.past_y == b.past_y
    &&& a.past_a_x == b.past_a_x
    &&& a.past_a_y == b.past_a_y
    &&& a.mass == b.mass
    &&& a.size == b.size
    &&& a.density == b.density
}

/// A row of interactions writes nothing but acceleration accumulators.
pub proof fn lemma_grav_row_kinematics(bs: Seq<Body>, i: int, j: int)
    ensures
        forall|k: int|
            0 <= k < bs.len() ==> same_but_accel(
                #[trigger] grav_row(bs, i, j)[k],
                bs[k],
            ),
    decreases bs.len() - j,
{
    lemma_grav_row_len(bs, i, j);
    if 0 <= i && i < j && j < bs.len() {
        let ap = apply_grav_at(bs, i, j);
        lemma_grav_row_kinematics(ap, i, j + 1);
        assert(grav_row(bs, i, j) == grav_row(ap, i, j + 1));
        assert forall|k: int| 0 <= k < bs.len() implies same_but_accel(
            #[trigger] grav_row(bs, i, j)[k],
            bs[k],
        ) by {
            assert(same_but_accel(ap[k], bs[k]));
            assert(same_but_accel(grav_row(ap, i, j + 1)[k], ap[k]));
        }
    } else {
        assert forall|k: int| 0 <= k < bs.len() implies same_but_accel(
            #[trigger] grav_row(bs, i, j)[k],
            bs[k],
        ) by {
            assert(grav_row(bs, i, j) == bs);
        }
    }
}

/// A full pass writes nothing but acceleration accumulators.
pub proof fn lemma_grav_rows_kinematics(bs: Seq<Body>, i: int)
    ensures
        forall|k: int|
            0 <= k < bs.len() ==> same_but_accel(
                #[trigger] grav_rows(bs, i)[k],
                bs[k],
            ),
    decreases bs.len() - i,
{
    lemma_grav_rows_len(bs, i);
    if 0 <= i && i < bs.len() {
        let row = grav_row(bs, i, i + 1);
        lemma_grav_row_len(bs, i, i + 1);
        lemma_grav_row_kinematics(bs, i, i + 1);
        lemma_grav_rows_kinematics(row, i + 1);
        assert(grav_rows(bs, i) == grav_rows(row, i + 1));
        assert forall|k: int| 0 <= k < bs.len() implies same_but_accel(
            #[trigger] grav_rows(bs, i)[k],
            bs[k],
        ) by {
            assert(same_but_accel(row[k], bs[k]));
            assert(same_but_accel(grav_rows(row, i + 1)[k], row[k]));
        }
    }
}

/// A pairwise interaction keeps both bodies well formed.
pub proof fn lemma_grav_pair_wf(b1: Body, b2: Body)
    requires
        body_wf(b1),
        body_wf(b2),
    ensures
        body_wf(grav_pair(b1, b2).0),
        body_wf(grav_pair(b1, b2).1),
{
}

/// The shared force magnitude and both acceleration magnitudes are
/// nonnegative.
pub proof fn lemma_grav_force_nonneg(b1: Body, b2: Body)
    requires
        body_wf(b1),
        body_wf(b2),
    ensures
        grav_force(b1, b2) >= 0,
        grav_acc1(b1, b2) >= 0,
        grav_acc2(b1, b2) >= 0,
{
    lemma_mul_fp_sign(GRAVITY_CONST as int, b1.mass as int);
    lemma_mul_fp_sign(mul_fp(GRAVITY_CONST as int, b1.mass as int), b2.mass as int);
    lemma_div_fp_nonneg(
        mul_fp(mul_fp(GRAVITY_CONST as int, b1.mass as int), b2.mass as int),
        grav_denom(b1, b2),
    );
    lemma_div_fp_nonneg(grav_force(b1, b2), b1.mass as int);
    lemma_div_fp_nonneg(grav_force(b1, b2), b2.mass as int);
}

/// The unit direction components are bounded by one unit in magnitude.
pub proof fn lemma_grav_unit_bounded(b1: Body, b2: Body)
    requires
        body_wf(b1),
        body_wf(b2),
    ensures
        -(SCALE as int) <= grav_unit_x(b1, b2) <= SCALE as int,
        -(SCALE as int) <= grav_unit_y(b1, b2) <= SCALE as int,
        MIN_GRAVITY_DISTANCE as int <= grav_distance(b1, b2) <= FP_MAX as int,
{
    let dx = sub_fp(b2.x as int, b1.x as int);
    let dy = sub_fp(b2.y as int, b1.y as int);
    let n = norm2(dx, dy);
    assert(dx * dx >= 0 && dy * dy >= 0) by (nonlinear_arith);
    lemma_sqrt_floor_is_sqrt(n);
    let r = sqrt_floor(n);
    assert(r >= dx && r >= -dx && r >= dy && r >= -dy) by (nonlinear_arith)
        requires
            is_sqrt_floor(n, r) && n == dx * dx + dy * dy,
    ;
    let d = grav_distance(b1, b2);
    assert(-d <= dx <= d && -d <= dy <= d);
    lemma_div_fp_unit_bound(dx, d);
    lemma_div_fp_unit_bound(dy, d);
}

/// Each mass-weighted contribution of a pair tracks the shared ideal
/// product of force magnitude and unit direction to within two steps of
/// the body's own mass.
pub proof fn lemma_grav_contribution_tracks_force(b1: Body, b2: Body)
    requires
        body_wf(b1),
        body_wf(b2),
    ensures
        -(2 * b1.mass as int) < grav_unit_x(b1, b2) * grav_force(b1, b2) - b1.mass as int
            * grav_on_first_x(b1, b2) < 2 * b1.mass as int,
        -(2 * b1.mass as int) < grav_unit_y(b1, b2) * grav_force(b1, b2) - b1.mass as int
            * grav_on_first_y(b1, b2) < 2 * b1.mass as int,
        -(2 * b2.mass as int) < grav_unit_x(b1, b2) * grav_force(b1, b2) - b2.mass as int
            * grav_on_second_x(b1, b2) < 2 * b2.mass as int,
        -(2 * b2.mass as int) < grav_unit_y(b1, b2) * grav_force(b1, b2) - b2.mass as int
            * grav_on_second_y(b1, b2) < 2 * b2.mass as int,
{
    lemma_grav_unit_bounded(b1, b2);
    lemma_grav_force_nonneg(b1, b2);
    let f = grav_force(b1, b2);
    assert(f <= FP_MAX as int);
    lemma_weighted_quotient_bound(grav_unit_x(b1, b2), f, b1.mass as int);
    lemma_weighted_quotient_bound(grav_unit_y(b1, b2), f, b1.mass as int);
    lemma_weighted_quotient_bound(grav_unit_x(b1, b2), f, b2.mass as int);
    lemma_weighted_quotient_bound(grav_unit_y(b1, b2), f, b2.mass as int);
}

/// Newton's third law, as the solver realizes it: both contributions of a
/// pair are derived from one shared force magnitude along one shared unit
/// direction, so the accumulated accelerations point in opposite directions
/// (the products of like components are nonnegative, and the second body's
/// contribution is subtracted); the mass-weighted contributions balance to
/// within two steps of either mass, and for equal masses the two
/// contributions are exactly equal and opposite.
pub proof fn lemma_newton_third_law(b1: Body, b2: Body)
    requires
        body_wf(b1),
        body_wf(b2),
    ensures
        grav_on_first_x(b1, b2) * grav_on_second_x(b1, b2) >= 0,
        grav_on_first_y(b1, b2) * grav_on_second_y(b1, b2) >= 0,
        -(2 * (b1.mass as int + b2.mass as int)) < b1.mass as int * grav_on_first_x(b1, b2)
            - b2.mass as int * grav_on_second_x(b1, b2) < 2 * (b1.mass as int + b2.mass as int),
        -(2 * (b1.mass as int + b2.mass as int)) < b1.mass as int * grav_on_first_y(b1, b2)
            - b2.mass as int * grav_on_second_y(b1, b2) < 2 * (b1.mass as int + b2.mass as int),
        b1.mass == b2.mass ==> grav_on_first_x(b1, b2) == grav_on_second_x(b1, b2)
            && grav_on_first_y(b1, b2) == grav_on_second_y(b1, b2),
{
    lemma_grav_contribution_tracks_force(b1, b2);
    lemma_grav_force_nonneg(b1, b2);
    lemma_mul_fp_sign(grav_unit_x(b1, b2), grav_acc1(b1, b2));
    lemma_mul_fp_sign(grav_unit_x(b1, b2), grav_acc2(b1, b2));
    lemma_mul_fp_sign(grav_unit_y(b1, b2), grav_acc1(b1, b2));
    lemma_mul_fp_sign(grav_unit_y(b1, b2), grav_acc2(b1, b2));
    if grav_unit_x(b1, b2) >= 0 {
        assert(grav_on_first_x(b1, b2) * grav_on_second_x(b1, b2) >= 0) by (nonlinear_arith)
            requires
                grav_on_first_x(b1, b2) >= 0 && grav_on_second_x(b1, b2) >= 0,
        ;
    } else {
        assert(grav_on_first_x(b1, b2) * grav_on_second_x(b1, b2) >= 0) by (nonlinear_arith)
            requires
                grav_on_first_x(b1, b2) <= 0 && grav_on_second_x(b1, b2) <= 0,
        ;
    }
    if grav_unit_y(b1, b2) >= 0 {
        assert(grav_on_first_y(b1, b2) * grav_on_second_y(b1, b2) >= 0) by (nonlinear_arith)
            requires
                grav_on_first_y(b1, b2) >= 0 && grav_on_second_y(b1, b2) >= 0,
        ;
    } else {
        assert(grav_on_first_y(b1, b2) * grav_on_second_y(b1, b2) >= 0) by (nonlinear_arith)
            requires
                grav_on_first_y(b1, b2) <= 0 && grav_on_second_y(b1, b2) <= 0,
        ;
    }
}

/// A pair of mirrored bodies stays mirrored through the interaction.
pub proof fn lemma_grav_pair_mirrored(b: Body)
    requires
        body_wf(b),
    ensures
        grav_pair(b, mirror_body(b)).1 == mirror_body(grav_pair(b, mirror_body(b)).0),
{
    let m = mirror_body(b);
    assert(grav_acc2(b, m) == grav_acc1(b, m));
    lemma_clamp_odd(b.a_x as int + grav_on_first_x(b, m));
    lemma_clamp_odd(b.a_y as int + grav_on_first_y(b, m));
}

/// One pairwise interaction, computed once and applied to both bodies.
fn grav_pair_exec(b1: Body, b2: Body) -> (r: (Body, Body))
    requires
        body_wf(b1),
        body_wf(b2),
    ensures
        r == grav_pair(b1, b2),
        body_wf(r.0),
        body_wf(r.1),
{
    let dx: i64 = fp_sub(b2.x, b1.x);
    let dy: i64 = fp_sub(b2.y, b1.y);
    proof {
        assert(0 <= (dx as int) * (dx as int) <= 1_000_000_000_000_000_000_000_000_000_000_000_000
            && 0 <= (dy as int) * (dy as int)
            <= 1_000_000_000_000_000_000_000_000_000_000_000_000) by (nonlinear_arith)
            requires
                -1_000_000_000_000_000_000 <= dx as int <= 1_000_000_000_000_000_000,
                -1_000_000_000_000_000_000 <= dy as int <= 1_000_000_000_000_000_000,
        ;
    }
    let d2: i128 = (dx as i128) * (dx as i128) + (dy as i128) * (dy as i128);
    let d0: i64 = fp_sqrt(d2 as u128);
    let d1: i64 = if d0 < MIN_GRAVITY_DISTANCE {
        MIN_GRAVITY_DISTANCE
    } else {
        d0
    };
    let d: i64 = if d1 > FP_MAX {
        FP_MAX
    } else {
        d1
    };
    proof {
        assert(d as int == grav_distance(b1, b2));
        assert(d >= MIN_GRAVITY_DISTANCE);
    }
    let ux: i64 = fp_div(dx, d);
    let uy: i64 = fp_div(dy, d);
    let dd: i64 = fp_mul(d, d);
    let denom: i64 = if dd < 1 {
        1
    } else {
        dd
    };
    let force: i64 = fp_div(fp_mul(fp_mul(GRAVITY_CONST, b1.mass), b2.mass), denom);
    let acc1: i64 = fp_div(force, b1.mass);
    let acc2: i64 = fp_div(force, b2.mass);
    let c1 = Body {
        a_x: fp_add(b1.a_x, fp_mul(ux, acc1)),
        a_y: fp_add(b1.a_y, fp_mul(uy, acc1)),
        ..b1
    };
    let c2 = Body {
        a_x: fp_sub(b2.a_x, fp_mul(ux, acc2)),
        a_y: fp_sub(b2.a_y, fp_mul(uy, acc2)),
        ..b2
    };
    (c1, c2)
}

/// Runs one full gravity pass: every unordered pair of bodies interacts
/// exactly once, accumulating equal-and-opposite contributions into the
/// acceleration accumulators and touching nothing else.
pub fn compute_gravity_system(bodies: &mut Vec<Body>)
    requires
        forall|k: int| 0 <= k < old(bodies)@.len() ==> body_wf(#[trigger] old(bodies)@[k]),
    ensures
        final(bodies)@ == gravity_pass(old(bodies)@),
        forall|k: int| 0 <= k < final(bodies)@.len() ==> body_wf(#[trigger] final(bodies)@[k]),
{
    let ghost orig = bodies@;
    let n: usize = bodies.len();
    let mut i: usize = 0;
    while i < n
        invariant
            n == bodies@.len(),
            n == orig.len(),
            0 <= i <= n,
            grav_rows(orig, 0) == grav_rows(bodies@, i as int),
            forall|k: int| 0 <= k < n ==> body_wf(#[trigger] bodies@[k]),
        decreases n - i,
    {
        let ghost row0 = bodies@;
        let mut j: usize = i + 1;
        while j < n
            invariant
                n == bodies@.len(),
                n == row0.len(),
                0 <= i < n,
                i < j <= n,
                grav_row(row0, i as int, i as int + 1) == grav_row(bodies@, i as int, j as int),
                forall|k: int| 0 <= k < n ==> body_wf(#[trigger] bodies@[k]),
            decreases n - j,
        {
            let ghost pre = bodies@;
            let b1: Body = bodies[i];
            let b2: Body = bodies[j];
            let pair: (Body, Body) = grav_pair_exec(b1, b2);
            bodies.set(i, pair.0);
            bodies.set(j, pair.1);
            proof {
                assert(bodies@ =~= apply_grav_at(pre, i as int, j as int));
                assert(grav_row(pre, i as int, j as int) == grav_row(
                    apply_grav_at(pre, i as int, j as int),
                    i as int,
                    j as int + 1,
                ));
            }
            j = j + 1;
        }
        proof {
            assert(grav_row(bodies@, i as int, n as int) =~= bodies@);
            assert(grav_rows(row0, i as int) == grav_rows(
                grav_row(row0, i as int, i as int + 1),
                i as int + 1,
            ));
        }
        i = i + 1;
    }
    proof {
        assert(grav_rows(bodies@, n as int) =~= bodies@);
    }
}

} // verus!
