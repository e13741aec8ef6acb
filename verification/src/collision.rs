//! The elastic collision resolver.
//!
//! One pass visits every unordered pair once.  Two bodies whose center
//! distance is below the sum of their radii exchange a momentum-conserving
//! impulse along the contact normal — tangential velocity components are
//! untouched, restitution is implicitly 1 — and are pushed apart along the
//! normal by half of the overlap each, so they do not stay interpenetrated.
//! When the centers coincide, the normal degenerates; the resolver then
//! falls back to the fixed unit direction along positive x, so the result
//! stays defined.

use crate::body::{body_wf, mirror_body, with_bounce, Body};
use crate::fixed::{
    add_fp, div_fp, fp_add, fp_div, fp_mul, fp_sqrt, fp_sub, lemma_clamp_odd, mul_fp, sqrt_floor,
    sub_fp, HALF, SCALE, TWO,
};
use crate::gravity::norm2;
use vstd::prelude::*;

verus! {

/// The rounded-down center distance of a pair.
pub open spec fn coll_distance(b1: Body, b2: Body) -> int {
    sqrt_floor(norm2(sub_fp(b2.x as int, b1.x as int), sub_fp(b2.y as int, b1.y as int)))
}

/// The distance below which the pair counts as overlapping: the sum of the
/// two radii.
pub open spec fn coll_min_distance(b1: Body, b2: Body) -> int {
    add_fp(b1.size as int, b2.size as int)
}

/// Whether the pair overlaps and the resolver acts on it.
pub open spec fn coll_overlapping(b1: Body, b2: Body) -> bool {
    coll_distance(b1, b2) < coll_min_distance(b1, b2)
}

/// The contact normal: the unit direction from the first body toward the
/// second, or the fixed unit direction along positive x when the centers
/// coincide.
pub open spec fn coll_normal_x(b1: Body, b2: Body) -> int {
    if coll_distance(b1, b2) == 0 {
        SCALE as int
    } else {
        div_fp(sub_fp(b2.x as int, b1.x as int), coll_distance(b1, b2))
    }
}

/// The contact normal (see `coll_normal_x`).
pub open spec fn coll_normal_y(b1: Body, b2: Body) -> int {
    if coll_distance(b1, b2) == 0 {
        0
    } else {
        div_fp(sub_fp(b2.y as int, b1.y as int), coll_distance(b1, b2))
    }
}

/// The impulse magnitude: twice the normal component of the relative
/// velocity over the summed masses.
pub open spec fn coll_impulse(b1: Body, b2: Body) -> int {
    let rel_x = sub_fp(b1.v_x as int, b2.v_x as int);
    let rel_y = sub_fp(b1.v_y as int, b2.v_y as int);
    let dot = add_fp(
        mul_fp(rel_x, coll_normal_x(b1, b2)),
        mul_fp(rel_y, coll_normal_y(b1, b2)),
    );
    div_fp(mul_fp(TWO as int, dot), add_fp(b1.mass as int, b2.mass as int))
}

/// Half of the overlap along the normal, the push applied to each body.
pub open spec fn coll_push_x(b1: Body, b2: Body) -> int {
    mul_fp(
        mul_fp(coll_normal_x(b1, b2), sub_fp(coll_min_distance(b1, b2), coll_distance(b1, b2))),
        HALF as int,
    )
}

/// Half of the overlap along the normal (see `coll_push_x`).
pub open spec fn coll_push_y(b1: Body, b2: Body) -> int {
    mul_fp(
        mul_fp(coll_normal_y(b1, b2), sub_fp(coll_min_distance(b1, b2), coll_distance(b1, b2))),
        HALF as int,
    )
}

/// One pairwise resolution: a non-overlapping pair is left alone; an
/// overlapping one exchanges the normal impulse, weighted by the other
/// body's mass, and both bodies are pushed apart by half the overlap.
pub open spec fn coll_pair(b1: Body, b2: Body) -> (Body, Body) {
    if !coll_overlapping(b1, b2) {
        (b1, b2)
    } else {
        let imp = coll_impulse(b1, b2);
        let nx = coll_normal_x(b1, b2);
        let ny = coll_normal_y(b1, b2);
        (
            with_bounce(
                b1,
                sub_fp(b1.x as int, coll_push_x(b1, b2)),
                sub_fp(b1.y as int, coll_push_y(b1, b2)),
                sub_fp(b1.v_x as int, mul_fp(mul_fp(imp, b2.mass as int), nx)),
                sub_fp(b1.v_y as int, mul_fp(mul_fp(imp, b2.mass as int), ny)),
            ),
            with_bounce(
                b2,
                add_fp(b2.x as int, coll_push_x(b1, b2)),
                add_fp(b2.y as int, coll_push_y(b1, b2)),
                add_fp(b2.v_x as int, mul_fp(mul_fp(imp, b1.mass as int), nx)),
                add_fp(b2.v_y as int, mul_fp(mul_fp(imp, b1.mass as int), ny)),
            ),
        )
    }
}

/// The body set after the pair `(i, j)` was resolved.
pub open spec fn apply_coll_at(bs: Seq<Body>, i: int, j: int) -> Seq<Body> {
    let p = coll_pair(bs[i], bs[j]);
    bs.update(i, p.0).update(j, p.1)
}

/// The body set after body `i` was resolved against every partner from `j`
/// on.
pub open spec fn coll_row(bs: Seq<Body>, i: int, j: int) -> Seq<Body>
    decreases bs.len() - j,
{
    if 0 <= i && i < j && j < bs.len() {
        coll_row(apply_coll_at(bs, i, j), i, j + 1)
    } else {
        bs
    }
}

/// A row of resolutions keeps the number of bodies.
pub proof fn lemma_coll_row_len(bs: Seq<Body>, i: int, j: int)
    ensures
        coll_row(bs, i, j).len() == bs.len(),
    decreases bs.len() - j,
{
    if 0 <= i && i < j && j < bs.len() {
        lemma_coll_row_len(apply_coll_at(bs, i, j), i, j + 1);
    }
}

/// The body set after all rows from `i` on ran; every unordered pair is
/// visited exactly once.
pub open spec fn coll_rows(bs: Seq<Body>, i: int) -> Seq<Body>
    decreases bs.len() - i,
        via coll_rows_decreases
{
    if 0 <= i && i < bs.len() {
        coll_rows(coll_row(bs, i, i + 1), i + 1)
    } else {
        bs
    }
}

#[via_fn]
proof fn coll_rows_decreases(bs: Seq<Body>, i: int) {
    if 0 <= i && i < bs.len() {
        lemma_coll_row_len(bs, i, i + 1);
    }
}

/// One full resolver pass over the body set.
pub open spec fn collision_pass(bs: Seq<Body>) -> Seq<Body> {
    coll_rows(bs, 0)
}

/// A full pass keeps the number of bodies.
pub proof fn lemma_coll_rows_len(bs: Seq<Body>, i: int)
    ensures
        coll_rows(bs, i).len() == bs.len(),
    decreases bs.len() - i,
{
    if 0 <= i && i < bs.len() {
        lemma_coll_row_len(bs, i, i + 1);
        lemma_coll_rows_len(coll_row(bs, i, i + 1), i + 1);
    }
}

/// A pairwise resolution keeps both bodies well formed.
pub proof fn lemma_coll_pair_wf(b1: Body, b2: Body)
    requires
        body_wf(b1),
        body_wf(b2),
    ensures
        body_wf(coll_pair(b1, b2).0),
        body_wf(coll_pair(b1, b2).1),
{
}

/// A pair of mirrored equal-mass bodies stays mirrored through the
/// resolution: impulse and push are shared, and they apply with opposite
/// signs to the two bodies.  This holds in the degenerate coinciding case
/// too, where both bodies sit at the origin and the fallback normal pushes
/// them apart symmetrically.
pub proof fn lemma_coll_pair_mirrored(b: Body)
    requires
        body_wf(b),
    ensures
        coll_pair(b, mirror_body(b)).1 == mirror_body(coll_pair(b, mirror_body(b)).0),
{
    let m = mirror_body(b);
    if coll_overlapping(b, m) {
        let imp = coll_impulse(b, m);
        let nx = coll_normal_x(b, m);
        let ny = coll_normal_y(b, m);
        lemma_clamp_odd(b.x as int - coll_push_x(b, m));
        lemma_clamp_odd(b.y as int - coll_push_y(b, m));
        lemma_clamp_odd(b.v_x as int - mul_fp(mul_fp(imp, m.mass as int), nx));
        lemma_clamp_odd(b.v_y as int - mul_fp(mul_fp(imp, m.mass as int), ny));
    }
}

/// One pairwise resolution, computed once and applied to both bodies.
fn coll_pair_exec(b1: Body, b2: Body) -> (r: (Body, Body))
    requires
        body_wf(b1),
        body_wf(b2),
    ensures
        r == coll_pair(b1, b2),
        body_wf(r.0),
        body_wf(r.1),
{
    let dx: i64 = fp_sub(b2.x, b1.x);
    let dy: i64 = fp_sub(b2.y, b1.y);
    proof {
        assert(0 <= (dx as int) * (dx as int) <= 1_000_000_000_000_000_000_000_000_000_000_000_000
            && 0 <= (dy as int) * (dy as int)
            <= 1_000_000_000_000_000_000_000_000_000_000_000_000) by (nonlinear_arith)
            requires
                -1_000_000_000_000_000_000 <= dx as int <= 1_000_000_000_000_000_000,
                -1_000_000_000_000_000_000 <= dy as int <= 1_000_000_000_000_000_000,
        ;
    }
    let d2: i128 = (dx as i128) * (dx as i128) + (dy as i128) * (dy as i128);
    let dist: i64 = fp_sqrt(d2 as u128);
    let min_distance: i64 = fp_add(b1.size, b2.size);
    if dist >= min_distance {
        (b1, b2)
    } else {
        let nx: i64 = if dist == 0 {
            SCALE
        } else {
            fp_div(dx, dist)
        };
        let ny: i64 = if dist == 0 {
            0
        } else {
            fp_div(dy, dist)
        };
        let rel_x: i64 = fp_sub(b1.v_x, b2.v_x);
        let rel_y: i64 = fp_sub(b1.v_y, b2.v_y);
        let dot: i64 = fp_add(fp_mul(rel_x, nx), fp_mul(rel_y, ny));
        let mass_sum: i64 = fp_add(b1.mass, b2.mass);
        let imp: i64 = fp_div(fp_mul(TWO, dot), mass_sum);
        let overlap: i64 = fp_sub(min_distance, dist);
        let push_x: i64 = fp_mul(fp_mul(nx, overlap), HALF);
        let push_y: i64 = fp_mul(fp_mul(ny, overlap), HALF);
        let c1 = Body {
            x: fp_sub(b1.x, push_x),
            y: fp_sub(b1.y, push_y),
            v_x: fp_sub(b1.v_x, fp_mul(fp_mul(imp, b2.mass), nx)),
            v_y: fp_sub(b1.v_y, fp_mul(fp_mul(imp, b2.mass), ny)),
            ..b1
        };
        let c2 = Body {
            x: fp_add(b2.x, push_x),
            y: fp_add(b2.y, push_y),
            v_x: fp_add(b2.v_x, fp_mul(fp_mul(imp, b1.mass), nx)),
            v_y: fp_add(b2.v_y, fp_mul(fp_mul(imp, b1.mass), ny)),
            ..b2
        };
        (c1, c2)
    }
}

/// Runs one full collision pass: every unordered pair of bodies is checked
/// for overlap exactly once and resolved elastically where it overlaps.
pub fn elastic_collision_system(bodies: &mut Vec<Body>)
    requires
        forall|k: int| 0 <= k < old(bodies)@.len() ==> body_wf(#[trigger] old(bodies)@[k]),
    ensures
        final(bodies)@ == collision_pass(old(bodies)@),
        forall|k: int| 0 <= k < final(bodies)@.len() ==> body_wf(#[trigger] final(bodies)@[k]),
{
    let ghost orig = bodies@;
    let n: usize = bodies.len();
    let mut i: usize = 0;
    while i < n
        invariant
            n == bodies@.len(),
            n == orig.len(),
            0 <= i <= n,
            coll_rows(orig, 0) == coll_rows(bodies@, i as int),
            forall|k: int| 0 <= k < n ==> body_wf(#[trigger] bodies@[k]),
        decreases n - i,
    {
        let ghost row0 = bodies@;
        let mut j: usize = i + 1;
        while j < n
            invariant
                n == bodies@.len(),
                n == row0.len(),
                0 <= i < n,
                i < j <= n,
                coll_row(row0, i as int, i as int + 1) == coll_row(bodies@, i as int, j as int),
                forall|k: int| 0 <= k < n ==> body_wf(#[trigger] bodies@[k]),
            decreases n - j,
        {
            let ghost pre = bodies@;
            let b1: Body = bodies[i];
            let b2: Body = bodies[j];
            let pair: (Body, Body) = coll_pair_exec(b1, b2);
            bodies.set(i, pair.0);
            bodies.set(j, pair.1);
            proof {
                assert(bodies@ =~= apply_coll_at(pre, i as int, j as int));
                assert(coll_row(pre, i as int, j as int) == coll_row(
                    apply_coll_at(pre, i as int, j as int),
                    i as int,
                    j as int + 1,
                ));
            }
            j = j + 1;
        }
        proof {
            assert(coll_row(bodies@, i as int, n as int) =~= bodies@);
            assert(coll_rows(row0, i as int) == coll_rows(
                coll_row(row0, i as int, i as int + 1),
                i as int + 1,
            ));
        }
        i = i + 1;
    }
    proof {
        assert(coll_rows(bodies@, n as int) =~= bodies@);
    }
}

} // verus!
