//! The simulation context: the body store and the per-tick control flow.
//!
//! The context owns the live bodies, a parallel list of stable handles, the
//! handle counter and the collision toggle.  One tick runs the motion
//! integrator, then the gravity solver, then — only when enabled — the
//! collision resolver, in that order: the integrator consumes the
//! acceleration accumulated on the previous tick before the solver overwrites
//! it for the next one.  Spawn, despawn and clear happen between ticks.

use crate::body::{body_wf, spec_new_body, Body};
use crate::collision::{collision_pass, elastic_collision_system, lemma_coll_rows_len};
use crate::fixed::{in_range, mul_fp};
use crate::gravity::{compute_gravity_system, gravity_pass, lemma_grav_rows_len};
use crate::integrate::{integrate_all, update_bodies, TIME_MULT};
use vstd::prelude::*;

verus! {

/// The body set after one tick with elapsed time `dt`: integration, then
/// gravity, then — when enabled — collision resolution.
pub open spec fn tick_spec(bs: Seq<Body>, dt: i64, collisions: bool) -> Seq<Body> {
    let moved = integrate_all(bs, mul_fp(dt as int, TIME_MULT as int) as i64);
    let pulled = gravity_pass(moved);
    if collisions {
        collision_pass(pulled)
    } else {
        pulled
    }
}

/// The simulation: live bodies, their stable handles, the handle counter
/// and the collision toggle.
pub struct Simulation {
    pub bodies: Vec<Body>,
    pub ids: Vec<u64>,
    pub next_id: u64,
    pub collisions_enabled: bool,
}

impl Simulation {
    /// Handles and bodies run in parallel, every handle is unique and below
    /// the counter, and every body is well formed.
    pub open spec fn wf(&self) -> bool {
        &&& self.bodies@.len() == self.ids@.len()
        &&& forall|k: int| 0 <= k < self.bodies@.len() ==> body_wf(#[trigger] self.bodies@[k])
        &&& forall|k: int| 0 <= k < self.ids@.len() ==> #[trigger] self.ids@[k] < self.next_id
        &&& forall|k: int, l: int|
            0 <= k < self.ids@.len() && 0 <= l < self.ids@.len() && k != l ==> #[trigger] self.ids@[k]
                != #[trigger] self.ids@[l]
    }

    /// An empty simulation with collisions disabled.
    pub fn new() -> (s: Simulation)
        ensures
            s.wf(),
            s.bodies@.len() == 0,
            s.ids@.len() == 0,
            s.next_id == 0,
            !s.collisions_enabled,
    {
        Simulation { bodies: Vec::new(), ids: Vec::new(), next_id: 0, collisions_enabled: false }
    }

    /// Creates a body and returns its fresh handle.  Size and density are
    /// clamped to at least 1.0 before the mass is derived.
    pub fn spawn(&mut self, x: i64, y: i64, v_x: i64, v_y: i64, density: i64, size: i64) -> (id:
        u64)
        requires
            old(self).wf(),
            old(self).next_id < u64::MAX,
            in_range(x as int),
            in_range(y as int),
            in_range(v_x as int),
            in_range(v_y as int),
            in_range(density as int),
            in_range(size as int),
        ensures
            final(self).wf(),
            id == old(self).next_id,
            final(self).bodies@ == old(self).bodies@.push(
                spec_new_body(x, y, v_x, v_y, density, size),
            ),
            final(self).ids@ == old(self).ids@.push(id),
            final(self).next_id == old(self).next_id + 1,
            final(self).collisions_enabled == old(self).collisions_enabled,
    {
        let id: u64 = self.next_id;
        let b: Body = Body::new(x, y, v_x, v_y, density, size);
        self.bodies.push(b);
        self.ids.push(id);
        self.next_id = id + 1;
        id
    }

    /// Removes the body with the given handle, if it is live.  Returns
    /// whether one was removed; the other bodies keep their order.
    pub fn despawn(&mut self, id: u64) -> (removed: bool)
        requires
            old(self).wf(),
        ensures
            final(self).wf(),
            removed <==> old(self).ids@.contains(id),
            removed ==> ({
                let idx = old(self).ids@.index_of(id);
                &&& 0 <= idx < old(self).ids@.len()
                &&& old(self).ids@[idx] == id
                &&& final(self).ids@ == old(self).ids@.remove(idx)
                &&& final(self).bodies@ == old(self).bodies@.remove(idx)
            }),
            !removed ==> final(self).ids@ == old(self).ids@ && final(self).bodies@ == old(
                self,
            ).bodies@,
            final(self).next_id == old(self).next_id,
            final(self).collisions_enabled == old(self).collisions_enabled,
    {
        let n: usize = self.ids.len();
        let mut k: usize = 0;
        while k < n
            invariant
                *self == *old(self),
                old(self).wf(),
                n == self.ids@.len(),
                0 <= k <= n,
                forall|t: int| 0 <= t < k ==> #[trigger] self.ids@[t] != id,
            decreases n - k,
        {
            if self.ids[k] == id {
                proof {
                    let s = old(self).ids@;
                    assert(0 <= k < s.len() && s[k as int] == id);
                    assert(s.contains(id));
                    let c = s.index_of(id);
                    assert(0 <= c < s.len() && s[c] == id);
                    assert(c == k as int);
                }
                self.ids.remove(k);
                self.bodies.remove(k);
                proof {
                    let s = old(self).ids@;
                    let b = old(self).bodies@;
                    assert forall|t: int| 0 <= t < self.ids@.len() implies body_wf(
                        #[trigger] self.bodies@[t],
                    ) && self.ids@[t] < self.next_id by {
                        if t < k as int {
                            assert(self.bodies@[t] == b[t]);
                            assert(self.ids@[t] == s[t]);
                        } else {
                            assert(self.bodies@[t] == b[t + 1]);
                            assert(self.ids@[t] == s[t + 1]);
                        }
                    }
                    assert forall|t: int, u: int|
                        0 <= t < self.ids@.len() && 0 <= u < self.ids@.len() && t != u implies (
                    #[trigger] self.ids@[t]) != (#[trigger] self.ids@[u]) by {
                        let t0 = if t < k as int {
                            t
                        } else {
                            t + 1
                        };
                        let u0 = if u < k as int {
                            u
                        } else {
                            u + 1
                        };
                        assert(self.ids@[t] == s[t0]);
                        assert(self.ids@[u] == s[u0]);
                    }
                }
                return true;
            }
            k = k + 1;
        }
        proof {
            if old(self).ids@.contains(id) {
                let c = choose|i: int|
                    0 <= i < old(self).ids@.len() && old(self).ids@[i] == id;
                assert(old(self).ids@[c] != id);
            }
        }
        false
    }

    /// Removes every body; the handle counter and the toggle stay.
    pub fn clear_all(&mut self)
        requires
            old(self).wf(),
        ensures
            final(self).wf(),
            final(self).bodies@.len() == 0,
            final(self).ids@.len() == 0,
            final(self).next_id == old(self).next_id,
            final(self).collisions_enabled == old(self).collisions_enabled,
    {
        self.bodies.clear();
        self.ids.clear();
    }

    /// Advances the simulation by the elapsed time `dt` (fixed-point
    /// seconds): integration, then gravity, then — when enabled — collision
    /// resolution.  Handles, the counter and the toggle are untouched.
    pub fn tick(&mut self, dt: i64)
        requires
            old(self).wf(),
            0 <= dt,
            in_range(dt as int),
        ensures
            final(self).wf(),
            final(self).bodies@ == tick_spec(
                old(self).bodies@,
                dt,
                old(self).collisions_enabled,
            ),
            final(self).ids@ == old(self).ids@,
            final(self).next_id == old(self).next_id,
            final(self).collisions_enabled == old(self).collisions_enabled,
    {
        update_bodies(&mut self.bodies, dt);
        compute_gravity_system(&mut self.bodies);
        proof {
            lemma_grav_rows_len(
                integrate_all(
                    old(self).bodies@,
                    mul_fp(dt as int, TIME_MULT as int) as i64,
                ),
                0,
            );
        }
        if self.collisions_enabled {
            let ghost pulled = self.bodies@;
            elastic_collision_system(&mut self.bodies);
            proof {
                lemma_coll_rows_len(pulled, 0);
            }
        }
    }

    /// Flips whether the collision resolver runs inside a tick.
    pub fn set_collisions_enabled(&mut self, enabled: bool)
        requires
            old(self).wf(),
        ensures
            final(self).wf(),
            final(self).collisions_enabled == enabled,
            final(self).bodies@ == old(self).bodies@,
            final(self).ids@ == old(self).ids@,
            final(self).next_id == old(self).next_id,
    {
        self.collisions_enabled = enabled;
    }

    /// Whether the collision resolver runs inside a tick.
    pub fn collisions_enabled(&self) -> (enabled: bool)
        ensures
            enabled == self.collisions_enabled,
    {
        self.collisions_enabled
    }

    /// The number of live bodies.
    pub fn body_count(&self) -> (n: usize)
        requires
            self.wf(),
        ensures
            n == self.bodies@.len(),
    {
        self.bodies.len()
    }

    /// The body at a store index.
    pub fn get_body(&self, index: usize) -> (b: Body)
        requires
            self.wf(),
            index < self.bodies@.len(),
        ensures
            b == self.bodies@[index as int],
    {
        self.bodies[index]
    }

    /// What a renderer needs of the body at a store index: its handle,
    /// position, radius and mass.
    pub fn body_at(&self, index: usize) -> (r: (u64, i64, i64, i64, i64))
        requires
            self.wf(),
            index < self.bodies@.len(),
        ensures
            r.0 == self.ids@[index as int],
            r.1 == self.bodies@[index as int].x,
            r.2 == self.bodies@[index as int].y,
            r.3 == self.bodies@[index as int].size,
            r.4 == self.bodies@[index as int].mass,
    {
        let b: Body = self.bodies[index];
        (self.ids[index], b.x, b.y, b.size, b.mass)
    }
}

} // verus!
