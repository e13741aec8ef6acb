//! A 2D gravitational sandbox core: a variable set of circular masses
//! attracts each other pairwise and optionally collides elastically.
//!
//! One tick advances the world in three passes, strictly in order: the
//! motion integrator consumes the acceleration accumulated on the previous
//! tick, the gravity solver then refills the accumulator for the next one,
//! and — when the toggle is set — the collision resolver exchanges normal
//! impulses and de-penetrates overlapping bodies.  The `Simulation` context
//! owns the body store and the toggle; spawn, despawn and clear happen
//! between ticks.
//!
//! All state is kept in saturating fixed-point arithmetic (micro-units, see
//! `fixed`), so every tick is a total function of the current state and the
//! elapsed time: no value can become undefined or unbounded, which the
//! well-formedness invariant pins down.  The laws the engine obeys — the
//! pairwise force balance, straight-line coasting of an isolated body,
//! mirror symmetry, the frozen zero-time tick and the spawn/despawn round
//! trip — are stated and proved in `gravity` and `laws`.

pub mod body;
pub mod collision;
pub mod fixed;
pub mod gravity;
pub mod integrate;
pub mod laws;
pub mod sim;
