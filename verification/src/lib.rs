//! A deterministic, discrete-time physics core for axis-aligned squares
//! that do not rotate, under forces that pull on every movable body alike.
//!
//! A [`world::World`] owns an ordered collection of bodies and an ordered
//! collection of forces. The host adds bodies and forces and then calls
//! [`world::World::update`] with its clock reading, once per frame. One
//! step runs, in this order:
//!
//! 1. [`forces`]: every movable body gets the acceleration that the sum of
//!    all forces gives its mass.
//! 2. [`integrator`]: each movable body in turn, in collection order, is
//!    predicted with the constant-acceleration formula,
//! 3. [`collision`]: resolved against every other body as it stands at
//!    that moment, along the axis of the smaller overlap, vertically on
//!    a tie, in at most five passes,
//! 4. and committed: it takes the resolved position, and its velocity is
//!    integrated, or set to zero on an axis along which it was corrected.
//! 5. [`culling`]: bodies whose boxes no longer meet the visible area are
//!    removed.
//!
//! Numbers are fixed-point ([`scalar::Scalar`]): signed counts of
//! millionths with saturating arithmetic, so that a step computes the same
//! on every machine and cannot fail.
//!
//! Every type has a mathematical model (its view), the contracts of the
//! functions are stated over these models, and [`laws`] proves what holds
//! of every step.

pub mod body;
pub mod collision;
pub mod culling;
pub mod forces;
pub mod integrator;
pub mod laws;
pub mod scalar;
pub mod world;
