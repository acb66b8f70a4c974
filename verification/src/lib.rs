//! Verified core of a two-dimensional flocking simulation.
//!
//! The crate keeps the bookkeeping of a flock: which agents exist, which
//! flock each one belongs to, what limits it moves under and how its state
//! changes when the host scene adds it, removes it or steers it. Real-valued
//! quantities are carried as bit patterns; the arithmetic on them is supplied
//! by the caller.

pub mod boid;
pub mod flock;
pub mod identity;
pub mod properties;
pub mod scalar;
pub mod scene;
