//! Movement and collision core of a 2D simulation on an integer grid.
//!
//! [`collision`] sweeps a moving point against a stationary segment and says
//! how much of the movement may be made before the two touch. [`game`] turns
//! the contacts found for one sub-step into the next position of an entity,
//! and paces the sub-steps of a tick.
pub mod arith;
pub mod closest;
pub mod collision;
pub mod game;
pub mod geometry;
