//! A fixed-point simulation kernel for a rock-paper-scissors arena.
//!
//! Entities of three kinds move in a bounded rectangle. Each flees the
//! kind that beats it and chases the kind it beats; prey that is touched
//! by a predator takes the predator's kind. The kernel owns the rules of
//! one frame: steering, integration, wrap-around, conversion, same-kind
//! separation and the end-of-game check. All quantities are integers, and
//! every rule is stated as a function on sequences of entities.
//!
//! The modules, from the ground up:
//!
//! - [`kind`]: the three kinds and the cycle in which they beat each other.
//! - [`geometry`], [`angle`]: points, squared distances, the four diagonal
//!   directions, and headings within one turn.
//! - [`chance`]: the random source.
//! - [`config`]: the parameters of a simulation.
//! - [`entity`]: entities, positions by kind, head counts.
//! - [`spatial`], [`steering`]: nearest-point queries and the rule that
//!   turns them into a wish to flee or to chase.
//! - [`kinematics`], [`containment`], [`conversion`], [`separation`],
//!   [`lifecycle`]: the steps of a frame, in the order they run.
//! - [`frame`]: a whole frame as one function, and the laws of frames.
//! - [`startup`], [`simulation`]: spawning, and the store that a driver
//!   steps and reads.

pub mod angle;
pub mod chance;
pub mod config;
pub mod containment;
pub mod conversion;
pub mod entity;
pub mod frame;
pub mod geometry;
pub mod kind;
pub mod kinematics;
pub mod lifecycle;
pub mod separation;
pub mod simulation;
pub mod spatial;
pub mod startup;
pub mod steering;
