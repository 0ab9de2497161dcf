//! A 2D elastic-collision simulation on fixed-point integer coordinates.
//!
//! Circular bodies ("marbles") move inside a rectangular arena, bounce off
//! the arena walls, off each other, and off a set of immobile larger bodies.
//! Positions and velocities are kept in integer subunits so that every step
//! of the physics is exact integer arithmetic with a specified truncating
//! division, and the whole simulation step is verified against a
//! mathematical model of itself.

pub mod arith;
pub mod vec2;
pub mod decomp;
pub mod marble;
pub mod world;
pub mod laws;
mod rng;
