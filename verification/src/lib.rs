//! Aerodynamic force model for a rigid-body flight simulation.
//!
//! All physical quantities are fixed-point integers in micro-units
//! (one unit equals `fixed::SCALE` micro-units): lengths in micro-metres,
//! angles in micro-radians, velocities in micro-metres per second, and so
//! on. Every function is verified: contracts state the exact fixed-point
//! value each computation returns.

pub mod fixed;
pub mod trig;
pub mod vec3;
pub mod aerodynamics;
pub mod laws;
