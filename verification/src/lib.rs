//! Core simulation library for a 3D flight / flocking game prototype.
//!
//! The per-tick simulation logic — input shaping, rigid-body flight
//! dynamics, multi-agent flocking/pursuit AI, and the camera rig — is
//! implemented over fixed-point arithmetic (64-bit integers counting
//! micro-units, one million units to 1.0) so that every tick is an exact,
//! deterministic integer computation with a verified contract.
//!
//! Rendering, asset loading, windowing and input polling are the host
//! engine's business; it calls into this crate once per tick and applies
//! the resulting transforms.

pub mod camera;
pub mod craft;
pub mod flight;
pub mod flock;
pub mod fx;
pub mod input;
pub mod quat;
pub mod vec3;
