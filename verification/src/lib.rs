//! A particle-based (SPH-family) fluid simulation kernel over exact integer
//! coordinates: spatial hash grid, per-step contact detection, smoothing-kernel
//! evaluation, an artificial-viscosity non-pressure force, and a
//! projection-based incompressibility solver.
//!
//! All quantities are plain `i64` scalars in caller-chosen units; every
//! arithmetic step either is exact or saturates symmetrically, so the whole
//! pipeline is deterministic and never panics on finite input.

pub mod math;
pub mod fluid;
pub mod boundary;
pub mod grid;
pub mod contacts;
pub mod kernel;
pub mod viscosity;
pub mod timestep;
pub mod pressure;
pub mod world;
