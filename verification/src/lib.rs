//! Procedural vegetation chunk preparation: placement descriptors, bounds,
//! square-texture packing of per-blade attributes, and a keyed GPU resource
//! cache refreshed by per-frame preparation stages.
//!
//! All world-space quantities are Q16.16 fixed-point values: `FIXED_ONE`
//! (65536) stands for one world unit.

pub mod cache;
pub mod error;
pub mod grass_spawner;
pub mod prepare;
pub mod texture;
pub mod types;
