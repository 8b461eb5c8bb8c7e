//! Core of a small isometric tile game: the projection from grid coordinates
//! to screen coordinates, and the per-tick rule that steers each entity
//! towards its destination.
//!
//! All coordinates are fixed-point numbers, so every result is exact and the
//! same on every machine. See [`math`] for the number format.

pub mod entity;
pub mod math;
pub mod tile;
