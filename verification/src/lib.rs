//! A two-dimensional grid engine for tile-based rendering.
//!
//! The engine is built around [`tools::matrix::Matrix`], a rectangular
//! container in row-major order with clamped or wrap-around addressing,
//! geometric transforms and layered composition. Tiles, tile maps and
//! entities are thin layers on top of it.

pub mod entity;
pub mod graphics;
pub mod tile;
pub mod tilemap;
pub mod tools;
pub mod window;
