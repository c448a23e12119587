//! Tiles, tile maps and palettes.

pub mod color;
pub mod map;
pub mod pixel;
pub mod tile;
