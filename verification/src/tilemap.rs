//! Tiles for maps whose cells hold their tiles themselves.

pub mod tile;
