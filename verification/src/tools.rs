//! Building blocks shared by every layer of the engine.

pub mod color;
pub mod dual_trait;
pub mod matrix;
pub mod timer;
pub mod transform;
