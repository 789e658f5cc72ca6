//! Object dictionary code generation.

pub mod counts;
pub mod gen;
pub mod laws;
pub mod model;
pub mod names;
pub mod order;
pub mod render;
pub mod values;

pub use model::CanOpenDevice;
