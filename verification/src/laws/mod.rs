//! What the parts of the stack promise together.
//!
//! The laws in these modules speak of bytes, numbers and times, so that they
//! say what a configuration, a frame or a text means, and not how it is
//! worked out.

pub mod cli;
pub mod description;
pub mod entries;
pub mod example;
pub mod module;
pub mod node;
pub mod number;
pub mod objects;
pub mod pdo;
pub mod runner;
pub mod sdo;
pub mod sound;
