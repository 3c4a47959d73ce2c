//! The candidate drawing and its parts.

pub mod color;
pub mod drawing;
pub mod point;
pub mod polygon;
pub mod settings;
