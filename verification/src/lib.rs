//! Approximates a target raster image with a small set of translucent
//! polygons, evolved by random mutation and hill climbing.
//!
//! All quantities are fixed-point integers: coordinates are fractions of
//! [`model::settings::COORD_ONE`], probabilities are parts per
//! [`model::settings::PROBABILITY_SCALE`], pixel errors are thousandths of a
//! channel step, and fitness is counted in units of `10^-12`.

pub mod engine;
pub mod fitness;
pub mod model;
pub mod random;
pub mod util;
pub mod vertex;

pub use engine::Engine;
pub use vertex::Vertex;
