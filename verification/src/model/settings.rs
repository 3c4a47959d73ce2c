//! Tuning constants of the search.

use vstd::prelude::*;

verus! {

/// The fixed-point value of the coordinate `1.0`: a coordinate `c` stands for
/// the fraction `c / COORD_ONE` of the canvas width or height.
pub const COORD_ONE: u32 = 16_777_216;

/// The denominator of every probability below.
pub const PROBABILITY_SCALE: u32 = 1_000_000;

/// Fewest polygons a drawing may hold.
pub const MIN_POLYGONS_PER_IMAGE: usize = 1;

/// Most polygons a drawing may hold.
pub const MAX_POLYGONS_PER_IMAGE: usize = 250;

/// Number of polygons of a freshly seeded drawing.
pub const START_WITH_POLYGONS_PER_IMAGE: usize = 10;

/// Fewest points a polygon may hold.
pub const MIN_POINTS_PER_POLYGON: usize = 3;

/// Chance that a mutation pass adds a polygon.
pub const ADD_POLYGON_PROB: u32 = 1_429;

/// Chance that a mutation pass removes a polygon.
pub const REMOVE_POLYGON_PROB: u32 = 667;

/// Chance that a mutation pass swaps two polygons in the drawing order.
pub const REORDER_POLYGON_PROB: u32 = 1_429;

/// Chance that a polygon is shifted as a whole.
pub const OFFSET_POLYGON_PROBABILITY: u32 = 667;

/// Largest shift of a polygon along either axis.
pub const OFFSET_POLYGON_MAGNITUDE: u32 = 838_860;

/// Chance that a polygon loses one point.
pub const REMOVE_POINT_PROBABILITY: u32 = 667;

/// Largest distance, along either axis, between the points of a new polygon
/// and its origin.
pub const NEW_POINT_MAX_DISTANCE: u32 = 1_677_721;

/// Chance that a point jumps.
pub const MOVE_POINT_PROBABILITY: u32 = 667;

/// Largest jump of a point along either axis.
pub const MOVE_POINT_MAX_DELTA: u32 = 1_677_721;

/// Chance of each fine adjustment of a coordinate pair or a color channel.
pub const MICRO_ADJUSTMENT_PROBABILITY: u32 = 2_000;

/// Largest fine adjustment of a point along either axis.
pub const MICRO_ADJUSTMENT_DELTA: u32 = 16_777;

/// Chance that one color channel is drawn afresh.
pub const CHANGE_COLOR_PROB: u32 = 667;

/// Chance that red, green and blue all rise by one.
pub const LIGHTEN_COLOR_PROB: u32 = 2_000;

/// Chance that red, green and blue all fall by one.
pub const DARKEN_COLOR_PROB: u32 = 2_000;

/// Lowest alpha a polygon may have.
pub const MIN_ALPHA: u8 = 30;

/// Highest alpha a polygon may have.
pub const MAX_ALPHA: u8 = 220;

/// Number of error units per channel step.
pub const ERROR_SCALE: u64 = 1_000;

/// Largest error of one pixel: the distance between black and white,
/// `sqrt(3 * 255^2)`, in error units, rounded down.
pub const MAX_ERROR_PER_PIXEL: u64 = 441_672;

/// Fitness, in millionths of a point, of a drawing that matches its target
/// exactly, before the complexity penalty.
pub const PERFECT_BASE_FITNESS: u64 = 100_000_000;

/// The denominator of [`PER_POINT_MULTIPLIER`].
pub const PENALTY_SCALE: u64 = 1_000_000;

/// Share of the fitness, in parts per [`PENALTY_SCALE`], that each point of
/// a drawing costs.
pub const PER_POINT_MULTIPLIER: u64 = 100;

} // verus!
