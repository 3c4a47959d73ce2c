//! The vertex stream handed to the rasterizer.

use vstd::prelude::*;

use crate::model::color::Color;
use crate::model::point::Point;
use crate::model::settings::COORD_ONE;

verus! {

/// One vertex of the stream. The position is in normalized device
/// coordinates, as multiples of `1 / COORD_ONE`; the color channels are
/// multiples of `1 / 255`.
#[derive(Clone, Copy, Debug)]
pub struct Vertex {
    pub position: [i64; 4],
    pub color: [u8; 4],
}

/// Maps a unit-square coordinate onto the range `[-1, 1]` of normalized
/// device coordinates.
pub open spec fn scaled(number: int) -> int {
    number * 2 - COORD_ONE
}

/// The homogeneous position of a point: `x` scaled, `y` flipped and
/// scaled, depth zero and weight one.
pub open spec fn position_of(point: Point) -> Seq<i64> {
    seq![
        scaled(point.x as int) as i64,
        scaled(COORD_ONE - point.y) as i64,
        0i64,
        COORD_ONE as i64,
    ]
}

/// The channels of a color in the order red, green, blue, alpha.
pub open spec fn channels_of(color: Color) -> Seq<u8> {
    seq![color.r, color.g, color.b, color.a]
}

/// Computes [`scaled`].
pub fn scale(number: i64) -> (result: i64)
    requires
        i64::MIN <= scaled(number as int),
        number * 2 <= i64::MAX,
    ensures
        result == scaled(number as int),
{
    number * 2 - COORD_ONE as i64
}

impl Vertex {
    /// The vertex stands for `point` drawn in `color`.
    pub open spec fn shows(self, point: Point, color: Color) -> bool {
        self.position@ == position_of(point) && self.color@ == channels_of(color)
    }

    /// The vertex of a point of a polygon of the given color.
    pub fn new(point: Point, color: Color) -> (vertex: Vertex)
        ensures
            vertex.shows(point, color),
    {
        let vertex = Vertex {
            position: [
                scale(point.x as i64),
                scale(COORD_ONE as i64 - point.y as i64),
                0,
                COORD_ONE as i64,
            ],
            color: [color.r, color.g, color.b, color.a],
        };
        assert(vertex.position@ =~= position_of(point));
        assert(vertex.color@ =~= channels_of(color));
        vertex
    }
}

} // verus!
