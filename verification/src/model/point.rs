//! A vertex of a polygon, in unit-square coordinates.

use std::cmp::Ordering;
use vstd::prelude::*;

use crate::model::settings::{
    COORD_ONE, MICRO_ADJUSTMENT_DELTA, MICRO_ADJUSTMENT_PROBABILITY, MOVE_POINT_MAX_DELTA,
    MOVE_POINT_PROBABILITY,
};
use crate::random::{happens, random_below, random_offset};

verus! {

/// A position on the canvas. Each coordinate is a fraction of
/// [`COORD_ONE`]: `0` is the left or top edge, `COORD_ONE` the right or
/// bottom edge.
#[derive(Clone, Copy, Debug, PartialEq, Eq, Structural)]
pub struct Point {
    pub x: u32,
    pub y: u32,
}

/// A shift along both axes.
#[derive(Clone, Copy, Debug, PartialEq, Eq, Structural)]
pub struct Shift {
    pub dx: i32,
    pub dy: i32,
}

/// What one mutation of a point does: a jump, a fine adjustment, both or
/// neither.
#[derive(Clone, Copy, Debug)]
pub struct PointMutation {
    pub jump: Option<Shift>,
    pub adjust: Option<Shift>,
}

/// The coordinate nearest to `value` inside `[0, COORD_ONE]`.
pub open spec fn clamp_coordinate(value: int) -> int {
    if value < 0 {
        0
    } else if value > COORD_ONE {
        COORD_ONE as int
    } else {
        value
    }
}

/// The distance between two coordinates.
pub open spec fn coordinate_distance(a: int, b: int) -> int {
    if a <= b {
        b - a
    } else {
        a - b
    }
}

fn clamp_to_unit(value: i64) -> (clamped: u32)
    ensures
        clamped == clamp_coordinate(value as int),
{
    if value < 0 {
        0
    } else if value > COORD_ONE as i64 {
        COORD_ONE
    } else {
        value as u32
    }
}

impl Shift {
    /// Neither component exceeds `magnitude` in either direction.
    pub open spec fn within(self, magnitude: int) -> bool {
        -magnitude <= self.dx <= magnitude && -magnitude <= self.dy <= magnitude
    }

    /// A shift drawn uniformly from the square of the given
    /// half-width.
    pub fn new_random(magnitude: u32) -> (shift: Shift)
        requires
            magnitude <= i32::MAX,
        ensures
            shift.within(magnitude as int),
    {
        let dx: i32 = random_offset(magnitude);
        let dy: i32 = random_offset(magnitude);
        Shift { dx, dy }
    }
}

/// A shift that is absent or within `magnitude`.
pub open spec fn shift_within(shift: Option<Shift>, magnitude: int) -> bool {
    shift matches Some(s) ==> s.within(magnitude)
}

impl PointMutation {
    /// The jump and the adjustment stay within their configured deltas.
    pub open spec fn wf(self) -> bool {
        shift_within(self.jump, MOVE_POINT_MAX_DELTA as int) && shift_within(
            self.adjust,
            MICRO_ADJUSTMENT_DELTA as int,
        )
    }

    /// Decides, each with its own probability, on a jump of at most
    /// [`MOVE_POINT_MAX_DELTA`] and on a fine adjustment of at most
    /// [`MICRO_ADJUSTMENT_DELTA`] along each axis.
    pub fn new_random() -> (mutation: PointMutation)
        ensures
            mutation.wf(),
    {
        let jump: Option<Shift> = if happens(MOVE_POINT_PROBABILITY) {
            Some(Shift::new_random(MOVE_POINT_MAX_DELTA))
        } else {
            None
        };
        let adjust: Option<Shift> = if happens(MICRO_ADJUSTMENT_PROBABILITY) {
            Some(Shift::new_random(MICRO_ADJUSTMENT_DELTA))
        } else {
            None
        };
        PointMutation { jump, adjust }
    }
}

impl Point {
    /// Both coordinates lie inside the unit square.
    pub open spec fn wf(&self) -> bool {
        self.x <= COORD_ONE && self.y <= COORD_ONE
    }

    /// The point moved by `(dx, dy)` and clamped to the unit square.
    pub open spec fn moved_by(self, dx: int, dy: int) -> Point {
        Point {
            x: clamp_coordinate(self.x + dx) as u32,
            y: clamp_coordinate(self.y + dy) as u32,
        }
    }

    /// The point after a shift that may be absent.
    pub open spec fn shifted(self, shift: Option<Shift>) -> Point {
        match shift {
            Some(s) => self.moved_by(s.dx as int, s.dy as int),
            None => self,
        }
    }

    /// The point after a mutation: the jump first, then the adjustment.
    pub open spec fn applied(self, mutation: PointMutation) -> Point {
        self.shifted(mutation.jump).shifted(mutation.adjust)
    }

    /// Both coordinates of `self` lie within `reach` of those of `other`.
    pub open spec fn within(self, other: Point, reach: int) -> bool {
        coordinate_distance(self.x as int, other.x as int) <= reach && coordinate_distance(
            self.y as int,
            other.y as int,
        ) <= reach
    }

    /// A point anywhere in the unit square.
    pub fn new_random() -> (point: Point)
        ensures
            point.wf(),
    {
        let x: usize = random_below(COORD_ONE as usize + 1);
        let y: usize = random_below(COORD_ONE as usize + 1);
        Point { x: x as u32, y: y as u32 }
    }

    /// Moves the point and clamps it to the unit square.
    pub fn offset(&mut self, x_offset: i32, y_offset: i32)
        ensures
            *final(self) == old(self).moved_by(x_offset as int, y_offset as int),
            final(self).wf(),
    {
        self.x = clamp_to_unit(self.x as i64 + x_offset as i64);
        self.y = clamp_to_unit(self.y as i64 + y_offset as i64);
    }

    /// Carries out a mutation: the jump, then the adjustment, each clamped
    /// to the unit square. Tells whether the point has changed.
    pub fn apply(&mut self, mutation: &PointMutation) -> (mutated: bool)
        ensures
            *final(self) == old(self).applied(*mutation),
            mutated == (*final(self) != *old(self)),
    {
        let before: Point = *self;
        match mutation.jump {
            Some(shift) => {
                self.offset(shift.dx, shift.dy);
            },
            None => {},
        }
        match mutation.adjust {
            Some(shift) => {
                self.offset(shift.dx, shift.dy);
            },
            None => {},
        }
        self.x != before.x || self.y != before.y
    }

    /// Draws a mutation and carries it out. Tells whether the point has
    /// changed.
    pub fn mutate(&mut self) -> (mutated: bool)
        ensures
            exists|mutation: PointMutation|
                mutation.wf() && #[trigger] old(self).applied(mutation) == *final(self),
            mutated == (*final(self) != *old(self)),
            mutated ==> final(self).wf(),
            old(self).wf() ==> final(self).wf(),
            old(self).wf() ==> final(self).within(
                *old(self),
                MOVE_POINT_MAX_DELTA + MICRO_ADJUSTMENT_DELTA,
            ),
    {
        let mutation: PointMutation = PointMutation::new_random();
        self.apply(&mutation)
    }

    /// Orders two points: `Less` where either coordinate of `self` is below
    /// that of `other`, `Equal` otherwise.
    pub fn cmp(&self, other: &Point) -> (order: Ordering)
        ensures
            (self.x < other.x || self.y < other.y) ==> order == Ordering::Less,
            !(self.x < other.x || self.y < other.y) ==> order == Ordering::Equal,
    {
        if self.x < other.x {
            return Ordering::Less;
        }
        if self.y < other.y {
            return Ordering::Less;
        }
        Ordering::Equal
    }
}

/// A mutation keeps a point of the unit square inside it, moves it no
/// further than the two deltas together, and leaves no point outside the
/// unit square that it has changed.
pub proof fn lemma_point_applied(point: Point, mutation: PointMutation)
    requires
        mutation.wf(),
    ensures
        point.wf() ==> point.applied(mutation).wf(),
        point.applied(mutation) != point ==> point.applied(mutation).wf(),
        point.wf() ==> point.applied(mutation).within(
            point,
            MOVE_POINT_MAX_DELTA + MICRO_ADJUSTMENT_DELTA,
        ),
{
}

} // verus!
