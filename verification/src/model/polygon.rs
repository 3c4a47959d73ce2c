//! A translucent polygon: an ordered list of points and one color.

use vstd::prelude::*;

use crate::model::color::{lemma_color_applied, Color, ColorMutation};
use crate::model::point::{shift_within, Point, PointMutation, Shift};
use crate::model::settings::{
    MIN_POINTS_PER_POLYGON, NEW_POINT_MAX_DISTANCE, OFFSET_POLYGON_MAGNITUDE,
    OFFSET_POLYGON_PROBABILITY, REMOVE_POINT_PROBABILITY,
};
use crate::random::{happens, random_below, random_offset};

verus! {

/// A polygon of the drawing. The order of the points is the order in which
/// the rasterizer walks them.
#[derive(Debug)]
pub struct Polygon {
    pub points: Vec<Point>,
    pub color: Color,
}

/// What one mutation of a polygon does: a shift of the whole
/// polygon, the removal of the point at an index, a mutation of the color,
/// and a mutation for each of the points that are left, in order.
#[derive(Debug)]
pub struct PolygonMutation {
    pub offset: Option<Shift>,
    pub remove_point: Option<usize>,
    pub color: ColorMutation,
    pub points: Vec<PointMutation>,
}

/// The mathematical value of a [`Polygon`].
pub struct PolygonView {
    pub points: Seq<Point>,
    pub color: Color,
}

impl View for Polygon {
    type V = PolygonView;

    open spec fn view(&self) -> PolygonView {
        PolygonView { points: self.points@, color: self.color }
    }
}

impl PolygonView {
    /// The polygon has enough points, all of them inside the unit square,
    /// and a color whose alpha lies inside the window.
    pub open spec fn wf(self) -> bool {
        &&& self.points.len() >= MIN_POINTS_PER_POLYGON
        &&& self.color.wf()
        &&& forall|i: int| 0 <= i < self.points.len() ==> (#[trigger] self.points[i]).wf()
    }

    /// The polygon with every point moved by `(dx, dy)` and clamped; a
    /// polygon of fewer than three points is left as it is.
    pub open spec fn offset_by(self, dx: int, dy: int) -> PolygonView {
        if self.points.len() < 3 {
            self
        } else {
            PolygonView {
                points: Seq::new(self.points.len(), |i: int| self.points[i].moved_by(dx, dy)),
                color: self.color,
            }
        }
    }

    /// The polygon is a well-formed triangle whose corners all lie within
    /// [`NEW_POINT_MAX_DISTANCE`] of one origin inside the unit square.
    pub open spec fn seeded(self) -> bool {
        &&& self.wf()
        &&& self.points.len() == 3
        &&& exists|origin: Point|
            origin.wf() && forall|i: int|
                0 <= i < 3 ==> (#[trigger] self.points[i]).within(
                    origin,
                    NEW_POINT_MAX_DISTANCE as int,
                )
    }

    /// A point may be removed: the count would stay above the minimum.
    pub open spec fn can_remove_point(self) -> bool {
        self.points.len() - 1 > MIN_POINTS_PER_POLYGON
    }

    /// The polygon without the point at `index`.
    pub open spec fn without_point(self, index: int) -> PolygonView {
        PolygonView { points: self.points.remove(index), color: self.color }
    }

    /// The polygon after a shift that may be absent.
    pub open spec fn offset_with(self, shift: Option<Shift>) -> PolygonView {
        match shift {
            Some(s) => self.offset_by(s.dx as int, s.dy as int),
            None => self,
        }
    }

    /// The polygon after the removal of a point that may be absent; an
    /// index past the end removes nothing, nor does any index where the
    /// point count would fall to the minimum.
    pub open spec fn removed_with(self, index: Option<usize>) -> PolygonView {
        match index {
            Some(i) => if self.can_remove_point() && i < self.points.len() {
                self.without_point(i as int)
            } else {
                self
            },
            None => self,
        }
    }

    /// The polygon after a mutation of its color.
    pub open spec fn recolored(self, mutation: ColorMutation) -> PolygonView {
        PolygonView { points: self.points, color: self.color.applied(mutation) }
    }

    /// The polygon after each point took the mutation at its index; points
    /// past the end of the mutations are left as they are.
    pub open spec fn with_points_applied(self, mutations: Seq<PointMutation>) -> PolygonView {
        PolygonView {
            points: Seq::new(
                self.points.len(),
                |i: int|
                    if i < mutations.len() {
                        self.points[i].applied(mutations[i])
                    } else {
                        self.points[i]
                    },
            ),
            color: self.color,
        }
    }

    /// The polygon after a mutation: the shift, then the removal,
    /// then the color, then the points.
    pub open spec fn applied(self, mutation: PolygonMutation) -> PolygonView {
        self.offset_with(mutation.offset).removed_with(mutation.remove_point).recolored(
            mutation.color,
        ).with_points_applied(mutation.points@)
    }

    /// Whether any step of a mutation alters the polygon that it finds.
    pub open spec fn changed_by(self, mutation: PolygonMutation) -> bool {
        let offset = self.offset_with(mutation.offset);
        let removed = offset.removed_with(mutation.remove_point);
        let recolored = removed.recolored(mutation.color);
        let moved = recolored.with_points_applied(mutation.points@);
        offset != self || removed != offset || recolored != removed || moved != recolored
    }
}

impl PolygonMutation {
    /// The shift and the mutations of the points stay within their
    /// configured magnitudes.
    pub open spec fn wf(self) -> bool {
        &&& shift_within(self.offset, OFFSET_POLYGON_MAGNITUDE as int)
        &&& forall|i: int| 0 <= i < self.points@.len() ==> (#[trigger] self.points@[i]).wf()
    }

    /// Decides, each with its own probability, on a shift of at most
    /// [`OFFSET_POLYGON_MAGNITUDE`] along each axis and on the removal of
    /// one of `num_points` points, chosen uniformly; and draws a mutation
    /// of the color and one of each point.
    pub fn new_random(num_points: usize) -> (mutation: PolygonMutation)
        ensures
            mutation.wf(),
            mutation.points@.len() == num_points,
            mutation.remove_point matches Some(index) ==> index < num_points,
    {
        let offset: Option<Shift> = if happens(OFFSET_POLYGON_PROBABILITY) {
            Some(Shift::new_random(OFFSET_POLYGON_MAGNITUDE))
        } else {
            None
        };
        let remove_point: Option<usize> = if num_points > 0 && happens(REMOVE_POINT_PROBABILITY) {
            Some(random_below(num_points))
        } else {
            None
        };
        let color: ColorMutation = ColorMutation::new_random();
        let mut points: Vec<PointMutation> = Vec::new();
        let mut i: usize = 0;
        while i < num_points
            invariant
                i <= num_points,
                points@.len() == i,
                forall|j: int| 0 <= j < i ==> (#[trigger] points@[j]).wf(),
            decreases num_points - i,
        {
            points.push(PointMutation::new_random());
            i += 1;
        }
        PolygonMutation { offset, remove_point, color, points }
    }
}

/// A mutation keeps a well-formed polygon well formed, takes away at most
/// one point and adds none, and leaves the polygon as it is where no step
/// alters it.
pub proof fn lemma_polygon_applied(polygon: PolygonView, mutation: PolygonMutation)
    ensures
        polygon.wf() ==> polygon.applied(mutation).wf(),
        !polygon.changed_by(mutation) ==> polygon.applied(mutation) == polygon,
        polygon.applied(mutation).points.len() == polygon.points.len() || (
        polygon.can_remove_point() && polygon.applied(mutation).points.len()
            == polygon.points.len() - 1),
{
    let offset = polygon.offset_with(mutation.offset);
    let removed = offset.removed_with(mutation.remove_point);
    let recolored = removed.recolored(mutation.color);
    let moved = recolored.with_points_applied(mutation.points@);
    assert(offset.points.len() == polygon.points.len());
    if polygon.wf() {
        assert(offset.wf());
        assert(removed.wf());
        lemma_color_applied(removed.color, mutation.color);
        assert(recolored.wf());
        assert forall|i: int| 0 <= i < moved.points.len() implies (#[trigger] moved.points[i]).wf() by {
            assert(recolored.points[i].wf());
        }
    }
}

impl Clone for Polygon {
    fn clone(&self) -> (copy: Self)
        ensures
            copy@ == self@,
    {
        let mut points: Vec<Point> = Vec::new();
        let mut i: usize = 0;
        while i < self.points.len()
            invariant
                i <= self.points@.len(),
                points@ == self.points@.subrange(0, i as int),
            decreases self.points@.len() - i,
        {
            points.push(self.points[i]);
            assert(points@ =~= self.points@.subrange(0, i + 1));
            i += 1;
        }
        assert(points@ =~= self.points@);
        Polygon { points, color: self.color }
    }
}

impl Polygon {
    /// See [`PolygonView::wf`].
    pub open spec fn wf(&self) -> bool {
        self@.wf()
    }

    /// The number of points.
    pub fn num_points(&self) -> (count: usize)
        ensures
            count == self@.points.len(),
    {
        self.points.len()
    }

    /// A triangle whose corners lie within [`NEW_POINT_MAX_DISTANCE`] of a
    /// random origin, in a random color.
    pub fn new_random() -> (polygon: Polygon)
        ensures
            polygon@.seeded(),
    {
        let origin: Point = Point::new_random();
        let mut points: Vec<Point> = Vec::new();
        let mut i: usize = 0;
        while i < 3
            invariant
                i <= 3,
                origin.wf(),
                points@.len() == i,
                forall|j: int|
                    0 <= j < i ==> (#[trigger] points@[j]).wf() && points@[j].within(
                        origin,
                        NEW_POINT_MAX_DISTANCE as int,
                    ),
            decreases 3 - i,
        {
            let dx: i32 = random_offset(NEW_POINT_MAX_DISTANCE);
            let dy: i32 = random_offset(NEW_POINT_MAX_DISTANCE);
            let mut point: Point = origin;
            point.offset(dx, dy);
            points.push(point);
            i += 1;
        }
        Polygon { points, color: Color::new_random() }
    }

    /// Moves every point by `(dx, dy)`, clamping each to the unit
    /// square; does nothing to a polygon of fewer than three points. Tells
    /// whether the polygon has changed.
    pub fn offset_by(&mut self, dx: i32, dy: i32) -> (changed: bool)
        ensures
            final(self)@ == old(self)@.offset_by(dx as int, dy as int),
            changed == (final(self)@ != old(self)@),
    {
        let n: usize = self.points.len();
        if n < 3 {
            return false;
        }
        let mut changed: bool = false;
        let ghost mut witness: int = 0;
        let mut i: usize = 0;
        while i < n
            invariant
                i <= n,
                n == self.points@.len(),
                n == old(self).points@.len(),
                self.color == old(self).color,
                forall|j: int|
                    0 <= j < i ==> #[trigger] self.points@[j] == old(self).points@[j].moved_by(
                        dx as int,
                        dy as int,
                    ),
                forall|j: int| i <= j < n ==> #[trigger] self.points@[j] == old(self).points@[j],
                !changed ==> forall|j: int|
                    0 <= j < i ==> #[trigger] self.points@[j] == old(self).points@[j],
                changed ==> 0 <= witness < i && self.points@[witness] != old(self).points@[witness],
            decreases n - i,
        {
            let before: Point = self.points[i];
            self.points[i].offset(dx, dy);
            if self.points[i].x != before.x || self.points[i].y != before.y {
                changed = true;
                proof {
                    witness = i as int;
                }
            }
            i += 1;
        }
        assert(self@.points =~= old(self)@.offset_by(dx as int, dy as int).points);
        assert(!changed ==> self@.points =~= old(self)@.points);
        changed
    }

    /// Moves the polygon by a random offset of at most
    /// [`OFFSET_POLYGON_MAGNITUDE`] along each axis. Tells whether the
    /// polygon has changed.
    pub fn offset_polygon(&mut self) -> (changed: bool)
        ensures
            exists|dx: int, dy: int|
                -OFFSET_POLYGON_MAGNITUDE <= dx <= OFFSET_POLYGON_MAGNITUDE
                    && -OFFSET_POLYGON_MAGNITUDE <= dy <= OFFSET_POLYGON_MAGNITUDE
                    && #[trigger] old(self)@.offset_by(dx, dy) == final(self)@,
            changed == (final(self)@ != old(self)@),
    {
        let x_offset: i32 = random_offset(OFFSET_POLYGON_MAGNITUDE);
        let y_offset: i32 = random_offset(OFFSET_POLYGON_MAGNITUDE);
        self.offset_by(x_offset, y_offset)
    }

    /// Removes the point at `index`, unless the index is out of range or
    /// the point count would fall to the minimum. Tells whether a point was
    /// removed.
    pub fn remove_point_at(&mut self, index: usize) -> (removed: bool)
        ensures
            removed == (old(self)@.can_remove_point() && index < old(self)@.points.len()),
            removed ==> final(self)@ == old(self)@.without_point(index as int),
            !removed ==> final(self)@ == old(self)@,
    {
        let n: usize = self.points.len();
        if n <= MIN_POINTS_PER_POLYGON + 1 || index >= n {
            return false;
        }
        self.points.remove(index);
        true
    }

    /// Removes one point chosen at random, unless the point count would
    /// fall to the minimum. Tells whether a point was removed.
    pub fn remove_point(&mut self) -> (removed: bool)
        ensures
            removed == old(self)@.can_remove_point(),
            removed ==> exists|index: int|
                0 <= index < old(self)@.points.len() && #[trigger] old(self)@.without_point(index)
                    == final(self)@,
            !removed ==> final(self)@ == old(self)@,
    {
        let n: usize = self.points.len();
        if n <= MIN_POINTS_PER_POLYGON + 1 {
            return false;
        }
        let index: usize = random_below(n);
        self.remove_point_at(index)
    }

    fn offset_with(&mut self, shift: Option<Shift>) -> (changed: bool)
        ensures
            final(self)@ == old(self)@.offset_with(shift),
            changed == (final(self)@ != old(self)@),
    {
        match shift {
            Some(s) => self.offset_by(s.dx, s.dy),
            None => false,
        }
    }

    fn remove_with(&mut self, index: Option<usize>) -> (changed: bool)
        ensures
            final(self)@ == old(self)@.removed_with(index),
            changed == (final(self)@ != old(self)@),
    {
        match index {
            Some(i) => {
                let removed: bool = self.remove_point_at(i);
                proof {
                    if removed {
                        assert(self@.points.len() != old(self)@.points.len());
                    }
                }
                removed
            },
            None => false,
        }
    }

    fn recolor(&mut self, mutation: &ColorMutation) -> (changed: bool)
        ensures
            final(self)@ == old(self)@.recolored(*mutation),
            changed == (final(self)@ != old(self)@),
    {
        self.color.apply(mutation)
    }

    fn apply_to_points(&mut self, mutations: &Vec<PointMutation>) -> (changed: bool)
        ensures
            final(self)@ == old(self)@.with_points_applied(mutations@),
            changed == (final(self)@ != old(self)@),
    {
        let n: usize = self.points.len();
        let mut changed: bool = false;
        let ghost mut witness: int = 0;
        let mut i: usize = 0;
        while i < n && i < mutations.len()
            invariant
                i <= n,
                i <= mutations@.len(),
                n == self.points@.len(),
                n == old(self).points@.len(),
                self.color == old(self).color,
                forall|j: int|
                    0 <= j < i ==> #[trigger] self.points@[j] == old(self).points@[j].applied(
                        mutations@[j],
                    ),
                forall|j: int| i <= j < n ==> #[trigger] self.points@[j] == old(self).points@[j],
                !changed ==> forall|j: int|
                    0 <= j < i ==> #[trigger] self.points@[j] == old(self).points@[j],
                changed ==> 0 <= witness < i && self.points@[witness] != old(self).points@[witness],
            decreases n - i,
        {
            if self.points[i].apply(&mutations[i]) {
                changed = true;
                proof {
                    witness = i as int;
                }
            }
            i += 1;
        }
        assert(self@.points =~= old(self)@.with_points_applied(mutations@).points);
        assert(!changed ==> self@.points =~= old(self)@.points);
        changed
    }

    /// Carries out a mutation: the shift, then the removal, then the
    /// color, then the points. Tells whether any of these steps altered the
    /// polygon.
    pub fn apply(&mut self, mutation: &PolygonMutation) -> (mutated: bool)
        ensures
            final(self)@ == old(self)@.applied(*mutation),
            mutated == old(self)@.changed_by(*mutation),
    {
        let offset: bool = self.offset_with(mutation.offset);
        let removed: bool = self.remove_with(mutation.remove_point);
        let recolored: bool = self.recolor(&mutation.color);
        let moved: bool = self.apply_to_points(&mutation.points);
        offset || removed || recolored || moved
    }

    /// Draws a mutation for the polygon and carries it out. Tells whether
    /// any step of it altered the polygon.
    pub fn mutate(&mut self) -> (mutated: bool)
        ensures
            exists|mutation: PolygonMutation|
                mutation.wf() && mutation.points@.len() == old(self)@.points.len()
                    && #[trigger] old(self)@.applied(mutation) == final(self)@ && mutated == old(
                    self,
                )@.changed_by(mutation),
            !mutated ==> final(self)@ == old(self)@,
            old(self).wf() ==> final(self).wf(),
            final(self)@.points.len() == old(self)@.points.len() || (old(self)@.can_remove_point()
                && final(self)@.points.len() == old(self)@.points.len() - 1),
    {
        let mutation: PolygonMutation = PolygonMutation::new_random(self.points.len());
        proof {
            lemma_polygon_applied(self@, mutation);
        }
        self.apply(&mutation)
    }
}

} // verus!
