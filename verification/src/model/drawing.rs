//! The candidate drawing: polygons in painter's order, a dirty flag and the
//! fitness of the last evaluation.

use vstd::prelude::*;

use crate::model::color::Color;
use crate::model::point::Point;
use crate::model::polygon::{lemma_polygon_applied, Polygon, PolygonMutation, PolygonView};
use crate::model::settings::{
    ADD_POLYGON_PROB, COORD_ONE, MAX_ALPHA, MAX_POLYGONS_PER_IMAGE, MIN_ALPHA,
    MIN_POINTS_PER_POLYGON, MIN_POLYGONS_PER_IMAGE, REMOVE_POLYGON_PROB, REORDER_POLYGON_PROB,
    START_WITH_POLYGONS_PER_IMAGE,
};
use crate::random::{happens, random_below};
use crate::vertex::Vertex;

verus! {

/// A candidate drawing. Later polygons are painted over earlier ones.
/// `fitness` is the score of the last evaluation, in units of `10^-12`;
/// higher is better.
#[derive(Debug)]
pub struct Drawing {
    pub polygons: Vec<Polygon>,
    pub is_dirty: bool,
    pub fitness: i128,
}

/// A polygon to insert before the position `index`.
#[derive(Debug)]
pub struct Insertion {
    pub index: usize,
    pub polygon: Polygon,
}

/// Two positions whose polygons are to change places.
#[derive(Clone, Copy, Debug, PartialEq, Eq, Structural)]
pub struct Exchange {
    pub first: usize,
    pub second: usize,
}

/// What one mutation pass does to the list of polygons: an insertion, the
/// removal of the polygon at an index, and the exchange of the polygons at
/// two positions, each of which may be absent.
#[derive(Debug)]
pub struct StructuralMutation {
    pub add: Option<Insertion>,
    pub remove: Option<usize>,
    pub reorder: Option<Exchange>,
}

/// What one mutation pass does: the changes to the list of polygons, then
/// a mutation for each polygon of the list, in order.
#[derive(Debug)]
pub struct DrawingMutation {
    pub structure: StructuralMutation,
    pub polygons: Vec<PolygonMutation>,
}

/// Why a drawing received from outside is not accepted.
#[derive(Clone, Copy, Debug, PartialEq, Eq, Structural)]
pub enum DrawingError {
    /// The drawing has fewer polygons than the minimum.
    TooFewPolygons,
    /// The drawing has more polygons than the maximum.
    TooManyPolygons,
    /// The polygon at this position has fewer points than the minimum.
    TooFewPoints { polygon: usize },
    /// The alpha of the polygon at this position lies outside the window.
    AlphaOutOfRange { polygon: usize },
    /// A coordinate of this point of this polygon lies outside the unit
    /// square.
    PointOutsideCanvas { polygon: usize, point: usize },
}

impl DrawingError {
    /// The text of [`DrawingError::message`].
    pub open spec fn description(self) -> &'static str {
        match self {
            DrawingError::TooFewPolygons => "the drawing has too few polygons",
            DrawingError::TooManyPolygons => "the drawing has too many polygons",
            DrawingError::TooFewPoints { .. } => "a polygon has too few points",
            DrawingError::AlphaOutOfRange { .. } => "the alpha of a polygon is out of range",
            DrawingError::PointOutsideCanvas { .. } => "a point lies outside the unit square",
        }
    }

    /// A sentence that says what is wrong with the drawing.
    pub fn message(&self) -> (text: String)
        ensures
            text@ == self.description()@,
    {
        match self {
            DrawingError::TooFewPolygons => "the drawing has too few polygons".to_owned(),
            DrawingError::TooManyPolygons => "the drawing has too many polygons".to_owned(),
            DrawingError::TooFewPoints { .. } => "a polygon has too few points".to_owned(),
            DrawingError::AlphaOutOfRange { .. } => "the alpha of a polygon is out of range".to_owned(),
            DrawingError::PointOutsideCanvas { .. } => "a point lies outside the unit square".to_owned(),
        }
    }
}

/// The mathematical value of a [`Drawing`].
pub struct DrawingView {
    pub polygons: Seq<PolygonView>,
    pub is_dirty: bool,
    pub fitness: int,
}

/// The values of a list of polygons.
pub open spec fn polygon_views(polygons: Seq<Polygon>) -> Seq<PolygonView> {
    Seq::new(polygons.len(), |i: int| polygons[i]@)
}

/// The number of points of a list of polygons.
pub open spec fn total_points(polygons: Seq<PolygonView>) -> nat
    decreases polygons.len(),
{
    if polygons.len() == 0 {
        0
    } else {
        total_points(polygons.drop_last()) + polygons.last().points.len()
    }
}

/// Every point of a list of polygons, each with the color of its polygon,
/// in the order of the polygons and of their points.
pub open spec fn colored_points(polygons: Seq<PolygonView>) -> Seq<(Point, Color)>
    decreases polygons.len(),
{
    if polygons.len() == 0 {
        Seq::empty()
    } else {
        colored_points(polygons.drop_last()) + Seq::new(
            polygons.last().points.len(),
            |i: int| (polygons.last().points[i], polygons.last().color),
        )
    }
}

/// The first `n` polygons have no more points than the whole list.
pub proof fn lemma_total_points_prefix(polygons: Seq<PolygonView>, n: int)
    requires
        0 <= n <= polygons.len(),
    ensures
        total_points(polygons.take(n)) <= total_points(polygons),
    decreases polygons.len(),
{
    if n == polygons.len() {
        assert(polygons.take(n) =~= polygons);
    } else {
        lemma_total_points_prefix(polygons.drop_last(), n);
        assert(polygons.drop_last().take(n) =~= polygons.take(n));
    }
}

/// The stream of colored points has one entry for each point.
pub proof fn lemma_colored_points_len(polygons: Seq<PolygonView>)
    ensures
        colored_points(polygons).len() == total_points(polygons),
    decreases polygons.len(),
{
    if polygons.len() > 0 {
        lemma_colored_points_len(polygons.drop_last());
    }
}

/// Every polygon of the list is well formed.
pub open spec fn all_wf(polygons: Seq<PolygonView>) -> bool {
    forall|i: int| 0 <= i < polygons.len() ==> (#[trigger] polygons[i]).wf()
}

/// Inserting a well-formed polygon adds one to the count and keeps the
/// polygons well formed.
pub proof fn lemma_with_polygon(drawing: DrawingView, index: int, polygon: PolygonView)
    requires
        0 <= index <= drawing.polygons.len(),
    ensures
        drawing.with_polygon(index, polygon).polygons.len() == drawing.polygons.len() + 1,
        all_wf(drawing.polygons) && polygon.wf() ==> all_wf(
            drawing.with_polygon(index, polygon).polygons,
        ),
{
}

/// Removing a polygon takes one from the count and keeps the polygons well
/// formed.
pub proof fn lemma_without_polygon(drawing: DrawingView, index: int)
    requires
        0 <= index < drawing.polygons.len(),
    ensures
        drawing.without_polygon(index).polygons.len() == drawing.polygons.len() - 1,
        all_wf(drawing.polygons) ==> all_wf(drawing.without_polygon(index).polygons),
{
}

/// Exchanging two polygons keeps the count and keeps the polygons well
/// formed.
pub proof fn lemma_with_swapped(drawing: DrawingView, first: int, second: int)
    requires
        0 <= first < drawing.polygons.len(),
        0 <= second < drawing.polygons.len(),
    ensures
        drawing.with_swapped(first, second).polygons.len() == drawing.polygons.len(),
        all_wf(drawing.polygons) ==> all_wf(drawing.with_swapped(first, second).polygons),
{
}

impl View for Drawing {
    type V = DrawingView;

    open spec fn view(&self) -> DrawingView {
        DrawingView {
            polygons: polygon_views(self.polygons@),
            is_dirty: self.is_dirty,
            fitness: self.fitness as int,
        }
    }
}

impl DrawingView {
    /// The polygon count lies inside the configured bounds and every
    /// polygon is well formed.
    pub open spec fn wf(self) -> bool {
        &&& MIN_POLYGONS_PER_IMAGE <= self.polygons.len() <= MAX_POLYGONS_PER_IMAGE
        &&& all_wf(self.polygons)
    }

    /// The number of points of all polygons together.
    pub open spec fn num_points(self) -> nat {
        total_points(self.polygons)
    }

    /// A polygon may be added: the drawing is below its maximum.
    pub open spec fn can_add_polygon(self) -> bool {
        self.polygons.len() < MAX_POLYGONS_PER_IMAGE
    }

    /// A polygon may be removed: the drawing is not empty and above its
    /// minimum.
    pub open spec fn can_remove_polygon(self) -> bool {
        self.polygons.len() >= 1 && self.polygons.len() > MIN_POLYGONS_PER_IMAGE
    }

    /// Two polygons may change places: there are at least two.
    pub open spec fn can_reorder_polygons(self) -> bool {
        self.polygons.len() >= 2
    }

    /// The drawing with `polygon` inserted before position `index`.
    pub open spec fn with_polygon(self, index: int, polygon: PolygonView) -> DrawingView {
        DrawingView { polygons: self.polygons.insert(index, polygon), ..self }
    }

    /// The drawing without the polygon at `index`.
    pub open spec fn without_polygon(self, index: int) -> DrawingView {
        DrawingView { polygons: self.polygons.remove(index), ..self }
    }

    /// The drawing with the polygons at `first` and `second` exchanged.
    pub open spec fn with_swapped(self, first: int, second: int) -> DrawingView {
        DrawingView {
            polygons: self.polygons.update(first, self.polygons[second]).update(
                second,
                self.polygons[first],
            ),
            ..self
        }
    }

    /// The drawing with its dirty flag replaced.
    pub open spec fn with_dirty(self, is_dirty: bool) -> DrawingView {
        DrawingView { is_dirty, ..self }
    }

    /// The drawing with its fitness replaced.
    pub open spec fn with_fitness(self, fitness: int) -> DrawingView {
        DrawingView { fitness, ..self }
    }

    /// What holds of a drawing after one mutation pass over `origin`,
    /// whatever was drawn: a well-formed drawing stays well formed, the
    /// polygon count moves by at most one, the fitness is kept, a raised
    /// dirty flag stays raised, and a drawing whose flag is not raised is
    /// the origin itself.
    pub open spec fn mutation_of(self, origin: DrawingView) -> bool {
        &&& origin.wf() ==> self.wf()
        &&& origin.polygons.len() - 1 <= self.polygons.len() <= origin.polygons.len() + 1
        &&& self.fitness == origin.fitness
        &&& origin.is_dirty ==> self.is_dirty
        &&& !self.is_dirty ==> self == origin
    }

    /// The drawing after an insertion that may be absent; nothing is
    /// inserted at the maximum, nor past the end.
    pub open spec fn added_with(self, add: Option<Insertion>) -> DrawingView {
        match add {
            Some(insertion) => if self.can_add_polygon() && insertion.index
                <= self.polygons.len() {
                self.with_polygon(insertion.index as int, insertion.polygon@)
            } else {
                self
            },
            None => self,
        }
    }

    /// The drawing after a removal that may be absent; nothing is removed
    /// from an empty drawing, at the minimum, nor past the end.
    pub open spec fn removed_with(self, index: Option<usize>) -> DrawingView {
        match index {
            Some(i) => if self.can_remove_polygon() && i < self.polygons.len() {
                self.without_polygon(i as int)
            } else {
                self
            },
            None => self,
        }
    }

    /// Whether an exchange, which may be absent, takes place: the two
    /// positions are distinct and inside the list.
    pub open spec fn swaps_with(self, swap: Option<Exchange>) -> bool {
        swap matches Some(pair) && pair.first != pair.second && pair.first < self.polygons.len()
            && pair.second < self.polygons.len()
    }

    /// The drawing after an exchange that may be absent.
    pub open spec fn reordered_with(self, swap: Option<Exchange>) -> DrawingView {
        if self.swaps_with(swap) {
            self.with_swapped(swap->0.first as int, swap->0.second as int)
        } else {
            self
        }
    }

    /// The drawing after the changes to its list of polygons: the
    /// insertion, then the removal, then the exchange.
    pub open spec fn restructured(self, structure: StructuralMutation) -> DrawingView {
        self.added_with(structure.add).removed_with(structure.remove).reordered_with(
            structure.reorder,
        )
    }

    /// Whether an insertion, a removal or an exchange takes place.
    pub open spec fn restructured_by(self, structure: StructuralMutation) -> bool {
        let added = self.added_with(structure.add);
        let removed = added.removed_with(structure.remove);
        added != self || removed != added || removed.swaps_with(structure.reorder)
    }

    /// The drawing after each polygon took the mutation at its index;
    /// polygons past the end of the mutations are left as they are.
    pub open spec fn with_polygons_applied(self, mutations: Seq<PolygonMutation>) -> DrawingView {
        DrawingView {
            polygons: Seq::new(
                self.polygons.len(),
                |i: int|
                    if i < mutations.len() {
                        self.polygons[i].applied(mutations[i])
                    } else {
                        self.polygons[i]
                    },
            ),
            ..self
        }
    }

    /// Whether the mutation at its index alters any polygon.
    pub open spec fn polygons_changed_by(self, mutations: Seq<PolygonMutation>) -> bool {
        exists|i: int|
            0 <= i < self.polygons.len() && i < mutations.len() && (
            #[trigger] self.polygons[i]).changed_by(mutations[i])
    }

    /// Whether any step of a mutation pass reports a change.
    pub open spec fn changed_by(self, mutation: DrawingMutation) -> bool {
        self.restructured_by(mutation.structure) || self.restructured(
            mutation.structure,
        ).polygons_changed_by(mutation.polygons@)
    }

    /// The drawing after a mutation pass: the list of polygons is changed,
    /// every polygon takes its mutation, and the dirty flag is raised
    /// where any step reported a change and is left as it was otherwise.
    pub open spec fn applied(self, mutation: DrawingMutation) -> DrawingView {
        self.restructured(mutation.structure).with_polygons_applied(mutation.polygons@).with_dirty(
            self.is_dirty || self.changed_by(mutation),
        )
    }

    /// One mutation pass that leaves nothing out leads from this drawing
    /// to `result`.
    pub open spec fn passes_to(self, result: DrawingView) -> bool {
        exists|mutation: DrawingMutation|
            mutation.wf() && mutation.covers(self) && #[trigger] self.applied(mutation) == result
    }

    /// `error` names the first fault of the drawing: the polygon count is
    /// looked at first, then the polygons in order, and of each polygon its
    /// point count, then its alpha, then its points in order.
    pub open spec fn rejected_with(self, error: DrawingError) -> bool {
        match error {
            DrawingError::TooFewPolygons => self.polygons.len() < MIN_POLYGONS_PER_IMAGE,
            DrawingError::TooManyPolygons => self.polygons.len() > MAX_POLYGONS_PER_IMAGE,
            DrawingError::TooFewPoints { polygon } => {
                &&& self.first_faulty_polygon(polygon as int)
                &&& self.polygons[polygon as int].points.len() < MIN_POINTS_PER_POLYGON
            },
            DrawingError::AlphaOutOfRange { polygon } => {
                &&& self.first_faulty_polygon(polygon as int)
                &&& self.polygons[polygon as int].points.len() >= MIN_POINTS_PER_POLYGON
                &&& !self.polygons[polygon as int].color.wf()
            },
            DrawingError::PointOutsideCanvas { polygon, point } => {
                &&& self.first_faulty_polygon(polygon as int)
                &&& self.polygons[polygon as int].points.len() >= MIN_POINTS_PER_POLYGON
                &&& self.polygons[polygon as int].color.wf()
                &&& 0 <= point < self.polygons[polygon as int].points.len()
                &&& !self.polygons[polygon as int].points[point as int].wf()
                &&& forall|k: int|
                    0 <= k < point ==> (#[trigger] self.polygons[polygon as int].points[k]).wf()
            },
        }
    }

    /// The polygon count is in bounds, the polygon at `index` is not well
    /// formed, and every polygon before it is.
    pub open spec fn first_faulty_polygon(self, index: int) -> bool {
        &&& MIN_POLYGONS_PER_IMAGE <= self.polygons.len() <= MAX_POLYGONS_PER_IMAGE
        &&& 0 <= index < self.polygons.len()
        &&& !self.polygons[index].wf()
        &&& forall|j: int| 0 <= j < index ==> (#[trigger] self.polygons[j]).wf()
    }
}

impl StructuralMutation {
    /// A polygon to insert is well formed.
    pub open spec fn wf(self) -> bool {
        self.add matches Some(insertion) ==> insertion.polygon.wf()
    }

    /// Every step that is present takes place in a drawing of
    /// `polygon_count` polygons: an insertion finds the drawing below its
    /// maximum, a removal finds it above its minimum and not empty, the
    /// positions lie inside the list as the steps before have left it, and
    /// the two positions of an exchange are distinct.
    pub open spec fn fits(self, polygon_count: int) -> bool {
        let grown = if self.add is Some {
            polygon_count + 1
        } else {
            polygon_count
        };
        let shrunk = if self.remove is Some {
            grown - 1
        } else {
            grown
        };
        &&& self.add matches Some(insertion) ==> polygon_count < MAX_POLYGONS_PER_IMAGE
            && insertion.index <= polygon_count
        &&& self.remove matches Some(index) ==> grown >= 1 && grown > MIN_POLYGONS_PER_IMAGE
            && index < grown
        &&& self.reorder matches Some(pair) ==> pair.first < shrunk && pair.second < shrunk
            && pair.first != pair.second
    }

    /// Decides, each with its own probability, on the insertion of a
    /// random polygon, on a removal and on an exchange, for a drawing of
    /// `polygon_count` polygons; every position is chosen uniformly among
    /// those that the step can take. A step that cannot take place is left
    /// out: an insertion at the maximum, a removal at the minimum or from
    /// an empty drawing, an exchange among fewer than two polygons. A
    /// polygon to insert is a fresh random triangle.
    pub fn new_random(polygon_count: usize) -> (structure: StructuralMutation)
        ensures
            structure.wf(),
            structure.fits(polygon_count as int),
            structure.add matches Some(insertion) ==> insertion.polygon@.seeded(),
    {
        let mut count: usize = polygon_count;
        let add: Option<Insertion> = if count < MAX_POLYGONS_PER_IMAGE && happens(
            ADD_POLYGON_PROB,
        ) {
            let polygon: Polygon = Polygon::new_random();
            let index: usize = random_below(count + 1);
            count = count + 1;
            Some(Insertion { index, polygon })
        } else {
            None
        };
        let remove: Option<usize> = if count >= 1 && count > MIN_POLYGONS_PER_IMAGE && happens(
            REMOVE_POLYGON_PROB,
        ) {
            let index: usize = random_below(count);
            count = count - 1;
            Some(index)
        } else {
            None
        };
        let reorder: Option<Exchange> = if count >= 2 && happens(REORDER_POLYGON_PROB) {
            let first: usize = random_below(count);
            let rest: usize = random_below(count - 1);
            Some(Exchange::from_draws(first, rest))
        } else {
            None
        };
        StructuralMutation { add, remove, reorder }
    }
}

impl Exchange {
    /// The second position that a draw among the positions other than
    /// `first` stands for: the draw itself below `first`, and the position
    /// after it from `first` on, so that `first` is skipped.
    pub open spec fn skipping(first: int, rest: int) -> int {
        if rest >= first {
            rest + 1
        } else {
            rest
        }
    }

    /// The exchange of two distinct positions that two draws stand for:
    /// `first` is the first position, and `rest`, a draw among the other
    /// positions, gives the second.
    pub fn from_draws(first: usize, rest: usize) -> (exchange: Exchange)
        requires
            rest < usize::MAX,
        ensures
            exchange.first == first,
            exchange.second == Exchange::skipping(first as int, rest as int),
            exchange.first != exchange.second,
    {
        let second: usize = if rest >= first {
            rest + 1
        } else {
            rest
        };
        Exchange { first, second }
    }
}

impl DrawingMutation {
    /// A polygon to insert is well formed, and the mutations of the
    /// polygons stay within their configured magnitudes.
    pub open spec fn wf(self) -> bool {
        &&& self.structure.wf()
        &&& forall|i: int| 0 <= i < self.polygons@.len() ==> (#[trigger] self.polygons@[i]).wf()
    }

    /// The pass leaves nothing out of `drawing`: its structural steps fit
    /// the drawing, and there is a mutation for every polygon of the
    /// changed list and in it one for every point of that polygon.
    pub open spec fn covers(self, drawing: DrawingView) -> bool {
        let restructured = drawing.restructured(self.structure);
        &&& self.structure.fits(drawing.polygons.len() as int)
        &&& self.polygons@.len() == restructured.polygons.len()
        &&& forall|i: int|
            0 <= i < self.polygons@.len() ==> (#[trigger] self.polygons@[i]).points@.len()
                == restructured.polygons[i].points.len()
    }
}

/// A mutation pass keeps a well-formed drawing well formed, moves the
/// polygon count by at most one, keeps the fitness, never lowers the dirty
/// flag, and leaves a drawing whose flag it does not raise as it was.
pub proof fn lemma_drawing_applied(drawing: DrawingView, mutation: DrawingMutation)
    requires
        mutation.wf(),
    ensures
        drawing.applied(mutation).mutation_of(drawing),
{
    let added = drawing.added_with(mutation.structure.add);
    let removed = added.removed_with(mutation.structure.remove);
    let reordered = removed.reordered_with(mutation.structure.reorder);
    let moved = reordered.with_polygons_applied(mutation.polygons@);
    if added != drawing {
        lemma_with_polygon(
            drawing,
            mutation.structure.add->0.index as int,
            mutation.structure.add->0.polygon@,
        );
    }
    if removed != added {
        lemma_without_polygon(added, mutation.structure.remove->0 as int);
    }
    if removed.swaps_with(mutation.structure.reorder) {
        lemma_with_swapped(
            removed,
            mutation.structure.reorder->0.first as int,
            mutation.structure.reorder->0.second as int,
        );
    }
    assert forall|i: int| 0 <= i < moved.polygons.len() implies (reordered.polygons[i].wf()
        ==> (#[trigger] moved.polygons[i]).wf()) && (!reordered.polygons_changed_by(
        mutation.polygons@,
    ) ==> moved.polygons[i] == reordered.polygons[i]) by {
        if i < mutation.polygons@.len() {
            lemma_polygon_applied(reordered.polygons[i], mutation.polygons@[i]);
            if !reordered.polygons_changed_by(mutation.polygons@) {
                assert(!reordered.polygons[i].changed_by(mutation.polygons@[i]));
            }
        }
    }
    if drawing.wf() {
        assert(all_wf(reordered.polygons));
        assert forall|i: int| 0 <= i < moved.polygons.len() implies (#[trigger] moved.polygons[i]).wf() by {
            assert(reordered.polygons[i].wf());
        }
    }
    if !drawing.applied(mutation).is_dirty {
        assert(moved.polygons =~= reordered.polygons);
    }
}

/// Along any sequence of mutation passes that starts from a well-formed
/// drawing, every drawing keeps its polygon count inside the configured
/// bounds, and every polygon keeps at least the minimum of points.
pub proof fn lemma_mutations_keep_bounds(history: Seq<DrawingView>, step: int)
    requires
        0 <= step < history.len(),
        history[0].wf(),
        forall|i: int| 0 <= i < history.len() - 1 ==> (#[trigger] history[i]).passes_to(history[i + 1]),
    ensures
        history[step].wf(),
        MIN_POLYGONS_PER_IMAGE <= history[step].polygons.len() <= MAX_POLYGONS_PER_IMAGE,
        forall|j: int|
            0 <= j < history[step].polygons.len() ==> (
            #[trigger] history[step].polygons[j]).points.len() >= MIN_POINTS_PER_POLYGON,
    decreases step,
{
    if step > 0 {
        lemma_mutations_keep_bounds(history, step - 1);
        assert(history[step - 1].passes_to(history[step - 1 + 1]));
        let mutation = choose|mutation: DrawingMutation|
            mutation.wf() && mutation.covers(history[step - 1]) && #[trigger] history[step
                - 1].applied(mutation) == history[step];
        lemma_drawing_applied(history[step - 1], mutation);
    }
    assert forall|j: int| 0 <= j < history[step].polygons.len() implies (
    #[trigger] history[step].polygons[j]).points.len() >= MIN_POINTS_PER_POLYGON by {
        assert(history[step].polygons[j].wf());
    }
}

impl Clone for Drawing {
    fn clone(&self) -> (copy: Self)
        ensures
            copy@ == self@,
    {
        let mut polygons: Vec<Polygon> = Vec::new();
        let mut i: usize = 0;
        while i < self.polygons.len()
            invariant
                i <= self.polygons@.len(),
                polygons@.len() == i,
                forall|j: int| 0 <= j < i ==> (#[trigger] polygons@[j])@ == self.polygons@[j]@,
            decreases self.polygons@.len() - i,
        {
            polygons.push(self.polygons[i].clone());
            i += 1;
        }
        assert(polygon_views(polygons@) =~= polygon_views(self.polygons@));
        Drawing { polygons, is_dirty: self.is_dirty, fitness: self.fitness }
    }
}

impl Drawing {
    /// See [`DrawingView::wf`].
    pub open spec fn wf(&self) -> bool {
        self@.wf()
    }

    /// The number of points of all polygons together.
    pub fn num_points(&self) -> (count: usize)
        requires
            self@.num_points() <= usize::MAX,
        ensures
            count == self@.num_points(),
    {
        let mut count: usize = 0;
        let mut i: usize = 0;
        while i < self.polygons.len()
            invariant
                i <= self.polygons@.len(),
                count == total_points(self@.polygons.take(i as int)),
                self@.num_points() <= usize::MAX,
            decreases self.polygons@.len() - i,
        {
            proof {
                lemma_total_points_prefix(self@.polygons, i + 1);
                assert(self@.polygons.take(i + 1).drop_last() =~= self@.polygons.take(i as int));
            }
            count = count + self.polygons[i].num_points();
            i += 1;
        }
        assert(self@.polygons.take(i as int) =~= self@.polygons);
        count
    }

    /// The number of points of all polygons together, or `None` where it
    /// does not fit the machine word.
    pub fn checked_num_points(&self) -> (count: Option<usize>)
        ensures
            count is Some <==> self@.num_points() <= usize::MAX,
            count matches Some(n) ==> n == self@.num_points(),
    {
        let mut count: usize = 0;
        let mut i: usize = 0;
        while i < self.polygons.len()
            invariant
                i <= self.polygons@.len(),
                count == total_points(self@.polygons.take(i as int)),
            decreases self.polygons@.len() - i,
        {
            proof {
                lemma_total_points_prefix(self@.polygons, i + 1);
                assert(self@.polygons.take(i + 1).drop_last() =~= self@.polygons.take(i as int));
            }
            match count.checked_add(self.polygons[i].num_points()) {
                Some(sum) => {
                    count = sum;
                },
                None => {
                    return None;
                },
            }
            i += 1;
        }
        assert(self@.polygons.take(i as int) =~= self@.polygons);
        Some(count)
    }

    /// A drawing of [`START_WITH_POLYGONS_PER_IMAGE`] random triangles,
    /// marked dirty and not yet scored.
    pub fn new_random() -> (drawing: Drawing)
        ensures
            drawing.wf(),
            drawing@.polygons.len() == START_WITH_POLYGONS_PER_IMAGE,
            forall|i: int|
                0 <= i < drawing@.polygons.len() ==> (#[trigger] drawing@.polygons[i]).points.len()
                    == 3,
            drawing@.is_dirty,
            drawing@.fitness == 0,
    {
        let mut polygons: Vec<Polygon> = Vec::new();
        let mut i: usize = 0;
        while i < START_WITH_POLYGONS_PER_IMAGE
            invariant
                i <= START_WITH_POLYGONS_PER_IMAGE,
                polygons@.len() == i,
                forall|j: int|
                    0 <= j < i ==> (#[trigger] polygons@[j]).wf() && polygons@[j]@.points.len()
                        == 3,
            decreases START_WITH_POLYGONS_PER_IMAGE - i,
        {
            polygons.push(Polygon::new_random());
            i += 1;
        }
        let drawing = Drawing { polygons, is_dirty: true, fitness: 0 };
        assert forall|j: int| 0 <= j < drawing@.polygons.len() implies (
        #[trigger] drawing@.polygons[j]).wf() && drawing@.polygons[j].points.len() == 3 by {
            assert(drawing.polygons@[j].wf());
        }
        drawing
    }

    /// Inserts `polygon` before position `index`, unless the drawing is at
    /// its maximum or the index is past the end. Tells whether the polygon
    /// was inserted.
    pub fn insert_polygon(&mut self, index: usize, polygon: Polygon) -> (inserted: bool)
        ensures
            inserted == (old(self)@.can_add_polygon() && index <= old(self)@.polygons.len()),
            inserted ==> final(self)@ == old(self)@.with_polygon(index as int, polygon@),
            !inserted ==> final(self)@ == old(self)@,
    {
        if self.polygons.len() >= MAX_POLYGONS_PER_IMAGE || index > self.polygons.len() {
            return false;
        }
        self.polygons.insert(index, polygon);
        assert(self@.polygons =~= old(self)@.polygons.insert(index as int, polygon@));
        true
    }

    /// Inserts a random polygon at a random position, unless the drawing is
    /// at its maximum. Tells whether a polygon was added.
    pub fn add_polygon(&mut self) -> (added: bool)
        ensures
            added == old(self)@.can_add_polygon(),
            added ==> exists|index: int, polygon: PolygonView|
                0 <= index <= old(self)@.polygons.len() && polygon.wf() && #[trigger] old(
                    self,
                )@.with_polygon(index, polygon) == final(self)@,
            !added ==> final(self)@ == old(self)@,
    {
        if self.polygons.len() >= MAX_POLYGONS_PER_IMAGE {
            return false;
        }
        let polygon: Polygon = Polygon::new_random();
        let index: usize = random_below(self.polygons.len() + 1);
        self.insert_polygon(index, polygon)
    }

    /// Removes the polygon at `index`, unless the index is out of range or
    /// the drawing is empty or at its minimum. Tells whether a polygon was
    /// removed.
    pub fn remove_polygon_at(&mut self, index: usize) -> (removed: bool)
        ensures
            removed == (old(self)@.can_remove_polygon() && index < old(self)@.polygons.len()),
            removed ==> final(self)@ == old(self)@.without_polygon(index as int),
            !removed ==> final(self)@ == old(self)@,
    {
        if self.polygons.len() < 1 {
            return false;
        }
        if self.polygons.len() <= MIN_POLYGONS_PER_IMAGE || index >= self.polygons.len() {
            return false;
        }
        self.polygons.remove(index);
        assert(self@.polygons =~= old(self)@.polygons.remove(index as int));
        true
    }

    /// Removes one polygon chosen at random, unless the drawing is empty or
    /// at its minimum. Tells whether a polygon was removed.
    pub fn remove_polygon(&mut self) -> (removed: bool)
        ensures
            removed == old(self)@.can_remove_polygon(),
            removed ==> exists|index: int|
                0 <= index < old(self)@.polygons.len() && #[trigger] old(self)@.without_polygon(
                    index,
                ) == final(self)@,
            !removed ==> final(self)@ == old(self)@,
    {
        if self.polygons.len() < 1 {
            return false;
        }
        if self.polygons.len() <= MIN_POLYGONS_PER_IMAGE {
            return false;
        }
        let index: usize = random_below(self.polygons.len());
        self.remove_polygon_at(index)
    }

    /// Exchanges the polygons at two distinct positions; does nothing where
    /// the positions are equal or out of range. Tells whether the polygons
    /// were exchanged.
    pub fn swap_polygons(&mut self, first: usize, second: usize) -> (swapped: bool)
        ensures
            swapped == (first != second && first < old(self)@.polygons.len() && second < old(
                self,
            )@.polygons.len()),
            swapped ==> final(self)@ == old(self)@.with_swapped(first as int, second as int),
            !swapped ==> final(self)@ == old(self)@,
    {
        let n: usize = self.polygons.len();
        if first == second || first >= n || second >= n {
            return false;
        }
        let low: usize = if first < second { first } else { second };
        let high: usize = if first < second { second } else { first };
        let upper: Polygon = self.polygons.remove(high);
        let lower: Polygon = self.polygons.remove(low);
        self.polygons.insert(low, upper);
        self.polygons.insert(high, lower);
        assert(self.polygons@ =~= old(self).polygons@.update(
            first as int,
            old(self).polygons@[second as int],
        ).update(second as int, old(self).polygons@[first as int]));
        assert(self@.polygons =~= old(self)@.with_swapped(first as int, second as int).polygons);
        true
    }

    /// Exchanges two distinct polygons chosen at random, where there are at
    /// least two. Tells whether two polygons were exchanged.
    pub fn reorder_polygons(&mut self) -> (reordered: bool)
        ensures
            reordered == old(self)@.can_reorder_polygons(),
            reordered ==> exists|first: int, second: int|
                0 <= first < old(self)@.polygons.len() && 0 <= second < old(self)@.polygons.len()
                    && first != second && #[trigger] old(self)@.with_swapped(first, second)
                    == final(self)@,
            !reordered ==> final(self)@ == old(self)@,
    {
        let l: usize = self.polygons.len();
        if l < 2 {
            return false;
        }
        let i1: usize = random_below(l);
        let rest: usize = random_below(l - 1);
        let i2: usize = if rest >= i1 { rest + 1 } else { rest };
        self.swap_polygons(i1, i2)
    }

    fn add_with(&mut self, add: Option<Insertion>) -> (changed: bool)
        ensures
            final(self)@ == old(self)@.added_with(add),
            changed == (final(self)@ != old(self)@),
    {
        match add {
            Some(insertion) => {
                let inserted: bool = self.insert_polygon(insertion.index, insertion.polygon);
                proof {
                    if inserted {
                        lemma_with_polygon(
                            old(self)@,
                            insertion.index as int,
                            insertion.polygon@,
                        );
                    }
                }
                inserted
            },
            None => false,
        }
    }

    fn remove_with(&mut self, index: Option<usize>) -> (changed: bool)
        ensures
            final(self)@ == old(self)@.removed_with(index),
            changed == (final(self)@ != old(self)@),
    {
        match index {
            Some(i) => {
                let removed: bool = self.remove_polygon_at(i);
                proof {
                    if removed {
                        lemma_without_polygon(old(self)@, i as int);
                    }
                }
                removed
            },
            None => false,
        }
    }

    fn reorder_with(&mut self, swap: Option<Exchange>) -> (changed: bool)
        ensures
            final(self)@ == old(self)@.reordered_with(swap),
            changed == old(self)@.swaps_with(swap),
    {
        match swap {
            Some(pair) => self.swap_polygons(pair.first, pair.second),
            None => false,
        }
    }

    /// Changes the list of polygons: the insertion, then the removal, then
    /// the exchange, as far as each is present and can take place. Tells
    /// whether any of them took place. The dirty flag is left alone.
    pub fn restructure(&mut self, structure: StructuralMutation) -> (changed: bool)
        ensures
            final(self)@ == old(self)@.restructured(structure),
            changed == old(self)@.restructured_by(structure),
    {
        let added: bool = self.add_with(structure.add);
        let removed: bool = self.remove_with(structure.remove);
        let reordered: bool = self.reorder_with(structure.reorder);
        added || removed || reordered
    }

    /// Lets each polygon take the mutation at its index. Tells whether any
    /// polygon reported a change. The dirty flag is left alone.
    pub fn apply_to_polygons(&mut self, mutations: &Vec<PolygonMutation>) -> (changed: bool)
        ensures
            final(self)@ == old(self)@.with_polygons_applied(mutations@),
            changed == old(self)@.polygons_changed_by(mutations@),
    {
        let n: usize = self.polygons.len();
        let mut changed: bool = false;
        let ghost mut witness: int = 0;
        let mut i: usize = 0;
        while i < n && i < mutations.len()
            invariant
                i <= n,
                i <= mutations@.len(),
                n == self.polygons@.len(),
                n == old(self).polygons@.len(),
                self.is_dirty == old(self).is_dirty,
                self.fitness == old(self).fitness,
                forall|j: int|
                    0 <= j < i ==> (#[trigger] self.polygons@[j])@ == old(
                        self,
                    ).polygons@[j]@.applied(mutations@[j]),
                forall|j: int|
                    i <= j < n ==> #[trigger] self.polygons@[j] == old(self).polygons@[j],
                !changed ==> forall|j: int|
                    0 <= j < i ==> !(#[trigger] old(self)@.polygons[j]).changed_by(mutations@[j]),
                changed ==> 0 <= witness < i && old(self)@.polygons[witness].changed_by(
                    mutations@[witness],
                ),
            decreases n - i,
        {
            assert(old(self)@.polygons[i as int] == old(self).polygons@[i as int]@);
            if self.polygons[i].apply(&mutations[i]) {
                changed = true;
                proof {
                    witness = i as int;
                }
            }
            i += 1;
        }
        assert(self@.polygons =~= old(self)@.with_polygons_applied(mutations@).polygons);
        changed
    }

    /// Carries out a mutation pass: the changes to the list of polygons,
    /// then the mutation of each polygon. The dirty flag is raised where
    /// any step reported a change, and left as it was otherwise.
    pub fn apply(&mut self, mutation: DrawingMutation)
        ensures
            final(self)@ == old(self)@.applied(mutation),
    {
        let restructured: bool = self.restructure(mutation.structure);
        let internal_mutation_happened: bool = self.apply_to_polygons(&mutation.polygons);
        if restructured || internal_mutation_happened {
            self.is_dirty = true;
        }
    }

    /// Draws a mutation for every polygon of the drawing, with one for
    /// every point in it.
    fn draw_polygon_mutations(&self) -> (mutations: Vec<PolygonMutation>)
        ensures
            mutations@.len() == self@.polygons.len(),
            forall|i: int|
                0 <= i < mutations@.len() ==> (#[trigger] mutations@[i]).wf()
                    && mutations@[i].points@.len() == self@.polygons[i].points.len(),
    {
        let mut mutations: Vec<PolygonMutation> = Vec::new();
        let mut i: usize = 0;
        while i < self.polygons.len()
            invariant
                i <= self.polygons@.len(),
                mutations@.len() == i,
                forall|j: int|
                    0 <= j < i ==> (#[trigger] mutations@[j]).wf() && mutations@[j].points@.len()
                        == self@.polygons[j].points.len(),
            decreases self.polygons@.len() - i,
        {
            mutations.push(PolygonMutation::new_random(self.polygons[i].num_points()));
            i += 1;
        }
        mutations
    }

    /// One mutation pass: with their own probabilities a polygon is added,
    /// one is removed and two are exchanged; then every polygon mutates.
    /// The dirty flag is raised where any of these reported a change, and
    /// left as it was otherwise.
    pub fn mutate(&mut self)
        ensures
            old(self)@.passes_to(final(self)@),
            final(self)@.mutation_of(old(self)@),
    {
        let structure: StructuralMutation = StructuralMutation::new_random(self.polygons.len());
        let ghost steps = structure;
        let restructured: bool = self.restructure(structure);
        let polygons: Vec<PolygonMutation> = self.draw_polygon_mutations();
        let ghost mutation = DrawingMutation { structure: steps, polygons };
        let internal_mutation_happened: bool = self.apply_to_polygons(&polygons);
        if restructured || internal_mutation_happened {
            self.is_dirty = true;
        }
        proof {
            assert(mutation.wf());
            assert(mutation.covers(old(self)@));
            assert(old(self)@.applied(mutation) == self@);
            lemma_drawing_applied(old(self)@, mutation);
        }
    }

    /// Checks a drawing that came from outside: `Ok` exactly where it is
    /// well formed, and otherwise the first fault found.
    pub fn validate(&self) -> (result: Result<(), DrawingError>)
        ensures
            result is Ok <==> self.wf(),
            result matches Err(error) ==> self@.rejected_with(error),
    {
        let n: usize = self.polygons.len();
        if n < MIN_POLYGONS_PER_IMAGE {
            return Err(DrawingError::TooFewPolygons);
        }
        if n > MAX_POLYGONS_PER_IMAGE {
            return Err(DrawingError::TooManyPolygons);
        }
        let mut i: usize = 0;
        while i < n
            invariant
                i <= n,
                n == self.polygons@.len(),
                MIN_POLYGONS_PER_IMAGE <= n <= MAX_POLYGONS_PER_IMAGE,
                forall|j: int| 0 <= j < i ==> (#[trigger] self@.polygons[j]).wf(),
            decreases n - i,
        {
            let polygon: &Polygon = &self.polygons[i];
            assert(self@.polygons[i as int] == polygon@);
            let m: usize = polygon.points.len();
            if m < MIN_POINTS_PER_POLYGON {
                return Err(DrawingError::TooFewPoints { polygon: i });
            }
            if polygon.color.a < MIN_ALPHA || polygon.color.a > MAX_ALPHA {
                return Err(DrawingError::AlphaOutOfRange { polygon: i });
            }
            let mut k: usize = 0;
            while k < m
                invariant
                    k <= m,
                    m == polygon.points@.len(),
                    m >= MIN_POINTS_PER_POLYGON,
                    polygon.color.wf(),
                    i < n,
                    n == self.polygons@.len(),
                    MIN_POLYGONS_PER_IMAGE <= n <= MAX_POLYGONS_PER_IMAGE,
                    self@.polygons[i as int] == polygon@,
                    forall|j: int| 0 <= j < i ==> (#[trigger] self@.polygons[j]).wf(),
                    forall|l: int| 0 <= l < k ==> (#[trigger] polygon.points@[l]).wf(),
                decreases m - k,
            {
                if polygon.points[k].x > COORD_ONE || polygon.points[k].y > COORD_ONE {
                    assert(!polygon@.points[k as int].wf());
                    return Err(DrawingError::PointOutsideCanvas { polygon: i, point: k });
                }
                k += 1;
            }
            i += 1;
        }
        Ok(())
    }

    /// The vertex stream of the drawing: one vertex for each point of each
    /// polygon, in order, each in the flat color of its polygon.
    pub fn to_vertices(&self) -> (vertices: Vec<Vertex>)
        ensures
            vertices@.len() == self@.num_points(),
            vertices@.len() == colored_points(self@.polygons).len(),
            forall|k: int|
                0 <= k < vertices@.len() ==> (#[trigger] vertices@[k]).shows(
                    colored_points(self@.polygons)[k].0,
                    colored_points(self@.polygons)[k].1,
                ),
    {
        let mut vertices: Vec<Vertex> = Vec::new();
        let mut i: usize = 0;
        while i < self.polygons.len()
            invariant
                i <= self.polygons@.len(),
                vertices@.len() == colored_points(self@.polygons.take(i as int)).len(),
                forall|k: int|
                    0 <= k < vertices@.len() ==> (#[trigger] vertices@[k]).shows(
                        colored_points(self@.polygons.take(i as int))[k].0,
                        colored_points(self@.polygons.take(i as int))[k].1,
                    ),
            decreases self.polygons@.len() - i,
        {
            let polygon: &Polygon = &self.polygons[i];
            let ghost done = colored_points(self@.polygons.take(i as int));
            let ghost next = self@.polygons.take(i + 1);
            assert(next.drop_last() =~= self@.polygons.take(i as int));
            assert(next.last() == polygon@);
            let mut j: usize = 0;
            while j < polygon.points.len()
                invariant
                    j <= polygon.points@.len(),
                    vertices@.len() == done.len() + j,
                    forall|k: int|
                        0 <= k < done.len() ==> (#[trigger] vertices@[k]).shows(
                            done[k].0,
                            done[k].1,
                        ),
                    forall|k: int|
                        0 <= k < j ==> (#[trigger] vertices@[done.len() + k]).shows(
                            polygon.points@[k],
                            polygon.color,
                        ),
                decreases polygon.points@.len() - j,
            {
                vertices.push(Vertex::new(polygon.points[j], polygon.color));
                j += 1;
            }
            proof {
                let all = colored_points(next);
                assert(all.len() == done.len() + polygon.points@.len());
                assert forall|k: int| 0 <= k < vertices@.len() implies (#[trigger] vertices@[k]).shows(
                    all[k].0,
                    all[k].1,
                ) by {
                    if k >= done.len() {
                        assert(vertices@[done.len() + (k - done.len())].shows(
                            polygon.points@[k - done.len()],
                            polygon.color,
                        ));
                    }
                }
            }
            i += 1;
        }
        proof {
            assert(self@.polygons.take(i as int) =~= self@.polygons);
            lemma_colored_points_len(self@.polygons);
        }
        vertices
    }
}

} // verus!
