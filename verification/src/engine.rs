//! The host side of the evaluation pipeline and the search controller.
//!
//! The graphics device is driven from outside: the caller rasterizes a
//! drawing, runs the difference pass and maps the two buffers; the engine
//! turns what was read back into a score and decides what happens next.

use vstd::prelude::*;

use crate::fitness::{fitness, fitness_of, max_total_error};
use crate::model::drawing::{Drawing, DrawingError, DrawingView};
use crate::model::settings::{MAX_ERROR_PER_PIXEL, START_WITH_POLYGONS_PER_IMAGE};
use crate::util::{
    calculate_error_from_gpu, heatmap, lemma_error_sum_bounds, lemma_padded_row, padded_row,
    padded_buffer_size, strip_padding, total_error, without_padding, BufferDimensions,
    BYTES_PER_PIXEL,
};

verus! {

/// The counters of the time-boxed search.
#[derive(Clone, Copy, Debug, PartialEq, Eq, Structural)]
pub struct Stats {
    /// Candidates generated since the counters were last reset.
    pub generated: usize,
    /// Candidates accepted since the counters were last reset.
    pub improvements: usize,
    /// Time, in milliseconds, that the last run took.
    pub cycle_time: usize,
    /// Candidates generated in the current run.
    pub ticks: usize,
}

/// What one evaluation of a drawing yields.
#[derive(Debug)]
pub struct Evaluation {
    /// The scalar error, in error units.
    pub error: u128,
    /// The fitness, in units of `10^-12`.
    pub fitness: i128,
    /// The rendered drawing as RGBA8 rows without padding.
    pub drawing_bytes: Vec<u8>,
    /// The error heatmap as RGBA8 rows without padding.
    pub error_heatmap: Vec<u8>,
}

/// Why an evaluation yields no score.
#[derive(Clone, Copy, Debug, PartialEq, Eq, Structural)]
pub enum EvaluationFailed {
    /// The buffer of the rendered drawing could not be mapped.
    DrawingUnreadable,
    /// The buffer of the rendered drawing has neither the padded nor the
    /// unpadded length of the image.
    DrawingLength,
    /// The buffer of the difference pass could not be mapped.
    ErrorUnreadable,
    /// The buffer of the difference pass does not hold four bytes per
    /// pixel of the image.
    ErrorLength,
    /// The point count of the drawing does not fit the machine word.
    TooManyPoints,
}

/// Why an engine cannot be set up.
#[derive(Clone, Copy, Debug, PartialEq, Eq, Structural)]
pub enum EngineError {
    /// The width or the height of the target is zero.
    EmptyImage,
    /// The padded buffer of the target does not fit the machine word.
    ImageTooLarge,
    /// The target bytes are not four per pixel.
    SourceLength,
    /// The drawing to resume from is not well formed.
    InvalidDrawing(DrawingError),
}

/// What the caller reports to a time-boxed run.
#[derive(Debug)]
pub enum TickEvent {
    /// A run begins.
    Start,
    /// The candidate handed out last was evaluated, which took
    /// `elapsed_ms` milliseconds.
    Evaluated { candidate: Drawing, outcome: Result<Evaluation, EvaluationFailed>, elapsed_ms: usize },
}

/// What a time-boxed run asks of the caller next.
#[derive(Debug)]
pub enum TickAction {
    /// Evaluate this candidate and report back.
    Evaluate(Drawing),
    /// The budget is spent; these are the counters of the run.
    Finish(Stats),
    /// The evaluation failed; the run ends.
    Abort(EvaluationFailed),
}

/// The state of one unbounded climb: the drawing being mutated, the
/// fitness it has to beat, and the mutation passes spent of those allowed.
#[derive(Debug)]
pub struct Climb {
    pub drawing: Drawing,
    pub current_best: i128,
    pub attempts: usize,
    pub max_attempts: usize,
}

/// What the caller reports to a climb.
#[derive(Debug)]
pub enum ClimbEvent {
    /// The climb begins.
    Start,
    /// The drawing of the climb was evaluated.
    Evaluated(Result<Evaluation, EvaluationFailed>),
}

/// What a climb asks of the caller next.
#[derive(Clone, Copy, Debug, PartialEq, Eq, Structural)]
pub enum ClimbAction {
    /// Evaluate the drawing of the climb and report back.
    Evaluate,
    /// The drawing of the climb beats the fitness it started from.
    Improved,
    /// The allowed mutation passes are spent without a change to evaluate.
    Stalled,
    /// The evaluation failed; the climb ends.
    Abort(EvaluationFailed),
}

/// The host state of the search: the size of the target, the incumbent
/// drawing with its rendering and heatmap, and the counters.
#[derive(Debug)]
pub struct Engine {
    width: usize,
    height: usize,
    buffer_dimensions: BufferDimensions,
    running: bool,
    best_drawing: Drawing,
    best_drawing_bytes: Vec<u8>,
    error_bytes: Vec<u8>,
    stats: Stats,
    elapsed: usize,
}

/// The mathematical value of an [`Engine`].
pub struct EngineView {
    pub width: int,
    pub height: int,
    pub buffer_dimensions: BufferDimensions,
    pub running: bool,
    pub best_drawing: DrawingView,
    pub best_drawing_bytes: Seq<u8>,
    pub error_bytes: Seq<u8>,
    pub stats: Stats,
    pub elapsed: int,
}

/// The fitness of the incumbent after a candidate was scored: the
/// candidate's where it is strictly higher, the incumbent's otherwise.
pub open spec fn accepted_fitness(incumbent: int, candidate: int) -> int {
    if candidate > incumbent {
        candidate
    } else {
        incumbent
    }
}

/// The fitness of the incumbent after a sequence of candidates was scored
/// in order.
pub open spec fn best_after(initial: int, candidates: Seq<int>) -> int
    decreases candidates.len(),
{
    if candidates.len() == 0 {
        initial
    } else {
        accepted_fitness(best_after(initial, candidates.drop_last()), candidates.last())
    }
}

/// Along any sequence of scored candidates the fitness of the incumbent
/// never falls, and wherever it changes, a candidate was accepted whose
/// fitness is strictly above that of the incumbent before it.
pub proof fn lemma_acceptance_monotonic(initial: int, candidates: Seq<int>, earlier: int, later: int)
    requires
        0 <= earlier <= later <= candidates.len(),
    ensures
        best_after(initial, candidates.take(earlier)) <= best_after(
            initial,
            candidates.take(later),
        ),
        later > 0 && best_after(initial, candidates.take(later)) != best_after(
            initial,
            candidates.take(later - 1),
        ) ==> best_after(initial, candidates.take(later)) == candidates[later - 1]
            && candidates[later - 1] > best_after(initial, candidates.take(later - 1)),
    decreases later - earlier,
{
    if later > 0 {
        assert(candidates.take(later).drop_last() =~= candidates.take(later - 1));
    }
    if earlier < later {
        lemma_acceptance_monotonic(initial, candidates, earlier, later - 1);
    }
}

impl View for Engine {
    type V = EngineView;

    closed spec fn view(&self) -> EngineView {
        EngineView {
            width: self.width as int,
            height: self.height as int,
            buffer_dimensions: self.buffer_dimensions,
            running: self.running,
            best_drawing: self.best_drawing@,
            best_drawing_bytes: self.best_drawing_bytes@,
            error_bytes: self.error_bytes@,
            stats: self.stats,
            elapsed: self.elapsed as int,
        }
    }
}

/// Where an image of the given size cannot be handled, the reason.
pub open spec fn image_fault(width: int, height: int) -> Option<EngineError> {
    if width == 0 || height == 0 {
        Some(EngineError::EmptyImage)
    } else if padded_row(width * BYTES_PER_PIXEL) * height > usize::MAX {
        Some(EngineError::ImageTooLarge)
    } else {
        None
    }
}

impl EngineView {
    /// The target has pixels, its padded buffer fits the machine word, the
    /// buffer layout is that of the target, and the incumbent is well
    /// formed.
    pub open spec fn wf(self) -> bool {
        &&& image_fault(self.width, self.height) is None
        &&& self.buffer_dimensions.wf()
        &&& self.buffer_dimensions.width == self.width
        &&& self.buffer_dimensions.height == self.height
        &&& self.best_drawing.wf()
    }

    /// The layout of the buffer of the rendered drawing.
    pub open spec fn unpadded_bytes_per_row(self) -> int {
        self.width * BYTES_PER_PIXEL
    }

    /// The padded row length of the buffer of the rendered drawing.
    pub open spec fn padded_bytes_per_row(self) -> int {
        padded_row(self.width * BYTES_PER_PIXEL)
    }

    /// Where the buffers read back for `drawing` yield no score, the
    /// reason: the first of the checks that fails.
    pub open spec fn evaluation_fault(
        self,
        drawing: DrawingView,
        drawing_buffer: Option<Seq<u8>>,
        error_buffer: Option<Seq<u8>>,
    ) -> Option<EvaluationFailed> {
        if drawing_buffer is None {
            Some(EvaluationFailed::DrawingUnreadable)
        } else if drawing_buffer->0.len() != self.unpadded_bytes_per_row() * self.height
            && drawing_buffer->0.len() != self.padded_bytes_per_row() * self.height {
            Some(EvaluationFailed::DrawingLength)
        } else if error_buffer is None {
            Some(EvaluationFailed::ErrorUnreadable)
        } else if error_buffer->0.len() != self.width * self.height * 4 {
            Some(EvaluationFailed::ErrorLength)
        } else if drawing.num_points() > usize::MAX {
            Some(EvaluationFailed::TooManyPoints)
        } else {
            None
        }
    }

    /// The pixels of a buffer of the rendered drawing, without padding.
    pub open spec fn pixels_of(self, drawing_buffer: Seq<u8>) -> Seq<u8> {
        if drawing_buffer.len() == self.unpadded_bytes_per_row() * self.height {
            drawing_buffer
        } else {
            without_padding(
                drawing_buffer,
                self.unpadded_bytes_per_row(),
                self.padded_bytes_per_row(),
                self.height,
            )
        }
    }

    /// `evaluation` is what the buffers read back for `drawing` yield.
    pub open spec fn evaluates_to(
        self,
        drawing: DrawingView,
        drawing_buffer: Seq<u8>,
        error_buffer: Seq<u8>,
        evaluation: Evaluation,
    ) -> bool {
        &&& evaluation.error == total_error(error_buffer)
        &&& evaluation.fitness == fitness_of(
            total_error(error_buffer),
            self.width,
            self.height,
            drawing.num_points() as int,
        )
        &&& evaluation.drawing_bytes@ == self.pixels_of(drawing_buffer)
        &&& evaluation.error_heatmap@ == heatmap(error_buffer)
    }

    /// The engine after `candidate` was scored: where its fitness is
    /// strictly above the incumbent's it becomes the incumbent, with its
    /// rendering and heatmap, and counts as an improvement.
    pub open spec fn considered(self, candidate: DrawingView, evaluation: Evaluation) -> EngineView {
        if evaluation.fitness > self.best_drawing.fitness {
            EngineView {
                best_drawing: candidate.with_fitness(evaluation.fitness as int),
                best_drawing_bytes: evaluation.drawing_bytes@,
                error_bytes: evaluation.error_heatmap@,
                stats: Stats {
                    improvements: (self.stats.improvements + 1) as usize,
                    ..self.stats
                },
                ..self
            }
        } else {
            self
        }
    }

    /// The engine after the caller's report was taken in: a start resets
    /// the run, a scored candidate is considered, and the time of an
    /// evaluation is added to the time spent.
    pub open spec fn after_event(self, event: TickEvent) -> EngineView {
        match event {
            TickEvent::Start => EngineView {
                stats: Stats { ticks: 0, ..self.stats },
                elapsed: 0,
                ..self
            },
            TickEvent::Evaluated { candidate, outcome, elapsed_ms } => {
                let scored = match outcome {
                    Ok(evaluation) => self.considered(candidate@, evaluation),
                    Err(_) => self,
                };
                EngineView { elapsed: self.elapsed + elapsed_ms, ..scored }
            },
        }
    }

    /// The engine at the end of a run: the time spent becomes the cycle
    /// time.
    pub open spec fn finished(self) -> EngineView {
        EngineView { stats: Stats { cycle_time: self.elapsed as usize, ..self.stats }, ..self }
    }

    /// The engine after one more candidate was handed out.
    pub open spec fn proposed(self) -> EngineView {
        EngineView {
            stats: Stats {
                ticks: (self.stats.ticks + 1) as usize,
                generated: (self.stats.generated + 1) as usize,
                ..self.stats
            },
            ..self
        }
    }
}

/// The counters and the time spent leave room for what a step adds: one
/// more candidate, and after an evaluation one more improvement, one more
/// tick and the time that the evaluation took.
pub open spec fn counters_fit(engine: EngineView, event: TickEvent) -> bool {
    &&& engine.stats.generated < usize::MAX
    &&& event matches TickEvent::Evaluated { elapsed_ms, .. } ==> {
        &&& engine.stats.improvements < usize::MAX
        &&& engine.stats.ticks < usize::MAX
        &&& engine.elapsed + elapsed_ms <= usize::MAX
    }
}

/// Of two evaluations that the same buffers yield for the same drawing,
/// every part is the same: the score is a function of what was read back.
pub proof fn lemma_evaluation_deterministic(
    engine: EngineView,
    drawing: DrawingView,
    drawing_buffer: Seq<u8>,
    error_buffer: Seq<u8>,
    first: Evaluation,
    second: Evaluation,
)
    requires
        engine.evaluates_to(drawing, drawing_buffer, error_buffer, first),
        engine.evaluates_to(drawing, drawing_buffer, error_buffer, second),
    ensures
        first.error == second.error,
        first.fitness == second.fitness,
        first.drawing_bytes@ == second.drawing_bytes@,
        first.error_heatmap@ == second.error_heatmap@,
{
}

impl Engine {
    /// See [`EngineView::wf`].
    pub open spec fn wf(&self) -> bool {
        self@.wf()
    }

    /// Sets up the search for a target of `width` by `height` pixels,
    /// given as RGBA8 bytes, from `best_drawing` or, without one, from a
    /// random drawing. The engine starts paused, with all counters at zero,
    /// no rendering yet and a heatmap of zeros.
    pub fn new(
        source_bytes: &Vec<u8>,
        best_drawing: Option<Drawing>,
        width: usize,
        height: usize,
    ) -> (result: Result<Engine, EngineError>)
        ensures
            match result {
                Ok(engine) => {
                    &&& engine.wf()
                    &&& image_fault(width as int, height as int) is None
                    &&& source_bytes@.len() == width * height * 4
                    &&& engine@.width == width
                    &&& engine@.height == height
                    &&& !engine@.running
                    &&& engine@.best_drawing_bytes.len() == 0
                    &&& engine@.error_bytes == Seq::new(source_bytes@.len(), |i: int| 0u8)
                    &&& engine@.stats == (Stats {
                        generated: 0,
                        improvements: 0,
                        cycle_time: 0,
                        ticks: 0,
                    })
                    &&& engine@.elapsed == 0
                    &&& match best_drawing {
                        Some(drawing) => drawing.wf() && engine@.best_drawing == drawing@,
                        None => {
                            &&& engine@.best_drawing.polygons.len()
                                == START_WITH_POLYGONS_PER_IMAGE
                            &&& engine@.best_drawing.is_dirty
                            &&& engine@.best_drawing.fitness == 0
                        },
                    }
                },
                Err(error) => {
                    &&& image_fault(width as int, height as int) is Some ==> Some(error)
                        == image_fault(width as int, height as int)
                    &&& image_fault(width as int, height as int) is None ==> {
                        if source_bytes@.len() != width * height * 4 {
                            error == EngineError::SourceLength
                        } else {
                            &&& best_drawing is Some
                            &&& !best_drawing->0.wf()
                            &&& error matches EngineError::InvalidDrawing(fault)
                            &&& best_drawing->0@.rejected_with(fault)
                        }
                    }
                },
            },
    {
        if width == 0 || height == 0 {
            return Err(EngineError::EmptyImage);
        }
        if padded_buffer_size(width, height).is_none() {
            return Err(EngineError::ImageTooLarge);
        }
        let ghost padded = padded_row(width * BYTES_PER_PIXEL);
        proof {
            lemma_padded_row(width * BYTES_PER_PIXEL);
            assert(padded * height >= padded) by (nonlinear_arith)
                requires
                    padded >= 0,
                    height >= 1,
            ;
        }
        assert(width * BYTES_PER_PIXEL * height <= padded * height) by (nonlinear_arith)
            requires
                width * BYTES_PER_PIXEL <= padded,
                height >= 0,
        ;
        assert(width * height * 4 == width * BYTES_PER_PIXEL * height) by (nonlinear_arith)
            requires
                BYTES_PER_PIXEL == 4,
        ;
        assert(width * height <= width * height * 4) by (nonlinear_arith)
            requires
                width >= 0,
                height >= 0,
        ;
        if source_bytes.len() != width * height * 4 {
            return Err(EngineError::SourceLength);
        }
        let best_drawing: Drawing = match best_drawing {
            Some(drawing) => {
                match drawing.validate() {
                    Ok(()) => drawing,
                    Err(fault) => {
                        return Err(EngineError::InvalidDrawing(fault));
                    },
                }
            },
            None => Drawing::new_random(),
        };
        let mut error_bytes: Vec<u8> = Vec::new();
        let mut i: usize = 0;
        while i < source_bytes.len()
            invariant
                i <= source_bytes@.len(),
                error_bytes@.len() == i,
                forall|k: int| 0 <= k < i ==> #[trigger] error_bytes@[k] == 0u8,
            decreases source_bytes@.len() - i,
        {
            error_bytes.push(0);
            i += 1;
        }
        assert(error_bytes@ =~= Seq::new(source_bytes@.len(), |i: int| 0u8));
        Ok(
            Engine {
                width,
                height,
                buffer_dimensions: BufferDimensions::new(width, height),
                running: false,
                best_drawing,
                best_drawing_bytes: Vec::new(),
                error_bytes,
                stats: Stats { generated: 0, improvements: 0, cycle_time: 0, ticks: 0 },
                elapsed: 0,
            },
        )
    }

    /// The width of the target in pixels.
    pub fn width(&self) -> (width: usize)
        ensures
            width == self@.width,
    {
        self.width
    }

    /// The height of the target in pixels.
    pub fn height(&self) -> (height: usize)
        ensures
            height == self@.height,
    {
        self.height
    }

    /// The layout of the buffer that receives the rendered drawing.
    pub fn buffer_dimensions(&self) -> (dimensions: BufferDimensions)
        ensures
            dimensions == self@.buffer_dimensions,
    {
        self.buffer_dimensions
    }

    /// Whether the search is running.
    pub fn is_running(&self) -> (running: bool)
        ensures
            running == self@.running,
    {
        self.running
    }

    /// The incumbent drawing.
    pub fn best_drawing(&self) -> (drawing: &Drawing)
        ensures
            drawing@ == self@.best_drawing,
    {
        &self.best_drawing
    }

    /// The rendering of the incumbent, as RGBA8 rows without padding.
    pub fn best_drawing_bytes(&self) -> (bytes: &Vec<u8>)
        ensures
            bytes@ == self@.best_drawing_bytes,
    {
        &self.best_drawing_bytes
    }

    /// The error heatmap of the incumbent, as RGBA8 rows without padding.
    pub fn error_bytes(&self) -> (bytes: &Vec<u8>)
        ensures
            bytes@ == self@.error_bytes,
    {
        &self.error_bytes
    }

    /// The time, in milliseconds, spent in the current run.
    pub fn elapsed(&self) -> (elapsed: usize)
        ensures
            elapsed == self@.elapsed,
    {
        self.elapsed
    }

    /// The counters.
    pub fn stats(&self) -> (stats: Stats)
        ensures
            stats == self@.stats,
    {
        self.stats
    }

    /// Pauses a running search and resumes a paused one.
    pub fn toggle_pause(&mut self)
        requires
            old(self).wf(),
        ensures
            final(self).wf(),
            final(self)@ == (EngineView { running: !old(self)@.running, ..old(self)@ }),
    {
        self.running = !self.running;
    }

    /// Sets the counters of generated and accepted candidates to zero.
    pub fn reset_stats(&mut self)
        requires
            old(self).wf(),
        ensures
            final(self).wf(),
            final(self)@ == (EngineView {
                stats: Stats { generated: 0, improvements: 0, ..old(self)@.stats },
                ..old(self)@
            }),
    {
        self.stats.generated = 0;
        self.stats.improvements = 0;
    }

    /// Turns what was read back for `drawing` into a score: the buffer of
    /// the rendered drawing, padded or not, and the buffer of the difference
    /// pass, each `None` where it could not be mapped. The evaluation
    /// succeeds with all of its data or fails with the reason.
    pub fn evaluate_drawing(
        &self,
        drawing: &Drawing,
        drawing_buffer: Option<Vec<u8>>,
        error_buffer: Option<Vec<u8>>,
    ) -> (result: Result<Evaluation, EvaluationFailed>)
        requires
            self.wf(),
        ensures
            match result {
                Ok(evaluation) => {
                    &&& drawing_buffer is Some
                    &&& error_buffer is Some
                    &&& self@.evaluation_fault(
                        drawing@,
                        Some(drawing_buffer->0@),
                        Some(error_buffer->0@),
                    ) is None
                    &&& self@.evaluates_to(
                        drawing@,
                        drawing_buffer->0@,
                        error_buffer->0@,
                        evaluation,
                    )
                    &&& evaluation.drawing_bytes@.len() == self@.width * self@.height * 4
                    &&& evaluation.error_heatmap@.len() == self@.width * self@.height * 4
                    &&& evaluation.error <= max_total_error(self@.width, self@.height)
                },
                Err(failure) => Some(failure) == self@.evaluation_fault(
                    drawing@,
                    match drawing_buffer {
                        Some(buffer) => Some(buffer@),
                        None => None,
                    },
                    match error_buffer {
                        Some(buffer) => Some(buffer@),
                        None => None,
                    },
                ),
            },
    {
        proof {
            lemma_padded_row(self.width * BYTES_PER_PIXEL);
            assert(self.width * self.height * 4 <= padded_row(self.width * BYTES_PER_PIXEL)
                * self.height) by (nonlinear_arith)
                requires
                    self.width * BYTES_PER_PIXEL <= padded_row(self.width * BYTES_PER_PIXEL),
                    BYTES_PER_PIXEL == 4,
                    self.height >= 0,
            ;
        }
        let drawing_buffer: Vec<u8> = match drawing_buffer {
            Some(buffer) => buffer,
            None => {
                return Err(EvaluationFailed::DrawingUnreadable);
            },
        };
        let best_drawing_bytes: Vec<u8> = match strip_padding(
            &drawing_buffer,
            &self.buffer_dimensions,
        ) {
            Some(pixels) => pixels,
            None => {
                return Err(EvaluationFailed::DrawingLength);
            },
        };
        let error_buffer: Vec<u8> = match error_buffer {
            Some(buffer) => buffer,
            None => {
                return Err(EvaluationFailed::ErrorUnreadable);
            },
        };
        if error_buffer.len() != self.width * self.height * 4 {
            return Err(EvaluationFailed::ErrorLength);
        }
        let num_points: usize = match drawing.checked_num_points() {
            Some(count) => count,
            None => {
                return Err(EvaluationFailed::TooManyPoints);
            },
        };
        let (error, error_heatmap) = calculate_error_from_gpu(&error_buffer);
        proof {
            lemma_error_sum_bounds(error_buffer@, error_buffer@.len() / 4);
            assert(error_buffer@.len() / 4 == self.width * self.height);
            assert(MAX_ERROR_PER_PIXEL * (self.width * self.height) == max_total_error(
                self.width as int,
                self.height as int,
            )) by (nonlinear_arith);
        }
        let fitness: i128 = fitness(error, self.width, self.height, num_points);
        proof {
            assert(self.width * BYTES_PER_PIXEL * self.height == self.width * self.height * 4
                && self.height * (self.width * BYTES_PER_PIXEL) == self.width * self.height * 4)
                by (nonlinear_arith)
                requires
                    BYTES_PER_PIXEL == 4,
            ;
            assert(best_drawing_bytes@.len() == self.width * self.height * 4);
            assert(error_heatmap@.len() == self.width * self.height * 4);
        }
        Ok(Evaluation { error, fitness, drawing_bytes: best_drawing_bytes, error_heatmap })
    }

    /// Records the first evaluation of the incumbent: its fitness, its
    /// rendering and its heatmap.
    pub fn post_init(&mut self, evaluation: Evaluation)
        requires
            old(self).wf(),
        ensures
            final(self).wf(),
            final(self)@ == (EngineView {
                best_drawing: old(self)@.best_drawing.with_fitness(evaluation.fitness as int),
                best_drawing_bytes: evaluation.drawing_bytes@,
                error_bytes: evaluation.error_heatmap@,
                ..old(self)@
            }),
    {
        self.best_drawing.fitness = evaluation.fitness;
        self.best_drawing_bytes = evaluation.drawing_bytes;
        self.error_bytes = evaluation.error_heatmap;
    }

    /// Scores a candidate against the incumbent: it replaces the incumbent
    /// exactly where its fitness is strictly higher, so that a tie is
    /// rejected. Tells whether the candidate was accepted.
    pub fn consider(&mut self, candidate: Drawing, evaluation: Evaluation) -> (accepted: bool)
        requires
            old(self).wf(),
            candidate.wf(),
            old(self)@.stats.improvements < usize::MAX,
        ensures
            final(self).wf(),
            accepted == (evaluation.fitness > old(self)@.best_drawing.fitness),
            final(self)@ == old(self)@.considered(candidate@, evaluation),
            final(self)@.best_drawing.fitness == accepted_fitness(
                old(self)@.best_drawing.fitness,
                evaluation.fitness as int,
            ),
    {
        let mut clone: Drawing = candidate;
        clone.fitness = evaluation.fitness;
        if clone.fitness > self.best_drawing.fitness {
            self.best_drawing = clone;
            self.best_drawing_bytes = evaluation.drawing_bytes;
            self.error_bytes = evaluation.error_heatmap;
            self.stats.improvements += 1;
            true
        } else {
            false
        }
    }

    /// One step of a time-boxed run with a budget of `max_time_ms`
    /// milliseconds. The report of the caller is taken in first: a start
    /// resets the run, a scored candidate is considered, a failed
    /// evaluation ends the run. Then, while time is left, one more
    /// candidate is made, by one mutation pass over a copy of the
    /// incumbent, and handed out; once the budget is spent the run
    /// finishes with its counters.
    pub fn tick(&mut self, max_time_ms: usize, event: TickEvent) -> (action: TickAction)
        requires
            old(self).wf(),
            counters_fit(old(self)@, event),
            event matches TickEvent::Evaluated { candidate, .. } ==> candidate.wf(),
        ensures
            final(self).wf(),
            final(self)@.best_drawing.fitness >= old(self)@.best_drawing.fitness,
            final(self)@.best_drawing.fitness == match event {
                TickEvent::Evaluated { outcome: Ok(evaluation), .. } => accepted_fitness(
                    old(self)@.best_drawing.fitness,
                    evaluation.fitness as int,
                ),
                _ => old(self)@.best_drawing.fitness,
            },
            match action {
                TickAction::Abort(failure) => {
                    &&& event matches TickEvent::Evaluated { outcome: Err(reported), .. }
                    &&& failure == reported
                    &&& final(self)@ == old(self)@.after_event(event).finished()
                },
                TickAction::Finish(stats) => {
                    &&& !(event matches TickEvent::Evaluated { outcome: Err(_), .. })
                    &&& old(self)@.after_event(event).elapsed >= max_time_ms
                    &&& final(self)@ == old(self)@.after_event(event).finished()
                    &&& stats == final(self)@.stats
                },
                TickAction::Evaluate(candidate) => {
                    &&& !(event matches TickEvent::Evaluated { outcome: Err(_), .. })
                    &&& old(self)@.after_event(event).elapsed < max_time_ms
                    &&& final(self)@ == old(self)@.after_event(event).proposed()
                    &&& final(self)@.best_drawing.passes_to(candidate@)
                    &&& candidate@.mutation_of(final(self)@.best_drawing)
                    &&& candidate.wf()
                },
            },
    {
        match event {
            TickEvent::Start => {
                self.stats.ticks = 0;
                self.elapsed = 0;
            },
            TickEvent::Evaluated { candidate, outcome, elapsed_ms } => {
                self.elapsed = self.elapsed + elapsed_ms;
                match outcome {
                    Ok(evaluation) => {
                        self.consider(candidate, evaluation);
                    },
                    Err(failure) => {
                        self.stats.cycle_time = self.elapsed;
                        return TickAction::Abort(failure);
                    },
                }
            },
        }
        if self.elapsed < max_time_ms {
            self.stats.ticks += 1;
            let mut clone: Drawing = self.best_drawing.clone();
            clone.mutate();
            self.stats.generated += 1;
            TickAction::Evaluate(clone)
        } else {
            self.stats.cycle_time = self.elapsed;
            TickAction::Finish(self.stats)
        }
    }
}

impl Climb {
    /// A climb that starts from `drawing` and may spend `max_attempts`
    /// mutation passes.
    pub fn new(drawing: Drawing, max_attempts: usize) -> (climb: Climb)
        ensures
            climb.drawing@ == drawing@,
            climb.current_best == drawing.fitness,
            climb.attempts == 0,
            climb.max_attempts == max_attempts,
    {
        let current_best: i128 = drawing.fitness;
        Climb { drawing, current_best, attempts: 0, max_attempts }
    }

    /// The drawing once the caller's report was taken in: a score becomes
    /// its fitness.
    pub open spec fn scored(self, event: ClimbEvent) -> DrawingView {
        match event {
            ClimbEvent::Evaluated(Ok(evaluation)) => self.drawing@.with_fitness(
                evaluation.fitness as int,
            ),
            _ => self.drawing@,
        }
    }

    /// The report says that the drawing now beats the fitness that the
    /// climb started from.
    pub open spec fn improved_by(self, event: ClimbEvent) -> bool {
        event matches ClimbEvent::Evaluated(Ok(evaluation)) && evaluation.fitness
            > self.current_best
    }

    /// Mutates the drawing until a pass reports a change or the allowed
    /// passes are spent. Tells whether there is a change to evaluate.
    fn mutate_until_dirty(&mut self) -> (dirty: bool)
        ensures
            dirty == final(self).drawing@.is_dirty,
            final(self).current_best == old(self).current_best,
            final(self).max_attempts == old(self).max_attempts,
            final(self).attempts >= old(self).attempts,
            final(self).attempts <= old(self).max_attempts || final(self).attempts == old(
                self,
            ).attempts,
            dirty ==> final(self).attempts > old(self).attempts,
            !dirty ==> final(self).attempts >= final(self).max_attempts && final(self).drawing@
                == old(self).drawing@.with_dirty(false),
            dirty ==> old(self).drawing@.with_dirty(false).passes_to(final(self).drawing@),
            final(self).drawing@.fitness == old(self).drawing@.fitness,
            old(self).drawing.wf() ==> final(self).drawing.wf(),
    {
        self.drawing.is_dirty = false;
        while !self.drawing.is_dirty && self.attempts < self.max_attempts
            invariant
                self.current_best == old(self).current_best,
                self.max_attempts == old(self).max_attempts,
                self.attempts >= old(self).attempts,
                self.attempts <= old(self).max_attempts || self.attempts == old(self).attempts,
                self.drawing@.is_dirty ==> self.attempts > old(self).attempts,
                !self.drawing@.is_dirty ==> self.drawing@ == old(self).drawing@.with_dirty(false),
                self.drawing@.is_dirty ==> old(self).drawing@.with_dirty(false).passes_to(
                    self.drawing@,
                ),
                self.drawing@.fitness == old(self).drawing@.fitness,
                old(self).drawing.wf() ==> self.drawing.wf(),
            decreases self.max_attempts - self.attempts,
        {
            self.drawing.mutate();
            self.attempts += 1;
        }
        self.drawing.is_dirty
    }
}

impl Engine {
    /// One step of the unbounded climb: mutate until strictly better. The
    /// report of the caller is taken in first: a score above the fitness
    /// that the climb started from ends it as improved, a failed
    /// evaluation ends it. Otherwise the dirty flag is cleared and the
    /// drawing mutates, pass after pass, until a pass reports a change,
    /// which is then to be evaluated; where the allowed passes run out
    /// first, the climb has stalled.
    pub fn mutate_new_best(climb: &mut Climb, event: ClimbEvent) -> (action: ClimbAction)
        ensures
            final(climb).current_best == old(climb).current_best,
            final(climb).max_attempts == old(climb).max_attempts,
            old(climb).drawing.wf() ==> final(climb).drawing.wf(),
            match action {
                ClimbAction::Abort(failure) => {
                    &&& event matches ClimbEvent::Evaluated(Err(reported))
                    &&& failure == reported
                    &&& final(climb).drawing@ == old(climb).drawing@
                    &&& final(climb).attempts == old(climb).attempts
                },
                ClimbAction::Improved => {
                    &&& old(climb).improved_by(event)
                    &&& final(climb).drawing@ == old(climb).scored(event)
                    &&& final(climb).drawing@.fitness > old(climb).current_best
                    &&& final(climb).attempts == old(climb).attempts
                },
                ClimbAction::Evaluate => {
                    &&& !(event matches ClimbEvent::Evaluated(Err(_)))
                    &&& !old(climb).improved_by(event)
                    &&& final(climb).drawing@.is_dirty
                    &&& old(climb).scored(event).with_dirty(false).passes_to(final(climb).drawing@)
                    &&& final(climb).drawing@.fitness == old(climb).scored(event).fitness
                    &&& old(climb).attempts < final(climb).attempts <= old(climb).max_attempts
                },
                ClimbAction::Stalled => {
                    &&& !(event matches ClimbEvent::Evaluated(Err(_)))
                    &&& !old(climb).improved_by(event)
                    &&& final(climb).drawing@ == old(climb).scored(event).with_dirty(false)
                    &&& final(climb).attempts == if old(climb).attempts >= old(climb).max_attempts {
                        old(climb).attempts
                    } else {
                        old(climb).max_attempts
                    }
                },
            },
    {
        match event {
            ClimbEvent::Start => {},
            ClimbEvent::Evaluated(Ok(evaluation)) => {
                climb.drawing.fitness = evaluation.fitness;
                if climb.drawing.fitness > climb.current_best {
                    return ClimbAction::Improved;
                }
            },
            ClimbEvent::Evaluated(Err(failure)) => {
                return ClimbAction::Abort(failure);
            },
        }
        if climb.mutate_until_dirty() {
            ClimbAction::Evaluate
        } else {
            ClimbAction::Stalled
        }
    }
}

} // verus!
