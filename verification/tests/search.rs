use genetic_drawing::engine::{
    Climb, ClimbAction, ClimbEvent, Engine, Evaluation, EvaluationFailed, Stats, TickAction,
    TickEvent,
};
use genetic_drawing::model::color::Color;
use genetic_drawing::model::drawing::Drawing;
use genetic_drawing::model::point::Point;
use genetic_drawing::model::polygon::Polygon;

fn triangles(count: usize) -> Drawing {
    let mut polygons = Vec::new();
    for _ in 0..count {
        polygons.push(Polygon {
            points: vec![Point { x: 0, y: 0 }, Point { x: 9, y: 0 }, Point { x: 0, y: 9 }],
            color: Color { r: 1, g: 2, b: 3, a: 100 },
        });
    }
    Drawing { polygons, is_dirty: false, fitness: 0 }
}

fn engine() -> Engine {
    Engine::new(&vec![255; 16], Some(triangles(2)), 2, 2).unwrap()
}

fn scored(fitness: i128, marker: u8) -> Evaluation {
    Evaluation {
        error: 7,
        fitness,
        drawing_bytes: vec![marker; 16],
        error_heatmap: vec![marker + 1; 16],
    }
}

fn candidate_of(action: TickAction) -> Drawing {
    match action {
        TickAction::Evaluate(candidate) => candidate,
        other => panic!("no candidate: {:?}", other),
    }
}

#[test]
fn tick_with_no_budget_makes_no_attempt() {
    let mut engine = engine();
    match engine.tick(0, TickEvent::Start) {
        TickAction::Finish(stats) => {
            assert_eq!(stats, Stats { generated: 0, improvements: 0, cycle_time: 0, ticks: 0 });
        }
        other => panic!("the run went on: {:?}", other),
    }
    assert_eq!(engine.stats(), Stats { generated: 0, improvements: 0, cycle_time: 0, ticks: 0 });
    assert_eq!(engine.best_drawing().polygons.len(), 2);
}

#[test]
fn tick_hands_out_a_candidate_while_time_is_left() {
    let mut engine = engine();
    let candidate = candidate_of(engine.tick(10, TickEvent::Start));
    assert_eq!(candidate.fitness, 0);
    assert_eq!(candidate.validate(), Ok(()));
    assert_eq!(engine.stats(), Stats { generated: 1, improvements: 0, cycle_time: 0, ticks: 1 });
}

#[test]
fn tick_accepts_a_strictly_better_candidate() {
    let mut engine = engine();
    let mut candidate = candidate_of(engine.tick(10, TickEvent::Start));
    candidate.polygons.push(triangles(1).polygons.pop().unwrap());
    let action = engine.tick(
        10,
        TickEvent::Evaluated { candidate, outcome: Ok(scored(50, 3)), elapsed_ms: 4 },
    );
    assert_eq!(engine.best_drawing().fitness, 50);
    assert_eq!(engine.best_drawing().polygons.len(), 3);
    assert_eq!(engine.best_drawing_bytes(), &vec![3u8; 16]);
    assert_eq!(engine.error_bytes(), &vec![4u8; 16]);
    assert_eq!(engine.stats(), Stats { generated: 2, improvements: 1, cycle_time: 0, ticks: 2 });
    let next = candidate_of(action);
    assert_eq!(next.fitness, 50);
}

#[test]
fn tick_rejects_a_tie_and_a_worse_candidate() {
    let mut engine = engine();
    let first = candidate_of(engine.tick(100, TickEvent::Start));
    let second = candidate_of(engine.tick(
        100,
        TickEvent::Evaluated { candidate: first, outcome: Ok(scored(50, 3)), elapsed_ms: 1 },
    ));
    let mut tie = second.clone();
    tie.polygons.push(triangles(1).polygons.pop().unwrap());
    let third = candidate_of(engine.tick(
        100,
        TickEvent::Evaluated { candidate: tie, outcome: Ok(scored(50, 8)), elapsed_ms: 1 },
    ));
    assert_eq!(engine.best_drawing().fitness, 50);
    assert_eq!(engine.best_drawing().polygons.len(), second.polygons.len());
    assert_eq!(engine.best_drawing_bytes(), &vec![3u8; 16]);
    assert_eq!(engine.stats().improvements, 1);
    let _ = candidate_of(engine.tick(
        100,
        TickEvent::Evaluated { candidate: third, outcome: Ok(scored(49, 9)), elapsed_ms: 1 },
    ));
    assert_eq!(engine.best_drawing().fitness, 50);
    assert_eq!(engine.best_drawing_bytes(), &vec![3u8; 16]);
    assert_eq!(engine.stats(), Stats { generated: 4, improvements: 1, cycle_time: 0, ticks: 4 });
}

#[test]
fn tick_fitness_never_falls_along_a_run() {
    let scores: [i128; 8] = [5, 3, 5, 9, 9, -4, 12, 11];
    let mut engine = engine();
    let mut candidate = candidate_of(engine.tick(1000, TickEvent::Start));
    let mut accepted: Vec<i128> = vec![engine.best_drawing().fitness];
    for score in scores {
        let before = engine.best_drawing().fitness;
        let improvements = engine.stats().improvements;
        candidate = candidate_of(engine.tick(
            1000,
            TickEvent::Evaluated { candidate, outcome: Ok(scored(score, 0)), elapsed_ms: 1 },
        ));
        let after = engine.best_drawing().fitness;
        assert!(after >= before);
        if engine.stats().improvements > improvements {
            assert!(after > before);
            assert_eq!(after, score);
            accepted.push(after);
        } else {
            assert_eq!(after, before);
        }
    }
    assert_eq!(accepted, vec![0, 5, 9, 12]);
    assert_eq!(engine.stats().improvements, 3);
}

#[test]
fn tick_finishes_when_the_budget_is_spent() {
    let mut engine = engine();
    let first = candidate_of(engine.tick(10, TickEvent::Start));
    let second = candidate_of(engine.tick(
        10,
        TickEvent::Evaluated { candidate: first, outcome: Ok(scored(1, 0)), elapsed_ms: 6 },
    ));
    let action = engine.tick(
        10,
        TickEvent::Evaluated { candidate: second, outcome: Ok(scored(2, 0)), elapsed_ms: 4 },
    );
    let expected = Stats { generated: 2, improvements: 2, cycle_time: 10, ticks: 2 };
    match action {
        TickAction::Finish(stats) => assert_eq!(stats, expected),
        other => panic!("the run went on: {:?}", other),
    }
    assert_eq!(engine.stats(), expected);
    assert_eq!(engine.best_drawing().fitness, 2);
}

#[test]
fn tick_start_resets_the_run_but_not_the_totals() {
    let mut engine = engine();
    let first = candidate_of(engine.tick(5, TickEvent::Start));
    let _ = engine.tick(
        5,
        TickEvent::Evaluated { candidate: first, outcome: Ok(scored(1, 0)), elapsed_ms: 5 },
    );
    assert_eq!(engine.stats(), Stats { generated: 1, improvements: 1, cycle_time: 5, ticks: 1 });
    let _ = candidate_of(engine.tick(5, TickEvent::Start));
    assert_eq!(engine.stats(), Stats { generated: 2, improvements: 1, cycle_time: 5, ticks: 1 });
}

#[test]
fn tick_aborts_on_a_failed_evaluation() {
    let mut engine = engine();
    let candidate = candidate_of(engine.tick(10, TickEvent::Start));
    let action = engine.tick(
        10,
        TickEvent::Evaluated {
            candidate,
            outcome: Err(EvaluationFailed::ErrorUnreadable),
            elapsed_ms: 3,
        },
    );
    match action {
        TickAction::Abort(failure) => assert_eq!(failure, EvaluationFailed::ErrorUnreadable),
        other => panic!("the run went on: {:?}", other),
    }
    assert_eq!(engine.best_drawing().fitness, 0);
    assert_eq!(engine.stats(), Stats { generated: 1, improvements: 0, cycle_time: 3, ticks: 1 });
}

#[test]
fn consider_accepts_only_strictly_better() {
    let mut engine = engine();
    assert!(!engine.consider(triangles(3), scored(0, 1)));
    assert_eq!(engine.best_drawing().polygons.len(), 2);
    assert!(!engine.consider(triangles(3), scored(-1, 1)));
    assert!(engine.consider(triangles(3), scored(1, 1)));
    assert_eq!(engine.best_drawing().polygons.len(), 3);
    assert_eq!(engine.best_drawing().fitness, 1);
    assert_eq!(engine.stats().improvements, 1);
    assert_eq!(engine.best_drawing_bytes(), &vec![1u8; 16]);
}

#[test]
fn post_init_records_the_first_evaluation() {
    let mut engine = engine();
    engine.post_init(scored(77, 5));
    assert_eq!(engine.best_drawing().fitness, 77);
    assert_eq!(engine.best_drawing().polygons.len(), 2);
    assert_eq!(engine.best_drawing_bytes(), &vec![5u8; 16]);
    assert_eq!(engine.error_bytes(), &vec![6u8; 16]);
    assert_eq!(engine.stats().improvements, 0);
}

#[test]
fn toggle_pause_flips_the_flag() {
    let mut engine = engine();
    assert!(!engine.is_running());
    engine.toggle_pause();
    assert!(engine.is_running());
    engine.toggle_pause();
    assert!(!engine.is_running());
}

#[test]
fn reset_stats_clears_the_totals_only() {
    let mut engine = engine();
    let first = candidate_of(engine.tick(5, TickEvent::Start));
    let _ = engine.tick(
        5,
        TickEvent::Evaluated { candidate: first, outcome: Ok(scored(1, 0)), elapsed_ms: 5 },
    );
    engine.reset_stats();
    assert_eq!(engine.stats(), Stats { generated: 0, improvements: 0, cycle_time: 5, ticks: 1 });
    assert_eq!(engine.best_drawing().fitness, 1);
}

#[test]
fn climb_new_takes_the_fitness_to_beat() {
    let mut drawing = triangles(2);
    drawing.fitness = 40;
    let climb = Climb::new(drawing, 9);
    assert_eq!(climb.current_best, 40);
    assert_eq!(climb.attempts, 0);
    assert_eq!(climb.max_attempts, 9);
    assert_eq!(climb.drawing.polygons.len(), 2);
}

#[test]
fn climb_stalls_without_attempts() {
    let mut drawing = triangles(2);
    drawing.is_dirty = true;
    let mut climb = Climb::new(drawing, 0);
    assert_eq!(Engine::mutate_new_best(&mut climb, ClimbEvent::Start), ClimbAction::Stalled);
    assert_eq!(climb.attempts, 0);
    assert!(!climb.drawing.is_dirty);
    assert_eq!(climb.drawing.polygons.len(), 2);
}

#[test]
fn climb_asks_for_an_evaluation_once_dirty() {
    let mut climb = Climb::new(triangles(2), 1_000_000);
    assert_eq!(Engine::mutate_new_best(&mut climb, ClimbEvent::Start), ClimbAction::Evaluate);
    assert!(climb.drawing.is_dirty);
    assert!(climb.attempts >= 1);
    assert_eq!(climb.drawing.fitness, 0);
    assert_eq!(climb.drawing.validate(), Ok(()));
}

#[test]
fn climb_ends_on_a_strictly_better_score() {
    let mut drawing = triangles(2);
    drawing.fitness = 40;
    let mut climb = Climb::new(drawing, 1_000_000);
    assert_eq!(Engine::mutate_new_best(&mut climb, ClimbEvent::Start), ClimbAction::Evaluate);
    let spent = climb.attempts;
    let tie = Engine::mutate_new_best(&mut climb, ClimbEvent::Evaluated(Ok(scored(40, 0))));
    assert_eq!(tie, ClimbAction::Evaluate);
    assert!(climb.attempts > spent);
    assert_eq!(climb.drawing.fitness, 40);
    let worse = Engine::mutate_new_best(&mut climb, ClimbEvent::Evaluated(Ok(scored(39, 0))));
    assert_eq!(worse, ClimbAction::Evaluate);
    assert_eq!(climb.drawing.fitness, 39);
    let spent = climb.attempts;
    let better = Engine::mutate_new_best(&mut climb, ClimbEvent::Evaluated(Ok(scored(41, 0))));
    assert_eq!(better, ClimbAction::Improved);
    assert_eq!(climb.drawing.fitness, 41);
    assert_eq!(climb.attempts, spent);
    assert_eq!(climb.current_best, 40);
}

#[test]
fn climb_stalls_when_the_attempts_run_out() {
    let mut climb = Climb::new(triangles(2), 1);
    let mut stalled = false;
    for _ in 0..50 {
        climb.attempts = 0;
        if Engine::mutate_new_best(&mut climb, ClimbEvent::Start) == ClimbAction::Stalled {
            stalled = true;
            assert_eq!(climb.attempts, 1);
            assert!(!climb.drawing.is_dirty);
        } else {
            assert!(climb.drawing.is_dirty);
        }
    }
    assert!(stalled);
}

#[test]
fn climb_aborts_on_a_failed_evaluation() {
    let mut climb = Climb::new(triangles(2), 10);
    let action = Engine::mutate_new_best(
        &mut climb,
        ClimbEvent::Evaluated(Err(EvaluationFailed::DrawingLength)),
    );
    assert_eq!(action, ClimbAction::Abort(EvaluationFailed::DrawingLength));
    assert_eq!(climb.attempts, 0);
    assert_eq!(climb.drawing.polygons.len(), 2);
}
