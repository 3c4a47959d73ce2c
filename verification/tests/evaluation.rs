use genetic_drawing::engine::{Engine, EngineError, EvaluationFailed};
use genetic_drawing::fitness::{fitness, PERFECT_FITNESS};
use genetic_drawing::model::color::Color;
use genetic_drawing::model::drawing::{Drawing, DrawingError};
use genetic_drawing::model::point::Point;
use genetic_drawing::model::polygon::Polygon;
use genetic_drawing::model::settings::MAX_ERROR_PER_PIXEL;
use genetic_drawing::util::{
    absolute_difference, calculate_error_from_gpu, check_error_calcs, integer_sqrt,
    padded_buffer_size, pixel_distance, strip_padding, workgroup_count, BufferDimensions,
};

fn empty_drawing() -> Drawing {
    Drawing { polygons: vec![], is_dirty: false, fitness: 0 }
}

fn triangles(count: usize) -> Drawing {
    let mut polygons = Vec::new();
    for _ in 0..count {
        polygons.push(Polygon {
            points: vec![Point { x: 0, y: 0 }, Point { x: 9, y: 0 }, Point { x: 0, y: 9 }],
            color: Color { r: 1, g: 2, b: 3, a: 100 },
        });
    }
    Drawing { polygons, is_dirty: false, fitness: 0 }
}

fn padded_rows(width: usize, height: usize, fill: u8) -> Vec<u8> {
    let dims = BufferDimensions::new(width, height);
    let mut buffer = Vec::new();
    for _ in 0..height {
        for column in 0..dims.padded_bytes_per_row {
            buffer.push(if column < dims.unpadded_bytes_per_row { fill } else { 0xEE });
        }
    }
    buffer
}

#[test]
fn buffer_dimensions_pad_rows_to_the_alignment() {
    let small = BufferDimensions::new(2, 2);
    assert_eq!(small.width, 2);
    assert_eq!(small.height, 2);
    assert_eq!(small.unpadded_bytes_per_row, 8);
    assert_eq!(small.padded_bytes_per_row, 256);
    let exact = BufferDimensions::new(64, 3);
    assert_eq!(exact.unpadded_bytes_per_row, 256);
    assert_eq!(exact.padded_bytes_per_row, 256);
    let over = BufferDimensions::new(65, 1);
    assert_eq!(over.unpadded_bytes_per_row, 260);
    assert_eq!(over.padded_bytes_per_row, 512);
    let none = BufferDimensions::new(0, 7);
    assert_eq!(none.unpadded_bytes_per_row, 0);
    assert_eq!(none.padded_bytes_per_row, 0);
}

#[test]
fn strip_padding_removes_the_tail_of_each_row() {
    let dims = BufferDimensions::new(2, 3);
    let mut buffer: Vec<u8> = Vec::new();
    for row in 0..3u8 {
        for column in 0..256usize {
            buffer.push(if column < 8 { row * 10 + column as u8 } else { 0xEE });
        }
    }
    let pixels = strip_padding(&buffer, &dims).unwrap();
    let expected: Vec<u8> = vec![
        0, 1, 2, 3, 4, 5, 6, 7, 10, 11, 12, 13, 14, 15, 16, 17, 20, 21, 22, 23, 24, 25, 26, 27,
    ];
    assert_eq!(pixels, expected);
}

#[test]
fn strip_padding_keeps_an_unpadded_buffer() {
    let dims = BufferDimensions::new(2, 2);
    let buffer: Vec<u8> = (0..16).collect();
    assert_eq!(strip_padding(&buffer, &dims), Some(buffer.clone()));
}

#[test]
fn strip_padding_refuses_other_lengths() {
    let dims = BufferDimensions::new(2, 2);
    assert_eq!(strip_padding(&vec![0; 15], &dims), None);
    assert_eq!(strip_padding(&vec![0; 511], &dims), None);
    assert_eq!(strip_padding(&vec![], &dims), None);
    assert!(strip_padding(&vec![0; 512], &dims).is_some());
}

#[test]
fn integer_sqrt_rounds_down() {
    assert_eq!(integer_sqrt(0), 0);
    assert_eq!(integer_sqrt(1), 1);
    assert_eq!(integer_sqrt(3), 1);
    assert_eq!(integer_sqrt(4), 2);
    assert_eq!(integer_sqrt(99), 9);
    assert_eq!(integer_sqrt(100), 10);
    assert_eq!(integer_sqrt(195_075_000_000), 441_672);
    assert_eq!(integer_sqrt(u64::MAX), 4_294_967_295);
}

#[test]
fn pixel_distance_is_euclidean_over_rgb() {
    assert_eq!(pixel_distance(0, 0, 0), 0);
    assert_eq!(pixel_distance(3, 4, 0), 5_000);
    assert_eq!(pixel_distance(0, 3, 4), 5_000);
    assert_eq!(pixel_distance(1, 1, 1), 1_732);
    assert_eq!(pixel_distance(255, 0, 0), 255_000);
    assert_eq!(pixel_distance(255, 255, 255), MAX_ERROR_PER_PIXEL);
}

#[test]
fn calculate_error_sums_pixels_and_ignores_alpha() {
    let buffer: Vec<u8> = vec![3, 4, 0, 255, 0, 0, 0, 9, 255, 255, 255, 0, 1, 1, 1, 1];
    let (error, heat) = calculate_error_from_gpu(&buffer);
    assert_eq!(error, 5_000 + 0 + 441_672 + 1_732);
    assert_eq!(heat.len(), 16);
    assert_eq!(&heat[0..4], &[252, 252, 252, 255]);
    assert_eq!(&heat[4..8], &[255, 255, 255, 255]);
    assert_eq!(&heat[8..12], &[0, 0, 0, 255]);
    assert_eq!(&heat[12..16], &[254, 254, 254, 255]);
}

#[test]
fn calculate_error_skips_a_trailing_partial_pixel() {
    let buffer: Vec<u8> = vec![3, 4, 0, 0, 200, 200];
    let (error, heat) = calculate_error_from_gpu(&buffer);
    assert_eq!(error, 5_000);
    assert_eq!(heat.len(), 4);
    let (none, blank) = calculate_error_from_gpu(&vec![]);
    assert_eq!(none, 0);
    assert!(blank.is_empty());
}

#[test]
fn absolute_difference_is_channel_wise() {
    let source: Vec<u8> = vec![0, 255, 10, 20];
    let drawing: Vec<u8> = vec![255, 0, 10, 25];
    assert_eq!(absolute_difference(&source, &drawing), vec![255, 255, 0, 5]);
}

#[test]
fn check_error_calcs_agree_on_the_difference_image() {
    let source: Vec<u8> = vec![10, 20, 30, 255, 0, 0, 0, 255];
    let drawing: Vec<u8> = vec![13, 16, 30, 255, 255, 255, 255, 255];
    let difference = absolute_difference(&source, &drawing);
    let (from_images, from_buffer) = check_error_calcs(&source, &drawing, &difference);
    assert_eq!(from_images, 5_000 + 441_672);
    assert_eq!(from_buffer, from_images);
    let (again, other) = check_error_calcs(&source, &drawing, &vec![0; 8]);
    assert_eq!(again, from_images);
    assert_eq!(other, 0);
}

#[test]
fn fitness_is_one_hundred_without_error_and_points() {
    assert_eq!(fitness(0, 2, 2, 0), PERFECT_FITNESS);
    assert_eq!(fitness(0, 640, 480, 0), 100_000_000_000_000);
}

#[test]
fn fitness_is_zero_at_the_largest_error() {
    assert_eq!(fitness(4 * 441_672, 2, 2, 0), 0);
    assert_eq!(fitness(4 * 441_672, 2, 2, 500), 0);
}

#[test]
fn fitness_follows_the_formula() {
    // Half of the largest error of one pixel: a base of fifty points.
    assert_eq!(fitness(220_836, 1, 1, 0), 50_000_000_000_000);
    // Thirty points cost thirty times a ten-thousandth of the base.
    assert_eq!(fitness(220_836, 1, 1, 30), 50_000_000_000_000 - 150_000_000_000);
    // A base that does not divide evenly is rounded down.
    assert_eq!(fitness(1, 1, 1, 0), 99_999_773_000_000);
    // Past ten thousand points the penalty exceeds the base.
    assert_eq!(fitness(0, 1, 1, 10_000), 0);
    assert_eq!(fitness(0, 1, 1, 20_000), -100_000_000_000_000);
}

#[test]
fn fitness_falls_with_every_point() {
    let mut last = fitness(1_000, 2, 2, 0);
    for points in 1..200usize {
        let next = fitness(1_000, 2, 2, points);
        assert!(next < last);
        last = next;
    }
}

#[test]
fn white_target_and_empty_drawing_score_one_hundred() {
    let white: Vec<u8> = vec![255; 16];
    let engine = Engine::new(&white, None, 2, 2).unwrap();
    let rendered = padded_rows(2, 2, 255);
    let difference = absolute_difference(&white, &strip_padding(&rendered, &engine.buffer_dimensions()).unwrap());
    let evaluation = engine
        .evaluate_drawing(&empty_drawing(), Some(rendered), Some(difference))
        .unwrap();
    assert_eq!(evaluation.error, 0);
    assert_eq!(evaluation.fitness, PERFECT_FITNESS);
    assert_eq!(evaluation.drawing_bytes, white);
    assert_eq!(evaluation.error_heatmap, vec![255; 16]);
}

#[test]
fn evaluation_counts_error_and_points() {
    let black: Vec<u8> = vec![0, 0, 0, 255, 0, 0, 0, 255];
    let engine = Engine::new(&black, None, 2, 1).unwrap();
    let rendered: Vec<u8> = vec![255, 255, 255, 255, 0, 0, 0, 255];
    let difference = absolute_difference(&black, &rendered);
    let drawing = triangles(2);
    let evaluation = engine
        .evaluate_drawing(&drawing, Some(rendered.clone()), Some(difference))
        .unwrap();
    assert_eq!(evaluation.error, 441_672);
    assert_eq!(evaluation.fitness, 50_000_000 * (1_000_000 - 6 * 100));
    assert_eq!(evaluation.drawing_bytes, rendered);
    assert_eq!(evaluation.error_heatmap, vec![0, 0, 0, 255, 255, 255, 255, 255]);
}

#[test]
fn evaluation_is_repeatable() {
    let source: Vec<u8> = vec![9, 8, 7, 255, 100, 150, 200, 255, 1, 2, 3, 255, 0, 0, 0, 255];
    let engine = Engine::new(&source, None, 2, 2).unwrap();
    let rendered = padded_rows(2, 2, 77);
    let pixels = strip_padding(&rendered, &engine.buffer_dimensions()).unwrap();
    let difference = absolute_difference(&source, &pixels);
    let drawing = triangles(3);
    let first = engine
        .evaluate_drawing(&drawing, Some(rendered.clone()), Some(difference.clone()))
        .unwrap();
    let second = engine.evaluate_drawing(&drawing, Some(rendered), Some(difference)).unwrap();
    assert_eq!(first.error, second.error);
    assert_eq!(first.fitness, second.fitness);
    assert_eq!(first.drawing_bytes, second.drawing_bytes);
    assert_eq!(first.error_heatmap, second.error_heatmap);
    assert!(first.error > 0);
}

#[test]
fn evaluation_fails_without_the_rendered_buffer() {
    let engine = Engine::new(&vec![255; 16], None, 2, 2).unwrap();
    let result = engine.evaluate_drawing(&empty_drawing(), None, Some(vec![0; 16]));
    assert_eq!(result.err(), Some(EvaluationFailed::DrawingUnreadable));
    let both = engine.evaluate_drawing(&empty_drawing(), None, None);
    assert_eq!(both.err(), Some(EvaluationFailed::DrawingUnreadable));
}

#[test]
fn evaluation_fails_on_an_empty_rendered_buffer() {
    let engine = Engine::new(&vec![255; 16], None, 2, 2).unwrap();
    let result = engine.evaluate_drawing(&empty_drawing(), Some(vec![]), Some(vec![0; 16]));
    assert_eq!(result.err(), Some(EvaluationFailed::DrawingLength));
}

#[test]
fn evaluation_fails_without_the_error_buffer() {
    let engine = Engine::new(&vec![255; 16], None, 2, 2).unwrap();
    let result = engine.evaluate_drawing(&empty_drawing(), Some(vec![255; 16]), None);
    assert_eq!(result.err(), Some(EvaluationFailed::ErrorUnreadable));
}

#[test]
fn evaluation_fails_on_an_empty_error_buffer() {
    let engine = Engine::new(&vec![255; 16], None, 2, 2).unwrap();
    let result = engine.evaluate_drawing(&empty_drawing(), Some(vec![255; 16]), Some(vec![]));
    assert_eq!(result.err(), Some(EvaluationFailed::ErrorLength));
    let long = engine.evaluate_drawing(&empty_drawing(), Some(vec![255; 16]), Some(vec![0; 20]));
    assert_eq!(long.err(), Some(EvaluationFailed::ErrorLength));
}

#[test]
fn engine_new_starts_paused_and_unscored() {
    let source: Vec<u8> = vec![1; 24];
    let engine = Engine::new(&source, None, 3, 2).unwrap();
    assert_eq!(engine.width(), 3);
    assert_eq!(engine.height(), 2);
    assert!(!engine.is_running());
    assert!(engine.best_drawing_bytes().is_empty());
    assert_eq!(engine.error_bytes(), &vec![0u8; 24]);
    assert_eq!(engine.stats().generated, 0);
    assert_eq!(engine.stats().improvements, 0);
    assert_eq!(engine.stats().cycle_time, 0);
    assert_eq!(engine.stats().ticks, 0);
    assert!(engine.best_drawing().is_dirty);
    assert_eq!(engine.best_drawing().fitness, 0);
    assert_eq!(engine.best_drawing().validate(), Ok(()));
    assert_eq!(engine.buffer_dimensions(), BufferDimensions::new(3, 2));
}

#[test]
fn engine_new_resumes_from_a_drawing() {
    let mut drawing = triangles(4);
    drawing.fitness = 12345;
    let engine = Engine::new(&vec![0; 4], Some(drawing), 1, 1).unwrap();
    assert_eq!(engine.best_drawing().polygons.len(), 4);
    assert_eq!(engine.best_drawing().fitness, 12345);
    assert!(!engine.best_drawing().is_dirty);
}

#[test]
fn engine_new_rejects_an_empty_image() {
    assert_eq!(Engine::new(&vec![], None, 0, 5).err(), Some(EngineError::EmptyImage));
    assert_eq!(Engine::new(&vec![], None, 5, 0).err(), Some(EngineError::EmptyImage));
}

#[test]
fn engine_new_rejects_an_image_too_large() {
    assert_eq!(
        Engine::new(&vec![], None, usize::MAX / 2, 1).err(),
        Some(EngineError::ImageTooLarge)
    );
    assert_eq!(
        Engine::new(&vec![], None, usize::MAX / 4, 1).err(),
        Some(EngineError::ImageTooLarge)
    );
    assert_eq!(
        Engine::new(&vec![], None, 1, usize::MAX / 2).err(),
        Some(EngineError::ImageTooLarge)
    );
}

#[test]
fn engine_new_rejects_a_wrong_source_length() {
    assert_eq!(Engine::new(&vec![0; 15], None, 2, 2).err(), Some(EngineError::SourceLength));
    assert_eq!(Engine::new(&vec![0; 17], None, 2, 2).err(), Some(EngineError::SourceLength));
}

#[test]
fn engine_new_rejects_a_malformed_drawing() {
    let result = Engine::new(&vec![0; 16], Some(empty_drawing()), 2, 2);
    assert_eq!(result.err(), Some(EngineError::InvalidDrawing(DrawingError::TooFewPolygons)));
    let mut drawing = triangles(2);
    drawing.polygons[1].color.a = 255;
    let result = Engine::new(&vec![0; 16], Some(drawing), 2, 2);
    assert_eq!(
        result.err(),
        Some(EngineError::InvalidDrawing(DrawingError::AlphaOutOfRange { polygon: 1 }))
    );
}

#[test]
fn workgroup_count_covers_the_axis() {
    assert_eq!(workgroup_count(0), 0);
    assert_eq!(workgroup_count(1), 1);
    assert_eq!(workgroup_count(8), 1);
    assert_eq!(workgroup_count(9), 2);
    assert_eq!(workgroup_count(640), 80);
    assert_eq!(workgroup_count(u32::MAX), 536_870_912);
}

#[test]
fn padded_buffer_size_counts_padded_rows() {
    assert_eq!(padded_buffer_size(2, 2), Some(512));
    assert_eq!(padded_buffer_size(64, 3), Some(768));
    assert_eq!(padded_buffer_size(65, 3), Some(1536));
    assert_eq!(padded_buffer_size(0, 9), Some(0));
    assert_eq!(padded_buffer_size(9, 0), Some(0));
    assert_eq!(padded_buffer_size(usize::MAX, 0), Some(0));
    assert_eq!(padded_buffer_size(usize::MAX / 4, 1), None);
    assert_eq!(padded_buffer_size(usize::MAX / 2, 1), None);
    assert_eq!(padded_buffer_size(16, usize::MAX / 2), None);
}
