//! The fitness of a drawing: closeness to the target, less a penalty for
//! every point.

use vstd::prelude::*;

use crate::model::settings::{
    MAX_ERROR_PER_PIXEL, PENALTY_SCALE, PERFECT_BASE_FITNESS, PER_POINT_MULTIPLIER,
};

verus! {

/// The fitness of a drawing without points that matches its target
/// exactly: one hundred points.
pub const PERFECT_FITNESS: i128 = 100_000_000_000_000;

/// The largest scalar error of an image of the given size.
pub open spec fn max_total_error(width: int, height: int) -> int {
    MAX_ERROR_PER_PIXEL * width * height
}

/// The fitness before the penalty, in millionths of a point: one hundred
/// points times the share of the largest error that the drawing avoids,
/// rounded down.
pub open spec fn base_fitness(error: int, width: int, height: int) -> int {
    PERFECT_BASE_FITNESS * (max_total_error(width, height) - error) / max_total_error(
        width,
        height,
    )
}

/// The fitness: the base fitness less the share of it that the points
/// cost.
pub open spec fn fitness_of(error: int, width: int, height: int, num_points: int) -> int {
    base_fitness(error, width, height) * PENALTY_SCALE - base_fitness(error, width, height)
        * PER_POINT_MULTIPLIER * num_points
}

/// The base fitness lies between zero and one hundred points, and is one
/// hundred points where there is no error.
pub proof fn lemma_base_fitness_bounds(error: int, width: int, height: int)
    requires
        width > 0,
        height > 0,
        0 <= error <= max_total_error(width, height),
    ensures
        0 <= base_fitness(error, width, height) <= PERFECT_BASE_FITNESS,
        error == 0 ==> base_fitness(error, width, height) == PERFECT_BASE_FITNESS,
        base_fitness(error, width, height) > 0 ==> error < max_total_error(width, height),
{
    let limit = max_total_error(width, height);
    assert(limit > 0) by (nonlinear_arith)
        requires
            limit == MAX_ERROR_PER_PIXEL * width * height,
            width > 0,
            height > 0,
    ;
    let share = PERFECT_BASE_FITNESS * (limit - error);
    assert(0 <= share <= PERFECT_BASE_FITNESS * limit) by (nonlinear_arith)
        requires
            share == PERFECT_BASE_FITNESS * (limit - error),
            0 <= error <= limit,
    ;
    vstd::arithmetic::div_mod::lemma_div_pos_is_pos(share, limit);
    vstd::arithmetic::div_mod::lemma_div_is_ordered(share, PERFECT_BASE_FITNESS * limit, limit);
    vstd::arithmetic::div_mod::lemma_div_multiples_vanish(PERFECT_BASE_FITNESS as int, limit);
    assert(PERFECT_BASE_FITNESS * limit == limit * PERFECT_BASE_FITNESS) by (nonlinear_arith);
    if error == limit {
        assert(share == 0);
    }
}

/// With the error held fixed and the base fitness above zero, a drawing
/// of more points has a strictly lower fitness.
pub proof fn lemma_penalty_monotonic(
    error: int,
    width: int,
    height: int,
    fewer_points: int,
    more_points: int,
)
    requires
        base_fitness(error, width, height) > 0,
        fewer_points < more_points,
    ensures
        fitness_of(error, width, height, more_points) < fitness_of(
            error,
            width,
            height,
            fewer_points,
        ),
{
    let base = base_fitness(error, width, height);
    assert(base * PER_POINT_MULTIPLIER * fewer_points < base * PER_POINT_MULTIPLIER * more_points)
        by (nonlinear_arith)
        requires
            base > 0,
            PER_POINT_MULTIPLIER > 0,
            fewer_points < more_points,
    ;
}

/// Computes [`fitness_of`] for the scalar error of a drawing of
/// `num_points` points against a target of `width` by `height` pixels.
/// The image must have pixels and fit in memory, and the error cannot
/// exceed the largest error of an image of that size.
pub fn fitness(error: u128, width: usize, height: usize, num_points: usize) -> (score: i128)
    requires
        width > 0,
        height > 0,
        width * height * 4 <= usize::MAX,
        error <= max_total_error(width as int, height as int),
    ensures
        score == fitness_of(error as int, width as int, height as int, num_points as int),
{
    proof {
        lemma_base_fitness_bounds(error as int, width as int, height as int);
    }
    assert(0 < width * height <= usize::MAX) by (nonlinear_arith)
        requires
            width > 0,
            height > 0,
            width * height * 4 <= usize::MAX,
    ;
    let pixels: u128 = (width as u128) * (height as u128);
    assert(MAX_ERROR_PER_PIXEL * pixels == max_total_error(width as int, height as int)
        && MAX_ERROR_PER_PIXEL * pixels <= 441_672 * 0xffff_ffff_ffff_ffff) by (nonlinear_arith)
        requires
            pixels == width * height,
            pixels <= 0xffff_ffff_ffff_ffff,
            MAX_ERROR_PER_PIXEL == 441_672,
    ;
    let max_total_error: u128 = MAX_ERROR_PER_PIXEL as u128 * pixels;
    let avoided: u128 = max_total_error - error;
    assert(PERFECT_BASE_FITNESS * avoided <= 100_000_000 * (441_672 * 0xffff_ffff_ffff_ffff))
        by (nonlinear_arith)
        requires
            avoided <= 441_672 * 0xffff_ffff_ffff_ffff,
            PERFECT_BASE_FITNESS == 100_000_000,
    ;
    let base: u128 = PERFECT_BASE_FITNESS as u128 * avoided / max_total_error;
    assert(base == base_fitness(error as int, width as int, height as int));
    let cost: u128 = PER_POINT_MULTIPLIER as u128 * num_points as u128;
    assert(base * PENALTY_SCALE <= 100_000_000 * 1_000_000 && base * cost <= 100_000_000 * (100
        * 0xffff_ffff_ffff_ffff) && base * cost == base * PER_POINT_MULTIPLIER * num_points)
        by (nonlinear_arith)
        requires
            0 <= base <= 100_000_000,
            PENALTY_SCALE == 1_000_000,
            PER_POINT_MULTIPLIER == 100,
            cost == PER_POINT_MULTIPLIER * num_points,
            0 <= num_points <= 0xffff_ffff_ffff_ffff,
    ;
    let mut fitness: i128 = (base * PENALTY_SCALE as u128) as i128;
    let penalty: i128 = (base * cost) as i128;
    fitness -= penalty;
    fitness
}

} // verus!
