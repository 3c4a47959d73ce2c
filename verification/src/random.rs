//! The random source of the mutation operators: the thread-local
//! generator of the `rand` crate, which the operating system seeds on first
//! use. Where that seeding fails, the first draw panics.

use rand::Rng;
use vstd::prelude::*;

use crate::model::settings::PROBABILITY_SCALE;

verus! {

/// Calls `rand::Rng::gen::<u8>` on the thread-local generator. Nothing is
/// claimed of the byte that comes back.
#[verifier::external_body]
pub(crate) fn random_byte() -> (value: u8) {
    rand::thread_rng().gen::<u8>()
}

/// Calls `rand::Rng::gen_range` with the range `0..bound` on the
/// thread-local generator. The range must not be empty, as `gen_range`
/// panics on an empty one; the value drawn lies inside the range.
#[verifier::external_body]
pub(crate) fn random_below(bound: usize) -> (value: usize)
    requires
        bound > 0,
    ensures
        value < bound,
{
    rand::thread_rng().gen_range(0..bound)
}

/// Calls `rand::Rng::gen_ratio` on the thread-local generator. The
/// denominator must not be zero nor smaller than the numerator, as
/// `gen_ratio` panics otherwise. A ratio of one always hits and a ratio of
/// zero never does; nothing else is claimed of the outcome.
#[verifier::external_body]
pub(crate) fn random_ratio(numerator: u32, denominator: u32) -> (hit: bool)
    requires
        denominator > 0,
        numerator <= denominator,
    ensures
        numerator == denominator ==> hit,
        numerator == 0 ==> !hit,
{
    rand::thread_rng().gen_ratio(numerator, denominator)
}

/// One Bernoulli trial: true with the given probability, in parts per
/// [`PROBABILITY_SCALE`]. A probability above the scale counts as certain.
pub fn happens(probability: u32) -> (hit: bool)
    ensures
        probability >= PROBABILITY_SCALE ==> hit,
        probability == 0 ==> !hit,
{
    if probability >= PROBABILITY_SCALE {
        true
    } else {
        random_ratio(probability, PROBABILITY_SCALE)
    }
}

/// A fair coin.
pub fn coin_flip() -> (heads: bool) {
    random_ratio(1, 2)
}

/// The offset that a draw from `[0, 2 * magnitude]` stands for: the draw
/// less the magnitude, so that the draws map one to one onto
/// `[-magnitude, magnitude]`.
pub fn offset_from_draw(drawn: usize, magnitude: u32) -> (delta: i32)
    requires
        magnitude <= i32::MAX,
        drawn <= 2 * magnitude,
    ensures
        delta == drawn - magnitude,
{
    (drawn as i64 - magnitude as i64) as i32
}

/// A signed offset drawn uniformly from `[-magnitude, magnitude]`.
pub fn random_offset(magnitude: u32) -> (delta: i32)
    requires
        magnitude <= i32::MAX,
    ensures
        -magnitude <= delta <= magnitude,
{
    let span: u32 = 2 * magnitude + 1;
    let drawn: usize = random_below(span as usize);
    offset_from_draw(drawn, magnitude)
}

} // verus!
