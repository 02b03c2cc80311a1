//! The random number generator and the few draws that the rules make from it.
//!
//! A draw follows from the state of the generator alone and leaves it in a new
//! state, so that a seeded game can be played again.

use rand::rngs::StdRng;
use vstd::prelude::*;

verus! {

#[verifier::external_type_specification]
#[verifier::external_body]
pub struct ExStdRng(rand::rngs::StdRng);

/// The generator that `StdRng::seed_from_u64` makes of a seed.
pub uninterp spec fn seeded(seed: u64) -> StdRng;

/// `SeedableRng::seed_from_u64` for `StdRng`: the generator is a function of
/// the seed alone.
#[verifier::external_body]
pub(crate) fn seed_rng(seed: u64) -> (rng: StdRng)
    ensures
        rng == seeded(seed),
{
    rand::SeedableRng::seed_from_u64(seed)
}

/// `rand::make_rng`: a generator seeded from the thread's own, of which
/// nothing is known.
#[verifier::external_body]
pub(crate) fn fresh_rng() -> StdRng {
    rand::make_rng()
}

/// What `RngExt::random_ratio` draws from a generator, and the generator after
/// it.
pub uninterp spec fn drawn_ratio(rng: StdRng, numerator: u32, denominator: u32) -> (bool, StdRng);

/// `RngExt::random_ratio`: true with a chance of `numerator` in `denominator`,
/// so always when the two are equal and never when the numerator is zero. The
/// generator is a cipher whose next block decides, so the draw and what becomes
/// of the generator follow from its state and the two numbers. How the draws
/// are spread over many states is not stated.
#[verifier::external_body]
pub(crate) fn draw_ratio(rng: &mut StdRng, numerator: u32, denominator: u32) -> (hit: bool)
    requires
        0 < denominator,
        numerator <= denominator,
    ensures
        (hit, *final(rng)) == drawn_ratio(*old(rng), numerator, denominator),
        numerator == denominator ==> hit,
        numerator == 0 ==> !hit,
{
    rand::RngExt::random_ratio(rng, numerator, denominator)
}

/// What `RngExt::random_range` draws from a generator below a bound, and the
/// generator after it.
pub uninterp spec fn drawn_below(rng: StdRng, bound: u32) -> (u32, StdRng);

/// `RngExt::random_range` over `0..bound`: some number below the bound. It and
/// what becomes of the generator follow from the generator's state and the
/// bound. How the draws are spread over many states is not stated.
#[verifier::external_body]
pub(crate) fn draw_below(rng: &mut StdRng, bound: u32) -> (drawn: u32)
    requires
        0 < bound,
    ensures
        (drawn, *final(rng)) == drawn_below(*old(rng), bound),
        drawn < bound,
{
    rand::RngExt::random_range(rng, 0..bound)
}

/// No number occurs twice.
pub open spec fn all_distinct(picks: Seq<usize>) -> bool {
    forall|i: int, j: int| 0 <= i < j < picks.len() ==> picks[i] != picks[j]
}

/// The indices that `rand::seq::index::sample` draws from a generator, and the
/// generator after it.
pub uninterp spec fn drawn_indices(rng: StdRng, length: usize, amount: usize) -> (
    Seq<usize>,
    StdRng,
);

/// `rand::seq::index::sample`: `amount` distinct indices below `length`, in
/// random order. They and what becomes of the generator follow from the
/// generator's state and the two numbers. How the draws are spread over many
/// states is not stated.
///
/// Only small amounts are asked for. The function wants strictly fewer indices
/// than the length where the length does not fit 32 bits, and sets room aside
/// for as many indices as it is asked for, which must not be more than any
/// allocation can hold.
#[verifier::external_body]
pub(crate) fn draw_indices(rng: &mut StdRng, length: usize, amount: usize) -> (picks: Vec<usize>)
    requires
        amount <= length,
        amount < length || length <= u32::MAX,
        amount <= u8::MAX,
    ensures
        (picks@, *final(rng)) == drawn_indices(*old(rng), length, amount),
        picks@.len() == amount,
        all_distinct(picks@),
        forall|i: int| 0 <= i < picks@.len() ==> (#[trigger] picks@[i]) < length,
{
    rand::seq::index::sample(rng, length, amount).into_vec()
}

} // verus!
