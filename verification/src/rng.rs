//! Seeded pseudo-random draws.
//!
//! Every random choice of a run (fault schedules, workload randomness) is
//! drawn from a `StdRng` seeded by the experiment seed. The generator is an
//! outside value whose state Verus cannot see. Its state after seeding, and
//! each draw, are named: they are functions of the seed, the generator's
//! state and the range. Draws of `usize` ranges are sampled at the target's
//! word size, so their names take that size too.
use vstd::prelude::*;

use rand::rngs::StdRng;

verus! {

#[verifier::external_type_specification]
#[verifier::external_body]
pub struct ExStdRng(StdRng);

/// The generator `rand::SeedableRng::seed_from_u64` builds for `StdRng`
/// from `seed`.
pub uninterp spec fn seeded_stream(seed: u64) -> StdRng;

/// What `rand::Rng::gen_range(0..bound)` on `u64` gives from a generator in
/// state `g`: the draw, and the state the generator is left in.
pub uninterp spec fn u64_draw(g: StdRng, bound: u64) -> (u64, StdRng);

/// What `rand::Rng::gen_range(low..high)` on `i64` gives from a generator in
/// state `g`: the draw, and the state the generator is left in.
pub uninterp spec fn i64_draw(g: StdRng, low: i64, high: i64) -> (i64, StdRng);

/// What `rand::Rng::gen_range(0..bound)` on `usize` gives from a generator
/// in state `g` on a target whose `usize` has `bits` bits: the draw, and the
/// state the generator is left in.
pub uninterp spec fn usize_draw(g: StdRng, bound: usize, bits: u32) -> (usize, StdRng);

/// What `rand::Rng::gen_range(low..=high)` on `usize` gives from a generator
/// in state `g` on a target whose `usize` has `bits` bits: the draw, and the
/// state the generator is left in.
pub uninterp spec fn usize_inclusive_draw(g: StdRng, low: usize, high: usize, bits: u32) -> (usize, StdRng);

/// `rand::SeedableRng::seed_from_u64` for `StdRng`: the generator is a
/// function of `seed` alone (the seed is expanded by a fixed PCG32 stream
/// into the ChaCha key).
#[verifier::external_body]
pub(crate) fn seeded(seed: u64) -> (r: StdRng)
    ensures
        r == seeded_stream(seed),
{
    <StdRng as rand::SeedableRng>::seed_from_u64(seed)
}

/// `rand::Rng::gen_range(0..bound)` on `usize`: a draw in `[0, bound)`,
/// which together with the generator's next state is a function of the
/// generator's state, `bound` and the word size (the draw is sampled at
/// `usize` width). The call panics on an empty range, which `bound > 0`
/// excludes.
#[verifier::external_body]
pub(crate) fn below(rng: &mut StdRng, bound: usize) -> (r: usize)
    requires
        bound > 0,
    ensures
        r < bound,
        (r, *final(rng)) == usize_draw(*old(rng), bound, usize::BITS),
{
    rand::Rng::gen_range(rng, 0..bound)
}

/// `rand::Rng::gen_range(0..bound)` on `u64`: a draw in `[0, bound)`,
/// which together with the generator's next state is a function of the
/// generator's state and `bound`. The call panics on an empty range, which
/// `bound > 0` excludes.
#[verifier::external_body]
pub(crate) fn below_u64(rng: &mut StdRng, bound: u64) -> (r: u64)
    requires
        bound > 0,
    ensures
        r < bound,
        (r, *final(rng)) == u64_draw(*old(rng), bound),
{
    rand::Rng::gen_range(rng, 0..bound)
}

/// `rand::Rng::gen_range(low..high)` on `i64`: a draw in `[low, high)`,
/// which together with the generator's next state is a function of the
/// generator's state and the range. The call panics on an empty range,
/// which `low < high` excludes.
#[verifier::external_body]
pub(crate) fn in_range(rng: &mut StdRng, low: i64, high: i64) -> (r: i64)
    requires
        low < high,
    ensures
        low <= r < high,
        (r, *final(rng)) == i64_draw(*old(rng), low, high),
{
    rand::Rng::gen_range(rng, low..high)
}

/// `rand::Rng::gen_range(low..=high)` on `usize`: a draw in `[low, high]`,
/// which together with the generator's next state is a function of the
/// generator's state, the range and the word size (the draw is sampled at
/// `usize` width). The call panics on an empty range, which `low <= high`
/// excludes.
#[verifier::external_body]
pub(crate) fn in_range_inclusive(rng: &mut StdRng, low: usize, high: usize) -> (r: usize)
    requires
        low <= high,
    ensures
        low <= r <= high,
        (r, *final(rng)) == usize_inclusive_draw(*old(rng), low, high, usize::BITS),
{
    rand::Rng::gen_range(rng, low..=high)
}

} // verus!
