//! Seeded randomness for workload generation (`dstest.random`).
//!
//! All workload draws come from one generator seeded by the latest config
//! seed, a stream separate from the fault tree's so that workload draws do
//! not perturb the fault schedule. Every draw needs a seed. Draws of
//! floating-point values are made by the caller on [`WorkloadRng::rng_mut`].
use vstd::prelude::*;

use rand::rngs::StdRng;

use crate::rng::{i64_draw, in_range, in_range_inclusive, seeded, seeded_stream, usize_inclusive_draw};

verus! {

/// The error of a draw made before any config set a seed.
pub const NO_SEED: &'static str = "dstest.random requires a seed: call dstest.config({ seed = n }) first";

/// The draws a shuffle makes from a generator in state `g`, for `i` from
/// `top` down to 1 a draw in `[1, i]`, and the generator after them.
pub open spec fn swap_draws(g: StdRng, top: nat) -> (Seq<usize>, StdRng)
    decreases top,
{
    if top == 0 {
        (Seq::empty(), g)
    } else {
        let d = usize_inclusive_draw(g, 1, top as usize, usize::BITS);
        let rest = swap_draws(d.1, (top - 1) as nat);
        (seq![d.0] + rest.0, rest.1)
    }
}

/// The workload generator; unset until a config gives a seed.
pub struct WorkloadRng {
    rng: Option<StdRng>,
}

impl WorkloadRng {
    /// Whether a seed has been given.
    pub closed spec fn is_seeded(&self) -> bool {
        self.rng is Some
    }

    /// The generator's state; `None` before a seed.
    pub closed spec fn spec_rng(&self) -> Option<StdRng> {
        self.rng
    }

    /// The integer a draw in `[min, max)` gives from this generator, and
    /// the generator it leaves; `None` before a seed.
    pub open spec fn spec_int_draw(&self, min: i64, max: i64) -> Option<(i64, StdRng)> {
        match self.spec_rng() {
            Some(g) => Some(i64_draw(g, min, max)),
            None => None,
        }
    }

    pub fn new() -> (w: WorkloadRng)
        ensures
            !w.is_seeded(),
            w.spec_rng() is None,
    {
        WorkloadRng { rng: None }
    }

    /// Start a fresh stream from `seed` (each config with a seed restarts
    /// it).
    pub fn reseed(&mut self, seed: u64)
        ensures
            final(self).is_seeded(),
            final(self).spec_rng() == Some(seeded_stream(seed)),
    {
        self.rng = Some(seeded(seed));
    }

    /// A draw in `[min, max)`. The range must not be empty (the generator
    /// panics on an empty range). The draw and the generator it leaves are
    /// those of [`WorkloadRng::spec_int_draw`], so the same seed and the same
    /// sequence of integer draws give the same values.
    pub fn int_between(&mut self, min: i64, max: i64) -> (r: Result<i64, String>)
        requires
            min < max,
        ensures
            final(self).is_seeded() == old(self).is_seeded(),
            match r {
                Ok(v) => old(self).is_seeded() && min <= v < max,
                Err(e) => !old(self).is_seeded() && e@ == NO_SEED@,
            },
            match old(self).spec_int_draw(min, max) {
                Some(d) => r matches Ok(v) && v == d.0 && final(self).spec_rng() == Some(d.1),
                None => final(self).spec_rng() is None,
            },
    {
        match &mut self.rng {
            Some(rng) => Ok(in_range(rng, min, max)),
            None => Err(String::from_str(NO_SEED)),
        }
    }

    /// The 1-based index a choice among `len` values picks: none of an
    /// empty list (which needs no seed), else a draw in `[1, len]`.
    pub fn choice_index(&mut self, len: usize) -> (r: Result<Option<usize>, String>)
        ensures
            final(self).is_seeded() == old(self).is_seeded(),
            match r {
                Ok(None) => len == 0,
                Ok(Some(i)) => len > 0 && old(self).is_seeded() && 1 <= i <= len,
                Err(e) => len > 0 && !old(self).is_seeded() && e@ == NO_SEED@,
            },
            len == 0 ==> final(self).spec_rng() == old(self).spec_rng(),
            len > 0 ==> match old(self).spec_rng() {
                Some(g) => r matches Ok(Some(i)) && i == usize_inclusive_draw(g, 1, len, usize::BITS).0
                    && final(self).spec_rng() == Some(usize_inclusive_draw(g, 1, len, usize::BITS).1),
                None => final(self).spec_rng() is None,
            },
    {
        if len == 0 {
            return Ok(None);
        }
        match &mut self.rng {
            Some(rng) => Ok(Some(in_range_inclusive(rng, 1, len))),
            None => Err(String::from_str(NO_SEED)),
        }
    }

    /// The swaps a shuffle of `len` values (1-based) makes: for `i` from
    /// `len - 1` down to 1, `i` with a draw `j` in `[1, i]`. Fewer than two
    /// values need no swaps and no seed. (The last value never moves.)
    pub fn shuffle_swaps(&mut self, len: usize) -> (r: Result<Vec<(usize, usize)>, String>)
        ensures
            final(self).is_seeded() == old(self).is_seeded(),
            match r {
                Ok(swaps) => (len < 2 && swaps@.len() == 0) || (len >= 2 && old(self).is_seeded()
                    && swaps@.len() == len - 1 && forall|k: int|
                    0 <= k < swaps@.len() ==> #[trigger] swaps@[k].0 == len - 1 - k && 1
                        <= swaps@[k].1 <= swaps@[k].0),
                Err(e) => len >= 2 && !old(self).is_seeded() && e@ == NO_SEED@,
            },
            len < 2 ==> final(self).spec_rng() == old(self).spec_rng(),
            len >= 2 ==> match old(self).spec_rng() {
                Some(g) => r matches Ok(swaps) && (forall|k: int|
                    0 <= k < swaps@.len() ==> #[trigger] swaps@[k].1 == swap_draws(g, (len - 1) as nat).0[k])
                    && final(self).spec_rng() == Some(swap_draws(g, (len - 1) as nat).1),
                None => final(self).spec_rng() is None,
            },
    {
        let mut swaps: Vec<(usize, usize)> = Vec::new();
        if len < 2 {
            return Ok(swaps);
        }
        match &mut self.rng {
            None => Err(String::from_str(NO_SEED)),
            Some(rng) => {
                let ghost g0 = *rng;
                let ghost total = swap_draws(g0, (len - 1) as nat);
                let mut i: usize = len - 1;
                while i >= 1
                    invariant
                        len >= 2,
                        i < len,
                        swaps@.len() == len - 1 - i,
                        forall|k: int|
                            0 <= k < swaps@.len() ==> #[trigger] swaps@[k].0 == len - 1 - k && 1
                                <= swaps@[k].1 <= swaps@[k].0,
                        total == swap_draws(g0, (len - 1) as nat),
                        swaps@.map_values(|p: (usize, usize)| p.1) + swap_draws(*rng, i as nat).0 == total.0,
                        swap_draws(*rng, i as nat).1 == total.1,
                    decreases i,
                {
                    let ghost before = *rng;
                    let ghost js0 = swaps@.map_values(|p: (usize, usize)| p.1);
                    let j = in_range_inclusive(rng, 1, i);
                    swaps.push((i, j));
                    i -= 1;
                    proof {
                        let rest = swap_draws(*rng, i as nat);
                        assert(swap_draws(before, (i + 1) as nat).0 == seq![j] + rest.0);
                        assert(swaps@.map_values(|p: (usize, usize)| p.1) =~= js0.push(j));
                        assert(js0.push(j) + rest.0 =~= js0 + (seq![j] + rest.0));
                    }
                }
                proof {
                    assert(swap_draws(*rng, 0).0 =~= Seq::<usize>::empty());
                    let js = swaps@.map_values(|p: (usize, usize)| p.1);
                    assert(js + Seq::<usize>::empty() =~= js);
                    assert forall|k: int| 0 <= k < swaps@.len() implies #[trigger] swaps@[k].1 == total.0[k] by {
                        assert(js[k] == swaps@[k].1);
                    }
                }
                Ok(swaps)
            },
        }
    }

    /// The generator, for floating-point draws; `None` before a seed.
    pub fn rng_mut(&mut self) -> (r: Option<&mut StdRng>)
        ensures
            r is Some == old(self).is_seeded(),
            final(self).is_seeded() == old(self).is_seeded(),
    {
        match &mut self.rng {
            Some(rng) => Some(rng),
            None => None,
        }
    }
}

/// Workload draws are reproducible: generators in the same state (such as
/// two reseeded with the same seed, after the same draws) draw the same
/// integer from the same range, the same choice among `len` values and the
/// same shuffle swaps of `len` values, and are left in the same state; a
/// seeded generator always has a draw to give.
pub proof fn same_state_same_draws(a: WorkloadRng, b: WorkloadRng, min: i64, max: i64, len: usize)
    requires
        a.spec_rng() == b.spec_rng(),
    ensures
        a.spec_int_draw(min, max) == b.spec_int_draw(min, max),
        a.is_seeded() ==> a.spec_int_draw(min, max) is Some,
        a.is_seeded() ==> usize_inclusive_draw(a.spec_rng()->0, 1, len, usize::BITS) == usize_inclusive_draw(
            b.spec_rng()->0,
            1,
            len,
            usize::BITS,
        ),
        a.is_seeded() ==> swap_draws(a.spec_rng()->0, len as nat) == swap_draws(b.spec_rng()->0, len as nat),
{
}

} // verus!
