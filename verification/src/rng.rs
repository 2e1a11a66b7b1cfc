use vstd::prelude::*;

verus! {

// The mine layout is drawn from oorandom's `Rand32`, a permuted congruential
// generator whose behaviour is a pure function of its two-word state.  The
// library keeps that state as a pair of plain `u64` values, so that the whole
// draw sequence — and with it the generated board — is pinned by the seed.

/// The state of a `Rand32` freshly created from `seed`.
pub uninterp spec fn pcg_seed_state(seed: u64) -> (u64, u64);

/// The draw and the successor state of one bounded draw taken at state
/// `(s0, s1)`: the result is `(value, next_s0, next_s1)`.
pub uninterp spec fn pcg_step(s0: u64, s1: u64, bound: u32) -> (u32, u64, u64);

/// Relies on `oorandom::Rand32::new` and `Rand32::state`: the freshly seeded
/// generator's state is a function of the seed alone, and its increment word
/// is odd, because `new` passes the default increment through
/// `wrapping_shl(1) | 1`.
#[verifier::external_body]
pub fn rng_seed_state(seed: u64) -> (r: (u64, u64))
    ensures
        r == pcg_seed_state(seed),
        r.1 % 2 == 1,
{
    let rng = oorandom::Rand32::new(seed);
    rng.state()
}

/// Relies on `oorandom::Rand32::{from_state, rand_range, state}`: a draw from
/// `0..bound` lies below `bound`, the draw and the state it leaves behind are
/// functions of the state it started from and the bound alone, and the
/// increment word is left untouched.  The increment must be odd: with an odd
/// increment the generator has full period, so the bounded draw's rejection
/// loop terminates, while an even increment admits constant generators on
/// which it would not return.
#[verifier::external_body]
pub fn rng_draw(s0: u64, s1: u64, bound: u32) -> (r: (u32, u64, u64))
    requires
        1 <= bound,
        s1 % 2 == 1,
    ensures
        r == pcg_step(s0, s1, bound),
        r.0 < bound,
        r.2 == s1,
{
    let mut rng = oorandom::Rand32::from_state((s0, s1));
    let value = rng.rand_range(0..bound);
    let (t0, t1) = rng.state();
    (value, t0, t1)
}

/// The generator state right before the draw for cell `k`, when every cell is
/// drawn with the same bound from a generator seeded with `seed`.
pub open spec fn pcg_state_at(seed: u64, bound: u32, k: nat) -> (u64, u64)
    decreases k,
{
    if k == 0 {
        pcg_seed_state(seed)
    } else {
        let prev = pcg_state_at(seed, bound, (k - 1) as nat);
        let step = pcg_step(prev.0, prev.1, bound);
        (step.1, step.2)
    }
}

/// The draw for cell `k` of that sequence.
pub open spec fn pcg_draw_at(seed: u64, bound: u32, k: nat) -> u32 {
    let st = pcg_state_at(seed, bound, k);
    pcg_step(st.0, st.1, bound).0
}

/// Whether cell `k` of a board drawn with denominator `bound` from `seed`
/// holds a mine: exactly the cells whose draw from `[0, bound)` is zero.
pub open spec fn mine_at(seed: u64, bound: u32, k: nat) -> bool {
    pcg_draw_at(seed, bound, k) == 0
}

} // verus!
