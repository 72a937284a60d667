//! A seedable pseudo-random source.
//!
//! Randomness is threaded explicitly, as one `RandomSource` value passed to
//! every operation that consumes entropy, so a whole render is reproducible
//! from its seed.  The generator itself comes from the rand crate; nothing
//! is assumed of the values it yields, so everything proved downstream
//! holds for every outcome of every draw.

use vstd::prelude::*;
use crate::fx::{Fx, FX_ONE};

verus! {

/// rand's standard generator, declared so it can stand in fields of
/// verified code; its values are opaque here.
#[verifier::external_type_specification]
#[verifier::external_body]
pub struct ExStdRng(rand::rngs::StdRng);

/// A deterministic, seedable source of entropy for sampling.
pub struct RandomSource {
    inner: rand::rngs::StdRng,
}

impl RandomSource {
    /// A source seeded with the given word: rand documents the seeding as
    /// deterministic, so one seed always yields one draw sequence.
    pub fn from_seed(seed: u64) -> (r: RandomSource) {
        RandomSource::new_seeded(seed)
    }

    /// Relies on rand's `SeedableRng::seed_from_u64` to build the standard
    /// generator from a word-sized seed.
    #[verifier::external_body]
    fn new_seeded(seed: u64) -> (r: RandomSource) {
        RandomSource { inner: <rand::rngs::StdRng as rand::SeedableRng>::seed_from_u64(seed) }
    }

    /// Relies on rand's `RngCore::next_u64` for the raw draw; nothing is
    /// promised of the value.
    #[verifier::external_body]
    fn next_u64(&mut self) -> (r: u64) {
        rand::RngCore::next_u64(&mut self.inner)
    }

    /// A scalar in `[0, 1)`: one of the `FX_ONE` raw values below 1.
    pub fn next_unit(&mut self) -> (r: Fx)
        ensures
            r.wf(),
            0 <= r.raw < FX_ONE,
    {
        let w = self.next_u64();
        Fx { raw: (w % (FX_ONE as u64)) as i64 }
    }

    /// A scalar in `[min, max)` (in `[min, max]` when the bounds are closer
    /// than one raw step apart).
    pub fn next_range(&mut self, min: Fx, max: Fx) -> (r: Fx)
        requires
            min.wf(),
            max.wf(),
            min.raw <= max.raw,
        ensures
            r.wf(),
            min.raw <= r.raw <= max.raw,
            min.raw < max.raw ==> r.raw < max.raw,
    {
        let u = self.next_unit();
        let d = max.sub(min);
        let m = u.mul(d);
        proof {
            lemma_unit_scale_below(u.raw as int, d.raw as int);
        }
        min.add(m)
    }
}

/// Scaling a non-negative scalar by a unit-interval factor keeps it below
/// the scalar (and at zero stays zero).
proof fn lemma_unit_scale_below(u: int, d: int)
    requires
        0 <= u < FX_ONE,
        0 <= d,
    ensures
        0 <= crate::fx::fx_mul_v(u, d) <= d,
        d > 0 ==> crate::fx::fx_mul_v(u, d) < d,
{
    let p = crate::fx::abs_i(u) * crate::fx::abs_i(d);
    assert(p == u * d);
    assert(u * d >= 0) by (nonlinear_arith)
        requires
            u >= 0,
            d >= 0,
    ;
    assert(u * d <= (65536 - 1) * d) by (nonlinear_arith)
        requires
            u <= 65536 - 1,
            d >= 0,
    ;
    assert(p / 65536 <= ((65536 - 1) * d) / 65536);
    assert(((65536 - 1) * d) / 65536 <= d) by (nonlinear_arith)
        requires
            d >= 0,
    ;
    if d > 0 {
        assert(((65536 - 1) * d) / 65536 < d) by (nonlinear_arith)
            requires
                d > 0,
        ;
    }
}

} // verus!
