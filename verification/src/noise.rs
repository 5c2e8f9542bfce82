//! The source of randomness: uniform noise drawn from an outside generator.
//! Only the sampling call itself is trusted; the contracts state no more than
//! the range the outside crate documents, so everything downstream is
//! verified for every value the sampler can return.

use vstd::prelude::*;
use crate::data::NOISE_LIMIT;

verus! {

#[verifier::external_type_specification]
#[verifier::external_body]
pub struct ExStdRng(rand::rngs::StdRng);

/// Relies on rand::RngExt::random_range over an i64 half-open range: the
/// result lies in [lo, hi), and the call panics only on an empty range,
/// which the precondition rules out.
#[verifier::external_body]
fn sample_i64(rng: &mut rand::rngs::StdRng, lo: i64, hi: i64) -> (r: i64)
    requires
        lo < hi,
    ensures
        lo <= r < hi,
{
    rand::RngExt::random_range(rng, lo..hi)
}

/// Draws n noise values, each uniform in [-NOISE_LIMIT, NOISE_LIMIT) raw
/// units, that is [-5.0, 5.0) in fixed point.
pub fn generate_noise(rng: &mut rand::rngs::StdRng, n: usize) -> (r: Vec<i64>)
    ensures
        r@.len() == n,
        forall|i: int| 0 <= i < n ==> -NOISE_LIMIT <= #[trigger] r@[i] < NOISE_LIMIT,
{
    let mut r: Vec<i64> = Vec::new();
    let mut i: usize = 0;
    while i < n
        invariant
            i <= n,
            r@.len() == i,
            forall|j: int| 0 <= j < i ==> -NOISE_LIMIT <= #[trigger] r@[j] < NOISE_LIMIT,
        decreases n - i,
    {
        let v = sample_i64(rng, -NOISE_LIMIT, NOISE_LIMIT);
        r.push(v);
        i += 1;
    }
    r
}

} // verus!
