//! The synthetic dataset: one hundred points along the noisy line
//! y = 2x + 1, with the inputs exactly the indices 0..100 and the noise
//! uniform in [-5, 5).

use vstd::prelude::*;
use crate::fixed::SCALE;
use crate::noise::generate_noise;

verus! {

/// Number of points the generator produces.
pub const N_POINTS: usize = 100;

/// Magnitude bound of the uniform noise, in raw units: 5.0 in fixed point.
pub const NOISE_LIMIT: i64 = 5 * SCALE;

/// Two aligned columns of fixed-point scalars, generated once and immutable
/// afterward.
#[derive(Clone, Debug)]
pub struct Dataset {
    pub xs: Vec<i64>,
    pub ys: Vec<i64>,
}

impl Dataset {
    /// The two columns stay aligned.
    pub open spec fn wf(&self) -> bool {
        self.xs@.len() == self.ys@.len()
    }
}

/// The deterministic inputs: x_i is exactly the index i, as a fixed-point
/// value.
pub fn generate_xs() -> (xs: Vec<i64>)
    ensures
        xs@.len() == N_POINTS,
        forall|i: int| 0 <= i < N_POINTS ==> xs@[i] as int == i * SCALE,
{
    let mut xs: Vec<i64> = Vec::new();
    let mut i: usize = 0;
    while i < N_POINTS
        invariant
            i <= N_POINTS,
            xs@.len() == i,
            forall|j: int| 0 <= j < i ==> xs@[j] as int == j * SCALE,
        decreases N_POINTS - i,
    {
        xs.push((i as i64) * SCALE);
        i += 1;
    }
    xs
}

/// The dataset determined by a given noise column: x_i = i and
/// y_i = 2*x_i + 1 + noise_i, exactly, in fixed point. With the noise bounded
/// by the sampler's range, every target lies within the noise band around the
/// true line.
pub fn dataset_from_noise(noise: &Vec<i64>) -> (d: Dataset)
    requires
        noise@.len() == N_POINTS,
        forall|i: int| 0 <= i < N_POINTS ==> -NOISE_LIMIT <= #[trigger] noise@[i] < NOISE_LIMIT,
    ensures
        d.wf(),
        d.xs@.len() == N_POINTS,
        forall|i: int| 0 <= i < N_POINTS ==> d.xs@[i] as int == i * SCALE,
        forall|i: int|
            0 <= i < N_POINTS ==> d.ys@[i] as int == 2 * (d.xs@[i] as int) + SCALE + noise@[i],
        forall|i: int|
            0 <= i < N_POINTS ==> (2 * (d.xs@[i] as int) + SCALE - NOISE_LIMIT <= d.ys@[i] as int
                && (d.ys@[i] as int) < 2 * (d.xs@[i] as int) + SCALE + NOISE_LIMIT),
{
    let xs = generate_xs();
    let mut ys: Vec<i64> = Vec::new();
    let mut i: usize = 0;
    while i < N_POINTS
        invariant
            i <= N_POINTS,
            ys@.len() == i,
            xs@.len() == N_POINTS,
            forall|j: int| 0 <= j < N_POINTS ==> xs@[j] as int == j * SCALE,
            noise@.len() == N_POINTS,
            forall|j: int| 0 <= j < N_POINTS ==> -NOISE_LIMIT <= #[trigger] noise@[j] < NOISE_LIMIT,
            forall|j: int|
                0 <= j < i ==> ys@[j] as int == 2 * (xs@[j] as int) + SCALE + noise@[j],
        decreases N_POINTS - i,
    {
        let y = 2 * xs[i] + SCALE + noise[i];
        ys.push(y);
        i += 1;
    }
    Dataset { xs, ys }
}

/// The generator of the synthetic data: draws the noise from the given
/// generator and builds the dataset around the line y = 2x + 1.
pub fn synth_dataset(rng: &mut rand::rngs::StdRng) -> (d: Dataset)
    ensures
        d.wf(),
        d.xs@.len() == N_POINTS,
        forall|i: int| 0 <= i < N_POINTS ==> d.xs@[i] as int == i * SCALE,
        forall|i: int|
            0 <= i < N_POINTS ==> (2 * (d.xs@[i] as int) + SCALE - NOISE_LIMIT <= d.ys@[i] as int
                && (d.ys@[i] as int) < 2 * (d.xs@[i] as int) + SCALE + NOISE_LIMIT),
{
    let noise = generate_noise(rng, N_POINTS);
    dataset_from_noise(&noise)
}

} // verus!
