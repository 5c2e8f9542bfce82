use linreg::data::{dataset_from_noise, generate_xs, synth_dataset, N_POINTS, NOISE_LIMIT};
use linreg::fixed::SCALE;
use linreg::noise::generate_noise;
use rand::rngs::StdRng;
use rand::SeedableRng;

#[test]
fn xs_are_exactly_the_indices() {
    let xs = generate_xs();
    assert_eq!(xs.len(), N_POINTS);
    for (i, &x) in xs.iter().enumerate() {
        assert_eq!(x, (i as i64) * SCALE);
    }
}

#[test]
fn targets_stay_in_the_noise_band() {
    let mut rng = StdRng::seed_from_u64(7);
    let ds = synth_dataset(&mut rng);
    assert_eq!(ds.xs.len(), N_POINTS);
    assert_eq!(ds.ys.len(), N_POINTS);
    for i in 0..N_POINTS {
        let line = 2 * ds.xs[i] + SCALE;
        assert!(ds.ys[i] >= line - NOISE_LIMIT);
        assert!(ds.ys[i] < line + NOISE_LIMIT);
    }
}

#[test]
fn noise_is_bounded_and_varies() {
    let mut rng = StdRng::seed_from_u64(11);
    let noise = generate_noise(&mut rng, 200);
    assert_eq!(noise.len(), 200);
    for &v in noise.iter() {
        assert!(v >= -NOISE_LIMIT);
        assert!(v < NOISE_LIMIT);
    }
    // The sampler draws fresh values: they are not all the lower bound and
    // not all identical.
    assert!(noise.iter().any(|&v| v != -NOISE_LIMIT));
    assert!(noise.iter().any(|&v| v != noise[0]));
}

#[test]
fn noiseless_targets_lie_on_the_line() {
    let noise = vec![0i64; N_POINTS];
    let ds = dataset_from_noise(&noise);
    for i in 0..N_POINTS {
        assert_eq!(ds.ys[i], 2 * ds.xs[i] + SCALE);
    }
}

#[test]
fn same_seed_gives_same_dataset() {
    let mut rng1 = StdRng::seed_from_u64(42);
    let mut rng2 = StdRng::seed_from_u64(42);
    let d1 = synth_dataset(&mut rng1);
    let d2 = synth_dataset(&mut rng2);
    assert_eq!(d1.xs, d2.xs);
    assert_eq!(d1.ys, d2.ys);
}
