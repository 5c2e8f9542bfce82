use linreg::data::{dataset_from_noise, synth_dataset, N_POINTS};
use linreg::fixed::{fx_add, fx_mul, SCALE};
use linreg::model::{predict_vec, LinearRegression, ShapeError, Tensor2};
use linreg::optim::{Adam, LEARNING_RATE};
use linreg::train::{gradients, mse, train};
use rand::rngs::StdRng;
use rand::SeedableRng;

#[test]
fn mse_exact_value() {
    // Predictions 0.0, targets 2.0: squared error 4.0 on both rows.
    let pred = vec![0i64, 0];
    let ys = vec![2_000_000i64, 2_000_000];
    assert_eq!(mse(&pred, &ys), 4_000_000);
}

#[test]
fn gradients_exact_value() {
    // One row: x = 1.0, y = 3.0, prediction 0.0, error -3.0.
    // g_w = 2 * (-3.0 * 1.0) / 1 = -6.0, g_b = 2 * (-3.0) / 1 = -6.0.
    let pred = vec![0i64];
    let xs = vec![1_000_000i64];
    let ys = vec![3_000_000i64];
    let (g_w, g_b) = gradients(&pred, &xs, &ys);
    assert_eq!(g_w, -6_000_000);
    assert_eq!(g_b, -6_000_000);
}

#[test]
fn forward_matches_manual_affine() {
    let model = LinearRegression { weight: 2_000_000, bias: 1_000_000 };
    let x = Tensor2::column(vec![0i64, 1_000_000, 2_000_000]);
    let y = model.forward(&x).unwrap();
    assert_eq!(y.rows, 3);
    assert_eq!(y.cols, 1);
    assert_eq!(y.data, vec![1_000_000i64, 3_000_000, 5_000_000]);
}

#[test]
fn forward_rejects_wrong_trailing_dimension() {
    let model = LinearRegression::new();
    let x = Tensor2 { rows: 2, cols: 2, data: vec![0i64, 0, 0, 0] };
    let e = model.forward(&x).unwrap_err();
    assert_eq!(e, ShapeError { expected: 1, got: 2 });
}

#[test]
fn predictions_pair_inputs_with_outputs() {
    let model = LinearRegression { weight: 2_000_000, bias: 1_000_000 };
    let xs = vec![0i64, 50_000_000];
    let series = model.predictions(&xs);
    assert_eq!(series, vec![(0i64, 1_000_000i64), (50_000_000, 101_000_000)]);
}

#[test]
fn loss_at_epoch_zero_is_nonnegative() {
    let mut rng = StdRng::seed_from_u64(3);
    let ds = synth_dataset(&mut rng);
    let mut model = LinearRegression::new();
    let mut opt = Adam::new(LEARNING_RATE);
    let losses = train(&mut model, &mut opt, &ds, 1);
    assert_eq!(losses.len(), 1);
    assert!(losses[0] >= 0);
}

#[test]
fn loss_improves_over_training() {
    let mut rng = StdRng::seed_from_u64(5);
    let ds = synth_dataset(&mut rng);
    let mut model = LinearRegression::new();
    let mut opt = Adam::new(LEARNING_RATE);
    let losses = train(&mut model, &mut opt, &ds, 1000);
    assert_eq!(losses.len(), 1000);
    assert!(losses[900] < losses[0]);
    for &l in losses.iter() {
        assert!(l >= 0);
    }
}

#[test]
fn epoch_zero_loss_exact_on_noiseless_data() {
    // With zero noise and the zero-initialized model, the epoch-0 loss is
    // mean((2i + 1)^2) over i in 0..100, which is exactly 13333.0.
    let noise = vec![0i64; N_POINTS];
    let ds = dataset_from_noise(&noise);
    let mut model = LinearRegression::new();
    let mut opt = Adam::new(LEARNING_RATE);
    let losses = train(&mut model, &mut opt, &ds, 1);
    assert_eq!(losses[0], 13_333_000_000);
}

#[test]
fn error_to_true_line_decreases() {
    // Mean squared error of the predictions against the noiseless targets
    // 2x + 1 drops between epoch 0 and epoch 900.
    let mut rng = StdRng::seed_from_u64(13);
    let ds = synth_dataset(&mut rng);
    let true_ys: Vec<i64> = ds.xs.iter().map(|&x| 2 * x + SCALE).collect();
    let untrained = LinearRegression::new();
    let before = mse(&predict_vec(untrained.weight, untrained.bias, &ds.xs), &true_ys);
    let mut model = LinearRegression::new();
    let mut opt = Adam::new(LEARNING_RATE);
    let _ = train(&mut model, &mut opt, &ds, 900);
    let after = mse(&predict_vec(model.weight, model.bias, &ds.xs), &true_ys);
    assert!(after < before);
}

#[test]
fn parameters_approach_the_true_line() {
    let mut rng = StdRng::seed_from_u64(9);
    let ds = synth_dataset(&mut rng);
    let mut model = LinearRegression::new();
    let mut opt = Adam::new(LEARNING_RATE);
    let _ = train(&mut model, &mut opt, &ds, 1000);
    // The true line is y = 2x + 1. The weight settles quickly; the bias
    // moves slowly on this ill-conditioned objective, so its band is wider.
    assert!((model.weight - 2 * SCALE).abs() <= SCALE / 2);
    assert!((model.bias - SCALE).abs() <= 6 * SCALE / 5);
}

#[test]
fn same_seed_gives_identical_runs() {
    let run = |seed: u64| {
        let mut rng = StdRng::seed_from_u64(seed);
        let ds = synth_dataset(&mut rng);
        let mut model = LinearRegression::new();
        let mut opt = Adam::new(LEARNING_RATE);
        let losses = train(&mut model, &mut opt, &ds, 300);
        (model.weight, model.bias, losses)
    };
    let (w1, b1, l1) = run(42);
    let (w2, b2, l2) = run(42);
    assert_eq!(w1, w2);
    assert_eq!(b1, b2);
    assert_eq!(l1, l2);
}

#[test]
fn noiseless_prediction_at_fifty() {
    // With the noise forced to zero the data is exactly y = 2x + 1, and the
    // trained model's prediction at x = 50 must come close to 101.
    let noise = vec![0i64; N_POINTS];
    let ds = dataset_from_noise(&noise);
    let mut model = LinearRegression::new();
    let mut opt = Adam::new(LEARNING_RATE);
    let _ = train(&mut model, &mut opt, &ds, 1000);
    let pred = fx_add(fx_mul(model.weight, 50 * SCALE), model.bias);
    assert!((pred - 101 * SCALE).abs() <= SCALE);
}
