//! The training loop: for each epoch, a forward pass over the whole dataset,
//! the mean-squared-error loss, closed-form gradients of that loss with
//! respect to the two parameters, and one optimizer update. The whole run is
//! a pure function of the starting state and the data, stated by the
//! recursions `run_to` and `losses_to` and pinned exactly by the contracts.

use vstd::prelude::*;
use crate::fixed::{
    sat64, tdiv, mul_val, sub_val, fx_mul, fx_sub, sat_to_i64, tdiv_i128, lemma_tdiv_nonneg,
    lemma_mul_val_sq_nonneg,
};
use crate::model::{LinearRegression, ModelV, preds_of, predict_vec};
use crate::optim::{Adam, AdamV, adam_wf, adam_update_spec, lemma_adam_update_wf};
use crate::data::Dataset;

verus! {

/// Joint state of the model and the optimizer during training.
pub struct StateV {
    pub model: ModelV,
    pub opt: AdamV,
}

/// Sum of fixed-point squared errors between predictions and targets.
pub open spec fn sum_sq_err(pred: Seq<i64>, ys: Seq<i64>) -> int
    recommends
        pred.len() == ys.len(),
    decreases pred.len(),
{
    if pred.len() == 0 {
        0
    } else {
        let d = sub_val(pred.last() as int, ys.last() as int);
        sum_sq_err(pred.drop_last(), ys.drop_last()) + mul_val(d, d)
    }
}

/// Sum of fixed-point errors between predictions and targets.
pub open spec fn sum_err(pred: Seq<i64>, ys: Seq<i64>) -> int
    recommends
        pred.len() == ys.len(),
    decreases pred.len(),
{
    if pred.len() == 0 {
        0
    } else {
        sum_err(pred.drop_last(), ys.drop_last()) + sub_val(pred.last() as int, ys.last() as int)
    }
}

/// Sum of error times input, the unnormalized weight gradient.
pub open spec fn sum_err_x(pred: Seq<i64>, xs: Seq<i64>, ys: Seq<i64>) -> int
    recommends
        pred.len() == xs.len(),
        pred.len() == ys.len(),
    decreases pred.len(),
{
    if pred.len() == 0 {
        0
    } else {
        sum_err_x(pred.drop_last(), xs.drop_last(), ys.drop_last()) + mul_val(
            sub_val(pred.last() as int, ys.last() as int),
            xs.last() as int,
        )
    }
}

/// Mean squared error: the squared-error sum divided by the number of rows,
/// truncated, saturated.
pub open spec fn mse_val(pred: Seq<i64>, ys: Seq<i64>) -> int
    recommends
        pred.len() == ys.len(),
        pred.len() > 0,
{
    sat64(tdiv(sum_sq_err(pred, ys), pred.len() as int))
}

/// Gradient of the mean squared error with respect to the weight:
/// 2/N * sum(err_i * x_i).
pub open spec fn grad_w_val(pred: Seq<i64>, xs: Seq<i64>, ys: Seq<i64>) -> int
    recommends
        pred.len() == xs.len(),
        pred.len() == ys.len(),
        pred.len() > 0,
{
    sat64(tdiv(2 * sum_err_x(pred, xs, ys), pred.len() as int))
}

/// Gradient of the mean squared error with respect to the bias:
/// 2/N * sum(err_i).
pub open spec fn grad_b_val(pred: Seq<i64>, ys: Seq<i64>) -> int
    recommends
        pred.len() == ys.len(),
        pred.len() > 0,
{
    sat64(tdiv(2 * sum_err(pred, ys), pred.len() as int))
}

/// The squared-error sum is non-negative.
pub proof fn lemma_sum_sq_err_nonneg(pred: Seq<i64>, ys: Seq<i64>)
    ensures
        sum_sq_err(pred, ys) >= 0,
    decreases pred.len(),
{
    if pred.len() > 0 {
        lemma_sum_sq_err_nonneg(pred.drop_last(), ys.drop_last());
        lemma_mul_val_sq_nonneg(sub_val(pred.last() as int, ys.last() as int));
    }
}

/// Mean squared error between two aligned nonempty columns.
pub fn mse(pred: &Vec<i64>, ys: &Vec<i64>) -> (r: i64)
    requires
        pred@.len() == ys@.len(),
        pred@.len() > 0,
    ensures
        r as int == mse_val(pred@, ys@),
        r >= 0,
{
    let n = pred.len();
    let mut acc: i128 = 0;
    let mut i: usize = 0;
    while i < n
        invariant
            i <= n,
            n == pred@.len(),
            ys@.len() == n,
            acc as int == sum_sq_err(pred@.subrange(0, i as int), ys@.subrange(0, i as int)),
            (i as int) * (i64::MIN as int) <= acc as int,
            acc as int <= (i as int) * (i64::MAX as int),
        decreases n - i,
    {
        let e = fx_sub(pred[i], ys[i]);
        let t = fx_mul(e, e);
        proof {
            assert(pred@.subrange(0, i + 1 as int).drop_last() =~= pred@.subrange(0, i as int));
            assert(ys@.subrange(0, i + 1 as int).drop_last() =~= ys@.subrange(0, i as int));
        }
        acc = acc + (t as i128);
        i += 1;
    }
    proof {
        assert(pred@.subrange(0, n as int) =~= pred@);
        assert(ys@.subrange(0, n as int) =~= ys@);
        lemma_sum_sq_err_nonneg(pred@, ys@);
        lemma_tdiv_nonneg(sum_sq_err(pred@, ys@), n as int);
    }
    let q = tdiv_i128(acc, n as i128);
    sat_to_i64(q)
}

/// Both gradients of the mean squared error, with respect to weight and
/// bias, over aligned nonempty columns.
pub fn gradients(pred: &Vec<i64>, xs: &Vec<i64>, ys: &Vec<i64>) -> (g: (i64, i64))
    requires
        pred@.len() == xs@.len(),
        pred@.len() == ys@.len(),
        pred@.len() > 0,
        pred@.len() <= i64::MAX,
    ensures
        g.0 as int == grad_w_val(pred@, xs@, ys@),
        g.1 as int == grad_b_val(pred@, ys@),
{
    let n = pred.len();
    let mut acc_w: i128 = 0;
    let mut acc_b: i128 = 0;
    let mut i: usize = 0;
    while i < n
        invariant
            i <= n,
            n == pred@.len(),
            xs@.len() == n,
            ys@.len() == n,
            acc_w as int == sum_err_x(
                pred@.subrange(0, i as int),
                xs@.subrange(0, i as int),
                ys@.subrange(0, i as int),
            ),
            acc_b as int == sum_err(pred@.subrange(0, i as int), ys@.subrange(0, i as int)),
            (i as int) * (i64::MIN as int) <= acc_w as int,
            acc_w as int <= (i as int) * (i64::MAX as int),
            (i as int) * (i64::MIN as int) <= acc_b as int,
            acc_b as int <= (i as int) * (i64::MAX as int),
        decreases n - i,
    {
        let e = fx_sub(pred[i], ys[i]);
        let t = fx_mul(e, xs[i]);
        proof {
            assert(pred@.subrange(0, i + 1 as int).drop_last() =~= pred@.subrange(0, i as int));
            assert(xs@.subrange(0, i + 1 as int).drop_last() =~= xs@.subrange(0, i as int));
            assert(ys@.subrange(0, i + 1 as int).drop_last() =~= ys@.subrange(0, i as int));
        }
        acc_w = acc_w + (t as i128);
        acc_b = acc_b + (e as i128);
        i += 1;
    }
    proof {
        assert(pred@.subrange(0, n as int) =~= pred@);
        assert(xs@.subrange(0, n as int) =~= xs@);
        assert(ys@.subrange(0, n as int) =~= ys@);
    }
    let g_w = sat_to_i64(tdiv_i128(2 * acc_w, n as i128));
    let g_b = sat_to_i64(tdiv_i128(2 * acc_b, n as i128));
    (g_w, g_b)
}

/// One epoch: forward pass, gradients, optimizer update.
pub open spec fn step_spec(s: StateV, xs: Seq<i64>, ys: Seq<i64>) -> StateV {
    let p = preds_of(s.model.w, s.model.b, xs);
    let gw = grad_w_val(p, xs, ys);
    let gb = grad_b_val(p, ys);
    let next = adam_update_spec(s.model, s.opt, gw, gb);
    StateV { model: next.0, opt: next.1 }
}

/// The loss a state reports: mean squared error of its predictions.
pub open spec fn loss_of(s: StateV, xs: Seq<i64>, ys: Seq<i64>) -> int {
    mse_val(preds_of(s.model.w, s.model.b, xs), ys)
}

/// The state after k epochs of training from s.
pub open spec fn run_to(s: StateV, xs: Seq<i64>, ys: Seq<i64>, k: nat) -> StateV
    decreases k,
{
    if k == 0 {
        s
    } else {
        step_spec(run_to(s, xs, ys, (k - 1) as nat), xs, ys)
    }
}

/// The losses the first k epochs report, in epoch order; the loss of epoch e
/// is computed before that epoch's update.
pub open spec fn losses_to(s: StateV, xs: Seq<i64>, ys: Seq<i64>, k: nat) -> Seq<int>
    decreases k,
{
    if k == 0 {
        Seq::empty()
    } else {
        losses_to(s, xs, ys, (k - 1) as nat).push(
            loss_of(run_to(s, xs, ys, (k - 1) as nat), xs, ys),
        )
    }
}

/// The loss sequence of a k-epoch run has one entry per epoch.
pub proof fn lemma_losses_to_len(s: StateV, xs: Seq<i64>, ys: Seq<i64>, k: nat)
    ensures
        losses_to(s, xs, ys, k).len() == k,
    decreases k,
{
    if k > 0 {
        lemma_losses_to_len(s, xs, ys, (k - 1) as nat);
    }
}

/// Each entry of the loss sequence is the loss of the state that the
/// corresponding epoch started from.
pub proof fn lemma_losses_to_index(s: StateV, xs: Seq<i64>, ys: Seq<i64>, k: nat, j: int)
    requires
        0 <= j < k,
    ensures
        losses_to(s, xs, ys, k)[j] == loss_of(run_to(s, xs, ys, j as nat), xs, ys),
    decreases k,
{
    lemma_losses_to_len(s, xs, ys, (k - 1) as nat);
    if j < k - 1 {
        lemma_losses_to_index(s, xs, ys, (k - 1) as nat, j);
    }
}

/// Epoch step preserves the optimizer invariant.
pub proof fn lemma_step_wf(s: StateV, xs: Seq<i64>, ys: Seq<i64>)
    requires
        adam_wf(s.opt),
    ensures
        adam_wf(step_spec(s, xs, ys).opt),
{
    let p = preds_of(s.model.w, s.model.b, xs);
    lemma_adam_update_wf(s.model, s.opt, grad_w_val(p, xs, ys), grad_b_val(p, ys));
}

/// Train the model in place for the given number of epochs and return the
/// loss reported at each epoch. The run is exactly `run_to` and the losses
/// exactly `losses_to` from the starting state.
pub fn train(model: &mut LinearRegression, opt: &mut Adam, data: &Dataset, epochs: usize) -> (losses:
    Vec<i64>)
    requires
        adam_wf(old(opt)@),
        data.wf(),
        data.xs@.len() > 0,
        data.xs@.len() <= i64::MAX,
    ensures
        (StateV { model: final(model)@, opt: final(opt)@ }) == run_to(
            (StateV { model: old(model)@, opt: old(opt)@ }),
            data.xs@,
            data.ys@,
            epochs as nat,
        ),
        adam_wf(final(opt)@),
        losses@.len() == epochs,
        forall|e: int|
            0 <= e < epochs ==> (#[trigger] losses@[e]) as int == loss_of(
                run_to(
                    (StateV { model: old(model)@, opt: old(opt)@ }),
                    data.xs@,
                    data.ys@,
                    e as nat,
                ),
                data.xs@,
                data.ys@,
            ),
        forall|e: int|
            0 <= e < epochs ==> (#[trigger] losses@[e]) as int == losses_to(
                (StateV { model: old(model)@, opt: old(opt)@ }),
                data.xs@,
                data.ys@,
                epochs as nat,
            )[e],
{
    let ghost init = StateV { model: model@, opt: opt@ };
    let mut losses: Vec<i64> = Vec::new();
    let mut e: usize = 0;
    while e < epochs
        invariant
            e <= epochs,
            adam_wf(opt@),
            (StateV { model: model@, opt: opt@ }) == run_to(init, data.xs@, data.ys@, e as nat),
            losses@.len() == e,
            forall|j: int|
                0 <= j < e ==> (#[trigger] losses@[j]) as int == loss_of(
                    run_to(init, data.xs@, data.ys@, j as nat),
                    data.xs@,
                    data.ys@,
                ),
            data.wf(),
            data.xs@.len() > 0,
            data.xs@.len() <= i64::MAX,
        decreases epochs - e,
    {
        let ghost s = StateV { model: model@, opt: opt@ };
        let pred = predict_vec(model.weight, model.bias, &data.xs);
        let loss = mse(&pred, &data.ys);
        let g = gradients(&pred, &data.xs, &data.ys);
        opt.update(model, g.0, g.1);
        losses.push(loss);
        proof {
            assert(run_to(init, data.xs@, data.ys@, (e + 1) as nat) == step_spec(
                run_to(init, data.xs@, data.ys@, e as nat),
                data.xs@,
                data.ys@,
            ));
            assert((StateV { model: model@, opt: opt@ }) == step_spec(s, data.xs@, data.ys@));
        }
        e += 1;
    }
    proof {
        assert forall|j: int| 0 <= j < epochs implies loss_of(
            run_to(init, data.xs@, data.ys@, j as nat),
            data.xs@,
            data.ys@,
        ) == losses_to(init, data.xs@, data.ys@, epochs as nat)[j] by {
            lemma_losses_to_index(init, data.xs@, data.ys@, epochs as nat, j);
        }
    }
    losses
}

/// Law: the loss is non-negative for every model state and every pair of
/// aligned nonempty columns; in particular the loss reported at epoch 0.
pub proof fn lemma_loss_nonneg(s: StateV, xs: Seq<i64>, ys: Seq<i64>)
    requires
        xs.len() == ys.len(),
        xs.len() > 0,
    ensures
        loss_of(s, xs, ys) >= 0,
{
    let p = preds_of(s.model.w, s.model.b, xs);
    lemma_sum_sq_err_nonneg(p, ys);
    lemma_tdiv_nonneg(sum_sq_err(p, ys), p.len() as int);
}

/// Law: every loss a training run reports is non-negative.
pub proof fn lemma_losses_nonneg(s: StateV, xs: Seq<i64>, ys: Seq<i64>, k: nat)
    requires
        xs.len() == ys.len(),
        xs.len() > 0,
    ensures
        losses_to(s, xs, ys, k).len() == k,
        forall|j: int| 0 <= j < k ==> #[trigger] losses_to(s, xs, ys, k)[j] >= 0,
    decreases k,
{
    if k > 0 {
        lemma_losses_nonneg(s, xs, ys, (k - 1) as nat);
        lemma_loss_nonneg(run_to(s, xs, ys, (k - 1) as nat), xs, ys);
        assert forall|j: int| 0 <= j < k implies #[trigger] losses_to(s, xs, ys, k)[j] >= 0 by {
            if j < k - 1 {
                assert(losses_to(s, xs, ys, k)[j] == losses_to(s, xs, ys, (k - 1) as nat)[j]);
            }
        }
    }
}

/// Law: training is deterministic — the same starting state and the same
/// data give the same run and the same loss sequence, for any number of
/// epochs.
pub proof fn lemma_train_deterministic(
    s1: StateV,
    s2: StateV,
    xs1: Seq<i64>,
    ys1: Seq<i64>,
    xs2: Seq<i64>,
    ys2: Seq<i64>,
    k: nat,
)
    requires
        s1 == s2,
        xs1 == xs2,
        ys1 == ys2,
    ensures
        run_to(s1, xs1, ys1, k) == run_to(s2, xs2, ys2, k),
        losses_to(s1, xs1, ys1, k) == losses_to(s2, xs2, ys2, k),
{
}

} // verus!
