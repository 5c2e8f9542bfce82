//! The adaptive gradient-based optimizer: per-parameter first and second
//! moment running averages with fixed decay coefficients, bias correction,
//! and the update rule p -= lr * m_hat / (sqrt(v_hat) + eps), all in fixed
//! point. The update is a pure function of the state and the gradients, and
//! its contract pins the new state exactly. Gradients are recomputed in
//! closed form each epoch rather than accumulated, so there is no gradient
//! buffer to zero between steps.

use vstd::prelude::*;
use crate::fixed::{
    SCALE, add_val, div_val, mul_val, sub_val, sqrt_val, fx_add, fx_div, fx_mul, fx_sub, fx_sqrt,
    lemma_mul_val_nonneg, lemma_mul_val_sq_nonneg, lemma_div_val_nonneg, lemma_mul_val_decay,
};
use crate::model::{LinearRegression, ModelV};

verus! {

/// First-moment decay coefficient: 0.9 in fixed point.
pub const BETA1: i64 = 900_000;

/// Complement of BETA1: 0.1 in fixed point.
pub const BETA1_C: i64 = 100_000;

/// Second-moment decay coefficient: 0.999 in fixed point.
pub const BETA2: i64 = 999_000;

/// Complement of BETA2: 0.001 in fixed point.
pub const BETA2_C: i64 = 1_000;

/// Denominator guard: one raw unit.
pub const EPS: i64 = 1;

/// The fixed learning rate of the training pipeline: 0.01 in fixed point.
pub const LEARNING_RATE: i64 = 10_000;

/// Mathematical view of the optimizer state.
pub struct AdamV {
    pub lr: int,
    pub m_w: int,
    pub v_w: int,
    pub m_b: int,
    pub v_b: int,
    pub pow1: int,
    pub pow2: int,
}

/// Adam-style optimizer state for the two scalar parameters: the learning
/// rate, the per-parameter moment averages, and the running decay powers
/// beta1^t and beta2^t used for bias correction.
#[derive(Clone, Copy, Debug)]
pub struct Adam {
    pub lr: i64,
    pub m_w: i64,
    pub v_w: i64,
    pub m_b: i64,
    pub v_b: i64,
    pub pow1: i64,
    pub pow2: i64,
}

impl View for Adam {
    type V = AdamV;

    open spec fn view(&self) -> AdamV {
        AdamV {
            lr: self.lr as int,
            m_w: self.m_w as int,
            v_w: self.v_w as int,
            m_b: self.m_b as int,
            v_b: self.v_b as int,
            pow1: self.pow1 as int,
            pow2: self.pow2 as int,
        }
    }
}

/// The optimizer invariant: decay powers stay within [0, 1], second moments
/// and the learning rate stay non-negative. It makes every divisor of the
/// update rule positive and every square-root argument non-negative.
pub open spec fn adam_wf(o: AdamV) -> bool {
    &&& 0 <= o.pow1 <= SCALE
    &&& 0 <= o.pow2 <= SCALE
    &&& o.v_w >= 0
    &&& o.v_b >= 0
    &&& o.lr >= 0
}

/// One parameter's moment update and step: new first moment, new second
/// moment, and the displacement lr * m_hat / (sqrt(v_hat) + eps), where the
/// hatted moments are bias-corrected by the complements c1 = 1 - beta1^t and
/// c2 = 1 - beta2^t.
pub open spec fn adam_param_next(m: int, v: int, g: int, c1: int, c2: int, lr: int) -> (
    int,
    int,
    int,
) {
    let m2 = add_val(mul_val(BETA1 as int, m), mul_val(BETA1_C as int, g));
    let v2 = add_val(mul_val(BETA2 as int, v), mul_val(BETA2_C as int, mul_val(g, g)));
    let m_hat = div_val(m2, c1);
    let v_hat = div_val(v2, c2);
    let denom = add_val(sqrt_val(v_hat), EPS as int);
    let delta = mul_val(lr, div_val(m_hat, denom));
    (m2, v2, delta)
}

/// One optimizer step on the whole model: advance the decay powers, update
/// both parameters' moments, and move weight and bias against their
/// gradients.
pub open spec fn adam_update_spec(m: ModelV, o: AdamV, gw: int, gb: int) -> (ModelV, AdamV) {
    let pow1 = mul_val(o.pow1, BETA1 as int);
    let pow2 = mul_val(o.pow2, BETA2 as int);
    let c1 = sub_val(SCALE as int, pow1);
    let c2 = sub_val(SCALE as int, pow2);
    let (m_w, v_w, d_w) = adam_param_next(o.m_w, o.v_w, gw, c1, c2, o.lr);
    let (m_b, v_b, d_b) = adam_param_next(o.m_b, o.v_b, gb, c1, c2, o.lr);
    (
        ModelV { w: sub_val(m.w, d_w), b: sub_val(m.b, d_b) },
        AdamV { lr: o.lr, m_w, v_w, m_b, v_b, pow1, pow2 },
    )
}

/// The update preserves the optimizer invariant.
pub proof fn lemma_adam_update_wf(m: ModelV, o: AdamV, gw: int, gb: int)
    requires
        adam_wf(o),
    ensures
        adam_wf(adam_update_spec(m, o, gw, gb).1),
{
    lemma_mul_val_decay(o.pow1, BETA1 as int);
    lemma_mul_val_decay(o.pow2, BETA2 as int);
    lemma_mul_val_nonneg(BETA2 as int, o.v_w);
    lemma_mul_val_sq_nonneg(gw);
    lemma_mul_val_nonneg(BETA2_C as int, mul_val(gw, gw));
    lemma_mul_val_nonneg(BETA2 as int, o.v_b);
    lemma_mul_val_sq_nonneg(gb);
    lemma_mul_val_nonneg(BETA2_C as int, mul_val(gb, gb));
}

impl Adam {
    /// A fresh optimizer with the given learning rate: zero moments and
    /// decay powers starting at 1.0, so that the first step is
    /// bias-corrected by 1 - beta.
    pub fn new(lr: i64) -> (o: Adam)
        requires
            lr >= 0,
        ensures
            o@ == (AdamV {
                lr: lr as int,
                m_w: 0,
                v_w: 0,
                m_b: 0,
                v_b: 0,
                pow1: SCALE as int,
                pow2: SCALE as int,
            }),
            adam_wf(o@),
    {
        Adam { lr, m_w: 0, v_w: 0, m_b: 0, v_b: 0, pow1: SCALE, pow2: SCALE }
    }

    /// Apply one update to the model from the given gradients of the loss
    /// with respect to weight and bias.
    pub fn update(&mut self, model: &mut LinearRegression, g_w: i64, g_b: i64)
        requires
            adam_wf(old(self)@),
        ensures
            (final(model)@, final(self)@) == adam_update_spec(
                old(model)@,
                old(self)@,
                g_w as int,
                g_b as int,
            ),
            adam_wf(final(self)@),
    {
        proof {
            lemma_adam_update_wf(old(model)@, old(self)@, g_w as int, g_b as int);
            lemma_mul_val_decay(old(self)@.pow1, BETA1 as int);
            lemma_mul_val_decay(old(self)@.pow2, BETA2 as int);
        }
        let pow1 = fx_mul(self.pow1, BETA1);
        let pow2 = fx_mul(self.pow2, BETA2);
        let c1 = fx_sub(SCALE, pow1);
        let c2 = fx_sub(SCALE, pow2);
        let d_w = self.step_param_w(g_w, c1, c2);
        let d_b = self.step_param_b(g_b, c1, c2);
        self.pow1 = pow1;
        self.pow2 = pow2;
        model.weight = fx_sub(model.weight, d_w);
        model.bias = fx_sub(model.bias, d_b);
    }

    /// Moment update and displacement for the weight parameter.
    fn step_param_w(&mut self, g: i64, c1: i64, c2: i64) -> (d: i64)
        requires
            c1 > 0,
            c2 > 0,
            old(self).v_w >= 0,
        ensures
            (final(self).m_w as int, final(self).v_w as int, d as int) == adam_param_next(
                old(self).m_w as int,
                old(self).v_w as int,
                g as int,
                c1 as int,
                c2 as int,
                old(self).lr as int,
            ),
            final(self).lr == old(self).lr,
            final(self).m_b == old(self).m_b,
            final(self).v_b == old(self).v_b,
            final(self).pow1 == old(self).pow1,
            final(self).pow2 == old(self).pow2,
            final(self).v_w >= 0,
    {
        proof {
            lemma_mul_val_nonneg(BETA2 as int, old(self).v_w as int);
            lemma_mul_val_sq_nonneg(g as int);
            lemma_mul_val_nonneg(BETA2_C as int, mul_val(g as int, g as int));
            lemma_div_val_nonneg(
                add_val(
                    mul_val(BETA2 as int, old(self).v_w as int),
                    mul_val(BETA2_C as int, mul_val(g as int, g as int)),
                ),
                c2 as int,
            );
        }
        let m2 = fx_add(fx_mul(BETA1, self.m_w), fx_mul(BETA1_C, g));
        let v2 = fx_add(fx_mul(BETA2, self.v_w), fx_mul(BETA2_C, fx_mul(g, g)));
        let m_hat = fx_div(m2, c1);
        let v_hat = fx_div(v2, c2);
        let denom = fx_add(fx_sqrt(v_hat), EPS);
        let d = fx_mul(self.lr, fx_div(m_hat, denom));
        self.m_w = m2;
        self.v_w = v2;
        d
    }

    /// Moment update and displacement for the bias parameter.
    fn step_param_b(&mut self, g: i64, c1: i64, c2: i64) -> (d: i64)
        requires
            c1 > 0,
            c2 > 0,
            old(self).v_b >= 0,
        ensures
            (final(self).m_b as int, final(self).v_b as int, d as int) == adam_param_next(
                old(self).m_b as int,
                old(self).v_b as int,
                g as int,
                c1 as int,
                c2 as int,
                old(self).lr as int,
            ),
            final(self).lr == old(self).lr,
            final(self).m_w == old(self).m_w,
            final(self).v_w == old(self).v_w,
            final(self).pow1 == old(self).pow1,
            final(self).pow2 == old(self).pow2,
            final(self).v_b >= 0,
    {
        proof {
            lemma_mul_val_nonneg(BETA2 as int, old(self).v_b as int);
            lemma_mul_val_sq_nonneg(g as int);
            lemma_mul_val_nonneg(BETA2_C as int, mul_val(g as int, g as int));
            lemma_div_val_nonneg(
                add_val(
                    mul_val(BETA2 as int, old(self).v_b as int),
                    mul_val(BETA2_C as int, mul_val(g as int, g as int)),
                ),
                c2 as int,
            );
        }
        let m2 = fx_add(fx_mul(BETA1, self.m_b), fx_mul(BETA1_C, g));
        let v2 = fx_add(fx_mul(BETA2, self.v_b), fx_mul(BETA2_C, fx_mul(g, g)));
        let m_hat = fx_div(m2, c1);
        let v_hat = fx_div(v2, c2);
        let denom = fx_add(fx_sqrt(v_hat), EPS);
        let d = fx_mul(self.lr, fx_div(m_hat, denom));
        self.m_b = m2;
        self.v_b = v2;
        d
    }
}

} // verus!
