//! The linear model: one affine transformation with a scalar weight and a
//! scalar bias, applied row by row to an (N, 1) column of fixed-point inputs.

use vstd::prelude::*;
use crate::fixed::{add_val, mul_val, fx_add, fx_mul};

verus! {

/// Mathematical view of the model: its two raw parameters.
pub struct ModelV {
    pub w: int,
    pub b: int,
}

/// A one-input one-output affine model over fixed-point scalars.
#[derive(Clone, Copy, Debug)]
pub struct LinearRegression {
    pub weight: i64,
    pub bias: i64,
}

impl View for LinearRegression {
    type V = ModelV;

    open spec fn view(&self) -> ModelV {
        ModelV { w: self.weight as int, b: self.bias as int }
    }
}

/// The model's prediction for one input: x*w + b in fixed point.
pub open spec fn pred_val(w: int, b: int, x: int) -> int {
    add_val(mul_val(w, x), b)
}

/// The model's predictions across a whole input column.
pub open spec fn preds_of(w: int, b: int, xs: Seq<i64>) -> Seq<i64> {
    Seq::new(xs.len(), |i: int| pred_val(w, b, xs[i] as int) as i64)
}

/// Row-by-row forward pass over a vector of raw inputs.
pub fn predict_vec(w: i64, b: i64, xs: &Vec<i64>) -> (r: Vec<i64>)
    ensures
        r@ == preds_of(w as int, b as int, xs@),
{
    let mut r: Vec<i64> = Vec::new();
    let mut i: usize = 0;
    while i < xs.len()
        invariant
            i <= xs@.len(),
            r@.len() == i,
            forall|j: int|
                0 <= j < i ==> r@[j] as int == pred_val(w as int, b as int, xs@[j] as int),
        decreases xs@.len() - i,
    {
        let y = fx_add(fx_mul(w, xs[i]), b);
        r.push(y);
        i += 1;
    }
    proof {
        assert(r@ =~= preds_of(w as int, b as int, xs@));
    }
    r
}

/// A shape mismatch: the trailing dimension the model expected, and the one
/// it was handed.
#[derive(Clone, Copy, Debug, PartialEq, Eq, Structural)]
pub struct ShapeError {
    pub expected: usize,
    pub got: usize,
}

/// A two-dimensional tensor of fixed-point scalars in row-major order.
#[derive(Clone, Debug)]
pub struct Tensor2 {
    pub rows: usize,
    pub cols: usize,
    pub data: Vec<i64>,
}

impl Tensor2 {
    pub open spec fn wf(&self) -> bool {
        self.data@.len() == self.rows * self.cols
    }

    /// An (N, 1) column tensor holding the given raw values.
    pub fn column(data: Vec<i64>) -> (t: Tensor2)
        ensures
            t.wf(),
            t.cols == 1,
            t.rows == data@.len(),
            t.data@ == data@,
    {
        let rows = data.len();
        Tensor2 { rows, cols: 1, data }
    }
}

impl LinearRegression {
    /// A fresh model; weight and bias start at zero.
    pub fn new() -> (m: LinearRegression)
        ensures
            m@ == (ModelV { w: 0, b: 0 }),
    {
        LinearRegression { weight: 0, bias: 0 }
    }

    /// Forward pass on an (N, 1) column: predictions x*weight + bias of the
    /// same shape. Any other trailing dimension is a shape mismatch, and
    /// exactly then the result is the error.
    pub fn forward(&self, x: &Tensor2) -> (r: Result<Tensor2, ShapeError>)
        requires
            x.wf(),
        ensures
            match r {
                Ok(t) => x.cols == 1 && t.wf() && t.rows == x.rows && t.cols == 1
                    && t.data@ == preds_of(self@.w, self@.b, x.data@),
                Err(e) => x.cols != 1 && e == (ShapeError { expected: 1, got: x.cols }),
            },
    {
        if x.cols != 1 {
            Err(ShapeError { expected: 1, got: x.cols })
        } else {
            let data = predict_vec(self.weight, self.bias, &x.data);
            Ok(Tensor2 { rows: x.rows, cols: 1, data })
        }
    }

    /// Prediction series for plotting: the input paired with the model's
    /// prediction for it, in input order.
    pub fn predictions(&self, xs: &Vec<i64>) -> (r: Vec<(i64, i64)>)
        ensures
            r@.len() == xs@.len(),
            forall|i: int|
                0 <= i < xs@.len() ==> r@[i].0 == xs@[i] && r@[i].1 as int == pred_val(
                    self@.w,
                    self@.b,
                    xs@[i] as int,
                ),
    {
        let mut r: Vec<(i64, i64)> = Vec::new();
        let mut i: usize = 0;
        while i < xs.len()
            invariant
                i <= xs@.len(),
                r@.len() == i,
                forall|j: int|
                    0 <= j < i ==> r@[j].0 == xs@[j] && r@[j].1 as int == pred_val(
                        self@.w,
                        self@.b,
                        xs@[j] as int,
                    ),
            decreases xs@.len() - i,
        {
            let y = fx_add(fx_mul(self.weight, xs[i]), self.bias);
            r.push((xs[i], y));
            i += 1;
        }
        r
    }
}

} // verus!
