//! A linear-regression demonstration built on verified decimal fixed-point
//! arithmetic: synthetic noisy data along the line y = 2x + 1, a one-input
//! one-output affine model, mean-squared-error loss, and an Adam-style
//! adaptive optimizer run for a fixed number of epochs. Randomness enters
//! only through a sampling wrapper around an outside generator; everything
//! downstream of the drawn noise is deterministic and its result is pinned
//! by the contracts.

pub mod data;
pub mod fixed;
pub mod model;
pub mod noise;
pub mod optim;
pub mod train;
