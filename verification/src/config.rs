//! Hyperparameters and the error taxonomy.

use vstd::prelude::*;

use crate::fixed::FX_ONE;

verus! {

/// Why the core rejected an operation.
#[derive(Clone, Copy, Debug, PartialEq, Eq, Structural)]
pub enum ReinforceError {
    /// The trajectory's state, action, and reward sequences had unequal
    /// lengths when training was triggered.
    DimensionMismatch,
    /// An intermediate fixed-point value left the representable range — the
    /// fixed-point analogue of a non-finite float.
    NumericInstability,
    /// A hyperparameter lay outside its valid domain.
    ConfigurationError,
}

/// The recognized configuration surface of the core.
pub struct Hyperparams {
    /// Discount factor, fixed point, in (0, 1].
    pub discount: i64,
    /// Learning rate, fixed point, positive.
    pub learning_rate: i64,
    /// Score either side must reach to end an episode.
    pub score_threshold: u32,
    /// Initial parameters are drawn uniformly from
    /// `[-init_half_range, init_half_range)` raw units.
    pub init_half_range: i64,
}

impl Hyperparams {
    /// Every hyperparameter lies in its valid domain.
    pub open spec fn wf(self) -> bool {
        &&& 0 < self.discount <= FX_ONE
        &&& 0 < self.learning_rate
        &&& 0 < self.score_threshold
        &&& 0 < self.init_half_range
    }

    /// Validates the hyperparameters; an invalid one is fatal at
    /// initialization.
    pub fn new(discount: i64, learning_rate: i64, score_threshold: u32, init_half_range: i64) -> (r:
        Result<Hyperparams, ReinforceError>)
        ensures
            (0 < discount <= FX_ONE && 0 < learning_rate && 0 < score_threshold && 0
                < init_half_range) <==> (r matches Ok(h) && h == (Hyperparams {
                discount,
                learning_rate,
                score_threshold,
                init_half_range,
            })),
            r is Err ==> r == Err::<Hyperparams, ReinforceError>(ReinforceError::ConfigurationError),
    {
        if 0 < discount && discount <= FX_ONE && 0 < learning_rate && 0 < score_threshold && 0
            < init_half_range {
            Ok(Hyperparams { discount, learning_rate, score_threshold, init_half_range })
        } else {
            Err(ReinforceError::ConfigurationError)
        }
    }

    /// The default configuration: discount 0.99, learning rate 0.15, games
    /// to 11, initial weights in [-0.05, 0.05).
    pub fn defaults() -> (h: Hyperparams)
        ensures
            h.wf(),
            h.discount == 990_000,
            h.learning_rate == 150_000,
            h.score_threshold == 11,
            h.init_half_range == 50_000,
    {
        Hyperparams {
            discount: 990_000,
            learning_rate: 150_000,
            score_threshold: 11,
            init_half_range: 50_000,
        }
    }
}

} // verus!
