//! The projection of field vectors into the model's space.

use vstd::prelude::*;

use crate::classic::cache::blank_buffer;
use crate::classic::cache;
use crate::xorshift;

verus! {

/// The factor that spreads the positions of the projection over the seeds of their weights.
pub const WEIGHT_SEED_FACTOR: u64 = 0x517cc1b727220a95;

/// What every seed of a weight is mixed with.
pub const WEIGHT_SEED_MASK: u64 = 0x6a09e667f3bcc908;

/// The projection of field vectors.
#[derive(Debug, Clone)]
pub struct OperatorMeasure<T> {
    /// Dimension of the model.
    pub d_model: usize,
    /// Dimension of the field.
    pub field_dim: usize,
    /// The weights, row by row.
    pub w_o: Vec<T>,
    /// What keeps the divisor of the norm from zero.
    pub rms_eps: T,
}

impl<T> OperatorMeasure<T> {
    /// There is one weight for each pair of dimensions.
    pub open spec fn well_formed(self) -> bool {
        self.w_o@.len() == self.d_model * self.field_dim
    }

    /// The number of parameters.
    pub fn param_count(&self) -> (count: usize)
        requires
            self.well_formed(),
        ensures
            count == self.d_model * self.field_dim,
    {
        self.w_o.len()
    }
}

impl<T: Copy> OperatorMeasure<T> {
    /// A projection with the same weight everywhere.
    pub fn new(field_dim: usize, d_model: usize, zero: T, rms_eps: T) -> (measure: Self)
        requires
            d_model * field_dim <= usize::MAX,
        ensures
            measure.well_formed(),
            measure.d_model == d_model,
            measure.field_dim == field_dim,
            cache::blank(measure.w_o, d_model * field_dim, zero),
            measure.rms_eps == rms_eps,
    {
        OperatorMeasure { d_model, field_dim, w_o: blank_buffer(zero, d_model * field_dim), rms_eps }
    }
}

/// The raw weight at a position of the projection, as the numerator of a fraction of 2 to the
/// 24th.
pub open spec fn weight_mantissa(index: nat) -> u32 {
    xorshift::mantissa_of(
        xorshift::following((index as u64).wrapping_mul(WEIGHT_SEED_FACTOR) ^ WEIGHT_SEED_MASK),
    )
}

/// Draws the raw weights of a projection.
pub fn weight_mantissas(field_dim: usize, d_model: usize) -> (drawn: Vec<u32>)
    requires
        d_model * field_dim <= usize::MAX,
    ensures
        drawn@ == Seq::new((d_model * field_dim) as nat, |i: int| weight_mantissa(i as nat)),
{
    let n: usize = d_model * field_dim;
    let mut drawn: Vec<u32> = Vec::new();
    for i in 0..n
        invariant
            drawn@ == Seq::new(i as nat, |j: int| weight_mantissa(j as nat)),
    {
        let seed: u64 = (i as u64).wrapping_mul(WEIGHT_SEED_FACTOR) ^ WEIGHT_SEED_MASK;
        drawn.push(xorshift::mantissa(xorshift::advance(seed)));
        assert(drawn@ =~= Seq::new((i + 1) as nat, |j: int| weight_mantissa(j as nat)));
    }
    drawn
}

} // verus!
