//! The common sizes of the two scaled models.

use vstd::prelude::*;

use crate::scaled::config::{HEAD_DIM, ScaledConfig};
use crate::scaled::nn;

verus! {

/// The number of parameters of a model with an output projection of its own.
pub open spec fn model_total(config: ScaledConfig) -> nat {
    let d = config.d_model as nat;
    2 * (config.vocab_size as nat * d) + 4 * (d * d) + 2 * (d * config.d_ff as nat) + 3 * d
}

/// The parameters can be counted by machine integers, and the model has heads of the one
/// dimension.
pub open spec fn countable(config: ScaledConfig) -> bool {
    &&& config.d_model == config.n_heads * HEAD_DIM
    &&& model_total(config) <= usize::MAX
}

/// Products do not depend on the order of their factors.
pub proof fn lemma_products(config: ScaledConfig)
    ensures
        config.vocab_size * config.d_model == config.d_model * config.vocab_size,
        config.d_model * config.d_ff == config.d_ff * config.d_model,
        0 <= config.vocab_size * config.d_model,
        0 <= config.d_model * config.d_ff,
        0 <= config.d_model * config.d_model,
{
    assert(config.vocab_size * config.d_model == config.d_model * config.vocab_size)
        by (nonlinear_arith);
    assert(config.d_model * config.d_ff == config.d_ff * config.d_model) by (nonlinear_arith);
    assert(0 <= config.vocab_size * config.d_model) by (nonlinear_arith);
    assert(0 <= config.d_model * config.d_ff) by (nonlinear_arith);
    assert(0 <= config.d_model * config.d_model) by (nonlinear_arith);
}

/// Every part of a countable model can be counted by machine integers.
pub proof fn lemma_sizes_fit(config: ScaledConfig)
    requires
        countable(config),
    ensures
        config.vocab_size * config.d_model <= usize::MAX,
        config.d_model * config.vocab_size <= usize::MAX,
        config.d_model * config.d_ff <= usize::MAX,
        config.n_heads * 4 <= usize::MAX,
        (config.n_heads * 4) * (config.n_heads * 4) <= usize::MAX,
        4 * (config.d_model as nat * config.d_model as nat) <= usize::MAX,
{
    lemma_products(config);
    assert((config.n_heads * 4) * (config.n_heads * 4) == config.d_model * config.d_model);
}

/// The parameters of the parts add up.
pub proof fn lemma_total(config: ScaledConfig)
    ensures
        model_total(config) == config.vocab_size * config.d_model + config.d_model + 4 * (
        config.d_model * config.d_model) + config.d_model + (config.d_model * config.d_ff
            + config.d_ff * config.d_model) + config.d_model + config.d_model
            * config.vocab_size,
{
    lemma_products(config);
}

/// The lengths of the eleven parameter groups of a model.
pub open spec fn layer_lengths_of(config: ScaledConfig) -> Seq<usize> {
    let embeddings = (config.vocab_size * config.d_model) as usize;
    let square = (config.d_model * config.d_model) as usize;
    let hidden = (config.d_model * config.d_ff) as usize;
    let d = config.d_model;
    seq![embeddings, d, square, square, square, square, d, hidden, hidden, d, embeddings]
}

/// The eleven groups hold all parameters.
pub proof fn law_groups_hold_all_parameters(config: ScaledConfig)
    requires
        countable(config),
    ensures
        nn::length_before(layer_lengths_of(config), 11) == model_total(config),
{
    lemma_products(config);
    lemma_sizes_fit(config);
    reveal_with_fuel(nn::length_before, 12);
}

} // verus!
