//! What is in every buffer of the scaled models.

use vstd::prelude::*;

use crate::classic::buffer_laws::holds;
use crate::scaled::classic::{ScaledClassicAttention, ScaledClassicTransformer, ScaledClassicKvCache};
use crate::scaled::config::ScaledConfig;
use crate::scaled::nn::{Module, ScaledFFN, ScaledLinear, ScaledRMSNorm};
use crate::scaled::sizes;
use crate::scaled::srx::{
    ScaledSequenceWorkspace,
    ScaledSrxAttention,
    ScaledSrxState,
    ScaledSrxTransformer,
    ScaledWorkspace,
};

verus! {

/// A fresh state has four phases and sixteen cells of memory for each head, all of them zero.
pub proof fn law_fresh_state_remembers_nothing<T>(
    state: ScaledSrxState<T>,
    zero: T,
    i: int,
)
    requires
        state.well_formed(),
        state.fresh(zero),
    ensures
        holds(state.thetas, state.n_heads * 4, zero, i),
        holds(state.m, state.n_heads * 16, zero, i),
{
}

/// The buffers of a step have a place for each dimension they run over, and hold one element.
#[verifier::spinoff_prover]
pub proof fn law_step_buffers_are_blank<T: Copy>(
    workspace: ScaledWorkspace<T>,
    config: ScaledConfig,
    zero: T,
    i: int,
)
    requires
        workspace.blank_for(config, zero),
    ensures
        workspace.n_heads == config.n_heads,
        workspace.d_model == config.d_model,
        workspace.d_ff == config.d_ff,
        holds(workspace.q, config.d_model as int, zero, i),
        holds(workspace.k, config.d_model as int, zero, i),
        holds(workspace.v, config.d_model as int, zero, i),
        holds(workspace.head_outputs, config.d_model as int, zero, i),
        holds(workspace.hidden_act, config.d_ff as int, zero, i),
        holds(workspace.norm_buf, config.d_model as int, zero, i),
        holds(workspace.residual_buf, config.d_model as int, zero, i),
        holds(workspace.attn_out, config.d_model as int, zero, i),
        holds(workspace.ffn_out, config.d_model as int, zero, i),
        holds(workspace.n_q, config.n_heads as int, zero, i),
        holds(workspace.n_k, config.n_heads as int, zero, i),
        holds(workspace.q_norm, config.d_model as int, zero, i),
        holds(workspace.k_norm, config.d_model as int, zero, i),
        holds(workspace.curr_thetas, config.d_model as int, zero, i),
        holds(workspace.k_rot, config.d_model as int, zero, i),
        holds(workspace.prev_m, config.n_heads * 16, zero, i),
        holds(workspace.e, config.d_model as int, zero, i),
        holds(workspace.q_inv, config.d_model as int, zero, i),
        holds(workspace.q_rot, config.d_model as int, zero, i),
        holds(workspace.w_music, config.n_heads as int, zero, i),
        holds(workspace.y_ret, config.d_model as int, zero, i),
{
}

/// The buffers of training on a sequence have a place for each step and each dimension they run
/// over, and hold one element.
#[verifier::spinoff_prover]
pub proof fn law_sequence_buffers_are_blank<T: Copy>(
    workspace: ScaledSequenceWorkspace<T>,
    config: ScaledConfig,
    max_len: usize,
    zero: T,
    i: int,
)
    requires
        workspace.blank_for(config, max_len, zero),
    ensures
        workspace.max_len == max_len,
        workspace.n_heads == config.n_heads,
        workspace.d_model == config.d_model,
        workspace.d_ff == config.d_ff,
        holds(workspace.emb, max_len * config.d_model, zero, i),
        holds(workspace.norm_buf_1, max_len * config.d_model, zero, i),
        holds(workspace.q, max_len * config.d_model, zero, i),
        holds(workspace.k, max_len * config.d_model, zero, i),
        holds(workspace.v, max_len * config.d_model, zero, i),
        holds(workspace.n_q, max_len * config.n_heads, zero, i),
        holds(workspace.n_k, max_len * config.n_heads, zero, i),
        holds(workspace.q_norm, max_len * config.d_model, zero, i),
        holds(workspace.k_norm, max_len * config.d_model, zero, i),
        holds(workspace.thetas, max_len * config.d_model, zero, i),
        holds(workspace.k_rot, max_len * config.d_model, zero, i),
        holds(workspace.prev_m, max_len * config.n_heads * 16, zero, i),
        holds(workspace.m, max_len * config.n_heads * 16, zero, i),
        holds(workspace.e, max_len * config.d_model, zero, i),
        holds(workspace.q_inv, max_len * config.d_model, zero, i),
        holds(workspace.q_rot, max_len * config.d_model, zero, i),
        holds(workspace.w_music, max_len * config.n_heads, zero, i),
        holds(workspace.y_ret, max_len * config.d_model, zero, i),
        holds(workspace.head_outputs, max_len * config.d_model, zero, i),
        holds(workspace.attn_out, max_len * config.d_model, zero, i),
        holds(workspace.res1, max_len * config.d_model, zero, i),
        holds(workspace.norm_buf_2, max_len * config.d_model, zero, i),
        holds(workspace.hidden_act, max_len * config.d_ff, zero, i),
        holds(workspace.ffn_out, max_len * config.d_model, zero, i),
        holds(workspace.res2, max_len * config.d_model, zero, i),
        holds(workspace.norm_buf_3, max_len * config.d_model, zero, i),
        holds(workspace.logits, max_len * 256, zero, i),
        holds(workspace.probs, max_len * 256, zero, i),
        holds(workspace.d_m_acc, config.n_heads * 16, zero, i),
        holds(workspace.d_thetas_acc, config.n_heads * 4, zero, i),
{
}

/// A fresh norm scales by one and has no gradients; clearing its gradients reaches all of them.
pub proof fn law_fresh_norm_is_plain<T: Copy>(
    norm: ScaledRMSNorm<T>,
    dim: usize,
    eps: T,
    zero: T,
    one: T,
    i: int,
)
    requires
        norm.is_unit(dim, eps, zero, one),
    ensures
        norm.dim == dim && norm.eps == eps,
        holds(norm.weight, dim as int, one, i),
        holds(norm.grad, dim as int, zero, i),
        norm.inputs() == dim && norm.outputs() == dim && norm.params() == dim,
        norm.weights() == norm.weight@,
{
}

/// Cleared gradients of a norm and of a projection are cleared in every place.
pub proof fn law_cleared_gradients_are_cleared_everywhere<T: Copy>(
    norm: ScaledRMSNorm<T>,
    linear: ScaledLinear<T>,
    zero: T,
    i: int,
)
    requires
        norm.sized() && norm.cleared(zero),
        linear.sized() && linear.cleared(zero),
    ensures
        holds(norm.grad, norm.weight@.len() as int, zero, i),
        holds(linear.grad, linear.weight@.len() as int, zero, i),
        norm.weights() == norm.weight@ && norm.params() == norm.weight@.len(),
        linear.weights() == linear.weight@ && linear.params() == linear.weight@.len(),
        linear.inputs() == linear.in_features && linear.outputs() == linear.out_features,
{
}

/// A fresh projection has a zero for each pair of an input and an output, and no gradients.
pub proof fn law_fresh_projection_is_plain<T: Copy>(
    linear: ScaledLinear<T>,
    in_features: usize,
    out_features: usize,
    zero: T,
    i: int,
)
    requires
        linear.is_blank(in_features, out_features, zero),
    ensures
        linear.in_features == in_features && linear.out_features == out_features,
        holds(linear.weight, in_features * out_features, zero, i),
        holds(linear.grad, in_features * out_features, zero, i),
{
}

/// A fresh feed-forward block widens by its first projection and narrows by its second; clearing and
/// counting reach both.
pub proof fn law_fresh_block_is_plain<T: Copy>(
    block: ScaledFFN<T>,
    d_model: usize,
    d_ff: usize,
    zero: T,
)
    requires
        block.is_blank(d_model, d_ff, zero),
    ensures
        block.w1.is_blank(d_model, d_ff, zero),
        block.w2.is_blank(d_ff, d_model, zero),
        block.inputs() == d_model && block.outputs() == d_model,
        block.params() == 2 * (d_model * d_ff),
{
    assert(d_model * d_ff == d_ff * d_model) by (nonlinear_arith);
    assert(d_model as nat * d_ff as nat == d_ff as nat * d_model as nat) by (nonlinear_arith);
}

/// Cleared gradients of a block are those of both projections, and its parameters are theirs.
pub proof fn law_block_consists_of_its_projections<T: Copy>(
    block: ScaledFFN<T>,
    zero: T,
)
    requires
        block.sized(),
    ensures
        block.cleared(zero) <==> block.w1.cleared(zero) && block.w2.cleared(zero),
        block.weights() == block.w1.weight@ + block.w2.weight@,
        block.params() == block.w1.weight@.len() + block.w2.weight@.len(),
{
}

/// Fresh recurrent attention has heads of four dimensions and four square projections of zeroes.
pub proof fn law_fresh_recurrent_attention_is_plain<T: Copy>(
    block: ScaledSrxAttention<T>,
    n_heads: usize,
    d_model: usize,
    zero: T,
)
    requires
        block.is_blank(n_heads, zero),
        d_model == n_heads * 4,
    ensures
        block.n_heads == n_heads && block.d_head == 4 && block.d_model == d_model,
        block.w_q.is_blank(d_model, d_model, zero),
        block.w_k.is_blank(d_model, d_model, zero),
        block.w_v.is_blank(d_model, d_model, zero),
        block.w_o.is_blank(d_model, d_model, zero),
        block.inputs() == d_model && block.outputs() == d_model,
{
}

/// Cleared gradients of recurrent attention are those of all its projections, and its parameters are
/// theirs.
pub proof fn law_recurrent_attention_consists_of_its_projections<T: Copy>(
    block: ScaledSrxAttention<T>,
    zero: T,
)
    requires
        block.sized(),
    ensures
        block.cleared(zero) <==> block.w_q.cleared(zero) && block.w_k.cleared(zero)
            && block.w_v.cleared(zero) && block.w_o.cleared(zero),
        block.weights() == block.w_q.weight@ + block.w_k.weight@ + block.w_v.weight@
            + block.w_o.weight@,
        block.params() == block.w_q.weight@.len() + block.w_k.weight@.len()
            + block.w_v.weight@.len() + block.w_o.weight@.len(),
{
    assert(block.w_q.weight@.len() == block.d_model as nat * block.d_model as nat);
}

/// Fresh causal attention has heads of four dimensions and four square projections of zeroes.
pub proof fn law_fresh_causal_attention_is_plain<T: Copy>(
    block: ScaledClassicAttention<T>,
    n_heads: usize,
    d_model: usize,
    zero: T,
)
    requires
        block.is_blank(n_heads, zero),
        d_model == n_heads * 4,
    ensures
        block.n_heads == n_heads && block.d_head == 4 && block.d_model == d_model,
        block.w_q.is_blank(d_model, d_model, zero),
        block.w_k.is_blank(d_model, d_model, zero),
        block.w_v.is_blank(d_model, d_model, zero),
        block.w_o.is_blank(d_model, d_model, zero),
        block.inputs() == d_model && block.outputs() == d_model,
{
}

/// Cleared gradients of causal attention are those of all its projections, and its parameters are
/// theirs.
pub proof fn law_causal_attention_consists_of_its_projections<T: Copy>(
    block: ScaledClassicAttention<T>,
    zero: T,
)
    requires
        block.sized(),
    ensures
        block.cleared(zero) <==> block.w_q.cleared(zero) && block.w_k.cleared(zero)
            && block.w_v.cleared(zero) && block.w_o.cleared(zero),
        block.weights() == block.w_q.weight@ + block.w_k.weight@ + block.w_v.weight@
            + block.w_o.weight@,
        block.params() == block.w_q.weight@.len() + block.w_k.weight@.len()
            + block.w_v.weight@.len() + block.w_o.weight@.len(),
{
    assert(block.w_q.weight@.len() == block.d_model as nat * block.d_model as nat);
}

/// The groups of parameters of the recurrent model are its buffers in their order, and together they are
/// all that is counted.
#[verifier::spinoff_prover]
pub proof fn law_groups_of_the_recurrent_model<T: Copy>(
    model: ScaledSrxTransformer<T>,
)
    requires
        model.sized(),
        sizes::countable(model.config),
    ensures
        sizes::layer_lengths_of(model.config) == seq![
            model.embed.weight@.len() as usize,
            model.norm_attn.weight@.len() as usize,
            model.attn.w_q.weight@.len() as usize,
            model.attn.w_k.weight@.len() as usize,
            model.attn.w_v.weight@.len() as usize,
            model.attn.w_o.weight@.len() as usize,
            model.norm_ffn.weight@.len() as usize,
            model.ffn.w1.weight@.len() as usize,
            model.ffn.w2.weight@.len() as usize,
            model.norm_final.weight@.len() as usize,
            model.lm_head.weight@.len() as usize,
        ],
        sizes::model_total(model.config) == model.embed.weight@.len()
            + model.norm_attn.weight@.len()
            + model.attn.w_q.weight@.len()
            + model.attn.w_k.weight@.len()
            + model.attn.w_v.weight@.len()
            + model.attn.w_o.weight@.len()
            + model.norm_ffn.weight@.len()
            + model.ffn.w1.weight@.len()
            + model.ffn.w2.weight@.len()
            + model.norm_final.weight@.len()
            + model.lm_head.weight@.len(),
{
    sizes::lemma_products(model.config);
    sizes::lemma_sizes_fit(model.config);
    sizes::lemma_total(model.config);
    assert(sizes::layer_lengths_of(model.config) =~= seq![
        model.embed.weight@.len() as usize,
        model.norm_attn.weight@.len() as usize,
        model.attn.w_q.weight@.len() as usize,
        model.attn.w_k.weight@.len() as usize,
        model.attn.w_v.weight@.len() as usize,
        model.attn.w_o.weight@.len() as usize,
        model.norm_ffn.weight@.len() as usize,
        model.ffn.w1.weight@.len() as usize,
        model.ffn.w2.weight@.len() as usize,
        model.norm_final.weight@.len() as usize,
        model.lm_head.weight@.len() as usize,
    ]);
}

/// Every buffer of the recurrent model has a place for each pair of dimensions that it joins.
pub proof fn law_recurrent_model_is_sized<T: Copy>(
    model: ScaledSrxTransformer<T>,
    config: ScaledConfig,
)
    requires
        model.sized(),
        model.config == config,
    ensures
        config.d_model == config.n_heads * 4,
        model.embed.weight@.len() == config.vocab_size * config.d_model,
        model.norm_attn.weight@.len() == config.d_model,
        model.norm_ffn.weight@.len() == config.d_model,
        model.norm_final.weight@.len() == config.d_model,
        model.attn.w_q.weight@.len() == config.d_model * config.d_model,
        model.attn.w_k.weight@.len() == config.d_model * config.d_model,
        model.attn.w_v.weight@.len() == config.d_model * config.d_model,
        model.attn.w_o.weight@.len() == config.d_model * config.d_model,
        model.ffn.w1.weight@.len() == config.d_model * config.d_ff,
        model.ffn.w2.weight@.len() == config.d_ff * config.d_model,
        model.lm_head.weight@.len() == config.d_model * config.vocab_size,
{
}

/// The groups of parameters of the causal model are its buffers in their order, and together they are
/// all that is counted.
#[verifier::spinoff_prover]
pub proof fn law_groups_of_the_causal_model<T: Copy>(
    model: ScaledClassicTransformer<T>,
)
    requires
        model.sized(),
        sizes::countable(model.config),
    ensures
        sizes::layer_lengths_of(model.config) == seq![
            model.embed.weight@.len() as usize,
            model.norm_attn.weight@.len() as usize,
            model.attn.w_q.weight@.len() as usize,
            model.attn.w_k.weight@.len() as usize,
            model.attn.w_v.weight@.len() as usize,
            model.attn.w_o.weight@.len() as usize,
            model.norm_ffn.weight@.len() as usize,
            model.ffn.w1.weight@.len() as usize,
            model.ffn.w2.weight@.len() as usize,
            model.norm_final.weight@.len() as usize,
            model.lm_head.weight@.len() as usize,
        ],
        sizes::model_total(model.config) == model.embed.weight@.len()
            + model.norm_attn.weight@.len()
            + model.attn.w_q.weight@.len()
            + model.attn.w_k.weight@.len()
            + model.attn.w_v.weight@.len()
            + model.attn.w_o.weight@.len()
            + model.norm_ffn.weight@.len()
            + model.ffn.w1.weight@.len()
            + model.ffn.w2.weight@.len()
            + model.norm_final.weight@.len()
            + model.lm_head.weight@.len(),
{
    sizes::lemma_products(model.config);
    sizes::lemma_sizes_fit(model.config);
    sizes::lemma_total(model.config);
    assert(sizes::layer_lengths_of(model.config) =~= seq![
        model.embed.weight@.len() as usize,
        model.norm_attn.weight@.len() as usize,
        model.attn.w_q.weight@.len() as usize,
        model.attn.w_k.weight@.len() as usize,
        model.attn.w_v.weight@.len() as usize,
        model.attn.w_o.weight@.len() as usize,
        model.norm_ffn.weight@.len() as usize,
        model.ffn.w1.weight@.len() as usize,
        model.ffn.w2.weight@.len() as usize,
        model.norm_final.weight@.len() as usize,
        model.lm_head.weight@.len() as usize,
    ]);
}

/// Every buffer of the causal model has a place for each pair of dimensions that it joins.
pub proof fn law_causal_model_is_sized<T: Copy>(
    model: ScaledClassicTransformer<T>,
    config: ScaledConfig,
)
    requires
        model.sized(),
        model.config == config,
    ensures
        config.d_model == config.n_heads * 4,
        model.embed.weight@.len() == config.vocab_size * config.d_model,
        model.norm_attn.weight@.len() == config.d_model,
        model.norm_ffn.weight@.len() == config.d_model,
        model.norm_final.weight@.len() == config.d_model,
        model.attn.w_q.weight@.len() == config.d_model * config.d_model,
        model.attn.w_k.weight@.len() == config.d_model * config.d_model,
        model.attn.w_v.weight@.len() == config.d_model * config.d_model,
        model.attn.w_o.weight@.len() == config.d_model * config.d_model,
        model.ffn.w1.weight@.len() == config.d_model * config.d_ff,
        model.ffn.w2.weight@.len() == config.d_ff * config.d_model,
        model.lm_head.weight@.len() == config.d_model * config.vocab_size,
{
}

/// A cache holds a key and a value for each position, one dimension behind the other.
pub proof fn law_scaled_cache_is_laid_out<T>(
    cache: ScaledClassicKvCache<T>,
    pos: int,
    j: int,
)
    requires
        cache.well_formed(),
        0 <= pos < cache.max_seq_len,
        0 <= j < cache.d_model,
    ensures
        cache.k@.len() == cache.max_seq_len * cache.d_model,
        cache.v@.len() == cache.max_seq_len * cache.d_model,
        cache.len <= cache.max_seq_len,
        cache.key(pos).len() == cache.d_model,
        cache.value(pos).len() == cache.d_model,
        cache.key(pos)[j] == cache.k@[pos * cache.d_model + j],
        cache.value(pos)[j] == cache.v@[pos * cache.d_model + j],
{
    assert(0 <= pos * cache.d_model && pos * cache.d_model + cache.d_model <= cache.max_seq_len
        * cache.d_model) by (nonlinear_arith)
        requires
            0 <= pos < cache.max_seq_len,
    ;
}

} // verus!
