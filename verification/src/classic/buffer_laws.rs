//! What is in every buffer and field of models, gradients, workspaces and caches.

use vstd::prelude::*;

use crate::classic::cache::{AttentionWorkspace, KvCache, MlpWorkspace};
use crate::classic::cache;
use crate::classic::config::{NormType, PosEncodingType, TransformerConfig};
use crate::classic::model::{Transformer, TransformerLayer};
use crate::classic::train::{TrainWorkspace, TransformerGrad};

verus! {

/// A buffer has a size, and at a place holds an element.
pub open spec fn holds<T>(buffer: Vec<T>, size: int, element: T, i: int) -> bool {
    buffer@.len() == size && (0 <= i < size ==> buffer@[i] == element)
}

/// A buffer is there exactly where it should be, and then has a size and at a place holds an
/// element.
pub open spec fn may_hold<T>(
    buffer: Option<Vec<T>>,
    present: bool,
    size: int,
    element: T,
    i: int,
) -> bool {
    match buffer {
        Some(b) => present && holds(b, size, element, i),
        None => !present,
    }
}

/// The gradients of a configuration that hold one element hold it in every place of every buffer.
pub proof fn law_gradients_hold_their_element<T>(
    grad: TransformerGrad<T>,
    config: TransformerConfig,
    element: T,
    i: int,
)
    requires
        grad.shaped(config),
        grad.uniform(element),
    ensures
        holds(grad.token_embeddings, config.vocab_size * config.d_model, element, i),
        holds(grad.attn_norm_gamma, config.d_model as int, element, i),
        holds(grad.w_q, config.d_model * config.d_model, element, i),
        holds(grad.w_k, config.d_model * config.d_model, element, i),
        holds(grad.w_v, config.d_model * config.d_model, element, i),
        holds(grad.w_o, config.d_model * config.d_model, element, i),
        holds(grad.ffn_norm_gamma, config.d_model as int, element, i),
        holds(grad.w_1, config.d_ff * config.d_model, element, i),
        holds(grad.w_2, config.d_model * config.d_ff, element, i),
        holds(grad.final_norm_gamma, config.d_model as int, element, i),
        grad.vocab_size == config.vocab_size,
        grad.d_model == config.d_model,
        grad.d_ff == config.d_ff,
{
}

/// Gradients that are as long as those of a configuration are gradients of it.
pub proof fn law_gradients_keep_their_sizes<T>(
    grad: TransformerGrad<T>,
    other: TransformerGrad<T>,
)
    requires
        grad.same_shape(other),
    ensures
        grad.token_embeddings@.len() == other.token_embeddings@.len(),
        grad.attn_norm_gamma@.len() == other.attn_norm_gamma@.len(),
        grad.w_q@.len() == other.w_q@.len(),
        grad.w_k@.len() == other.w_k@.len(),
        grad.w_v@.len() == other.w_v@.len(),
        grad.w_o@.len() == other.w_o@.len(),
        grad.ffn_norm_gamma@.len() == other.ffn_norm_gamma@.len(),
        grad.w_1@.len() == other.w_1@.len(),
        grad.w_2@.len() == other.w_2@.len(),
        grad.final_norm_gamma@.len() == other.final_norm_gamma@.len(),
        grad.vocab_size == other.vocab_size,
        grad.d_model == other.d_model,
        grad.d_ff == other.d_ff,
{
}

/// The buffers of training have a place for each position and dimension, and the scores one for
/// each head and pair of positions; all of them hold one element.
#[verifier::spinoff_prover]
pub proof fn law_training_buffers_are_blank<T>(
    workspace: TrainWorkspace<T>,
    config: TransformerConfig,
    zero: T,
    i: int,
)
    requires
        workspace.blank_activations(config, zero),
        workspace.blank_adjoints(config, zero),
    ensures
        holds(workspace.x_0, config.max_seq_len * config.d_model, zero, i),
        holds(workspace.x_0_norm, config.max_seq_len * config.d_model, zero, i),
        holds(workspace.rms_attn, config.max_seq_len as int, zero, i),
        holds(workspace.a, config.max_seq_len * config.d_model, zero, i),
        holds(workspace.q, config.max_seq_len * config.d_model, zero, i),
        holds(workspace.k, config.max_seq_len * config.d_model, zero, i),
        holds(workspace.v, config.max_seq_len * config.d_model, zero, i),
        holds(
            workspace.attn_scores,
            config.n_heads * config.max_seq_len * config.max_seq_len,
            zero,
            i,
        ),
        holds(
            workspace.attn_probs,
            config.n_heads * config.max_seq_len * config.max_seq_len,
            zero,
            i,
        ),
        holds(workspace.attn_out, config.max_seq_len * config.d_model, zero, i),
        holds(workspace.m, config.max_seq_len * config.d_model, zero, i),
        holds(workspace.x_mid, config.max_seq_len * config.d_model, zero, i),
        holds(workspace.x_mid_norm, config.max_seq_len * config.d_model, zero, i),
        holds(workspace.rms_ffn, config.max_seq_len as int, zero, i),
        holds(workspace.b, config.max_seq_len * config.d_model, zero, i),
        holds(workspace.z, config.max_seq_len * config.d_ff, zero, i),
        holds(workspace.h, config.max_seq_len * config.d_ff, zero, i),
        holds(workspace.f, config.max_seq_len * config.d_model, zero, i),
        holds(workspace.x_1, config.max_seq_len * config.d_model, zero, i),
        holds(workspace.x_1_norm, config.max_seq_len * config.d_model, zero, i),
        holds(workspace.rms_final, config.max_seq_len as int, zero, i),
        holds(workspace.u, config.max_seq_len * config.d_model, zero, i),
        holds(workspace.logits, config.max_seq_len * config.vocab_size, zero, i),
        holds(workspace.probs, config.max_seq_len * config.vocab_size, zero, i),
        holds(workspace.d_logits, config.max_seq_len * config.vocab_size, zero, i),
        holds(workspace.d_u, config.max_seq_len * config.d_model, zero, i),
        holds(workspace.d_x_1, config.max_seq_len * config.d_model, zero, i),
        holds(workspace.d_f, config.max_seq_len * config.d_model, zero, i),
        holds(workspace.d_h, config.max_seq_len * config.d_ff, zero, i),
        holds(workspace.d_z, config.max_seq_len * config.d_ff, zero, i),
        holds(workspace.d_b, config.max_seq_len * config.d_model, zero, i),
        holds(workspace.d_x_mid, config.max_seq_len * config.d_model, zero, i),
        holds(workspace.d_m, config.max_seq_len * config.d_model, zero, i),
        holds(workspace.d_attn_out, config.max_seq_len * config.d_model, zero, i),
        holds(workspace.d_q, config.max_seq_len * config.d_model, zero, i),
        holds(workspace.d_k, config.max_seq_len * config.d_model, zero, i),
        holds(workspace.d_v, config.max_seq_len * config.d_model, zero, i),
        holds(
            workspace.d_attn_scores,
            config.n_heads * config.max_seq_len * config.max_seq_len,
            zero,
            i,
        ),
        holds(workspace.d_a, config.max_seq_len * config.d_model, zero, i),
        holds(workspace.d_x_0, config.max_seq_len * config.d_model, zero, i),
{
}

/// The dimensions of the buffers of training are those of the configuration.
pub proof fn law_training_buffers_are_dimensioned<T>(
    workspace: TrainWorkspace<T>,
    config: TransformerConfig,
)
    requires
        workspace.dimensioned(config),
        config.n_heads > 0,
    ensures
        workspace.max_seq_len == config.max_seq_len,
        workspace.d_model == config.d_model,
        workspace.d_ff == config.d_ff,
        workspace.vocab_size == config.vocab_size,
        workspace.n_heads == config.n_heads,
        config.n_heads * workspace.head_dim <= config.d_model
            < config.n_heads * workspace.head_dim + config.n_heads,
{
    vstd::arithmetic::div_mod::lemma_fundamental_div_mod(
        config.d_model as int,
        config.n_heads as int,
    );
}

/// The buffers of attention hold one element. Whole sequences are scored up to 1024 positions.
pub proof fn law_attention_buffers_are_blank<T>(
    workspace: AttentionWorkspace<T>,
    config: TransformerConfig,
    zero: T,
    side: int,
    i: int,
)
    requires
        workspace.blank_for(config, zero),
        side <= config.max_seq_len && side <= 1024,
        side == config.max_seq_len || side == 1024,
    ensures
        holds(workspace.q, config.max_seq_len * config.d_model, zero, i),
        holds(workspace.k, config.max_seq_len * config.d_model, zero, i),
        holds(workspace.v, config.max_seq_len * config.d_model, zero, i),
        holds(workspace.attn_out, config.max_seq_len * config.d_model, zero, i),
        holds(workspace.step_q, config.d_model as int, zero, i),
        holds(workspace.step_k, config.d_model as int, zero, i),
        holds(workspace.step_v, config.d_model as int, zero, i),
        holds(workspace.step_attn_scores, config.n_heads * config.max_seq_len, zero, i),
        holds(workspace.step_attn_out, config.d_model as int, zero, i),
        holds(workspace.attn_scores, config.n_heads * side * side, zero, i),
{
}

/// The buffers of the feed-forward block hold one element.
pub proof fn law_mlp_buffers_are_blank<T>(
    workspace: MlpWorkspace<T>,
    config: TransformerConfig,
    zero: T,
    i: int,
)
    requires
        workspace.blank_for(config, zero),
    ensures
        holds(workspace.hidden, config.max_seq_len * config.d_ff, zero, i),
        holds(workspace.step_hidden, config.d_ff as int, zero, i),
{
}

/// A fresh layer has ones in the scales of its norms and zeroes in every projection and bias.
#[verifier::spinoff_prover]
pub proof fn law_fresh_layer_is_plain<T>(
    layer: TransformerLayer<T>,
    config: TransformerConfig,
    zero: T,
    one: T,
    scale: T,
    i: int,
)
    requires
        layer.blank_for(config, zero, one, scale),
    ensures
        holds(layer.attn_norm_gamma, config.d_model as int, one, i),
        may_hold(
            layer.attn_norm_beta,
            config.norm_type == NormType::LayerNorm && config.use_bias,
            config.d_model as int,
            zero,
            i,
        ),
        holds(layer.attn.w_q, config.d_model * config.d_model, zero, i),
        holds(layer.attn.w_k, config.d_model * config.d_model, zero, i),
        holds(layer.attn.w_v, config.d_model * config.d_model, zero, i),
        holds(layer.attn.w_o, config.d_model * config.d_model, zero, i),
        may_hold(layer.attn.b_q, config.use_bias, config.d_model as int, zero, i),
        may_hold(layer.attn.b_k, config.use_bias, config.d_model as int, zero, i),
        may_hold(layer.attn.b_v, config.use_bias, config.d_model as int, zero, i),
        may_hold(layer.attn.b_o, config.use_bias, config.d_model as int, zero, i),
        holds(layer.ffn_norm_gamma, config.d_model as int, one, i),
        may_hold(
            layer.ffn_norm_beta,
            config.norm_type == NormType::LayerNorm && config.use_bias,
            config.d_model as int,
            zero,
            i,
        ),
        holds(layer.mlp.w_1, config.d_ff * config.d_model, zero, i),
        may_hold(layer.mlp.b_1, config.use_bias, config.d_ff as int, zero, i),
        holds(layer.mlp.w_2, config.d_model * config.d_ff, zero, i),
        may_hold(layer.mlp.b_2, config.use_bias, config.d_model as int, zero, i),
        layer.framed_for(config, scale),
{
}

/// A buffer is there exactly where it should be, and then has a size.
pub open spec fn sized<T>(buffer: Option<Vec<T>>, present: bool, size: int) -> bool {
    match buffer {
        Some(b) => present && b@.len() == size,
        None => !present,
    }
}

/// The buffers of a layer have the sizes that the configuration gives.
#[verifier::spinoff_prover]
pub proof fn law_layer_buffers_are_sized<T>(
    layer: TransformerLayer<T>,
    config: TransformerConfig,
)
    requires
        layer.shaped(config),
    ensures
        layer.attn_norm_gamma@.len() == config.d_model as int,
        sized(
            layer.attn_norm_beta,
            config.norm_type == NormType::LayerNorm && config.use_bias,
            config.d_model as int,
        ),
        layer.attn.w_q@.len() == config.d_model * config.d_model,
        layer.attn.w_k@.len() == config.d_model * config.d_model,
        layer.attn.w_v@.len() == config.d_model * config.d_model,
        layer.attn.w_o@.len() == config.d_model * config.d_model,
        sized(layer.attn.b_q, config.use_bias, config.d_model as int),
        sized(layer.attn.b_k, config.use_bias, config.d_model as int),
        sized(layer.attn.b_v, config.use_bias, config.d_model as int),
        sized(layer.attn.b_o, config.use_bias, config.d_model as int),
        layer.ffn_norm_gamma@.len() == config.d_model as int,
        sized(
            layer.ffn_norm_beta,
            config.norm_type == NormType::LayerNorm && config.use_bias,
            config.d_model as int,
        ),
        layer.mlp.w_1@.len() == config.d_ff * config.d_model,
        sized(layer.mlp.b_1, config.use_bias, config.d_ff as int),
        layer.mlp.w_2@.len() == config.d_model * config.d_ff,
        sized(layer.mlp.b_2, config.use_bias, config.d_model as int),
{
}

/// A fresh model has ones in the scales of its norms and zeroes everywhere else, in every layer.
#[verifier::spinoff_prover]
pub proof fn law_fresh_model_is_plain<T>(
    model: Transformer<T>,
    config: TransformerConfig,
    zero: T,
    one: T,
    scale: T,
    at: int,
    i: int,
)
    requires
        model.blank_for(config, zero, one, scale),
    ensures
        model.config == config,
        model.layers@.len() == config.n_layers,
        0 <= at < config.n_layers ==> model.layers@[at].blank_for(config, zero, one, scale),
        holds(model.token_embeddings, config.vocab_size * config.d_model, zero, i),
        may_hold(
            model.pos_embeddings,
            config.pos_encoding == PosEncodingType::Learned,
            config.max_seq_len * config.d_model,
            zero,
            i,
        ),
        holds(model.final_norm_gamma, config.d_model as int, one, i),
        may_hold(
            model.final_norm_beta,
            config.norm_type == NormType::LayerNorm && config.use_bias,
            config.d_model as int,
            zero,
            i,
        ),
        may_hold(
            model.lm_head,
            !config.tie_word_embeddings,
            config.vocab_size * config.d_model,
            zero,
            i,
        ),
        may_hold(
            model.lm_head_bias,
            config.use_bias && !config.tie_word_embeddings,
            config.vocab_size as int,
            zero,
            i,
        ),
{
}

/// The buffers of a model have the sizes that its configuration gives, in every layer.
#[verifier::spinoff_prover]
pub proof fn law_model_buffers_are_sized<T>(
    model: Transformer<T>,
    config: TransformerConfig,
    at: int,
)
    requires
        model.shaped(),
        model.config == config,
    ensures
        model.layers@.len() == config.n_layers,
        0 <= at < config.n_layers ==> model.layers@[at].shaped(config),
        model.token_embeddings@.len() == config.vocab_size * config.d_model,
        sized(
            model.pos_embeddings,
            config.pos_encoding == PosEncodingType::Learned,
            config.max_seq_len * config.d_model,
        ),
        model.final_norm_gamma@.len() == config.d_model as int,
        sized(
            model.final_norm_beta,
            config.norm_type == NormType::LayerNorm && config.use_bias,
            config.d_model as int,
        ),
        sized(model.lm_head, !config.tie_word_embeddings, config.vocab_size * config.d_model),
        sized(
            model.lm_head_bias,
            config.use_bias && !config.tie_word_embeddings,
            config.vocab_size as int,
        ),
{
}

/// What is not trained in a layer comes from the configuration; its heads share the dimensions
/// evenly.
pub proof fn law_layer_frame_comes_from_the_configuration<T>(
    layer: TransformerLayer<T>,
    config: TransformerConfig,
    scale: T,
)
    requires
        layer.framed_for(config, scale),
        config.n_heads > 0,
    ensures
        layer.attn.d_model == config.d_model,
        layer.attn.n_heads == config.n_heads,
        layer.mlp.activation == config.activation,
        layer.mlp.d_model == config.d_model,
        layer.mlp.d_ff == config.d_ff,
        layer.norm_type == config.norm_type,
        layer.eps_bits == config.eps_bits,
        layer.d_model == config.d_model,
        layer.attn.scale == scale,
        config.n_heads * layer.attn.head_dim <= config.d_model
            < config.n_heads * layer.attn.head_dim + config.n_heads,
{
    vstd::arithmetic::div_mod::lemma_fundamental_div_mod(
        config.d_model as int,
        config.n_heads as int,
    );
}

/// The frame of a model comes from the configuration: every layer, and the table of sinusoids where
/// positions are sinusoidal.
pub proof fn law_model_frame_comes_from_the_configuration<T>(
    model: Transformer<T>,
    config: TransformerConfig,
    scale: T,
    sinusoids: Vec<T>,
    at: int,
)
    requires
        model.framed_for(config, scale, sinusoids),
    ensures
        model.config == config,
        model.layers@.len() == config.n_layers,
        0 <= at < config.n_layers ==> model.layers@[at].framed_for(config, scale),
        config.pos_encoding == PosEncodingType::Sinusoidal ==> model.sinusoidal_table == Some(
            sinusoids,
        ),
        config.pos_encoding != PosEncodingType::Sinusoidal ==> model.sinusoidal_table is None,
{
}

/// A layer in the frame of another is another layer only by its weights.
pub proof fn law_same_frame_keeps_all_but_weights<T>(
    model: Transformer<T>,
    other: Transformer<T>,
    at: int,
)
    requires
        model.same_frame(other),
        0 <= at < model.layers@.len(),
    ensures
        model.config == other.config,
        model.sinusoidal_table == other.sinusoidal_table,
        model.layers@.len() == other.layers@.len(),
        model.layers@[at].attn.d_model == other.layers@[at].attn.d_model,
        model.layers@[at].attn.n_heads == other.layers@[at].attn.n_heads,
        model.layers@[at].attn.head_dim == other.layers@[at].attn.head_dim,
        model.layers@[at].attn.scale == other.layers@[at].attn.scale,
        model.layers@[at].mlp.activation == other.layers@[at].mlp.activation,
        model.layers@[at].mlp.d_model == other.layers@[at].mlp.d_model,
        model.layers@[at].mlp.d_ff == other.layers@[at].mlp.d_ff,
        model.layers@[at].norm_type == other.layers@[at].norm_type,
        model.layers@[at].eps_bits == other.layers@[at].eps_bits,
        model.layers@[at].d_model == other.layers@[at].d_model,
{
    assert(model.layers@[at].same_frame(other.layers@[at]));
}

/// A cache has a place for each layer, position and dimension, in this order.
pub proof fn law_cache_is_laid_out<T>(
    cache: KvCache<T>,
    layer: int,
    pos: int,
    j: int,
)
    requires
        cache.well_formed(),
        0 <= layer < cache.n_layers,
        0 <= pos < cache.max_seq_len,
        0 <= j < cache.d_model,
    ensures
        cache.k@.len() == cache.n_layers * cache.max_seq_len * cache.d_model,
        cache.v@.len() == cache.n_layers * cache.max_seq_len * cache.d_model,
        cache.key(layer, pos).len() == cache.d_model,
        cache.value(layer, pos).len() == cache.d_model,
        cache.key(layer, pos)[j] == cache.k@[(layer * cache.max_seq_len + pos) * cache.d_model + j],
        cache.value(layer, pos)[j] == cache.v@[(layer * cache.max_seq_len + pos) * cache.d_model
            + j],
{
    cache::lemma_cell_inside(
        cache.n_layers as nat,
        cache.max_seq_len as nat,
        cache.d_model as nat,
        layer as nat,
        pos as nat,
    );
    assert(0 <= (layer * cache.max_seq_len + pos) * cache.d_model) by (nonlinear_arith)
        requires
            0 <= layer,
            0 <= pos,
    ;
}

/// Caches of one shape agree in all dimensions.
pub proof fn law_cache_shapes_agree<T>(
    cache: KvCache<T>,
    other: KvCache<T>,
)
    requires
        cache.same_shape(other),
    ensures
        cache.n_layers == other.n_layers,
        cache.max_seq_len == other.max_seq_len,
        cache.d_model == other.d_model,
        cache.n_heads == other.n_heads,
        cache.head_dim == other.head_dim,
{
}

} // verus!
