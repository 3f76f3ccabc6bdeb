//! The buffers of training: gradients, activations and the moments of the optimiser, over any
//! element type.

use vstd::prelude::*;

use crate::classic::cache::blank_buffer;
use crate::classic::cache;
use crate::classic::config::{NormType, PosEncodingType, TransformerConfig};

verus! {

/// The gradients of a model of one layer with root-mean-square norms, without biases.
#[derive(Debug, Clone)]
pub struct TransformerGrad<T> {
    /// Token embeddings.
    pub token_embeddings: Vec<T>,
    /// Scale of the norm before attention.
    pub attn_norm_gamma: Vec<T>,
    /// Query projection.
    pub w_q: Vec<T>,
    /// Key projection.
    pub w_k: Vec<T>,
    /// Value projection.
    pub w_v: Vec<T>,
    /// Output projection.
    pub w_o: Vec<T>,
    /// Scale of the norm before the feed-forward block.
    pub ffn_norm_gamma: Vec<T>,
    /// First feed-forward matrix.
    pub w_1: Vec<T>,
    /// Second feed-forward matrix.
    pub w_2: Vec<T>,
    /// Scale of the last norm.
    pub final_norm_gamma: Vec<T>,
    /// Number of tokens of the vocabulary.
    pub vocab_size: usize,
    /// Model dimension.
    pub d_model: usize,
    /// Hidden dimension of the feed-forward block.
    pub d_ff: usize,
}

/// The gradients of a configuration can be counted by machine integers.
pub open spec fn gradable(config: TransformerConfig) -> bool {
    grad_total(config) <= usize::MAX
}

/// The number of gradients of a configuration.
pub open spec fn grad_total(config: TransformerConfig) -> int {
    config.vocab_size * config.d_model + 4 * (config.d_model * config.d_model) + config.d_ff
        * config.d_model + config.d_model * config.d_ff + 3 * config.d_model
}

/// Overwrites a buffer with one element.
pub fn refill<T: Copy>(buffer: &mut Vec<T>, element: T)
    ensures
        cache::blank(*final(buffer), old(buffer)@.len() as int, element),
{
    let len: usize = buffer.len();
    let ghost before = buffer@;
    for i in 0..len
        invariant
            buffer@.len() == len,
            len == before.len(),
            forall|j: int| 0 <= j < i ==> buffer@[j] == element,
    {
        buffer.set(i, element);
    }
    assert(buffer@ =~= Seq::new(len as nat, |i: int| element));
}

impl<T> TransformerGrad<T> {
    /// Every buffer has the size that the configuration gives.
    pub open spec fn shaped(self, config: TransformerConfig) -> bool {
        &&& self.token_embeddings@.len() == config.vocab_size * config.d_model
        &&& self.attn_norm_gamma@.len() == config.d_model as int
        &&& self.w_q@.len() == config.d_model * config.d_model
        &&& self.w_k@.len() == config.d_model * config.d_model
        &&& self.w_v@.len() == config.d_model * config.d_model
        &&& self.w_o@.len() == config.d_model * config.d_model
        &&& self.ffn_norm_gamma@.len() == config.d_model as int
        &&& self.w_1@.len() == config.d_ff * config.d_model
        &&& self.w_2@.len() == config.d_model * config.d_ff
        &&& self.final_norm_gamma@.len() == config.d_model as int
        &&& self.vocab_size == config.vocab_size
        &&& self.d_model == config.d_model
        &&& self.d_ff == config.d_ff
    }

    /// Every buffer holds one element.
    pub open spec fn uniform(self, element: T) -> bool {
        &&& cache::blank(self.token_embeddings, self.token_embeddings@.len() as int, element)
        &&& cache::blank(self.attn_norm_gamma, self.attn_norm_gamma@.len() as int, element)
        &&& cache::blank(self.w_q, self.w_q@.len() as int, element)
        &&& cache::blank(self.w_k, self.w_k@.len() as int, element)
        &&& cache::blank(self.w_v, self.w_v@.len() as int, element)
        &&& cache::blank(self.w_o, self.w_o@.len() as int, element)
        &&& cache::blank(self.ffn_norm_gamma, self.ffn_norm_gamma@.len() as int, element)
        &&& cache::blank(self.w_1, self.w_1@.len() as int, element)
        &&& cache::blank(self.w_2, self.w_2@.len() as int, element)
        &&& cache::blank(self.final_norm_gamma, self.final_norm_gamma@.len() as int, element)
    }

    /// Every buffer is as long as in the other.
    pub open spec fn same_shape(self, other: Self) -> bool {
        &&& self.token_embeddings@.len() == other.token_embeddings@.len()
        &&& self.attn_norm_gamma@.len() == other.attn_norm_gamma@.len()
        &&& self.w_q@.len() == other.w_q@.len()
        &&& self.w_k@.len() == other.w_k@.len()
        &&& self.w_v@.len() == other.w_v@.len()
        &&& self.w_o@.len() == other.w_o@.len()
        &&& self.ffn_norm_gamma@.len() == other.ffn_norm_gamma@.len()
        &&& self.w_1@.len() == other.w_1@.len()
        &&& self.w_2@.len() == other.w_2@.len()
        &&& self.final_norm_gamma@.len() == other.final_norm_gamma@.len()
        &&& self.vocab_size == other.vocab_size
        &&& self.d_model == other.d_model
        &&& self.d_ff == other.d_ff
    }

    /// The number of elements.
    pub open spec fn total(self) -> nat {
        self.token_embeddings@.len()
            + self.attn_norm_gamma@.len()
            + self.w_q@.len()
            + self.w_k@.len()
            + self.w_v@.len()
            + self.w_o@.len()
            + self.ffn_norm_gamma@.len()
            + self.w_1@.len()
            + self.w_2@.len()
            + self.final_norm_gamma@.len()
    }

    /// The number of elements.
    pub fn param_count(&self) -> (count: usize)
        requires
            self.total() <= usize::MAX,
        ensures
            count == self.total(),
    {
        self.token_embeddings.len()
            + self.attn_norm_gamma.len()
            + self.w_q.len()
            + self.w_k.len()
            + self.w_v.len()
            + self.w_o.len()
            + self.ffn_norm_gamma.len()
            + self.w_1.len()
            + self.w_2.len()
            + self.final_norm_gamma.len()
    }
}

/// The sizes of the single buffers are bounded by the whole.
proof fn lemma_grad_sizes(config: TransformerConfig)
    requires
        gradable(config),
    ensures
        0 <= config.vocab_size * config.d_model <= usize::MAX,
        0 <= config.d_model * config.d_model <= usize::MAX,
        0 <= config.d_ff * config.d_model <= usize::MAX,
        0 <= config.d_model * config.d_ff <= usize::MAX,
{
    assert(0 <= config.vocab_size * config.d_model) by (nonlinear_arith);
    assert(0 <= config.d_model * config.d_model) by (nonlinear_arith);
    assert(0 <= config.d_ff * config.d_model) by (nonlinear_arith);
    assert(0 <= config.d_model * config.d_ff) by (nonlinear_arith);
}

impl<T: Copy> TransformerGrad<T> {
    /// Allocates the gradients of a configuration.
    pub fn new(config: &TransformerConfig, zero: T) -> (grad: Self)
        requires
            gradable(*config),
        ensures
            grad.shaped(*config),
            grad.uniform(zero),
    {
        proof {
            lemma_grad_sizes(*config);
        }
        let v: usize = config.vocab_size;
        let d: usize = config.d_model;
        let f: usize = config.d_ff;
        TransformerGrad {
            token_embeddings: blank_buffer(zero, v * d),
            attn_norm_gamma: blank_buffer(zero, d),
            w_q: blank_buffer(zero, d * d),
            w_k: blank_buffer(zero, d * d),
            w_v: blank_buffer(zero, d * d),
            w_o: blank_buffer(zero, d * d),
            ffn_norm_gamma: blank_buffer(zero, d),
            w_1: blank_buffer(zero, f * d),
            w_2: blank_buffer(zero, d * f),
            final_norm_gamma: blank_buffer(zero, d),
            vocab_size: v,
            d_model: d,
            d_ff: f,
        }
    }

    /// Resets every gradient to zero.
    pub fn zero(&mut self, zero: T)
        ensures
            final(self).same_shape(*old(self)),
            final(self).uniform(zero),
    {
        refill(&mut self.token_embeddings, zero);
        refill(&mut self.attn_norm_gamma, zero);
        refill(&mut self.w_q, zero);
        refill(&mut self.w_k, zero);
        refill(&mut self.w_v, zero);
        refill(&mut self.w_o, zero);
        refill(&mut self.ffn_norm_gamma, zero);
        refill(&mut self.w_1, zero);
        refill(&mut self.w_2, zero);
        refill(&mut self.final_norm_gamma, zero);
    }
}

/// The models that the gradients are made for.
pub open spec fn trainable(config: TransformerConfig) -> bool {
    &&& config.n_layers == 1
    &&& !config.use_bias
    &&& config.tie_word_embeddings
    &&& config.norm_type == NormType::RMSNorm
    &&& config.pos_encoding == PosEncodingType::Sinusoidal
}

/// There is one gradient for each parameter of a trainable model.
pub proof fn law_one_gradient_for_each_parameter<T>(
    grad: TransformerGrad<T>,
    config: TransformerConfig,
)
    requires
        trainable(config),
        grad.shaped(config),
    ensures
        grad.total() == config.param_total(),
{
    assert(config.d_ff * config.d_model == config.d_model * config.d_ff) by (nonlinear_arith);
}

/// The number of attention scores that training keeps.
pub open spec fn train_score_total(config: TransformerConfig) -> nat {
    config.n_heads as nat * config.max_seq_len as nat * config.max_seq_len as nat
}

/// The training buffers of a configuration can be indexed by machine integers.
pub open spec fn workable(config: TransformerConfig) -> bool {
    &&& config.max_seq_len * config.d_model <= usize::MAX
    &&& config.max_seq_len * config.d_ff <= usize::MAX
    &&& config.max_seq_len * config.vocab_size <= usize::MAX
    &&& config.n_heads * config.max_seq_len <= usize::MAX
    &&& train_score_total(config) <= usize::MAX
    &&& config.n_heads > 0
}

/// The activations of the forward pass, and behind them the adjoints of the backward pass.
#[derive(Debug, Clone)]
pub struct TrainWorkspace<T> {
    pub max_seq_len: usize,
    pub d_model: usize,
    pub d_ff: usize,
    pub vocab_size: usize,
    pub n_heads: usize,
    pub head_dim: usize,
    pub x_0: Vec<T>,
    pub x_0_norm: Vec<T>,
    pub rms_attn: Vec<T>,
    pub a: Vec<T>,
    pub q: Vec<T>,
    pub k: Vec<T>,
    pub v: Vec<T>,
    pub attn_scores: Vec<T>,
    pub attn_probs: Vec<T>,
    pub attn_out: Vec<T>,
    pub m: Vec<T>,
    pub x_mid: Vec<T>,
    pub x_mid_norm: Vec<T>,
    pub rms_ffn: Vec<T>,
    pub b: Vec<T>,
    pub z: Vec<T>,
    pub h: Vec<T>,
    pub f: Vec<T>,
    pub x_1: Vec<T>,
    pub x_1_norm: Vec<T>,
    pub rms_final: Vec<T>,
    pub u: Vec<T>,
    pub logits: Vec<T>,
    pub probs: Vec<T>,
    pub d_logits: Vec<T>,
    pub d_u: Vec<T>,
    pub d_x_1: Vec<T>,
    pub d_f: Vec<T>,
    pub d_h: Vec<T>,
    pub d_z: Vec<T>,
    pub d_b: Vec<T>,
    pub d_x_mid: Vec<T>,
    pub d_m: Vec<T>,
    pub d_attn_out: Vec<T>,
    pub d_q: Vec<T>,
    pub d_k: Vec<T>,
    pub d_v: Vec<T>,
    pub d_attn_scores: Vec<T>,
    pub d_a: Vec<T>,
    pub d_x_0: Vec<T>,
}

impl<T> TrainWorkspace<T> {
    /// The activations have the sizes that the configuration gives, and hold one element.
    pub open spec fn blank_activations(self, config: TransformerConfig, zero: T) -> bool {
        let rows = config.max_seq_len * config.d_model;
        &&& cache::blank(self.x_0, rows, zero)
        &&& cache::blank(self.x_0_norm, rows, zero)
        &&& cache::blank(self.rms_attn, config.max_seq_len as int, zero)
        &&& cache::blank(self.a, rows, zero)
        &&& cache::blank(self.q, rows, zero)
        &&& cache::blank(self.k, rows, zero)
        &&& cache::blank(self.v, rows, zero)
        &&& cache::blank(self.attn_scores, train_score_total(config) as int, zero)
        &&& cache::blank(self.attn_probs, train_score_total(config) as int, zero)
        &&& cache::blank(self.attn_out, rows, zero)
        &&& cache::blank(self.m, rows, zero)
        &&& cache::blank(self.x_mid, rows, zero)
        &&& cache::blank(self.x_mid_norm, rows, zero)
        &&& cache::blank(self.rms_ffn, config.max_seq_len as int, zero)
        &&& cache::blank(self.b, rows, zero)
        &&& cache::blank(self.z, config.max_seq_len * config.d_ff, zero)
        &&& cache::blank(self.h, config.max_seq_len * config.d_ff, zero)
        &&& cache::blank(self.f, rows, zero)
        &&& cache::blank(self.x_1, rows, zero)
        &&& cache::blank(self.x_1_norm, rows, zero)
        &&& cache::blank(self.rms_final, config.max_seq_len as int, zero)
        &&& cache::blank(self.u, rows, zero)
        &&& cache::blank(self.logits, config.max_seq_len * config.vocab_size, zero)
        &&& cache::blank(self.probs, config.max_seq_len * config.vocab_size, zero)
    }

    /// The adjoints have the sizes that the configuration gives, and hold one element.
    pub open spec fn blank_adjoints(self, config: TransformerConfig, zero: T) -> bool {
        let rows = config.max_seq_len * config.d_model;
        &&& cache::blank(self.d_logits, config.max_seq_len * config.vocab_size, zero)
        &&& cache::blank(self.d_u, rows, zero)
        &&& cache::blank(self.d_x_1, rows, zero)
        &&& cache::blank(self.d_f, rows, zero)
        &&& cache::blank(self.d_h, config.max_seq_len * config.d_ff, zero)
        &&& cache::blank(self.d_z, config.max_seq_len * config.d_ff, zero)
        &&& cache::blank(self.d_b, rows, zero)
        &&& cache::blank(self.d_x_mid, rows, zero)
        &&& cache::blank(self.d_m, rows, zero)
        &&& cache::blank(self.d_attn_out, rows, zero)
        &&& cache::blank(self.d_q, rows, zero)
        &&& cache::blank(self.d_k, rows, zero)
        &&& cache::blank(self.d_v, rows, zero)
        &&& cache::blank(self.d_attn_scores, train_score_total(config) as int, zero)
        &&& cache::blank(self.d_a, rows, zero)
        &&& cache::blank(self.d_x_0, rows, zero)
    }

    /// The dimensions are those of the configuration.
    pub open spec fn dimensioned(self, config: TransformerConfig) -> bool {
        &&& self.max_seq_len == config.max_seq_len
        &&& self.d_model == config.d_model
        &&& self.d_ff == config.d_ff
        &&& self.vocab_size == config.vocab_size
        &&& self.n_heads == config.n_heads
        &&& self.head_dim == config.d_model / config.n_heads
    }
}

impl<T: Copy> TrainWorkspace<T> {
    /// Allocates the training buffers of a configuration.
    pub fn new(config: &TransformerConfig, zero: T) -> (workspace: Self)
        requires
            workable(*config),
        ensures
            workspace.dimensioned(*config),
            workspace.blank_activations(*config, zero),
            workspace.blank_adjoints(*config, zero),
    {
        let s: usize = config.max_seq_len;
        let rows: usize = s * config.d_model;
        let hidden: usize = s * config.d_ff;
        let vocab: usize = s * config.vocab_size;
        let scores: usize = config.n_heads * s * s;
        TrainWorkspace {
            max_seq_len: s,
            d_model: config.d_model,
            d_ff: config.d_ff,
            vocab_size: config.vocab_size,
            n_heads: config.n_heads,
            head_dim: config.head_dim(),
            x_0: blank_buffer(zero, rows),
            x_0_norm: blank_buffer(zero, rows),
            rms_attn: blank_buffer(zero, s),
            a: blank_buffer(zero, rows),
            q: blank_buffer(zero, rows),
            k: blank_buffer(zero, rows),
            v: blank_buffer(zero, rows),
            attn_scores: blank_buffer(zero, scores),
            attn_probs: blank_buffer(zero, scores),
            attn_out: blank_buffer(zero, rows),
            m: blank_buffer(zero, rows),
            x_mid: blank_buffer(zero, rows),
            x_mid_norm: blank_buffer(zero, rows),
            rms_ffn: blank_buffer(zero, s),
            b: blank_buffer(zero, rows),
            z: blank_buffer(zero, hidden),
            h: blank_buffer(zero, hidden),
            f: blank_buffer(zero, rows),
            x_1: blank_buffer(zero, rows),
            x_1_norm: blank_buffer(zero, rows),
            rms_final: blank_buffer(zero, s),
            u: blank_buffer(zero, rows),
            logits: blank_buffer(zero, vocab),
            probs: blank_buffer(zero, vocab),
            d_logits: blank_buffer(zero, vocab),
            d_u: blank_buffer(zero, rows),
            d_x_1: blank_buffer(zero, rows),
            d_f: blank_buffer(zero, rows),
            d_h: blank_buffer(zero, hidden),
            d_z: blank_buffer(zero, hidden),
            d_b: blank_buffer(zero, rows),
            d_x_mid: blank_buffer(zero, rows),
            d_m: blank_buffer(zero, rows),
            d_attn_out: blank_buffer(zero, rows),
            d_q: blank_buffer(zero, rows),
            d_k: blank_buffer(zero, rows),
            d_v: blank_buffer(zero, rows),
            d_attn_scores: blank_buffer(zero, scores),
            d_a: blank_buffer(zero, rows),
            d_x_0: blank_buffer(zero, rows),
        }
    }
}

/// The state of the optimiser: the running moments of every gradient, the coefficients and the
/// number of updates made.
#[derive(Debug, Clone)]
pub struct AdamW<T> {
    /// First moments.
    pub m: TransformerGrad<T>,
    /// Second moments.
    pub v: TransformerGrad<T>,
    /// Decay of the first moments.
    pub beta1: T,
    /// Decay of the second moments.
    pub beta2: T,
    /// What keeps the divisor from zero.
    pub eps: T,
    /// Decay of the weights.
    pub weight_decay: T,
    /// Number of updates made.
    pub step_count: usize,
}

impl<T: Copy> AdamW<T> {
    /// An optimiser that has made no update.
    pub fn new(
        config: &TransformerConfig,
        zero: T,
        beta1: T,
        beta2: T,
        eps: T,
        weight_decay: T,
    ) -> (optimizer: Self)
        requires
            gradable(*config),
        ensures
            optimizer.m.shaped(*config),
            optimizer.m.uniform(zero),
            optimizer.v.shaped(*config),
            optimizer.v.uniform(zero),
            optimizer.beta1 == beta1,
            optimizer.beta2 == beta2,
            optimizer.eps == eps,
            optimizer.weight_decay == weight_decay,
            optimizer.step_count == 0,
    {
        AdamW {
            m: TransformerGrad::new(config, zero),
            v: TransformerGrad::new(config, zero),
            beta1,
            beta2,
            eps,
            weight_decay,
            step_count: 0,
        }
    }

    /// Counts one update.
    pub fn count_step(&mut self) -> (count: usize)
        requires
            old(self).step_count < usize::MAX,
        ensures
            final(self).step_count == old(self).step_count + 1,
            count == final(self).step_count,
            final(self).m == old(self).m,
            final(self).v == old(self).v,
            final(self).beta1 == old(self).beta1,
            final(self).beta2 == old(self).beta2,
            final(self).eps == old(self).eps,
            final(self).weight_decay == old(self).weight_decay,
    {
        self.step_count = self.step_count + 1;
        self.step_count
    }
}

} // verus!
