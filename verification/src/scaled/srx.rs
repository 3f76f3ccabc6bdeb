//! The recurrent model: a state of constant size in place of a cache.

use vstd::prelude::*;

use crate::classic::cache::blank_buffer;
use crate::classic::cache;
use crate::classic::train::refill;
use crate::scaled::config::{HEAD_DIM, ScaledConfig, STATE_BYTES_PER_HEAD};
use crate::scaled::nn::{Module, ScaledFFN, ScaledLinear, ScaledRMSNorm};
use crate::scaled::sizes;

verus! {

/// What the recurrent model remembers: four phases and a memory of sixteen cells for each head.
#[derive(Debug, Clone)]
pub struct ScaledSrxState<T> {
    /// Number of heads.
    pub n_heads: usize,
    /// Phases.
    pub thetas: Vec<T>,
    /// Memories.
    pub m: Vec<T>,
}

impl<T> ScaledSrxState<T> {
    /// The buffers have the sizes that the heads give.
    pub open spec fn well_formed(self) -> bool {
        &&& self.thetas@.len() == self.n_heads * 4
        &&& self.m@.len() == self.n_heads * 16
    }

    /// Nothing is remembered.
    pub open spec fn fresh(self, zero: T) -> bool {
        &&& cache::blank(self.thetas, self.n_heads * 4, zero)
        &&& cache::blank(self.m, self.n_heads * 16, zero)
    }

    /// The bytes of the state: eighty for each head.
    pub fn memory_bytes(&self) -> (bytes: usize)
        requires
            self.n_heads * 80 <= usize::MAX,
        ensures
            bytes == self.n_heads * 80,
            self.well_formed() ==> bytes == 4 * (self.thetas@.len() + self.m@.len()),
    {
        self.n_heads * STATE_BYTES_PER_HEAD
    }
}

impl<T: Copy> ScaledSrxState<T> {
    /// A state that remembers nothing.
    pub fn new(n_heads: usize, zero: T) -> (state: Self)
        requires
            n_heads * 16 <= usize::MAX,
        ensures
            state.well_formed(),
            state.n_heads == n_heads,
            state.fresh(zero),
    {
        ScaledSrxState {
            n_heads,
            thetas: blank_buffer(zero, n_heads * 4),
            m: blank_buffer(zero, n_heads * 16),
        }
    }

    /// Forgets everything.
    pub fn reset(&mut self, zero: T)
        requires
            old(self).well_formed(),
        ensures
            final(self).well_formed(),
            final(self).n_heads == old(self).n_heads,
            final(self).fresh(zero),
    {
        refill(&mut self.thetas, zero);
        refill(&mut self.m, zero);
    }
}

/// Scratch buffers of a single step.
#[derive(Debug, Clone)]
pub struct ScaledWorkspace<T> {
    pub n_heads: usize,
    pub d_model: usize,
    pub d_ff: usize,
    pub q: Vec<T>,
    pub k: Vec<T>,
    pub v: Vec<T>,
    pub head_outputs: Vec<T>,
    pub hidden_act: Vec<T>,
    pub norm_buf: Vec<T>,
    pub residual_buf: Vec<T>,
    pub attn_out: Vec<T>,
    pub ffn_out: Vec<T>,
    pub n_q: Vec<T>,
    pub n_k: Vec<T>,
    pub q_norm: Vec<T>,
    pub k_norm: Vec<T>,
    pub curr_thetas: Vec<T>,
    pub k_rot: Vec<T>,
    pub prev_m: Vec<T>,
    pub e: Vec<T>,
    pub q_inv: Vec<T>,
    pub q_rot: Vec<T>,
    pub w_music: Vec<T>,
    pub y_ret: Vec<T>,
}

impl<T: Copy> ScaledWorkspace<T> {
    /// Every buffer has the size that the configuration gives, and holds one element.
    pub open spec fn blank_for(self, config: ScaledConfig, zero: T) -> bool {
        &&& self.n_heads == config.n_heads
        &&& self.d_model == config.d_model
        &&& self.d_ff == config.d_ff
        &&& cache::blank(self.q, config.d_model as int, zero)
        &&& cache::blank(self.k, config.d_model as int, zero)
        &&& cache::blank(self.v, config.d_model as int, zero)
        &&& cache::blank(self.head_outputs, config.d_model as int, zero)
        &&& cache::blank(self.hidden_act, config.d_ff as int, zero)
        &&& cache::blank(self.norm_buf, config.d_model as int, zero)
        &&& cache::blank(self.residual_buf, config.d_model as int, zero)
        &&& cache::blank(self.attn_out, config.d_model as int, zero)
        &&& cache::blank(self.ffn_out, config.d_model as int, zero)
        &&& cache::blank(self.n_q, config.n_heads as int, zero)
        &&& cache::blank(self.n_k, config.n_heads as int, zero)
        &&& cache::blank(self.q_norm, config.d_model as int, zero)
        &&& cache::blank(self.k_norm, config.d_model as int, zero)
        &&& cache::blank(self.curr_thetas, config.d_model as int, zero)
        &&& cache::blank(self.k_rot, config.d_model as int, zero)
        &&& cache::blank(self.prev_m, config.n_heads * 16, zero)
        &&& cache::blank(self.e, config.d_model as int, zero)
        &&& cache::blank(self.q_inv, config.d_model as int, zero)
        &&& cache::blank(self.q_rot, config.d_model as int, zero)
        &&& cache::blank(self.w_music, config.n_heads as int, zero)
        &&& cache::blank(self.y_ret, config.d_model as int, zero)
    }

    /// Allocates the scratch buffers of a configuration.
    pub fn new(config: &ScaledConfig, zero: T) -> (workspace: Self)
        requires
            config.n_heads * 16 <= usize::MAX,
        ensures
            workspace.blank_for(*config, zero),
    {
        ScaledWorkspace {
            n_heads: config.n_heads,
            d_model: config.d_model,
            d_ff: config.d_ff,
            q: blank_buffer(zero, config.d_model),
            k: blank_buffer(zero, config.d_model),
            v: blank_buffer(zero, config.d_model),
            head_outputs: blank_buffer(zero, config.d_model),
            hidden_act: blank_buffer(zero, config.d_ff),
            norm_buf: blank_buffer(zero, config.d_model),
            residual_buf: blank_buffer(zero, config.d_model),
            attn_out: blank_buffer(zero, config.d_model),
            ffn_out: blank_buffer(zero, config.d_model),
            n_q: blank_buffer(zero, config.n_heads),
            n_k: blank_buffer(zero, config.n_heads),
            q_norm: blank_buffer(zero, config.d_model),
            k_norm: blank_buffer(zero, config.d_model),
            curr_thetas: blank_buffer(zero, config.d_model),
            k_rot: blank_buffer(zero, config.d_model),
            prev_m: blank_buffer(zero, config.n_heads * 16),
            e: blank_buffer(zero, config.d_model),
            q_inv: blank_buffer(zero, config.d_model),
            q_rot: blank_buffer(zero, config.d_model),
            w_music: blank_buffer(zero, config.n_heads),
            y_ret: blank_buffer(zero, config.d_model),
        }
    }
}

/// Attention by phases and associative memories.
#[derive(Debug, Clone)]
pub struct ScaledSrxAttention<T> {
    /// Number of heads.
    pub n_heads: usize,
    /// Dimension of every head.
    pub d_head: usize,
    /// Model dimension.
    pub d_model: usize,
    /// Queries.
    pub w_q: ScaledLinear<T>,
    /// Keys.
    pub w_k: ScaledLinear<T>,
    /// Values.
    pub w_v: ScaledLinear<T>,
    /// Output.
    pub w_o: ScaledLinear<T>,
}

impl<T: Copy> ScaledSrxAttention<T> {
    /// A block of the given number of heads with zero everywhere and no gradients.
    pub open spec fn is_blank(self, n_heads: usize, zero: T) -> bool {
        &&& self.sized()
        &&& self.n_heads == n_heads
        &&& self.d_model == n_heads * 4
        &&& self.w_q.is_blank(self.d_model, self.d_model, zero)
        &&& self.w_k.is_blank(self.d_model, self.d_model, zero)
        &&& self.w_v.is_blank(self.d_model, self.d_model, zero)
        &&& self.w_o.is_blank(self.d_model, self.d_model, zero)
    }

    /// A block with the same weight everywhere.
    pub fn new(n_heads: usize, zero: T) -> (block: Self)
        requires
            n_heads * 4 <= usize::MAX,
            (n_heads * 4) * (n_heads * 4) <= usize::MAX,
        ensures
            block.is_blank(n_heads, zero),
            block.cleared(zero),
    {
        let d_model: usize = n_heads * HEAD_DIM;
        ScaledSrxAttention {
            n_heads,
            d_head: HEAD_DIM,
            d_model,
            w_q: ScaledLinear::new(d_model, d_model, zero),
            w_k: ScaledLinear::new(d_model, d_model, zero),
            w_v: ScaledLinear::new(d_model, d_model, zero),
            w_o: ScaledLinear::new(d_model, d_model, zero),
        }
    }
}

impl<T: Copy> Module for ScaledSrxAttention<T> {
    type Element = T;

    open spec fn sized(&self) -> bool {
        &&& self.d_head == HEAD_DIM
        &&& self.d_model == self.n_heads * self.d_head
        &&& self.w_q.sized() && self.w_q.in_features == self.d_model && self.w_q.out_features
            == self.d_model
        &&& self.w_k.sized() && self.w_k.in_features == self.d_model && self.w_k.out_features
            == self.d_model
        &&& self.w_v.sized() && self.w_v.in_features == self.d_model && self.w_v.out_features
            == self.d_model
        &&& self.w_o.sized() && self.w_o.in_features == self.d_model && self.w_o.out_features
            == self.d_model
    }

    open spec fn inputs(&self) -> nat {
        self.d_model as nat
    }

    open spec fn outputs(&self) -> nat {
        self.d_model as nat
    }

    open spec fn params(&self) -> nat {
        4 * (self.d_model as nat * self.d_model as nat)
    }

    open spec fn weights(&self) -> Seq<T> {
        self.w_q.weights() + self.w_k.weights() + self.w_v.weights() + self.w_o.weights()
    }

    open spec fn cleared(&self, zero: T) -> bool {
        &&& self.w_q.cleared(zero)
        &&& self.w_k.cleared(zero)
        &&& self.w_v.cleared(zero)
        &&& self.w_o.cleared(zero)
    }

    fn in_dim(&self) -> (dim: usize) {
        self.d_model
    }

    fn out_dim(&self) -> (dim: usize) {
        self.d_model
    }

    fn param_count(&self) -> (count: usize) {
        self.w_q.param_count() + self.w_k.param_count() + self.w_v.param_count()
            + self.w_o.param_count()
    }

    fn zero_grad(&mut self, zero: T)
        ensures
            final(self).n_heads == old(self).n_heads,
            final(self).w_q.weight@ == old(self).w_q.weight@,
            final(self).w_k.weight@ == old(self).w_k.weight@,
            final(self).w_v.weight@ == old(self).w_v.weight@,
            final(self).w_o.weight@ == old(self).w_o.weight@,
    {
        self.w_q.zero_grad(zero);
        self.w_k.zero_grad(zero);
        self.w_v.zero_grad(zero);
        self.w_o.zero_grad(zero);
    }
}

/// The recurrent model.
#[derive(Debug, Clone)]
pub struct ScaledSrxTransformer<T> {
    /// Sizes.
    pub config: ScaledConfig,
    /// Embeddings.
    pub embed: ScaledLinear<T>,
    /// Norm before attention.
    pub norm_attn: ScaledRMSNorm<T>,
    /// Attention.
    pub attn: ScaledSrxAttention<T>,
    /// Norm before the feed-forward block.
    pub norm_ffn: ScaledRMSNorm<T>,
    /// Feed-forward block.
    pub ffn: ScaledFFN<T>,
    /// Last norm.
    pub norm_final: ScaledRMSNorm<T>,
    /// Output projection.
    pub lm_head: ScaledLinear<T>,
}

impl<T: Copy> ScaledSrxTransformer<T> {
    /// Every part has the sizes of the configuration.
    pub open spec fn sized(self) -> bool {
        let config = self.config;
        &&& config.d_model == config.n_heads * HEAD_DIM
        &&& self.embed.sized() && self.embed.in_features == config.vocab_size
            && self.embed.out_features == config.d_model
        &&& self.norm_attn.sized() && self.norm_attn.dim == config.d_model
        &&& self.attn.sized() && self.attn.d_model == config.d_model
        &&& self.norm_ffn.sized() && self.norm_ffn.dim == config.d_model
        &&& self.ffn.sized() && self.ffn.w1.in_features == config.d_model
            && self.ffn.w1.out_features == config.d_ff && self.ffn.w2.out_features
            == config.d_model
        &&& self.norm_final.sized() && self.norm_final.dim == config.d_model
        &&& self.lm_head.sized() && self.lm_head.in_features == config.d_model
            && self.lm_head.out_features == config.vocab_size
    }

    /// A model with the same weight everywhere but in its norms, which are one.
    pub fn new(config: &ScaledConfig, eps: T, zero: T, one: T) -> (model: Self)
        requires
            sizes::countable(*config),
        ensures
            model.sized(),
            model.config == *config,
            model.embed.is_blank(config.vocab_size, config.d_model, zero),
            model.norm_attn.is_unit(config.d_model, eps, zero, one),
            model.attn.is_blank(config.n_heads, zero),
            model.norm_ffn.is_unit(config.d_model, eps, zero, one),
            model.ffn.is_blank(config.d_model, config.d_ff, zero),
            model.norm_final.is_unit(config.d_model, eps, zero, one),
            model.lm_head.is_blank(config.d_model, config.vocab_size, zero),
    {
        let dm: usize = config.d_model;
        let v: usize = config.vocab_size;
        proof {
            sizes::lemma_sizes_fit(*config);
        }
        ScaledSrxTransformer {
            config: *config,
            embed: ScaledLinear::new(v, dm, zero),
            norm_attn: ScaledRMSNorm::new(dm, eps, zero, one),
            attn: ScaledSrxAttention::new(config.n_heads, zero),
            norm_ffn: ScaledRMSNorm::new(dm, eps, zero, one),
            ffn: ScaledFFN::new(dm, config.d_ff, zero),
            norm_final: ScaledRMSNorm::new(dm, eps, zero, one),
            lm_head: ScaledLinear::new(dm, v, zero),
        }
    }

    /// The number of parameters: the same for both kinds of model.
    pub fn param_count(&self) -> (count: usize)
        requires
            self.sized(),
            sizes::countable(self.config),
        ensures
            count == sizes::model_total(self.config),
    {
        proof {
            sizes::lemma_sizes_fit(self.config);
            sizes::lemma_total(self.config);
        }
        self.embed.param_count() + self.norm_attn.param_count() + self.attn.param_count()
            + self.norm_ffn.param_count() + self.ffn.param_count()
            + self.norm_final.param_count() + self.lm_head.param_count()
    }

    /// The lengths of the eleven parameter groups, in the order of the optimiser.
    pub fn layer_lengths(&self) -> (lens: Vec<usize>)
        requires
            self.sized(),
        ensures
            lens@ == sizes::layer_lengths_of(self.config),
    {
        let mut lens: Vec<usize> = Vec::new();
        lens.push(self.embed.weight.len());
        lens.push(self.norm_attn.weight.len());
        lens.push(self.attn.w_q.weight.len());
        lens.push(self.attn.w_k.weight.len());
        lens.push(self.attn.w_v.weight.len());
        lens.push(self.attn.w_o.weight.len());
        lens.push(self.norm_ffn.weight.len());
        lens.push(self.ffn.w1.weight.len());
        lens.push(self.ffn.w2.weight.len());
        lens.push(self.norm_final.weight.len());
        lens.push(self.lm_head.weight.len());
        proof {
            sizes::lemma_products(self.config);
        }
        assert(lens@ =~= sizes::layer_lengths_of(self.config));
        lens
    }
}

/// Scratch buffers of training on a whole sequence.
#[derive(Debug, Clone)]
pub struct ScaledSequenceWorkspace<T> {
    pub max_len: usize,
    pub d_model: usize,
    pub n_heads: usize,
    pub d_ff: usize,
    pub emb: Vec<T>,
    pub norm_buf_1: Vec<T>,
    pub q: Vec<T>,
    pub k: Vec<T>,
    pub v: Vec<T>,
    pub n_q: Vec<T>,
    pub n_k: Vec<T>,
    pub q_norm: Vec<T>,
    pub k_norm: Vec<T>,
    pub thetas: Vec<T>,
    pub k_rot: Vec<T>,
    pub prev_m: Vec<T>,
    pub m: Vec<T>,
    pub e: Vec<T>,
    pub q_inv: Vec<T>,
    pub q_rot: Vec<T>,
    pub w_music: Vec<T>,
    pub y_ret: Vec<T>,
    pub head_outputs: Vec<T>,
    pub attn_out: Vec<T>,
    pub res1: Vec<T>,
    pub norm_buf_2: Vec<T>,
    pub hidden_act: Vec<T>,
    pub ffn_out: Vec<T>,
    pub res2: Vec<T>,
    pub norm_buf_3: Vec<T>,
    pub logits: Vec<T>,
    pub probs: Vec<T>,
    pub d_m_acc: Vec<T>,
    pub d_thetas_acc: Vec<T>,
}

/// The scratch buffers of a configuration can be indexed by machine integers.
pub open spec fn sequence_workable(config: ScaledConfig, max_len: usize) -> bool {
    &&& max_len * config.d_model <= usize::MAX
    &&& max_len * config.d_ff <= usize::MAX
    &&& max_len * config.n_heads <= usize::MAX
    &&& max_len * config.n_heads * 16 <= usize::MAX
    &&& max_len * 256 <= usize::MAX
    &&& config.n_heads * 16 <= usize::MAX
}

impl<T: Copy> ScaledSequenceWorkspace<T> {
    /// Every buffer has the size that the configuration gives, and holds one element.
    pub open spec fn blank_for(self, config: ScaledConfig, max_len: usize, zero: T) -> bool {
        &&& self.max_len == max_len
        &&& self.n_heads == config.n_heads
        &&& self.d_model == config.d_model
        &&& self.d_ff == config.d_ff
        &&& cache::blank(self.emb, max_len * config.d_model, zero)
        &&& cache::blank(self.norm_buf_1, max_len * config.d_model, zero)
        &&& cache::blank(self.q, max_len * config.d_model, zero)
        &&& cache::blank(self.k, max_len * config.d_model, zero)
        &&& cache::blank(self.v, max_len * config.d_model, zero)
        &&& cache::blank(self.n_q, max_len * config.n_heads, zero)
        &&& cache::blank(self.n_k, max_len * config.n_heads, zero)
        &&& cache::blank(self.q_norm, max_len * config.d_model, zero)
        &&& cache::blank(self.k_norm, max_len * config.d_model, zero)
        &&& cache::blank(self.thetas, max_len * config.d_model, zero)
        &&& cache::blank(self.k_rot, max_len * config.d_model, zero)
        &&& cache::blank(self.prev_m, max_len * config.n_heads * 16, zero)
        &&& cache::blank(self.m, max_len * config.n_heads * 16, zero)
        &&& cache::blank(self.e, max_len * config.d_model, zero)
        &&& cache::blank(self.q_inv, max_len * config.d_model, zero)
        &&& cache::blank(self.q_rot, max_len * config.d_model, zero)
        &&& cache::blank(self.w_music, max_len * config.n_heads, zero)
        &&& cache::blank(self.y_ret, max_len * config.d_model, zero)
        &&& cache::blank(self.head_outputs, max_len * config.d_model, zero)
        &&& cache::blank(self.attn_out, max_len * config.d_model, zero)
        &&& cache::blank(self.res1, max_len * config.d_model, zero)
        &&& cache::blank(self.norm_buf_2, max_len * config.d_model, zero)
        &&& cache::blank(self.hidden_act, max_len * config.d_ff, zero)
        &&& cache::blank(self.ffn_out, max_len * config.d_model, zero)
        &&& cache::blank(self.res2, max_len * config.d_model, zero)
        &&& cache::blank(self.norm_buf_3, max_len * config.d_model, zero)
        &&& cache::blank(self.logits, max_len * 256, zero)
        &&& cache::blank(self.probs, max_len * 256, zero)
        &&& cache::blank(self.d_m_acc, config.n_heads * 16, zero)
        &&& cache::blank(self.d_thetas_acc, config.n_heads * 4, zero)
    }

    /// Allocates the scratch buffers of a configuration for sequences of up to `max_len` steps.
    pub fn new(config: &ScaledConfig, max_len: usize, zero: T) -> (workspace: Self)
        requires
            sequence_workable(*config, max_len),
        ensures
            workspace.blank_for(*config, max_len, zero),
    {
        let rows: usize = max_len * config.d_model;
        let hidden: usize = max_len * config.d_ff;
        let heads: usize = max_len * config.n_heads;
        ScaledSequenceWorkspace {
            max_len,
            d_model: config.d_model,
            n_heads: config.n_heads,
            d_ff: config.d_ff,
            emb: blank_buffer(zero, rows),
            norm_buf_1: blank_buffer(zero, rows),
            q: blank_buffer(zero, rows),
            k: blank_buffer(zero, rows),
            v: blank_buffer(zero, rows),
            n_q: blank_buffer(zero, heads),
            n_k: blank_buffer(zero, heads),
            q_norm: blank_buffer(zero, rows),
            k_norm: blank_buffer(zero, rows),
            thetas: blank_buffer(zero, rows),
            k_rot: blank_buffer(zero, rows),
            prev_m: blank_buffer(zero, heads * 16),
            m: blank_buffer(zero, heads * 16),
            e: blank_buffer(zero, rows),
            q_inv: blank_buffer(zero, rows),
            q_rot: blank_buffer(zero, rows),
            w_music: blank_buffer(zero, heads),
            y_ret: blank_buffer(zero, rows),
            head_outputs: blank_buffer(zero, rows),
            attn_out: blank_buffer(zero, rows),
            res1: blank_buffer(zero, rows),
            norm_buf_2: blank_buffer(zero, rows),
            hidden_act: blank_buffer(zero, hidden),
            ffn_out: blank_buffer(zero, rows),
            res2: blank_buffer(zero, rows),
            norm_buf_3: blank_buffer(zero, rows),
            logits: blank_buffer(zero, max_len * 256),
            probs: blank_buffer(zero, max_len * 256),
            d_m_acc: blank_buffer(zero, config.n_heads * 16),
            d_thetas_acc: blank_buffer(zero, config.n_heads * 4),
        }
    }
}

} // verus!
