//! A transformer's weights: their shapes, their flat order, and moving them in and out.

use vstd::prelude::*;
use vstd::string::*;

use crate::classic::attention::MultiHeadAttention;
use crate::classic::cache::blank_buffer;
use crate::classic::cache;
use crate::classic::config::{NormType, PosEncodingType, TransformerConfig};
use crate::classic::mlp::FeedForward;
use crate::classic::model_laws;
use crate::text;

verus! {

/// Weights of one decoder layer.
#[derive(Debug, Clone)]
pub struct TransformerLayer<T> {
    pub attn_norm_gamma: Vec<T>,
    pub attn_norm_beta: Option<Vec<T>>,
    pub attn: MultiHeadAttention<T>,
    pub ffn_norm_gamma: Vec<T>,
    pub ffn_norm_beta: Option<Vec<T>>,
    pub mlp: FeedForward<T>,
    pub norm_type: NormType,
    pub eps_bits: u32,
    pub d_model: usize,
}

/// The classical transformer: a configuration and its weights.
#[derive(Debug, Clone)]
pub struct Transformer<T> {
    pub config: TransformerConfig,
    /// Token embeddings, one vector of the model dimension for each token.
    pub token_embeddings: Vec<T>,
    /// Learned positional embeddings.
    pub pos_embeddings: Option<Vec<T>>,
    /// Precomputed sinusoids; not trainable.
    pub sinusoidal_table: Option<Vec<T>>,
    pub layers: Vec<TransformerLayer<T>>,
    pub final_norm_gamma: Vec<T>,
    pub final_norm_beta: Option<Vec<T>>,
    /// Output head, where it is not the token embeddings.
    pub lm_head: Option<Vec<T>>,
    pub lm_head_bias: Option<Vec<T>>,
}

/// The elements of a buffer that may be missing.
pub open spec fn opt_view<T>(buffer: Option<Vec<T>>) -> Seq<T> {
    match buffer {
        Some(b) => b@,
        None => Seq::empty(),
    }
}

/// Both buffers are missing, or both are there with one length.
pub open spec fn same_opt_len<T>(a: Option<Vec<T>>, b: Option<Vec<T>>) -> bool {
    &&& a is Some <==> b is Some
    &&& opt_view(a).len() == opt_view(b).len()
}

/// A buffer that is there exactly where it should be, with the given length.
pub open spec fn opt_shaped<T>(buffer: Option<Vec<T>>, present: bool, len: int) -> bool {
    match buffer {
        Some(b) => present && b@.len() == len,
        None => !present,
    }
}

/// Whether the normalisations of a configuration have biases.
pub open spec fn biased_norms(config: TransformerConfig) -> bool {
    config.norm_type == NormType::LayerNorm && config.use_bias
}

impl<T> TransformerLayer<T> {
    /// All weights of a layer in their flat order.
    pub open spec fn flat(self) -> Seq<T> {
        self.attn_norm_gamma@ + opt_view(self.attn_norm_beta) + self.attn.w_q@ + self.attn.w_k@ + self.attn.w_v@ + self.attn.w_o@ + opt_view(self.attn.b_q) + opt_view(self.attn.b_k) + opt_view(self.attn.b_v) + opt_view(self.attn.b_o) + self.ffn_norm_gamma@ + opt_view(self.ffn_norm_beta) + self.mlp.w_1@ + opt_view(self.mlp.b_1) + self.mlp.w_2@ + opt_view(self.mlp.b_2)
    }

    /// Every buffer has the length of its counterpart.
    pub open spec fn same_shape(self, other: Self) -> bool {
        &&& self.attn_norm_gamma@.len() == other.attn_norm_gamma@.len()
        &&& same_opt_len(self.attn_norm_beta, other.attn_norm_beta)
        &&& self.attn.w_q@.len() == other.attn.w_q@.len()
        &&& self.attn.w_k@.len() == other.attn.w_k@.len()
        &&& self.attn.w_v@.len() == other.attn.w_v@.len()
        &&& self.attn.w_o@.len() == other.attn.w_o@.len()
        &&& same_opt_len(self.attn.b_q, other.attn.b_q)
        &&& same_opt_len(self.attn.b_k, other.attn.b_k)
        &&& same_opt_len(self.attn.b_v, other.attn.b_v)
        &&& same_opt_len(self.attn.b_o, other.attn.b_o)
        &&& self.ffn_norm_gamma@.len() == other.ffn_norm_gamma@.len()
        &&& same_opt_len(self.ffn_norm_beta, other.ffn_norm_beta)
        &&& self.mlp.w_1@.len() == other.mlp.w_1@.len()
        &&& same_opt_len(self.mlp.b_1, other.mlp.b_1)
        &&& self.mlp.w_2@.len() == other.mlp.w_2@.len()
        &&& same_opt_len(self.mlp.b_2, other.mlp.b_2)
    }

    /// Every buffer holds what its counterpart holds.
    pub open spec fn same_weights(self, other: Self) -> bool {
        &&& self.attn_norm_gamma@ == other.attn_norm_gamma@
        &&& opt_view(self.attn_norm_beta) == opt_view(other.attn_norm_beta)
        &&& self.attn.w_q@ == other.attn.w_q@
        &&& self.attn.w_k@ == other.attn.w_k@
        &&& self.attn.w_v@ == other.attn.w_v@
        &&& self.attn.w_o@ == other.attn.w_o@
        &&& opt_view(self.attn.b_q) == opt_view(other.attn.b_q)
        &&& opt_view(self.attn.b_k) == opt_view(other.attn.b_k)
        &&& opt_view(self.attn.b_v) == opt_view(other.attn.b_v)
        &&& opt_view(self.attn.b_o) == opt_view(other.attn.b_o)
        &&& self.ffn_norm_gamma@ == other.ffn_norm_gamma@
        &&& opt_view(self.ffn_norm_beta) == opt_view(other.ffn_norm_beta)
        &&& self.mlp.w_1@ == other.mlp.w_1@
        &&& opt_view(self.mlp.b_1) == opt_view(other.mlp.b_1)
        &&& self.mlp.w_2@ == other.mlp.w_2@
        &&& opt_view(self.mlp.b_2) == opt_view(other.mlp.b_2)
    }

    /// Everything but the weights is that of the other layer.
    pub open spec fn same_frame(self, other: Self) -> bool {
        &&& self.norm_type == other.norm_type
        &&& self.eps_bits == other.eps_bits
        &&& self.d_model == other.d_model
        &&& self.attn.d_model == other.attn.d_model
        &&& self.attn.n_heads == other.attn.n_heads
        &&& self.attn.head_dim == other.attn.head_dim
        &&& self.attn.scale == other.attn.scale
        &&& self.mlp.activation == other.mlp.activation
        &&& self.mlp.d_model == other.mlp.d_model
        &&& self.mlp.d_ff == other.mlp.d_ff
    }

    /// Every buffer has the length that the configuration gives.
    pub open spec fn shaped(self, config: TransformerConfig) -> bool {
        let d = config.d_model as int;
        &&& self.attn_norm_gamma@.len() == d
        &&& opt_shaped(self.attn_norm_beta, biased_norms(config), d)
        &&& self.attn.w_q@.len() == d * d
        &&& self.attn.w_k@.len() == d * d
        &&& self.attn.w_v@.len() == d * d
        &&& self.attn.w_o@.len() == d * d
        &&& opt_shaped(self.attn.b_q, config.use_bias, d)
        &&& opt_shaped(self.attn.b_k, config.use_bias, d)
        &&& opt_shaped(self.attn.b_v, config.use_bias, d)
        &&& opt_shaped(self.attn.b_o, config.use_bias, d)
        &&& self.ffn_norm_gamma@.len() == d
        &&& opt_shaped(self.ffn_norm_beta, biased_norms(config), d)
        &&& self.mlp.w_1@.len() == config.d_ff * d
        &&& opt_shaped(self.mlp.b_1, config.use_bias, config.d_ff as int)
        &&& self.mlp.w_2@.len() == d * config.d_ff
        &&& opt_shaped(self.mlp.b_2, config.use_bias, d)
    }
}

/// The weights of layers in their flat order.
pub open spec fn layers_flat<T>(layers: Seq<TransformerLayer<T>>) -> Seq<T>
    decreases layers.len(),
{
    if layers.len() == 0 {
        Seq::empty()
    } else {
        layers_flat(layers.drop_last()) + layers.last().flat()
    }
}

impl<T> Transformer<T> {
    /// All trainable parameters in their flat order.
    pub open spec fn flat(self) -> Seq<T> {
        self.token_embeddings@ + opt_view(self.pos_embeddings) + layers_flat(self.layers@)
            + self.final_norm_gamma@ + opt_view(self.final_norm_beta) + opt_view(self.lm_head)
            + opt_view(self.lm_head_bias)
    }

    /// Every buffer has the length that the configuration gives.
    pub open spec fn shaped(self) -> bool {
        let c = self.config;
        &&& self.token_embeddings@.len() == c.vocab_size * c.d_model
        &&& opt_shaped(
            self.pos_embeddings,
            c.pos_encoding == PosEncodingType::Learned,
            c.max_seq_len * c.d_model,
        )
        &&& self.layers@.len() == c.n_layers
        &&& forall|i: int| 0 <= i < self.layers@.len() ==> (#[trigger] self.layers@[i]).shaped(c)
        &&& self.final_norm_gamma@.len() == c.d_model
        &&& opt_shaped(self.final_norm_beta, biased_norms(c), c.d_model as int)
        &&& opt_shaped(self.lm_head, !c.tie_word_embeddings, c.vocab_size * c.d_model)
        &&& opt_shaped(
            self.lm_head_bias,
            c.use_bias && !c.tie_word_embeddings,
            c.vocab_size as int,
        )
    }

    /// The buffers together have as many elements as the configuration counts parameters.
    pub open spec fn consistent(self) -> bool {
        self.config.countable() && self.flat().len() == self.config.param_total()
    }

    /// Every buffer has the length of its counterpart.
    pub open spec fn same_shape(self, other: Self) -> bool {
        &&& self.token_embeddings@.len() == other.token_embeddings@.len()
        &&& same_opt_len(self.pos_embeddings, other.pos_embeddings)
        &&& self.layers@.len() == other.layers@.len()
        &&& forall|i: int|
            0 <= i < self.layers@.len() ==> (#[trigger] self.layers@[i]).same_shape(other.layers@[i])
        &&& self.final_norm_gamma@.len() == other.final_norm_gamma@.len()
        &&& same_opt_len(self.final_norm_beta, other.final_norm_beta)
        &&& same_opt_len(self.lm_head, other.lm_head)
        &&& same_opt_len(self.lm_head_bias, other.lm_head_bias)
    }

    /// Every trainable buffer holds what its counterpart holds.
    pub open spec fn same_weights(self, other: Self) -> bool {
        &&& self.token_embeddings@ == other.token_embeddings@
        &&& opt_view(self.pos_embeddings) == opt_view(other.pos_embeddings)
        &&& self.layers@.len() == other.layers@.len()
        &&& forall|i: int|
            0 <= i < self.layers@.len() ==> (#[trigger] self.layers@[i]).same_weights(
                other.layers@[i],
            )
        &&& self.final_norm_gamma@ == other.final_norm_gamma@
        &&& opt_view(self.final_norm_beta) == opt_view(other.final_norm_beta)
        &&& opt_view(self.lm_head) == opt_view(other.lm_head)
        &&& opt_view(self.lm_head_bias) == opt_view(other.lm_head_bias)
    }

    /// Everything but the trainable weights is that of the other model.
    pub open spec fn same_frame(self, other: Self) -> bool {
        &&& self.config == other.config
        &&& self.sinusoidal_table == other.sinusoidal_table
        &&& self.layers@.len() == other.layers@.len()
        &&& forall|i: int|
            0 <= i < self.layers@.len() ==> (#[trigger] self.layers@[i]).same_frame(other.layers@[i])
    }
}

/// What is reported when the number of weights is not that of the parameters.
pub open spec fn size_mismatch(expected: nat, got: nat) -> Seq<char> {
    "Weight size mismatch: expected "@ + text::decimal(expected) + " parameters, got "@
        + text::decimal(got)
}

fn append<T: Copy>(out: &mut Vec<T>, part: &Vec<T>)
    ensures
        final(out)@ == old(out)@ + part@,
{
    let ghost before = out@;
    for i in 0..part.len()
        invariant
            out@ == before + part@.take(i as int),
    {
        out.push(part[i]);
        assert(out@ =~= before + part@.take(i + 1));
    }
    assert(part@.take(part@.len() as int) =~= part@);
}

fn append_opt<T: Copy>(out: &mut Vec<T>, part: &Option<Vec<T>>)
    ensures
        final(out)@ == old(out)@ + opt_view(*part),
{
    match part {
        Some(b) => append(out, b),
        None => {
            assert(out@ =~= old(out)@ + opt_view(*part));
        },
    }
}

/// A place in a flat list of weights, from which buffers are read one after the other.
struct Cursor<'a, T> {
    flat: &'a [T],
    at: usize,
}

impl<'a, T: Copy> Cursor<'a, T> {
    /// What has been read since a place.
    spec fn since(self, start: int) -> Seq<T> {
        self.flat@.subrange(start, self.at as int)
    }

    /// Reads a buffer as long as another one.
    fn read_like(&mut self, like: &Vec<T>) -> (buffer: Vec<T>)
        requires
            old(self).at + like@.len() <= old(self).flat@.len(),
        ensures
            final(self).flat == old(self).flat,
            final(self).at == old(self).at + like@.len(),
            buffer@.len() == like@.len(),
            forall|start: int|
                0 <= start <= old(self).at ==> #[trigger] final(self).since(start) == old(self).since(
                    start,
                ) + buffer@,
    {
        let ghost begin = self.at as int;
        let total: usize = self.flat.len();
        let end: usize = self.at + like.len();
        let mut buffer: Vec<T> = Vec::new();
        let ghost before = *self;
        while self.at < end
            invariant
                self.flat == before.flat,
                begin == before.at,
                begin <= self.at <= end <= self.flat@.len(),
                buffer@ == self.flat@.subrange(begin, self.at as int),
            decreases end - self.at,
        {
            buffer.push(self.flat[self.at]);
            self.at = self.at + 1;
            assert(buffer@ =~= self.flat@.subrange(begin, self.at as int));
        }
        assert forall|start: int| 0 <= start <= begin implies #[trigger] self.since(start)
            == before.since(start) + buffer@ by {
            assert(self.since(start) =~= before.since(start) + buffer@);
        }
        buffer
    }

    /// Reads a buffer where the other one is there.
    fn read_like_opt(&mut self, like: &Option<Vec<T>>) -> (buffer: Option<Vec<T>>)
        requires
            old(self).at + opt_view(*like).len() <= old(self).flat@.len(),
        ensures
            final(self).flat == old(self).flat,
            final(self).at == old(self).at + opt_view(*like).len(),
            same_opt_len(buffer, *like),
            forall|start: int|
                0 <= start <= old(self).at ==> #[trigger] final(self).since(start) == old(self).since(
                    start,
                ) + opt_view(buffer),
    {
        match like {
            Some(b) => Some(self.read_like(b)),
            None => {
                assert forall|start: int| 0 <= start <= self.at implies #[trigger] self.since(start)
                    == old(self).since(start) + opt_view(None::<Vec<T>>) by {
                    assert(self.since(start) =~= old(self).since(start) + Seq::<T>::empty());
                }
                None
            },
        }
    }

    /// Reads a layer shaped like another one.
    #[verifier::spinoff_prover]
    #[verifier::rlimit(60)]
    fn read_layer(&mut self, like: &TransformerLayer<T>) -> (layer: TransformerLayer<T>)
        requires
            old(self).at + like.flat().len() <= old(self).flat@.len(),
        ensures
            final(self).flat == old(self).flat,
            final(self).at == old(self).at + like.flat().len(),
            layer.same_shape(*like),
            layer.same_frame(*like),
            layer.flat() == final(self).since(old(self).at as int),
    {
        let ghost start = self.at as int;
        assert(self.since(start) =~= Seq::<T>::empty());
        let attn_norm_gamma: Vec<T> = self.read_like(&like.attn_norm_gamma);
        let attn_norm_beta: Option<Vec<T>> = self.read_like_opt(&like.attn_norm_beta);
        let attn_w_q: Vec<T> = self.read_like(&like.attn.w_q);
        let attn_w_k: Vec<T> = self.read_like(&like.attn.w_k);
        let attn_w_v: Vec<T> = self.read_like(&like.attn.w_v);
        let attn_w_o: Vec<T> = self.read_like(&like.attn.w_o);
        let attn_b_q: Option<Vec<T>> = self.read_like_opt(&like.attn.b_q);
        let attn_b_k: Option<Vec<T>> = self.read_like_opt(&like.attn.b_k);
        let attn_b_v: Option<Vec<T>> = self.read_like_opt(&like.attn.b_v);
        let attn_b_o: Option<Vec<T>> = self.read_like_opt(&like.attn.b_o);
        let ffn_norm_gamma: Vec<T> = self.read_like(&like.ffn_norm_gamma);
        let ffn_norm_beta: Option<Vec<T>> = self.read_like_opt(&like.ffn_norm_beta);
        let mlp_w_1: Vec<T> = self.read_like(&like.mlp.w_1);
        let mlp_b_1: Option<Vec<T>> = self.read_like_opt(&like.mlp.b_1);
        let mlp_w_2: Vec<T> = self.read_like(&like.mlp.w_2);
        let mlp_b_2: Option<Vec<T>> = self.read_like_opt(&like.mlp.b_2);
        let layer: TransformerLayer<T> = TransformerLayer {
            attn_norm_gamma,
            attn_norm_beta,
            attn: MultiHeadAttention {
                w_q: attn_w_q,
                b_q: attn_b_q,
                w_k: attn_w_k,
                b_k: attn_b_k,
                w_v: attn_w_v,
                b_v: attn_b_v,
                w_o: attn_w_o,
                b_o: attn_b_o,
                d_model: like.attn.d_model,
                n_heads: like.attn.n_heads,
                head_dim: like.attn.head_dim,
                scale: like.attn.scale,
            },
            ffn_norm_gamma,
            ffn_norm_beta,
            mlp: FeedForward {
                w_1: mlp_w_1,
                b_1: mlp_b_1,
                w_2: mlp_w_2,
                b_2: mlp_b_2,
                activation: like.mlp.activation,
                d_model: like.mlp.d_model,
                d_ff: like.mlp.d_ff,
            },
            norm_type: like.norm_type,
            eps_bits: like.eps_bits,
            d_model: like.d_model,
        };
        assert(Seq::<T>::empty() + layer.attn_norm_gamma@ =~= layer.attn_norm_gamma@);
        layer
    }
}

impl<T: Copy> TransformerLayer<T> {
    /// Appends the weights of the layer in their flat order.
    fn append_to(&self, out: &mut Vec<T>)
        ensures
            final(out)@ == old(out)@ + self.flat(),
    {
        let ghost before = out@;
        append(out, &self.attn_norm_gamma);
        append_opt(out, &self.attn_norm_beta);
        append(out, &self.attn.w_q);
        append(out, &self.attn.w_k);
        append(out, &self.attn.w_v);
        append(out, &self.attn.w_o);
        append_opt(out, &self.attn.b_q);
        append_opt(out, &self.attn.b_k);
        append_opt(out, &self.attn.b_v);
        append_opt(out, &self.attn.b_o);
        append(out, &self.ffn_norm_gamma);
        append_opt(out, &self.ffn_norm_beta);
        append(out, &self.mlp.w_1);
        append_opt(out, &self.mlp.b_1);
        append(out, &self.mlp.w_2);
        append_opt(out, &self.mlp.b_2);
        assert(out@ =~= before + self.flat());
    }
}

/// A buffer of `n` copies of an element where it should be there.
pub open spec fn opt_blank<T>(buffer: Option<Vec<T>>, present: bool, n: int, element: T) -> bool {
    match buffer {
        Some(b) => present && cache::blank(b, n, element),
        None => !present,
    }
}

/// A buffer of `n` copies of an element where it should be there.
pub fn opt_buffer<T: Copy>(element: T, present: bool, n: usize) -> (buffer: Option<Vec<T>>)
    ensures
        opt_blank(buffer, present, n as int, element),
{
    if present {
        Some(blank_buffer(element, n))
    } else {
        None
    }
}

impl<T> TransformerLayer<T> {
    /// All that is not trained is as the configuration says; `scale` is the factor of the scores.
    pub open spec fn framed_for(self, config: TransformerConfig, scale: T) -> bool {
        &&& self.attn.d_model == config.d_model
        &&& self.attn.n_heads == config.n_heads
        &&& self.attn.head_dim == config.d_model / config.n_heads
        &&& self.attn.scale == scale
        &&& self.mlp.activation == config.activation
        &&& self.mlp.d_model == config.d_model
        &&& self.mlp.d_ff == config.d_ff
        &&& self.norm_type == config.norm_type
        &&& self.eps_bits == config.eps_bits
        &&& self.d_model == config.d_model
    }

    /// Every projection and bias is `zero`, every scale of a norm is `one`.
    pub open spec fn blank_for(self, config: TransformerConfig, zero: T, one: T, scale: T) -> bool {
        let d = config.d_model as int;
        &&& cache::blank(self.attn_norm_gamma, d, one)
        &&& opt_blank(self.attn_norm_beta, biased_norms(config), d, zero)
        &&& cache::blank(self.attn.w_q, d * d, zero)
        &&& cache::blank(self.attn.w_k, d * d, zero)
        &&& cache::blank(self.attn.w_v, d * d, zero)
        &&& cache::blank(self.attn.w_o, d * d, zero)
        &&& opt_blank(self.attn.b_q, config.use_bias, d, zero)
        &&& opt_blank(self.attn.b_k, config.use_bias, d, zero)
        &&& opt_blank(self.attn.b_v, config.use_bias, d, zero)
        &&& opt_blank(self.attn.b_o, config.use_bias, d, zero)
        &&& cache::blank(self.ffn_norm_gamma, d, one)
        &&& opt_blank(self.ffn_norm_beta, biased_norms(config), d, zero)
        &&& cache::blank(self.mlp.w_1, config.d_ff * d, zero)
        &&& opt_blank(self.mlp.b_1, config.use_bias, config.d_ff as int, zero)
        &&& cache::blank(self.mlp.w_2, d * config.d_ff, zero)
        &&& opt_blank(self.mlp.b_2, config.use_bias, d, zero)
        &&& self.framed_for(config, scale)
    }
}

impl<T> Transformer<T> {
    /// All that is not trained is as the configuration says: the layers, with `scale` as the factor
    /// of their scores, and the positional table where positions are sinusoidal.
    pub open spec fn framed_for(
        self,
        config: TransformerConfig,
        scale: T,
        sinusoids: Vec<T>,
    ) -> bool {
        &&& self.config == config
        &&& self.layers@.len() == config.n_layers
        &&& forall|i: int|
            0 <= i < self.layers@.len() ==> (#[trigger] self.layers@[i]).framed_for(config, scale)
        &&& self.sinusoidal_table == (if config.pos_encoding == PosEncodingType::Sinusoidal {
            Some(sinusoids)
        } else {
            None
        })
    }

    /// Every embedding, projection and bias is `zero`, every scale of a norm is `one`.
    pub open spec fn blank_for(self, config: TransformerConfig, zero: T, one: T, scale: T) -> bool {
        let d = config.d_model as int;
        &&& self.config == config
        &&& cache::blank(self.token_embeddings, config.vocab_size * d, zero)
        &&& opt_blank(
            self.pos_embeddings,
            config.pos_encoding == PosEncodingType::Learned,
            config.max_seq_len * d,
            zero,
        )
        &&& self.layers@.len() == config.n_layers
        &&& forall|i: int|
            0 <= i < self.layers@.len() ==> (#[trigger] self.layers@[i]).blank_for(
                config,
                zero,
                one,
                scale,
            )
        &&& cache::blank(self.final_norm_gamma, d, one)
        &&& opt_blank(self.final_norm_beta, biased_norms(config), d, zero)
        &&& opt_blank(self.lm_head, !config.tie_word_embeddings, config.vocab_size * d, zero)
        &&& opt_blank(
            self.lm_head_bias,
            config.use_bias && !config.tie_word_embeddings,
            config.vocab_size as int,
            zero,
        )
    }
}

impl<T: Copy> TransformerLayer<T> {
    /// A layer with zero projections and unit norms; `scale` is the factor of its scores.
    pub fn new(config: &TransformerConfig, zero: T, one: T, scale: T) -> (layer: Self)
        requires
            config.layer_total() <= usize::MAX,
            config.n_heads > 0,
        ensures
            layer.blank_for(*config, zero, one, scale),
    {
        let d: usize = config.d_model;
        assert(0 <= d * d) by (nonlinear_arith);
        assert(0 <= config.d_ff * d && config.d_ff * d == d * config.d_ff) by (nonlinear_arith);
        let square: usize = d * d;
        let up: usize = config.d_ff * d;
        let norms: bool = config.norm_type == NormType::LayerNorm && config.use_bias;
        TransformerLayer {
            attn_norm_gamma: blank_buffer(one, d),
            attn_norm_beta: opt_buffer(zero, norms, d),
            attn: MultiHeadAttention {
                w_q: blank_buffer(zero, square),
                b_q: opt_buffer(zero, config.use_bias, d),
                w_k: blank_buffer(zero, square),
                b_k: opt_buffer(zero, config.use_bias, d),
                w_v: blank_buffer(zero, square),
                b_v: opt_buffer(zero, config.use_bias, d),
                w_o: blank_buffer(zero, square),
                b_o: opt_buffer(zero, config.use_bias, d),
                d_model: d,
                n_heads: config.n_heads,
                head_dim: config.head_dim(),
                scale,
            },
            ffn_norm_gamma: blank_buffer(one, d),
            ffn_norm_beta: opt_buffer(zero, norms, d),
            mlp: FeedForward {
                w_1: blank_buffer(zero, up),
                b_1: opt_buffer(zero, config.use_bias, config.d_ff),
                w_2: blank_buffer(zero, up),
                b_2: opt_buffer(zero, config.use_bias, d),
                activation: config.activation,
                d_model: d,
                d_ff: config.d_ff,
            },
            norm_type: config.norm_type,
            eps_bits: config.eps_bits,
            d_model: d,
        }
    }
}

impl<T: Copy> Transformer<T> {
    /// A model with zero projections and unit norms, ready to be initialised. `sinusoids` is its
    /// positional table where the configuration has sinusoidal positions. The error names the
    /// first fault of the configuration.
    pub fn blank(
        config: TransformerConfig,
        zero: T,
        one: T,
        scale: T,
        sinusoids: Vec<T>,
    ) -> (made: Result<Self, String>)
        requires
            config.countable(),
        ensures
            match (made, config.fault()) {
                (Ok(model), None) => {
                    &&& model.blank_for(config, zero, one, scale)
                    &&& model.shaped()
                    &&& model.consistent()
                    &&& model.sinusoidal_table == (if config.pos_encoding
                        == PosEncodingType::Sinusoidal {
                        Some(sinusoids)
                    } else {
                        None
                    })
                },
                (Err(message), Some(fault)) => message@ == config.fault_message(fault),
                _ => false,
            },
    {
        match config.validate() {
            Err(message) => {
                return Err(message);
            },
            Ok(()) => {},
        }
        let d: usize = config.d_model;
        assert(0 <= config.n_layers * config.layer_total()) by (nonlinear_arith);
        assert(0 <= config.vocab_size * d && 0 <= config.max_seq_len * d) by (nonlinear_arith);
        let learned: bool = config.pos_encoding == PosEncodingType::Learned;
        let norms: bool = config.norm_type == NormType::LayerNorm && config.use_bias;
        let untied: bool = !config.tie_word_embeddings;
        let embedding: usize = config.vocab_size * d;
        let positions: usize = if learned {
            config.max_seq_len * d
        } else {
            0
        };
        let mut layers: Vec<TransformerLayer<T>> = Vec::new();
        for i in 0..config.n_layers
            invariant
                config.layer_total() <= usize::MAX,
                config.n_heads > 0,
                layers@.len() == i,
                forall|j: int|
                    0 <= j < i ==> (#[trigger] layers@[j]).blank_for(config, zero, one, scale),
        {
            layers.push(TransformerLayer::new(&config, zero, one, scale));
        }
        let model: Self = Transformer {
            token_embeddings: blank_buffer(zero, embedding),
            pos_embeddings: opt_buffer(zero, learned, positions),
            sinusoidal_table: if learned {
                None
            } else {
                Some(sinusoids)
            },
            layers,
            final_norm_gamma: blank_buffer(one, d),
            final_norm_beta: opt_buffer(zero, norms, d),
            lm_head: opt_buffer(zero, untied, embedding),
            lm_head_bias: opt_buffer(zero, config.use_bias && untied, config.vocab_size),
            config,
        };
        proof {
            assert forall|i: int| 0 <= i < model.layers@.len() implies (
            #[trigger] model.layers@[i]).shaped(config) by {
                assert(model.layers@[i].blank_for(config, zero, one, scale));
            }
            model_laws::law_shaped_model_is_counted(model);
        }
        Ok(model)
    }

    /// The configuration of the model.
    pub fn config(&self) -> (config: &TransformerConfig)
        ensures
            *config == self.config,
    {
        &self.config
    }

    /// Counts the trainable parameters.
    pub fn param_count(&self) -> (count: usize)
        requires
            self.config.countable(),
        ensures
            count == self.config.param_total(),
    {
        self.config.param_count()
    }

    /// Lists all trainable parameters in their flat order.
    pub fn extract_weights(&self) -> (weights: Vec<T>)
        requires
            self.consistent(),
        ensures
            weights@ == self.flat(),
            weights@.len() == self.config.param_total(),
    {
        let mut weights: Vec<T> = Vec::new();
        append(&mut weights, &self.token_embeddings);
        append_opt(&mut weights, &self.pos_embeddings);
        let ghost head = weights@;
        for i in 0..self.layers.len()
            invariant
                weights@ == head + layers_flat(self.layers@.take(i as int)),
        {
            self.layers[i].append_to(&mut weights);
            assert(self.layers@.take(i + 1).drop_last() =~= self.layers@.take(i as int));
            assert(weights@ =~= head + layers_flat(self.layers@.take(i + 1)));
        }
        assert(self.layers@.take(self.layers@.len() as int) =~= self.layers@);
        append(&mut weights, &self.final_norm_gamma);
        append_opt(&mut weights, &self.final_norm_beta);
        append_opt(&mut weights, &self.lm_head);
        append_opt(&mut weights, &self.lm_head_bias);
        assert(weights@ =~= self.flat());
        weights
    }

    /// Loads all trainable parameters from their flat order. The error reports the two numbers
    /// where there are not as many weights as parameters; the model then stays as it is.
    #[verifier::spinoff_prover]
    #[verifier::rlimit(60)]
    pub fn load_weights_flat(&mut self, flat: &[T]) -> (loaded: Result<(), String>)
        requires
            old(self).consistent(),
        ensures
            match loaded {
                Ok(()) => {
                    &&& flat@.len() == old(self).config.param_total()
                    &&& final(self).flat() == flat@
                    &&& final(self).same_shape(*old(self))
                    &&& final(self).same_frame(*old(self))
                },
                Err(message) => {
                    &&& flat@.len() != old(self).config.param_total()
                    &&& message@ == size_mismatch(old(self).config.param_total(), flat@.len())
                    &&& *final(self) == *old(self)
                },
            },
    {
        let expected: usize = self.param_count();
        if flat.len() != expected {
            let mut message: String = "Weight size mismatch: expected ".to_string();
            message.append(text::decimal_string(expected as u128).as_str());
            message.append(" parameters, got ");
            message.append(text::decimal_string(flat.len() as u128).as_str());
            assert(message@ =~= size_mismatch(expected as nat, flat@.len()));
            return Err(message);
        }
        let ghost before = *self;
        let mut cursor: Cursor<'_, T> = Cursor { flat, at: 0 };
        assert(cursor.since(0) =~= Seq::<T>::empty());
        proof {
            lemma_layers_flat_monotone(before.layers@, before.layers@.len() as int);
        }
        let token_embeddings: Vec<T> = cursor.read_like(&self.token_embeddings);
        let pos_embeddings: Option<Vec<T>> = cursor.read_like_opt(&self.pos_embeddings);
        let ghost head = cursor.since(0);
        assert(head =~= token_embeddings@ + opt_view(pos_embeddings));
        let ghost base = cursor.at as int;
        let mut layers: Vec<TransformerLayer<T>> = Vec::new();
        for i in 0..self.layers.len()
            invariant
                *self == before,
                cursor.flat == flat,
                layers@.len() == i,
                0 <= base <= cursor.at,
                cursor.at == base + layers_flat(before.layers@.take(i as int)).len(),
                base + layers_flat(before.layers@).len() <= flat@.len(),
                cursor.since(base) == layers_flat(layers@),
                forall|j: int|
                    0 <= j < i ==> (#[trigger] layers@[j]).same_shape(before.layers@[j])
                        && layers@[j].same_frame(before.layers@[j]),
        {
            proof {
                lemma_layers_flat_monotone(before.layers@, i + 1);
            }
            assert(before.layers@.take(i + 1).drop_last() =~= before.layers@.take(i as int));
            let ghost was = cursor;
            let ghost done = layers@;
            let layer: TransformerLayer<T> = cursor.read_layer(&self.layers[i]);
            layers.push(layer);
            assert(layers@.drop_last() =~= done);
            assert(cursor.since(base) =~= was.since(base) + cursor.since(was.at as int));
        }
        assert(before.layers@.take(before.layers@.len() as int) =~= before.layers@);
        assert(cursor.since(0) =~= head + cursor.since(base));
        let final_norm_gamma: Vec<T> = cursor.read_like(&self.final_norm_gamma);
        let final_norm_beta: Option<Vec<T>> = cursor.read_like_opt(&self.final_norm_beta);
        let lm_head: Option<Vec<T>> = cursor.read_like_opt(&self.lm_head);
        let lm_head_bias: Option<Vec<T>> = cursor.read_like_opt(&self.lm_head_bias);
        assert(cursor.since(0) =~= flat@);
        self.token_embeddings = token_embeddings;
        self.pos_embeddings = pos_embeddings;
        self.layers = layers;
        self.final_norm_gamma = final_norm_gamma;
        self.final_norm_beta = final_norm_beta;
        self.lm_head = lm_head;
        self.lm_head_bias = lm_head_bias;
        Ok(())
    }
}

/// The first layers have no more weights than all.
proof fn lemma_layers_flat_monotone<T>(layers: Seq<TransformerLayer<T>>, n: int)
    requires
        0 <= n <= layers.len(),
    ensures
        layers_flat(layers.take(n)).len() <= layers_flat(layers).len(),
    decreases layers.len() - n,
{
    if n < layers.len() {
        lemma_layers_flat_monotone(layers, n + 1);
        assert(layers.take(n + 1).drop_last() =~= layers.take(n));
    } else {
        assert(layers.take(n) =~= layers);
    }
}

} // verus!
