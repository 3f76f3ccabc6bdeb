//! What configurations count, refuse and equal, and how their weights are laid out in a file.

use vstd::prelude::*;

use crate::classic::checkpoint;
use crate::classic::config::{
    ActivationType, ConfigFault, NormType, PosEncodingType, TransformerConfig,
};
use crate::classic::config;
use crate::classic::model::{Transformer, TransformerLayer};
use crate::classic::model;
use crate::classic::weights_file::WeightsError;
use crate::classic::weights_file;
use crate::text;

verus! {

/// One, or nothing.
pub open spec fn once(wanted: bool) -> int {
    if wanted {
        1
    } else {
        0
    }
}

/// Every trainable number is counted once: in every layer four projections, two feed-forward
/// matrices and two norms; beside the layers the embeddings, learned positions, the last norm and
/// an output head of its own. Biases add one number to each row of a matrix, and to each number of
/// a layer norm.
pub proof fn law_parameters_are_counted(c: TransformerConfig)
    ensures
        ({
            let v = c.vocab_size as int;
            let d = c.d_model as int;
            let f = c.d_ff as int;
            let bias = once(c.use_bias);
            let norm_bias = once(c.use_bias && c.norm_type == NormType::LayerNorm);
            let norm = d + norm_bias * d;
            let layer = 4 * (d * d) + bias * (4 * d) + f * d + bias * f + d * f + bias * d + 2
                * norm;
            c.param_total() == v * d + once(c.pos_encoding == PosEncodingType::Learned) * (
            c.max_seq_len * d) + c.n_layers * layer + norm + once(!c.tie_word_embeddings) * (v * d
                + bias * v)
        }),
{
    assert(c.d_ff * c.d_model == c.d_model * c.d_ff) by (nonlinear_arith);
    let bias = once(c.use_bias);
    let norm_bias = once(c.use_bias && c.norm_type == NormType::LayerNorm);
    assert(forall|x: int| #[trigger] (1 * x) == x);
    assert(forall|x: int| #[trigger] (0 * x) == 0);
}

/// A configuration is valid exactly where no dimension is zero, the heads divide the model
/// dimension and the stabiliser is positive and finite.
pub proof fn law_valid_configurations(c: TransformerConfig)
    ensures
        c.fault() is None <==> {
            &&& c.vocab_size > 0 && c.d_model > 0 && c.n_heads > 0 && c.n_layers > 0
            &&& c.d_ff > 0 && c.max_seq_len > 0
            &&& exists|dim: int| #[trigger] (dim * c.n_heads) == c.d_model
            &&& 0 < c.eps_bits < 0x7f800000
        },
{
    if c.n_heads > 0 {
        let d = c.d_model as int;
        let h = c.n_heads as int;
        vstd::arithmetic::div_mod::lemma_fundamental_div_mod(d, h);
        if d % h == 0 {
            assert((d / h) * h == d) by (nonlinear_arith)
                requires
                    d == h * (d / h) + d % h,
                    d % h == 0,
            ;
        }
        if exists|dim: int| #[trigger] (dim * c.n_heads) == c.d_model {
            let dim = choose|dim: int| #[trigger] (dim * c.n_heads) == c.d_model;
            vstd::arithmetic::div_mod::lemma_mod_multiples_basic(dim, h);
        }
    }
}

/// The fault reported is the first in the order vocabulary, model dimension, heads, their
/// division, layers, hidden dimension, context, stabiliser.
pub proof fn law_first_fault_is_reported(c: TransformerConfig)
    ensures
        c.fault() == Some(ConfigFault::NoVocabulary) <==> c.vocab_size == 0,
        c.fault() == Some(ConfigFault::NoModelDimension) <==> c.vocab_size > 0 && c.d_model == 0,
        c.fault() == Some(ConfigFault::NoHeads) <==> c.vocab_size > 0 && c.d_model > 0 && c.n_heads
            == 0,
        c.fault() == Some(ConfigFault::HeadsDoNotDivide) <==> c.vocab_size > 0 && c.d_model > 0
            && c.n_heads > 0 && c.d_model % c.n_heads != 0,
        c.fault() == Some(ConfigFault::NoLayers) ==> c.n_layers == 0 && c.d_model % c.n_heads == 0,
        c.fault() == Some(ConfigFault::NoHiddenDimension) ==> c.d_ff == 0 && c.n_layers > 0,
        c.fault() == Some(ConfigFault::NoContext) ==> c.max_seq_len == 0 && c.d_ff > 0
            && c.n_layers > 0,
        c.fault() == Some(ConfigFault::BadEps) ==> c.max_seq_len > 0 && c.d_ff > 0 && c.n_layers
            > 0 && (c.eps_bits == 0 || c.eps_bits >= 0x7f800000),
{
}

/// Two configurations are equal exactly where all their fields are, the stabilisers by value: the
/// two zeros are equal, and what is no number equals nothing.
pub proof fn law_equal_configurations(a: TransformerConfig, b: TransformerConfig)
    ensures
        config::same_config(a, b) <==> {
            &&& a == (TransformerConfig { eps_bits: a.eps_bits, ..b })
            &&& a.eps_bits == b.eps_bits || a.eps_bits % 0x80000000 == 0 && b.eps_bits % 0x80000000
                == 0
            &&& a.eps_bits % 0x80000000 <= 0x7f800000
        },
{
    assert(a.eps_bits % 0x80000000 == if a.eps_bits >= 0x80000000 {
        a.eps_bits - 0x80000000
    } else {
        a.eps_bits as int
    });
    assert(b.eps_bits % 0x80000000 == if b.eps_bits >= 0x80000000 {
        b.eps_bits - 0x80000000
    } else {
        b.eps_bits as int
    });
}

/// The flat order of a layer's weights: each buffer behind the one before, and every one of them.
pub proof fn law_layer_lies_flat<T>(layer: TransformerLayer<T>)
    ensures
        layer.flat() == seq![
            layer.attn_norm_gamma@,
            model::opt_view(layer.attn_norm_beta),
            layer.attn.w_q@,
            layer.attn.w_k@,
            layer.attn.w_v@,
            layer.attn.w_o@,
            model::opt_view(layer.attn.b_q),
            model::opt_view(layer.attn.b_k),
            model::opt_view(layer.attn.b_v),
            model::opt_view(layer.attn.b_o),
            layer.ffn_norm_gamma@,
            model::opt_view(layer.ffn_norm_beta),
            layer.mlp.w_1@,
            model::opt_view(layer.mlp.b_1),
            layer.mlp.w_2@,
            model::opt_view(layer.mlp.b_2),
        ].flatten(),
{
    let parts = seq![
        layer.attn_norm_gamma@,
        model::opt_view(layer.attn_norm_beta),
        layer.attn.w_q@,
        layer.attn.w_k@,
        layer.attn.w_v@,
        layer.attn.w_o@,
        model::opt_view(layer.attn.b_q),
        model::opt_view(layer.attn.b_k),
        model::opt_view(layer.attn.b_v),
        model::opt_view(layer.attn.b_o),
        layer.ffn_norm_gamma@,
        model::opt_view(layer.ffn_norm_beta),
        layer.mlp.w_1@,
        model::opt_view(layer.mlp.b_1),
        layer.mlp.w_2@,
        model::opt_view(layer.mlp.b_2),
    ];
    lemma_flat_sixteen(parts);
}

proof fn lemma_flat_sixteen<T>(p: Seq<Seq<T>>)
    requires
        p.len() == 16,
    ensures
        p.flatten() == p[0] + p[1] + p[2] + p[3] + p[4] + p[5] + p[6] + p[7] + p[8] + p[9] + p[10]
            + p[11] + p[12] + p[13] + p[14] + p[15],
{
    lemma_flat_step(p, 1);
    lemma_flat_step(p, 2);
    lemma_flat_step(p, 3);
    lemma_flat_step(p, 4);
    lemma_flat_step(p, 5);
    lemma_flat_step(p, 6);
    lemma_flat_step(p, 7);
    lemma_flat_step(p, 8);
    lemma_flat_step(p, 9);
    lemma_flat_step(p, 10);
    lemma_flat_step(p, 11);
    lemma_flat_step(p, 12);
    lemma_flat_step(p, 13);
    lemma_flat_step(p, 14);
    lemma_flat_step(p, 15);
    lemma_flat_step(p, 16);
    assert(p.take(0).flatten() =~= Seq::<T>::empty());
    assert(Seq::<T>::empty() + p[0] =~= p[0]);
    assert(p.take(16) =~= p);
}

proof fn lemma_flat_step<T>(p: Seq<Seq<T>>, n: int)
    requires
        1 <= n <= p.len(),
    ensures
        p.take(n).flatten() == p.take(n - 1).flatten() + p[n - 1],
{
    assert(p.take(n) =~= p.take(n - 1).push(p[n - 1]));
    p.take(n - 1).lemma_flatten_push(p[n - 1]);
}

/// The flat order of a model's weights: token embeddings, learned positions, the layers one behind
/// the other, the last norm, and an output head of its own.
pub proof fn law_model_lies_flat<T>(m: Transformer<T>)
    ensures
        m.flat() == m.token_embeddings@ + (model::opt_view(m.pos_embeddings) + (Seq::new(
            m.layers@.len(),
            |i: int| m.layers@[i].flat(),
        ).flatten() + (m.final_norm_gamma@ + (model::opt_view(m.final_norm_beta) + (
        model::opt_view(m.lm_head) + model::opt_view(m.lm_head_bias)))))),
{
    lemma_layers_lie_flat(m.layers@);
    assert(m.flat() =~= m.token_embeddings@ + (model::opt_view(m.pos_embeddings) + (Seq::new(
        m.layers@.len(),
        |i: int| m.layers@[i].flat(),
    ).flatten() + (m.final_norm_gamma@ + (model::opt_view(m.final_norm_beta) + (model::opt_view(
        m.lm_head,
    ) + model::opt_view(m.lm_head_bias)))))));
}

proof fn lemma_layers_lie_flat<T>(layers: Seq<TransformerLayer<T>>)
    ensures
        model::layers_flat(layers) == Seq::new(
            layers.len(),
            |i: int| layers[i].flat(),
        ).flatten(),
    decreases layers.len(),
{
    let all = Seq::new(layers.len(), |i: int| layers[i].flat());
    if layers.len() == 0 {
        assert(all.flatten() =~= Seq::<T>::empty());
    } else {
        let front = layers.drop_last();
        lemma_layers_lie_flat(front);
        let before = Seq::new(front.len(), |i: int| front[i].flat());
        assert(all =~= before.push(layers.last().flat()));
        before.lemma_flatten_push(layers.last().flat());
    }
}

/// A number stands in four bytes of a file, its least significant byte first.
pub open spec fn word_lies_at(raw: Seq<u8>, at: int, n: int) -> bool {
    &&& 0 <= at && at + 4 <= raw.len()
    &&& 0 <= n < 0x1_0000_0000
    &&& n == raw[at] + 0x100 * raw[at + 1] + 0x1_0000 * raw[at + 2] + 0x100_0000 * raw[at + 3]
}

proof fn lemma_word_of_bytes(raw: Seq<u8>, at: int, n: u32)
    requires
        0 <= at,
        at + 4 <= raw.len(),
        raw.subrange(at, at + 4) == weights_file::le4(n),
    ensures
        word_lies_at(raw, at, n as int),
{
    reveal(weights_file::le4);
    let part = raw.subrange(at, at + 4);
    assert(part[0] == raw[at] && part[1] == raw[at + 1] && part[2] == raw[at + 2] && part[3]
        == raw[at + 3]);
    let b = weights_file::le4(n);
    assert(b[0] == n % 256 && b[1] == n / 256 % 256 && b[2] == n / 65536 % 256 && b[3] == n
        / 16777216 % 256);
}

proof fn lemma_word_read(raw: Seq<u8>, at: int)
    requires
        0 <= at,
        at + 4 <= raw.len(),
    ensures
        word_lies_at(raw, at, weights_file::word_at(raw, at) as int),
{
    reveal(weights_file::from_le4);
    let part = raw.subrange(at, at + 4);
    assert(part[0] == raw[at] && part[1] == raw[at + 1] && part[2] == raw[at + 2] && part[3]
        == raw[at + 3]);
}

/// The layout of a file: `SRXF`, the version, the six dimensions, the stabiliser, the three kinds,
/// the two flags, six bytes of padding, the number of weights, and then the weights in order.
pub proof fn law_file_layout(c: TransformerConfig, weights: Seq<u32>, i: int)
    requires
        c.param_total() == weights.len() <= u64::MAX,
        c.vocab_size <= u32::MAX && c.d_model <= u32::MAX && c.n_heads <= u32::MAX,
        c.n_layers <= u32::MAX && c.d_ff <= u32::MAX && c.max_seq_len <= u32::MAX,
        0 <= i < weights.len(),
    ensures
        ({
            let raw = weights_file::file_bytes(c, weights);
            &&& raw.len() == 64 + 4 * weights.len()
            &&& raw[0] == 83 && raw[1] == 82 && raw[2] == 88 && raw[3] == 70
            &&& word_lies_at(raw, 4, 1)
            &&& word_lies_at(raw, 8, c.vocab_size as int)
            &&& word_lies_at(raw, 12, c.d_model as int)
            &&& word_lies_at(raw, 16, c.n_heads as int)
            &&& word_lies_at(raw, 20, c.n_layers as int)
            &&& word_lies_at(raw, 24, c.d_ff as int)
            &&& word_lies_at(raw, 28, c.max_seq_len as int)
            &&& word_lies_at(raw, 32, c.eps_bits as int)
            &&& word_lies_at(raw, 36, once(c.norm_type == NormType::RMSNorm))
            &&& word_lies_at(raw, 40, once(c.activation == ActivationType::Relu))
            &&& word_lies_at(raw, 44, once(c.pos_encoding == PosEncodingType::Learned))
            &&& raw[48] == once(c.tie_word_embeddings)
            &&& raw[49] == once(c.use_bias)
            &&& raw[50] == 0 && raw[51] == 0 && raw[52] == 0 && raw[53] == 0 && raw[54] == 0
                && raw[55] == 0
            &&& word_lies_at(raw, 56, (weights.len() % 0x1_0000_0000) as int)
            &&& word_lies_at(raw, 60, (weights.len() / 0x1_0000_0000) as int)
            &&& word_lies_at(raw, 64 + 4 * i, weights[i] as int)
        }),
{
    let count = c.param_total() as u64;
    let h = weights_file::header(c, count);
    let raw = weights_file::file_bytes(c, weights);
    weights_file::lemma_header_words(c, count);
    weights_file::lemma_payload(weights, i);
    assert(raw.subrange(0, 4) =~= h.subrange(0, 4));
    let m = raw.subrange(0, 4);
    assert(m[0] == raw[0] && m[1] == raw[1] && m[2] == raw[2] && m[3] == raw[3]);
    assert(raw.subrange(4, 8) =~= h.subrange(4, 8));
    assert(raw.subrange(8, 12) =~= h.subrange(8, 12));
    assert(raw.subrange(12, 16) =~= h.subrange(12, 16));
    assert(raw.subrange(16, 20) =~= h.subrange(16, 20));
    assert(raw.subrange(20, 24) =~= h.subrange(20, 24));
    assert(raw.subrange(24, 28) =~= h.subrange(24, 28));
    assert(raw.subrange(28, 32) =~= h.subrange(28, 32));
    assert(raw.subrange(32, 36) =~= h.subrange(32, 36));
    assert(raw.subrange(36, 40) =~= h.subrange(36, 40));
    assert(raw.subrange(40, 44) =~= h.subrange(40, 44));
    assert(raw.subrange(44, 48) =~= h.subrange(44, 48));
    lemma_word_of_bytes(raw, 4, 1);
    lemma_word_of_bytes(raw, 8, weights_file::low32(c.vocab_size));
    lemma_word_of_bytes(raw, 12, weights_file::low32(c.d_model));
    lemma_word_of_bytes(raw, 16, weights_file::low32(c.n_heads));
    lemma_word_of_bytes(raw, 20, weights_file::low32(c.n_layers));
    lemma_word_of_bytes(raw, 24, weights_file::low32(c.d_ff));
    lemma_word_of_bytes(raw, 28, weights_file::low32(c.max_seq_len));
    lemma_word_of_bytes(raw, 32, c.eps_bits);
    lemma_word_of_bytes(raw, 36, weights_file::norm_code(c.norm_type));
    lemma_word_of_bytes(raw, 40, weights_file::activation_code(c.activation));
    lemma_word_of_bytes(raw, 44, weights_file::position_code(c.pos_encoding));
    assert(raw[48] == h[48] && raw[49] == h[49]);
    lemma_padding(c, count);
    assert(raw[50] == h[50] && raw[51] == h[51] && raw[52] == h[52] && raw[53] == h[53] && raw[54]
        == h[54] && raw[55] == h[55]);
    let low = (count % 0x1_0000_0000) as u32;
    let high = (count / 0x1_0000_0000) as u32;
    let eight = h.subrange(56, 64);
    assert(raw.subrange(56, 60) =~= eight.subrange(0, 4));
    assert(raw.subrange(60, 64) =~= eight.subrange(4, 8));
    lemma_le4_len(low);
    lemma_le4_len(high);
    assert(eight.subrange(0, 4) =~= weights_file::le4(low));
    assert(eight.subrange(4, 8) =~= weights_file::le4(high));
    lemma_word_of_bytes(raw, 56, low);
    lemma_word_of_bytes(raw, 60, high);
    assert(raw.subrange(64 + 4 * i, 64 + 4 * i + 4) =~= weights_file::payload(weights).subrange(
        4 * i,
        4 * i + 4,
    ));
    lemma_word_of_bytes(raw, 64 + 4 * i, weights[i]);
}

proof fn lemma_le4_len(n: u32)
    ensures
        weights_file::le4(n).len() == 4,
{
    reveal(weights_file::le4);
}

#[verifier::spinoff_prover]
#[verifier::rlimit(60)]
proof fn lemma_padding(c: TransformerConfig, count: u64)
    ensures
        weights_file::header(c, count)[50] == 0,
        weights_file::header(c, count)[51] == 0,
        weights_file::header(c, count)[52] == 0,
        weights_file::header(c, count)[53] == 0,
        weights_file::header(c, count)[54] == 0,
        weights_file::header(c, count)[55] == 0,
{
    reveal(weights_file::header);
    reveal(weights_file::le4);
}

/// What a file that is read without fault says: each field is the number at its place, and weight
/// `i` the one at its own.
pub proof fn law_file_is_read_by_places(raw: Seq<u8>, i: int)
    requires
        weights_file::fault(raw) is None,
        raw.len() <= usize::MAX,
        0 <= i < weights_file::stored(raw).len(),
    ensures
        ({
            let c = weights_file::described(raw);
            &&& raw.len() == 64 + 4 * weights_file::stored(raw).len()
            &&& word_lies_at(raw, 8, c.vocab_size as int)
            &&& word_lies_at(raw, 12, c.d_model as int)
            &&& word_lies_at(raw, 16, c.n_heads as int)
            &&& word_lies_at(raw, 20, c.n_layers as int)
            &&& word_lies_at(raw, 24, c.d_ff as int)
            &&& word_lies_at(raw, 28, c.max_seq_len as int)
            &&& word_lies_at(raw, 32, c.eps_bits as int)
            &&& word_lies_at(raw, 36, once(c.norm_type == NormType::RMSNorm))
            &&& word_lies_at(raw, 40, once(c.activation == ActivationType::Relu))
            &&& word_lies_at(raw, 44, once(c.pos_encoding == PosEncodingType::Learned))
            &&& c.tie_word_embeddings <==> raw[48] != 0
            &&& c.use_bias <==> raw[49] != 0
            &&& word_lies_at(raw, 64 + 4 * i, weights_file::stored(raw)[i] as int)
        }),
{
    lemma_word_read(raw, 8);
    lemma_word_read(raw, 12);
    lemma_word_read(raw, 16);
    lemma_word_read(raw, 20);
    lemma_word_read(raw, 24);
    lemma_word_read(raw, 28);
    lemma_word_read(raw, 32);
    lemma_word_read(raw, 36);
    lemma_word_read(raw, 40);
    lemma_word_read(raw, 44);
    lemma_word_read(raw, 64 + 4 * i);
}

/// A file is refused exactly where it is shorter than its header, does not begin with `SRXF`, is
/// of another version than the first, names a kind beyond the two there are, or is not as long as
/// the number of weights that it announces; the first of these is reported.
pub proof fn law_files_are_refused_for_cause(raw: Seq<u8>)
    requires
        raw.len() <= usize::MAX,
    ensures
        ({
            let fault = weights_file::fault(raw);
            let long = raw.len() >= 64;
            let magic = long && raw[0] == 83 && raw[1] == 82 && raw[2] == 88 && raw[3] == 70;
            let version = magic && word_lies_at(raw, 4, 1);
            let norm = version && (word_lies_at(raw, 36, 0) || word_lies_at(raw, 36, 1));
            let activation = norm && (word_lies_at(raw, 40, 0) || word_lies_at(raw, 40, 1));
            let kinds = activation && (word_lies_at(raw, 44, 0) || word_lies_at(raw, 44, 1));
            let announced = raw[56] + 0x100 * raw[57] + 0x1_0000 * raw[58] + 0x100_0000 * raw[59]
                + 0x1_0000_0000 * (raw[60] + 0x100 * raw[61] + 0x1_0000 * raw[62] + 0x100_0000
                * raw[63]);
            &&& fault == Some(WeightsError::TooSmall) <==> !long
            &&& fault == Some(WeightsError::BadMagic) <==> long && !magic
            &&& fault is Some && fault->0 is UnsupportedVersion <==> magic && !version
            &&& fault matches Some(WeightsError::UnsupportedVersion { version }) ==> word_lies_at(
                raw,
                4,
                version as int,
            )
            &&& fault == Some(WeightsError::UnknownNorm) <==> version && !norm
            &&& fault == Some(WeightsError::UnknownActivation) <==> norm && !activation
            &&& fault == Some(WeightsError::UnknownPosEncoding) <==> activation && !kinds
            &&& fault is Some && fault->0 is LengthMismatch <==> kinds && raw.len() != 64 + 4
                * announced
            &&& fault matches Some(WeightsError::LengthMismatch { expected, actual }) ==> expected
                == 64 + 4 * announced && actual == raw.len()
        }),
{
    if raw.len() >= 64 {
        lemma_word_read(raw, 4);
        lemma_word_read(raw, 36);
        lemma_word_read(raw, 40);
        lemma_word_read(raw, 44);
        let m = raw.subrange(0, 4);
        assert(m[0] == raw[0] && m[1] == raw[1] && m[2] == raw[2] && m[3] == raw[3]);
        if m[0] == 83 && m[1] == 82 && m[2] == 88 && m[3] == 70 {
            assert(m =~= weights_file::magic());
        }
        let eight = raw.subrange(56, 64);
        assert(eight.subrange(0, 4) =~= raw.subrange(56, 60));
        assert(eight.subrange(4, 8) =~= raw.subrange(60, 64));
        lemma_word_read(raw, 56);
        lemma_word_read(raw, 60);
    }
}

/// The report on a fault names what is wrong; where the heads do not divide the dimension, with both
/// numbers.
pub proof fn law_fault_reports_name_the_fault(c: TransformerConfig)
    ensures
        c.fault_message(ConfigFault::NoVocabulary) == "vocab_size must be greater than 0"@,
        c.fault_message(ConfigFault::NoModelDimension) == "d_model must be greater than 0"@,
        c.fault_message(ConfigFault::NoHeads) == "n_heads must be greater than 0"@,
        c.fault_message(ConfigFault::HeadsDoNotDivide) == "d_model ("@ + (text::decimal(
            c.d_model as nat,
        ) + (") must be divisible by n_heads ("@ + (text::decimal(c.n_heads as nat) + ")"@))),
        c.fault_message(ConfigFault::NoLayers) == "n_layers must be greater than 0"@,
        c.fault_message(ConfigFault::NoHiddenDimension) == "d_ff must be greater than 0"@,
        c.fault_message(ConfigFault::NoContext) == "max_seq_len must be greater than 0"@,
        c.fault_message(ConfigFault::BadEps) == "eps must be a positive finite float"@,
{
    assert(c.fault_message(ConfigFault::HeadsDoNotDivide) =~= "d_model ("@ + (text::decimal(
        c.d_model as nat,
    ) + (") must be divisible by n_heads ("@ + (text::decimal(c.n_heads as nat) + ")"@))));
}

/// The report on a wrong number of weights gives the number of parameters first, and then the number
/// of weights.
pub proof fn law_size_report_gives_both_numbers(expected: nat, got: nat)
    ensures
        model::size_mismatch(expected, got) == "Weight size mismatch: expected "@ + (text::decimal(
            expected,
        ) + (" parameters, got "@ + text::decimal(got))),
{
    assert(model::size_mismatch(expected, got) =~= "Weight size mismatch: expected "@ + (
    text::decimal(expected) + (" parameters, got "@ + text::decimal(got))));
}

/// A file describes a model where it holds the model's dimensions and kinds, and a stabiliser of
/// equal value.
pub proof fn law_file_describes_equal_configurations(raw: Seq<u8>, c: TransformerConfig)
    ensures
        checkpoint::describes(raw, c) <==> {
            &&& c == (TransformerConfig { eps_bits: c.eps_bits, ..weights_file::described(raw) })
            &&& {
                let eps = weights_file::described(raw).eps_bits;
                ||| c.eps_bits == eps && eps % 0x80000000 <= 0x7f800000
                ||| c.eps_bits % 0x80000000 == 0 && eps % 0x80000000 == 0
            }
        },
{
    law_equal_configurations(c, weights_file::described(raw));
}

/// The report on a refused file names the cause; an unknown version and a wrong length with their
/// numbers, what was expected before what was found.
pub proof fn law_refusals_name_the_cause(version: u32, expected: u128, actual: usize)
    ensures
        WeightsError::TooSmall.report() == "File too small (< 64 bytes)"@,
        WeightsError::BadMagic.report() == "Invalid magic bytes"@,
        (WeightsError::UnsupportedVersion { version }).report() == "Unsupported version: "@
            + text::decimal(version as nat),
        WeightsError::UnknownNorm.report() == "Unknown norm_type"@,
        WeightsError::UnknownActivation.report() == "Unknown activation"@,
        WeightsError::UnknownPosEncoding.report() == "Unknown pos_encoding"@,
        (WeightsError::LengthMismatch { expected, actual }).report()
            == "File byte length mismatch: expected "@ + (text::decimal(expected as nat) + (
        ", got "@ + text::decimal(actual as nat))),
{
    assert((WeightsError::LengthMismatch { expected, actual }).report()
        =~= "File byte length mismatch: expected "@ + (text::decimal(expected as nat) + (
    ", got "@ + text::decimal(actual as nat))));
}

} // verus!
