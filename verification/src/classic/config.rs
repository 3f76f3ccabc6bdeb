//! Model geometry: the configuration of a transformer, its validity and its parameter count.

use vstd::prelude::*;
use vstd::string::*;

use crate::text;

verus! {

/// The bit pattern of the single-precision number 1e-5.
pub const EPS_1E_5: u32 = 0x3727c5ac;

/// The bit pattern of the greatest finite single-precision number.
pub const GREATEST_FINITE: u32 = 0x7f7fffff;

/// Normalisation used in transformer blocks.
#[derive(Debug, Clone, Copy, PartialEq, Eq, Structural)]
pub enum NormType {
    /// Layer normalisation: mean subtraction, variance normalisation, scale and optional bias.
    LayerNorm,
    /// Root-mean-square normalisation: scale only.
    RMSNorm,
}

/// Activation function of the feed-forward blocks.
#[derive(Debug, Clone, Copy, PartialEq, Eq, Structural)]
pub enum ActivationType {
    /// Gaussian error linear unit in its tanh approximation.
    Gelu,
    /// Rectified linear unit.
    Relu,
}

/// Positional encoding.
#[derive(Debug, Clone, Copy, PartialEq, Eq, Structural)]
pub enum PosEncodingType {
    /// Fixed sinusoids without trainable parameters.
    Sinusoidal,
    /// A trainable table.
    Learned,
}

/// Configuration of a transformer.
#[derive(Debug, Clone)]
pub struct TransformerConfig {
    /// Number of distinct tokens.
    pub vocab_size: usize,
    /// Embedding and hidden dimension.
    pub d_model: usize,
    /// Number of attention heads.
    pub n_heads: usize,
    /// Number of decoder layers.
    pub n_layers: usize,
    /// Hidden dimension of the feed-forward blocks.
    pub d_ff: usize,
    /// Context window.
    pub max_seq_len: usize,
    /// Stabiliser of the normalisations, as the bit pattern of a single-precision number.
    pub eps_bits: u32,
    /// Normalisation layer.
    pub norm_type: NormType,
    /// Activation function.
    pub activation: ActivationType,
    /// Positional encoding.
    pub pos_encoding: PosEncodingType,
    /// Whether the output head shares the token embeddings.
    pub tie_word_embeddings: bool,
    /// Whether the projections have additive biases.
    pub use_bias: bool,
}

/// What can be wrong with a configuration, in the order in which it is looked for.
#[derive(Debug, Clone, Copy, PartialEq, Eq, Structural)]
pub enum ConfigFault {
    NoVocabulary,
    NoModelDimension,
    NoHeads,
    HeadsDoNotDivide,
    NoLayers,
    NoHiddenDimension,
    NoContext,
    BadEps,
}

/// Whether a bit pattern is that of a positive finite single-precision number.
pub open spec fn positive_finite(bits: u32) -> bool {
    0 < bits <= GREATEST_FINITE
}

/// Whether a bit pattern is that of no number.
pub open spec fn not_a_number(bits: u32) -> bool {
    0x7f800000 < bits <= 0x7fffffff || 0xff800000 < bits
}

/// Equality of single-precision numbers by their bit patterns: nothing equals what is no number,
/// and the two zeros are equal.
pub open spec fn same_number(a: u32, b: u32) -> bool {
    !not_a_number(a) && !not_a_number(b) && (a == b || ((a == 0 || a == 0x80000000) && (b == 0 || b
        == 0x80000000)))
}

/// A configuration with root-mean-square norms, sinusoidal positions and no biases.
pub open spec fn preset(
    vocab_size: usize,
    d_model: usize,
    n_heads: usize,
    n_layers: usize,
    d_ff: usize,
    max_seq_len: usize,
    activation: ActivationType,
    tie_word_embeddings: bool,
) -> TransformerConfig {
    TransformerConfig {
        vocab_size,
        d_model,
        n_heads,
        n_layers,
        d_ff,
        max_seq_len,
        eps_bits: EPS_1E_5,
        norm_type: NormType::RMSNorm,
        activation,
        pos_encoding: PosEncodingType::Sinusoidal,
        tie_word_embeddings,
        use_bias: false,
    }
}

impl TransformerConfig {
    /// The first fault of a configuration, if it has any.
    pub open spec fn fault(self) -> Option<ConfigFault> {
        if self.vocab_size == 0 {
            Some(ConfigFault::NoVocabulary)
        } else if self.d_model == 0 {
            Some(ConfigFault::NoModelDimension)
        } else if self.n_heads == 0 {
            Some(ConfigFault::NoHeads)
        } else if self.d_model % self.n_heads != 0 {
            Some(ConfigFault::HeadsDoNotDivide)
        } else if self.n_layers == 0 {
            Some(ConfigFault::NoLayers)
        } else if self.d_ff == 0 {
            Some(ConfigFault::NoHiddenDimension)
        } else if self.max_seq_len == 0 {
            Some(ConfigFault::NoContext)
        } else if !positive_finite(self.eps_bits) {
            Some(ConfigFault::BadEps)
        } else {
            None
        }
    }

    /// What a fault is reported as.
    pub open spec fn fault_message(self, fault: ConfigFault) -> Seq<char> {
        match fault {
            ConfigFault::NoVocabulary => "vocab_size must be greater than 0"@,
            ConfigFault::NoModelDimension => "d_model must be greater than 0"@,
            ConfigFault::NoHeads => "n_heads must be greater than 0"@,
            ConfigFault::HeadsDoNotDivide => "d_model ("@ + text::decimal(self.d_model as nat)
                + ") must be divisible by n_heads ("@ + text::decimal(self.n_heads as nat) + ")"@,
            ConfigFault::NoLayers => "n_layers must be greater than 0"@,
            ConfigFault::NoHiddenDimension => "d_ff must be greater than 0"@,
            ConfigFault::NoContext => "max_seq_len must be greater than 0"@,
            ConfigFault::BadEps => "eps must be a positive finite float"@,
        }
    }

    /// The parameters of one normalisation.
    pub open spec fn norm_total(self) -> nat {
        if self.norm_type == NormType::LayerNorm && self.use_bias {
            2 * self.d_model as nat
        } else {
            self.d_model as nat
        }
    }

    /// The parameters of the four attention projections.
    pub open spec fn attention_total(self) -> nat {
        4 * (self.d_model as nat * self.d_model as nat) + if self.use_bias {
            4 * self.d_model as nat
        } else {
            0
        }
    }

    /// The parameters of the feed-forward block.
    pub open spec fn mlp_total(self) -> nat {
        2 * (self.d_ff as nat * self.d_model as nat) + if self.use_bias {
            self.d_ff as nat + self.d_model as nat
        } else {
            0
        }
    }

    /// The parameters of one layer: its projections, its feed-forward block and two norms.
    pub open spec fn layer_total(self) -> nat {
        self.attention_total() + self.mlp_total() + 2 * self.norm_total()
    }

    /// The parameters of the token embeddings.
    pub open spec fn embedding_total(self) -> nat {
        self.vocab_size as nat * self.d_model as nat
    }

    /// The parameters of the positional table.
    pub open spec fn position_total(self) -> nat {
        if self.pos_encoding == PosEncodingType::Learned {
            self.max_seq_len as nat * self.d_model as nat
        } else {
            0
        }
    }

    /// The parameters of an output head of its own.
    pub open spec fn head_total(self) -> nat {
        if self.tie_word_embeddings {
            0
        } else {
            self.embedding_total() + if self.use_bias {
                self.vocab_size as nat
            } else {
                0
            }
        }
    }

    /// All trainable parameters.
    pub open spec fn param_total(self) -> nat {
        self.embedding_total() + self.position_total() + self.n_layers as nat * self.layer_total()
            + self.norm_total() + self.head_total()
    }

    /// Whether the parameters can be counted by machine integers.
    pub open spec fn countable(self) -> bool {
        self.param_total() <= usize::MAX && self.layer_total() <= usize::MAX
    }

    /// The parameter count without biases and with root-mean-square norms, multiplied out.
    proof fn lemma_rms_total(self)
        requires
            !self.use_bias,
            self.pos_encoding == PosEncodingType::Sinusoidal,
        ensures
            self.param_total() == self.vocab_size * self.d_model + self.n_layers * (4 * (
            self.d_model * self.d_model) + 2 * (self.d_ff * self.d_model) + 2 * self.d_model)
                + self.d_model + if self.tie_word_embeddings {
                0
            } else {
                self.vocab_size * self.d_model
            },
    {
    }

    fn rms_sinusoidal(
        vocab_size: usize,
        d_model: usize,
        n_heads: usize,
        n_layers: usize,
        d_ff: usize,
        max_seq_len: usize,
        activation: ActivationType,
        tie_word_embeddings: bool,
    ) -> (config: Self)
        ensures
            config == preset(
                vocab_size,
                d_model,
                n_heads,
                n_layers,
                d_ff,
                max_seq_len,
                activation,
                tie_word_embeddings,
            ),
    {
        TransformerConfig {
            vocab_size,
            d_model,
            n_heads,
            n_layers,
            d_ff,
            max_seq_len,
            eps_bits: EPS_1E_5,
            norm_type: NormType::RMSNorm,
            activation,
            pos_encoding: PosEncodingType::Sinusoidal,
            tie_word_embeddings,
            use_bias: false,
        }
    }

    /// The default configuration: exactly 512 trainable parameters.
    pub fn default_512() -> (config: Self)
        ensures
            config == preset(13, 8, 2, 1, 8, 32, ActivationType::Gelu, true),
            config.param_total() == 512,
            config.fault() is None,
    {
        let config: Self = Self::rms_sinusoidal(13, 8, 2, 1, 8, 32, ActivationType::Gelu, true);
        proof {
            config.lemma_rms_total();
        }
        config
    }

    /// The language configuration over 21 tokens: exactly 512 trainable parameters.
    pub fn lang_512() -> (config: Self)
        ensures
            config == preset(21, 8, 2, 1, 4, 32, ActivationType::Relu, true),
            config.param_total() == 512,
            config.fault() is None,
    {
        let config: Self = Self::rms_sinusoidal(21, 8, 2, 1, 4, 32, ActivationType::Relu, true);
        proof {
            config.lemma_rms_total();
        }
        config
    }

    /// The language configuration over 41 tokens: 864 trainable parameters.
    pub fn lang_v2() -> (config: Self)
        ensures
            config == preset(41, 8, 2, 1, 16, 32, ActivationType::Relu, true),
            config.param_total() == 864,
            config.fault() is None,
    {
        let config: Self = Self::rms_sinusoidal(41, 8, 2, 1, 16, 32, ActivationType::Relu, true);
        proof {
            config.lemma_rms_total();
        }
        config
    }

    /// The baseline over 41 tokens with exactly 896 trainable parameters.
    pub fn lang_v2_parity() -> (config: Self)
        ensures
            config == preset(41, 8, 2, 1, 18, 32, ActivationType::Relu, true),
            config.param_total() == 896,
            config.fault() is None,
    {
        let config: Self = Self::rms_sinusoidal(41, 8, 2, 1, 18, 32, ActivationType::Relu, true);
        proof {
            config.lemma_rms_total();
        }
        config
    }

    /// The configuration over 41 tokens whose 880 parameters leave room for a selective gate of 18:
    /// together 898, within four of the baseline.
    pub fn srx_v04_parity() -> (config: Self)
        ensures
            config == preset(41, 8, 2, 1, 17, 32, ActivationType::Relu, true),
            config.param_total() == 880,
            config.fault() is None,
    {
        let config: Self = Self::rms_sinusoidal(41, 8, 2, 1, 17, 32, ActivationType::Relu, true);
        proof {
            config.lemma_rms_total();
        }
        config
    }

    /// The language configuration over 53 tokens: exactly 896 trainable parameters.
    pub fn lang_v3() -> (config: Self)
        ensures
            config == preset(53, 8, 2, 1, 12, 32, ActivationType::Relu, true),
            config.param_total() == 896,
            config.fault() is None,
    {
        let config: Self = Self::rms_sinusoidal(53, 8, 2, 1, 12, 32, ActivationType::Relu, true);
        proof {
            config.lemma_rms_total();
        }
        config
    }

    /// The configuration over 65 tokens with exactly 896 trainable parameters, the model of the 20:1
    /// compute-optimal ratio.
    pub fn chinchilla() -> (config: Self)
        ensures
            config == preset(65, 8, 2, 1, 6, 32, ActivationType::Relu, true),
            config.param_total() == 896,
            config.fault() is None,
    {
        let config: Self = Self::rms_sinusoidal(65, 8, 2, 1, 6, 32, ActivationType::Relu, true);
        proof {
            config.lemma_rms_total();
        }
        config
    }

    /// A configuration of about 3500 parameters with two layers and an untied head.
    pub fn micro() -> (config: Self)
        ensures
            config == preset(32, 16, 2, 2, 6, 64, ActivationType::Gelu, false),
            config.param_total() == 3536,
            config.fault() is None,
    {
        let config: Self = Self::rms_sinusoidal(32, 16, 2, 2, 6, 64, ActivationType::Gelu, false);
        proof {
            config.lemma_rms_total();
        }
        config
    }

    /// A configuration of four layers for word- or byte-level modelling.
    pub fn small() -> (config: Self)
        ensures
            config == preset(256, 64, 4, 4, 128, 128, ActivationType::Gelu, false),
            config.param_total() == 164416,
            config.fault() is None,
    {
        let config: Self = Self::rms_sinusoidal(256, 64, 4, 4, 128, 128, ActivationType::Gelu, false);
        proof {
            config.lemma_rms_total();
        }
        config
    }

    /// The configuration for language modelling over the Chinchilla vocabulary.
    pub fn lang_chinchilla() -> (config: Self)
        ensures
            config == preset(65, 8, 2, 1, 6, 32, ActivationType::Relu, true),
            config.param_total() == 896,
            config.fault() is None,
    {
        Self::chinchilla()
    }

    /// The dimension of each attention head.
    pub fn head_dim(&self) -> (dim: usize)
        requires
            self.n_heads > 0,
        ensures
            dim == self.d_model / self.n_heads,
    {
        self.d_model / self.n_heads
    }

    fn report(&self, fault: ConfigFault) -> (message: String)
        ensures
            message@ == self.fault_message(fault),
    {
        match fault {
            ConfigFault::NoVocabulary => "vocab_size must be greater than 0".to_string(),
            ConfigFault::NoModelDimension => "d_model must be greater than 0".to_string(),
            ConfigFault::NoHeads => "n_heads must be greater than 0".to_string(),
            ConfigFault::HeadsDoNotDivide => {
                let mut message: String = "d_model (".to_string();
                message.append(text::decimal_string(self.d_model as u128).as_str());
                message.append(") must be divisible by n_heads (");
                message.append(text::decimal_string(self.n_heads as u128).as_str());
                message.append(")");
                message
            },
            ConfigFault::NoLayers => "n_layers must be greater than 0".to_string(),
            ConfigFault::NoHiddenDimension => "d_ff must be greater than 0".to_string(),
            ConfigFault::NoContext => "max_seq_len must be greater than 0".to_string(),
            ConfigFault::BadEps => "eps must be a positive finite float".to_string(),
        }
    }

    /// Checks the configuration; the error names its first fault.
    pub fn validate(&self) -> (checked: Result<(), String>)
        ensures
            match (checked, self.fault()) {
                (Ok(()), None) => true,
                (Err(message), Some(fault)) => message@ == self.fault_message(fault),
                _ => false,
            },
    {
        let fault: ConfigFault = if self.vocab_size == 0 {
            ConfigFault::NoVocabulary
        } else if self.d_model == 0 {
            ConfigFault::NoModelDimension
        } else if self.n_heads == 0 {
            ConfigFault::NoHeads
        } else if self.d_model % self.n_heads != 0 {
            ConfigFault::HeadsDoNotDivide
        } else if self.n_layers == 0 {
            ConfigFault::NoLayers
        } else if self.d_ff == 0 {
            ConfigFault::NoHiddenDimension
        } else if self.max_seq_len == 0 {
            ConfigFault::NoContext
        } else if self.eps_bits == 0 || self.eps_bits > GREATEST_FINITE {
            ConfigFault::BadEps
        } else {
            return Ok(());
        };
        Err(self.report(fault))
    }

    /// Counts the trainable parameters.
    pub fn param_count(&self) -> (count: usize)
        requires
            self.countable(),
        ensures
            count == self.param_total(),
    {
        let d: usize = self.d_model;
        proof {
            self.lemma_layers_counted();
        }
        let mut count: usize = self.vocab_size * d;
        if self.pos_encoding == PosEncodingType::Learned {
            count = count + self.max_seq_len * d;
        }
        let norm: usize = if self.norm_type == NormType::LayerNorm && self.use_bias {
            2 * d
        } else {
            d
        };
        let mut layer: usize = 4 * (d * d);
        if self.use_bias {
            layer = layer + 4 * d;
        }
        layer = layer + norm;
        layer = layer + self.d_ff * d;
        if self.use_bias {
            layer = layer + self.d_ff;
        }
        assert(d * self.d_ff == self.d_ff * d) by (nonlinear_arith);
        layer = layer + d * self.d_ff;
        if self.use_bias {
            layer = layer + d;
        }
        layer = layer + norm;
        assert(layer == self.layer_total());
        count = count + self.n_layers * layer;
        count = count + norm;
        if !self.tie_word_embeddings {
            count = count + self.vocab_size * d;
            if self.use_bias {
                count = count + self.vocab_size;
            }
        }
        count
    }

    /// Counts the trainable parameters, where machine integers can.
    pub fn checked_param_count(&self) -> (count: Option<usize>)
        ensures
            match count {
                Some(n) => self.countable() && n == self.param_total(),
                None => !self.countable(),
            },
    {
        let d: usize = self.d_model;
        proof {
            self.lemma_layers_counted();
            assert(d * self.d_ff == self.d_ff * d) by (nonlinear_arith);
        }
        let norm: usize = if self.norm_type == NormType::LayerNorm && self.use_bias {
            d.checked_mul(2)?
        } else {
            d
        };
        let attention_bias: usize = if self.use_bias {
            d.checked_mul(4)?
        } else {
            0
        };
        let mlp_bias: usize = if self.use_bias {
            self.d_ff.checked_add(d)?
        } else {
            0
        };
        let attention: usize = d.checked_mul(d)?.checked_mul(4)?.checked_add(attention_bias)?;
        let mlp: usize = self.d_ff.checked_mul(d)?.checked_mul(2)?.checked_add(mlp_bias)?;
        let layer: usize = attention.checked_add(mlp)?.checked_add(norm.checked_mul(2)?)?;
        assert(layer == self.layer_total());
        let embedding: usize = self.vocab_size.checked_mul(d)?;
        let positions: usize = if self.pos_encoding == PosEncodingType::Learned {
            self.max_seq_len.checked_mul(d)?
        } else {
            0
        };
        let head: usize = if self.tie_word_embeddings {
            0
        } else {
            embedding.checked_add(
                if self.use_bias {
                    self.vocab_size
                } else {
                    0
                },
            )?
        };
        embedding.checked_add(positions)?.checked_add(self.n_layers.checked_mul(layer)?)?.checked_add(
            norm,
        )?.checked_add(head)
    }

    proof fn lemma_layers_counted(self)
        ensures
            0 <= self.n_layers * self.layer_total(),
            0 <= self.vocab_size * self.d_model,
            0 <= self.max_seq_len * self.d_model,
            0 <= self.d_model * self.d_model,
            0 <= self.d_ff * self.d_model,
    {
        let l = self.layer_total();
        assert(0 <= self.n_layers * l) by (nonlinear_arith);
        assert(0 <= self.vocab_size * self.d_model) by (nonlinear_arith);
        assert(0 <= self.max_seq_len * self.d_model) by (nonlinear_arith);
        assert(0 <= self.d_model * self.d_model) by (nonlinear_arith);
        assert(0 <= self.d_ff * self.d_model) by (nonlinear_arith);
    }
}

impl Default for TransformerConfig {
    fn default() -> (config: Self)
        ensures
            config == preset(13, 8, 2, 1, 8, 32, ActivationType::Gelu, true),
    {
        Self::default_512()
    }
}

impl PartialEq for TransformerConfig {
    fn eq(&self, other: &Self) -> (equal: bool) {
        let dimensions: bool = self.vocab_size == other.vocab_size && self.d_model == other.d_model
            && self.n_heads == other.n_heads && self.n_layers == other.n_layers && self.d_ff
            == other.d_ff && self.max_seq_len == other.max_seq_len;
        let kinds: bool = self.norm_type == other.norm_type && self.activation == other.activation
            && self.pos_encoding == other.pos_encoding && self.tie_word_embeddings
            == other.tie_word_embeddings && self.use_bias == other.use_bias;
        dimensions && equal_numbers(self.eps_bits, other.eps_bits) && kinds
    }
}

/// Compares single-precision numbers by their bit patterns.
fn equal_numbers(a: u32, b: u32) -> (equal: bool)
    ensures
        equal == same_number(a, b),
{
    let a_nan: bool = (a > 0x7f800000 && a <= 0x7fffffff) || a > 0xff800000;
    let b_nan: bool = (b > 0x7f800000 && b <= 0x7fffffff) || b > 0xff800000;
    let zeros: bool = (a == 0 || a == 0x80000000) && (b == 0 || b == 0x80000000);
    !a_nan && !b_nan && (a == b || zeros)
}

impl vstd::std_specs::cmp::PartialEqSpecImpl for TransformerConfig {
    open spec fn obeys_eq_spec() -> bool {
        true
    }

    open spec fn eq_spec(&self, other: &Self) -> bool {
        same_config(*self, *other)
    }
}

/// When two configurations are equal: the same dimensions and kinds, and equal stabilisers.
pub open spec fn same_config(a: TransformerConfig, b: TransformerConfig) -> bool {
    &&& a.vocab_size == b.vocab_size
    &&& a.d_model == b.d_model
    &&& a.n_heads == b.n_heads
    &&& a.n_layers == b.n_layers
    &&& a.d_ff == b.d_ff
    &&& a.max_seq_len == b.max_seq_len
    &&& same_number(a.eps_bits, b.eps_bits)
    &&& a.norm_type == b.norm_type
    &&& a.activation == b.activation
    &&& a.pos_encoding == b.pos_encoding
    &&& a.tie_word_embeddings == b.tie_word_embeddings
    &&& a.use_bias == b.use_bias
}

/// A configuration whose stabiliser is a number equals itself.
pub proof fn law_config_equals_itself(config: TransformerConfig)
    requires
        !not_a_number(config.eps_bits),
    ensures
        same_config(config, config),
{
}

} // verus!
