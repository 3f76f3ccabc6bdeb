//! Sizes of the scaled models, and what they cost in memory.

use vstd::prelude::*;

use crate::scaled::sizes;

verus! {

/// Dimension of every head.
pub const HEAD_DIM: usize = 4;

/// Bytes of recurrent state for each head: four phases and sixteen memory cells of four bytes.
pub const STATE_BYTES_PER_HEAD: usize = 80;

/// Bytes of one element.
pub const ELEMENT_BYTES: usize = 4;

/// Bytes of the first-level data cache.
pub const L1D_BYTES: usize = 32768;

/// Bytes of the second-level cache.
pub const L2_BYTES: usize = 262144;

/// Bytes of the third-level cache.
pub const L3_BYTES: usize = 20971520;

/// The bit pattern of 0.00001.
pub const RMS_EPS_BITS: u32 = 0x3727c5ac;

/// Scale of a model.
#[derive(Debug, Clone, Copy, PartialEq, Eq, Structural)]
pub enum Tier {
    /// Two heads.
    Micro,
    /// Four heads.
    Standard,
    /// Eight heads.
    Pro,
    /// Sixteen heads.
    Ultra,
    /// Any number of heads.
    Custom {
        /// Number of heads.
        n_heads: usize,
        /// Hidden dimension of the feed-forward block.
        d_ff: usize,
    },
}

impl Tier {
    /// Number of heads.
    pub open spec fn heads(self) -> usize {
        match self {
            Tier::Micro => 2,
            Tier::Standard => 4,
            Tier::Pro => 8,
            Tier::Ultra => 16,
            Tier::Custom { n_heads, .. } => n_heads,
        }
    }

    /// Hidden dimension of the feed-forward block.
    pub open spec fn hidden(self) -> usize {
        match self {
            Tier::Micro => 12,
            Tier::Standard => 24,
            Tier::Pro => 48,
            Tier::Ultra => 96,
            Tier::Custom { d_ff, .. } => d_ff,
        }
    }

    /// Number of heads.
    pub fn n_heads(&self) -> (count: usize)
        ensures
            count == self.heads(),
    {
        match self {
            Tier::Micro => 2,
            Tier::Standard => 4,
            Tier::Pro => 8,
            Tier::Ultra => 16,
            Tier::Custom { n_heads, .. } => *n_heads,
        }
    }

    /// Hidden dimension of the feed-forward block.
    pub fn d_ff(&self) -> (dim: usize)
        ensures
            dim == self.hidden(),
    {
        match self {
            Tier::Micro => 12,
            Tier::Standard => 24,
            Tier::Pro => 48,
            Tier::Ultra => 96,
            Tier::Custom { d_ff, .. } => *d_ff,
        }
    }
}

/// Sizes of a scaled model.
#[derive(Debug, Clone, Copy, PartialEq, Eq, Structural)]
pub struct ScaledConfig {
    /// Scale.
    pub tier: Tier,
    /// Number of heads.
    pub n_heads: usize,
    /// Dimension of every head.
    pub d_head: usize,
    /// Model dimension.
    pub d_model: usize,
    /// Hidden dimension of the feed-forward block.
    pub d_ff: usize,
    /// Number of layers.
    pub n_layers: usize,
    /// Number of tokens of the vocabulary.
    pub vocab_size: usize,
    /// Number of positions of the cache.
    pub max_seq_len: usize,
    /// What keeps the divisor of the norm from zero, as a bit pattern.
    pub rms_eps: u32,
}

impl ScaledConfig {
    /// The sizes of a tier.
    pub open spec fn of_tier(tier: Tier, vocab_size: usize) -> Self {
        ScaledConfig {
            tier,
            n_heads: tier.heads(),
            d_head: HEAD_DIM,
            d_model: (tier.heads() * HEAD_DIM) as usize,
            d_ff: tier.hidden(),
            n_layers: 1,
            vocab_size,
            max_seq_len: 1024,
            rms_eps: RMS_EPS_BITS,
        }
    }

    /// The sizes of a tier.
    pub fn from_tier(tier: Tier, vocab_size: usize) -> (config: Self)
        requires
            tier.heads() * 4 <= usize::MAX,
        ensures
            config == Self::of_tier(tier, vocab_size),
            !(tier is Custom) ==> sizes::model_total(config) == tier_parameters(tier, vocab_size),
    {
        proof {
            if !(tier is Custom) {
                law_tier_parameters(tier, vocab_size);
            }
        }
        let n_heads: usize = tier.n_heads();
        ScaledConfig {
            tier,
            n_heads,
            d_head: HEAD_DIM,
            d_model: n_heads * HEAD_DIM,
            d_ff: tier.d_ff(),
            n_layers: 1,
            vocab_size,
            max_seq_len: 1024,
            rms_eps: RMS_EPS_BITS,
        }
    }

    /// The number of trainable parameters of either model: embeddings, four attention projections,
    /// three norms, two feed-forward projections and an output projection.
    pub fn param_count(&self) -> (count: usize)
        requires
            sizes::model_total(*self) <= usize::MAX,
        ensures
            count == sizes::model_total(*self),
    {
        let v: usize = self.vocab_size;
        let d: usize = self.d_model;
        let f: usize = self.d_ff;
        proof {
            sizes::lemma_products(*self);
        }
        let embeddings: usize = 2 * (v * d);
        let attention: usize = 4 * (d * d);
        let feed_forward: usize = 2 * (d * f);
        embeddings + attention + feed_forward + 3 * d
    }

    /// The bytes of recurrent state.
    pub open spec fn state_total(self) -> nat {
        self.n_heads as nat * 80 * self.n_layers as nat
    }

    /// The bytes of recurrent state: eighty for each head and layer, however long the sequence.
    pub fn srx_state_bytes(&self) -> (bytes: usize)
        requires
            self.n_heads * 80 <= usize::MAX,
            self.state_total() <= usize::MAX,
        ensures
            bytes == self.state_total(),
    {
        self.n_heads * STATE_BYTES_PER_HEAD * self.n_layers
    }

    /// The bytes of a key-value cache that holds a sequence.
    pub open spec fn cache_total(self, seq_len: nat) -> nat {
        2 * self.n_layers as nat * seq_len * self.d_model as nat * 4
    }

    /// The bytes of a key-value cache that holds a sequence.
    pub fn classic_kv_cache_bytes(&self, seq_len: usize) -> (bytes: usize)
        requires
            2 * self.n_layers <= usize::MAX,
            2 * self.n_layers * seq_len <= usize::MAX,
            2 * self.n_layers * seq_len * self.d_model <= usize::MAX,
            self.cache_total(seq_len as nat) <= usize::MAX,
        ensures
            bytes == self.cache_total(seq_len as nat),
    {
        2 * self.n_layers * seq_len * self.d_model * ELEMENT_BYTES
    }
}

/// Where a memory footprint comes to lie.
#[derive(Debug, Clone, Copy, PartialEq, Eq, Structural)]
pub enum CacheLevel {
    /// First-level data cache.
    L1d,
    /// Second-level cache.
    L2,
    /// Third-level cache.
    L3,
    /// Main memory.
    Dram,
}

impl CacheLevel {
    /// The smallest level that holds a number of bytes.
    pub open spec fn holding(bytes: nat) -> Self {
        if bytes <= L1D_BYTES {
            CacheLevel::L1d
        } else if bytes <= L2_BYTES {
            CacheLevel::L2
        } else if bytes <= L3_BYTES {
            CacheLevel::L3
        } else {
            CacheLevel::Dram
        }
    }

    /// How far the level is from the processor.
    pub open spec fn distance(self) -> nat {
        match self {
            CacheLevel::L1d => 0,
            CacheLevel::L2 => 1,
            CacheLevel::L3 => 2,
            CacheLevel::Dram => 3,
        }
    }

    /// What the level is called.
    pub open spec fn described(self) -> Seq<char> {
        match self {
            CacheLevel::L1d => "L1D Cache (<= 32 KB, Resident)"@,
            CacheLevel::L2 => "L2 Cache (32 KB - 256 KB, Spill)"@,
            CacheLevel::L3 => "L3 Cache (256 KB - 20 MB, Shared Bus)"@,
            CacheLevel::Dram => "DRAM Memory Wall (> 20 MB, Memory Thrashing)"@,
        }
    }
}

/// Computes sizes and footprints.
pub struct ScalingCalculator;

impl ScalingCalculator {
    /// The sizes of a tier.
    pub fn compute_config(tier: Tier, vocab_size: usize) -> (config: ScaledConfig)
        requires
            tier.heads() * 4 <= usize::MAX,
        ensures
            config == ScaledConfig::of_tier(tier, vocab_size),
            !(tier is Custom) ==> sizes::model_total(config) == tier_parameters(tier, vocab_size),
    {
        ScaledConfig::from_tier(tier, vocab_size)
    }

    /// The bytes of recurrent state for a number of heads.
    pub fn srx_state_bytes(n_heads: usize) -> (bytes: usize)
        requires
            n_heads * 80 <= usize::MAX,
        ensures
            bytes == n_heads * 80,
    {
        n_heads * STATE_BYTES_PER_HEAD
    }

    /// The bytes of a key-value cache of one layer.
    pub fn classic_kv_bytes(d_model: usize, seq_len: usize) -> (bytes: usize)
        requires
            2 * seq_len <= usize::MAX,
            2 * seq_len * d_model <= usize::MAX,
            2 * seq_len * d_model * 4 <= usize::MAX,
        ensures
            bytes == 2 * seq_len * d_model * 4,
    {
        2 * seq_len * d_model * ELEMENT_BYTES
    }

    /// Names the cache level that holds a number of bytes.
    pub fn cache_tier(bytes: usize) -> (name: &'static str)
        ensures
            name@ == CacheLevel::holding(bytes as nat).described(),
    {
        if bytes <= L1D_BYTES {
            "L1D Cache (<= 32 KB, Resident)"
        } else if bytes <= L2_BYTES {
            "L2 Cache (32 KB - 256 KB, Spill)"
        } else if bytes <= L3_BYTES {
            "L3 Cache (256 KB - 20 MB, Shared Bus)"
        } else {
            "DRAM Memory Wall (> 20 MB, Memory Thrashing)"
        }
    }
}

/// More bytes never come to lie nearer to the processor.
pub proof fn law_cache_levels_are_monotone(fewer: nat, more: nat)
    requires
        fewer <= more,
    ensures
        CacheLevel::holding(fewer).distance() <= CacheLevel::holding(more).distance(),
{
}

/// The recurrent state of every named tier lies in the first-level cache.
pub proof fn law_named_tiers_stay_in_first_cache(tier: Tier, vocab_size: usize)
    requires
        !(tier is Custom),
    ensures
        CacheLevel::holding(ScaledConfig::of_tier(tier, vocab_size).state_total())
            == CacheLevel::L1d,
{
}

/// The cache grows with the sequence, while the recurrent state does not: with each further
/// position the cache takes as many bytes as with the first.
pub proof fn law_cache_grows_with_sequence(config: ScaledConfig, seq_len: nat)
    ensures
        config.cache_total(seq_len + 1) == config.cache_total(seq_len) + config.cache_total(1),
{
    let layers = 2 * config.n_layers as nat;
    let d = config.d_model as nat;
    assert(layers * (seq_len + 1) * d * 4 == layers * seq_len * d * 4 + layers * 1 * d * 4)
        by (nonlinear_arith);
}

/// The parameters of a named tier, counted out.
pub open spec fn tier_parameters(tier: Tier, vocab_size: usize) -> int
    recommends
        !(tier is Custom),
{
    match tier {
        Tier::Micro => vocab_size * 16 + 472,
        Tier::Standard => vocab_size * 32 + 1840,
        Tier::Pro => vocab_size * 64 + 7264,
        Tier::Ultra => vocab_size * 128 + 28864,
        Tier::Custom { .. } => arbitrary(),
    }
}

/// The parameters of the named tiers.
pub proof fn law_tier_parameters(tier: Tier, vocab_size: usize)
    requires
        !(tier is Custom),
    ensures
        sizes::model_total(ScaledConfig::of_tier(tier, vocab_size)) == tier_parameters(
            tier,
            vocab_size,
        ),
{
    let config = ScaledConfig::of_tier(tier, vocab_size);
    let v = vocab_size as nat;
    let d = config.d_model as nat;
    let f = config.d_ff as nat;
    match tier {
        Tier::Micro => {
            assert(v * d == v * 8 && d * d == 64 && d * f == 96) by (nonlinear_arith)
                requires
                    d == 8,
                    f == 12,
            ;
        },
        Tier::Standard => {
            assert(v * d == v * 16 && d * d == 256 && d * f == 384) by (nonlinear_arith)
                requires
                    d == 16,
                    f == 24,
            ;
        },
        Tier::Pro => {
            assert(v * d == v * 32 && d * d == 1024 && d * f == 1536) by (nonlinear_arith)
                requires
                    d == 32,
                    f == 48,
            ;
        },
        Tier::Ultra => {
            assert(v * d == v * 64 && d * d == 4096 && d * f == 6144) by (nonlinear_arith)
                requires
                    d == 64,
                    f == 96,
            ;
        },
        Tier::Custom { .. } => {},
    }
}

/// Every named tier has twice the heads of the one before and six hidden units for each head; a
/// model is four times as wide as it has heads, of one layer, and has 1024 positions.
pub proof fn law_tiers_double(tier: Tier, vocab_size: usize)
    requires
        tier.heads() * 4 <= usize::MAX,
    ensures
        Tier::Micro.heads() == 2,
        Tier::Standard.heads() == 2 * Tier::Micro.heads(),
        Tier::Pro.heads() == 2 * Tier::Standard.heads(),
        Tier::Ultra.heads() == 2 * Tier::Pro.heads(),
        !(tier is Custom) ==> tier.hidden() == 6 * tier.heads(),
        tier matches Tier::Custom { n_heads, d_ff } ==> tier.heads() == n_heads && tier.hidden()
            == d_ff,
        ({
            let config = ScaledConfig::of_tier(tier, vocab_size);
            &&& config.tier == tier
            &&& config.n_heads == tier.heads()
            &&& config.d_model == 4 * tier.heads()
            &&& config.d_head * config.n_heads == config.d_model
            &&& config.d_ff == tier.hidden()
            &&& config.n_layers == 1
            &&& config.vocab_size == vocab_size
            &&& config.max_seq_len == 1024
        }),
{
    assert(4 * tier.heads() == tier.heads() * 4);
}

/// What memory costs: eight bytes of cache for each layer, position and dimension, for a key and a
/// value of four bytes each; and for each layer and head twenty numbers of four bytes of state,
/// whatever the length of the sequence.
pub proof fn law_memory_is_counted(config: ScaledConfig, seq_len: nat)
    ensures
        config.cache_total(seq_len) == 8 * (config.n_layers * (seq_len * config.d_model)),
        config.state_total() == 4 * (20 * (config.n_heads * config.n_layers)),
{
    let l = config.n_layers as int;
    let n = seq_len as int;
    let d = config.d_model as int;
    let h = config.n_heads as int;
    assert(2 * l * n * d * 4 == 8 * (l * (n * d))) by (nonlinear_arith);
    assert(h * 80 * l == 4 * (20 * (h * l))) by (nonlinear_arith);
}

/// Each level of the cache holds what the one before does not: 32 kilobytes, 256 kilobytes, 20
/// megabytes, and what is more.
pub proof fn law_levels_hold_their_sizes(bytes: nat)
    ensures
        CacheLevel::holding(bytes) == CacheLevel::L1d <==> bytes <= 32 * 1024,
        CacheLevel::holding(bytes) == CacheLevel::L2 <==> 32 * 1024 < bytes <= 256 * 1024,
        CacheLevel::holding(bytes) == CacheLevel::L3 <==> 256 * 1024 < bytes <= 20 * 1024 * 1024,
        CacheLevel::holding(bytes) == CacheLevel::Dram <==> 20 * 1024 * 1024 < bytes,
{
}

} // verus!
