//! Random initialisation: which draw of the generator goes to which weight.

use vstd::prelude::*;

use crate::classic::cache;
use crate::classic::config::{NormType, PosEncodingType, TransformerConfig};
use crate::classic::model::{Transformer, TransformerLayer};
use crate::classic::model;
use crate::classic::normal::draw_normal_pair;
use crate::classic::normal;
use crate::classic::rng::FastRng;
use crate::classic::rng;

verus! {

/// How widely a normally distributed weight is spread.
#[derive(Debug, Clone, Copy, PartialEq, Eq, Structural)]
pub enum Spread {
    /// By one over the root of the model dimension.
    Model,
    /// By the root of two over the sum of the model dimension and the hidden one.
    Hidden,
}

/// What a weight is made from.
#[derive(Debug, Clone, Copy, PartialEq, Eq, Structural)]
pub enum Draw {
    /// Zero.
    Zero,
    /// One.
    One,
    /// One over the root of a head's dimension.
    Scale(usize),
    /// A component of the sinusoidal vector of a position.
    Sinusoid {
        /// The position.
        pos: usize,
        /// The component.
        component: usize,
    },
    /// A normally distributed number, from two uniform ones.
    Normal {
        /// The first, as a numerator over 2 to the 24th.
        first: u32,
        /// The second.
        second: u32,
        /// How widely it is spread.
        spread: Spread,
    },
}

/// The counter after a number of normally distributed weights.
pub open spec fn after_normals(state: u64, n: nat) -> u64
    decreases n,
{
    if n == 0 {
        state
    } else {
        normal::normal_pair(after_normals(state, (n - 1) as nat)).2
    }
}

/// Normally distributed weights, drawn one after the other.
pub open spec fn normals(state: u64, n: nat, spread: Spread) -> Seq<Draw> {
    Seq::new(
        n,
        |i: int|
            {
                let (first, second, _) = normal::normal_pair(after_normals(state, i as nat));
                Draw::Normal { first, second, spread }
            },
    )
}

/// Draws normally distributed weights.
pub fn draw_normals(rng: &mut FastRng, n: usize, spread: Spread) -> (drawn: Vec<Draw>)
    ensures
        drawn@ == normals(old(rng)@, n as nat, spread),
        final(rng)@ == after_normals(old(rng)@, n as nat),
{
    let ghost start = rng@;
    let mut drawn: Vec<Draw> = Vec::new();
    for i in 0..n
        invariant
            drawn@ == normals(start, i as nat, spread),
            rng@ == after_normals(start, i as nat),
    {
        let (first, second): (u32, u32) = draw_normal_pair(rng);
        drawn.push(Draw::Normal { first, second, spread });
        assert(drawn@ =~= normals(start, (i + 1) as nat, spread));
    }
    drawn
}

/// The weights of one projection.
pub open spec fn square_total(config: TransformerConfig) -> nat {
    config.d_model as nat * config.d_model as nat
}

/// The weights of one feed-forward matrix.
pub open spec fn hidden_total(config: TransformerConfig) -> nat {
    config.d_ff as nat * config.d_model as nat
}

/// The counter after the first `k` projections of a layer.
pub open spec fn after_projections(config: TransformerConfig, state: u64, k: nat) -> u64
    decreases k,
{
    if k == 0 {
        state
    } else {
        after_normals(
            after_projections(config, state, (k - 1) as nat),
            square_total(config),
        )
    }
}

/// The counter after a layer: four projections and two feed-forward matrices.
pub open spec fn after_layer(config: TransformerConfig, state: u64) -> u64 {
    after_normals(
        after_normals(after_projections(config, state, 4), hidden_total(config)),
        hidden_total(config),
    )
}

/// The counter after a number of layers.
pub open spec fn after_layers(config: TransformerConfig, state: u64, n: nat) -> u64
    decreases n,
{
    if n == 0 {
        state
    } else {
        after_layer(config, after_layers(config, state, (n - 1) as nat))
    }
}

/// Everything in a layer but its matrices: unit norms, zero biases, and the dimensions of the
/// configuration.
pub open spec fn plain_frame(layer: TransformerLayer<Draw>, config: TransformerConfig) -> bool {
    let d = config.d_model as int;
    &&& cache::blank(layer.attn_norm_gamma, d, Draw::One)
    &&& model::opt_blank(layer.attn_norm_beta, model::biased_norms(config), d, Draw::Zero)
    &&& model::opt_blank(layer.attn.b_q, config.use_bias, d, Draw::Zero)
    &&& model::opt_blank(layer.attn.b_k, config.use_bias, d, Draw::Zero)
    &&& model::opt_blank(layer.attn.b_v, config.use_bias, d, Draw::Zero)
    &&& model::opt_blank(layer.attn.b_o, config.use_bias, d, Draw::Zero)
    &&& cache::blank(layer.ffn_norm_gamma, d, Draw::One)
    &&& model::opt_blank(layer.ffn_norm_beta, model::biased_norms(config), d, Draw::Zero)
    &&& model::opt_blank(layer.mlp.b_1, config.use_bias, config.d_ff as int, Draw::Zero)
    &&& model::opt_blank(layer.mlp.b_2, config.use_bias, d, Draw::Zero)
    &&& layer.attn.d_model == config.d_model
    &&& layer.attn.n_heads == config.n_heads
    &&& layer.attn.head_dim == config.d_model / config.n_heads
    &&& layer.attn.scale == Draw::Scale(config.d_model / config.n_heads)
    &&& layer.mlp.activation == config.activation
    &&& layer.mlp.d_model == config.d_model
    &&& layer.mlp.d_ff == config.d_ff
    &&& layer.norm_type == config.norm_type
    &&& layer.eps_bits == config.eps_bits
    &&& layer.d_model == config.d_model
}

/// A layer drawn from a counter on: queries, keys, values, output, and the two feed-forward
/// matrices, in this order.
#[verifier::opaque]
pub open spec fn seeded_layer(
    layer: TransformerLayer<Draw>,
    config: TransformerConfig,
    state: u64,
) -> bool {
    let square = square_total(config);
    let hidden = hidden_total(config);
    let s4 = after_projections(config, state, 4);
    &&& plain_frame(layer, config)
    &&& layer.attn.w_q@ == normals(state, square, Spread::Model)
    &&& layer.attn.w_k@ == normals(after_projections(config, state, 1), square, Spread::Model)
    &&& layer.attn.w_v@ == normals(after_projections(config, state, 2), square, Spread::Model)
    &&& layer.attn.w_o@ == normals(after_projections(config, state, 3), square, Spread::Model)
    &&& layer.mlp.w_1@ == normals(s4, hidden, Spread::Hidden)
    &&& layer.mlp.w_2@ == normals(after_normals(s4, hidden), hidden, Spread::Hidden)
}

/// A drawn layer has the shape of its configuration.
proof fn lemma_seeded_layer_is_shaped(
    layer: TransformerLayer<Draw>,
    config: TransformerConfig,
    state: u64,
)
    requires
        seeded_layer(layer, config, state),
    ensures
        layer.shaped(config),
{
    reveal(seeded_layer);
    assert(config.d_ff * config.d_model == config.d_model * config.d_ff) by (nonlinear_arith);
}

impl TransformerLayer<Draw> {
    /// Draws the weights of a layer.
    pub fn seeded(config: &TransformerConfig, rng: &mut FastRng) -> (layer: Self)
        requires
            config.layer_total() <= usize::MAX,
            config.n_heads > 0,
        ensures
            seeded_layer(layer, *config, old(rng)@),
            final(rng)@ == after_layer(*config, old(rng)@),
    {
        let ghost state = rng@;
        let d: usize = config.d_model;
        assert(0 <= d * d) by (nonlinear_arith);
        assert(0 <= config.d_ff * d && config.d_ff * d == d * config.d_ff) by (nonlinear_arith);
        let square: usize = d * d;
        let hidden: usize = config.d_ff * d;
        let mut layer: TransformerLayer<Draw> = TransformerLayer::new(
            config,
            Draw::Zero,
            Draw::One,
            Draw::Scale(config.head_dim()),
        );
        proof {
            reveal_with_fuel(after_projections, 5);
            reveal(seeded_layer);
        }
        layer.attn.w_q = draw_normals(rng, square, Spread::Model);
        layer.attn.w_k = draw_normals(rng, square, Spread::Model);
        layer.attn.w_v = draw_normals(rng, square, Spread::Model);
        layer.attn.w_o = draw_normals(rng, square, Spread::Model);
        assert(rng@ == after_projections(*config, state, 4));
        layer.mlp.w_1 = draw_normals(rng, hidden, Spread::Hidden);
        layer.mlp.w_2 = draw_normals(rng, hidden, Spread::Hidden);
        layer
    }
}

/// The sinusoidal table: the components of each position's vector, one position behind the other.
pub open spec fn sinusoids(config: TransformerConfig) -> Seq<Draw> {
    Seq::new(
        (config.max_seq_len * config.d_model) as nat,
        |i: int|
            Draw::Sinusoid {
                pos: (i / config.d_model as int) as usize,
                component: (i % config.d_model as int) as usize,
            },
    )
}

fn sinusoid_table(config: &TransformerConfig) -> (table: Vec<Draw>)
    requires
        config.d_model > 0,
        config.max_seq_len * config.d_model <= usize::MAX,
    ensures
        table@ == sinusoids(*config),
{
    let n: usize = config.max_seq_len * config.d_model;
    let mut table: Vec<Draw> = Vec::new();
    for i in 0..n
        invariant
            config.d_model > 0,
            n == config.max_seq_len * config.d_model,
            table@ == sinusoids(*config).take(i as int),
    {
        table.push(Draw::Sinusoid { pos: i / config.d_model, component: i % config.d_model });
        assert(table@ =~= sinusoids(*config).take(i + 1));
    }
    assert(table@ =~= sinusoids(*config));
    table
}

/// The counter after the embeddings.
pub open spec fn after_embeddings(config: TransformerConfig, state: u64) -> u64 {
    let tokens = after_normals(state, config.embedding_total());
    if config.pos_encoding == PosEncodingType::Learned {
        after_normals(tokens, config.max_seq_len as nat * config.d_model as nat)
    } else {
        tokens
    }
}

/// A model drawn from a seed: token embeddings, learned positions, the layers, and an output head
/// of its own, in this order; everything else is plain.
pub open spec fn seeded_model(
    made: Transformer<Draw>,
    config: TransformerConfig,
    seed: u64,
) -> bool {
    let start = rng::seeded(seed);
    let d = config.d_model as int;
    let layers = after_embeddings(config, start);
    &&& made.config == config
    &&& made.token_embeddings@ == normals(start, config.embedding_total(), Spread::Model)
    &&& match made.pos_embeddings {
        Some(table) => {
            &&& config.pos_encoding == PosEncodingType::Learned
            &&& table@ == normals(
                after_normals(start, config.embedding_total()),
                config.max_seq_len as nat * config.d_model as nat,
                Spread::Model,
            )
        },
        None => config.pos_encoding != PosEncodingType::Learned,
    }
    &&& match made.sinusoidal_table {
        Some(table) => config.pos_encoding == PosEncodingType::Sinusoidal && table@ == sinusoids(
            config,
        ),
        None => config.pos_encoding != PosEncodingType::Sinusoidal,
    }
    &&& made.layers@.len() == config.n_layers
    &&& forall|i: int|
        0 <= i < made.layers@.len() ==> seeded_layer(
            #[trigger] made.layers@[i],
            config,
            after_layers(config, layers, i as nat),
        )
    &&& cache::blank(made.final_norm_gamma, d, Draw::One)
    &&& model::opt_blank(made.final_norm_beta, model::biased_norms(config), d, Draw::Zero)
    &&& match made.lm_head {
        Some(head) => {
            &&& !config.tie_word_embeddings
            &&& head@ == normals(
                after_layers(config, layers, config.n_layers as nat),
                config.embedding_total(),
                Spread::Model,
            )
        },
        None => config.tie_word_embeddings,
    }
    &&& model::opt_blank(
        made.lm_head_bias,
        config.use_bias && !config.tie_word_embeddings,
        config.vocab_size as int,
        Draw::Zero,
    )
}

/// The seed of a model that is made without naming one.
pub const DEFAULT_SEED: u64 = 42;

impl Transformer<Draw> {
    /// Draws the weights of a model from the default seed.
    pub fn new(config: TransformerConfig) -> (made: Result<Self, String>)
        requires
            config.countable(),
            config.max_seq_len * config.d_model <= usize::MAX,
        ensures
            match (made, config.fault()) {
                (Ok(drawn), None) => {
                    &&& seeded_model(drawn, config, DEFAULT_SEED)
                    &&& drawn.shaped()
                },
                (Err(message), Some(fault)) => message@ == config.fault_message(fault),
                _ => false,
            },
    {
        Self::new_with_seed(config, DEFAULT_SEED)
    }

    /// Draws the weights of a model from a seed. The error names the first fault of the
    /// configuration.
    #[verifier::rlimit(40)]
    pub fn new_with_seed(config: TransformerConfig, seed: u64) -> (made: Result<Self, String>)
        requires
            config.countable(),
            config.max_seq_len * config.d_model <= usize::MAX,
        ensures
            match (made, config.fault()) {
                (Ok(drawn), None) => {
                    &&& seeded_model(drawn, config, seed)
                    &&& drawn.shaped()
                },
                (Err(message), Some(fault)) => message@ == config.fault_message(fault),
                _ => false,
            },
    {
        match config.validate() {
            Err(message) => {
                return Err(message);
            },
            Ok(()) => {},
        }
        assert(0 <= config.n_layers * config.layer_total()) by (nonlinear_arith);
        assert(0 <= config.vocab_size * config.d_model) by (nonlinear_arith);
        assert(0 <= config.max_seq_len * config.d_model) by (nonlinear_arith);
        let embedding: usize = config.vocab_size * config.d_model;
        let positions: usize = config.max_seq_len * config.d_model;
        let mut rng: FastRng = FastRng::new(seed);
        let ghost start = rng@;
        let token_embeddings: Vec<Draw> = draw_normals(&mut rng, embedding, Spread::Model);
        let learned: bool = config.pos_encoding == PosEncodingType::Learned;
        let pos_embeddings: Option<Vec<Draw>> = if learned {
            Some(draw_normals(&mut rng, positions, Spread::Model))
        } else {
            None
        };
        let ghost reached = rng@;
        assert(reached == after_embeddings(config, start));
        let mut layers: Vec<TransformerLayer<Draw>> = Vec::new();
        for i in 0..config.n_layers
            invariant
                config.layer_total() <= usize::MAX,
                config.n_heads > 0,
                rng@ == after_layers(config, reached, i as nat),
                layers@.len() == i,
                forall|j: int|
                    0 <= j < i ==> seeded_layer(
                        #[trigger] layers@[j],
                        config,
                        after_layers(config, reached, j as nat),
                    ),
        {
            layers.push(TransformerLayer::seeded(&config, &mut rng));
        }
        let lm_head: Option<Vec<Draw>> = if !config.tie_word_embeddings {
            Some(draw_normals(&mut rng, embedding, Spread::Model))
        } else {
            None
        };
        let sinusoidal_table: Option<Vec<Draw>> = if learned {
            None
        } else {
            Some(sinusoid_table(&config))
        };
        let norms: bool = config.norm_type == NormType::LayerNorm && config.use_bias;
        let made: Transformer<Draw> = Transformer {
            token_embeddings,
            pos_embeddings,
            sinusoidal_table,
            layers,
            final_norm_gamma: cache::filled(Draw::One, config.d_model),
            final_norm_beta: model::opt_buffer(Draw::Zero, norms, config.d_model),
            lm_head,
            lm_head_bias: model::opt_buffer(
                Draw::Zero,
                config.use_bias && !config.tie_word_embeddings,
                config.vocab_size,
            ),
            config,
        };
        proof {
            assert forall|i: int| 0 <= i < made.layers@.len() implies (
            #[trigger] made.layers@[i]).shaped(config) by {
                lemma_seeded_layer_is_shaped(
                    made.layers@[i],
                    config,
                    after_layers(config, reached, i as nat),
                );
            }
        }
        Ok(made)
    }
}

/// Two buffers of one element are the same.
proof fn lemma_same_blank<T>(
    first: Option<Vec<T>>,
    second: Option<Vec<T>>,
    present: bool,
    n: int,
    element: T,
)
    requires
        model::opt_blank(first, present, n, element),
        model::opt_blank(second, present, n, element),
    ensures
        model::opt_view(first) == model::opt_view(second),
        model::same_opt_len(first, second),
{
    assert(model::opt_view(first) =~= model::opt_view(second));
}

/// A seed determines every weight of a layer.
proof fn lemma_seed_determines_layer(
    first: TransformerLayer<Draw>,
    second: TransformerLayer<Draw>,
    config: TransformerConfig,
    state: u64,
)
    requires
        seeded_layer(first, config, state),
        seeded_layer(second, config, state),
    ensures
        first.same_weights(second),
{
    reveal(seeded_layer);
    let d = config.d_model as int;
    assert(first.attn_norm_gamma@ =~= second.attn_norm_gamma@);
    assert(first.ffn_norm_gamma@ =~= second.ffn_norm_gamma@);
    lemma_same_blank(
        first.attn_norm_beta,
        second.attn_norm_beta,
        model::biased_norms(config),
        d,
        Draw::Zero,
    );
    lemma_same_blank(
        first.ffn_norm_beta,
        second.ffn_norm_beta,
        model::biased_norms(config),
        d,
        Draw::Zero,
    );
    lemma_same_blank(first.attn.b_q, second.attn.b_q, config.use_bias, d, Draw::Zero);
    lemma_same_blank(first.attn.b_k, second.attn.b_k, config.use_bias, d, Draw::Zero);
    lemma_same_blank(first.attn.b_v, second.attn.b_v, config.use_bias, d, Draw::Zero);
    lemma_same_blank(first.attn.b_o, second.attn.b_o, config.use_bias, d, Draw::Zero);
    lemma_same_blank(first.mlp.b_1, second.mlp.b_1, config.use_bias, config.d_ff as int, Draw::Zero);
    lemma_same_blank(first.mlp.b_2, second.mlp.b_2, config.use_bias, d, Draw::Zero);
}

/// A seed determines every weight of a model.
pub proof fn law_seed_determines_model(
    first: Transformer<Draw>,
    second: Transformer<Draw>,
    config: TransformerConfig,
    seed: u64,
)
    requires
        seeded_model(first, config, seed),
        seeded_model(second, config, seed),
    ensures
        first.same_weights(second),
{
    let d = config.d_model as int;
    let layers = after_embeddings(config, rng::seeded(seed));
    assert forall|i: int| 0 <= i < first.layers@.len() implies (
    #[trigger] first.layers@[i]).same_weights(second.layers@[i]) by {
        let state = after_layers(config, layers, i as nat);
        assert(seeded_layer(second.layers@[i], config, state));
        lemma_seed_determines_layer(first.layers@[i], second.layers@[i], config, state);
    }
    assert(first.final_norm_gamma@ =~= second.final_norm_gamma@);
    lemma_same_blank(
        first.final_norm_beta,
        second.final_norm_beta,
        model::biased_norms(config),
        d,
        Draw::Zero,
    );
    lemma_same_blank(
        first.lm_head_bias,
        second.lm_head_bias,
        config.use_bias && !config.tie_word_embeddings,
        config.vocab_size as int,
        Draw::Zero,
    );
}

} // verus!
