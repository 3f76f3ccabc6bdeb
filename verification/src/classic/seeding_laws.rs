//! Which weights of a seeded model are drawn, in which order, and from which numbers.

use vstd::prelude::*;

use crate::classic::config::{NormType, PosEncodingType, TransformerConfig};
use crate::classic::model::{Transformer, TransformerLayer};
use crate::classic::normal;
use crate::classic::rng;
use crate::classic::seeding::{Draw, Spread};
use crate::classic::seeding;

verus! {

/// The counter `steps` draws behind another.
pub open spec fn counter_at(state: u64, steps: nat) -> u64 {
    ((state + steps * 0x9e3779b97f4a7c15) % 0x1_0000_0000_0000_0000) as u64
}

/// The upper 24 bits of the number that a counter gives.
pub open spec fn fraction_at(state: u64, steps: nat) -> u64 {
    rng::splitmix_output(counter_at(state, steps)) >> 40
}

proof fn lemma_counter_step(state: u64, steps: nat)
    ensures
        rng::splitmix_advance(counter_at(state, steps)) == counter_at(state, steps + 1),
        counter_at(state, 0) == state,
        counter_at(counter_at(state, 1), steps) == counter_at(state, steps + 1),
{
    let size: int = 0x1_0000_0000_0000_0000;
    let gamma: int = 0x9e3779b97f4a7c15;
    let x = state + steps * gamma;
    assert(state + (steps + 1) * gamma == x + gamma) by (nonlinear_arith)
        requires
            x == state + steps * gamma,
    ;
    vstd::arithmetic::div_mod::lemma_add_mod_noop(x, gamma, size);
    vstd::arithmetic::div_mod::lemma_small_mod(gamma as nat, size as nat);
    vstd::arithmetic::div_mod::lemma_small_mod(state as nat, size as nat);
    let y = steps * gamma;
    vstd::arithmetic::div_mod::lemma_add_mod_noop(state + gamma, y, size);
    vstd::arithmetic::div_mod::lemma_mod_twice(state + gamma, size);
    vstd::arithmetic::div_mod::lemma_add_mod_noop((state + gamma) % size, y, size);
    assert(1 * gamma == gamma);
    assert(0 * gamma == 0);
}

/// The pair behind a normal number: the first fraction from a counter on that exceeds one
/// ten-millionth, which is one of more than one part in 2 to the 24th, and the fraction that
/// follows it; the generator stands behind both.
pub proof fn law_pair_is_the_first_usable(state: u64)
    ensures
        exists|m: nat|
            {
                &&& m >= 1
                &&& #[trigger] fraction_at(state, m) > 1
                &&& forall|j: nat| 1 <= j < m ==> #[trigger] fraction_at(state, j) <= 1
                &&& normal::normal_pair(state).0 == fraction_at(state, m)
                &&& normal::normal_pair(state).1 == fraction_at(state, m + 1)
                &&& normal::normal_pair(state).2 == counter_at(state, m + 1)
            },
    decreases normal::steps_to_anchor(state),
{
    let next = rng::splitmix_advance(state);
    lemma_counter_step(state, 0);
    assert(next == counter_at(state, 1));
    let drawn = rng::splitmix_output(next);
    assert(drawn >> 40 < 0x100_0000) by (bit_vector);
    if normal::usable(normal::mantissa_at(next)) {
        lemma_counter_step(state, 1);
        let behind = rng::splitmix_output(counter_at(state, 2));
        assert(behind >> 40 < 0x100_0000) by (bit_vector);
        assert(fraction_at(state, 1) > 1);
    } else {
        normal::lemma_step_approaches_anchor(state);
        normal::lemma_anchor_is_usable();
        law_pair_is_the_first_usable(next);
        let m = choose|m: nat|
            {
                &&& m >= 1
                &&& #[trigger] fraction_at(next, m) > 1
                &&& forall|j: nat| 1 <= j < m ==> #[trigger] fraction_at(next, j) <= 1
                &&& normal::normal_pair(next).0 == fraction_at(next, m)
                &&& normal::normal_pair(next).1 == fraction_at(next, m + 1)
                &&& normal::normal_pair(next).2 == counter_at(next, m + 1)
            };
        lemma_counter_step(state, m);
        lemma_counter_step(state, m + 1);
        assert(fraction_at(state, m + 1) == fraction_at(next, m));
        assert(fraction_at(state, m + 2) == fraction_at(next, m + 1));
        assert forall|j: nat| 1 <= j < m + 1 implies #[trigger] fraction_at(state, j) <= 1 by {
            if j > 1 {
                let i = (j - 1) as nat;
                lemma_counter_step(state, i);
                assert(fraction_at(next, i) <= 1);
            }
        }
        assert(normal::normal_pair(state) == normal::normal_pair(next));
    }
}

/// All draws of a list are normal and of one spread.
pub open spec fn all_normal(weights: Seq<Draw>, wanted: Spread) -> bool {
    forall|i: int|
        0 <= i < weights.len() ==> {
            &&& #[trigger] weights[i] is Normal
            &&& weights[i]->spread == wanted
        }
}

/// All draws of a list are the same.
pub open spec fn all_are(weights: Seq<Draw>, n: int, wanted: Draw) -> bool {
    weights.len() == n && forall|i: int| 0 <= i < n ==> #[trigger] weights[i] == wanted
}

/// A bias is there exactly where it is wanted, and then zero.
pub open spec fn zero_bias(bias: Option<Vec<Draw>>, wanted: bool, n: int) -> bool {
    match bias {
        Some(values) => wanted && all_are(values@, n, Draw::Zero),
        None => !wanted,
    }
}

/// What is drawn for a layer: queries, keys, values, output, and both feed-forward matrices.
pub open spec fn layer_draws(layer: TransformerLayer<Draw>) -> Seq<Draw> {
    layer.attn.w_q@ + layer.attn.w_k@ + layer.attn.w_v@ + layer.attn.w_o@ + layer.mlp.w_1@
        + layer.mlp.w_2@
}

/// What is drawn for some layers, one behind the other.
pub open spec fn layers_draws(layers: Seq<TransformerLayer<Draw>>) -> Seq<Draw>
    decreases layers.len(),
{
    if layers.len() == 0 {
        Seq::empty()
    } else {
        layers_draws(layers.drop_last()) + layer_draws(layers.last())
    }
}

/// The weights of an optional table.
pub open spec fn table_draws(table: Option<Vec<Draw>>) -> Seq<Draw> {
    match table {
        Some(values) => values@,
        None => Seq::empty(),
    }
}

/// Everything that is drawn for a model: token embeddings, learned positions, the layers, and an
/// output head of its own.
pub open spec fn model_draws(made: Transformer<Draw>) -> Seq<Draw> {
    made.token_embeddings@ + table_draws(made.pos_embeddings) + layers_draws(made.layers@)
        + table_draws(made.lm_head)
}

/// In a model made from a seed every matrix has its full size and holds normal draws only, those
/// of the feed-forward matrices spread by the hidden dimension and all others by that of the
/// model.
pub proof fn law_seeded_matrices_are_normal(
    made: Transformer<Draw>,
    config: TransformerConfig,
    seed: u64,
)
    requires
        seeding::seeded_model(made, config, seed),
    ensures
        made.token_embeddings@.len() == config.vocab_size * config.d_model,
        all_normal(made.token_embeddings@, Spread::Model),
        config.pos_encoding == PosEncodingType::Learned <==> made.pos_embeddings is Some,
        made.pos_embeddings matches Some(table) ==> {
            &&& table@.len() == config.max_seq_len * config.d_model
            &&& all_normal(table@, Spread::Model)
        },
        config.tie_word_embeddings <==> made.lm_head is None,
        made.lm_head matches Some(head) ==> {
            &&& head@.len() == config.vocab_size * config.d_model
            &&& all_normal(head@, Spread::Model)
        },
        made.layers@.len() == config.n_layers,
        forall|i: int|
            0 <= i < made.layers@.len() ==> {
                let layer = #[trigger] made.layers@[i];
                &&& layer.attn.w_q@.len() == config.d_model * config.d_model
                &&& layer.attn.w_k@.len() == config.d_model * config.d_model
                &&& layer.attn.w_v@.len() == config.d_model * config.d_model
                &&& layer.attn.w_o@.len() == config.d_model * config.d_model
                &&& layer.mlp.w_1@.len() == config.d_ff * config.d_model
                &&& layer.mlp.w_2@.len() == config.d_ff * config.d_model
                &&& all_normal(layer.attn.w_q@, Spread::Model)
                &&& all_normal(layer.attn.w_k@, Spread::Model)
                &&& all_normal(layer.attn.w_v@, Spread::Model)
                &&& all_normal(layer.attn.w_o@, Spread::Model)
                &&& all_normal(layer.mlp.w_1@, Spread::Hidden)
                &&& all_normal(layer.mlp.w_2@, Spread::Hidden)
            },
{
    reveal(seeding::seeded_layer);
    let start = seeding::after_embeddings(config, rng::seeded(seed));
    assert forall|i: int| 0 <= i < made.layers@.len() implies {
        let layer = #[trigger] made.layers@[i];
        &&& layer.attn.w_q@.len() == config.d_model * config.d_model
        &&& layer.attn.w_k@.len() == config.d_model * config.d_model
        &&& layer.attn.w_v@.len() == config.d_model * config.d_model
        &&& layer.attn.w_o@.len() == config.d_model * config.d_model
        &&& layer.mlp.w_1@.len() == config.d_ff * config.d_model
        &&& layer.mlp.w_2@.len() == config.d_ff * config.d_model
        &&& all_normal(layer.attn.w_q@, Spread::Model)
        &&& all_normal(layer.attn.w_k@, Spread::Model)
        &&& all_normal(layer.attn.w_v@, Spread::Model)
        &&& all_normal(layer.attn.w_o@, Spread::Model)
        &&& all_normal(layer.mlp.w_1@, Spread::Hidden)
        &&& all_normal(layer.mlp.w_2@, Spread::Hidden)
    } by {
        assert(seeding::seeded_layer(
            made.layers@[i],
            config,
            seeding::after_layers(config, start, i as nat),
        ));
    }
}

/// In a model made from a seed every norm is one, every bias zero, every layer of the sizes that
/// the configuration gives, and the positional table, where positions are not learned, holds the
/// components of each position one behind the other.
pub proof fn law_seeded_frame_is_plain(
    made: Transformer<Draw>,
    config: TransformerConfig,
    seed: u64,
    pos: nat,
    component: nat,
)
    requires
        seeding::seeded_model(made, config, seed),
        pos < config.max_seq_len,
        component < config.d_model,
    ensures
        made.config == config,
        all_are(made.final_norm_gamma@, config.d_model as int, Draw::One),
        zero_bias(
            made.final_norm_beta,
            config.norm_type == NormType::LayerNorm && config.use_bias,
            config.d_model as int,
        ),
        zero_bias(
            made.lm_head_bias,
            config.use_bias && !config.tie_word_embeddings,
            config.vocab_size as int,
        ),
        config.pos_encoding == PosEncodingType::Sinusoidal <==> made.sinusoidal_table is Some,
        made.sinusoidal_table matches Some(table) ==> {
            &&& table@.len() == config.max_seq_len * config.d_model
            &&& table@[pos * config.d_model + component] == (Draw::Sinusoid {
                pos: pos as usize,
                component: component as usize,
            })
        },
        forall|i: int|
            0 <= i < made.layers@.len() ==> {
                let layer = #[trigger] made.layers@[i];
                let d = config.d_model as int;
                let norms = config.norm_type == NormType::LayerNorm && config.use_bias;
                &&& all_are(layer.attn_norm_gamma@, d, Draw::One)
                &&& all_are(layer.ffn_norm_gamma@, d, Draw::One)
                &&& zero_bias(layer.attn_norm_beta, norms, d)
                &&& zero_bias(layer.ffn_norm_beta, norms, d)
                &&& zero_bias(layer.attn.b_q, config.use_bias, d)
                &&& zero_bias(layer.attn.b_k, config.use_bias, d)
                &&& zero_bias(layer.attn.b_v, config.use_bias, d)
                &&& zero_bias(layer.attn.b_o, config.use_bias, d)
                &&& zero_bias(layer.mlp.b_1, config.use_bias, config.d_ff as int)
                &&& zero_bias(layer.mlp.b_2, config.use_bias, d)
                &&& layer.attn.n_heads == config.n_heads
                &&& layer.attn.head_dim == config.d_model / config.n_heads
                &&& layer.attn.scale == Draw::Scale(config.d_model / config.n_heads)
                &&& layer.attn.d_model == config.d_model
                &&& layer.mlp.d_model == config.d_model
                &&& layer.mlp.d_ff == config.d_ff
                &&& layer.mlp.activation == config.activation
                &&& layer.norm_type == config.norm_type
                &&& layer.eps_bits == config.eps_bits
                &&& layer.d_model == config.d_model
            },
{
    reveal(seeding::seeded_layer);
    let start = seeding::after_embeddings(config, rng::seeded(seed));
    let d = config.d_model as int;
    vstd::arithmetic::div_mod::lemma_fundamental_div_mod_converse(
        pos * d + component,
        d,
        pos as int,
        component as int,
    );
    assert(0 <= pos * d + component < config.max_seq_len * d) by (nonlinear_arith)
        requires
            0 <= pos < config.max_seq_len,
            0 <= component < d,
    ;
    assert forall|i: int| 0 <= i < made.layers@.len() implies seeding::plain_frame(
        #[trigger] made.layers@[i],
        config,
    ) by {
        assert(seeding::seeded_layer(
            made.layers@[i],
            config,
            seeding::after_layers(config, start, i as nat),
        ));
    }
}

/// A list of draws is what the generator gives from a counter on, pair by pair.
pub open spec fn drawn_from(weights: Seq<Draw>, states: Seq<u64>) -> bool {
    &&& states.len() == weights.len() + 1
    &&& forall|i: int|
        0 <= i < weights.len() ==> {
            &&& #[trigger] weights[i] is Normal
            &&& weights[i]->first == normal::normal_pair(states[i]).0
            &&& weights[i]->second == normal::normal_pair(states[i]).1
            &&& states[i + 1] == normal::normal_pair(states[i]).2
        }
}

proof fn lemma_normals_drawn(state: u64, n: nat, spread: Spread) -> (states: Seq<u64>)
    ensures
        drawn_from(seeding::normals(state, n, spread), states),
        states[0] == state,
        states.last() == seeding::after_normals(state, n),
{
    let states = Seq::new((n + 1) as nat, |i: int| seeding::after_normals(state, i as nat));
    let weights = seeding::normals(state, n, spread);
    assert forall|i: int| 0 <= i < weights.len() implies {
        &&& #[trigger] weights[i] is Normal
        &&& weights[i]->first == normal::normal_pair(states[i]).0
        &&& weights[i]->second == normal::normal_pair(states[i]).1
        &&& states[i + 1] == normal::normal_pair(states[i]).2
    } by {
        assert((i + 1) as nat - 1 == i as nat);
    }
    states
}

proof fn lemma_drawn_append(
    first: Seq<Draw>,
    states: Seq<u64>,
    second: Seq<Draw>,
    more: Seq<u64>,
) -> (all: Seq<u64>)
    requires
        drawn_from(first, states),
        drawn_from(second, more),
        states.last() == more[0],
    ensures
        drawn_from(first + second, all),
        all[0] == states[0],
        all.last() == more.last(),
{
    let all = states + more.skip(1);
    let weights = first + second;
    let n = first.len() as int;
    assert forall|i: int| 0 <= i < weights.len() implies {
        &&& #[trigger] weights[i] is Normal
        &&& weights[i]->first == normal::normal_pair(all[i]).0
        &&& weights[i]->second == normal::normal_pair(all[i]).1
        &&& all[i + 1] == normal::normal_pair(all[i]).2
    } by {
        if i < n {
            assert(weights[i] == first[i]);
            assert(all[i] == states[i] && all[i + 1] == states[i + 1]);
        } else {
            assert(weights[i] == second[i - n]);
            assert(all[i] == more[i - n]) by {
                if i > n {
                    assert(all[i] == more.skip(1)[i - n - 1]);
                }
            }
            assert(all[i + 1] == more.skip(1)[i - n]);
        }
    }
    all
}

proof fn lemma_layer_drawn(layer: TransformerLayer<Draw>, config: TransformerConfig, state: u64) -> (
    states: Seq<u64>)
    requires
        seeding::seeded_layer(layer, config, state),
    ensures
        drawn_from(layer_draws(layer), states),
        states[0] == state,
        states.last() == seeding::after_layer(config, state),
{
    reveal(seeding::seeded_layer);
    reveal_with_fuel(seeding::after_projections, 5);
    let square = seeding::square_total(config);
    let hidden = seeding::hidden_total(config);
    let s1 = seeding::after_projections(config, state, 1);
    let s2 = seeding::after_projections(config, state, 2);
    let s3 = seeding::after_projections(config, state, 3);
    let s4 = seeding::after_projections(config, state, 4);
    let a = lemma_normals_drawn(state, square, Spread::Model);
    let b = lemma_normals_drawn(s1, square, Spread::Model);
    let c = lemma_normals_drawn(s2, square, Spread::Model);
    let d = lemma_normals_drawn(s3, square, Spread::Model);
    let e = lemma_normals_drawn(s4, hidden, Spread::Hidden);
    let f = lemma_normals_drawn(seeding::after_normals(s4, hidden), hidden, Spread::Hidden);
    let q = layer.attn.w_q@;
    let qk = q + layer.attn.w_k@;
    let qkv = qk + layer.attn.w_v@;
    let all = qkv + layer.attn.w_o@;
    let first = all + layer.mlp.w_1@;
    let ab = lemma_drawn_append(q, a, layer.attn.w_k@, b);
    let ac = lemma_drawn_append(qk, ab, layer.attn.w_v@, c);
    let ad = lemma_drawn_append(qkv, ac, layer.attn.w_o@, d);
    let ae = lemma_drawn_append(all, ad, layer.mlp.w_1@, e);
    lemma_drawn_append(first, ae, layer.mlp.w_2@, f)
}

proof fn lemma_layers_drawn(
    layers: Seq<TransformerLayer<Draw>>,
    config: TransformerConfig,
    state: u64,
) -> (states: Seq<u64>)
    requires
        forall|i: int|
            0 <= i < layers.len() ==> seeding::seeded_layer(
                #[trigger] layers[i],
                config,
                seeding::after_layers(config, state, i as nat),
            ),
    ensures
        drawn_from(layers_draws(layers), states),
        states[0] == state,
        states.last() == seeding::after_layers(config, state, layers.len()),
    decreases layers.len(),
{
    if layers.len() == 0 {
        seq![state]
    } else {
        let front = layers.drop_last();
        assert forall|i: int| 0 <= i < front.len() implies seeding::seeded_layer(
            #[trigger] front[i],
            config,
            seeding::after_layers(config, state, i as nat),
        ) by {
            assert(front[i] == layers[i]);
        }
        let before = lemma_layers_drawn(front, config, state);
        assert(layers.last() == layers[layers.len() - 1]);
        let last = lemma_layer_drawn(
            layers.last(),
            config,
            seeding::after_layers(config, state, front.len()),
        );
        lemma_drawn_append(layers_draws(front), before, layer_draws(layers.last()), last)
    }
}

/// Everything that is drawn for a model comes from one generator, which starts at the seed, or at
/// a fixed number where the seed is zero: each weight in its order takes the next pair.
pub proof fn law_seeded_weights_follow_the_generator(
    made: Transformer<Draw>,
    config: TransformerConfig,
    seed: u64,
)
    requires
        seeding::seeded_model(made, config, seed),
    ensures
        exists|states: Seq<u64>|
            {
                &&& #[trigger] drawn_from(model_draws(made), states)
                &&& states[0] == if seed == 0 {
                    0x853c49e6748fea9b
                } else {
                    seed
                }
            },
{
    let start = rng::seeded(seed);
    let tokens = made.token_embeddings@;
    let positions = table_draws(made.pos_embeddings);
    let head = table_draws(made.lm_head);
    let t = lemma_normals_drawn(start, config.embedding_total(), Spread::Model);
    let after_tokens = seeding::after_normals(start, config.embedding_total());
    let p = if made.pos_embeddings is Some {
        lemma_normals_drawn(
            after_tokens,
            config.max_seq_len as nat * config.d_model as nat,
            Spread::Model,
        )
    } else {
        seq![after_tokens]
    };
    let tp = lemma_drawn_append(tokens, t, positions, p);
    let reached = seeding::after_embeddings(config, start);
    let l = lemma_layers_drawn(made.layers@, config, reached);
    let tpl = lemma_drawn_append(tokens + positions, tp, layers_draws(made.layers@), l);
    let behind = seeding::after_layers(config, reached, config.n_layers as nat);
    let h = if made.lm_head is Some {
        lemma_normals_drawn(behind, config.embedding_total(), Spread::Model)
    } else {
        seq![behind]
    };
    let all = lemma_drawn_append(
        tokens + positions + layers_draws(made.layers@),
        tpl,
        head,
        h,
    );
    assert(drawn_from(model_draws(made), all));
}

} // verus!
