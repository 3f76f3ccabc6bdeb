//! What the flat order of the weights promises.

use vstd::prelude::*;

use crate::classic::config::TransformerConfig;
use crate::classic::model;
use crate::classic::model::{Transformer, TransformerLayer};

verus! {

/// Equal sequences that are cut at the same place have equal parts.
proof fn lemma_cut<T>(a: Seq<T>, x: Seq<T>, b: Seq<T>, y: Seq<T>)
    requires
        a + x == b + y,
        x.len() == y.len(),
    ensures
        a == b,
        x == y,
{
    let whole = a + x;
    assert(whole.len() == (b + y).len());
    assert(a =~= whole.subrange(0, a.len() as int));
    assert(b =~= whole.subrange(0, a.len() as int));
    assert(x =~= whole.subrange(a.len() as int, whole.len() as int));
    assert(y =~= whole.subrange(a.len() as int, whole.len() as int));
}

/// Layers of one shape with the same flat weights have the same weights in every buffer.
pub proof fn law_layer_weights_are_determined<T>(a: TransformerLayer<T>, b: TransformerLayer<T>)
    requires
        a.same_shape(b),
        a.flat() == b.flat(),
    ensures
        a.same_weights(b),
{
    let a0 = a.attn_norm_gamma@;
    let b0 = b.attn_norm_gamma@;
    let a1 = a0 + model::opt_view(a.attn_norm_beta);
    let b1 = b0 + model::opt_view(b.attn_norm_beta);
    let a2 = a1 + a.attn.w_q@;
    let b2 = b1 + b.attn.w_q@;
    let a3 = a2 + a.attn.w_k@;
    let b3 = b2 + b.attn.w_k@;
    let a4 = a3 + a.attn.w_v@;
    let b4 = b3 + b.attn.w_v@;
    let a5 = a4 + a.attn.w_o@;
    let b5 = b4 + b.attn.w_o@;
    let a6 = a5 + model::opt_view(a.attn.b_q);
    let b6 = b5 + model::opt_view(b.attn.b_q);
    let a7 = a6 + model::opt_view(a.attn.b_k);
    let b7 = b6 + model::opt_view(b.attn.b_k);
    let a8 = a7 + model::opt_view(a.attn.b_v);
    let b8 = b7 + model::opt_view(b.attn.b_v);
    let a9 = a8 + model::opt_view(a.attn.b_o);
    let b9 = b8 + model::opt_view(b.attn.b_o);
    let a10 = a9 + a.ffn_norm_gamma@;
    let b10 = b9 + b.ffn_norm_gamma@;
    let a11 = a10 + model::opt_view(a.ffn_norm_beta);
    let b11 = b10 + model::opt_view(b.ffn_norm_beta);
    let a12 = a11 + a.mlp.w_1@;
    let b12 = b11 + b.mlp.w_1@;
    let a13 = a12 + model::opt_view(a.mlp.b_1);
    let b13 = b12 + model::opt_view(b.mlp.b_1);
    let a14 = a13 + a.mlp.w_2@;
    let b14 = b13 + b.mlp.w_2@;
    let a15 = a14 + model::opt_view(a.mlp.b_2);
    let b15 = b14 + model::opt_view(b.mlp.b_2);
    lemma_cut(a14, model::opt_view(a.mlp.b_2), b14, model::opt_view(b.mlp.b_2));
    lemma_cut(a13, a.mlp.w_2@, b13, b.mlp.w_2@);
    lemma_cut(a12, model::opt_view(a.mlp.b_1), b12, model::opt_view(b.mlp.b_1));
    lemma_cut(a11, a.mlp.w_1@, b11, b.mlp.w_1@);
    lemma_cut(a10, model::opt_view(a.ffn_norm_beta), b10, model::opt_view(b.ffn_norm_beta));
    lemma_cut(a9, a.ffn_norm_gamma@, b9, b.ffn_norm_gamma@);
    lemma_cut(a8, model::opt_view(a.attn.b_o), b8, model::opt_view(b.attn.b_o));
    lemma_cut(a7, model::opt_view(a.attn.b_v), b7, model::opt_view(b.attn.b_v));
    lemma_cut(a6, model::opt_view(a.attn.b_k), b6, model::opt_view(b.attn.b_k));
    lemma_cut(a5, model::opt_view(a.attn.b_q), b5, model::opt_view(b.attn.b_q));
    lemma_cut(a4, a.attn.w_o@, b4, b.attn.w_o@);
    lemma_cut(a3, a.attn.w_v@, b3, b.attn.w_v@);
    lemma_cut(a2, a.attn.w_k@, b2, b.attn.w_k@);
    lemma_cut(a1, a.attn.w_q@, b1, b.attn.w_q@);
    lemma_cut(a0, model::opt_view(a.attn_norm_beta), b0, model::opt_view(b.attn_norm_beta));
}

proof fn lemma_same_shape_same_volume<T>(
    a: Seq<TransformerLayer<T>>,
    b: Seq<TransformerLayer<T>>,
)
    requires
        a.len() == b.len(),
        forall|i: int| 0 <= i < a.len() ==> (#[trigger] a[i]).same_shape(b[i]),
    ensures
        model::layers_flat(a).len() == model::layers_flat(b).len(),
    decreases a.len(),
{
    if a.len() > 0 {
        let x = a.drop_last();
        let y = b.drop_last();
        assert forall|i: int| 0 <= i < x.len() implies (#[trigger] x[i]).same_shape(y[i]) by {
            assert(x[i] == a[i] && y[i] == b[i]);
        }
        lemma_same_shape_same_volume(x, y);
        assert(a[a.len() - 1].same_shape(b[a.len() - 1]));
    }
}

proof fn lemma_layers_determined<T>(a: Seq<TransformerLayer<T>>, b: Seq<TransformerLayer<T>>)
    requires
        a.len() == b.len(),
        forall|i: int| 0 <= i < a.len() ==> (#[trigger] a[i]).same_shape(b[i]),
        model::layers_flat(a) == model::layers_flat(b),
    ensures
        forall|i: int| 0 <= i < a.len() ==> (#[trigger] a[i]).same_weights(b[i]),
    decreases a.len(),
{
    if a.len() > 0 {
        let x = a.drop_last();
        let y = b.drop_last();
        assert forall|i: int| 0 <= i < x.len() implies (#[trigger] x[i]).same_shape(y[i]) by {
            assert(x[i] == a[i] && y[i] == b[i]);
        }
        assert(a[a.len() - 1].same_shape(b[a.len() - 1]));
        lemma_cut(model::layers_flat(x), a.last().flat(), model::layers_flat(y), b.last().flat());
        lemma_layers_determined(x, y);
        law_layer_weights_are_determined(a.last(), b.last());
        assert forall|i: int| 0 <= i < a.len() implies (#[trigger] a[i]).same_weights(b[i]) by {
            if i < x.len() {
                assert(x[i] == a[i] && y[i] == b[i]);
                assert(x[i].same_weights(y[i]));
            }
        }
    }
}

/// Models of one shape with the same flat weights have the same weights in every buffer: loading
/// what was extracted gives back the model.
pub proof fn law_weights_are_determined<T>(a: Transformer<T>, b: Transformer<T>)
    requires
        a.same_shape(b),
        a.flat() == b.flat(),
    ensures
        a.same_weights(b),
{
    let a0 = a.token_embeddings@;
    let b0 = b.token_embeddings@;
    let a1 = a0 + model::opt_view(a.pos_embeddings);
    let b1 = b0 + model::opt_view(b.pos_embeddings);
    let a2 = a1 + model::layers_flat(a.layers@);
    let b2 = b1 + model::layers_flat(b.layers@);
    let a3 = a2 + a.final_norm_gamma@;
    let b3 = b2 + b.final_norm_gamma@;
    let a4 = a3 + model::opt_view(a.final_norm_beta);
    let b4 = b3 + model::opt_view(b.final_norm_beta);
    let a5 = a4 + model::opt_view(a.lm_head);
    let b5 = b4 + model::opt_view(b.lm_head);
    lemma_cut(a5, model::opt_view(a.lm_head_bias), b5, model::opt_view(b.lm_head_bias));
    lemma_cut(a4, model::opt_view(a.lm_head), b4, model::opt_view(b.lm_head));
    lemma_cut(a3, model::opt_view(a.final_norm_beta), b3, model::opt_view(b.final_norm_beta));
    lemma_cut(a2, a.final_norm_gamma@, b2, b.final_norm_gamma@);
    lemma_same_shape_same_volume(a.layers@, b.layers@);
    lemma_cut(a1, model::layers_flat(a.layers@), b1, model::layers_flat(b.layers@));
    lemma_cut(a0, model::opt_view(a.pos_embeddings), b0, model::opt_view(b.pos_embeddings));
    lemma_layers_determined(a.layers@, b.layers@);
}

proof fn lemma_layer_volume<T>(layer: TransformerLayer<T>, config: TransformerConfig)
    requires
        layer.shaped(config),
    ensures
        layer.flat().len() == config.layer_total(),
{
    let d = config.d_model as int;
    assert(d * config.d_ff == config.d_ff * d) by (nonlinear_arith);
}

proof fn lemma_layers_volume<T>(layers: Seq<TransformerLayer<T>>, config: TransformerConfig)
    requires
        forall|i: int| 0 <= i < layers.len() ==> (#[trigger] layers[i]).shaped(config),
    ensures
        model::layers_flat(layers).len() == layers.len() * config.layer_total(),
    decreases layers.len(),
{
    let t = config.layer_total();
    if layers.len() == 0 {
        assert(layers.len() * t == 0) by (nonlinear_arith)
            requires
                layers.len() == 0,
        ;
    } else {
        let front = layers.drop_last();
        assert forall|i: int| 0 <= i < front.len() implies (#[trigger] front[i]).shaped(config) by {
            assert(front[i] == layers[i]);
        }
        lemma_layers_volume(front, config);
        assert(layers[layers.len() - 1].shaped(config));
        lemma_layer_volume(layers.last(), config);
        assert(layers.len() * t == front.len() * t + t) by (nonlinear_arith)
            requires
                layers.len() == front.len() + 1,
        ;
    }
}

/// A model whose buffers have the shapes of its configuration has exactly the parameters that
/// the configuration counts.
pub proof fn law_shaped_model_is_counted<T>(m: Transformer<T>)
    requires
        m.shaped(),
    ensures
        m.flat().len() == m.config.param_total(),
        m.config.countable() ==> m.consistent(),
{
    lemma_layers_volume(m.layers@, m.config);
}

/// A model shaped like a model of its configuration has the shapes of the configuration.
pub proof fn lemma_same_shape_is_shaped<T>(m: Transformer<T>, like: Transformer<T>)
    requires
        like.shaped(),
        m.same_shape(like),
        m.config == like.config,
    ensures
        m.shaped(),
{
    assert forall|i: int| 0 <= i < m.layers@.len() implies (#[trigger] m.layers@[i]).shaped(
        m.config,
    ) by {
        assert(m.layers@[i].same_shape(like.layers@[i]));
        assert(like.layers@[i].shaped(m.config));
    }
}

} // verus!
