//! The key-value cache and the scratch buffers of inference, over any element type.

use vstd::prelude::*;

use crate::classic::config::TransformerConfig;

verus! {

/// Key-value cache of autoregressive decoding: one contiguous buffer each for keys and values,
/// laid out by layer, position and model dimension.
#[derive(Debug, Clone)]
pub struct KvCache<T> {
    /// Keys.
    pub k: Vec<T>,
    /// Values.
    pub v: Vec<T>,
    /// Number of layers.
    pub n_layers: usize,
    /// Number of positions.
    pub max_seq_len: usize,
    /// Model dimension.
    pub d_model: usize,
    /// Number of attention heads.
    pub n_heads: usize,
    /// Dimension of each head.
    pub head_dim: usize,
    /// Number of tokens cached.
    pub current_len: usize,
}

/// The number of elements of a cache.
pub open spec fn cache_total(n_layers: nat, max_seq_len: nat, d_model: nat) -> nat {
    n_layers * max_seq_len * d_model
}

/// Where the vector of a layer and a position begins.
pub open spec fn cell_offset(max_seq_len: nat, d_model: nat, layer: nat, pos: nat) -> nat {
    (layer * max_seq_len + pos) * d_model
}

/// The vector of a layer and a position lies in the cache.
pub proof fn lemma_cell_inside(
    n_layers: nat,
    max_seq_len: nat,
    d_model: nat,
    layer: nat,
    pos: nat,
)
    requires
        layer < n_layers,
        pos < max_seq_len,
    ensures
        layer * max_seq_len + pos < n_layers * max_seq_len,
        cell_offset(max_seq_len, d_model, layer, pos) + d_model <= cache_total(
            n_layers,
            max_seq_len,
            d_model,
        ),
        layer * max_seq_len <= n_layers * max_seq_len,
{
    let row = layer * max_seq_len + pos;
    assert(layer * max_seq_len + max_seq_len <= n_layers * max_seq_len) by (nonlinear_arith)
        requires
            layer + 1 <= n_layers,
    ;
    let all = n_layers * max_seq_len;
    assert(row * d_model + d_model <= all * d_model) by (nonlinear_arith)
        requires
            row + 1 <= all,
    ;
}

/// The vectors of two different places do not overlap.
pub proof fn lemma_cells_apart(
    max_seq_len: nat,
    d_model: nat,
    layer: nat,
    pos: nat,
    other_layer: nat,
    other_pos: nat,
)
    requires
        pos < max_seq_len,
        other_pos < max_seq_len,
        layer != other_layer || pos != other_pos,
    ensures
        cell_offset(max_seq_len, d_model, layer, pos) + d_model <= cell_offset(
            max_seq_len,
            d_model,
            other_layer,
            other_pos,
        ) || cell_offset(max_seq_len, d_model, other_layer, other_pos) + d_model <= cell_offset(
            max_seq_len,
            d_model,
            layer,
            pos,
        ),
{
    let a = layer * max_seq_len + pos;
    let b = other_layer * max_seq_len + other_pos;
    if layer < other_layer {
        assert(layer * max_seq_len + max_seq_len <= other_layer * max_seq_len) by (nonlinear_arith)
            requires
                layer + 1 <= other_layer,
        ;
    } else if other_layer < layer {
        assert(other_layer * max_seq_len + max_seq_len <= layer * max_seq_len) by (nonlinear_arith)
            requires
                other_layer + 1 <= layer,
        ;
    }
    if a < b {
        assert(a * d_model + d_model <= b * d_model) by (nonlinear_arith)
            requires
                a + 1 <= b,
        ;
    } else {
        assert(b * d_model + d_model <= a * d_model) by (nonlinear_arith)
            requires
                b + 1 <= a,
        ;
    }
}

impl<T> KvCache<T> {
    /// The buffers have the size that the dimensions give, and the heads divide a vector.
    pub open spec fn well_formed(self) -> bool {
        &&& self.k@.len() == cache_total(
            self.n_layers as nat,
            self.max_seq_len as nat,
            self.d_model as nat,
        )
        &&& self.v@.len() == self.k@.len()
        &&& self.n_layers * self.max_seq_len <= usize::MAX
        &&& self.n_heads * self.head_dim <= self.d_model
    }

    /// Where the vector of a layer and a position begins.
    pub open spec fn offset(self, layer: int, pos: int) -> int {
        cell_offset(self.max_seq_len as nat, self.d_model as nat, layer as nat, pos as nat) as int
    }

    /// The key vector of a layer and a position.
    pub open spec fn key(self, layer: int, pos: int) -> Seq<T> {
        self.k@.subrange(self.offset(layer, pos), self.offset(layer, pos) + self.d_model)
    }

    /// The value vector of a layer and a position.
    pub open spec fn value(self, layer: int, pos: int) -> Seq<T> {
        self.v@.subrange(self.offset(layer, pos), self.offset(layer, pos) + self.d_model)
    }

    /// The dimensions of two caches are the same.
    pub open spec fn same_shape(self, other: Self) -> bool {
        &&& self.n_layers == other.n_layers
        &&& self.max_seq_len == other.max_seq_len
        &&& self.d_model == other.d_model
        &&& self.n_heads == other.n_heads
        &&& self.head_dim == other.head_dim
    }
}

/// Whether a cache for a configuration can be counted by machine integers.
pub open spec fn cacheable(config: TransformerConfig) -> bool {
    &&& config.n_heads > 0
    &&& config.n_layers * config.max_seq_len <= usize::MAX
    &&& cache_total(
        config.n_layers as nat,
        config.max_seq_len as nat,
        config.d_model as nat,
    ) <= usize::MAX
}

/// A vector of `n` copies of an element.
pub fn filled<T: Copy>(element: T, n: usize) -> (buffer: Vec<T>)
    ensures
        buffer@ == Seq::new(n as nat, |i: int| element),
{
    let mut buffer: Vec<T> = Vec::new();
    for i in 0..n
        invariant
            buffer@ == Seq::new(i as nat, |j: int| element),
    {
        buffer.push(element);
        assert(buffer@ =~= Seq::new((i + 1) as nat, |j: int| element));
    }
    buffer
}

/// Overwrites a part of a buffer.
fn overwrite<T: Copy>(buffer: &mut Vec<T>, offset: usize, part: &[T])
    requires
        offset + part@.len() <= old(buffer)@.len(),
    ensures
        final(buffer)@ == old(buffer)@.subrange(0, offset as int) + part@ + old(buffer)@.subrange(
            offset + part@.len(),
            old(buffer)@.len() as int,
        ),
{
    let ghost before = buffer@;
    let size: usize = buffer.len();
    for i in 0..part.len()
        invariant
            offset + part@.len() <= size,
            size == before.len(),
            buffer@.len() == before.len(),
            forall|j: int|
                0 <= j < before.len() ==> #[trigger] buffer@[j] == (if offset <= j < offset + i {
                    part@[j - offset]
                } else {
                    before[j]
                }),
    {
        buffer.set(offset + i, part[i]);
    }
    assert(buffer@ =~= before.subrange(0, offset as int) + part@ + before.subrange(
        offset + part@.len(),
        before.len() as int,
    ));
}

impl<T: Copy> KvCache<T> {
    /// Allocates a cache for a configuration, every element `zero`.
    pub fn new(config: &TransformerConfig, zero: T) -> (cache: Self)
        requires
            cacheable(*config),
        ensures
            cache.well_formed(),
            cache.current_len == 0,
            cache.n_layers == config.n_layers,
            cache.max_seq_len == config.max_seq_len,
            cache.d_model == config.d_model,
            cache.n_heads == config.n_heads,
            cache.head_dim == config.d_model / config.n_heads,
            forall|i: int| 0 <= i < cache.k@.len() ==> cache.k@[i] == zero && cache.v@[i] == zero,
    {
        let total: usize = config.n_layers * config.max_seq_len * config.d_model;
        let head_dim: usize = config.head_dim();
        assert(config.n_heads * head_dim <= config.d_model) by (nonlinear_arith)
            requires
                config.n_heads > 0,
                head_dim == config.d_model / config.n_heads,
        ;
        KvCache {
            k: filled(zero, total),
            v: filled(zero, total),
            n_layers: config.n_layers,
            max_seq_len: config.max_seq_len,
            d_model: config.d_model,
            n_heads: config.n_heads,
            head_dim,
            current_len: 0,
        }
    }

    /// Forgets the cached tokens; the buffers keep their contents.
    pub fn reset(&mut self)
        ensures
            final(self).current_len == 0,
            final(self).k == old(self).k,
            final(self).v == old(self).v,
            final(self).same_shape(*old(self)),
    {
        self.current_len = 0;
    }

    /// The number of tokens cached.
    pub fn len(&self) -> (len: usize)
        ensures
            len == self.current_len,
    {
        self.current_len
    }

    /// Whether no token is cached.
    pub fn is_empty(&self) -> (empty: bool)
        ensures
            empty == (self.current_len == 0),
    {
        self.current_len == 0
    }

    /// Stores the key and value vectors of one token in one layer; every other vector stays.
    pub fn append_layer(&mut self, layer: usize, pos: usize, k_token: &[T], v_token: &[T])
        requires
            old(self).well_formed(),
            layer < old(self).n_layers,
            pos < old(self).max_seq_len,
            k_token@.len() == old(self).d_model,
            v_token@.len() == old(self).d_model,
        ensures
            final(self).well_formed(),
            final(self).same_shape(*old(self)),
            final(self).current_len == old(self).current_len,
            final(self).key(layer as int, pos as int) == k_token@,
            final(self).value(layer as int, pos as int) == v_token@,
            forall|l: int, p: int|
                #![trigger final(self).key(l, p)]
                #![trigger final(self).value(l, p)]
                0 <= l < old(self).n_layers && 0 <= p < old(self).max_seq_len && (l != layer || p
                    != pos) ==> final(self).key(l, p) == old(self).key(l, p) && final(self).value(
                    l,
                    p,
                ) == old(self).value(l, p),
    {
        let ghost before = *self;
        proof {
            lemma_cell_inside(
                self.n_layers as nat,
                self.max_seq_len as nat,
                self.d_model as nat,
                layer as nat,
                pos as nat,
            );
        }
        let d: usize = self.d_model;
        let size: usize = self.k.len();
        let row: usize = layer * self.max_seq_len + pos;
        assert(0 <= row * d <= row * d + d <= size);
        let offset: usize = row * d;
        overwrite(&mut self.k, offset, k_token);
        overwrite(&mut self.v, offset, v_token);
        assert(self.key(layer as int, pos as int) =~= k_token@);
        assert(self.value(layer as int, pos as int) =~= v_token@);
        assert forall|l: int, p: int|
            #![trigger self.key(l, p)]
            #![trigger self.value(l, p)]
            0 <= l < before.n_layers && 0 <= p < before.max_seq_len && (l != layer || p
                != pos) implies self.key(l, p) == before.key(l, p) && self.value(l, p)
            == before.value(l, p) by {
            lemma_cell_inside(
                before.n_layers as nat,
                before.max_seq_len as nat,
                before.d_model as nat,
                l as nat,
                p as nat,
            );
            lemma_cells_apart(
                before.max_seq_len as nat,
                before.d_model as nat,
                layer as nat,
                pos as nat,
                l as nat,
                p as nat,
            );
            assert(self.key(l, p) =~= before.key(l, p));
            assert(self.value(l, p) =~= before.value(l, p));
        }
    }

    /// Where the part of a head begins.
    fn head_offset(&self, layer: usize, head: usize, pos: usize) -> (offset: usize)
        requires
            self.well_formed(),
            layer < self.n_layers,
            head < self.n_heads,
            pos < self.max_seq_len,
        ensures
            offset == self.offset(layer as int, pos as int) + head * self.head_dim,
            offset + self.head_dim <= self.offset(layer as int, pos as int) + self.d_model,
            self.offset(layer as int, pos as int) + self.d_model <= self.k@.len(),
    {
        proof {
            lemma_cell_inside(
                self.n_layers as nat,
                self.max_seq_len as nat,
                self.d_model as nat,
                layer as nat,
                pos as nat,
            );
        }
        assert(head * self.head_dim + self.head_dim <= self.n_heads * self.head_dim)
            by (nonlinear_arith)
            requires
                head + 1 <= self.n_heads,
        ;
        let size: usize = self.k.len();
        assert(0 <= head * self.head_dim) by (nonlinear_arith);
        let row: usize = layer * self.max_seq_len + pos;
        assert(0 <= row * self.d_model) by (nonlinear_arith);
        row * self.d_model + head * self.head_dim
    }

    /// The keys of one head at a position of a layer.
    pub fn key_head(&self, layer: usize, head: usize, pos: usize) -> (part: &[T])
        requires
            self.well_formed(),
            layer < self.n_layers,
            head < self.n_heads,
            pos < self.max_seq_len,
        ensures
            part@ == self.key(layer as int, pos as int).subrange(
                head * self.head_dim,
                head * self.head_dim + self.head_dim,
            ),
    {
        let size: usize = self.k.len();
        let offset: usize = self.head_offset(layer, head, pos);
        let part: &[T] = vstd::slice::slice_subrange(
            self.k.as_slice(),
            offset,
            offset + self.head_dim,
        );
        assert(0 <= head * self.head_dim) by (nonlinear_arith);
        assert(part@ =~= self.key(layer as int, pos as int).subrange(
            head * self.head_dim,
            head * self.head_dim + self.head_dim,
        ));
        part
    }

    /// The values of one head at a position of a layer.
    pub fn val_head(&self, layer: usize, head: usize, pos: usize) -> (part: &[T])
        requires
            self.well_formed(),
            layer < self.n_layers,
            head < self.n_heads,
            pos < self.max_seq_len,
        ensures
            part@ == self.value(layer as int, pos as int).subrange(
                head * self.head_dim,
                head * self.head_dim + self.head_dim,
            ),
    {
        let size: usize = self.k.len();
        let offset: usize = self.head_offset(layer, head, pos);
        let part: &[T] = vstd::slice::slice_subrange(
            self.v.as_slice(),
            offset,
            offset + self.head_dim,
        );
        assert(0 <= head * self.head_dim) by (nonlinear_arith);
        assert(part@ =~= self.value(layer as int, pos as int).subrange(
            head * self.head_dim,
            head * self.head_dim + self.head_dim,
        ));
        part
    }
}

/// A buffer of `n` copies of an element.
pub open spec fn blank<T>(buffer: Vec<T>, n: int, element: T) -> bool {
    buffer@.len() == n && forall|i: int| 0 <= i < n ==> buffer@[i] == element
}

/// A buffer of `n` copies of an element.
pub fn blank_buffer<T: Copy>(element: T, n: usize) -> (buffer: Vec<T>)
    ensures
        blank(buffer, n as int, element),
{
    filled(element, n)
}

/// Scratch buffers of multi-head attention: for whole sequences and for single steps.
#[derive(Debug, Clone)]
pub struct AttentionWorkspace<T> {
    pub q: Vec<T>,
    pub k: Vec<T>,
    pub v: Vec<T>,
    pub attn_scores: Vec<T>,
    pub attn_out: Vec<T>,
    pub step_q: Vec<T>,
    pub step_k: Vec<T>,
    pub step_v: Vec<T>,
    pub step_attn_scores: Vec<T>,
    pub step_attn_out: Vec<T>,
}

/// The longest sequence for which attention scores are kept.
pub const SCORED_SEQ_LEN: usize = 1024;

/// The side of the square of attention scores.
pub open spec fn scored_len(config: TransformerConfig) -> nat {
    if config.max_seq_len < SCORED_SEQ_LEN {
        config.max_seq_len as nat
    } else {
        SCORED_SEQ_LEN as nat
    }
}

/// The number of attention scores of a whole sequence.
pub open spec fn score_total(config: TransformerConfig) -> nat {
    config.n_heads as nat * scored_len(config) * scored_len(config)
}

/// Whether the scratch buffers of inference can be counted by machine integers.
pub open spec fn workable(config: TransformerConfig) -> bool {
    &&& config.max_seq_len * config.d_model <= usize::MAX
    &&& config.max_seq_len * config.d_ff <= usize::MAX
    &&& config.max_seq_len * config.vocab_size <= usize::MAX
    &&& config.n_heads * config.max_seq_len <= usize::MAX
    &&& score_total(config) <= usize::MAX
}

impl<T> AttentionWorkspace<T> {
    /// Every buffer has the size that the configuration gives, and holds one element.
    pub open spec fn blank_for(self, config: TransformerConfig, zero: T) -> bool {
        let rows = config.max_seq_len * config.d_model;
        &&& blank(self.q, rows, zero)
        &&& blank(self.k, rows, zero)
        &&& blank(self.v, rows, zero)
        &&& blank(self.attn_scores, score_total(config) as int, zero)
        &&& blank(self.attn_out, rows, zero)
        &&& blank(self.step_q, config.d_model as int, zero)
        &&& blank(self.step_k, config.d_model as int, zero)
        &&& blank(self.step_v, config.d_model as int, zero)
        &&& blank(self.step_attn_scores, config.n_heads * config.max_seq_len, zero)
        &&& blank(self.step_attn_out, config.d_model as int, zero)
    }
}

impl<T: Copy> AttentionWorkspace<T> {
    /// Allocates the buffers for a configuration.
    pub fn new(config: &TransformerConfig, zero: T) -> (workspace: Self)
        requires
            workable(*config),
        ensures
            workspace.blank_for(*config, zero),
    {
        let rows: usize = config.max_seq_len * config.d_model;
        let side: usize = if config.max_seq_len < SCORED_SEQ_LEN {
            config.max_seq_len
        } else {
            SCORED_SEQ_LEN
        };
        assert(config.n_heads * side <= config.n_heads * config.max_seq_len) by (nonlinear_arith)
            requires
                side <= config.max_seq_len,
        ;
        assert(0 <= config.n_heads * side) by (nonlinear_arith);
        let scores: usize = config.n_heads * side * side;
        AttentionWorkspace {
            q: blank_buffer(zero, rows),
            k: blank_buffer(zero, rows),
            v: blank_buffer(zero, rows),
            attn_scores: blank_buffer(zero, scores),
            attn_out: blank_buffer(zero, rows),
            step_q: blank_buffer(zero, config.d_model),
            step_k: blank_buffer(zero, config.d_model),
            step_v: blank_buffer(zero, config.d_model),
            step_attn_scores: blank_buffer(zero, config.n_heads * config.max_seq_len),
            step_attn_out: blank_buffer(zero, config.d_model),
        }
    }
}

/// Scratch buffers of the feed-forward block.
#[derive(Debug, Clone)]
pub struct MlpWorkspace<T> {
    pub hidden: Vec<T>,
    pub step_hidden: Vec<T>,
}

impl<T> MlpWorkspace<T> {
    /// Every buffer has the size that the configuration gives, and holds one element.
    pub open spec fn blank_for(self, config: TransformerConfig, zero: T) -> bool {
        &&& blank(self.hidden, config.max_seq_len * config.d_ff, zero)
        &&& blank(self.step_hidden, config.d_ff as int, zero)
    }
}

impl<T: Copy> MlpWorkspace<T> {
    /// Allocates the buffers for a configuration.
    pub fn new(config: &TransformerConfig, zero: T) -> (workspace: Self)
        requires
            workable(*config),
        ensures
            workspace.blank_for(*config, zero),
    {
        MlpWorkspace {
            hidden: blank_buffer(zero, config.max_seq_len * config.d_ff),
            step_hidden: blank_buffer(zero, config.d_ff),
        }
    }
}

/// Scratch buffers of the forward pass and of single inference steps.
#[derive(Debug, Clone)]
pub struct InferenceWorkspace<T> {
    pub x: Vec<T>,
    pub residual: Vec<T>,
    pub norm_out: Vec<T>,
    pub logits: Vec<T>,
    pub step_x: Vec<T>,
    pub step_residual: Vec<T>,
    pub step_norm_out: Vec<T>,
    pub step_logits: Vec<T>,
    pub attn: AttentionWorkspace<T>,
    pub mlp: MlpWorkspace<T>,
    pub max_seq_len: usize,
    pub d_model: usize,
    pub n_heads: usize,
    pub d_ff: usize,
    pub vocab_size: usize,
}

impl<T: Copy> InferenceWorkspace<T> {
    /// Allocates all buffers for a configuration.
    pub fn new(config: &TransformerConfig, zero: T) -> (workspace: Self)
        requires
            workable(*config),
        ensures
            blank(workspace.x, config.max_seq_len * config.d_model, zero),
            blank(workspace.residual, config.max_seq_len * config.d_model, zero),
            blank(workspace.norm_out, config.max_seq_len * config.d_model, zero),
            blank(workspace.logits, config.max_seq_len * config.vocab_size, zero),
            blank(workspace.step_x, config.d_model as int, zero),
            blank(workspace.step_residual, config.d_model as int, zero),
            blank(workspace.step_norm_out, config.d_model as int, zero),
            blank(workspace.step_logits, config.vocab_size as int, zero),
            workspace.attn.blank_for(*config, zero),
            workspace.mlp.blank_for(*config, zero),
            workspace.max_seq_len == config.max_seq_len,
            workspace.d_model == config.d_model,
            workspace.n_heads == config.n_heads,
            workspace.d_ff == config.d_ff,
            workspace.vocab_size == config.vocab_size,
    {
        let rows: usize = config.max_seq_len * config.d_model;
        InferenceWorkspace {
            x: blank_buffer(zero, rows),
            residual: blank_buffer(zero, rows),
            norm_out: blank_buffer(zero, rows),
            logits: blank_buffer(zero, config.max_seq_len * config.vocab_size),
            step_x: blank_buffer(zero, config.d_model),
            step_residual: blank_buffer(zero, config.d_model),
            step_norm_out: blank_buffer(zero, config.d_model),
            step_logits: blank_buffer(zero, config.vocab_size),
            attn: AttentionWorkspace::new(config, zero),
            mlp: MlpWorkspace::new(config, zero),
            max_seq_len: config.max_seq_len,
            d_model: config.d_model,
            n_heads: config.n_heads,
            d_ff: config.d_ff,
            vocab_size: config.vocab_size,
        }
    }
}

} // verus!
