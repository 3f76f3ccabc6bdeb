//! The transformer beside the recurrent model, with its key-value cache and its generation of
//! bytes.

use vstd::prelude::*;

use crate::classic::cache::blank_buffer;
use crate::classic::cache;
use crate::scaled::config::{HEAD_DIM, ScaledConfig};
use crate::scaled::nn::{Module, ScaledFFN, ScaledLinear, ScaledRMSNorm};
use crate::scaled::sizes;

verus! {

/// Keys and values of the positions seen so far.
#[derive(Debug, Clone)]
pub struct ScaledClassicKvCache<T> {
    /// Model dimension.
    pub d_model: usize,
    /// Number of positions.
    pub max_seq_len: usize,
    /// Keys, one behind the other.
    pub k: Vec<T>,
    /// Values, one behind the other.
    pub v: Vec<T>,
    /// Number of positions filled.
    pub len: usize,
}

impl<T> ScaledClassicKvCache<T> {
    /// The buffers hold one vector for each position.
    pub open spec fn well_formed(self) -> bool {
        &&& self.k@.len() == self.max_seq_len * self.d_model
        &&& self.v@.len() == self.max_seq_len * self.d_model
        &&& self.len <= self.max_seq_len
    }

    /// The key of a position.
    pub open spec fn key(self, pos: int) -> Seq<T> {
        self.k@.subrange(pos * self.d_model, pos * self.d_model + self.d_model)
    }

    /// The value of a position.
    pub open spec fn value(self, pos: int) -> Seq<T> {
        self.v@.subrange(pos * self.d_model, pos * self.d_model + self.d_model)
    }

    /// Forgets all positions.
    pub fn reset(&mut self)
        ensures
            final(self).len == 0,
            final(self).k == old(self).k,
            final(self).v == old(self).v,
            final(self).d_model == old(self).d_model,
            final(self).max_seq_len == old(self).max_seq_len,
    {
        self.len = 0;
    }

    /// The bytes in use: four for each element of the keys and values filled.
    pub fn memory_bytes(&self) -> (bytes: usize)
        requires
            2 * self.len <= usize::MAX,
            2 * self.len * self.d_model <= usize::MAX,
            2 * self.len * self.d_model * 4 <= usize::MAX,
        ensures
            bytes == 2 * self.len * self.d_model * 4,
    {
        2 * self.len * self.d_model * 4
    }
}

proof fn lemma_row_inside(rows: nat, row: nat, width: nat)
    requires
        row < rows,
    ensures
        0 <= row * width,
        row * width + width <= rows * width,
{
    assert(row * width + width <= rows * width) by (nonlinear_arith)
        requires
            row < rows,
    ;
}

proof fn lemma_rows_apart(first: nat, second: nat, width: nat)
    requires
        first < second,
    ensures
        first * width + width <= second * width,
{
    assert(first * width + width <= second * width) by (nonlinear_arith)
        requires
            first < second,
    ;
}

proof fn lemma_other_row(rows: usize, row: usize, other: int, width: usize)
    requires
        row < rows,
        0 <= other < rows,
        other != row,
    ensures
        0 <= other * width,
        other * width + width <= rows * width,
        other < row ==> other * width + width <= row * width,
        row < other ==> row * width + width <= other * width,
{
    lemma_row_inside(rows as nat, other as nat, width as nat);
    if other < row {
        lemma_rows_apart(other as nat, row as nat, width as nat);
    } else {
        lemma_rows_apart(row as nat, other as nat, width as nat);
    }
}

/// Overwrites part of a buffer.
fn write_row<T: Copy>(buffer: &mut Vec<T>, offset: usize, row: &[T])
    requires
        offset + row@.len() <= old(buffer)@.len(),
    ensures
        final(buffer)@.len() == old(buffer)@.len(),
        final(buffer)@.subrange(offset as int, offset + row@.len()) == row@,
        forall|i: int|
            0 <= i < old(buffer)@.len() && !(offset <= i < offset + row@.len())
                ==> final(buffer)@[i] == old(buffer)@[i],
{
    let ghost before = buffer@;
    let size: usize = buffer.len();
    for i in 0..row.len()
        invariant
            size == before.len(),
            offset + row@.len() <= size,
            buffer@.len() == before.len(),
            forall|j: int| 0 <= j < i ==> buffer@[offset + j] == row@[j],
            forall|j: int|
                0 <= j < before.len() && !(offset <= j < offset + i) ==> buffer@[j] == before[j],
    {
        buffer.set(offset + i, row[i]);
    }
    assert(buffer@.subrange(offset as int, offset + row@.len()) =~= row@);
}

impl<T: Copy> ScaledClassicKvCache<T> {
    /// An empty cache.
    pub fn new(d_model: usize, max_seq_len: usize, zero: T) -> (cache: Self)
        requires
            max_seq_len * d_model <= usize::MAX,
        ensures
            cache.well_formed(),
            cache.d_model == d_model,
            cache.max_seq_len == max_seq_len,
            cache.len == 0,
            cache::blank(cache.k, max_seq_len * d_model, zero),
            cache::blank(cache.v, max_seq_len * d_model, zero),
    {
        ScaledClassicKvCache {
            d_model,
            max_seq_len,
            k: blank_buffer(zero, max_seq_len * d_model),
            v: blank_buffer(zero, max_seq_len * d_model),
            len: 0,
        }
    }

    /// Fills the next position, and leaves all others.
    pub fn append(&mut self, k_curr: &[T], v_curr: &[T])
        requires
            old(self).well_formed(),
            old(self).len < old(self).max_seq_len,
            k_curr@.len() == old(self).d_model,
            v_curr@.len() == old(self).d_model,
        ensures
            final(self).well_formed(),
            final(self).len == old(self).len + 1,
            final(self).d_model == old(self).d_model,
            final(self).max_seq_len == old(self).max_seq_len,
            final(self).key(old(self).len as int) == k_curr@,
            final(self).value(old(self).len as int) == v_curr@,
            forall|pos: int|
                0 <= pos < old(self).max_seq_len && pos != old(self).len
                    ==> #[trigger] final(self).key(pos) == old(self).key(pos),
            forall|pos: int|
                0 <= pos < old(self).max_seq_len && pos != old(self).len
                    ==> #[trigger] final(self).value(pos) == old(self).value(pos),
    {
        let ghost before = *self;
        proof {
            lemma_row_inside(self.max_seq_len as nat, self.len as nat, self.d_model as nat);
        }
        let size: usize = self.k.len();
        let offset: usize = self.len * self.d_model;
        write_row(&mut self.k, offset, k_curr);
        write_row(&mut self.v, offset, v_curr);
        self.len = self.len + 1;
        assert forall|pos: int|
            0 <= pos < before.max_seq_len && pos != before.len implies #[trigger] self.key(pos)
            == before.key(pos) by {
            lemma_other_row(before.max_seq_len, before.len, pos, before.d_model);
            assert(self.key(pos) =~= before.key(pos));
        }
        assert forall|pos: int|
            0 <= pos < before.max_seq_len && pos != before.len implies #[trigger] self.value(pos)
            == before.value(pos) by {
            lemma_other_row(before.max_seq_len, before.len, pos, before.d_model);
            assert(self.value(pos) =~= before.value(pos));
        }
    }
}

/// Attention over all positions seen.
#[derive(Debug, Clone)]
pub struct ScaledClassicAttention<T> {
    /// Number of heads.
    pub n_heads: usize,
    /// Dimension of every head.
    pub d_head: usize,
    /// Model dimension.
    pub d_model: usize,
    /// Queries.
    pub w_q: ScaledLinear<T>,
    /// Keys.
    pub w_k: ScaledLinear<T>,
    /// Values.
    pub w_v: ScaledLinear<T>,
    /// Output.
    pub w_o: ScaledLinear<T>,
}

impl<T: Copy> ScaledClassicAttention<T> {
    /// A block of the given number of heads with zero everywhere and no gradients.
    pub open spec fn is_blank(self, n_heads: usize, zero: T) -> bool {
        &&& self.sized()
        &&& self.n_heads == n_heads
        &&& self.d_model == n_heads * 4
        &&& self.w_q.is_blank(self.d_model, self.d_model, zero)
        &&& self.w_k.is_blank(self.d_model, self.d_model, zero)
        &&& self.w_v.is_blank(self.d_model, self.d_model, zero)
        &&& self.w_o.is_blank(self.d_model, self.d_model, zero)
    }

    /// A block with the same weight everywhere.
    pub fn new(n_heads: usize, zero: T) -> (block: Self)
        requires
            n_heads * 4 <= usize::MAX,
            (n_heads * 4) * (n_heads * 4) <= usize::MAX,
        ensures
            block.is_blank(n_heads, zero),
            block.cleared(zero),
    {
        let d_model: usize = n_heads * HEAD_DIM;
        ScaledClassicAttention {
            n_heads,
            d_head: HEAD_DIM,
            d_model,
            w_q: ScaledLinear::new(d_model, d_model, zero),
            w_k: ScaledLinear::new(d_model, d_model, zero),
            w_v: ScaledLinear::new(d_model, d_model, zero),
            w_o: ScaledLinear::new(d_model, d_model, zero),
        }
    }
}

impl<T: Copy> Module for ScaledClassicAttention<T> {
    type Element = T;

    open spec fn sized(&self) -> bool {
        &&& self.d_head == HEAD_DIM
        &&& self.d_model == self.n_heads * self.d_head
        &&& self.w_q.sized() && self.w_q.in_features == self.d_model && self.w_q.out_features
            == self.d_model
        &&& self.w_k.sized() && self.w_k.in_features == self.d_model && self.w_k.out_features
            == self.d_model
        &&& self.w_v.sized() && self.w_v.in_features == self.d_model && self.w_v.out_features
            == self.d_model
        &&& self.w_o.sized() && self.w_o.in_features == self.d_model && self.w_o.out_features
            == self.d_model
    }

    open spec fn inputs(&self) -> nat {
        self.d_model as nat
    }

    open spec fn outputs(&self) -> nat {
        self.d_model as nat
    }

    open spec fn params(&self) -> nat {
        4 * (self.d_model as nat * self.d_model as nat)
    }

    open spec fn weights(&self) -> Seq<T> {
        self.w_q.weights() + self.w_k.weights() + self.w_v.weights() + self.w_o.weights()
    }

    open spec fn cleared(&self, zero: T) -> bool {
        &&& self.w_q.cleared(zero)
        &&& self.w_k.cleared(zero)
        &&& self.w_v.cleared(zero)
        &&& self.w_o.cleared(zero)
    }

    fn in_dim(&self) -> (dim: usize) {
        self.d_model
    }

    fn out_dim(&self) -> (dim: usize) {
        self.d_model
    }

    fn param_count(&self) -> (count: usize) {
        self.w_q.param_count() + self.w_k.param_count() + self.w_v.param_count()
            + self.w_o.param_count()
    }

    fn zero_grad(&mut self, zero: T)
        ensures
            final(self).n_heads == old(self).n_heads,
            final(self).w_q.weight@ == old(self).w_q.weight@,
            final(self).w_k.weight@ == old(self).w_k.weight@,
            final(self).w_v.weight@ == old(self).w_v.weight@,
            final(self).w_o.weight@ == old(self).w_o.weight@,
    {
        self.w_q.zero_grad(zero);
        self.w_k.zero_grad(zero);
        self.w_v.zero_grad(zero);
        self.w_o.zero_grad(zero);
    }
}

/// The transformer.
#[derive(Debug, Clone)]
pub struct ScaledClassicTransformer<T> {
    /// Sizes.
    pub config: ScaledConfig,
    /// Embeddings.
    pub embed: ScaledLinear<T>,
    /// Norm before attention.
    pub norm_attn: ScaledRMSNorm<T>,
    /// Attention.
    pub attn: ScaledClassicAttention<T>,
    /// Norm before the feed-forward block.
    pub norm_ffn: ScaledRMSNorm<T>,
    /// Feed-forward block.
    pub ffn: ScaledFFN<T>,
    /// Last norm.
    pub norm_final: ScaledRMSNorm<T>,
    /// Output projection.
    pub lm_head: ScaledLinear<T>,
}

impl<T: Copy> ScaledClassicTransformer<T> {
    /// Every part has the sizes of the configuration.
    pub open spec fn sized(self) -> bool {
        let config = self.config;
        &&& config.d_model == config.n_heads * HEAD_DIM
        &&& self.embed.sized() && self.embed.in_features == config.vocab_size
            && self.embed.out_features == config.d_model
        &&& self.norm_attn.sized() && self.norm_attn.dim == config.d_model
        &&& self.attn.sized() && self.attn.d_model == config.d_model
        &&& self.norm_ffn.sized() && self.norm_ffn.dim == config.d_model
        &&& self.ffn.sized() && self.ffn.w1.in_features == config.d_model
            && self.ffn.w1.out_features == config.d_ff && self.ffn.w2.out_features
            == config.d_model
        &&& self.norm_final.sized() && self.norm_final.dim == config.d_model
        &&& self.lm_head.sized() && self.lm_head.in_features == config.d_model
            && self.lm_head.out_features == config.vocab_size
    }

    /// A model with the same weight everywhere but in its norms, which are one.
    pub fn new(config: &ScaledConfig, eps: T, zero: T, one: T) -> (model: Self)
        requires
            sizes::countable(*config),
        ensures
            model.sized(),
            model.config == *config,
            model.embed.is_blank(config.vocab_size, config.d_model, zero),
            model.norm_attn.is_unit(config.d_model, eps, zero, one),
            model.attn.is_blank(config.n_heads, zero),
            model.norm_ffn.is_unit(config.d_model, eps, zero, one),
            model.ffn.is_blank(config.d_model, config.d_ff, zero),
            model.norm_final.is_unit(config.d_model, eps, zero, one),
            model.lm_head.is_blank(config.d_model, config.vocab_size, zero),
    {
        let dm: usize = config.d_model;
        let v: usize = config.vocab_size;
        proof {
            sizes::lemma_sizes_fit(*config);
        }
        ScaledClassicTransformer {
            config: *config,
            embed: ScaledLinear::new(v, dm, zero),
            norm_attn: ScaledRMSNorm::new(dm, eps, zero, one),
            attn: ScaledClassicAttention::new(config.n_heads, zero),
            norm_ffn: ScaledRMSNorm::new(dm, eps, zero, one),
            ffn: ScaledFFN::new(dm, config.d_ff, zero),
            norm_final: ScaledRMSNorm::new(dm, eps, zero, one),
            lm_head: ScaledLinear::new(dm, v, zero),
        }
    }

    /// The number of parameters: the same for both kinds of model.
    pub fn param_count(&self) -> (count: usize)
        requires
            self.sized(),
            sizes::countable(self.config),
        ensures
            count == sizes::model_total(self.config),
    {
        proof {
            sizes::lemma_sizes_fit(self.config);
            sizes::lemma_total(self.config);
        }
        self.embed.param_count() + self.norm_attn.param_count() + self.attn.param_count()
            + self.norm_ffn.param_count() + self.ffn.param_count()
            + self.norm_final.param_count() + self.lm_head.param_count()
    }

    /// The lengths of the eleven parameter groups, in the order of the optimiser.
    pub fn layer_lengths(&self) -> (lens: Vec<usize>)
        requires
            self.sized(),
        ensures
            lens@ == sizes::layer_lengths_of(self.config),
    {
        let mut lens: Vec<usize> = Vec::new();
        lens.push(self.embed.weight.len());
        lens.push(self.norm_attn.weight.len());
        lens.push(self.attn.w_q.weight.len());
        lens.push(self.attn.w_k.weight.len());
        lens.push(self.attn.w_v.weight.len());
        lens.push(self.attn.w_o.weight.len());
        lens.push(self.norm_ffn.weight.len());
        lens.push(self.ffn.w1.weight.len());
        lens.push(self.ffn.w2.weight.len());
        lens.push(self.norm_final.weight.len());
        lens.push(self.lm_head.weight.len());
        proof {
            sizes::lemma_products(self.config);
        }
        assert(lens@ =~= sizes::layer_lengths_of(self.config));
        lens
    }
}

/// What the generation of bytes does next.
#[derive(Debug, Clone, Copy, PartialEq, Eq, Structural)]
pub enum ByteAction {
    /// Run the model on a byte.
    Feed(u8),
    /// Choose the next byte by the last logits.
    Choose,
    /// Nothing: generation has ended.
    Done,
}

/// Whether a byte ends generation: zero or a line feed.
pub open spec fn ends_line(byte: u8) -> bool {
    byte == 0 || byte == 10
}

/// A generation of bytes in progress.
pub struct ByteGeneration {
    /// The prompt.
    pub prompt: Vec<u8>,
    /// The bytes generated.
    pub generated: Vec<u8>,
    /// How much of the prompt the model has seen.
    pub fed_prompt: usize,
    /// How many of the bytes generated the model has seen.
    pub fed_generated: usize,
    /// The greatest number of bytes to generate.
    pub max_bytes: usize,
    /// Whether a byte has ended generation.
    pub stopped: bool,
}

impl ByteGeneration {
    /// The model has seen the prompt before it generates, and every byte generated but, at most,
    /// the last; no byte generated ends a line.
    pub open spec fn well_formed(self) -> bool {
        &&& self.fed_prompt <= self.prompt@.len()
        &&& self.fed_generated <= self.generated@.len() <= self.fed_generated + 1
        &&& self.generated@.len() <= self.max_bytes
        &&& self.generated@.len() > 0 || self.stopped ==> self.fed_prompt == self.prompt@.len()
        &&& self.stopped ==> self.fed_generated == self.generated@.len()
        &&& forall|i: int|
            0 <= i < self.generated@.len() ==> !ends_line(#[trigger] self.generated@[i])
    }

    /// What to do next.
    pub open spec fn next_action(self) -> ByteAction {
        if self.fed_prompt < self.prompt@.len() {
            ByteAction::Feed(self.prompt@[self.fed_prompt as int])
        } else if self.fed_generated < self.generated@.len() {
            ByteAction::Feed(self.generated@[self.fed_generated as int])
        } else if self.stopped || self.generated@.len() == self.max_bytes {
            ByteAction::Done
        } else {
            ByteAction::Choose
        }
    }

    /// Begins a generation.
    pub fn new(prompt: &[u8], max_bytes: usize) -> (run: Self)
        ensures
            run.well_formed(),
            run.prompt@ == prompt@,
            run.generated@.len() == 0,
            run.fed_prompt == 0,
            run.fed_generated == 0,
            run.max_bytes == max_bytes,
            !run.stopped,
    {
        let mut copy: Vec<u8> = Vec::new();
        for i in 0..prompt.len()
            invariant
                copy@ == prompt@.take(i as int),
        {
            copy.push(prompt[i]);
            assert(copy@ =~= prompt@.take(i + 1));
        }
        assert(copy@ =~= prompt@);
        ByteGeneration {
            prompt: copy,
            generated: Vec::new(),
            fed_prompt: 0,
            fed_generated: 0,
            max_bytes,
            stopped: false,
        }
    }

    /// What to do next.
    pub fn action(&self) -> (action: ByteAction)
        requires
            self.well_formed(),
        ensures
            action == self.next_action(),
    {
        if self.fed_prompt < self.prompt.len() {
            ByteAction::Feed(self.prompt[self.fed_prompt])
        } else if self.fed_generated < self.generated.len() {
            ByteAction::Feed(self.generated[self.fed_generated])
        } else if self.stopped || self.generated.len() == self.max_bytes {
            ByteAction::Done
        } else {
            ByteAction::Choose
        }
    }

    /// Notes that the model has seen the byte asked for.
    pub fn note_fed(&mut self)
        requires
            old(self).well_formed(),
            old(self).next_action() is Feed,
        ensures
            final(self).well_formed(),
            final(self).prompt == old(self).prompt,
            final(self).generated == old(self).generated,
            final(self).max_bytes == old(self).max_bytes,
            final(self).stopped == old(self).stopped,
            if old(self).fed_prompt < old(self).prompt@.len() {
                &&& final(self).fed_prompt == old(self).fed_prompt + 1
                &&& final(self).fed_generated == old(self).fed_generated
            } else {
                &&& final(self).fed_prompt == old(self).fed_prompt
                &&& final(self).fed_generated == old(self).fed_generated + 1
            },
    {
        if self.fed_prompt < self.prompt.len() {
            self.fed_prompt = self.fed_prompt + 1;
        } else {
            self.fed_generated = self.fed_generated + 1;
        }
    }

    /// Takes the byte chosen: one that ends a line ends generation, any other is generated.
    pub fn accept(&mut self, byte: u8)
        requires
            old(self).well_formed(),
            old(self).next_action() is Choose,
        ensures
            final(self).well_formed(),
            final(self).prompt == old(self).prompt,
            final(self).fed_prompt == old(self).fed_prompt,
            final(self).fed_generated == old(self).fed_generated,
            final(self).max_bytes == old(self).max_bytes,
            final(self).stopped == ends_line(byte),
            final(self).generated@ == if ends_line(byte) {
                old(self).generated@
            } else {
                old(self).generated@.push(byte)
            },
    {
        if byte == 0 || byte == 10 {
            self.stopped = true;
        } else {
            self.generated.push(byte);
        }
    }
}

/// What is generated is one line, no longer than asked for; where generation is done, the model
/// has seen the prompt and all of it.
pub proof fn law_generated_bytes_are_one_line(run: ByteGeneration)
    requires
        run.well_formed(),
    ensures
        run.generated@.len() <= run.max_bytes,
        !run.generated@.contains(0u8),
        !run.generated@.contains(10u8),
        run.next_action() is Done ==> run.fed_prompt == run.prompt@.len() && run.fed_generated
            == run.generated@.len(),
{
}

/// Only a zero and a line feed end a line.
pub proof fn law_line_ends(byte: u8)
    ensures
        ends_line(byte) <==> set![0u8, 10u8].contains(byte),
{
}

/// The prompt is fed first and in order, then each byte generated; a choice is asked for only when
/// the model has seen everything, no byte has ended the line, and fewer bytes are there than may
/// be; and generation is over exactly where everything has been seen and one of the two is not so.
pub proof fn law_byte_actions_are_due(run: ByteGeneration)
    requires
        run.well_formed(),
    ensures
        ({
            let text = run.prompt@ + run.generated@;
            let seen = run.fed_prompt + run.fed_generated;
            &&& run.next_action() is Feed <==> seen < text.len()
            &&& run.next_action() matches ByteAction::Feed(byte) ==> byte == text[seen]
            &&& run.next_action() is Choose <==> seen == text.len() && !run.stopped
                && run.generated@.len() < run.max_bytes
            &&& run.next_action() is Done <==> seen == text.len() && (run.stopped
                || run.generated@.len() >= run.max_bytes)
        }),
{
}

} // verus!
