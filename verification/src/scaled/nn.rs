//! Layers of the scaled models: their shapes, parameters and gradients.

use vstd::prelude::*;

use crate::classic::cache::blank_buffer;
use crate::classic::cache;
use crate::classic::train::refill;

verus! {

/// A part of a model with parameters and their gradients.
pub trait Module {
    /// What parameters are made of.
    type Element;

    /// All buffers have the sizes that the dimensions give.
    spec fn sized(&self) -> bool;

    /// Dimension of the input.
    spec fn inputs(&self) -> nat;

    /// Dimension of the output.
    spec fn outputs(&self) -> nat;

    /// Number of parameters.
    spec fn params(&self) -> nat;

    /// The parameters, one behind the other.
    spec fn weights(&self) -> Seq<Self::Element>;

    /// Every gradient is this element.
    spec fn cleared(&self, zero: Self::Element) -> bool;

    /// Dimension of the input.
    fn in_dim(&self) -> (dim: usize)
        requires
            self.sized(),
        ensures
            dim == self.inputs(),
    ;

    /// Dimension of the output.
    fn out_dim(&self) -> (dim: usize)
        requires
            self.sized(),
        ensures
            dim == self.outputs(),
    ;

    /// Number of parameters.
    fn param_count(&self) -> (count: usize)
        requires
            self.sized(),
            self.params() <= usize::MAX,
        ensures
            count == self.params(),
    ;

    /// Resets every gradient, and nothing else.
    fn zero_grad(&mut self, zero: Self::Element)
        requires
            old(self).sized(),
        ensures
            final(self).sized(),
            final(self).cleared(zero),
            final(self).weights() == old(self).weights(),
            final(self).inputs() == old(self).inputs(),
            final(self).outputs() == old(self).outputs(),
            final(self).params() == old(self).params(),
    ;
}

/// Normalisation by the root of the mean square.
#[derive(Debug, Clone)]
pub struct ScaledRMSNorm<T> {
    /// Dimension.
    pub dim: usize,
    /// Scale of each component.
    pub weight: Vec<T>,
    /// Gradients of the scales.
    pub grad: Vec<T>,
    /// What keeps the divisor from zero.
    pub eps: T,
}

impl<T: Copy> ScaledRMSNorm<T> {
    /// A norm that scales every component by one and has no gradients.
    pub open spec fn is_unit(self, dim: usize, eps: T, zero: T, one: T) -> bool {
        &&& self.sized()
        &&& self.dim == dim
        &&& self.eps == eps
        &&& cache::blank(self.weight, dim as int, one)
        &&& self.cleared(zero)
    }

    /// A norm that scales every component alike.
    pub fn new(dim: usize, eps: T, zero: T, one: T) -> (norm: Self)
        ensures
            norm.is_unit(dim, eps, zero, one),
    {
        ScaledRMSNorm { dim, weight: blank_buffer(one, dim), grad: blank_buffer(zero, dim), eps }
    }
}

impl<T: Copy> Module for ScaledRMSNorm<T> {
    type Element = T;

    open spec fn sized(&self) -> bool {
        self.weight@.len() == self.dim && self.grad@.len() == self.dim
    }

    open spec fn inputs(&self) -> nat {
        self.dim as nat
    }

    open spec fn outputs(&self) -> nat {
        self.dim as nat
    }

    open spec fn params(&self) -> nat {
        self.dim as nat
    }

    open spec fn weights(&self) -> Seq<T> {
        self.weight@
    }

    open spec fn cleared(&self, zero: T) -> bool {
        cache::blank(self.grad, self.dim as int, zero)
    }

    fn in_dim(&self) -> (dim: usize) {
        self.dim
    }

    fn out_dim(&self) -> (dim: usize) {
        self.dim
    }

    fn param_count(&self) -> (count: usize) {
        self.dim
    }

    fn zero_grad(&mut self, zero: T)
        ensures
            final(self).eps == old(self).eps,
    {
        refill(&mut self.grad, zero);
    }
}

/// Linear projection without bias.
#[derive(Debug, Clone)]
pub struct ScaledLinear<T> {
    /// Dimension of the input.
    pub in_features: usize,
    /// Dimension of the output.
    pub out_features: usize,
    /// The weights, row by row.
    pub weight: Vec<T>,
    /// Gradients of the weights.
    pub grad: Vec<T>,
}

impl<T: Copy> ScaledLinear<T> {
    /// A projection of the given dimensions with zero everywhere and no gradients.
    pub open spec fn is_blank(self, in_features: usize, out_features: usize, zero: T) -> bool {
        &&& self.sized()
        &&& self.in_features == in_features
        &&& self.out_features == out_features
        &&& cache::blank(self.weight, in_features * out_features, zero)
        &&& self.cleared(zero)
    }

    /// A projection with the same weight everywhere.
    pub fn new(in_features: usize, out_features: usize, zero: T) -> (linear: Self)
        requires
            in_features * out_features <= usize::MAX,
        ensures
            linear.is_blank(in_features, out_features, zero),
    {
        let n: usize = in_features * out_features;
        ScaledLinear {
            in_features,
            out_features,
            weight: blank_buffer(zero, n),
            grad: blank_buffer(zero, n),
        }
    }
}

impl<T: Copy> Module for ScaledLinear<T> {
    type Element = T;

    open spec fn sized(&self) -> bool {
        &&& self.weight@.len() == self.in_features * self.out_features
        &&& self.grad@.len() == self.in_features * self.out_features
    }

    open spec fn inputs(&self) -> nat {
        self.in_features as nat
    }

    open spec fn outputs(&self) -> nat {
        self.out_features as nat
    }

    open spec fn params(&self) -> nat {
        self.in_features as nat * self.out_features as nat
    }

    open spec fn weights(&self) -> Seq<T> {
        self.weight@
    }

    open spec fn cleared(&self, zero: T) -> bool {
        cache::blank(self.grad, self.in_features * self.out_features, zero)
    }

    fn in_dim(&self) -> (dim: usize) {
        self.in_features
    }

    fn out_dim(&self) -> (dim: usize) {
        self.out_features
    }

    fn param_count(&self) -> (count: usize) {
        self.weight.len()
    }

    fn zero_grad(&mut self, zero: T) {
        refill(&mut self.grad, zero);
    }
}

/// Two projections with a rectifier between them.
#[derive(Debug, Clone)]
pub struct ScaledFFN<T> {
    /// Into the hidden dimension.
    pub w1: ScaledLinear<T>,
    /// Out of it.
    pub w2: ScaledLinear<T>,
}

impl<T: Copy> ScaledFFN<T> {
    /// A block of the given dimensions with zero everywhere and no gradients.
    pub open spec fn is_blank(self, d_model: usize, d_ff: usize, zero: T) -> bool {
        &&& self.sized()
        &&& self.w1.is_blank(d_model, d_ff, zero)
        &&& self.w2.is_blank(d_ff, d_model, zero)
        &&& self.cleared(zero)
    }

    /// A block with the same weight everywhere.
    pub fn new(d_model: usize, d_ff: usize, zero: T) -> (block: Self)
        requires
            d_model * d_ff <= usize::MAX,
        ensures
            block.is_blank(d_model, d_ff, zero),
    {
        assert(d_model * d_ff == d_ff * d_model) by (nonlinear_arith);
        ScaledFFN {
            w1: ScaledLinear::new(d_model, d_ff, zero),
            w2: ScaledLinear::new(d_ff, d_model, zero),
        }
    }
}

impl<T: Copy> Module for ScaledFFN<T> {
    type Element = T;

    open spec fn sized(&self) -> bool {
        &&& self.w1.sized()
        &&& self.w2.sized()
        &&& self.w1.out_features == self.w2.in_features
    }

    open spec fn inputs(&self) -> nat {
        self.w1.in_features as nat
    }

    open spec fn outputs(&self) -> nat {
        self.w2.out_features as nat
    }

    open spec fn params(&self) -> nat {
        self.w1.params() + self.w2.params()
    }

    open spec fn weights(&self) -> Seq<T> {
        self.w1.weights() + self.w2.weights()
    }

    open spec fn cleared(&self, zero: T) -> bool {
        self.w1.cleared(zero) && self.w2.cleared(zero)
    }

    fn in_dim(&self) -> (dim: usize) {
        self.w1.in_features
    }

    fn out_dim(&self) -> (dim: usize) {
        self.w2.out_features
    }

    fn param_count(&self) -> (count: usize) {
        self.w1.param_count() + self.w2.param_count()
    }

    fn zero_grad(&mut self, zero: T)
        ensures
            final(self).w1.weight@ == old(self).w1.weight@,
            final(self).w2.weight@ == old(self).w2.weight@,
            final(self).w1.in_features == old(self).w1.in_features,
            final(self).w1.out_features == old(self).w1.out_features,
            final(self).w2.in_features == old(self).w2.in_features,
            final(self).w2.out_features == old(self).w2.out_features,
    {
        self.w1.zero_grad(zero);
        self.w2.zero_grad(zero);
    }
}

/// The state of the optimiser over a flat list of parameters.
#[derive(Debug, Clone)]
pub struct ScaledAdamW<T> {
    /// Learning rate.
    pub lr: T,
    /// Decay of the first moments.
    pub beta1: T,
    /// Decay of the second moments.
    pub beta2: T,
    /// What keeps the divisor from zero.
    pub eps: T,
    /// Decay of the weights.
    pub weight_decay: T,
    /// Number of updates made.
    pub step: usize,
    /// First moments.
    pub m: Vec<T>,
    /// Second moments.
    pub v: Vec<T>,
}

impl<T: Copy> ScaledAdamW<T> {
    /// An optimiser that has made no update.
    pub fn new(
        param_count: usize,
        zero: T,
        lr: T,
        beta1: T,
        beta2: T,
        eps: T,
        weight_decay: T,
    ) -> (optimizer: Self)
        ensures
            cache::blank(optimizer.m, param_count as int, zero),
            cache::blank(optimizer.v, param_count as int, zero),
            optimizer.step == 0,
            optimizer.lr == lr,
            optimizer.beta1 == beta1,
            optimizer.beta2 == beta2,
            optimizer.eps == eps,
            optimizer.weight_decay == weight_decay,
    {
        ScaledAdamW {
            lr,
            beta1,
            beta2,
            eps,
            weight_decay,
            step: 0,
            m: blank_buffer(zero, param_count),
            v: blank_buffer(zero, param_count),
        }
    }
}

/// The sum of the first lengths.
pub open spec fn length_before(lens: Seq<usize>, i: nat) -> nat
    decreases i,
{
    if i == 0 {
        0
    } else {
        length_before(lens, (i - 1) as nat) + lens[i - 1] as nat
    }
}

/// Where the moments of each layer begin in the flat list of parameters.
pub fn layer_offsets(lens: &[usize]) -> (offsets: Vec<usize>)
    requires
        length_before(lens@, lens@.len()) <= usize::MAX,
    ensures
        offsets@.len() == lens@.len(),
        forall|i: int|
            0 <= i < offsets@.len() ==> #[trigger] offsets@[i] == length_before(lens@, i as nat),
{
    let mut offsets: Vec<usize> = Vec::new();
    let mut offset: usize = 0;
    for i in 0..lens.len()
        invariant
            length_before(lens@, lens@.len()) <= usize::MAX,
            offset == length_before(lens@, i as nat),
            offsets@.len() == i,
            forall|j: int|
                0 <= j < i ==> #[trigger] offsets@[j] == length_before(lens@, j as nat),
    {
        offsets.push(offset);
        proof {
            law_layers_do_not_overlap(lens@, (i + 1) as nat, lens@.len());
        }
        offset = offset + lens[i];
    }
    offsets
}

/// The moments of a layer lie behind those of every earlier layer.
pub proof fn law_layers_do_not_overlap(lens: Seq<usize>, first: nat, second: nat)
    requires
        first <= second <= lens.len(),
    ensures
        length_before(lens, first) <= length_before(lens, second),
        first < second ==> length_before(lens, first) + lens[first as int] <= length_before(
            lens,
            second,
        ),
    decreases second - first,
{
    if first < second {
        if first + 1 < second {
            law_layers_do_not_overlap(lens, first, (second - 1) as nat);
        }
    }
}

} // verus!
