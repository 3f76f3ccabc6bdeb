//! Configuration, weights, gradients and optimiser state of the byte-level tokenizer.

use vstd::prelude::*;

use crate::classic::cache::blank_buffer;
use crate::classic::cache;
use crate::classic::train::refill;
use crate::qreno::field::{BYTES, QrenoField};
use crate::qreno::field;
use crate::qreno::hamiltonian::{BondParams, Cluster, partition_into_clusters};
use crate::qreno::hamiltonian;
use crate::qreno::measure::OperatorMeasure;

verus! {

/// Hyperparameters of the tokenizer. Fractions are given by bit patterns.
#[derive(Debug, Clone, Copy, PartialEq, Eq, Structural)]
pub struct QrenoConfig {
    /// Dimension of the field.
    pub field_dim: usize,
    /// Dimension of the model.
    pub d_model: usize,
    /// Greatest length of a cluster.
    pub max_cluster_len: usize,
    /// Strength below which a bond breaks.
    pub bond_threshold: u32,
    /// What keeps the divisor of the norm from zero.
    pub rms_eps: u32,
}

/// The bit pattern of 0.5.
pub const HALF_BITS: u32 = 0x3f000000;

/// The bit pattern of 0.00001.
pub const RMS_EPS_BITS: u32 = 0x3727c5ac;

impl Default for QrenoConfig {
    fn default() -> (config: Self)
        ensures
            config.field_dim == 8,
            config.d_model == 16,
            config.max_cluster_len == 16,
            config.bond_threshold == HALF_BITS,
            config.rms_eps == RMS_EPS_BITS,
    {
        QrenoConfig {
            field_dim: 8,
            d_model: 16,
            max_cluster_len: 16,
            bond_threshold: HALF_BITS,
            rms_eps: RMS_EPS_BITS,
        }
    }
}

impl QrenoConfig {
    /// Partitions bytes into clusters, which end where a bond falls below the threshold of the
    /// configuration. `bonds` holds the strength of the bond behind each byte but the last, as a
    /// bit pattern.
    pub fn tokenize_to_clusters(&self, bytes: &[u8], bonds: &[u32]) -> (clusters: Vec<Cluster>)
        requires
            bytes@.len() <= bonds@.len() + 1,
        ensures
            clusters@ == hamiltonian::clusters_of(
                bytes@,
                bonds@,
                self.bond_threshold,
                self.max_cluster_len as nat,
            ),
    {
        partition_into_clusters(bytes, bonds, self.bond_threshold, self.max_cluster_len)
    }
}

/// The number of parameters of a configuration.
pub open spec fn param_total(config: QrenoConfig) -> int {
    (256 * config.field_dim + 512) + (config.field_dim + 1) + config.d_model * config.field_dim
}

/// The weights of the tokenizer.
#[derive(Debug, Clone)]
pub struct QrenoWeights<T> {
    /// The field over the bytes.
    pub field: QrenoField<T>,
    /// The bonds.
    pub bond: BondParams<T>,
    /// The projection.
    pub measure: OperatorMeasure<T>,
}

impl<T> QrenoWeights<T> {
    /// All parts have the dimensions of the configuration.
    pub open spec fn shaped(self, config: QrenoConfig) -> bool {
        &&& self.field.well_formed()
        &&& self.field.field_dim == config.field_dim
        &&& self.bond.w_bond@.len() == config.field_dim
        &&& self.measure.well_formed()
        &&& self.measure.d_model == config.d_model
        &&& self.measure.field_dim == config.field_dim
    }

    /// The number of parameters.
    pub fn param_count(&self, config: &QrenoConfig) -> (count: usize)
        requires
            self.shaped(*config),
            param_total(*config) <= usize::MAX,
        ensures
            count == param_total(*config),
    {
        self.field.param_count() + self.bond.param_count() + self.measure.param_count()
    }
}

/// The gradients of all weights.
#[derive(Debug, Clone)]
pub struct QrenoGrad<T> {
    /// Of the charges.
    pub charges_grad: Vec<T>,
    /// Of the potentials.
    pub epsilon_grad: Vec<T>,
    /// Of the phases.
    pub omega_grad: Vec<T>,
    /// Of the bond weights.
    pub w_bond_grad: Vec<T>,
    /// Of the bond bias.
    pub b_bond_grad: T,
    /// Of the projection.
    pub w_o_grad: Vec<T>,
}

impl<T> QrenoGrad<T> {
    /// Every buffer has the size that the configuration gives.
    pub open spec fn shaped(self, config: QrenoConfig) -> bool {
        &&& self.charges_grad@.len() == 256 * config.field_dim
        &&& self.epsilon_grad@.len() == 256
        &&& self.omega_grad@.len() == 256
        &&& self.w_bond_grad@.len() == config.field_dim
        &&& self.w_o_grad@.len() == config.d_model * config.field_dim
    }

    /// Every element is the same.
    pub open spec fn uniform(self, element: T) -> bool {
        &&& cache::blank(self.charges_grad, self.charges_grad@.len() as int, element)
        &&& cache::blank(self.epsilon_grad, self.epsilon_grad@.len() as int, element)
        &&& cache::blank(self.omega_grad, self.omega_grad@.len() as int, element)
        &&& cache::blank(self.w_bond_grad, self.w_bond_grad@.len() as int, element)
        &&& self.b_bond_grad == element
        &&& cache::blank(self.w_o_grad, self.w_o_grad@.len() as int, element)
    }

    /// The number of elements.
    pub open spec fn total(self) -> nat {
        self.charges_grad@.len() + self.epsilon_grad@.len() + self.omega_grad@.len()
            + self.w_bond_grad@.len() + 1 + self.w_o_grad@.len()
    }
}

/// The buffers of a configuration can be indexed by machine integers.
pub open spec fn allocatable(config: QrenoConfig) -> bool {
    &&& field::chargeable(config.field_dim as nat)
    &&& config.d_model * config.field_dim <= usize::MAX
}

impl<T: Copy> QrenoGrad<T> {
    /// Allocates the gradients of a configuration.
    pub fn new(config: &QrenoConfig, zero: T) -> (grad: Self)
        requires
            allocatable(*config),
        ensures
            grad.shaped(*config),
            grad.uniform(zero),
    {
        QrenoGrad {
            charges_grad: blank_buffer(zero, BYTES * config.field_dim),
            epsilon_grad: blank_buffer(zero, BYTES),
            omega_grad: blank_buffer(zero, BYTES),
            w_bond_grad: blank_buffer(zero, config.field_dim),
            b_bond_grad: zero,
            w_o_grad: blank_buffer(zero, config.d_model * config.field_dim),
        }
    }

    /// Resets every gradient to zero.
    pub fn zero(&mut self, zero: T)
        ensures
            final(self).uniform(zero),
            forall|config: QrenoConfig| #![trigger final(self).shaped(config)]
                old(self).shaped(config) == final(self).shaped(config),
    {
        refill(&mut self.charges_grad, zero);
        refill(&mut self.epsilon_grad, zero);
        refill(&mut self.omega_grad, zero);
        refill(&mut self.w_bond_grad, zero);
        self.b_bond_grad = zero;
        refill(&mut self.w_o_grad, zero);
    }
}

/// There is one gradient for each parameter.
pub proof fn law_one_gradient_for_each_parameter<T>(grad: QrenoGrad<T>, config: QrenoConfig)
    requires
        grad.shaped(config),
    ensures
        grad.total() == param_total(config),
{
}

/// The state of the optimiser.
#[derive(Debug, Clone)]
pub struct QrenoAdamW<T> {
    /// Learning rate.
    pub lr: T,
    /// Decay of the first moments.
    pub beta1: T,
    /// Decay of the second moments.
    pub beta2: T,
    /// What keeps the divisor from zero.
    pub eps: T,
    /// Decay of the weights.
    pub weight_decay: T,
    /// Number of updates made.
    pub step: usize,
    /// First moments.
    pub m: QrenoGrad<T>,
    /// Second moments.
    pub v: QrenoGrad<T>,
}

impl<T: Copy> QrenoAdamW<T> {
    /// An optimiser that has made no update.
    pub fn new(
        config: &QrenoConfig,
        zero: T,
        lr: T,
        beta1: T,
        beta2: T,
        eps: T,
        weight_decay: T,
    ) -> (optimizer: Self)
        requires
            allocatable(*config),
        ensures
            optimizer.m.shaped(*config),
            optimizer.m.uniform(zero),
            optimizer.v.shaped(*config),
            optimizer.v.uniform(zero),
            optimizer.step == 0,
            optimizer.lr == lr,
            optimizer.beta1 == beta1,
            optimizer.beta2 == beta2,
            optimizer.eps == eps,
            optimizer.weight_decay == weight_decay,
    {
        QrenoAdamW {
            lr,
            beta1,
            beta2,
            eps,
            weight_decay,
            step: 0,
            m: QrenoGrad::new(config, zero),
            v: QrenoGrad::new(config, zero),
        }
    }
}

} // verus!
