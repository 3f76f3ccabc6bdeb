//! The weights of multi-head attention.

use vstd::prelude::*;

verus! {

/// Multi-head attention weights of one layer: four square projections and their biases.
#[derive(Debug, Clone)]
pub struct MultiHeadAttention<T> {
    pub w_q: Vec<T>,
    pub b_q: Option<Vec<T>>,
    pub w_k: Vec<T>,
    pub b_k: Option<Vec<T>>,
    pub w_v: Vec<T>,
    pub b_v: Option<Vec<T>>,
    pub w_o: Vec<T>,
    pub b_o: Option<Vec<T>>,
    pub d_model: usize,
    pub n_heads: usize,
    pub head_dim: usize,
    /// The factor by which attention scores are scaled.
    pub scale: T,
}

} // verus!
