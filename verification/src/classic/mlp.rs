//! The weights of the feed-forward block.

use vstd::prelude::*;

use crate::classic::config::ActivationType;

verus! {

/// Feed-forward block: a projection up, an activation, a projection down.
#[derive(Debug, Clone)]
pub struct FeedForward<T> {
    pub w_1: Vec<T>,
    pub b_1: Option<Vec<T>>,
    pub w_2: Vec<T>,
    pub b_2: Option<Vec<T>>,
    pub activation: ActivationType,
    pub d_model: usize,
    pub d_ff: usize,
}

} // verus!
