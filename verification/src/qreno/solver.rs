//! The ground state of a cluster.

use vstd::prelude::*;
use vstd::slice::slice_subrange;

verus! {

/// The lowest state of a cluster: its energy and its wave function.
#[derive(Debug, Clone)]
pub struct GroundState<T> {
    /// Energy.
    pub energy: T,
    /// Amplitudes, of which the first `len` count.
    pub psi: Vec<T>,
    /// Length of the cluster.
    pub len: usize,
}

impl<T> GroundState<T> {
    /// The amplitudes that count.
    pub fn psi_slice(&self) -> (part: &[T])
        requires
            self.len <= self.psi@.len(),
        ensures
            part@ == self.psi@.take(self.len as int),
    {
        let part: &[T] = slice_subrange(self.psi.as_slice(), 0, self.len);
        assert(part@ =~= self.psi@.take(self.len as int));
        part
    }
}

} // verus!
