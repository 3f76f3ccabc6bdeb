//! The field over the bytes: a charge vector, a potential and a phase for each of them.

use vstd::prelude::*;
use vstd::slice::slice_subrange;

use crate::classic::cache::blank_buffer;
use crate::classic::cache;
use crate::xorshift;

verus! {

/// Number of bytes.
pub const BYTES: usize = 256;

/// The factor that spreads the bytes over the seeds of their charges.
pub const CHARGE_SEED_FACTOR: u64 = 0x9e3779b97f4a7c15;

/// What every seed of a charge is mixed with.
pub const CHARGE_SEED_MASK: u64 = 0xbf58476d1ce4e5b9;

/// The first byte that leads a sequence of several bytes.
pub const FIRST_LEAD_BYTE: u8 = 0xc0;

/// The parameters of the field.
#[derive(Debug, Clone)]
pub struct QrenoField<T> {
    /// Dimension of the charge vectors.
    pub field_dim: usize,
    /// The charge vectors, one behind the other.
    pub charges: Vec<T>,
    /// The potential of each byte.
    pub epsilon: Vec<T>,
    /// The phase of each byte.
    pub omega: Vec<T>,
}

/// The charges of a dimension can be indexed by machine integers.
pub open spec fn chargeable(field_dim: nat) -> bool {
    256 * field_dim + 512 <= usize::MAX
}

impl<T> QrenoField<T> {
    /// There is one charge vector, one potential and one phase for each byte.
    pub open spec fn well_formed(self) -> bool {
        &&& chargeable(self.field_dim as nat)
        &&& self.charges@.len() == 256 * self.field_dim
        &&& self.epsilon@.len() == 256
        &&& self.omega@.len() == 256
    }

    /// The charge vector of a byte.
    pub open spec fn charge_of(self, byte: u8) -> Seq<T> {
        self.charges@.subrange(
            byte * self.field_dim,
            byte * self.field_dim + self.field_dim,
        )
    }

    /// The charge vector of a byte.
    pub fn charge(&self, byte: u8) -> (part: &[T])
        requires
            self.well_formed(),
        ensures
            part@ == self.charge_of(byte),
            part@.len() == self.field_dim,
    {
        proof {
            lemma_charge_inside(byte as nat, self.field_dim as nat);
        }
        let offset: usize = (byte as usize) * self.field_dim;
        slice_subrange(self.charges.as_slice(), offset, offset + self.field_dim)
    }

    /// The number of parameters.
    pub fn param_count(&self) -> (count: usize)
        requires
            self.well_formed(),
        ensures
            count == 256 * self.field_dim + 512,
    {
        self.charges.len() + self.epsilon.len() + self.omega.len()
    }
}

proof fn lemma_charge_inside(byte: nat, field_dim: nat)
    requires
        byte < 256,
    ensures
        0 <= byte * field_dim,
        byte * field_dim + field_dim <= 256 * field_dim,
{
    assert(byte * field_dim + field_dim <= 256 * field_dim) by (nonlinear_arith)
        requires
            byte < 256,
    ;
}

impl<T: Copy> QrenoField<T> {
    /// A field that is the same everywhere.
    pub fn new(field_dim: usize, zero: T) -> (field: Self)
        requires
            chargeable(field_dim as nat),
        ensures
            field.well_formed(),
            field.field_dim == field_dim,
            cache::blank(field.charges, 256 * field_dim, zero),
            cache::blank(field.epsilon, 256, zero),
            cache::blank(field.omega, 256, zero),
    {
        QrenoField {
            field_dim,
            charges: blank_buffer(zero, BYTES * field_dim),
            epsilon: blank_buffer(zero, BYTES),
            omega: blank_buffer(zero, BYTES),
        }
    }

    /// The potential of a byte.
    pub fn epsilon(&self, byte: u8) -> (potential: T)
        requires
            self.well_formed(),
        ensures
            potential == self.epsilon@[byte as int],
    {
        self.epsilon[byte as usize]
    }

    /// The phase of a byte.
    pub fn omega(&self, byte: u8) -> (phase: T)
        requires
            self.well_formed(),
        ensures
            phase == self.omega@[byte as int],
    {
        self.omega[byte as usize]
    }

    /// Replaces the charge vector of a byte.
    pub fn set_charge(&mut self, byte: u8, charge: &[T])
        requires
            old(self).well_formed(),
            charge@.len() == old(self).field_dim,
        ensures
            final(self).well_formed(),
            final(self).field_dim == old(self).field_dim,
            final(self).epsilon == old(self).epsilon,
            final(self).omega == old(self).omega,
            final(self).charge_of(byte) == charge@,
            forall|other: u8| #![trigger final(self).charge_of(other)]
                other != byte ==> final(self).charge_of(other) == old(self).charge_of(other),
    {
        proof {
            lemma_charge_inside(byte as nat, self.field_dim as nat);
        }
        let dim: usize = self.field_dim;
        let offset: usize = (byte as usize) * dim;
        let ghost before = *self;
        for k in 0..dim
            invariant
                before.well_formed(),
                self.well_formed(),
                self.field_dim == dim,
                dim == before.field_dim,
                self.epsilon == before.epsilon,
                self.omega == before.omega,
                charge@.len() == dim,
                offset == byte * dim,
                offset + dim <= 256 * dim,
                forall|j: int|
                    0 <= j < self.charges@.len() ==> #[trigger] self.charges@[j] == if offset <= j
                        < offset + k {
                        charge@[j - offset]
                    } else {
                        before.charges@[j]
                    },
        {
            self.charges.set(offset + k, charge[k]);
        }
        assert(self.charge_of(byte) =~= charge@);
        assert forall|other: u8| other != byte implies self.charge_of(other) == before.charge_of(
            other,
        ) by {
            lemma_charge_inside(other as nat, dim as nat);
            lemma_charges_apart(byte as nat, other as nat, dim as nat);
            assert(self.charge_of(other) =~= before.charge_of(other));
        }
    }
}

proof fn lemma_charges_apart(first: nat, second: nat, field_dim: nat)
    requires
        first != second,
    ensures
        first < second ==> first * field_dim + field_dim <= second * field_dim,
        second < first ==> second * field_dim + field_dim <= first * field_dim,
{
    if first < second {
        assert(first * field_dim + field_dim <= second * field_dim) by (nonlinear_arith)
            requires
                first < second,
        ;
    } else {
        assert(second * field_dim + field_dim <= first * field_dim) by (nonlinear_arith)
            requires
                second < first,
        ;
    }
}

/// The seed of a byte's charge.
pub open spec fn charge_seed(byte: u8) -> u64 {
    (byte as u64).wrapping_mul(CHARGE_SEED_FACTOR) ^ CHARGE_SEED_MASK
}

/// Draws the raw components of a byte's charge, as numerators of fractions of 2 to the 24th.
pub fn charge_mantissas(byte: u8, field_dim: usize) -> (drawn: Vec<u32>)
    ensures
        drawn@ == xorshift::mantissas(charge_seed(byte), field_dim as nat),
{
    let seed: u64 = (byte as u64).wrapping_mul(CHARGE_SEED_FACTOR) ^ CHARGE_SEED_MASK;
    xorshift::draw_mantissas(seed, field_dim)
}

/// Whether a byte only leads others, so that its charge is damped.
pub fn is_damped(byte: u8) -> (damped: bool)
    ensures
        damped == (byte >= 0xc0),
{
    byte >= FIRST_LEAD_BYTE
}

/// Draws the perturbations of a seeded field, byte by byte: of the potential, of the phase and of
/// each component of the charge.
pub fn perturbation_mantissas(field_dim: usize, seed: u64) -> (drawn: Vec<u32>)
    requires
        chargeable(field_dim as nat),
    ensures
        drawn@ == xorshift::mantissas(seed ^ CHARGE_SEED_FACTOR, (256 * (field_dim + 2)) as nat),
{
    xorshift::draw_mantissas(seed ^ CHARGE_SEED_FACTOR, BYTES * (field_dim + 2))
}

} // verus!
