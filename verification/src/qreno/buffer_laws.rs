//! What is in every buffer of the byte-level tokenizer, and which numbers it is seeded with.

use vstd::prelude::*;

use crate::classic::buffer_laws::holds;
use crate::qreno::field::QrenoField;
use crate::qreno::field;
use crate::qreno::measure;
use crate::qreno::model::{QrenoConfig, QrenoGrad};
use crate::xorshift;

verus! {

/// The charges of the bytes lie one behind the other, each component in its place.
pub proof fn law_charges_are_laid_out<T>(
    field: QrenoField<T>,
    byte: u8,
    j: int,
)
    requires
        field.well_formed(),
        0 <= j < field.field_dim,
    ensures
        field.charges@.len() == 256 * field.field_dim,
        field.epsilon@.len() == 256 && field.omega@.len() == 256,
        field.charge_of(byte).len() == field.field_dim,
        field.charge_of(byte)[j] == field.charges@[byte * field.field_dim + j],
{
    assert(0 <= byte * field.field_dim && byte * field.field_dim + field.field_dim <= 256
        * field.field_dim) by (nonlinear_arith)
        requires
            byte <= 255,
    ;
}

/// Gradients that hold one element hold it in every place of every buffer.
pub proof fn law_gradients_hold_their_element<T>(
    grad: QrenoGrad<T>,
    config: QrenoConfig,
    element: T,
    i: int,
)
    requires
        grad.shaped(config),
        grad.uniform(element),
    ensures
        holds(grad.charges_grad, 256 * config.field_dim, element, i),
        holds(grad.epsilon_grad, 256, element, i),
        holds(grad.omega_grad, 256, element, i),
        holds(grad.w_bond_grad, config.field_dim as int, element, i),
        grad.b_bond_grad == element,
        holds(grad.w_o_grad, config.d_model * config.field_dim, element, i),
{
}

/// The seed of a byte's charge is the low word of a product with the byte, mixed with a mask.
pub proof fn law_charge_seeds_are_low_words(byte: u8, high: int, low: u64)
    requires
        byte * 0x9e3779b97f4a7c15 == high * 0x1_0000_0000_0000_0000 + low,
    ensures
        field::charge_seed(byte) == low ^ 0xbf58476d1ce4e5b9,
{
    vstd::arithmetic::div_mod::lemma_fundamental_div_mod_converse(
        byte * 0x9e3779b97f4a7c15,
        0x1_0000_0000_0000_0000,
        high,
        low as int,
    );
}

/// The weight at a place of the projection is the mantissa of one step from a seed: the low word of
/// a product with the place, mixed with a mask.
pub proof fn law_weight_seeds_are_low_words(index: u64, high: int, low: u64)
    requires
        index * 0x517cc1b727220a95 == high * 0x1_0000_0000_0000_0000 + low,
    ensures
        ({
            let drawn = xorshift::nth(low ^ 0x6a09e667f3bcc908, 1);
            measure::weight_mantissa(index as nat) * 0x100_0000_0000 <= drawn < (
            measure::weight_mantissa(index as nat) + 1) * 0x100_0000_0000
        }),
{
    vstd::arithmetic::div_mod::lemma_fundamental_div_mod_converse(
        index * 0x517cc1b727220a95,
        0x1_0000_0000_0000_0000,
        high,
        low as int,
    );
    let seed = low ^ 0x6a09e667f3bcc908;
    reveal_with_fuel(xorshift::nth, 2);
    xorshift::law_numbers_are_steps_apart(seed, 1, 0);
}

} // verus!
