//! Accounting of the arithmetic that training and inference take.

use vstd::prelude::*;

verus! {

/// The floating-point operations of a training run: six for each parameter, token and epoch.
pub open spec fn training_total(params: nat, tokens: nat, epochs: nat) -> nat {
    6 * params * tokens * epochs
}

/// The floating-point operations of a training run.
pub fn total_training_flops(params: usize, tokens: usize, epochs: usize) -> (flops: u64)
    requires
        training_total(params as nat, tokens as nat, epochs as nat) <= u64::MAX,
        6 * params * tokens <= u64::MAX,
        6 * params <= u64::MAX,
    ensures
        flops == training_total(params as nat, tokens as nat, epochs as nat),
{
    6u64 * (params as u64) * (tokens as u64) * (epochs as u64)
}

/// The floating-point operations of one generated token: two for each parameter.
pub fn inference_flops(params: usize) -> (flops: u64)
    requires
        2 * params <= u64::MAX,
    ensures
        flops == 2 * params,
{
    2u64 * (params as u64)
}

/// The number of base sequences that make up a quarter of a mix with `dialogues` dialogues: a
/// third of them, rounded to the nearest number.
pub open spec fn quarter_of_mix(dialogues: nat) -> nat {
    (dialogues + 1) / 3
}

/// The number of base sequences that make up a quarter of a mix.
pub fn replay_count(dialogues: usize) -> (count: usize)
    ensures
        count == quarter_of_mix(dialogues as nat),
{
    if dialogues % 3 == 2 {
        dialogues / 3 + 1
    } else {
        dialogues / 3
    }
}

/// No whole number of base sequences is nearer to a third of the dialogues.
pub proof fn law_replay_count_is_nearest(dialogues: nat, other: nat)
    ensures
        ({
            let off = 3 * quarter_of_mix(dialogues) - dialogues;
            let other_off = 3 * other - dialogues;
            &&& -1 <= off <= 1
            &&& (if off < 0 {
                -off
            } else {
                off
            }) <= (if other_off < 0 {
                -other_off
            } else {
                other_off
            })
        }),
{
}

/// Each epoch takes six operations for each parameter and token, and no epoch takes none.
pub proof fn law_epochs_add_operations(params: nat, tokens: nat, epochs: nat)
    ensures
        training_total(params, tokens, 0) == 0,
        training_total(params, tokens, epochs + 1) == training_total(params, tokens, epochs) + 6 * (
        params * tokens),
{
    assert(6 * params * tokens * (epochs + 1) == 6 * params * tokens * epochs + 6 * (params
        * tokens)) by (nonlinear_arith);
}

} // verus!
