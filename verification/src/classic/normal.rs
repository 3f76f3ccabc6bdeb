//! Draws behind normally distributed numbers: pairs of uniform numbers, the first of which must
//! not be too near to zero.

use vstd::prelude::*;

use crate::classic::rng::{FastRng, GOLDEN_GAMMA};
use crate::classic::rng;

verus! {

/// The inverse of the increment of the counter, modulo 2 to the 64th.
pub const GAMMA_INVERSE: u64 = 0xf1de83e19937733d;

/// The counter that is followed by one.
pub const ANCHOR: u64 = 0x61c8864680b583ec;

/// The 24-bit number that a counter gives.
pub open spec fn mantissa_at(state: u64) -> u32 {
    (rng::splitmix_output(state) >> 40) as u32
}

/// Whether a 24-bit number can be the first of a pair: as a fraction it exceeds one ten-millionth.
pub open spec fn usable(mantissa: u32) -> bool {
    mantissa > 1
}

/// How many steps a counter is before the anchor.
pub open spec fn steps_to_anchor(state: u64) -> nat {
    (((ANCHOR - state) * (GAMMA_INVERSE as int)) % 0x1_0000_0000_0000_0000) as nat
}

/// A step brings the counter one step nearer to the anchor, unless it is there.
pub proof fn lemma_step_approaches_anchor(state: u64)
    ensures
        state != ANCHOR ==> steps_to_anchor(state) > 0 && steps_to_anchor(
            rng::splitmix_advance(state),
        ) == steps_to_anchor(state) - 1,
{
    let m: int = 0x1_0000_0000_0000_0000;
    let inverse: int = GAMMA_INVERSE as int;
    let gamma: int = GOLDEN_GAMMA as int;
    let wraps: int = 10771413168148108919;
    assert(gamma * inverse == 1 + wraps * m);
    let next = rng::splitmix_advance(state);
    let carry: int = if state + gamma >= m {
        1
    } else {
        0
    };
    assert(next == state + gamma - carry * m) by {
        if state + gamma >= m {
            assert((state + gamma) % m == state + gamma - m) by (nonlinear_arith)
                requires
                    m <= state + gamma < 2 * m,
            ;
        } else {
            assert((state + gamma) % m == state + gamma) by (nonlinear_arith)
                requires
                    0 <= state + gamma < m,
            ;
        }
    }
    let x: int = ANCHOR - state;
    let y: int = ANCHOR - next;
    assert(y * inverse == x * inverse - 1 + (carry * inverse - wraps) * m) by (nonlinear_arith)
        requires
            y == x - gamma + carry * m,
            gamma * inverse == 1 + wraps * m,
    ;
    let a: int = x * inverse;
    let k: int = carry * inverse - wraps;
    vstd::arithmetic::div_mod::lemma_mod_multiples_vanish(k, a - 1, m);
    assert(m * k + (a - 1) == y * inverse) by (nonlinear_arith)
        requires
            y * inverse == a - 1 + k * m,
    ;
    assert((y * inverse) % m == (a - 1) % m);
    if state != ANCHOR {
        if a % m == 0 {
            let q: int = a / m;
            assert(a == m * q) by {
                vstd::arithmetic::div_mod::lemma_fundamental_div_mod(a, m);
            }
            assert(x == m * (q * gamma - x * wraps)) by (nonlinear_arith)
                requires
                    x * inverse == m * q,
                    gamma * inverse == 1 + wraps * m,
            ;
            let r: int = q * gamma - x * wraps;
            assert(r == 0) by (nonlinear_arith)
                requires
                    x == m * r,
                    -m < x < m,
                    m > 0,
            ;
            assert(x == 0) by (nonlinear_arith)
                requires
                    x == m * r,
                    r == 0,
            ;
        }
        vstd::arithmetic::div_mod::lemma_fundamental_div_mod(a, m);
        let q: int = a / m;
        let r: int = a % m;
        assert(0 < r < m);
        vstd::arithmetic::div_mod::lemma_mod_multiples_vanish(q, r - 1, m);
        assert((a - 1) % m == (r - 1) % m);
        assert((r - 1) % m == r - 1) by {
            vstd::arithmetic::div_mod::lemma_small_mod((r - 1) as nat, m as nat);
        }
    }
}

/// What follows the anchor is usable.
pub proof fn lemma_anchor_is_usable()
    ensures
        usable(mantissa_at(rng::splitmix_advance(ANCHOR))),
{
    assert(rng::splitmix_advance(ANCHOR) == 1);
    assert(1u64 ^ (1u64 >> 30) == 1) by (bit_vector);
    let a: u64 = 0xbf58476d1ce4e5b9;
    let x: u64 = 0xbf58477af7ec081a;
    assert(a ^ (a >> 27) == x) by (bit_vector)
        requires
            a == 0xbf58476d1ce4e5b9u64,
            x == 0xbf58477af7ec081au64,
    ;
    let b: u64 = 0x5692161dbd2f29de;
    assert((x * 0x94d049bb133111ebu64) % 0x1_0000_0000_0000_0000 == b);
    assert((b ^ (b >> 31)) >> 40 == 5673494) by (bit_vector)
        requires
            b == 0x5692161dbd2f29deu64,
    ;
    assert(rng::splitmix_output(1) == b ^ (b >> 31));
}

/// The first usable number behind a counter, and the counter that gave it.
pub open spec fn next_usable(state: u64) -> (u32, u64)
    decreases steps_to_anchor(state),
{
    let next = rng::splitmix_advance(state);
    if usable(mantissa_at(next)) {
        (mantissa_at(next), next)
    } else {
        proof {
            lemma_step_approaches_anchor(state);
            lemma_anchor_is_usable();
        }
        next_usable(next)
    }
}

/// The pair of numbers behind a normally distributed one, and the counter afterwards: a usable
/// number, and the one that follows it.
pub open spec fn normal_pair(state: u64) -> (u32, u32, u64) {
    let (first, reached) = next_usable(state);
    let next = rng::splitmix_advance(reached);
    (first, mantissa_at(next), next)
}

/// Draws the pair of numbers behind a normally distributed one.
pub fn draw_normal_pair(rng: &mut FastRng) -> (pair: (u32, u32))
    ensures
        (pair.0, pair.1, final(rng)@) == normal_pair(old(rng)@),
        1 < pair.0 < 0x100_0000,
        pair.1 < 0x100_0000,
{
    let ghost start = rng@;
    let mut first: u32 = rng.next_mantissa();
    proof {
        lemma_step_approaches_anchor(start);
        lemma_anchor_is_usable();
    }
    let ghost mut before = start;
    while first <= 1
        invariant
            rng@ == rng::splitmix_advance(before),
            first == mantissa_at(rng@),
            first < 0x100_0000,
            next_usable(before) == next_usable(start),
        decreases steps_to_anchor(before),
    {
        proof {
            lemma_step_approaches_anchor(before);
            lemma_anchor_is_usable();
            before = rng@;
        }
        first = rng.next_mantissa();
    }
    let second: u32 = rng.next_mantissa();
    (first, second)
}

/// The first number of a pair is never too near to zero, so that its logarithm is finite.
pub proof fn law_first_of_pair_is_usable(state: u64)
    ensures
        usable(normal_pair(state).0),
    decreases steps_to_anchor(state),
{
    let next = rng::splitmix_advance(state);
    if !usable(mantissa_at(next)) {
        lemma_step_approaches_anchor(state);
        lemma_anchor_is_usable();
        law_first_of_pair_is_usable(next);
    }
}

} // verus!
