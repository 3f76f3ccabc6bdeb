//! Deterministic pseudo-random numbers for weight initialisation and shuffling.

use vstd::arithmetic::div_mod::lemma_mod_multiples_vanish;
use vstd::arithmetic::div_mod::lemma_mul_mod_noop_left;
use vstd::arithmetic::div_mod::lemma_small_mod;
use vstd::prelude::*;

verus! {

/// The increment of the SplitMix64 counter.
pub const GOLDEN_GAMMA: u64 = 0x9e3779b97f4a7c15;

/// The state that a generator seeded with zero starts from.
pub const ZERO_SEED_STATE: u64 = 0x853c49e6748fea9b;

/// The output function of SplitMix64: three xor-shifts around two multiplications.
pub open spec fn splitmix_output(state: u64) -> u64 {
    let a = ((state ^ (state >> 30)) * 0xbf58476d1ce4e5b9u64) % 0x1_0000_0000_0000_0000;
    let b = (((a as u64) ^ ((a as u64) >> 27)) * 0x94d049bb133111ebu64) % 0x1_0000_0000_0000_0000;
    (b as u64) ^ ((b as u64) >> 31)
}

/// Deterministic generator based on SplitMix64.
#[derive(Debug, Clone)]
pub struct FastRng {
    state: u64,
}

impl View for FastRng {
    type V = u64;

    closed spec fn view(&self) -> u64 {
        self.state
    }
}

/// The counter of a generator whose counter was `state`, after one draw.
pub open spec fn splitmix_advance(state: u64) -> u64 {
    ((state + GOLDEN_GAMMA) % 0x1_0000_0000_0000_0000) as u64
}

/// The state that a seed starts the generator in.
pub open spec fn seeded(seed: u64) -> u64 {
    if seed == 0 {
        ZERO_SEED_STATE
    } else {
        seed
    }
}

impl FastRng {
    /// Creates a generator from a 64-bit seed; a zero seed is replaced by a fixed non-zero state.
    pub fn new(seed: u64) -> (rng: Self)
        ensures
            rng@ == seeded(seed),
    {
        let state: u64 = if seed == 0 {
            ZERO_SEED_STATE
        } else {
            seed
        };
        FastRng { state }
    }

    /// Draws the next 64-bit number.
    pub fn next_u64(&mut self) -> (drawn: u64)
        ensures
            final(self)@ == splitmix_advance(old(self)@),
            drawn == splitmix_output(final(self)@),
    {
        self.state = self.state.wrapping_add(GOLDEN_GAMMA);
        let mut z: u64 = self.state;
        z = (z ^ (z >> 30)).wrapping_mul(0xbf58476d1ce4e5b9);
        z = (z ^ (z >> 27)).wrapping_mul(0x94d049bb133111eb);
        z ^ (z >> 31)
    }

    /// Draws a uniform 24-bit number, the mantissa of a uniform single-precision number in
    /// `[0, 1)`.
    pub fn next_mantissa(&mut self) -> (bits: u32)
        ensures
            final(self)@ == splitmix_advance(old(self)@),
            bits == splitmix_output(final(self)@) >> 40,
            bits < 0x100_0000,
    {
        let drawn: u64 = self.next_u64();
        assert(drawn >> 40 < 0x100_0000) by (bit_vector);
        (drawn >> 40) as u32
    }
}

/// Two generators with equal counters draw equal numbers and stay equal.
pub proof fn law_draws_are_determined(first: FastRng, second: FastRng)
    requires
        first@ == second@,
    ensures
        splitmix_advance(first@) == splitmix_advance(second@),
        splitmix_output(splitmix_advance(first@)) == splitmix_output(splitmix_advance(second@)),
{
}

/// Multiplication by `factor` modulo the word size is undone by multiplication by `inverse`.
proof fn lemma_multiplication_is_undone(x: u64, factor: int, inverse: int, rounds: int)
    requires
        factor * inverse == 1 + rounds * 0x1_0000_0000_0000_0000,
    ensures
        (((x * factor) % 0x1_0000_0000_0000_0000) * inverse) % 0x1_0000_0000_0000_0000 == x,
{
    let size: int = 0x1_0000_0000_0000_0000;
    lemma_mul_mod_noop_left(x * factor, inverse, size);
    assert((x * factor) * inverse == size * (x * rounds) + x) by (nonlinear_arith)
        requires
            factor * inverse == 1 + rounds * size,
    ;
    lemma_mod_multiples_vanish(x * rounds, x as int, size);
    lemma_small_mod(x as nat, size as nat);
}

/// One draw loses nothing of the counter: two generators whose counters differ draw different
/// numbers, and their counters still differ afterwards.
pub proof fn law_draws_tell_states_apart(first: FastRng, second: FastRng)
    requires
        first@ != second@,
    ensures
        splitmix_advance(first@) != splitmix_advance(second@),
        splitmix_output(splitmix_advance(first@)) != splitmix_output(splitmix_advance(second@)),
{
    let x: u64 = splitmix_advance(first@);
    let y: u64 = splitmix_advance(second@);
    assert(x != y);
    if splitmix_output(x) == splitmix_output(y) {
        let xs: u64 = x ^ (x >> 30);
        let ys: u64 = y ^ (y >> 30);
        let xa: u64 = ((xs * 0xbf58476d1ce4e5b9u64) % 0x1_0000_0000_0000_0000) as u64;
        let ya: u64 = ((ys * 0xbf58476d1ce4e5b9u64) % 0x1_0000_0000_0000_0000) as u64;
        let xt: u64 = xa ^ (xa >> 27);
        let yt: u64 = ya ^ (ya >> 27);
        let xb: u64 = ((xt * 0x94d049bb133111ebu64) % 0x1_0000_0000_0000_0000) as u64;
        let yb: u64 = ((yt * 0x94d049bb133111ebu64) % 0x1_0000_0000_0000_0000) as u64;
        assert(xb == yb) by (bit_vector)
            requires
                xb ^ (xb >> 31) == yb ^ (yb >> 31),
        ;
        lemma_multiplication_is_undone(
            xt,
            0x94d049bb133111eb,
            0x319642b2d24d8ec3,
            0x1cd336eda85f1453,
        );
        lemma_multiplication_is_undone(
            yt,
            0x94d049bb133111eb,
            0x319642b2d24d8ec3,
            0x1cd336eda85f1453,
        );
        assert(xa == ya) by (bit_vector)
            requires
                xa ^ (xa >> 27) == ya ^ (ya >> 27),
        ;
        lemma_multiplication_is_undone(
            xs,
            0xbf58476d1ce4e5b9,
            0x96de1b173f119089,
            0x70c3bca78f27f46c,
        );
        lemma_multiplication_is_undone(
            ys,
            0xbf58476d1ce4e5b9,
            0x96de1b173f119089,
            0x70c3bca78f27f46c,
        );
        assert(x == y) by (bit_vector)
            requires
                x ^ (x >> 30) == y ^ (y >> 30),
        ;
    }
}

/// A draw adds the golden ratio of the word size to the counter, and starts over at the word size.
pub proof fn law_counter_steps_by_the_golden_ratio(state: u64)
    ensures
        splitmix_advance(state) == state + 0x9e3779b97f4a7c15 || splitmix_advance(state) == state
            + 0x9e3779b97f4a7c15 - 0x1_0000_0000_0000_0000,
        seeded(0) == 0x853c49e6748fea9b,
        state != 0 ==> seeded(state) == state,
{
}

/// A drawn number comes of the counter by two multiplications, of which the low words are kept, and
/// a shift before each and behind the last.
pub proof fn law_output_keeps_low_words(state: u64, high: int, low: u64, top: int, bottom: u64)
    requires
        (state ^ (state >> 30)) * 0xbf58476d1ce4e5b9 == high * 0x1_0000_0000_0000_0000 + low,
        (low ^ (low >> 27)) * 0x94d049bb133111eb == top * 0x1_0000_0000_0000_0000 + bottom,
    ensures
        splitmix_output(state) == bottom ^ (bottom >> 31),
{
    let m: int = 0x1_0000_0000_0000_0000;
    vstd::arithmetic::div_mod::lemma_fundamental_div_mod_converse(
        (state ^ (state >> 30)) * 0xbf58476d1ce4e5b9,
        m,
        high,
        low as int,
    );
    vstd::arithmetic::div_mod::lemma_fundamental_div_mod_converse(
        (low ^ (low >> 27)) * 0x94d049bb133111eb,
        m,
        top,
        bottom as int,
    );
}

} // verus!
