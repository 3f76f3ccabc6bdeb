//! The 64-bit xorshift generator.

use vstd::prelude::*;

verus! {

/// The number that follows another in the generator.
pub open spec fn following(x: u64) -> u64 {
    let a = x ^ (x << 13u64);
    let b = a ^ (a >> 7u64);
    b ^ (b << 17u64)
}

/// The `n`-th number from a state on.
pub open spec fn nth(state: u64, n: nat) -> u64
    decreases n,
{
    if n == 0 {
        state
    } else {
        following(nth(state, (n - 1) as nat))
    }
}

/// The upper 24 bits: the numerator of a fraction of 2 to the 24th.
pub open spec fn mantissa_of(x: u64) -> u32 {
    (x >> 40u64) as u32
}

/// Computes the number that follows.
pub fn advance(state: u64) -> (next: u64)
    ensures
        next == following(state),
{
    let a: u64 = state ^ (state << 13u64);
    let b: u64 = a ^ (a >> 7u64);
    b ^ (b << 17u64)
}

/// The upper 24 bits of a number.
pub fn mantissa(x: u64) -> (bits: u32)
    ensures
        bits == mantissa_of(x),
        bits < 0x1000000,
{
    assert((x >> 40u64) < 0x1000000) by (bit_vector);
    (x >> 40u64) as u32
}

/// The mantissas of the first `n` numbers from a state on.
pub open spec fn mantissas(state: u64, n: nat) -> Seq<u32> {
    Seq::new(n, |i: int| mantissa_of(nth(state, (i + 1) as nat)))
}

/// Draws `n` mantissas from a state on.
pub fn draw_mantissas(state: u64, n: usize) -> (drawn: Vec<u32>)
    ensures
        drawn@ == mantissas(state, n as nat),
{
    let mut drawn: Vec<u32> = Vec::new();
    let mut reached: u64 = state;
    for i in 0..n
        invariant
            reached == nth(state, i as nat),
            drawn@ == mantissas(state, i as nat),
    {
        reached = advance(reached);
        drawn.push(mantissa(reached));
        assert(drawn@ =~= mantissas(state, (i + 1) as nat));
    }
    drawn
}

/// No two states are followed by the same one, so the generator never falls into a cycle that
/// does not lead back to where it began.
pub proof fn law_generator_is_a_permutation(x: u64, y: u64)
    requires
        following(x) == following(y),
    ensures
        x == y,
{
    let a = x ^ (x << 13u64);
    let c = y ^ (y << 13u64);
    let b = a ^ (a >> 7u64);
    let d = c ^ (c >> 7u64);
    assert(b == d) by (bit_vector)
        requires
            b ^ (b << 17u64) == d ^ (d << 17u64),
    ;
    assert(a == c) by (bit_vector)
        requires
            a ^ (a >> 7u64) == c ^ (c >> 7u64),
    ;
    assert(x == y) by (bit_vector)
        requires
            x ^ (x << 13u64) == y ^ (y << 13u64),
    ;
}

/// A generator that is not stuck at zero never gets there.
pub proof fn law_generator_stays_alive(x: u64)
    requires
        x != 0,
    ensures
        following(x) != 0,
{
    assert(following(0) == 0) by (bit_vector);
    if following(x) == 0 {
        law_generator_is_a_permutation(x, 0);
    }
}

/// The generator is linear over bits: bits that differ before a step make the same bits differ behind
/// it, whatever the others are.
pub proof fn law_generator_is_linear(x: u64, y: u64)
    ensures
        following(x ^ y) == following(x) ^ following(y),
{
    assert(following(x ^ y) == following(x) ^ following(y)) by (bit_vector);
}

/// The `n`-th number is `n` steps behind the state, and its mantissa counts how many times 2 to the
/// 40th it holds.
pub proof fn law_numbers_are_steps_apart(state: u64, n: nat, i: nat)
    requires
        i < n,
    ensures
        nth(state, 0) == state,
        nth(state, n + 1) == following(nth(state, n)),
        mantissas(state, n).len() == n,
        mantissas(state, n)[i as int] * 0x100_0000_0000 <= nth(state, i + 1) < (mantissas(
            state,
            n,
        )[i as int] + 1) * 0x100_0000_0000,
{
    let x = nth(state, i + 1);
    assert((x >> 40u64) < 0x100_0000 && (x >> 40u64) * 0x100_0000_0000 <= x && x - (x >> 40u64)
        * 0x100_0000_0000 < 0x100_0000_0000) by (bit_vector);
}

/// A single bit in the middle of the word is carried to eight places: its own, and those 13, 17 and
/// 30 above it; the one 7 below it, and those 6, 10 and 23 above it.
pub proof fn law_bit_is_carried(k: u64)
    requires
        7 <= k < 34,
    ensures
        following(1u64 << k) == (1u64 << k) | (1u64 << (k + 13) as u64) | (1u64 << (k + 17) as u64)
            | (1u64 << (k + 30) as u64) | (1u64 << (k - 7) as u64) | (1u64 << (k + 6) as u64) | (1u64
            << (k + 10) as u64) | (1u64 << (k + 23) as u64),
{
    let a: u64 = (k + 13) as u64;
    let b: u64 = (k + 17) as u64;
    let c: u64 = (k + 30) as u64;
    let d: u64 = (k - 7) as u64;
    let e: u64 = (k + 6) as u64;
    let f: u64 = (k + 10) as u64;
    let g: u64 = (k + 23) as u64;
    assert(following(1u64 << k) == (1u64 << k) | (1u64 << a) | (1u64 << b) | (1u64 << c) | (1u64
        << d) | (1u64 << e) | (1u64 << f) | (1u64 << g)) by (bit_vector)
        requires
            7 <= k < 34,
            a == k + 13,
            b == k + 17,
            c == k + 30,
            d == k - 7,
            e == k + 6,
            f == k + 10,
            g == k + 23,
    ;
}

} // verus!
