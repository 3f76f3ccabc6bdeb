//! Sampling of tokens: the generator, the repetition penalty and the choice among the best.
//! Logits and probabilities are given by bit patterns.

use vstd::prelude::*;

use crate::classic::generate::first_reached;
use crate::classic::generate;
use crate::float_bits;
use crate::xorshift;

verus! {

/// The bit pattern of 0.0001: up to this temperature sampling is greedy.
pub const COLD_BITS: u32 = 0x38d1b717;

/// The state that a zero seed is replaced by.
pub const ZERO_SEED_STATE: u64 = 0x853c49e6748fea9b;

/// How tokens are sampled. Fractions are given by bit patterns.
#[derive(Debug, Clone, Copy, PartialEq, Eq, Structural)]
pub struct SamplingConfig {
    /// Temperature.
    pub temperature: u32,
    /// How many of the best tokens are considered.
    pub top_k: usize,
    /// What repeated tokens are penalised by.
    pub repetition_penalty: u32,
    /// How many of the last tokens are penalised.
    pub penalty_window: usize,
}

impl SamplingConfig {
    /// Always the best token.
    pub fn greedy() -> (config: Self)
        ensures
            config.temperature == 0,
            config.top_k == 1,
            config.repetition_penalty == float_bits::ONE_BITS,
            config.penalty_window == 0,
    {
        SamplingConfig {
            temperature: 0,
            top_k: 1,
            repetition_penalty: float_bits::ONE_BITS,
            penalty_window: 0,
        }
    }

    /// A temperature of 0.7 among the best five, repetitions in the last sixteen penalised by 1.2.
    pub open spec fn is_balanced(self) -> bool {
        &&& self.temperature == 0x3f333333
        &&& self.top_k == 5
        &&& self.repetition_penalty == 0x3f99999a
        &&& self.penalty_window == 16
    }

    /// A balance of likely and varied tokens.
    pub fn balanced() -> (config: Self)
        ensures
            config.is_balanced(),
    {
        SamplingConfig::default()
    }

    /// Whether the best token is always chosen.
    pub open spec fn always_best(self) -> bool {
        float_bits::at_most(self.temperature, COLD_BITS) || self.top_k <= 1
    }

    /// Whether the best token is always chosen.
    pub fn is_greedy(&self) -> (greedy: bool)
        ensures
            greedy == self.always_best(),
    {
        float_bits::less_or_equal(self.temperature, COLD_BITS) || self.top_k <= 1
    }
}

impl Default for SamplingConfig {
    fn default() -> (config: Self)
        ensures
            config.is_balanced(),
    {
        SamplingConfig {
            temperature: 0x3f333333,
            top_k: 5,
            repetition_penalty: 0x3f99999a,
            penalty_window: 16,
        }
    }
}

/// A generator of pseudo-random numbers.
#[derive(Debug, Clone)]
pub struct FastRng {
    state: u64,
}

impl View for FastRng {
    type V = u64;

    closed spec fn view(&self) -> u64 {
        self.state
    }
}

impl FastRng {
    /// Creates a generator from a seed; a zero seed is replaced by a fixed state.
    pub fn new(seed: u64) -> (rng: Self)
        ensures
            rng@ == if seed == 0 {
                ZERO_SEED_STATE
            } else {
                seed
            },
            rng@ != 0,
    {
        FastRng {
            state: if seed == 0 {
                ZERO_SEED_STATE
            } else {
                seed
            },
        }
    }

    /// Draws the next number.
    pub fn next_u64(&mut self) -> (drawn: u64)
        ensures
            drawn == xorshift::following(old(self)@),
            final(self)@ == drawn,
    {
        self.state = xorshift::advance(self.state);
        self.state
    }

    /// Draws the next fraction, as the numerator over 2 to the 24th.
    pub fn next_mantissa(&mut self) -> (drawn: u32)
        ensures
            drawn == xorshift::mantissa_of(xorshift::following(old(self)@)),
            drawn < 0x1000000,
            final(self)@ == xorshift::following(old(self)@),
    {
        let drawn: u64 = self.next_u64();
        xorshift::mantissa(drawn)
    }
}

/// The tokens of a window that lie in the vocabulary, in order and as often as they occur.
pub open spec fn in_vocabulary(tokens: Seq<usize>, vocab_size: nat) -> Seq<usize>
    decreases tokens.len(),
{
    if tokens.len() == 0 {
        Seq::empty()
    } else {
        let before = in_vocabulary(tokens.drop_last(), vocab_size);
        if tokens.last() < vocab_size {
            before.push(tokens.last())
        } else {
            before
        }
    }
}

/// The last tokens, as many as the window holds.
pub open spec fn window_of(tokens: Seq<usize>, window: nat) -> Seq<usize> {
    if tokens.len() <= window {
        tokens
    } else {
        tokens.skip(tokens.len() - window)
    }
}

/// The tokens whose logits are penalised, once for each time they are listed. With a penalty of
/// at most one there are none.
pub open spec fn penalised(
    recent: Seq<usize>,
    penalty: u32,
    window: nat,
    vocab_size: nat,
) -> Seq<usize> {
    if float_bits::at_most(penalty, float_bits::ONE_BITS) {
        Seq::empty()
    } else {
        in_vocabulary(window_of(recent, window), vocab_size)
    }
}

/// Lists the tokens whose logits are penalised, once for each penalty.
pub fn penalty_targets(recent: &[usize], penalty: u32, window: usize, vocab_size: usize) -> (targets:
    Vec<usize>)
    ensures
        targets@ == penalised(recent@, penalty, window as nat, vocab_size as nat),
{
    let mut targets: Vec<usize> = Vec::new();
    if float_bits::less_or_equal(penalty, float_bits::ONE_BITS) {
        return targets;
    }
    let len: usize = recent.len();
    let start: usize = if len <= window {
        0
    } else {
        len - window
    };
    let ghost windowed = window_of(recent@, window as nat);
    assert(windowed =~= recent@.skip(start as int));
    for i in start..len
        invariant
            start <= i <= len,
            len == recent@.len(),
            windowed == recent@.skip(start as int),
            targets@ == in_vocabulary(windowed.take(i - start), vocab_size as nat),
    {
        assert(windowed.take(i - start + 1).drop_last() =~= windowed.take(i - start));
        assert(windowed.take(i - start + 1).last() == recent@[i as int]);
        if recent[i] < vocab_size {
            targets.push(recent[i]);
        }
    }
    assert(windowed.take(len - start) =~= windowed);
    targets
}

/// Only tokens of the window and of the vocabulary are penalised, and all of these.
pub proof fn law_penalty_hits_the_window(tokens: Seq<usize>, vocab_size: nat, token: usize)
    ensures
        in_vocabulary(tokens, vocab_size).contains(token) <==> tokens.contains(token) && token
            < vocab_size,
    decreases tokens.len(),
{
    if tokens.len() > 0 {
        let before = tokens.drop_last();
        law_penalty_hits_the_window(before, vocab_size, token);
        let kept = in_vocabulary(before, vocab_size);
        let all = in_vocabulary(tokens, vocab_size);
        if all.contains(token) {
            let i = choose|i: int| 0 <= i < all.len() && all[i] == token;
            if i < kept.len() {
                assert(kept[i] == token);
                let j = choose|j: int| 0 <= j < before.len() && before[j] == token;
                assert(tokens[j] == token);
            } else {
                assert(tokens[tokens.len() - 1] == token);
            }
        }
        if tokens.contains(token) && token < vocab_size {
            let j = choose|j: int| 0 <= j < tokens.len() && tokens[j] == token;
            if j < before.len() {
                assert(before[j] == token);
                let i = choose|i: int| 0 <= i < kept.len() && kept[i] == token;
                assert(all[i] == token);
            } else {
                assert(all[all.len() - 1] == token);
            }
        }
    }
}

/// The penalised tokens are those of the vocabulary among the last `window` tokens, in order and
/// as often as they occur; there are at most `window` of them, and none where the penalty is at
/// most one.
pub proof fn law_penalty_keeps_to_the_window(
    recent: Seq<usize>,
    penalty: u32,
    window: nat,
    vocab_size: nat,
)
    ensures
        ({
            let first: int = if recent.len() < window {
                0
            } else {
                recent.len() - window
            };
            &&& float_bits::at_most(penalty, 0x3f800000) ==> penalised(
                recent,
                penalty,
                window,
                vocab_size,
            ).len() == 0
            &&& !float_bits::at_most(penalty, 0x3f800000) ==> penalised(
                recent,
                penalty,
                window,
                vocab_size,
            ) == recent.subrange(first, recent.len() as int).filter(
                |token: usize| token < vocab_size,
            )
            &&& penalised(recent, penalty, window, vocab_size).len() <= window
        }),
{
    let windowed = window_of(recent, window);
    let first: int = if recent.len() < window {
        0
    } else {
        recent.len() - window
    };
    assert(windowed =~= recent.subrange(first, recent.len() as int));
    lemma_vocabulary_is_filtered(windowed, vocab_size);
}

proof fn lemma_vocabulary_is_filtered(tokens: Seq<usize>, vocab_size: nat)
    ensures
        in_vocabulary(tokens, vocab_size) == tokens.filter(|token: usize| token < vocab_size),
        in_vocabulary(tokens, vocab_size).len() <= tokens.len(),
    decreases tokens.len(),
{
    reveal(Seq::filter);
    if tokens.len() > 0 {
        lemma_vocabulary_is_filtered(tokens.drop_last(), vocab_size);
    }
}

/// One more recent token leaves a full window by its oldest token and enters it at the end.
pub proof fn law_window_slides(
    recent: Seq<usize>,
    token: usize,
    penalty: u32,
    window: nat,
    vocab_size: nat,
)
    requires
        !float_bits::at_most(penalty, 0x3f800000),
        0 < window <= recent.len(),
        token < vocab_size,
        recent[recent.len() - window] < vocab_size,
    ensures
        penalised(recent.push(token), penalty, window, vocab_size) == penalised(
            recent,
            penalty,
            window,
            vocab_size,
        ).skip(1).push(token),
{
    let old = window_of(recent, window);
    let new = window_of(recent.push(token), window);
    assert(new =~= old.skip(1).push(token));
    assert(new.drop_last() =~= old.skip(1));
    lemma_head_is_kept(old, vocab_size);
}

proof fn lemma_head_is_kept(tokens: Seq<usize>, vocab_size: nat)
    requires
        tokens.len() > 0,
        tokens[0] < vocab_size,
    ensures
        in_vocabulary(tokens, vocab_size) == seq![tokens[0]] + in_vocabulary(
            tokens.skip(1),
            vocab_size,
        ),
        in_vocabulary(tokens, vocab_size).skip(1) == in_vocabulary(tokens.skip(1), vocab_size),
    decreases tokens.len(),
{
    let front = tokens.drop_last();
    if tokens.len() == 1 {
        reveal_with_fuel(in_vocabulary, 3);
        assert(tokens.skip(1) =~= Seq::empty());
        assert(in_vocabulary(tokens, vocab_size) =~= seq![tokens[0]]);
    } else {
        lemma_head_is_kept(front, vocab_size);
        assert(tokens.skip(1).drop_last() =~= front.skip(1));
        assert(tokens.skip(1).last() == tokens.last());
        assert(in_vocabulary(tokens, vocab_size) =~= seq![tokens[0]] + in_vocabulary(
            tokens.skip(1),
            vocab_size,
        ));
    }
    assert(in_vocabulary(tokens, vocab_size).skip(1) =~= in_vocabulary(tokens.skip(1), vocab_size));
}

/// The position of the first logit that no other exceeds, among those that exceed negative
/// infinity; the first position where there is none.
pub open spec fn is_best(logits: Seq<u32>, best: nat) -> bool {
    ||| {
        &&& best < logits.len()
        &&& float_bits::exceeds(logits[best as int], float_bits::NEG_INFINITY_BITS)
        &&& forall|i: int|
            0 <= i < logits.len() ==> !float_bits::exceeds(
                #[trigger] logits[i],
                logits[best as int],
            )
        &&& forall|i: int|
            0 <= i < best ==> !float_bits::at_most(
                logits[best as int],
                #[trigger] logits[i],
            )
    }
    ||| {
        &&& best == 0
        &&& forall|i: int|
            0 <= i < logits.len() ==> !float_bits::exceeds(
                #[trigger] logits[i],
                float_bits::NEG_INFINITY_BITS,
            )
    }
}

/// Finds the greatest logit; of equal ones the first.
pub fn best_token(logits: &[u32]) -> (best: usize)
    ensures
        is_best(logits@, best as nat),
{
    let mut best: usize = 0;
    let mut greatest: u32 = float_bits::NEG_INFINITY_BITS;
    let mut found: bool = false;
    for i in 0..logits.len()
        invariant
            !found ==> best == 0 && greatest == float_bits::NEG_INFINITY_BITS,
            found ==> best < i && greatest == logits@[best as int] && float_bits::exceeds(
                greatest,
                float_bits::NEG_INFINITY_BITS,
            ),
            !float_bits::not_a_number(greatest),
            forall|j: int| 0 <= j < i ==> !float_bits::exceeds(#[trigger] logits@[j], greatest),
            found ==> forall|j: int|
                0 <= j < best ==> !float_bits::at_most(greatest, #[trigger] logits@[j]),
    {
        if float_bits::greater(logits[i], greatest) {
            greatest = logits[i];
            best = i;
            found = true;
        }
    }
    best
}

/// Whether a logit comes before another among the best: it is greater in the total order of bit
/// patterns, or the same and stands before it.
pub open spec fn ahead(logits: Seq<u32>, first: int, second: int) -> bool {
    float_bits::place_of(logits[first]) > float_bits::place_of(logits[second])
        || float_bits::place_of(logits[first]) == float_bits::place_of(logits[second]) && first
        < second
}

/// The positions of the best logits, best first: each comes before the next, and before every
/// position that is not listed.
pub open spec fn are_best(logits: Seq<u32>, chosen: Seq<usize>) -> bool {
    &&& forall|i: int| 0 <= i < chosen.len() ==> #[trigger] chosen[i] < logits.len()
    &&& forall|i: int, j: int|
        0 <= i < j < chosen.len() ==> ahead(
            logits,
            #[trigger] chosen[i] as int,
            #[trigger] chosen[j] as int,
        )
    &&& forall|i: int, other: usize|
        0 <= i < chosen.len() && other < logits.len() && !#[trigger] chosen.contains(other)
            ==> ahead(logits, #[trigger] chosen[i] as int, other as int)
}

/// How many of the best tokens are considered: at least one, at most all.
pub open spec fn considered(top_k: nat, vocab_size: nat) -> nat {
    if top_k < 1 {
        1
    } else if top_k > vocab_size {
        vocab_size
    } else {
        top_k
    }
}

/// Finds the best position that is not taken.
fn best_remaining(logits: &[u32], taken: &Vec<bool>) -> (best: usize)
    requires
        taken@.len() == logits@.len(),
        exists|i: int| 0 <= i < taken@.len() && !#[trigger] taken@[i],
    ensures
        best < logits@.len(),
        !taken@[best as int],
        forall|i: int|
            0 <= i < logits@.len() && !#[trigger] taken@[i] && i != best ==> ahead(
                logits@,
                best as int,
                i,
            ),
{
    let mut found: bool = false;
    let mut best: usize = 0;
    for i in 0..logits.len()
        invariant
            taken@.len() == logits@.len(),
            found ==> best < i && !taken@[best as int],
            !found ==> forall|j: int| 0 <= j < i ==> #[trigger] taken@[j],
            found ==> forall|j: int|
                0 <= j < i && !#[trigger] taken@[j] && j != best ==> ahead(
                    logits@,
                    best as int,
                    j,
                ),
    {
        if !taken[i] {
            if !found {
                found = true;
                best = i;
            } else if float_bits::place(logits[i]) > float_bits::place(logits[best]) {
                best = i;
            }
        }
    }
    best
}

/// Finds the positions of the best logits, best first.
pub fn top_tokens(logits: &[u32], top_k: usize) -> (chosen: Vec<usize>)
    requires
        logits@.len() > 0,
    ensures
        chosen@.len() == considered(top_k as nat, logits@.len()),
        are_best(logits@, chosen@),
{
    let n: usize = logits.len();
    let k: usize = if top_k < 1 {
        1
    } else if top_k > n {
        n
    } else {
        top_k
    };
    let mut taken: Vec<bool> = crate::classic::cache::filled(false, n);
    let mut chosen: Vec<usize> = Vec::new();
    for round in 0..k
        invariant
            n == logits@.len(),
            k <= n,
            taken@.len() == n,
            chosen@.len() == round,
            are_best(logits@, chosen@),
            forall|i: usize| i < n ==> #[trigger] taken@[i as int] == chosen@.contains(i),
    {
        proof {
            lemma_some_remain(taken@, chosen@, n as nat);
        }
        let best: usize = best_remaining(logits, &taken);
        let ghost before = chosen@;
        assert(!before.contains(best));
        chosen.push(best);
        taken.set(best, true);
        assert forall|i: usize| i < n implies #[trigger] taken@[i as int] == chosen@.contains(
            i,
        ) by {
            if before.contains(i) {
                let at = choose|at: int| 0 <= at < before.len() && before[at] == i;
                assert(chosen@[at] == i);
            }
            if i == best {
                assert(chosen@[round as int] == best);
            }
        }
        assert forall|i: int, other: usize|
            0 <= i < chosen@.len() && other < logits@.len() && !#[trigger] chosen@.contains(
                other,
            ) implies ahead(logits@, #[trigger] chosen@[i] as int, other as int) by {
            assert(!before.contains(other)) by {
                if before.contains(other) {
                    let at = choose|at: int| 0 <= at < before.len() && before[at] == other;
                    assert(chosen@[at] == other);
                }
            }
            if i < before.len() {
                assert(chosen@[i] == before[i]);
            } else {
                assert(other != best) by {
                    assert(chosen@[round as int] == best);
                }
                assert(!taken@[other as int]);
            }
        }
    }
    chosen
}

/// While fewer positions are chosen than there are, some remain.
proof fn lemma_some_remain(taken: Seq<bool>, chosen: Seq<usize>, n: nat)
    requires
        taken.len() == n,
        chosen.len() < n,
        n <= usize::MAX,
        forall|i: usize| i < n ==> #[trigger] taken[i as int] == chosen.contains(i),
    ensures
        exists|i: int| 0 <= i < taken.len() && !#[trigger] taken[i],
{
    if forall|i: int| 0 <= i < taken.len() ==> #[trigger] taken[i] {
        let all = Seq::new(n, |i: int| i as usize);
        assert(all.no_duplicates());
        all.unique_seq_to_set();
        chosen.lemma_cardinality_of_set();
        assert(all.to_set().subset_of(chosen.to_set())) by {
            assert forall|x: usize| all.to_set().contains(x) implies chosen.to_set().contains(
                x,
            ) by {
                let i = choose|i: int| 0 <= i < all.len() && all[i] == x;
                assert(x == i);
                assert(taken[x as int]);
            }
        }
        vstd::set_lib::lemma_len_subset(all.to_set(), chosen.to_set());
    }
}

/// There is one list of the best positions of each length.
pub proof fn law_best_positions_are_determined(
    logits: Seq<u32>,
    first: Seq<usize>,
    second: Seq<usize>,
)
    requires
        are_best(logits, first),
        are_best(logits, second),
        first.len() == second.len(),
    ensures
        first == second,
{
    lemma_best_agree(logits, first, second, first.len());
    assert(first =~= second);
}

proof fn lemma_best_agree(logits: Seq<u32>, first: Seq<usize>, second: Seq<usize>, n: nat)
    requires
        are_best(logits, first),
        are_best(logits, second),
        n <= first.len(),
        n <= second.len(),
    ensures
        forall|i: int| 0 <= i < n ==> first[i] == second[i],
    decreases n,
{
    if n > 0 {
        let at = n - 1;
        lemma_best_agree(logits, first, second, at as nat);
        if first[at] != second[at] {
            lemma_not_ahead(logits, first, second, at);
            lemma_not_ahead(logits, second, first, at);
        }
    }
}

/// What stands at a place of one list comes no later than what stands there in another that
/// agrees before.
proof fn lemma_not_ahead(logits: Seq<u32>, first: Seq<usize>, second: Seq<usize>, at: int)
    requires
        are_best(logits, first),
        are_best(logits, second),
        0 <= at < first.len(),
        at < second.len(),
        forall|i: int| 0 <= i < at ==> first[i] == second[i],
        first[at] != second[at],
    ensures
        ahead(logits, first[at] as int, second[at] as int),
{
    let other = second[at];
    if first.contains(other) {
        let j = choose|j: int| 0 <= j < first.len() && first[j] == other;
        if j < at {
            assert(second[j] == other);
            assert(ahead(logits, second[j] as int, second[at] as int));
        } else {
            assert(ahead(logits, first[at] as int, first[j] as int));
        }
    } else {
        assert(ahead(logits, first[at] as int, other as int));
    }
}

/// The best position is a greatest logit.
pub proof fn law_first_of_best_is_greatest(logits: Seq<u32>, chosen: Seq<usize>)
    requires
        are_best(logits, chosen),
        chosen.len() > 0,
        logits.len() <= usize::MAX,
    ensures
        forall|i: int|
            0 <= i < logits.len() ==> float_bits::place_of(#[trigger] logits[i])
                <= float_bits::place_of(logits[chosen[0] as int]),
{
    assert forall|i: int| 0 <= i < logits.len() implies float_bits::place_of(
        #[trigger] logits[i],
    ) <= float_bits::place_of(logits[chosen[0] as int]) by {
        let other = i as usize;
        if chosen.contains(other) {
            let j = choose|j: int| 0 <= j < chosen.len() && chosen[j] == other;
            if j > 0 {
                assert(ahead(logits, chosen[0] as int, chosen[j] as int));
            }
        } else {
            assert(ahead(logits, chosen[0] as int, other as int));
        }
    }
}

/// The token that a draw falls on: the one whose cumulated probability it is the first not to
/// exceed, or else the best.
pub open spec fn is_sampled(
    chosen: Seq<usize>,
    cumulated: Seq<u32>,
    draw: u32,
    token: usize,
) -> bool {
    exists|reached: Option<usize>|
        #[trigger] generate::is_first_reached(cumulated, draw, reached) && token == match reached {
            Some(i) => chosen[i as int],
            None => chosen[0],
        }
}

/// Picks the token that a draw falls on, given the cumulated probabilities of the best tokens.
pub fn sample_among(chosen: &[usize], cumulated: &[u32], draw: u32) -> (token: usize)
    requires
        chosen@.len() > 0,
        cumulated@.len() <= chosen@.len(),
    ensures
        is_sampled(chosen@, cumulated@, draw, token),
        chosen@.contains(token),
{
    let reached: Option<usize> = first_reached(cumulated, draw);
    assert(generate::is_first_reached(cumulated@, draw, reached));
    match reached {
        Some(i) => {
            let token: usize = chosen[i];
            assert(chosen@[i as int] == token);
            token
        },
        None => {
            let token: usize = chosen[0];
            assert(chosen@[0] == token);
            token
        },
    }
}

/// The best token is exceeded by no other, and exceeds every number before it; where no logit
/// exceeds negative infinity it is the first.
pub proof fn law_best_token_is_the_first_greatest(logits: Seq<u32>, best: nat, i: int)
    requires
        is_best(logits, best),
        0 <= i < logits.len(),
    ensures
        best < logits.len(),
        !float_bits::exceeds(logits[i], logits[best as int]),
        i < best ==> float_bits::exceeds(logits[best as int], logits[i])
            || float_bits::not_a_number(logits[i]),
        float_bits::exceeds(logits[i], 0xff800000) ==> float_bits::exceeds(
            logits[best as int],
            0xff800000,
        ),
        !float_bits::exceeds(logits[best as int], 0xff800000) ==> best == 0,
{
}

/// The tokens considered are the greatest ones: no token is listed twice, each listed one is
/// greater than the next or, with the same logit, stands before it, and so it is with the last one
/// listed and every token that is not.
pub proof fn law_considered_tokens_are_the_greatest(
    logits: Seq<u32>,
    chosen: Seq<usize>,
    i: int,
    other: usize,
)
    requires
        are_best(logits, chosen),
        0 <= i < chosen.len(),
        other < logits.len(),
    ensures
        chosen.no_duplicates(),
        chosen[i] < logits.len(),
        !chosen.contains(other) ==> !float_bits::exceeds(logits[other as int], logits[chosen[i] as int]),
        !chosen.contains(other) && logits[other as int] == logits[chosen[i] as int] ==> chosen[i]
            < other,
        i + 1 < chosen.len() ==> !float_bits::exceeds(
            logits[chosen[i + 1] as int],
            logits[chosen[i] as int],
        ),
        i + 1 < chosen.len() && logits[chosen[i + 1] as int] == logits[chosen[i] as int]
            ==> chosen[i] < chosen[i + 1],
{
    assert forall|a: int, b: int| 0 <= a < chosen.len() && 0 <= b < chosen.len() && a != b implies
        chosen[a] != chosen[b] by {
        if a < b {
            assert(ahead(logits, chosen[a] as int, chosen[b] as int));
        } else {
            assert(ahead(logits, chosen[b] as int, chosen[a] as int));
        }
    }
    let here = logits[chosen[i] as int];
    let there = logits[other as int];
    if !chosen.contains(other) {
        assert(ahead(logits, chosen[i] as int, other as int));
        if float_bits::exceeds(there, here) {
            float_bits::law_total_order_extends_order(there, here);
        }
    }
    if i + 1 < chosen.len() {
        let next = logits[chosen[i + 1] as int];
        assert(ahead(logits, chosen[i] as int, chosen[i + 1] as int));
        if float_bits::exceeds(next, here) {
            float_bits::law_total_order_extends_order(next, here);
        }
    }
}

/// As many tokens are considered as asked for, but at least one, and never more than there are.
pub proof fn law_considered_count(top_k: nat, vocab_size: nat)
    requires
        vocab_size > 0,
    ensures
        1 <= considered(top_k, vocab_size) <= vocab_size,
        1 <= top_k <= vocab_size ==> considered(top_k, vocab_size) == top_k,
        top_k > vocab_size ==> considered(top_k, vocab_size) == vocab_size,
        top_k == 0 ==> considered(top_k, vocab_size) == 1,
{
}

/// A draw falls on the first token whose cumulated probability it does not exceed, and on the best
/// one where it exceeds them all.
pub proof fn law_draw_falls_on_its_share(
    chosen: Seq<usize>,
    cumulated: Seq<u32>,
    draw: u32,
    token: usize,
    i: int,
)
    requires
        is_sampled(chosen, cumulated, draw, token),
        draw <= 0x7f800000,
        forall|j: int| 0 <= j < cumulated.len() ==> #[trigger] cumulated[j] <= 0x7f800000,
        0 <= i <= cumulated.len() <= usize::MAX,
        forall|j: int| 0 <= j < i ==> #[trigger] cumulated[j] < draw,
    ensures
        i < cumulated.len() && draw <= cumulated[i] ==> token == chosen[i],
        i == cumulated.len() ==> token == chosen[0],
{
    let reached = choose|reached: Option<usize>|
        #[trigger] generate::is_first_reached(cumulated, draw, reached) && token == match reached {
            Some(i) => chosen[i as int],
            None => chosen[0],
        };
    match reached {
        Some(k) => {
            assert(cumulated[k as int] <= 0x7f800000);
            if k < i {
                assert(cumulated[k as int] < draw);
                generate::law_draw_stops_where_it_is_reached(cumulated, draw, reached, k as int);
            } else if i < cumulated.len() && draw <= cumulated[i] {
                assert(cumulated[i] <= 0x7f800000);
                generate::law_draw_stops_where_it_is_reached(cumulated, draw, reached, i);
            }
        },
        None => {
            if i < cumulated.len() {
                assert(cumulated[i] <= 0x7f800000);
                generate::law_draw_stops_where_it_is_reached(cumulated, draw, reached, i);
            }
        },
    }
}

/// Sampling is greedy exactly where at most one token is considered, or where the temperature is
/// negative or no greater than 0.0001.
pub proof fn law_cold_sampling_is_greedy(config: SamplingConfig)
    ensures
        config.always_best() <==> config.top_k <= 1 || config.temperature <= 0x38d1b717
            || 0x80000000 <= config.temperature <= 0xff800000,
{
}

/// What the balanced configuration asks for: it is not greedy, penalises, and looks back over
/// sixteen tokens.
pub proof fn law_balanced_sampling(config: SamplingConfig)
    requires
        config.is_balanced(),
    ensures
        !config.always_best(),
        config.top_k == 5,
        config.penalty_window == 16,
        float_bits::exceeds(config.repetition_penalty, 0x3f800000),
        float_bits::exceeds(0x3f800000, config.temperature),
{
}

} // verus!
