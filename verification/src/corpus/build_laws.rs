//! How the pre-training texts are put together, and what drills contain.

use vstd::prelude::*;

use crate::classic::tokenizer::VOCAB_CHINCHILLA;
use crate::classic::tokenizer;
use crate::corpus::base;
use crate::corpus::base_laws;
use crate::corpus::chinchilla;
use crate::corpus::drill_laws;
use crate::corpus::drills::{Domain, Form};
use crate::corpus::drills;
use crate::corpus::filling;
use crate::corpus::remainder;
use crate::corpus::sentences;
use crate::corpus::unified;
use crate::corpus::unified_laws;
use crate::corpus::words::{BOT, EOS, EQUALS, MINUS, NO, OVER, PLUS, TIMES, USER, YES};
use crate::text;

verus! {

/// A pool that is gone over again and again gives at each place the line that is left over when
/// whole rounds are taken from the place.
pub proof fn law_pool_goes_in_a_circle(
    pool: Seq<Seq<usize>>,
    k: nat,
    i: nat,
    rounds: nat,
    at: nat,
)
    requires
        i < k,
        at < pool.len(),
        i == rounds * pool.len() + at,
    ensures
        filling::cycled(pool, k).len() == k,
        filling::cycled(pool, k)[i as int] == pool[at as int],
{
    vstd::arithmetic::div_mod::lemma_fundamental_div_mod_converse(
        i as int,
        pool.len() as int,
        rounds as int,
        at as int,
    );
}

/// The tokens of no lines are none, and each further line adds its own; behind whole rounds it is
/// again the first one's turn.
pub proof fn law_lines_are_counted_in_a_circle(lens: Seq<usize>, rounds: nat, at: nat)
    requires
        at < lens.len(),
    ensures
        filling::prefix(lens, 0) == 0,
        filling::prefix(lens, rounds * lens.len() + at + 1) == filling::prefix(
            lens,
            rounds * lens.len() + at,
        ) + lens[at as int],
{
    let k = rounds * lens.len() + at;
    assert(0 * filling::total(lens) == 0);
    vstd::arithmetic::div_mod::lemma_fundamental_div_mod_converse(
        k as int,
        lens.len() as int,
        rounds as int,
        at as int,
    );
    filling::lemma_prefix_step(lens, k);
}

/// Filling takes as few lines as leave at most the margin missing, and never too many.
pub proof fn law_filling_stops_at_the_margin(lens: Seq<usize>, margin: nat, target: nat, fewer: nat)
    requires
        lens.len() > 0,
        filling::fillable(lens, margin, target),
    ensures
        ({
            let k = filling::lines_taken(lens, margin, target);
            &&& filling::prefix(lens, k) <= target <= filling::prefix(lens, k) + margin
            &&& fewer < k ==> filling::prefix(lens, fewer) + margin < target
            &&& filling::missing(lens, margin, target) == target - filling::prefix(lens, k)
        }),
{
    let k = filling::lines_taken(lens, margin, target);
    assert(filling::fills(lens, margin, target, k));
}

/// The pool can be filled from wherever some number of lines leaves no more than the margin missing
/// and none too many.
pub proof fn law_filling_succeeds_where_it_can(lens: Seq<usize>, margin: nat, target: nat, k: nat)
    requires
        lens.len() > 0,
        filling::prefix(lens, k) <= target <= filling::prefix(lens, k) + margin,
    ensures
        filling::fillable(lens, margin, target),
    decreases k,
{
    if k == 0 {
        assert(filling::fills(lens, margin, target, 0));
    } else {
        let j = (k - 1) as nat;
        filling::lemma_prefix_monotone(lens, j, k);
        if filling::prefix(lens, j) + margin >= target {
            law_filling_succeeds_where_it_can(lens, margin, target, j);
        } else {
            assert forall|i: nat| i < k implies #[trigger] filling::prefix(lens, i) + margin
                < target by {
                filling::lemma_prefix_monotone(lens, i, j);
            }
            assert(filling::fills(lens, margin, target, k));
        }
    }
}

/// The base pre-training text is the pool of base statements over and over, up to the first line
/// that leaves at most 25 tokens missing, and then the filler for what is missing.
pub proof fn law_base_text_is_pool_and_filler(
    vocab: Seq<Seq<char>>,
    target: nat,
    i: nat,
    rounds: nat,
    at: nat,
)
    requires
        filling::fillable(base::line_lens(vocab, unified::base_sentences()), 25, target),
        at < 78,
        i == rounds * 78 + at,
    ensures
        ({
            let list = base::pretrain(vocab, target);
            let lens = base::line_lens(vocab, unified::base_sentences());
            let rest = base::pretrain_missing(vocab, target);
            let k = list.len() - base::filler(rest).len();
            &&& 0 <= k
            &&& i < k ==> list[i as int] == unified::base_sentences()[at as int]
            &&& list.skip(k) == base::filler(rest)
            &&& rest <= 25
            &&& filling::prefix(lens, k as nat) + rest == target
            &&& i < k ==> filling::prefix(lens, i) + 25 < target
        }),
{
    unified_laws::law_base_sentences();
    let pool = unified::base_sentences();
    let lens = base::line_lens(vocab, pool);
    let k = filling::lines_taken(lens, 25, target);
    law_filling_stops_at_the_margin(lens, 25, target, i);
    if i < k {
        law_pool_goes_in_a_circle(pool, k, i, rounds, at);
    }
    let list = base::pretrain(vocab, target);
    let rest = base::pretrain_missing(vocab, target);
    assert(list.skip(k as int) =~= base::filler(rest));
}

/// The filler of each remainder from 4 to 25 has that many tokens, but for 21 and 22, and all its
/// sentences are well formed.
pub proof fn law_filler_makes_up_the_remainder(missing: nat)
    requires
        4 <= missing <= 25,
        missing != 21,
        missing != 22,
    ensures
        base::filler(missing).flatten().len() == missing,
        sentences::all_well_formed(base::filler(missing)),
{
    base_laws::lemma_filler_volume(missing);
    base_laws::lemma_filler_well_formed(missing);
}

/// The Chinchilla pre-training text is the pool over and over, up to the first line that leaves at
/// most 30 tokens missing, and then fillers for what is missing.
pub proof fn law_chinchilla_text_is_pool_and_fillers(
    vocab: Seq<Seq<char>>,
    target: nat,
    i: nat,
    rounds: nat,
    at: nat,
)
    requires
        chinchilla::pretrain_exists(vocab, target),
        at < chinchilla::pool().len(),
        i == rounds * chinchilla::pool().len() + at,
    ensures
        ({
            let list = chinchilla::pretrain(vocab, target);
            let rest = chinchilla::pretrain_missing(vocab, target);
            let fillers = chinchilla::made_up(vocab, rest)->0;
            let k = list.len() - fillers.len();
            &&& 0 <= k
            &&& i < k ==> list[i as int] == chinchilla::pool()[at as int]
            &&& list.skip(k) == fillers
            &&& rest <= 30
            &&& filling::prefix(base::line_lens(vocab, chinchilla::pool()), k as nat) + rest
                == target
            &&& i < k ==> filling::prefix(base::line_lens(vocab, chinchilla::pool()), i) + 30
                < target
        }),
{
    let pool = chinchilla::pool();
    let lens = base::line_lens(vocab, pool);
    let margin: nat = 30;
    let k = filling::lines_taken(lens, margin, target);
    law_filling_stops_at_the_margin(lens, margin, target, i);
    if i < k {
        law_pool_goes_in_a_circle(pool, k, i, rounds, at);
    }
    let list = chinchilla::pretrain(vocab, target);
    let rest = chinchilla::pretrain_missing(vocab, target);
    let fillers = chinchilla::made_up(vocab, rest)->0;
    assert(list.skip(k as int) =~= fillers);
}

proof fn lemma_attempt_takes_the_first(lens: Seq<usize>, target: nat, from: nat)
    requires
        remainder::backtracks(lens),
        lens.len() <= usize::MAX,
    ensures
        remainder::attempt(lens, target, from) matches Some(picks) ==> {
            &&& picks.len() > 0
            &&& from <= picks[0] < lens.len()
            &&& lens[picks[0] as int] <= target
            &&& remainder::search(lens, (target - lens[picks[0] as int]) as nat) == Some(
                picks.drop_first(),
            )
            &&& forall|j: int|
                from <= j < picks[0] ==> #[trigger] lens[j] > target || remainder::search(
                    lens,
                    (target - lens[j]) as nat,
                ) is None
        },
    decreases lens.len() - from,
{
    if from < lens.len() {
        assert(lens[from as int] != 0);
        if lens[from as int] <= target && remainder::search(
            lens,
            (target - lens[from as int]) as nat,
        ) is Some {
            let rest = remainder::search(lens, (target - lens[from as int]) as nat)->0;
            assert((seq![from as usize] + rest).drop_first() =~= rest);
        } else {
            lemma_attempt_takes_the_first(lens, target, from + 1);
        }
    }
}

/// A remainder is made up line by line: each time the first line is taken behind which the rest can
/// still be made up.
pub proof fn law_first_possible_line_is_taken(lens: Seq<usize>, target: nat)
    requires
        remainder::backtracks(lens),
        lens.len() <= usize::MAX,
    ensures
        remainder::search(lens, 0) == Some(Seq::<usize>::empty()),
        target > 0 ==> (remainder::search(lens, target) matches Some(picks) ==> {
            &&& picks.len() > 0
            &&& picks[0] < lens.len()
            &&& lens[picks[0] as int] <= target
            &&& remainder::search(lens, (target - lens[picks[0] as int]) as nat) == Some(
                picks.drop_first(),
            )
            &&& forall|j: int|
                0 <= j < picks[0] ==> #[trigger] lens[j] > target || remainder::search(
                    lens,
                    (target - lens[j]) as nat,
                ) is None
        }),
{
    if target > 0 {
        lemma_attempt_takes_the_first(lens, target, 0);
    }
}

/// The digit that a token stands for.
pub open spec fn number(token: usize) -> int {
    if token <= 9 {
        token - 4
    } else {
        token - 15
    }
}

/// The token of a digit is spelled as the digit.
#[verifier::spinoff_prover]
#[verifier::rlimit(60)]
pub proof fn law_digits_are_spelled(d: nat)
    requires
        d <= 9,
    ensures
        tokenizer::words(VOCAB_CHINCHILLA@)[drills::digit(d as int) as int] == text::decimal(d),
        number(drills::digit(d as int)) == d,
{
    reveal_strlit("0");
    reveal_strlit("1");
    reveal_strlit("2");
    reveal_strlit("3");
    reveal_strlit("4");
    reveal_strlit("5");
    reveal_strlit("6");
    reveal_strlit("7");
    reveal_strlit("8");
    reveal_strlit("9");
    let at = drills::digit(d as int) as int;
    let word = tokenizer::words(VOCAB_CHINCHILLA@)[at];
    assert(word == VOCAB_CHINCHILLA@[at]@);
    assert(word =~= text::decimal(d));
}

/// Whether an operation, given by its token, has a result on two numbers.
#[verifier::opaque]
pub open spec fn comes_to(sign: usize, a: int, b: int, shown: int) -> bool {
    ||| sign == PLUS && a + b == shown
    ||| sign == MINUS && a - b == shown
    ||| sign == TIMES && a * b == shown
    ||| sign == OVER && b > 0 && shown * b == a
}

/// An operation of a sentence on two digits has the result that the sentence shows, or, where the
/// sentence passes a verdict on it, has it exactly where the verdict is yes.
pub open spec fn true_sentence(s: Seq<usize>) -> bool {
    if s[0] == USER {
        &&& s.len() == 8
        &&& s[4] == EQUALS
        &&& s[5] == BOT
        &&& s[7] == EOS
        &&& comes_to(s[2], number(s[1]), number(s[3]), number(s[6]))
    } else {
        &&& s[3] == EQUALS
        &&& s.last() == EOS
        &&& s.len() == 6 || s.len() == 8 && s[5] == EQUALS && (s[6] == YES || s[6] == NO)
        &&& (s.len() == 6 || s[6] == YES) == comes_to(
            s[1],
            number(s[0]),
            number(s[2]),
            number(s[4]),
        )
    }
}

proof fn lemma_results_are_right(domain: Domain, a: int, b: int, next: int)
    requires
        drills::admits(domain, a, b),
    ensures
        comes_to(drills::sign(domain), a, b, drills::result(domain, a, b)),
        next != drills::result(domain, a, b) ==> !comes_to(drills::sign(domain), a, b, next),
{
    reveal(comes_to);
    let c = drills::result(domain, a, b);
    if domain is Quotients {
        vstd::arithmetic::div_mod::lemma_fundamental_div_mod(a, b);
        assert(c * b == a) by (nonlinear_arith)
            requires
                a == b * (a / b) + a % b,
                a % b == 0,
                c == a / b,
        ;
        if next != c {
            assert(next * b != a) by (nonlinear_arith)
                requires
                    c * b == a,
                    next != c,
                    b > 0,
            ;
        }
    }
}

proof fn lemma_drilled_is_true(domain: Domain, form: Form, a: int, b: int)
    requires
        drills::digital(domain),
        drills::admits(domain, a, b),
        0 <= a <= 9,
        0 <= b <= 9,
    ensures
        forall|i: int|
            0 <= i < drills::drilled(domain, form, a, b).len() ==> true_sentence(
                #[trigger] drills::drilled(domain, form, a, b)[i],
            ),
{
    let c = drills::result(domain, a, b);
    drill_laws::lemma_result_is_digit(domain, a, b);
    let list = drills::drilled(domain, form, a, b);
    let next = (c + 1) % 10;
    assert(0 <= next <= 9 && next != c);
    lemma_results_are_right(domain, a, b, next);
    assert(forall|d: int| 0 <= d <= 9 ==> number(#[trigger] drills::digit(d)) == d);
    assert(drills::digit(a) != USER);
    assert(true_sentence(drills::equation(domain, a, b)));
    assert(true_sentence(drills::dialogue(domain, a, b)));
    assert(true_sentence(drills::verdict(domain, a, b, c, YES)));
    assert(true_sentence(drills::verdict(domain, a, b, next, NO)));
}

/// Every sentence of a drill is true.
pub proof fn law_drills_are_true(domain: Domain, form: Form, n: int, k: nat, i: int)
    requires
        1 <= n <= 10,
        k <= n * n,
        drills::digital(domain),
        0 <= i < drills::drill(domain, form, n, k).len(),
    ensures
        true_sentence(drills::drill(domain, form, n, k)[i]),
    decreases k,
{
    if k > 0 {
        let j = (k - 1) as nat;
        let a = j as int / n;
        let b = j as int % n;
        assert(0 <= a < n && 0 <= b < n) by (nonlinear_arith)
            requires
                a == j as int / n,
                b == j as int % n,
                0 <= j < n * n,
                1 <= n,
        ;
        let before = drills::drill(domain, form, n, j);
        if i < before.len() {
            law_drills_are_true(domain, form, n, j, i);
        } else {
            lemma_drilled_is_true(domain, form, a, b);
        }
    }
}

proof fn lemma_drill_contains(domain: Domain, form: Form, n: int, k: nat, a: int, b: int, i: int)
    requires
        1 <= n,
        0 <= a,
        0 <= b < n,
        a * n + b < k,
        drills::admits(domain, a, b),
        0 <= i < drills::drilled(domain, form, a, b).len(),
    ensures
        drills::drill(domain, form, n, k).contains(drills::drilled(domain, form, a, b)[i]),
    decreases k,
{
    let j = (k - 1) as nat;
    let s = drills::drilled(domain, form, a, b)[i];
    let list = drills::drill(domain, form, n, k);
    let before = drills::drill(domain, form, n, j);
    assert(a * n + b >= 0) by (nonlinear_arith)
        requires
            0 <= a,
            0 <= b,
            1 <= n,
    ;
    if a * n + b == j {
        assert(a * n == n * a) by (nonlinear_arith);
        vstd::arithmetic::div_mod::lemma_fundamental_div_mod_converse(j as int, n, a, b);
        assert(list[before.len() + i] == s);
    } else {
        lemma_drill_contains(domain, form, n, j, a, b, i);
        let at = choose|at: int| 0 <= at < before.len() && before[at] == s;
        assert(list[at] == s);
    }
}

/// A drill leaves out no pair of digits that its domain admits: sums within the bounds, differences
/// of a minuend from the bound on and a subtrahend up to it, products up to nine, exact quotients.
pub proof fn law_drills_are_complete(domain: Domain, form: Form, n: int, a: int, b: int)
    requires
        1 <= n <= 10,
        0 <= a < n,
        0 <= b < n,
        match domain {
            Domain::Sums { low, high } => low <= a + b <= high,
            Domain::Differences { low } => low <= a && b <= a,
            Domain::Products => a * b <= 9,
            Domain::Quotients => exists|q: int| #[trigger] (q * b) == a && b > 0,
        },
    ensures
        exists|s: Seq<usize>|
            {
                let o = if s[0] == USER {
                    1int
                } else {
                    0int
                };
                &&& #[trigger] drills::drill(domain, form, n, (n * n) as nat).contains(s)
                &&& s[o] == drills::digit(a)
                &&& s[o + 2] == drills::digit(b)
                &&& form is Dialogue <==> s[0] == USER
                &&& s.len() == if form is Dialogue {
                    8nat
                } else {
                    6nat
                }
            },
        form is EquationAndDialogue || form is EquationAndVerdicts ==> exists|s: Seq<usize>|
            {
                let o = if s[0] == USER {
                    1int
                } else {
                    0int
                };
                &&& #[trigger] drills::drill(domain, form, n, (n * n) as nat).contains(s)
                &&& s[o] == drills::digit(a)
                &&& s[o + 2] == drills::digit(b)
                &&& form is EquationAndDialogue <==> s[0] == USER
                &&& s.len() == 8
            },
{
    if domain is Quotients {
        let q = choose|q: int| #[trigger] (q * b) == a && b > 0;
        vstd::arithmetic::div_mod::lemma_mod_multiples_basic(q, b);
    }
    assert(drills::admits(domain, a, b));
    assert(a * n + b < n * n) by (nonlinear_arith)
        requires
            0 <= a < n,
            0 <= b < n,
    ;
    lemma_drill_contains(domain, form, n, (n * n) as nat, a, b, 0);
    let first = drills::drilled(domain, form, a, b)[0];
    assert(drills::drill(domain, form, n, (n * n) as nat).contains(first));
    assert(drills::digit(a) != USER);
    if form is EquationAndDialogue || form is EquationAndVerdicts {
        lemma_drill_contains(domain, form, n, (n * n) as nat, a, b, 1);
        let second = drills::drilled(domain, form, a, b)[1];
        assert(drills::drill(domain, form, n, (n * n) as nat).contains(second));
    }
}

/// The second unified corpus is built where the first has 980 tokens and it has three times as many.
pub proof fn law_second_corpus_has_thrice_the_tokens(vocab: Seq<Seq<char>>)
    ensures
        unified::v2_volume_holds(vocab) <==> {
            let first = tokenizer::encoding(vocab, sentences::text_of(unified::unified())).len();
            let second = tokenizer::encoding(vocab, sentences::text_of(unified::unified_v2())).len();
            first == 980 && second == 3 * first
        },
{
}

/// The instruction text of the Chinchilla corpus is built where it has between 1800 and 2200 tokens
/// and no line is changed by encoding and decoding it.
pub proof fn law_instruction_text_is_bounded(vocab: Seq<Seq<char>>)
    ensures
        chinchilla::instruct_exists(vocab) <==> {
            let list = chinchilla::instruct();
            let tokens = tokenizer::encoding(vocab, sentences::text_of(list)).len();
            &&& 1800 <= tokens && tokens <= 2200
            &&& !exists|i: int|
                0 <= i < list.len() && tokenizer::decoding(
                    vocab,
                    tokenizer::encoding(vocab, sentences::spelled(#[trigger] list[i])),
                ) != sentences::spelled(list[i])
        },
{
}

/// The Chinchilla pre-training text is built where it has exactly the tokens asked for and no line
/// is changed by encoding and decoding it.
pub proof fn law_pretraining_text_is_exact(vocab: Seq<Seq<char>>, target: nat)
    requires
        chinchilla::pretrain_exists(vocab, target),
    ensures
        ({
            let list = chinchilla::pretrain(vocab, target);
            &&& tokenizer::encoding(vocab, sentences::text_of(list)).len() == target
            &&& forall|i: int|
                0 <= i < list.len() ==> tokenizer::decoding(
                    vocab,
                    tokenizer::encoding(vocab, sentences::spelled(#[trigger] list[i])),
                ) == sentences::spelled(list[i])
        }),
{
}

/// A remainder is made up exactly where the search finds lines for it, of the lines that it finds.
pub proof fn law_remainder_is_made_up_of_what_is_found(vocab: Seq<Seq<char>>, target: nat, i: int)
    ensures
        ({
            let all = chinchilla::fillers();
            let found = remainder::search(base::line_lens(vocab, all), target);
            &&& chinchilla::made_up(vocab, target) is Some <==> found is Some
            &&& found is Some ==> chinchilla::made_up(vocab, target)->0.len() == found->0.len()
            &&& found is Some && 0 <= i < found->0.len() ==> chinchilla::made_up(
                vocab,
                target,
            )->0[i] == all[found->0[i] as int]
        }),
{
}

/// The number of tokens of each line is that of its spelling.
pub proof fn law_lines_are_measured_by_their_spelling(
    vocab: Seq<Seq<char>>,
    list: Seq<Seq<usize>>,
    i: int,
)
    requires
        0 <= i < list.len(),
        tokenizer::encoding(vocab, sentences::spelled(list[i])).len() <= usize::MAX,
    ensures
        base::line_lens(vocab, list).len() == list.len(),
        base::line_lens(vocab, list)[i] == tokenizer::encoding(
            vocab,
            sentences::spelled(list[i]),
        ).len(),
{
}

proof fn lemma_attempt_keeps_to_the_first(lens: Seq<usize>, target: nat, from: nat)
    requires
        !remainder::backtracks(lens),
        lens.len() <= usize::MAX,
    ensures
        remainder::attempt(lens, target, from) matches Some(picks) ==> {
            &&& picks.len() > 0
            &&& from <= picks[0] < lens.len()
            &&& 0 < lens[picks[0] as int] <= target
            &&& remainder::search(lens, (target - lens[picks[0] as int]) as nat) == Some(
                picks.drop_first(),
            )
            &&& forall|j: int| from <= j < picks[0] ==> #[trigger] lens[j] > target
        },
    decreases lens.len() - from,
{
    if from < lens.len() && lens[from as int] != 0 {
        if lens[from as int] <= target {
            let rest = remainder::search(lens, (target - lens[from as int]) as nat);
            if rest is Some {
                assert((seq![from as usize] + rest->0).drop_first() =~= rest->0);
            }
        } else {
            lemma_attempt_keeps_to_the_first(lens, target, from + 1);
        }
    }
}

/// Where some line has no tokens, the search does not turn back: each time the first line that fits
/// is taken, whatever is left behind it.
pub proof fn law_first_fitting_line_is_kept(lens: Seq<usize>, target: nat)
    requires
        !remainder::backtracks(lens),
        lens.len() <= usize::MAX,
        target > 0,
    ensures
        remainder::search(lens, target) matches Some(picks) ==> {
            &&& picks.len() > 0
            &&& picks[0] < lens.len()
            &&& 0 < lens[picks[0] as int] <= target
            &&& remainder::search(lens, (target - lens[picks[0] as int]) as nat) == Some(
                picks.drop_first(),
            )
            &&& forall|j: int| 0 <= j < picks[0] ==> #[trigger] lens[j] > target
        },
{
    lemma_attempt_keeps_to_the_first(lens, target, 0);
}

} // verus!
