//! How many sentences a drill makes, of how many tokens, and that it repeats none.

use vstd::prelude::*;

use crate::corpus::drills::{Domain, Form};
use crate::corpus::drills;
use crate::corpus::sentence_laws;
use crate::corpus::sentences;
use crate::corpus::words::{NO, USER, YES};

verus! {

/// How many of the first `k` pairs of digits below `n` a domain admits.
pub open spec fn admitted(domain: Domain, n: int, k: nat) -> nat
    decreases k,
{
    if k == 0 {
        0
    } else {
        let before = admitted(domain, n, (k - 1) as nat);
        if drills::admits(domain, (k - 1) / n, (k - 1) % n) {
            before + 1
        } else {
            before
        }
    }
}

/// The sentences that a form makes of a pair.
pub open spec fn sentences_per_pair(form: Form) -> nat {
    match form {
        Form::Equation | Form::Dialogue => 1,
        Form::EquationAndDialogue => 2,
        Form::EquationAndVerdicts => 3,
    }
}

/// The tokens that a form makes of a pair.
pub open spec fn tokens_per_pair(form: Form) -> nat {
    match form {
        Form::Equation => 6,
        Form::Dialogue => 8,
        Form::EquationAndDialogue => 14,
        Form::EquationAndVerdicts => 22,
    }
}

/// The digit of a digit token.
pub open spec fn digit_of(token: usize) -> int {
    if token <= 9 {
        token - 4
    } else {
        token - 15
    }
}

/// The position of the pair of digits below `n` that an equation, a verdict or a dialogue is
/// about.
pub open spec fn pair_position(sentence: Seq<usize>, n: int) -> int {
    if sentence[0] == USER {
        digit_of(sentence[1]) * n + digit_of(sentence[3])
    } else {
        digit_of(sentence[0]) * n + digit_of(sentence[2])
    }
}

proof fn lemma_pair_of_position(n: int, k: int)
    requires
        1 <= n <= 10,
        0 <= k < n * n,
    ensures
        0 <= k / n < n,
        0 <= k % n < n,
        (k / n) * n + k % n == k,
{
    assert(0 <= k / n < n && 0 <= k % n < n && (k / n) * n + k % n == k) by (nonlinear_arith)
        requires
            1 <= n,
            0 <= k < n * n,
    ;
}

/// The results of a domain on admitted digits are digits.
pub proof fn lemma_result_is_digit(domain: Domain, a: int, b: int)
    requires
        drills::digital(domain),
        drills::admits(domain, a, b),
        0 <= a <= 9,
        0 <= b <= 9,
    ensures
        0 <= drills::result(domain, a, b) <= 9,
{
    if domain is Products {
        assert(0 <= a * b) by (nonlinear_arith)
            requires
                0 <= a,
                0 <= b,
        ;
    } else if domain is Quotients {
        assert(0 <= a / b <= a) by (nonlinear_arith)
            requires
                0 <= a,
                1 <= b,
        ;
    }
}

/// The sentences of a pair: all well formed, about that pair, different, and counted by their
/// form.
pub proof fn lemma_drilled(domain: Domain, form: Form, n: int, a: int, b: int)
    requires
        drills::digital(domain),
        drills::admits(domain, a, b),
        0 <= a <= 9,
        0 <= b <= 9,
    ensures
        ({
            let list = drills::drilled(domain, form, a, b);
            &&& list.len() == sentences_per_pair(form)
            &&& list.flatten().len() == tokens_per_pair(form)
            &&& sentences::all_well_formed(list)
            &&& list.no_duplicates()
            &&& forall|i: int|
                0 <= i < list.len() ==> pair_position(#[trigger] list[i], n) == a * n + b
        }),
{
    let list = drills::drilled(domain, form, a, b);
    let c = drills::result(domain, a, b);
    lemma_result_is_digit(domain, a, b);
    reveal_with_fuel(Seq::<_>::flatten, 4);
    if form is EquationAndVerdicts {
        assert(list[1][6] == YES && list[2][6] == NO);
        assert(list.drop_first() =~= seq![list[1], list[2]]);
        assert(list.drop_first().drop_first() =~= seq![list[2]]);
    } else if form is EquationAndDialogue {
        assert(list.drop_first() =~= seq![list[1]]);
    }
    assert forall|i: int| 0 <= i < list.len() implies sentences::well_formed(#[trigger] list[i]) by {
        let s = list[i];
        assert(forall|j: int| 0 <= j < s.len() ==> s[j] < 65);
    }
}

/// A drill makes of each admitted pair the sentences of its form.
pub proof fn law_drill_volume(domain: Domain, form: Form, n: int, k: nat)
    requires
        1 <= n <= 10,
        k <= n * n,
        drills::digital(domain),
    ensures
        drills::drill(domain, form, n, k).len() == sentences_per_pair(form) * admitted(
            domain,
            n,
            k,
        ),
        drills::drill(domain, form, n, k).flatten().len() == tokens_per_pair(form) * admitted(
            domain,
            n,
            k,
        ),
        sentences::all_well_formed(drills::drill(domain, form, n, k)),
    decreases k,
{
    let list = drills::drill(domain, form, n, k);
    if k == 0 {
        assert(list.flatten() =~= Seq::<usize>::empty());
    } else {
        let j = (k - 1) as nat;
        let a = j as int / n;
        let b = j as int % n;
        let before = drills::drill(domain, form, n, j);
        law_drill_volume(domain, form, n, j);
        lemma_pair_of_position(n, j as int);
        if drills::admits(domain, a, b) {
            lemma_drilled(domain, form, n, a, b);
            let made = drills::drilled(domain, form, a, b);
            sentence_laws::lemma_append_volume(before, made);
            sentence_laws::lemma_append_well_formed(before, made);
        }
        match form {
            Form::Equation => {},
            Form::Dialogue => {},
            Form::EquationAndDialogue => {},
            Form::EquationAndVerdicts => {},
        }
    }
}

/// A drill repeats no sentence, and its sentences are about the pairs that it has run over.
pub proof fn law_drill_is_unique(domain: Domain, form: Form, n: int, k: nat)
    requires
        1 <= n <= 10,
        k <= n * n,
        drills::digital(domain),
    ensures
        drills::drill(domain, form, n, k).no_duplicates(),
        forall|i: int|
            0 <= i < drills::drill(domain, form, n, k).len() ==> pair_position(
                #[trigger] drills::drill(domain, form, n, k)[i],
                n,
            ) < k,
    decreases k,
{
    if k > 0 {
        let j = (k - 1) as nat;
        let a = j as int / n;
        let b = j as int % n;
        let before = drills::drill(domain, form, n, j);
        law_drill_is_unique(domain, form, n, j);
        lemma_pair_of_position(n, j as int);
        if drills::admits(domain, a, b) {
            lemma_drilled(domain, form, n, a, b);
            let made = drills::drilled(domain, form, a, b);
            let list = before + made;
            assert forall|x: int, y: int|
                0 <= x < list.len() && 0 <= y < list.len() && x != y implies list[x] != list[y] by {
                let bx = before.len();
                if x < bx && y < bx {
                } else if x >= bx && y >= bx {
                    assert(made[x - bx] != made[y - bx]);
                } else if x < bx {
                    assert(pair_position(before[x], n) < j);
                    assert(pair_position(made[y - bx], n) == j);
                } else {
                    assert(pair_position(before[y], n) < j);
                    assert(pair_position(made[x - bx], n) == j);
                }
            }
            assert forall|i: int| 0 <= i < list.len() implies pair_position(#[trigger] list[i], n)
                < k by {
                if i < before.len() {
                    assert(pair_position(before[i], n) < j);
                } else {
                    assert(pair_position(made[i - before.len()], n) == j);
                }
            }
        }
    }
}

/// The numbers of pairs that the small drills run over.
#[verifier::spinoff_prover]
#[verifier::rlimit(100)]
pub proof fn lemma_small_counts()
    ensures
        admitted(Domain::Sums { low: 0, high: 5 }, 6, 36) == 21,
        admitted(Domain::Differences { low: 0 }, 6, 36) == 21,
{
    reveal_with_fuel(admitted, 37);
}

#[verifier::spinoff_prover]
#[verifier::rlimit(100)]
pub proof fn lemma_count_large_sums()
    ensures
        admitted(Domain::Sums { low: 6, high: 9 }, 10, 100) == 34,
{
    let domain = Domain::Sums { low: 6, high: 9 };
    reveal_with_fuel(admitted, 11);
    assert(admitted(domain, 10, 10) == 4);
    assert(admitted(domain, 10, 20) == 8);
    assert(admitted(domain, 10, 30) == 12);
    assert(admitted(domain, 10, 40) == 16);
    assert(admitted(domain, 10, 50) == 20);
    assert(admitted(domain, 10, 60) == 24);
    assert(admitted(domain, 10, 70) == 28);
    assert(admitted(domain, 10, 80) == 31);
    assert(admitted(domain, 10, 90) == 33);
    assert(admitted(domain, 10, 100) == 34);
}

#[verifier::spinoff_prover]
#[verifier::rlimit(100)]
pub proof fn lemma_count_large_differences()
    ensures
        admitted(Domain::Differences { low: 6 }, 10, 100) == 34,
{
    let domain = Domain::Differences { low: 6 };
    reveal_with_fuel(admitted, 11);
    assert(admitted(domain, 10, 10) == 0);
    assert(admitted(domain, 10, 20) == 0);
    assert(admitted(domain, 10, 30) == 0);
    assert(admitted(domain, 10, 40) == 0);
    assert(admitted(domain, 10, 50) == 0);
    assert(admitted(domain, 10, 60) == 0);
    assert(admitted(domain, 10, 70) == 7);
    assert(admitted(domain, 10, 80) == 15);
    assert(admitted(domain, 10, 90) == 24);
    assert(admitted(domain, 10, 100) == 34);
}

#[verifier::spinoff_prover]
#[verifier::rlimit(100)]
pub proof fn lemma_count_all_differences()
    ensures
        admitted(Domain::Differences { low: 0 }, 10, 100) == 55,
{
    let domain = Domain::Differences { low: 0 };
    reveal_with_fuel(admitted, 11);
    assert(admitted(domain, 10, 10) == 1);
    assert(admitted(domain, 10, 20) == 3);
    assert(admitted(domain, 10, 30) == 6);
    assert(admitted(domain, 10, 40) == 10);
    assert(admitted(domain, 10, 50) == 15);
    assert(admitted(domain, 10, 60) == 21);
    assert(admitted(domain, 10, 70) == 28);
    assert(admitted(domain, 10, 80) == 36);
    assert(admitted(domain, 10, 90) == 45);
    assert(admitted(domain, 10, 100) == 55);
}

#[verifier::spinoff_prover]
#[verifier::rlimit(100)]
pub proof fn lemma_count_all_sums()
    ensures
        admitted(Domain::Sums { low: 0, high: 9 }, 10, 100) == 55,
{
    let domain = Domain::Sums { low: 0, high: 9 };
    reveal_with_fuel(admitted, 11);
    assert(admitted(domain, 10, 10) == 10);
    assert(admitted(domain, 10, 20) == 19);
    assert(admitted(domain, 10, 30) == 27);
    assert(admitted(domain, 10, 40) == 34);
    assert(admitted(domain, 10, 50) == 40);
    assert(admitted(domain, 10, 60) == 45);
    assert(admitted(domain, 10, 70) == 49);
    assert(admitted(domain, 10, 80) == 52);
    assert(admitted(domain, 10, 90) == 54);
    assert(admitted(domain, 10, 100) == 55);
}

/// The product of two digits, by the first.
spec fn times(a: int, b: int) -> int {
    if a == 0 {
        0 * b
    } else if a == 1 {
        1 * b
    } else if a == 2 {
        2 * b
    } else if a == 3 {
        3 * b
    } else if a == 4 {
        4 * b
    } else if a == 5 {
        5 * b
    } else if a == 6 {
        6 * b
    } else if a == 7 {
        7 * b
    } else if a == 8 {
        8 * b
    } else {
        9 * b
    }
}

/// Whether one digit divides another, by the divisor.
spec fn exact(a: int, b: int) -> bool {
    if b == 0 {
        false
    } else if b == 1 {
        a % 1 == 0
    } else if b == 2 {
        a % 2 == 0
    } else if b == 3 {
        a % 3 == 0
    } else if b == 4 {
        a % 4 == 0
    } else if b == 5 {
        a % 5 == 0
    } else if b == 6 {
        a % 6 == 0
    } else if b == 7 {
        a % 7 == 0
    } else if b == 8 {
        a % 8 == 0
    } else {
        a % 9 == 0
    }
}

proof fn lemma_products_and_quotients()
    ensures
        forall|a: int, b: int|
            0 <= a <= 9 && 0 <= b <= 9 ==> (#[trigger] drills::admits(Domain::Products, a, b)
                <==> times(a, b) <= 9),
        forall|a: int, b: int|
            0 <= a <= 9 && 0 <= b <= 9 ==> (#[trigger] drills::admits(Domain::Quotients, a, b)
                <==> exact(a, b)),
{
    assert forall|a: int, b: int| 0 <= a <= 9 && 0 <= b <= 9 implies a * b == times(a, b) by {
        assert(a * b == times(a, b)) by (nonlinear_arith)
            requires
                0 <= a <= 9,
        ;
    }
}

#[verifier::spinoff_prover]
#[verifier::rlimit(100)]
pub proof fn lemma_count_products()
    ensures
        admitted(Domain::Products, 10, 100) == 42,
{
    let domain = Domain::Products;
    reveal_with_fuel(admitted, 11);
    lemma_products_and_quotients();
    assert(admitted(domain, 10, 10) == 10);
    assert(admitted(domain, 10, 20) == 20);
    assert(admitted(domain, 10, 30) == 25);
    assert(admitted(domain, 10, 40) == 29);
    assert(admitted(domain, 10, 50) == 32);
    assert(admitted(domain, 10, 60) == 34);
    assert(admitted(domain, 10, 70) == 36);
    assert(admitted(domain, 10, 80) == 38);
    assert(admitted(domain, 10, 90) == 40);
    assert(admitted(domain, 10, 100) == 42);
}

#[verifier::spinoff_prover]
#[verifier::rlimit(100)]
pub proof fn lemma_count_quotients()
    ensures
        admitted(Domain::Quotients, 10, 100) == 32,
{
    let domain = Domain::Quotients;
    reveal_with_fuel(admitted, 11);
    lemma_products_and_quotients();
    assert(admitted(domain, 10, 10) == 9);
    assert(admitted(domain, 10, 20) == 10);
    assert(admitted(domain, 10, 30) == 12);
    assert(admitted(domain, 10, 40) == 14);
    assert(admitted(domain, 10, 50) == 17);
    assert(admitted(domain, 10, 60) == 19);
    assert(admitted(domain, 10, 70) == 23);
    assert(admitted(domain, 10, 80) == 25);
    assert(admitted(domain, 10, 90) == 29);
    assert(admitted(domain, 10, 100) == 32);
}

/// The numbers of pairs of digits up to five with a sum, or a product, that is a digit.
#[verifier::spinoff_prover]
#[verifier::rlimit(100)]
pub proof fn lemma_mixed_counts()
    ensures
        admitted(Domain::Sums { low: 0, high: 9 }, 6, 36) == 35,
        admitted(Domain::Products, 6, 36) == 26,
{
    lemma_products_and_quotients();
    reveal_with_fuel(admitted, 7);
    assert(admitted(Domain::Sums { low: 0, high: 9 }, 6, 6) == 6);
    assert(admitted(Domain::Sums { low: 0, high: 9 }, 6, 12) == 12);
    assert(admitted(Domain::Sums { low: 0, high: 9 }, 6, 18) == 18);
    assert(admitted(Domain::Sums { low: 0, high: 9 }, 6, 24) == 24);
    assert(admitted(Domain::Sums { low: 0, high: 9 }, 6, 30) == 30);
    assert(admitted(Domain::Sums { low: 0, high: 9 }, 6, 36) == 35);
    assert(admitted(Domain::Products, 6, 6) == 6);
    assert(admitted(Domain::Products, 6, 12) == 12);
    assert(admitted(Domain::Products, 6, 18) == 17);
    assert(admitted(Domain::Products, 6, 24) == 21);
    assert(admitted(Domain::Products, 6, 30) == 24);
    assert(admitted(Domain::Products, 6, 36) == 26);
}

} // verus!
