//! The exact volume of the pre-training pool.

use vstd::prelude::*;

use crate::corpus::chinchilla;
use crate::corpus::chinchilla::{
    CONTRASTS, DENIALS, FOOD_CHAINS, FURTHER_SYLLOGISMS, HUMAN_CONTRASTS, KINDS, MEALS, NOTIONS,
    NOTIONS_AND_NUMBERS, NUMBER_CHOICES, NUMBER_CONTRASTS, NUMBER_DENIALS, PLACES,
    PREDATOR_SYLLOGISMS, SYLLOGISMS,
};
use crate::corpus::chinchilla_volume;
use crate::corpus::drill_laws;
use crate::corpus::drills::{Domain, Form};
use crate::corpus::drills;
use crate::corpus::sentences;
use crate::corpus::words::{
    D5, D6, D9, EATS, HUMAN, IF, KNOWLEDGE, LOGIC, MIND, MINUS, MODEL, NUMBER, OVER, PLUS, SCIENCE,
    TIMES, WHERE,
};

verus! {

/// The subject of a sentence of the pool, told by its length and a few of its words.
spec fn subject(s: Seq<usize>) -> int {
    if s[1] == PLUS {
        15
    } else if s[1] == MINUS {
        16
    } else if s[1] == TIMES {
        17
    } else if s[1] == OVER {
        18
    } else if s.len() == 4 {
        if s[1] == EATS {
            10
        } else if s[2] == NUMBER || s[0] == MIND || s[0] == KNOWLEDGE || s[0] == MODEL && s[2]
            == MIND {
            2
        } else if s[0] == LOGIC || s[0] == SCIENCE || s[0] == MODEL || s[0] == HUMAN {
            0
        } else {
            8
        }
    } else if s.len() == 5 {
        if s[0] == WHERE {
            9
        } else if s[0] == HUMAN {
            1
        } else if s[0] <= D5 || D6 <= s[0] <= D9 {
            4
        } else {
            13
        }
    } else if s.len() == 6 {
        if s[0] == NUMBER {
            3
        } else if s[2] <= D5 {
            14
        } else {
            12
        }
    } else if s.len() == 8 {
        6
    } else if s[0] != IF {
        11
    } else if s[1] == LOGIC || s[1] == SCIENCE || s[1] == MODEL || s[1] == HUMAN {
        5
    } else {
        7
    }
}

/// Every sentence is on the given subject, and none stands twice.
spec fn on_subject(list: Seq<Seq<usize>>, k: int) -> bool {
    &&& list.no_duplicates()
    &&& forall|i: int| 0 <= i < list.len() ==> subject(#[trigger] list[i]) == k
}

/// Every sentence is on a subject before the given one, and none stands twice.
spec fn before_subject(list: Seq<Seq<usize>>, k: int) -> bool {
    &&& list.no_duplicates()
    &&& forall|i: int| 0 <= i < list.len() ==> subject(#[trigger] list[i]) < k
}

proof fn lemma_append_subject(a: Seq<Seq<usize>>, b: Seq<Seq<usize>>, k: int)
    requires
        before_subject(a, k),
        on_subject(b, k),
    ensures
        before_subject(a + b, k + 1),
        (a + b).len() == a.len() + b.len(),
{
    let list = a + b;
    let n = a.len();
    assert forall|i: int| 0 <= i < list.len() implies subject(#[trigger] list[i]) < k + 1 by {
        if i < n {
            assert(list[i] == a[i]);
        } else {
            assert(list[i] == b[i - n]);
        }
    }
    assert forall|i: int, j: int|
        0 <= i < list.len() && 0 <= j < list.len() && i != j implies list[i] != list[j] by {
        if i < n && j < n {
            assert(a[i] != a[j]);
        } else if i >= n && j >= n {
            assert(b[i - n] != b[j - n]);
        } else if i < n {
            assert(subject(a[i]) < k && subject(b[j - n]) == k);
        } else {
            assert(subject(a[j]) < k && subject(b[i - n]) == k);
        }
    }
}

#[verifier::spinoff_prover]
#[verifier::rlimit(60)]
proof fn lemma_notions()
    ensures
        on_subject(sentences::rows(NOTIONS@), 0),
        on_subject(sentences::rows(HUMAN_CONTRASTS@), 1),
{
}

#[verifier::spinoff_prover]
#[verifier::rlimit(60)]
proof fn lemma_numbered()
    ensures
        on_subject(sentences::rows(NOTIONS_AND_NUMBERS@), 2),
{
}

#[verifier::spinoff_prover]
#[verifier::rlimit(60)]
proof fn lemma_numbers()
    ensures
        on_subject(sentences::rows(NUMBER_CHOICES@), 3),
        on_subject(sentences::rows(NUMBER_CONTRASTS@), 4),
{
}

#[verifier::spinoff_prover]
#[verifier::rlimit(60)]
proof fn lemma_syllogisms()
    ensures
        on_subject(sentences::rows(SYLLOGISMS@), 5),
        on_subject(sentences::rows(PREDATOR_SYLLOGISMS@), 6),
{
}

#[verifier::spinoff_prover]
#[verifier::rlimit(60)]
proof fn lemma_further()
    ensures
        on_subject(sentences::rows(FURTHER_SYLLOGISMS@), 7),
{
}

#[verifier::spinoff_prover]
#[verifier::rlimit(60)]
proof fn lemma_kinds()
    ensures
        on_subject(sentences::rows(KINDS@), 8),
{
}

#[verifier::spinoff_prover]
#[verifier::rlimit(60)]
proof fn lemma_places()
    ensures
        on_subject(sentences::rows(PLACES@), 9),
{
}

#[verifier::spinoff_prover]
#[verifier::rlimit(60)]
proof fn lemma_meals()
    ensures
        on_subject(sentences::rows(MEALS@), 10),
        on_subject(sentences::rows(FOOD_CHAINS@), 11),
{
}

#[verifier::spinoff_prover]
#[verifier::rlimit(60)]
proof fn lemma_denials()
    ensures
        on_subject(sentences::rows(DENIALS@), 12),
{
}

#[verifier::spinoff_prover]
#[verifier::rlimit(60)]
proof fn lemma_contrasts()
    ensures
        on_subject(sentences::rows(CONTRASTS@), 13),
        on_subject(sentences::rows(NUMBER_DENIALS@), 14),
{
}

/// The statements that are no equations: 150, none of them twice.
proof fn lemma_statements()
    ensures
        before_subject(chinchilla::statements(), 15),
        chinchilla::statements().len() == 150,
{
    lemma_notions();
    lemma_numbered();
    lemma_numbers();
    lemma_syllogisms();
    lemma_further();
    lemma_kinds();
    lemma_places();
    lemma_meals();
    lemma_denials();
    lemma_contrasts();
    let l0 = sentences::rows(NOTIONS@);
    lemma_append_subject(l0, sentences::rows(HUMAN_CONTRASTS@), 1);
    let l1 = l0 + sentences::rows(HUMAN_CONTRASTS@);
    lemma_append_subject(l1, sentences::rows(NOTIONS_AND_NUMBERS@), 2);
    let l2 = l1 + sentences::rows(NOTIONS_AND_NUMBERS@);
    lemma_append_subject(l2, sentences::rows(NUMBER_CHOICES@), 3);
    let l3 = l2 + sentences::rows(NUMBER_CHOICES@);
    lemma_append_subject(l3, sentences::rows(NUMBER_CONTRASTS@), 4);
    let l4 = l3 + sentences::rows(NUMBER_CONTRASTS@);
    lemma_append_subject(l4, sentences::rows(SYLLOGISMS@), 5);
    let l5 = l4 + sentences::rows(SYLLOGISMS@);
    lemma_append_subject(l5, sentences::rows(PREDATOR_SYLLOGISMS@), 6);
    let l6 = l5 + sentences::rows(PREDATOR_SYLLOGISMS@);
    lemma_append_subject(l6, sentences::rows(FURTHER_SYLLOGISMS@), 7);
    let l7 = l6 + sentences::rows(FURTHER_SYLLOGISMS@);
    lemma_append_subject(l7, sentences::rows(KINDS@), 8);
    let l8 = l7 + sentences::rows(KINDS@);
    lemma_append_subject(l8, sentences::rows(PLACES@), 9);
    let l9 = l8 + sentences::rows(PLACES@);
    lemma_append_subject(l9, sentences::rows(MEALS@), 10);
    let l10 = l9 + sentences::rows(MEALS@);
    lemma_append_subject(l10, sentences::rows(FOOD_CHAINS@), 11);
    let l11 = l10 + sentences::rows(FOOD_CHAINS@);
    lemma_append_subject(l11, sentences::rows(DENIALS@), 12);
    let l12 = l11 + sentences::rows(DENIALS@);
    lemma_append_subject(l12, sentences::rows(CONTRASTS@), 13);
    let l13 = l12 + sentences::rows(CONTRASTS@);
    lemma_append_subject(l13, sentences::rows(NUMBER_DENIALS@), 14);
}

/// The subject of the drills of a domain.
spec fn drill_subject(domain: Domain) -> int {
    match domain {
        Domain::Sums { .. } => 15,
        Domain::Differences { .. } => 16,
        Domain::Products => 17,
        Domain::Quotients => 18,
    }
}

proof fn lemma_drill_subject(domain: Domain, k: nat)
    requires
        k <= 100,
        drills::digital(domain),
    ensures
        forall|i: int|
            0 <= i < drills::drill(domain, Form::EquationAndVerdicts, 10, k).len() ==> subject(
                #[trigger] drills::drill(domain, Form::EquationAndVerdicts, 10, k)[i],
            ) == drill_subject(domain),
    decreases k,
{
    let form = Form::EquationAndVerdicts;
    if k > 0 {
        let j = (k - 1) as nat;
        let a = j as int / 10;
        let b = j as int % 10;
        lemma_drill_subject(domain, j);
        let before = drills::drill(domain, form, 10, j);
        if drills::admits(domain, a, b) {
            let made = drills::drilled(domain, form, a, b);
            let list = before + made;
            assert forall|i: int| 0 <= i < list.len() implies subject(#[trigger] list[i])
                == drill_subject(domain) by {
                if i < before.len() {
                    assert(list[i] == before[i]);
                } else {
                    assert(list[i] == made[i - before.len()]);
                    assert(list[i][1] == drills::sign(domain));
                }
            }
        }
    }
}

/// The drill of a domain is on its subject and repeats nothing.
proof fn lemma_drill(domain: Domain)
    requires
        drills::digital(domain),
    ensures
        on_subject(
            drills::drill(domain, Form::EquationAndVerdicts, 10, 100),
            drill_subject(domain),
        ),
        drills::drill(domain, Form::EquationAndVerdicts, 10, 100).len() == 3
            * drill_laws::admitted(domain, 10, 100),
{
    lemma_drill_subject(domain, 100);
    drill_laws::law_drill_is_unique(domain, Form::EquationAndVerdicts, 10, 100);
    drill_laws::law_drill_volume(domain, Form::EquationAndVerdicts, 10, 100);
}

/// The pool of the pre-training text holds 702 sentences: no candidate repeats another.
pub proof fn law_pool_volume()
    ensures
        chinchilla::pool() == chinchilla::pool_candidates(),
        chinchilla::pool().len() == 702,
{
    let form = Form::EquationAndVerdicts;
    let sums = drills::drill(chinchilla::sums(), form, 10, 100);
    let differences = drills::drill(chinchilla::differences(), form, 10, 100);
    let products = drills::drill(Domain::Products, form, 10, 100);
    let quotients = drills::drill(Domain::Quotients, form, 10, 100);
    lemma_statements();
    lemma_drill(chinchilla::sums());
    lemma_drill(chinchilla::differences());
    lemma_drill(Domain::Products);
    lemma_drill(Domain::Quotients);
    drill_laws::lemma_count_all_sums();
    drill_laws::lemma_count_all_differences();
    drill_laws::lemma_count_products();
    drill_laws::lemma_count_quotients();
    let l0 = chinchilla::statements();
    lemma_append_subject(l0, sums, 15);
    let l1 = l0 + sums;
    lemma_append_subject(l1, differences, 16);
    let l2 = l1 + differences;
    lemma_append_subject(l2, products, 17);
    let l3 = l2 + products;
    lemma_append_subject(l3, quotients, 18);
    chinchilla_volume::lemma_deduped_unique(l3 + quotients);
}

} // verus!
