//! The unified corpora in numbers: their sentences and tokens, none of them twice.

use vstd::prelude::*;

use crate::classic::tokenizer;
use crate::corpus::drill_laws;
use crate::corpus::drills::{Domain, Form};
use crate::corpus::drills;
use crate::corpus::sentence_laws;
use crate::corpus::sentences;
use crate::corpus::unified;
use crate::corpus::unified::{
    AFFIRMATIONS, DEFINITIONS, DIALOGUE_FACTS, DIALOGUE_LOGIC, FACTORS, FACTS, HABITATS, LOGIC,
    NEGATIONS, SHORT_DEFINITIONS, TAXONOMY_DEFINITIONS, TAXONOMY_DIALOGUES, TAXONOMY_FACTS,
    TAXONOMY_SHORT_DEFINITIONS,
};
use crate::corpus::words::{MINUS, NO, PLUS, TIMES, USER, WHERE, WHO, YES};

verus! {

/// The family that a sentence of the unified corpora belongs to, told by its length and by a few
/// of its words.
pub open spec fn family(s: Seq<usize>) -> int {
    if s.len() == 4 {
        if s[0] <= 20 {
            2
        } else {
            14
        }
    } else if s.len() == 5 {
        if s[0] == WHERE {
            13
        } else if s[1] <= 20 {
            4
        } else {
            15
        }
    } else if s.len() == 6 {
        if s[0] == USER {
            13
        } else if s[1] == PLUS {
            if s[4] <= 20 {
                0
            } else {
                10
            }
        } else if s[1] == MINUS {
            if s[0] <= 20 {
                1
            } else {
                11
            }
        } else if s[1] == TIMES {
            12
        } else if s[0] <= 20 && s[2] <= 20 {
            5
        } else if s[4] == YES {
            18
        } else {
            19
        }
    } else if s.len() == 7 {
        if s[0] == USER {
            if s[1] <= 20 && s[3] <= 20 {
                9
            } else if s[5] == YES {
                18
            } else {
                19
            }
        } else if s[1] <= 20 {
            3
        } else {
            16
        }
    } else if s[1] == WHO {
        if s[2] <= 20 {
            8
        } else {
            17
        }
    } else if s[2] == PLUS {
        if s[6] <= 20 {
            6
        } else {
            10
        }
    } else if s[2] == MINUS {
        if s[1] <= 20 {
            7
        } else {
            11
        }
    } else {
        12
    }
}

/// Every sentence is of the given family.
pub open spec fn of_family(list: Seq<Seq<usize>>, k: int) -> bool {
    forall|i: int| 0 <= i < list.len() ==> family(#[trigger] list[i]) == k
}

/// Every sentence is of a family before the given one.
pub open spec fn before_family(list: Seq<Seq<usize>>, k: int) -> bool {
    forall|i: int| 0 <= i < list.len() ==> family(#[trigger] list[i]) < k
}

/// What the corpora gather of a list of sentences: well formed, of which families, none twice.
pub open spec fn sound(list: Seq<Seq<usize>>, k: int) -> bool {
    &&& sentences::all_well_formed(list)
    &&& list.no_duplicates()
    &&& before_family(list, k)
}

proof fn lemma_append_family(a: Seq<Seq<usize>>, b: Seq<Seq<usize>>, k: int)
    requires
        sound(a, k),
        sentences::all_well_formed(b),
        b.no_duplicates(),
        of_family(b, k),
    ensures
        sound(a + b, k + 1),
        (a + b).len() == a.len() + b.len(),
        (a + b).flatten().len() == a.flatten().len() + b.flatten().len(),
{
    let list = a + b;
    sentence_laws::lemma_append_well_formed(a, b);
    sentence_laws::lemma_append_volume(a, b);
    assert forall|i: int| 0 <= i < list.len() implies family(#[trigger] list[i]) < k + 1 by {
        if i < a.len() {
            assert(list[i] == a[i]);
        } else {
            assert(list[i] == b[i - a.len()]);
        }
    }
    assert forall|i: int, j: int|
        0 <= i < list.len() && 0 <= j < list.len() && i != j implies list[i] != list[j] by {
        let n = a.len();
        if i < n && j < n {
            assert(a[i] != a[j]);
        } else if i >= n && j >= n {
            assert(b[i - n] != b[j - n]);
        } else if i < n {
            assert(family(a[i]) < k && family(b[j - n]) == k);
        } else {
            assert(family(a[j]) < k && family(b[i - n]) == k);
        }
    }
}

/// A table whose rows are well-formed sentences of one family, none twice.
pub open spec fn table_of_family<const L: usize>(table: Seq<[usize; L]>, k: int) -> bool {
    let list = sentences::rows(table);
    &&& sentences::all_well_formed(list)
    &&& list.no_duplicates()
    &&& of_family(list, k)
}

#[verifier::spinoff_prover]
#[verifier::rlimit(60)]
proof fn lemma_base_tables()
    ensures
        table_of_family(FACTS@, 2),
        table_of_family(DEFINITIONS@, 3),
        table_of_family(SHORT_DEFINITIONS@, 4),
{
}

#[verifier::spinoff_prover]
#[verifier::rlimit(60)]
proof fn lemma_logic_table()
    ensures
        table_of_family(LOGIC@, 5),
{
}

#[verifier::spinoff_prover]
#[verifier::rlimit(60)]
proof fn lemma_dialogue_tables()
    ensures
        table_of_family(DIALOGUE_FACTS@, 8),
{
}

#[verifier::spinoff_prover]
#[verifier::rlimit(60)]
proof fn lemma_dialogue_logic_table()
    ensures
        table_of_family(DIALOGUE_LOGIC@, 9),
{
}

#[verifier::spinoff_prover]
#[verifier::rlimit(60)]
proof fn lemma_taxonomy_tables()
    ensures
        table_of_family(TAXONOMY_FACTS@, 14),
        table_of_family(TAXONOMY_SHORT_DEFINITIONS@, 15),
        table_of_family(TAXONOMY_DEFINITIONS@, 16),
        table_of_family(TAXONOMY_DIALOGUES@, 17),
{
}

/// The pairs of a drill all make sentences of one family.
proof fn lemma_drill_family(domain: Domain, form: Form, n: int, k: nat, f: int)
    requires
        1 <= n <= 10,
        k <= n * n,
        forall|a: int, b: int|
            0 <= a < n && 0 <= b < n && #[trigger] drills::admits(domain, a, b) ==> of_family(
                drills::drilled(domain, form, a, b),
                f,
            ),
    ensures
        of_family(drills::drill(domain, form, n, k), f),
    decreases k,
{
    if k > 0 {
        let j = (k - 1) as nat;
        let a = j as int / n;
        let b = j as int % n;
        lemma_drill_family(domain, form, n, j, f);
        assert(0 <= a < n && 0 <= b < n) by (nonlinear_arith)
            requires
                1 <= n,
                0 <= j < n * n,
                a == j as int / n,
                b == j as int % n,
        ;
        let before = drills::drill(domain, form, n, j);
        if drills::admits(domain, a, b) {
            let made = drills::drilled(domain, form, a, b);
            let list = before + made;
            assert forall|i: int| 0 <= i < list.len() implies family(#[trigger] list[i]) == f by {
                if i < before.len() {
                    assert(list[i] == before[i]);
                } else {
                    assert(list[i] == made[i - before.len()]);
                }
            }
        }
    }
}

proof fn lemma_small_drills()
    ensures
        of_family(drills::drill(unified::small_sums(), Form::Equation, 6, 36), 0),
        of_family(drills::drill(unified::differences(), Form::Equation, 6, 36), 1),
        of_family(drills::drill(unified::small_sums(), Form::Dialogue, 6, 36), 6),
        of_family(drills::drill(unified::differences(), Form::Dialogue, 6, 36), 7),
{
    lemma_drill_family(unified::small_sums(), Form::Equation, 6, 36, 0);
    lemma_drill_family(unified::differences(), Form::Equation, 6, 36, 1);
    lemma_drill_family(unified::small_sums(), Form::Dialogue, 6, 36, 6);
    lemma_drill_family(unified::differences(), Form::Dialogue, 6, 36, 7);
}

proof fn lemma_large_drills()
    ensures
        of_family(drills::drill(unified::large_sums(), Form::EquationAndDialogue, 10, 100), 10),
        of_family(
            drills::drill(unified::large_differences(), Form::EquationAndDialogue, 10, 100),
            11,
        ),
{
    lemma_drill_family(unified::large_sums(), Form::EquationAndDialogue, 10, 100, 10);
    lemma_drill_family(unified::large_differences(), Form::EquationAndDialogue, 10, 100, 11);
}

/// The base statements: 78 sentences of 460 tokens.
pub proof fn law_base_sentences()
    ensures
        sound(unified::base_sentences(), 6),
        unified::base_sentences().len() == 78,
        unified::base_sentences().flatten().len() == 460,
{
    let empty = Seq::<Seq<usize>>::empty();
    let sums = drills::drill(unified::small_sums(), Form::Equation, 6, 36);
    let diffs = drills::drill(unified::differences(), Form::Equation, 6, 36);
    drill_laws::lemma_small_counts();
    lemma_small_drills();
    lemma_base_tables();
    lemma_logic_table();
    drill_laws::law_drill_volume(unified::small_sums(), Form::Equation, 6, 36);
    drill_laws::law_drill_is_unique(unified::small_sums(), Form::Equation, 6, 36);
    drill_laws::law_drill_volume(unified::differences(), Form::Equation, 6, 36);
    drill_laws::law_drill_is_unique(unified::differences(), Form::Equation, 6, 36);
    sentence_laws::lemma_rows_volume(FACTS@);
    sentence_laws::lemma_rows_volume(DEFINITIONS@);
    sentence_laws::lemma_rows_volume(SHORT_DEFINITIONS@);
    sentence_laws::lemma_rows_volume(LOGIC@);
    assert(sound(sums, 1));
    lemma_append_family(sums, diffs, 1);
    let l2 = sums + diffs;
    lemma_append_family(l2, sentences::rows(FACTS@), 2);
    let l3 = l2 + sentences::rows(FACTS@);
    lemma_append_family(l3, sentences::rows(DEFINITIONS@), 3);
    let l4 = l3 + sentences::rows(DEFINITIONS@);
    lemma_append_family(l4, sentences::rows(SHORT_DEFINITIONS@), 4);
    let l5 = l4 + sentences::rows(SHORT_DEFINITIONS@);
    lemma_append_family(l5, sentences::rows(LOGIC@), 5);
}

/// The unified corpus: 146 sentences of 980 tokens, each of them well formed and none of them
/// twice.
pub proof fn law_unified_corpus()
    ensures
        sentences::all_well_formed(unified::unified()),
        unified::unified().no_duplicates(),
        before_family(unified::unified(), 10),
        unified::unified().len() == 146,
        unified::unified().flatten().len() == 980,
{
    let base = unified::base_sentences();
    let sums = drills::drill(unified::small_sums(), Form::Dialogue, 6, 36);
    let diffs = drills::drill(unified::differences(), Form::Dialogue, 6, 36);
    law_base_sentences();
    drill_laws::lemma_small_counts();
    lemma_small_drills();
    lemma_dialogue_tables();
    lemma_dialogue_logic_table();
    drill_laws::law_drill_volume(unified::small_sums(), Form::Dialogue, 6, 36);
    drill_laws::law_drill_is_unique(unified::small_sums(), Form::Dialogue, 6, 36);
    drill_laws::law_drill_volume(unified::differences(), Form::Dialogue, 6, 36);
    drill_laws::law_drill_is_unique(unified::differences(), Form::Dialogue, 6, 36);
    sentence_laws::lemma_rows_volume(DIALOGUE_FACTS@);
    sentence_laws::lemma_rows_volume(DIALOGUE_LOGIC@);
    lemma_append_family(base, sums, 6);
    let l7 = base + sums;
    lemma_append_family(l7, diffs, 7);
    let l8 = l7 + diffs;
    lemma_append_family(l8, sentences::rows(DIALOGUE_FACTS@), 8);
    let l9 = l8 + sentences::rows(DIALOGUE_FACTS@);
    lemma_append_family(l9, sentences::rows(DIALOGUE_LOGIC@), 9);
}

/// The tokens of a list in which sentences of two lengths take turns.
proof fn lemma_alternating_volume(list: Seq<Seq<usize>>, m: nat, x: nat, y: nat)
    requires
        list.len() == 2 * m,
        forall|i: int| 0 <= i < m ==> (#[trigger] list[2 * i]).len() == x,
        forall|i: int| 0 <= i < m ==> (#[trigger] list[2 * i + 1]).len() == y,
    ensures
        list.flatten().len() == m * (x + y),
    decreases m,
{
    if m == 0 {
        assert(list.flatten() =~= Seq::<usize>::empty());
        assert(m * (x + y) == 0) by (nonlinear_arith)
            requires
                m == 0,
        ;
    } else {
        let j = (m - 1) as nat;
        let front = list.take(2 * (m - 1));
        assert forall|i: int| 0 <= i < j implies (#[trigger] front[2 * i]).len() == x by {
            assert(front[2 * i] == list[2 * i]);
        }
        assert forall|i: int| 0 <= i < j implies (#[trigger] front[2 * i + 1]).len() == y by {
            assert(front[2 * i + 1] == list[2 * i + 1]);
        }
        lemma_alternating_volume(front, j, x, y);
        let first = list[2 * (m - 1)];
        let second = list[2 * (m - 1) + 1];
        assert(list =~= front.push(first).push(second));
        front.lemma_flatten_push(first);
        front.push(first).lemma_flatten_push(second);
        assert(m * (x + y) == j * (x + y) + x + y) by (nonlinear_arith)
            requires
                m == j + 1,
        ;
    }
}

#[verifier::spinoff_prover]
#[verifier::rlimit(100)]
proof fn lemma_products()
    ensures
        sentences::all_well_formed(unified::products()),
        unified::products().no_duplicates(),
        of_family(unified::products(), 12),
        unified::products().flatten().len() == 336,
{
    let list = unified::products();
    assert forall|i: int| 0 <= i < 48 implies sentences::well_formed(#[trigger] list[i]) && family(
        list[i],
    ) == 12 by {
        unified::lemma_factors(i / 2);
        let a = FACTORS[i / 2][0] as int;
        let b = FACTORS[i / 2][1] as int;
        drill_laws::lemma_result_is_digit(Domain::Products, a, b);
        let s = list[i];
        assert(forall|j: int| 0 <= j < s.len() ==> s[j] < 65);
    }
    assert forall|i: int, j: int| 0 <= i < 48 && 0 <= j < 48 && i != j implies list[i] != list[j] by {
        unified::lemma_factors(i / 2);
        unified::lemma_factors(j / 2);
        if i % 2 == 0 && j % 2 == 0 {
            assert(list[i][0] != list[j][0] || list[i][2] != list[j][2]);
        } else if i % 2 == 1 && j % 2 == 1 {
            assert(list[i][1] != list[j][1] || list[i][3] != list[j][3]);
        } else {
            assert(list[i].len() != list[j].len());
        }
    }
    lemma_alternating_volume(list, 24, 6, 8);
}

#[verifier::spinoff_prover]
#[verifier::rlimit(100)]
proof fn lemma_habitats()
    ensures
        sentences::all_well_formed(unified::habitats()),
        unified::habitats().no_duplicates(),
        of_family(unified::habitats(), 13),
        unified::habitats().flatten().len() == 88,
{
    let list = unified::habitats();
    assert forall|i: int, j: int| 0 <= i < 16 && 0 <= j < 16 && i != j implies list[i] != list[j] by {
        if i % 2 == 0 && j % 2 == 0 {
            assert(list[i][1] != list[j][1]);
        } else if i % 2 == 1 && j % 2 == 1 {
            assert(list[i][2] != list[j][2]);
        } else {
            assert(list[i].len() != list[j].len());
        }
    }
    lemma_alternating_volume(list, 8, 5, 6);
}

/// Relations over words beyond the first vocabulary make a family of their own.
proof fn lemma_relations(table: Seq<[usize; 2]>, answer: usize, f: int)
    requires
        answer == YES && f == 18 || answer == NO && f == 19,
        forall|i: int|
            0 <= i < table.len() ==> 4 <= (#[trigger] table[i])[0] < 65 && 4 <= table[i][1] < 65
                && (table[i][0] > 20 || table[i][1] > 20),
        forall|i: int, j: int|
            0 <= i < j < table.len() ==> (#[trigger] table[i])[0] != (#[trigger] table[j])[0]
                || table[i][1] != table[j][1],
    ensures
        sentences::all_well_formed(unified::relations(table, answer)),
        unified::relations(table, answer).no_duplicates(),
        of_family(unified::relations(table, answer), f),
        unified::relations(table, answer).flatten().len() == 13 * table.len(),
{
    let list = unified::relations(table, answer);
    assert forall|i: int| 0 <= i < list.len() implies sentences::well_formed(#[trigger] list[i])
        && family(list[i]) == f by {
        let row = table[i / 2];
        assert(4 <= row[0] < 65);
    }
    assert forall|i: int, j: int|
        0 <= i < list.len() && 0 <= j < list.len() && i != j implies list[i] != list[j] by {
        let r = table[i / 2];
        let q = table[j / 2];
        if i % 2 == 0 && j % 2 == 0 {
            assert(list[i][0] == r[0] && list[i][2] == r[1]);
            assert(list[j][0] == q[0] && list[j][2] == q[1]);
            assert(i / 2 != j / 2);
        } else if i % 2 == 1 && j % 2 == 1 {
            assert(list[i][1] == r[0] && list[i][3] == r[1]);
            assert(list[j][1] == q[0] && list[j][3] == q[1]);
            assert(i / 2 != j / 2);
        } else {
            assert(list[i].len() != list[j].len());
        }
    }
    let m = table.len();
    lemma_alternating_volume(list, m, 6, 7);
    assert(m * (6 + 7) == 13 * m) by (nonlinear_arith);
}

#[verifier::spinoff_prover]
#[verifier::rlimit(100)]
proof fn lemma_relation_tables()
    ensures
        sentences::all_well_formed(unified::relations(AFFIRMATIONS@, YES)),
        unified::relations(AFFIRMATIONS@, YES).no_duplicates(),
        of_family(unified::relations(AFFIRMATIONS@, YES), 18),
        unified::relations(AFFIRMATIONS@, YES).flatten().len() == 208,
        sentences::all_well_formed(unified::relations(NEGATIONS@, NO)),
        unified::relations(NEGATIONS@, NO).no_duplicates(),
        of_family(unified::relations(NEGATIONS@, NO), 19),
        unified::relations(NEGATIONS@, NO).flatten().len() == 208,
{
    lemma_relations(AFFIRMATIONS@, YES, 18);
    lemma_relations(NEGATIONS@, NO, 19);
}

/// The second unified corpus: 440 sentences of 2940 tokens, three times those of the first, each
/// of them well formed and none of them twice.
pub proof fn law_unified_corpus_v2()
    ensures
        sentences::all_well_formed(unified::unified_v2()),
        unified::unified_v2().no_duplicates(),
        unified::unified_v2().len() == 440,
        unified::unified_v2().flatten().len() == 2940,
        unified::unified_v2().flatten().len() == 3 * unified::unified().flatten().len(),
        unified::unified().is_prefix_of(unified::unified_v2()),
{
    let form = Form::EquationAndDialogue;
    let sums = drills::drill(unified::large_sums(), form, 10, 100);
    let diffs = drills::drill(unified::large_differences(), form, 10, 100);
    law_unified_corpus();
    drill_laws::lemma_count_large_sums();
    drill_laws::lemma_count_large_differences();
    lemma_large_drills();
    lemma_taxonomy_tables();
    lemma_products();
    lemma_habitats();
    lemma_relation_tables();
    drill_laws::law_drill_volume(unified::large_sums(), form, 10, 100);
    drill_laws::law_drill_is_unique(unified::large_sums(), form, 10, 100);
    drill_laws::law_drill_volume(unified::large_differences(), form, 10, 100);
    drill_laws::law_drill_is_unique(unified::large_differences(), form, 10, 100);
    sentence_laws::lemma_rows_volume(TAXONOMY_FACTS@);
    sentence_laws::lemma_rows_volume(TAXONOMY_SHORT_DEFINITIONS@);
    sentence_laws::lemma_rows_volume(TAXONOMY_DEFINITIONS@);
    sentence_laws::lemma_rows_volume(TAXONOMY_DIALOGUES@);
    let l0 = unified::unified();
    lemma_append_family(l0, sums, 10);
    let l1 = l0 + sums;
    lemma_append_family(l1, diffs, 11);
    let l2 = l1 + diffs;
    lemma_append_family(l2, unified::products(), 12);
    let l3 = l2 + unified::products();
    lemma_append_family(l3, unified::habitats(), 13);
    let l4 = l3 + unified::habitats();
    lemma_append_family(l4, sentences::rows(TAXONOMY_FACTS@), 14);
    let l5 = l4 + sentences::rows(TAXONOMY_FACTS@);
    lemma_append_family(l5, sentences::rows(TAXONOMY_SHORT_DEFINITIONS@), 15);
    let l6 = l5 + sentences::rows(TAXONOMY_SHORT_DEFINITIONS@);
    lemma_append_family(l6, sentences::rows(TAXONOMY_DEFINITIONS@), 16);
    let l7 = l6 + sentences::rows(TAXONOMY_DEFINITIONS@);
    lemma_append_family(l7, sentences::rows(TAXONOMY_DIALOGUES@), 17);
    let l8 = l7 + sentences::rows(TAXONOMY_DIALOGUES@);
    lemma_append_family(l8, unified::relations(AFFIRMATIONS@, YES), 18);
    let l9 = l8 + unified::relations(AFFIRMATIONS@, YES);
    lemma_append_family(l9, unified::relations(NEGATIONS@, NO), 19);
    assert(unified::unified_v2().subrange(0, l0.len() as int) =~= l0);
}

/// The words of a drill lie in a vocabulary that holds those of each pair.
pub proof fn lemma_drill_within(domain: Domain, form: Form, n: int, k: nat, size: nat)
    requires
        1 <= n <= 10,
        k <= n * n,
        forall|a: int, b: int|
            0 <= a < n && 0 <= b < n && #[trigger] drills::admits(domain, a, b) ==> sentence_laws::within(
                drills::drilled(domain, form, a, b),
                size,
            ),
    ensures
        sentence_laws::within(drills::drill(domain, form, n, k), size),
    decreases k,
{
    if k > 0 {
        let j = (k - 1) as nat;
        let a = j as int / n;
        let b = j as int % n;
        lemma_drill_within(domain, form, n, j, size);
        assert(0 <= a < n && 0 <= b < n) by (nonlinear_arith)
            requires
                1 <= n,
                0 <= j < n * n,
                a == j as int / n,
                b == j as int % n,
        ;
        if drills::admits(domain, a, b) {
            sentence_laws::lemma_append_within(
                drills::drill(domain, form, n, j),
                drills::drilled(domain, form, a, b),
                size,
            );
        }
    }
}

/// The base statements use the words of the first vocabulary only.
#[verifier::spinoff_prover]
#[verifier::rlimit(60)]
pub proof fn lemma_base_within()
    ensures
        sentence_laws::within(unified::base_sentences(), 21),
        forall|i: int|
            0 <= i < unified::base_sentences().len() ==> (
            #[trigger] unified::base_sentences()[i]).len() <= 7,
{
    let sums = unified::small_sums();
    let diffs = unified::differences();
    lemma_drill_within(sums, Form::Equation, 6, 36, 21);
    lemma_drill_within(diffs, Form::Equation, 6, 36, 21);
    let l0 = drills::drill(sums, Form::Equation, 6, 36);
    let l1 = l0 + drills::drill(diffs, Form::Equation, 6, 36);
    let l2 = l1 + sentences::rows(FACTS@);
    let l3 = l2 + sentences::rows(DEFINITIONS@);
    let l4 = l3 + sentences::rows(SHORT_DEFINITIONS@);
    sentence_laws::lemma_append_within(l0, drills::drill(diffs, Form::Equation, 6, 36), 21);
    sentence_laws::lemma_append_within(l1, sentences::rows(FACTS@), 21);
    sentence_laws::lemma_append_within(l2, sentences::rows(DEFINITIONS@), 21);
    sentence_laws::lemma_append_within(l3, sentences::rows(SHORT_DEFINITIONS@), 21);
    sentence_laws::lemma_append_within(l4, sentences::rows(LOGIC@), 21);
    law_base_sentences();
    assert forall|i: int| 0 <= i < unified::base_sentences().len() implies (
    #[trigger] unified::base_sentences()[i]).len() <= 7 by {
        assert(family(unified::base_sentences()[i]) < 6);
    }
}

/// The unified corpus uses the words of the first vocabulary only.
#[verifier::spinoff_prover]
#[verifier::rlimit(60)]
pub proof fn lemma_unified_within()
    ensures
        sentence_laws::within(unified::unified(), 21),
{
    let sums = unified::small_sums();
    let diffs = unified::differences();
    lemma_base_within();
    lemma_drill_within(sums, Form::Dialogue, 6, 36, 21);
    lemma_drill_within(diffs, Form::Dialogue, 6, 36, 21);
    let l5 = unified::base_sentences();
    let l6 = l5 + drills::drill(sums, Form::Dialogue, 6, 36);
    let l7 = l6 + drills::drill(diffs, Form::Dialogue, 6, 36);
    let l8 = l7 + sentences::rows(DIALOGUE_FACTS@);
    sentence_laws::lemma_append_within(l5, drills::drill(sums, Form::Dialogue, 6, 36), 21);
    sentence_laws::lemma_append_within(l6, drills::drill(diffs, Form::Dialogue, 6, 36), 21);
    sentence_laws::lemma_append_within(l7, sentences::rows(DIALOGUE_FACTS@), 21);
    sentence_laws::lemma_append_within(l8, sentences::rows(DIALOGUE_LOGIC@), 21);
}

#[verifier::spinoff_prover]
#[verifier::rlimit(60)]
proof fn lemma_pairs_within()
    ensures
        sentence_laws::within(unified::products(), 41),
        sentence_laws::within(unified::habitats(), 41),
        sentence_laws::within(unified::relations(AFFIRMATIONS@, YES), 41),
        sentence_laws::within(unified::relations(NEGATIONS@, NO), 41),
{
    let list = unified::products();
    assert forall|i: int| 0 <= i < 48 implies tokenizer::in_vocab(#[trigger] list[i], 41) by {
        unified::lemma_factors(i / 2);
        drill_laws::lemma_result_is_digit(
            Domain::Products,
            FACTORS[i / 2][0] as int,
            FACTORS[i / 2][1] as int,
        );
    }
    assert(forall|i: int|
        0 <= i < 16 ==> (#[trigger] AFFIRMATIONS[i])[0] < 41 && AFFIRMATIONS[i][1] < 41);
    assert(forall|i: int|
        0 <= i < 16 ==> (#[trigger] NEGATIONS[i])[0] < 41 && NEGATIONS[i][1] < 41);
    assert(forall|i: int|
        0 <= i < 8 ==> (#[trigger] HABITATS[i])[0] < 41 && HABITATS[i][1] < 41);
}

#[verifier::spinoff_prover]
#[verifier::rlimit(60)]
proof fn lemma_unified_v2_within()
    ensures
        sentence_laws::within(unified::unified_v2(), 41),
{
    let form = Form::EquationAndDialogue;
    let sums = drills::drill(unified::large_sums(), form, 10, 100);
    let diffs = drills::drill(unified::large_differences(), form, 10, 100);
    lemma_unified_within();
    lemma_pairs_within();
    lemma_drill_within(unified::large_sums(), form, 10, 100, 41);
    lemma_drill_within(unified::large_differences(), form, 10, 100, 41);
    let l0 = unified::unified();
    let l1 = l0 + sums;
    let l2 = l1 + diffs;
    let l3 = l2 + unified::products();
    let l4 = l3 + unified::habitats();
    let l5 = l4 + sentences::rows(TAXONOMY_FACTS@);
    let l6 = l5 + sentences::rows(TAXONOMY_SHORT_DEFINITIONS@);
    let l7 = l6 + sentences::rows(TAXONOMY_DEFINITIONS@);
    let l8 = l7 + sentences::rows(TAXONOMY_DIALOGUES@);
    let l9 = l8 + unified::relations(AFFIRMATIONS@, YES);
    sentence_laws::lemma_append_within(l0, sums, 41);
    sentence_laws::lemma_append_within(l1, diffs, 41);
    sentence_laws::lemma_append_within(l2, unified::products(), 41);
    sentence_laws::lemma_append_within(l3, unified::habitats(), 41);
    sentence_laws::lemma_append_within(l4, sentences::rows(TAXONOMY_FACTS@), 41);
    sentence_laws::lemma_append_within(l5, sentences::rows(TAXONOMY_SHORT_DEFINITIONS@), 41);
    sentence_laws::lemma_append_within(l6, sentences::rows(TAXONOMY_DEFINITIONS@), 41);
    sentence_laws::lemma_append_within(l7, sentences::rows(TAXONOMY_DIALOGUES@), 41);
    sentence_laws::lemma_append_within(l8, unified::relations(AFFIRMATIONS@, YES), 41);
    sentence_laws::lemma_append_within(l9, unified::relations(NEGATIONS@, NO), 41);
}

/// Every vocabulary that begins the Chinchilla vocabulary and has the 21 tokens of the first
/// reads the unified corpus as 980 tokens, and with 41 tokens the second one as 2940.
pub proof fn law_unified_corpora_encode(vocab: Seq<Seq<char>>)
    requires
        21 <= vocab.len() <= 65,
        vocab == tokenizer::words(tokenizer::VOCAB_CHINCHILLA@).take(vocab.len() as int),
    ensures
        tokenizer::encoding(vocab, sentences::text_of(unified::unified())).len() == 980,
        vocab.len() >= 41 ==> tokenizer::encoding(
            vocab,
            sentences::text_of(unified::unified_v2()),
        ).len() == 2940,
{
    lemma_unified_within();
    law_unified_corpus();
    sentence_laws::law_text_encodes_to_its_sentences(vocab, unified::unified());
    if vocab.len() >= 41 {
        lemma_unified_v2_within();
        law_unified_corpus_v2();
        sentence_laws::law_text_encodes_to_its_sentences(vocab, unified::unified_v2());
    }
}

} // verus!
