//! The Chinchilla corpora in numbers.

use vstd::prelude::*;

use crate::classic::tokenizer::VOCAB_CHINCHILLA;
use crate::classic::tokenizer;
use crate::corpus::base;
use crate::corpus::base_laws;
use crate::corpus::chinchilla;
use crate::corpus::chinchilla::{
    CHAIN_DIALOGUES, CHOICE_DIALOGUES, CONTRASTS, CONTRAST_IMPLICATIONS, DENIALS,
    FISH_IMPLICATION, FOOD_CHAINS, FURTHER_SYLLOGISMS, HARE_IMPLICATION, HOW_DIALOGUES,
    HUMAN_CONTRASTS, HUMAN_DIALOGUE, HUMAN_IMPLICATION, KINDS, KIND_DIALOGUES, MEALS,
    MEAL_DIALOGUES, NOTIONS, NOTIONS_AND_NUMBERS, NOTION_DIALOGUES, NOTION_VERDICTS,
    NUMBER_CHOICES, NUMBER_CONTRASTS, NUMBER_DENIALS, NUMBER_DIALOGUES, PIKE_IMPLICATION,
    PLACES, PLACE_DIALOGUES, PREDATOR_SYLLOGISMS, REASON_DIALOGUES, SYLLOGISMS,
    WOLF_IMPLICATION,
};
use crate::corpus::drill_laws;
use crate::corpus::drills::{Domain, Form};
use crate::corpus::drills;
use crate::corpus::filling;
use crate::corpus::remainder;
use crate::corpus::sentence_laws;
use crate::corpus::sentences;
use crate::corpus::words::{BOT, USER};
use crate::text;

verus! {

/// What the first occurrences in a list are: its sentences, each once.
pub proof fn law_deduped(list: Seq<Seq<usize>>)
    ensures
        chinchilla::deduped(list).no_duplicates(),
        forall|s: Seq<usize>|
            #![trigger chinchilla::deduped(list).contains(s)]
            #![trigger list.contains(s)]
            chinchilla::deduped(list).contains(s) <==> list.contains(s),
    decreases list.len(),
{
    if list.len() > 0 {
        let front = list.drop_last();
        let last = list.last();
        let before = chinchilla::deduped(front);
        let kept = chinchilla::deduped(list);
        law_deduped(front);
        assert forall|s: Seq<usize>| kept.contains(s) implies list.contains(s) by {
            let j = choose|j: int| 0 <= j < kept.len() && kept[j] == s;
            if j < before.len() {
                assert(before[j] == s);
                assert(before.contains(s));
                let i = choose|i: int| 0 <= i < front.len() && front[i] == s;
                assert(list[i] == s);
            } else {
                assert(list[list.len() - 1] == s);
            }
        }
        assert forall|s: Seq<usize>| list.contains(s) implies kept.contains(s) by {
            let i = choose|i: int| 0 <= i < list.len() && list[i] == s;
            if i < front.len() {
                assert(front[i] == s);
                assert(front.contains(s));
                let j = choose|j: int| 0 <= j < before.len() && before[j] == s;
                assert(kept[j] == s);
            } else if !before.contains(last) {
                assert(kept[before.len() as int] == s);
            }
        }
    }
}

/// The first occurrences in a well-formed list are well formed.
pub proof fn lemma_deduped_well_formed(list: Seq<Seq<usize>>)
    requires
        sentences::all_well_formed(list),
    ensures
        sentences::all_well_formed(chinchilla::deduped(list)),
{
    law_deduped(list);
    let kept = chinchilla::deduped(list);
    assert forall|i: int| 0 <= i < kept.len() implies sentences::well_formed(#[trigger] kept[i]) by {
        assert(kept.contains(kept[i]));
        let j = choose|j: int| 0 <= j < list.len() && list[j] == kept[i];
        assert(sentences::well_formed(list[j]));
    }
}

/// Well-formed sentences of at most `most` tokens.
pub open spec fn short(list: Seq<Seq<usize>>, most: nat) -> bool {
    &&& sentences::all_well_formed(list)
    &&& forall|i: int| 0 <= i < list.len() ==> (#[trigger] list[i]).len() <= most
}

proof fn lemma_append_short(a: Seq<Seq<usize>>, b: Seq<Seq<usize>>, most: nat)
    requires
        short(a, most),
        short(b, most),
    ensures
        short(a + b, most),
{
    sentence_laws::lemma_append_well_formed(a, b);
    let list = a + b;
    assert forall|i: int| 0 <= i < list.len() implies (#[trigger] list[i]).len() <= most by {
        if i < a.len() {
            assert(list[i] == a[i]);
        } else {
            assert(list[i] == b[i - a.len()]);
        }
    }
}

#[verifier::spinoff_prover]
#[verifier::rlimit(60)]
proof fn lemma_notion_rows()
    ensures
        short(sentences::rows(NOTIONS@), 9),
        short(sentences::rows(HUMAN_CONTRASTS@), 9),
        short(sentences::rows(NOTIONS_AND_NUMBERS@), 9),
        short(sentences::rows(NUMBER_CHOICES@), 9),
        short(sentences::rows(NUMBER_CONTRASTS@), 9),
{
}

#[verifier::spinoff_prover]
#[verifier::rlimit(60)]
proof fn lemma_syllogism_rows()
    ensures
        short(sentences::rows(SYLLOGISMS@), 9),
        short(sentences::rows(PREDATOR_SYLLOGISMS@), 9),
        short(sentences::rows(FURTHER_SYLLOGISMS@), 9),
{
}

#[verifier::spinoff_prover]
#[verifier::rlimit(60)]
proof fn lemma_nature_rows()
    ensures
        short(sentences::rows(KINDS@), 9),
        short(sentences::rows(PLACES@), 9),
        short(sentences::rows(MEALS@), 9),
        short(sentences::rows(FOOD_CHAINS@), 9),
{
}

#[verifier::spinoff_prover]
#[verifier::rlimit(60)]
proof fn lemma_denial_rows()
    ensures
        short(sentences::rows(DENIALS@), 9),
        short(sentences::rows(CONTRASTS@), 9),
        short(sentences::rows(NUMBER_DENIALS@), 9),
{
}

/// The statements of the pool are well formed, of at most nine tokens.
proof fn lemma_statements()
    ensures
        short(chinchilla::statements(), 9),
{
    lemma_notion_rows();
    lemma_syllogism_rows();
    lemma_nature_rows();
    lemma_denial_rows();
    let l0 = sentences::rows(NOTIONS@);
    lemma_append_short(l0, sentences::rows(HUMAN_CONTRASTS@), 9);
    let l1 = l0 + sentences::rows(HUMAN_CONTRASTS@);
    lemma_append_short(l1, sentences::rows(NOTIONS_AND_NUMBERS@), 9);
    let l2 = l1 + sentences::rows(NOTIONS_AND_NUMBERS@);
    lemma_append_short(l2, sentences::rows(NUMBER_CHOICES@), 9);
    let l3 = l2 + sentences::rows(NUMBER_CHOICES@);
    lemma_append_short(l3, sentences::rows(NUMBER_CONTRASTS@), 9);
    let l4 = l3 + sentences::rows(NUMBER_CONTRASTS@);
    lemma_append_short(l4, sentences::rows(SYLLOGISMS@), 9);
    let l5 = l4 + sentences::rows(SYLLOGISMS@);
    lemma_append_short(l5, sentences::rows(PREDATOR_SYLLOGISMS@), 9);
    let l6 = l5 + sentences::rows(PREDATOR_SYLLOGISMS@);
    lemma_append_short(l6, sentences::rows(FURTHER_SYLLOGISMS@), 9);
    let l7 = l6 + sentences::rows(FURTHER_SYLLOGISMS@);
    lemma_append_short(l7, sentences::rows(KINDS@), 9);
    let l8 = l7 + sentences::rows(KINDS@);
    lemma_append_short(l8, sentences::rows(PLACES@), 9);
    let l9 = l8 + sentences::rows(PLACES@);
    lemma_append_short(l9, sentences::rows(MEALS@), 9);
    let l10 = l9 + sentences::rows(MEALS@);
    lemma_append_short(l10, sentences::rows(FOOD_CHAINS@), 9);
    let l11 = l10 + sentences::rows(FOOD_CHAINS@);
    lemma_append_short(l11, sentences::rows(DENIALS@), 9);
    let l12 = l11 + sentences::rows(DENIALS@);
    lemma_append_short(l12, sentences::rows(CONTRASTS@), 9);
    let l13 = l12 + sentences::rows(CONTRASTS@);
    lemma_append_short(l13, sentences::rows(NUMBER_DENIALS@), 9);
    let l14 = l13 + sentences::rows(NUMBER_DENIALS@);
}

proof fn lemma_drill_short(domain: Domain, form: Form, n: int, k: nat)
    requires
        1 <= n <= 10,
        k <= n * n,
        drills::digital(domain),
    ensures
        short(drills::drill(domain, form, n, k), 8),
    decreases k,
{
    drill_laws::law_drill_volume(domain, form, n, k);
    if k > 0 {
        let j = (k - 1) as nat;
        lemma_drill_short(domain, form, n, j);
        let a = j as int / n;
        let b = j as int % n;
        let before = drills::drill(domain, form, n, j);
        if drills::admits(domain, a, b) {
            let made = drills::drilled(domain, form, a, b);
            let list = before + made;
            assert forall|i: int| 0 <= i < list.len() implies (#[trigger] list[i]).len() <= 8 by {
                if i < before.len() {
                    assert(list[i] == before[i]);
                } else {
                    assert(list[i] == made[i - before.len()]);
                }
            }
        }
    }
}

/// The pool of the pre-training text: well-formed sentences of at most nine tokens, none twice.
pub proof fn law_pool_is_sound()
    ensures
        short(chinchilla::pool(), 9),
        sentences::all_well_formed(chinchilla::pool()),
        chinchilla::pool().no_duplicates(),
        chinchilla::pool().len() > 0,
{
    let form = Form::EquationAndVerdicts;
    let sums = drills::drill(chinchilla::sums(), form, 10, 100);
    let diffs = drills::drill(chinchilla::differences(), form, 10, 100);
    let products = drills::drill(Domain::Products, form, 10, 100);
    let quotients = drills::drill(Domain::Quotients, form, 10, 100);
    lemma_statements();
    lemma_drill_short(chinchilla::sums(), form, 10, 100);
    lemma_drill_short(chinchilla::differences(), form, 10, 100);
    lemma_drill_short(Domain::Products, form, 10, 100);
    lemma_drill_short(Domain::Quotients, form, 10, 100);
    let l0 = chinchilla::statements();
    lemma_append_short(l0, sums, 9);
    let l1 = l0 + sums;
    lemma_append_short(l1, diffs, 9);
    let l2 = l1 + diffs;
    lemma_append_short(l2, products, 9);
    let l3 = l2 + products;
    lemma_append_short(l3, quotients, 9);
    let all = chinchilla::pool_candidates();
    assert(all == l3 + quotients);
    law_deduped(all);
    lemma_deduped_well_formed(all);
    let kept = chinchilla::pool();
    assert forall|i: int| 0 <= i < kept.len() implies (#[trigger] kept[i]).len() <= 9 by {
        assert(kept.contains(kept[i]));
        let j = choose|j: int| 0 <= j < all.len() && all[j] == kept[i];
        assert(all[j].len() <= 9);
    }
    assert(NOTIONS@.len() == 9);
    assert(all.len() > 0);
    assert(all.contains(all[0]));
    assert(kept.contains(all[0]));
}

/// The fillers are well-formed sentences of known lengths.
#[verifier::rlimit(60)]
pub proof fn lemma_fillers_well_formed()
    ensures
        short(chinchilla::fillers(), 9),
        sentences::all_well_formed(chinchilla::fillers()),
{
}

/// The fillers that make up a remainder are well formed.
pub proof fn lemma_made_up_well_formed(vocab: Seq<Seq<char>>, target: nat)
    ensures
        chinchilla::made_up(vocab, target) matches Some(list) ==> sentences::all_well_formed(list),
{
    let lens = base::line_lens(vocab, chinchilla::fillers());
    lemma_fillers_well_formed();
    remainder::law_search_is_exact(lens, target);
    if let Some(picks) = remainder::search(lens, target) {
        let list = chinchilla::picked(chinchilla::fillers(), picks);
        assert forall|i: int| 0 <= i < list.len() implies sentences::well_formed(
            #[trigger] list[i],
        ) by {
            assert(picks[i] < lens.len());
            assert(sentences::well_formed(chinchilla::fillers()[picks[i] as int]));
        }
    }
}

/// The pre-training text is well formed.
pub proof fn lemma_pretrain_well_formed(vocab: Seq<Seq<char>>, target: nat)
    requires
        chinchilla::made_up(vocab, chinchilla::pretrain_missing(vocab, target)) is Some,
    ensures
        sentences::all_well_formed(chinchilla::pretrain(vocab, target)),
{
    let pool = chinchilla::pool();
    let lens = base::line_lens(vocab, pool);
    let k = filling::lines_taken(lens, chinchilla::MARGIN as nat, target);
    let rest = chinchilla::pretrain_missing(vocab, target);
    law_pool_is_sound();
    base_laws::lemma_cycled_well_formed(pool, k);
    lemma_made_up_well_formed(vocab, rest);
    sentence_laws::lemma_append_well_formed(
        filling::cycled(pool, k),
        chinchilla::made_up(vocab, rest)->0,
    );
}

#[verifier::spinoff_prover]
#[verifier::rlimit(60)]
proof fn lemma_reasoning_rows()
    ensures
        short(sentences::rows(NOTION_DIALOGUES@), 12),
        short(sentences::rows(HUMAN_DIALOGUE@), 12),
        short(sentences::rows(NOTION_VERDICTS@), 12),
        short(sentences::rows(REASON_DIALOGUES@), 12),
        short(sentences::rows(HOW_DIALOGUES@), 12),
{
}

#[verifier::spinoff_prover]
#[verifier::rlimit(60)]
proof fn lemma_deduction_rows()
    ensures
        short(sentences::rows(WOLF_IMPLICATION@), 12),
        short(sentences::rows(HARE_IMPLICATION@), 12),
        short(sentences::rows(PIKE_IMPLICATION@), 12),
        short(sentences::rows(FISH_IMPLICATION@), 12),
        short(sentences::rows(CONTRAST_IMPLICATIONS@), 12),
        short(sentences::rows(HUMAN_IMPLICATION@), 12),
        short(sentences::rows(CHAIN_DIALOGUES@), 12),
        short(sentences::rows(CHOICE_DIALOGUES@), 12),
        short(sentences::rows(NUMBER_DIALOGUES@), 12),
{
}

#[verifier::spinoff_prover]
#[verifier::rlimit(60)]
proof fn lemma_question_rows()
    ensures
        short(sentences::rows(PLACE_DIALOGUES@), 12),
        short(sentences::rows(KIND_DIALOGUES@), 12),
        short(sentences::rows(MEAL_DIALOGUES@), 12),
{
}

proof fn lemma_mixed_short(k: nat)
    requires
        k <= 36,
    ensures
        short(chinchilla::mixed(k), 12),
    decreases k,
{
    if k > 0 {
        let j = (k - 1) as nat;
        let a = j as int / 6;
        let b = j as int % 6;
        lemma_mixed_short(j);
        let before = chinchilla::mixed(j);
        let with_sum = if drills::admits(chinchilla::sums(), a, b) {
            let made = drills::drilled(chinchilla::sums(), Form::Dialogue, a, b);
            drill_laws::lemma_drilled(chinchilla::sums(), Form::Dialogue, 6, a, b);
            lemma_append_short(before, made, 12);
            before + made
        } else {
            before
        };
        if drills::admits(Domain::Products, a, b) {
            let made = drills::drilled(Domain::Products, Form::Dialogue, a, b);
            drill_laws::lemma_drilled(Domain::Products, Form::Dialogue, 6, a, b);
            lemma_append_short(with_sum, made, 12);
        }
    }
}

proof fn lemma_reasoning()
    ensures
        short(chinchilla::reasoning(), 12),
{
    lemma_reasoning_rows();
    lemma_deduction_rows();
    let l0 = sentences::rows(NOTION_DIALOGUES@);
    lemma_append_short(l0, sentences::rows(HUMAN_DIALOGUE@), 12);
    let l1 = l0 + sentences::rows(HUMAN_DIALOGUE@);
    lemma_append_short(l1, sentences::rows(NOTION_VERDICTS@), 12);
    let l2 = l1 + sentences::rows(NOTION_VERDICTS@);
    lemma_append_short(l2, sentences::rows(REASON_DIALOGUES@), 12);
    let l3 = l2 + sentences::rows(REASON_DIALOGUES@);
    lemma_append_short(l3, sentences::rows(HOW_DIALOGUES@), 12);
    let l4 = l3 + sentences::rows(HOW_DIALOGUES@);
    lemma_append_short(l4, sentences::rows(WOLF_IMPLICATION@), 12);
    let l5 = l4 + sentences::rows(WOLF_IMPLICATION@);
    lemma_append_short(l5, sentences::rows(HARE_IMPLICATION@), 12);
    let l6 = l5 + sentences::rows(HARE_IMPLICATION@);
    lemma_append_short(l6, sentences::rows(PIKE_IMPLICATION@), 12);
    let l7 = l6 + sentences::rows(PIKE_IMPLICATION@);
    lemma_append_short(l7, sentences::rows(FISH_IMPLICATION@), 12);
    let l8 = l7 + sentences::rows(FISH_IMPLICATION@);
    lemma_append_short(l8, sentences::rows(CONTRAST_IMPLICATIONS@), 12);
    let l9 = l8 + sentences::rows(CONTRAST_IMPLICATIONS@);
    lemma_append_short(l9, sentences::rows(HUMAN_IMPLICATION@), 12);
    let l10 = l9 + sentences::rows(HUMAN_IMPLICATION@);
    lemma_append_short(l10, sentences::rows(CHAIN_DIALOGUES@), 12);
    let l11 = l10 + sentences::rows(CHAIN_DIALOGUES@);
    lemma_append_short(l11, sentences::rows(CHOICE_DIALOGUES@), 12);
    let l12 = l11 + sentences::rows(CHOICE_DIALOGUES@);
    lemma_append_short(l12, sentences::rows(NUMBER_DIALOGUES@), 12);
    let l13 = l12 + sentences::rows(NUMBER_DIALOGUES@);
}

/// The dialogues of the instruction text are well formed.
pub proof fn lemma_instruct_well_formed()
    ensures
        sentences::all_well_formed(chinchilla::instruct()),
{
    let diffs = drills::drill(chinchilla::differences(), Form::Dialogue, 10, 100);
    let quotients = drills::drill(Domain::Quotients, Form::Dialogue, 10, 100);
    lemma_reasoning();
    lemma_question_rows();
    lemma_mixed_short(36);
    lemma_drill_short(chinchilla::differences(), Form::Dialogue, 10, 100);
    lemma_drill_short(Domain::Quotients, Form::Dialogue, 10, 100);
    let l0 = chinchilla::reasoning();
    lemma_append_short(l0, diffs, 12);
    let l1 = l0 + diffs;
    lemma_append_short(l1, quotients, 12);
    let l2 = l1 + quotients;
    lemma_append_short(l2, chinchilla::mixed(36), 12);
    let l3 = l2 + chinchilla::mixed(36);
    lemma_append_short(l3, sentences::rows(PLACE_DIALOGUES@), 12);
    let l4 = l3 + sentences::rows(PLACE_DIALOGUES@);
    lemma_append_short(l4, sentences::rows(KIND_DIALOGUES@), 12);
    let l5 = l4 + sentences::rows(KIND_DIALOGUES@);
    lemma_append_short(l5, sentences::rows(MEAL_DIALOGUES@), 12);
    lemma_deduped_well_formed(chinchilla::instruct_candidates());
}

/// Where the answer of a dialogue begins.
pub open spec fn answer_at(s: Seq<usize>) -> int {
    if s[3] == BOT {
        3
    } else if s[4] == BOT {
        4
    } else if s[5] == BOT {
        5
    } else if s[6] == BOT {
        6
    } else if s[7] == BOT {
        7
    } else if s[8] == BOT {
        8
    } else {
        9
    }
}

/// A question of the user, then an answer.
pub open spec fn dialogue(s: Seq<usize>) -> bool {
    &&& s[0] == USER
    &&& answer_at(s) < s.len() - 1
    &&& s[answer_at(s)] == BOT
}

/// Every sentence is a dialogue.
pub open spec fn all_dialogues(list: Seq<Seq<usize>>) -> bool {
    forall|i: int| 0 <= i < list.len() ==> dialogue(#[trigger] list[i])
}

proof fn lemma_append_dialogues(a: Seq<Seq<usize>>, b: Seq<Seq<usize>>)
    requires
        all_dialogues(a),
        all_dialogues(b),
    ensures
        all_dialogues(a + b),
{
    let list = a + b;
    assert forall|i: int| 0 <= i < list.len() implies dialogue(#[trigger] list[i]) by {
        if i < a.len() {
            assert(list[i] == a[i]);
        } else {
            assert(list[i] == b[i - a.len()]);
        }
    }
}

#[verifier::spinoff_prover]
#[verifier::rlimit(60)]
proof fn lemma_reasoning_dialogues()
    ensures
        all_dialogues(sentences::rows(NOTION_DIALOGUES@)),
        all_dialogues(sentences::rows(HUMAN_DIALOGUE@)),
        all_dialogues(sentences::rows(NOTION_VERDICTS@)),
        all_dialogues(sentences::rows(REASON_DIALOGUES@)),
        all_dialogues(sentences::rows(HOW_DIALOGUES@)),
{
}

#[verifier::spinoff_prover]
#[verifier::rlimit(60)]
proof fn lemma_deduction_dialogues()
    ensures
        all_dialogues(sentences::rows(WOLF_IMPLICATION@)),
        all_dialogues(sentences::rows(HARE_IMPLICATION@)),
        all_dialogues(sentences::rows(PIKE_IMPLICATION@)),
        all_dialogues(sentences::rows(FISH_IMPLICATION@)),
        all_dialogues(sentences::rows(CONTRAST_IMPLICATIONS@)),
        all_dialogues(sentences::rows(HUMAN_IMPLICATION@)),
        all_dialogues(sentences::rows(CHAIN_DIALOGUES@)),
        all_dialogues(sentences::rows(CHOICE_DIALOGUES@)),
        all_dialogues(sentences::rows(NUMBER_DIALOGUES@)),
{
}

#[verifier::spinoff_prover]
#[verifier::rlimit(60)]
proof fn lemma_question_dialogues()
    ensures
        all_dialogues(sentences::rows(PLACE_DIALOGUES@)),
        all_dialogues(sentences::rows(KIND_DIALOGUES@)),
        all_dialogues(sentences::rows(MEAL_DIALOGUES@)),
{
}

proof fn lemma_drill_dialogues(domain: Domain, k: nat)
    requires
        k <= 100,
        drills::digital(domain),
    ensures
        all_dialogues(drills::drill(domain, Form::Dialogue, 10, k)),
    decreases k,
{
    if k > 0 {
        let j = (k - 1) as nat;
        let a = j as int / 10;
        let b = j as int % 10;
        lemma_drill_dialogues(domain, j);
        if drills::admits(domain, a, b) {
            let made = drills::drilled(domain, Form::Dialogue, a, b);
            assert(dialogue(made[0]));
            lemma_append_dialogues(drills::drill(domain, Form::Dialogue, 10, j), made);
        }
    }
}

proof fn lemma_mixed_dialogues(k: nat)
    ensures
        all_dialogues(chinchilla::mixed(k)),
    decreases k,
{
    if k > 0 {
        let j = (k - 1) as nat;
        let a = j as int / 6;
        let b = j as int % 6;
        lemma_mixed_dialogues(j);
        let sum = drills::drilled(chinchilla::sums(), Form::Dialogue, a, b);
        let product = drills::drilled(Domain::Products, Form::Dialogue, a, b);
        assert(dialogue(sum[0]) && dialogue(product[0]));
        lemma_append_dialogues(chinchilla::mixed(j), sum);
        lemma_append_dialogues(chinchilla::mixed(j), product);
        lemma_append_dialogues(chinchilla::mixed(j) + sum, product);
    }
}

/// Every sentence of the instruction text is a dialogue.
pub proof fn law_instruct_corpus_is_dialogues()
    ensures
        all_dialogues(chinchilla::instruct()),
{
    let diffs = drills::drill(chinchilla::differences(), Form::Dialogue, 10, 100);
    let quotients = drills::drill(Domain::Quotients, Form::Dialogue, 10, 100);
    lemma_reasoning_dialogues();
    lemma_deduction_dialogues();
    lemma_question_dialogues();
    lemma_mixed_dialogues(36);
    lemma_drill_dialogues(chinchilla::differences(), 100);
    lemma_drill_dialogues(Domain::Quotients, 100);
    let l0 = sentences::rows(NOTION_DIALOGUES@);
    lemma_append_dialogues(l0, sentences::rows(HUMAN_DIALOGUE@));
    let l1 = l0 + sentences::rows(HUMAN_DIALOGUE@);
    lemma_append_dialogues(l1, sentences::rows(NOTION_VERDICTS@));
    let l2 = l1 + sentences::rows(NOTION_VERDICTS@);
    lemma_append_dialogues(l2, sentences::rows(REASON_DIALOGUES@));
    let l3 = l2 + sentences::rows(REASON_DIALOGUES@);
    lemma_append_dialogues(l3, sentences::rows(HOW_DIALOGUES@));
    let l4 = l3 + sentences::rows(HOW_DIALOGUES@);
    lemma_append_dialogues(l4, sentences::rows(WOLF_IMPLICATION@));
    let l5 = l4 + sentences::rows(WOLF_IMPLICATION@);
    lemma_append_dialogues(l5, sentences::rows(HARE_IMPLICATION@));
    let l6 = l5 + sentences::rows(HARE_IMPLICATION@);
    lemma_append_dialogues(l6, sentences::rows(PIKE_IMPLICATION@));
    let l7 = l6 + sentences::rows(PIKE_IMPLICATION@);
    lemma_append_dialogues(l7, sentences::rows(FISH_IMPLICATION@));
    let l8 = l7 + sentences::rows(FISH_IMPLICATION@);
    lemma_append_dialogues(l8, sentences::rows(CONTRAST_IMPLICATIONS@));
    let l9 = l8 + sentences::rows(CONTRAST_IMPLICATIONS@);
    lemma_append_dialogues(l9, sentences::rows(HUMAN_IMPLICATION@));
    let l10 = l9 + sentences::rows(HUMAN_IMPLICATION@);
    lemma_append_dialogues(l10, sentences::rows(CHAIN_DIALOGUES@));
    let l11 = l10 + sentences::rows(CHAIN_DIALOGUES@);
    lemma_append_dialogues(l11, sentences::rows(CHOICE_DIALOGUES@));
    let l12 = l11 + sentences::rows(CHOICE_DIALOGUES@);
    lemma_append_dialogues(l12, sentences::rows(NUMBER_DIALOGUES@));
    let l13 = l12 + sentences::rows(NUMBER_DIALOGUES@);
    lemma_append_dialogues(l13, diffs);
    let l14 = l13 + diffs;
    lemma_append_dialogues(l14, quotients);
    let l15 = l14 + quotients;
    lemma_append_dialogues(l15, chinchilla::mixed(36));
    let l16 = l15 + chinchilla::mixed(36);
    lemma_append_dialogues(l16, sentences::rows(PLACE_DIALOGUES@));
    let l17 = l16 + sentences::rows(PLACE_DIALOGUES@);
    lemma_append_dialogues(l17, sentences::rows(KIND_DIALOGUES@));
    let l18 = l17 + sentences::rows(KIND_DIALOGUES@);
    lemma_append_dialogues(l18, sentences::rows(MEAL_DIALOGUES@));
    let l19 = l18 + sentences::rows(MEAL_DIALOGUES@);
    let all = chinchilla::instruct_candidates();
    assert(all == l19);
    law_deduped(all);
    let kept = chinchilla::instruct();
    assert forall|i: int| 0 <= i < kept.len() implies dialogue(#[trigger] kept[i]) by {
        assert(kept.contains(kept[i]));
        let j = choose|j: int| 0 <= j < all.len() && all[j] == kept[i];
        assert(dialogue(all[j]));
    }
}

/// A line falls apart before and behind any of its inner words.
proof fn lemma_line_parts(s: Seq<usize>, n: int)
    requires
        sentences::well_formed(s),
        0 < n < s.len() - 1,
    ensures
        sentences::spelled(s) == sentences::spelled(s.take(n)) + seq![' ']
            + VOCAB_CHINCHILLA@[s[n] as int]@ + seq![' '] + sentences::spelled(s.skip(n + 1)),
{
    let vocab = tokenizer::words(VOCAB_CHINCHILLA@);
    let sep = seq![' '];
    let word = vocab[s[n] as int];
    let before = tokenizer::tokens_of(vocab, s.take(n));
    let behind = tokenizer::tokens_of(vocab, s.skip(n + 1));
    let rest = seq![word] + behind;
    assert(tokenizer::tokens_of(vocab, s) =~= before + rest);
    text::lemma_join_split(before, rest, sep);
    text::lemma_join_split(seq![word], behind, sep);
    assert(text::join(seq![word], sep) == word);
    assert(text::join(before, sep) + sep + (word + sep + text::join(behind, sep)) =~= text::join(
        before,
        sep,
    ) + sep + word + sep + text::join(behind, sep));
}

/// A line starts with its first word and a space.
proof fn lemma_line_head(s: Seq<usize>)
    requires
        sentences::well_formed(s),
        s.len() > 1,
    ensures
        (VOCAB_CHINCHILLA@[s[0] as int]@ + seq![' ']).is_prefix_of(sentences::spelled(s)),
{
    let vocab = tokenizer::words(VOCAB_CHINCHILLA@);
    let sep = seq![' '];
    let word = vocab[s[0] as int];
    let rest = tokenizer::tokens_of(vocab, s.skip(1));
    assert(tokenizer::tokens_of(vocab, s) =~= seq![word] + rest);
    text::lemma_join_split(seq![word], rest, sep);
    assert(text::join(seq![word], sep) == word);
    let line = sentences::spelled(s);
    assert(line == word + sep + text::join(rest, sep));
    assert((word + sep) =~= line.subrange(0, (word + sep).len() as int));
}

/// The line of a dialogue starts with `<user> `, holds ` <bot> ` between question and answer, and
/// ends with the end-of-sequence token.
pub proof fn law_dialogue_line(s: Seq<usize>)
    requires
        sentences::well_formed(s),
        dialogue(s),
    ensures
        (VOCAB_CHINCHILLA@[USER as int]@ + seq![' ']).is_prefix_of(sentences::spelled(s)),
        sentences::spelled(s) == sentences::spelled(s.take(answer_at(s))) + seq![' ']
            + VOCAB_CHINCHILLA@[BOT as int]@ + seq![' '] + sentences::spelled(
            s.skip(answer_at(s) + 1),
        ),
        sentence_laws::eos_mark().is_suffix_of(sentences::spelled(s)),
{
    sentence_laws::law_line_ends_with_eos(s);
    lemma_line_head(s);
    lemma_line_parts(s, answer_at(s));
}

} // verus!
