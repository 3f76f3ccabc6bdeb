//! What holds of the control suites.

use vstd::prelude::*;

use crate::classic::telemetry::TestCaseResult;
use crate::classic::telemetry;
use crate::classic::tokenizer::{VOCAB_CHINCHILLA, VOCAB_V3};
use crate::classic::tokenizer;
use crate::classic::tokenizer_laws;
use crate::corpus::sentences;
use crate::corpus::words::{BOT, EQUALS, MINUS, OVER, PLUS, TIMES, USER};
use crate::trials::suite;
use crate::trials::suite::Suite;

verus! {

/// The question in a sentence ends at this position.
pub open spec fn split_at(sentence: Seq<usize>, k: int) -> bool {
    &&& 0 < k < sentence.len()
    &&& sentence[k - 1] == suite::marker(sentence)
    &&& forall|j: int| 0 <= j < k - 1 ==> sentence[j] != suite::marker(sentence)
}

/// The value of a digit.
pub open spec fn value(word: usize) -> int {
    if word < 21 {
        word - 4
    } else {
        word - 15
    }
}

/// Where a sentence asks for the result of an operation on two digits, the word at this position
/// is that result.
pub open spec fn right_at(sentence: Seq<usize>, k: int) -> bool {
    let o = if sentence[0] == USER {
        1int
    } else {
        0int
    };
    let a = value(sentence[o]);
    let b = value(sentence[o + 2]);
    let c = value(sentence[k]);
    sentence.len() > o + 3 && sentence[o + 3] == EQUALS ==> {
        &&& sentence[o + 1] == PLUS ==> a + b == c
        &&& sentence[o + 1] == MINUS ==> a - b == c
        &&& sentence[o + 1] == TIMES ==> a * b == c
        &&& sentence[o + 1] == OVER ==> b > 0 && b * c == a
    }
}

/// A task: a well-formed sentence over a vocabulary of the given size, of a question and an
/// answer that is right where the question is an operation on digits.
pub open spec fn sound_task(sentence: Seq<usize>, size: nat) -> bool {
    &&& sentences::well_formed(sentence)
    &&& tokenizer::in_vocab(sentence, size)
    &&& split_at(sentence, suite::asked(sentence) as int)
    &&& right_at(sentence, suite::asked(sentence) as int)
}

/// Every sentence is a task.
pub open spec fn all_sound(list: Seq<Seq<usize>>, size: nat) -> bool {
    forall|i: int| 0 <= i < list.len() ==> sound_task(#[trigger] list[i], size)
}

/// A table of tasks whose questions have the same length.
pub open spec fn table_sound<const L: usize>(table: Seq<[usize; L]>, k: int, size: nat) -> bool {
    forall|i: int|
        0 <= i < table.len() ==> {
            let row = #[trigger] sentences::rows(table)[i];
            &&& sentences::well_formed(row)
            &&& tokenizer::in_vocab(row, size)
            &&& split_at(row, k)
            &&& right_at(row, k)
        }
}

proof fn lemma_up_to(sentence: Seq<usize>, word: usize, k: int)
    requires
        0 < k <= sentence.len(),
        sentence[k - 1] == word,
        forall|j: int| 0 <= j < k - 1 ==> sentence[j] != word,
    ensures
        suite::up_to(sentence, word) == k,
    decreases k,
{
    if k > 1 {
        let rest = sentence.drop_first();
        assert(sentence[0] != word);
        assert forall|j: int| 0 <= j < k - 2 implies rest[j] != word by {
            assert(sentence[j + 1] != word);
        }
        lemma_up_to(rest, word, k - 1);
    }
}

proof fn lemma_rows_sound<const L: usize>(table: Seq<[usize; L]>, k: int, size: nat, larger: nat)
    requires
        table_sound(table, k, size),
        size <= larger,
    ensures
        all_sound(sentences::rows(table), larger),
{
    let list = sentences::rows(table);
    assert forall|i: int| 0 <= i < list.len() implies sound_task(#[trigger] list[i], larger) by {
        lemma_up_to(list[i], suite::marker(list[i]), k);
    }
}

proof fn lemma_append_sound(a: Seq<Seq<usize>>, b: Seq<Seq<usize>>, size: nat)
    requires
        all_sound(a, size),
        all_sound(b, size),
    ensures
        all_sound(a + b, size),
{
    let list = a + b;
    assert forall|i: int| 0 <= i < list.len() implies sound_task(#[trigger] list[i], size) by {
        if i < a.len() {
            assert(list[i] == a[i]);
        } else {
            assert(list[i] == b[i - a.len()]);
        }
    }
}

#[verifier::spinoff_prover]
#[verifier::rlimit(60)]
proof fn lemma_base_tables()
    ensures
        table_sound(suite::BASE_DIALOGUES@, 6, 53),
        table_sound(suite::BASE_FACTS@, 4, 53),
        table_sound(suite::BASE_VERDICTS@, 5, 53),
        table_sound(suite::BASE_EQUATIONS@, 4, 53),
        table_sound(suite::BASE_RELATION@, 4, 53),
{
}

#[verifier::spinoff_prover]
#[verifier::rlimit(60)]
proof fn lemma_v2_dialogues()
    ensures
        table_sound(suite::V2_DIALOGUES@, 6, 53),
{
}

#[verifier::spinoff_prover]
#[verifier::rlimit(60)]
proof fn lemma_v2_tables()
    ensures
        table_sound(suite::V2_FACTS@, 4, 53),
        table_sound(suite::V2_PLACES@, 4, 53),
        table_sound(suite::V2_VERDICTS@, 5, 53),
        table_sound(suite::V2_EQUATIONS@, 4, 53),
        table_sound(suite::V2_RELATION@, 4, 53),
        table_sound(suite::V2_PLACE@, 3, 53),
{
}

#[verifier::spinoff_prover]
#[verifier::rlimit(60)]
proof fn lemma_sum_tables()
    ensures
        table_sound(suite::V3_SUM_DIALOGUES@, 6, 53),
        table_sound(suite::V3_SUMS@, 4, 53),
{
}

#[verifier::spinoff_prover]
#[verifier::rlimit(60)]
proof fn lemma_difference_tables()
    ensures
        table_sound(suite::V3_DIFFERENCE_DIALOGUES@, 6, 53),
        table_sound(suite::V3_DIFFERENCES@, 4, 53),
{
}

#[verifier::spinoff_prover]
#[verifier::rlimit(60)]
proof fn lemma_product_tables()
    ensures
        table_sound(suite::V3_PRODUCT_DIALOGUES@, 6, 53),
        table_sound(suite::V3_PRODUCTS@, 4, 53),
{
}

#[verifier::spinoff_prover]
#[verifier::rlimit(60)]
proof fn lemma_fact_tables()
    ensures
        table_sound(suite::V3_FACT_DIALOGUES@, 4, 53),
        table_sound(suite::V3_FACTS@, 3, 53),
{
}

#[verifier::spinoff_prover]
#[verifier::rlimit(60)]
proof fn lemma_place_tables()
    ensures
        table_sound(suite::V3_PLACE_DIALOGUES@, 4, 53),
        table_sound(suite::V3_PLACES@, 3, 53),
{
}

#[verifier::spinoff_prover]
#[verifier::rlimit(60)]
proof fn lemma_verdict_tables()
    ensures
        table_sound(suite::V3_VERDICT_DIALOGUES@, 5, 53),
        table_sound(suite::V3_VERDICTS@, 4, 53),
{
}

#[verifier::spinoff_prover]
#[verifier::rlimit(60)]
proof fn lemma_paired_tables()
    ensures
        table_sound(suite::PAIRED_DIFFERENCES@, 6, 65),
        table_sound(suite::BASE_DIFFERENCES@, 4, 65),
{
}

#[verifier::spinoff_prover]
#[verifier::rlimit(60)]
proof fn lemma_relation_tables()
    ensures
        table_sound(suite::RELATION_VERDICTS@, 5, 65),
        table_sound(suite::FOOD_VERDICTS@, 5, 65),
{
}

#[verifier::spinoff_prover]
#[verifier::rlimit(60)]
proof fn lemma_implication_tables()
    ensures
        table_sound(suite::IMPLICATION@, 9, 65),
        table_sound(suite::FALSE_IMPLICATION@, 6, 65),
        table_sound(suite::CHAIN_VERDICTS@, 8, 65),
{
}

proof fn lemma_base_is_sound()
    ensures
        all_sound(Suite::Base.tasks(), 53),
        Suite::Base.tasks().len() == Suite::Base.size(),
{
    lemma_base_tables();
    lemma_rows_sound(suite::BASE_DIALOGUES@, 6, 53, 53);
    let l0 = sentences::rows(suite::BASE_DIALOGUES@);
    lemma_rows_sound(suite::BASE_FACTS@, 4, 53, 53);
    lemma_append_sound(l0, sentences::rows(suite::BASE_FACTS@), 53);
    let l1 = l0 + sentences::rows(suite::BASE_FACTS@);
    lemma_rows_sound(suite::BASE_VERDICTS@, 5, 53, 53);
    lemma_append_sound(l1, sentences::rows(suite::BASE_VERDICTS@), 53);
    let l2 = l1 + sentences::rows(suite::BASE_VERDICTS@);
    lemma_rows_sound(suite::BASE_EQUATIONS@, 4, 53, 53);
    lemma_append_sound(l2, sentences::rows(suite::BASE_EQUATIONS@), 53);
    let l3 = l2 + sentences::rows(suite::BASE_EQUATIONS@);
    lemma_rows_sound(suite::BASE_RELATION@, 4, 53, 53);
    lemma_append_sound(l3, sentences::rows(suite::BASE_RELATION@), 53);
}

proof fn lemma_corpusv2_is_sound()
    ensures
        all_sound(Suite::CorpusV2.tasks(), 53),
        Suite::CorpusV2.tasks().len() == Suite::CorpusV2.size(),
{
    lemma_v2_dialogues();
    lemma_v2_tables();
    lemma_rows_sound(suite::V2_DIALOGUES@, 6, 53, 53);
    let l0 = sentences::rows(suite::V2_DIALOGUES@);
    lemma_rows_sound(suite::V2_FACTS@, 4, 53, 53);
    lemma_append_sound(l0, sentences::rows(suite::V2_FACTS@), 53);
    let l1 = l0 + sentences::rows(suite::V2_FACTS@);
    lemma_rows_sound(suite::V2_PLACES@, 4, 53, 53);
    lemma_append_sound(l1, sentences::rows(suite::V2_PLACES@), 53);
    let l2 = l1 + sentences::rows(suite::V2_PLACES@);
    lemma_rows_sound(suite::V2_VERDICTS@, 5, 53, 53);
    lemma_append_sound(l2, sentences::rows(suite::V2_VERDICTS@), 53);
    let l3 = l2 + sentences::rows(suite::V2_VERDICTS@);
    lemma_rows_sound(suite::V2_EQUATIONS@, 4, 53, 53);
    lemma_append_sound(l3, sentences::rows(suite::V2_EQUATIONS@), 53);
    let l4 = l3 + sentences::rows(suite::V2_EQUATIONS@);
    lemma_rows_sound(suite::V2_RELATION@, 4, 53, 53);
    lemma_append_sound(l4, sentences::rows(suite::V2_RELATION@), 53);
    let l5 = l4 + sentences::rows(suite::V2_RELATION@);
    lemma_rows_sound(suite::V2_PLACE@, 3, 53, 53);
    lemma_append_sound(l5, sentences::rows(suite::V2_PLACE@), 53);
}

proof fn lemma_corpusv3_is_sound()
    ensures
        all_sound(Suite::CorpusV3.tasks(), 53),
        Suite::CorpusV3.tasks().len() == Suite::CorpusV3.size(),
{
    lemma_sum_tables();
    lemma_difference_tables();
    lemma_product_tables();
    lemma_fact_tables();
    lemma_place_tables();
    lemma_verdict_tables();
    lemma_rows_sound(suite::V3_SUM_DIALOGUES@, 6, 53, 53);
    let l0 = sentences::rows(suite::V3_SUM_DIALOGUES@);
    lemma_rows_sound(suite::V3_SUMS@, 4, 53, 53);
    lemma_append_sound(l0, sentences::rows(suite::V3_SUMS@), 53);
    let l1 = l0 + sentences::rows(suite::V3_SUMS@);
    lemma_rows_sound(suite::V3_DIFFERENCE_DIALOGUES@, 6, 53, 53);
    lemma_append_sound(l1, sentences::rows(suite::V3_DIFFERENCE_DIALOGUES@), 53);
    let l2 = l1 + sentences::rows(suite::V3_DIFFERENCE_DIALOGUES@);
    lemma_rows_sound(suite::V3_DIFFERENCES@, 4, 53, 53);
    lemma_append_sound(l2, sentences::rows(suite::V3_DIFFERENCES@), 53);
    let l3 = l2 + sentences::rows(suite::V3_DIFFERENCES@);
    lemma_rows_sound(suite::V3_PRODUCT_DIALOGUES@, 6, 53, 53);
    lemma_append_sound(l3, sentences::rows(suite::V3_PRODUCT_DIALOGUES@), 53);
    let l4 = l3 + sentences::rows(suite::V3_PRODUCT_DIALOGUES@);
    lemma_rows_sound(suite::V3_PRODUCTS@, 4, 53, 53);
    lemma_append_sound(l4, sentences::rows(suite::V3_PRODUCTS@), 53);
    let l5 = l4 + sentences::rows(suite::V3_PRODUCTS@);
    lemma_rows_sound(suite::V3_FACT_DIALOGUES@, 4, 53, 53);
    lemma_append_sound(l5, sentences::rows(suite::V3_FACT_DIALOGUES@), 53);
    let l6 = l5 + sentences::rows(suite::V3_FACT_DIALOGUES@);
    lemma_rows_sound(suite::V3_FACTS@, 3, 53, 53);
    lemma_append_sound(l6, sentences::rows(suite::V3_FACTS@), 53);
    let l7 = l6 + sentences::rows(suite::V3_FACTS@);
    lemma_rows_sound(suite::V3_PLACE_DIALOGUES@, 4, 53, 53);
    lemma_append_sound(l7, sentences::rows(suite::V3_PLACE_DIALOGUES@), 53);
    let l8 = l7 + sentences::rows(suite::V3_PLACE_DIALOGUES@);
    lemma_rows_sound(suite::V3_PLACES@, 3, 53, 53);
    lemma_append_sound(l8, sentences::rows(suite::V3_PLACES@), 53);
    let l9 = l8 + sentences::rows(suite::V3_PLACES@);
    lemma_rows_sound(suite::V3_VERDICT_DIALOGUES@, 5, 53, 53);
    lemma_append_sound(l9, sentences::rows(suite::V3_VERDICT_DIALOGUES@), 53);
    let l10 = l9 + sentences::rows(suite::V3_VERDICT_DIALOGUES@);
    lemma_rows_sound(suite::V3_VERDICTS@, 4, 53, 53);
    lemma_append_sound(l10, sentences::rows(suite::V3_VERDICTS@), 53);
}

proof fn lemma_chinchilla_is_sound()
    ensures
        all_sound(Suite::Chinchilla.tasks(), 65),
        Suite::Chinchilla.tasks().len() == Suite::Chinchilla.size(),
{
    lemma_sum_tables();
    lemma_paired_tables();
    lemma_product_tables();
    lemma_fact_tables();
    lemma_place_tables();
    lemma_relation_tables();
    lemma_implication_tables();
    lemma_rows_sound(suite::V3_SUM_DIALOGUES@, 6, 53, 65);
    let l0 = sentences::rows(suite::V3_SUM_DIALOGUES@);
    lemma_rows_sound(suite::V3_SUMS@, 4, 53, 65);
    lemma_append_sound(l0, sentences::rows(suite::V3_SUMS@), 65);
    let l1 = l0 + sentences::rows(suite::V3_SUMS@);
    lemma_rows_sound(suite::PAIRED_DIFFERENCES@, 6, 65, 65);
    lemma_append_sound(l1, sentences::rows(suite::PAIRED_DIFFERENCES@), 65);
    let l2 = l1 + sentences::rows(suite::PAIRED_DIFFERENCES@);
    lemma_rows_sound(suite::BASE_DIFFERENCES@, 4, 65, 65);
    lemma_append_sound(l2, sentences::rows(suite::BASE_DIFFERENCES@), 65);
    let l3 = l2 + sentences::rows(suite::BASE_DIFFERENCES@);
    lemma_rows_sound(suite::V3_PRODUCT_DIALOGUES@, 6, 53, 65);
    lemma_append_sound(l3, sentences::rows(suite::V3_PRODUCT_DIALOGUES@), 65);
    let l4 = l3 + sentences::rows(suite::V3_PRODUCT_DIALOGUES@);
    lemma_rows_sound(suite::V3_PRODUCTS@, 4, 53, 65);
    lemma_append_sound(l4, sentences::rows(suite::V3_PRODUCTS@), 65);
    let l5 = l4 + sentences::rows(suite::V3_PRODUCTS@);
    lemma_rows_sound(suite::V3_FACT_DIALOGUES@, 4, 53, 65);
    lemma_append_sound(l5, sentences::rows(suite::V3_FACT_DIALOGUES@), 65);
    let l6 = l5 + sentences::rows(suite::V3_FACT_DIALOGUES@);
    lemma_rows_sound(suite::V3_FACTS@, 3, 53, 65);
    lemma_append_sound(l6, sentences::rows(suite::V3_FACTS@), 65);
    let l7 = l6 + sentences::rows(suite::V3_FACTS@);
    lemma_rows_sound(suite::V3_PLACE_DIALOGUES@, 4, 53, 65);
    lemma_append_sound(l7, sentences::rows(suite::V3_PLACE_DIALOGUES@), 65);
    let l8 = l7 + sentences::rows(suite::V3_PLACE_DIALOGUES@);
    lemma_rows_sound(suite::V3_PLACES@, 3, 53, 65);
    lemma_append_sound(l8, sentences::rows(suite::V3_PLACES@), 65);
    let l9 = l8 + sentences::rows(suite::V3_PLACES@);
    lemma_rows_sound(suite::RELATION_VERDICTS@, 5, 65, 65);
    lemma_append_sound(l9, sentences::rows(suite::RELATION_VERDICTS@), 65);
    let l10 = l9 + sentences::rows(suite::RELATION_VERDICTS@);
    lemma_rows_sound(suite::IMPLICATION@, 9, 65, 65);
    lemma_append_sound(l10, sentences::rows(suite::IMPLICATION@), 65);
    let l11 = l10 + sentences::rows(suite::IMPLICATION@);
    lemma_rows_sound(suite::FALSE_IMPLICATION@, 6, 65, 65);
    lemma_append_sound(l11, sentences::rows(suite::FALSE_IMPLICATION@), 65);
    let l12 = l11 + sentences::rows(suite::FALSE_IMPLICATION@);
    lemma_rows_sound(suite::FOOD_VERDICTS@, 5, 65, 65);
    lemma_append_sound(l12, sentences::rows(suite::FOOD_VERDICTS@), 65);
    let l13 = l12 + sentences::rows(suite::FOOD_VERDICTS@);
    lemma_rows_sound(suite::CHAIN_VERDICTS@, 8, 65, 65);
    lemma_append_sound(l13, sentences::rows(suite::CHAIN_VERDICTS@), 65);
}

/// The vocabulary that a suite is put to a model in.
pub open spec fn vocab_of(suite: Suite) -> Seq<Seq<char>> {
    match suite {
        Suite::Chinchilla => tokenizer::words(VOCAB_CHINCHILLA@),
        _ => tokenizer::words(VOCAB_V3@),
    }
}

/// Every suite has as many tasks as it says, and all of them are well-formed sentences of a
/// question and an answer. Where the question is an operation on digits, the answer is its result.
pub proof fn law_suites_are_sound(suite: Suite)
    ensures
        suite.tasks().len() == suite.size(),
        suite.categories().len() == suite.size(),
        all_sound(suite.tasks(), 65),
        all_sound(suite.tasks(), vocab_of(suite).len()),
{
    lemma_base_is_sound();
    lemma_corpusv2_is_sound();
    lemma_corpusv3_is_sound();
    lemma_chinchilla_is_sound();
    let list = suite.tasks();
    assert(vocab_of(suite).len() <= 65);
    assert forall|i: int| 0 <= i < list.len() implies sound_task(#[trigger] list[i], 65) by {
        assert(sound_task(list[i], vocab_of(suite).len()));
    }
}

/// The questions and the answers of a suite read back as the tokens that they were spelled from,
/// and no question and no answer is empty.
pub proof fn law_tasks_can_be_asked(suite: Suite, i: int)
    requires
        0 <= i < suite.size(),
    ensures
        ({
            let sentence = suite.tasks()[i];
            let asks = suite::question(sentence);
            let answers = suite::answer(sentence);
            &&& asks.len() > 0
            &&& answers.len() > 0
            &&& asks + answers == sentence
            &&& tokenizer::encoding(vocab_of(suite), sentences::spelled(asks)) == asks
            &&& tokenizer::encoding(vocab_of(suite), sentences::spelled(answers)) == answers
        }),
{
    law_suites_are_sound(suite);
    let sentence = suite.tasks()[i];
    let asks = suite::question(sentence);
    let answers = suite::answer(sentence);
    let vocab = vocab_of(suite);
    assert(sound_task(sentence, vocab.len()));
    assert(asks + answers =~= sentence);
    tokenizer_laws::law_vocabularies_are_unambiguous();
    tokenizer_laws::law_vocabularies_are_backward_compatible();
    let full = tokenizer::words(VOCAB_CHINCHILLA@);
    assert(full.take(65) =~= full);
    tokenizer_laws::law_decode_is_backward_compatible(vocab, full, asks);
    tokenizer_laws::law_decode_is_backward_compatible(vocab, full, answers);
    tokenizer_laws::law_encode_inverts_decode(vocab, asks);
    tokenizer_laws::law_encode_inverts_decode(vocab, answers);
}

/// The number of cases of the first `n` domains that passed.
pub open spec fn domain_sum(cases: Seq<TestCaseResult>, n: nat) -> nat
    decreases n,
{
    if n == 0 {
        0
    } else {
        domain_sum(cases, (n - 1) as nat) + telemetry::passed_of(
            suite::of_domain(cases, n - 1),
        )
    }
}

/// The domains of a suite share out its cases: what passes in them passes in all.
pub proof fn law_domains_make_up_the_suite(cases: Seq<TestCaseResult>, n: nat)
    requires
        n * suite::DOMAIN_TASKS <= cases.len(),
    ensures
        domain_sum(cases, n) == telemetry::passed_of(cases.take((n * suite::DOMAIN_TASKS) as int)),
    decreases n,
{
    if n > 0 {
        let m = (n - 1) as nat;
        law_domains_make_up_the_suite(cases, m);
        let before = cases.take((m * suite::DOMAIN_TASKS) as int);
        let here = suite::of_domain(cases, m as int);
        telemetry::law_domains_add_up(before, here);
        assert(before + here =~= cases.take((n * suite::DOMAIN_TASKS) as int));
    }
}

/// The text of a generated continuation is the expected one exactly where its tokens are.
pub proof fn law_exact_match_is_token_match(suite: Suite, i: int, generated: Seq<usize>)
    requires
        0 <= i < suite.size(),
        tokenizer::in_vocab(generated, vocab_of(suite).len()),
    ensures
        tokenizer::decoding(vocab_of(suite), generated) == sentences::spelled(
            suite::answer(suite.tasks()[i]),
        ) <==> generated == suite::answer(suite.tasks()[i]),
{
    law_suites_are_sound(suite);
    let sentence = suite.tasks()[i];
    let answers = suite::answer(sentence);
    let vocab = vocab_of(suite);
    assert(sound_task(sentence, vocab.len()));
    tokenizer_laws::law_vocabularies_are_unambiguous();
    tokenizer_laws::law_vocabularies_are_backward_compatible();
    let full = tokenizer::words(VOCAB_CHINCHILLA@);
    assert(full.take(65) =~= full);
    tokenizer_laws::law_decode_is_backward_compatible(vocab, full, answers);
    if generated != answers {
        tokenizer_laws::law_decode_is_injective(vocab, generated, answers);
    }
}

/// The question of a sentence goes up to the first mark, the mark included: in a dialogue the turn of
/// the answering side, elsewhere the equals sign. A sentence without one is all question.
pub proof fn law_question_ends_at_the_first_mark(sentence: Seq<usize>, mark: usize, i: int)
    requires
        sentence.len() > 0,
        mark == if sentence[0] == USER {
            BOT
        } else {
            EQUALS
        },
    ensures
        suite::asked(sentence) <= sentence.len(),
        suite::question(sentence) + suite::answer(sentence) == sentence,
        suite::question(sentence).len() == suite::asked(sentence),
        0 <= i < suite::asked(sentence) - 1 ==> sentence[i] != mark,
        sentence.contains(mark) ==> suite::question(sentence).last() == mark,
        !sentence.contains(mark) ==> suite::answer(sentence).len() == 0,
{
    lemma_up_to_is_the_first(sentence, mark, i);
    assert(suite::question(sentence) + suite::answer(sentence) =~= sentence);
}

proof fn lemma_up_to_is_the_first(sentence: Seq<usize>, word: usize, i: int)
    ensures
        suite::up_to(sentence, word) <= sentence.len(),
        sentence.len() > 0 ==> suite::up_to(sentence, word) > 0,
        0 <= i < suite::up_to(sentence, word) - 1 ==> sentence[i] != word,
        sentence.contains(word) ==> suite::up_to(sentence, word) > 0
            && sentence[suite::up_to(sentence, word) - 1] == word,
        !sentence.contains(word) ==> suite::up_to(sentence, word) == sentence.len(),
    decreases sentence.len(),
{
    if sentence.len() > 0 && sentence[0] != word {
        let rest = sentence.drop_first();
        lemma_up_to_is_the_first(rest, word, i - 1);
        if sentence.contains(word) {
            let at = choose|at: int| 0 <= at < sentence.len() && sentence[at] == word;
            assert(rest[at - 1] == word);
        }
        if rest.contains(word) {
            let at = choose|at: int| 0 <= at < rest.len() && rest[at] == word;
            assert(sentence[at + 1] == word);
        }
    }
}

/// The domains of a suite have ten cases each, one behind the other.
pub proof fn law_domains_have_ten_cases(cases: Seq<TestCaseResult>, d: int, i: int)
    requires
        0 <= d,
        10 * d + 10 <= cases.len(),
        0 <= i < 10,
    ensures
        suite::of_domain(cases, d).len() == 10,
        suite::of_domain(cases, d)[i] == cases[10 * d + i],
{
}

} // verus!
