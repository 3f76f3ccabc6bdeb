//! The base corpora in numbers.

use vstd::prelude::*;

use crate::classic::tokenizer::{VOCAB_CHINCHILLA, VOCAB_V3};
use crate::classic::tokenizer;
use crate::classic::tokenizer_laws;
use crate::corpus::base;
use crate::corpus::base::{
    ARITHMETIC_DIALOGUES, IDENTITY_DIALOGUES, KINSHIP_DIALOGUES, MARGIN, MISMATCH_DIALOGUES,
    REPLAYED_DEFINITIONS, REPLAYED_EQUATIONS, REPLAYED_FACTS, REPLAYED_MIX, SPECIES_DIALOGUES,
};
use crate::corpus::drill_laws;
use crate::corpus::drills::{Domain, Form};
use crate::corpus::drills;
use crate::corpus::filling;
use crate::corpus::sentence_laws;
use crate::corpus::sentences;
use crate::corpus::unified::DIALOGUE_FACTS;
use crate::corpus::unified;
use crate::corpus::unified_laws;

verus! {

/// The filler of every remainder is well formed.
pub proof fn lemma_filler_well_formed(remainder: nat)
    ensures
        sentences::all_well_formed(base::filler(remainder)),
{
}

/// Going over a well-formed pool again and again makes a well-formed list.
pub proof fn lemma_cycled_well_formed(pool: Seq<Seq<usize>>, k: nat)
    requires
        pool.len() > 0,
        sentences::all_well_formed(pool),
    ensures
        sentences::all_well_formed(filling::cycled(pool, k)),
{
    let list = filling::cycled(pool, k);
    assert forall|i: int| 0 <= i < list.len() implies sentences::well_formed(#[trigger] list[i]) by {
        let j = i % (pool.len() as int);
        assert(0 <= j < pool.len());
        assert(sentences::well_formed(pool[j]));
    }
}

/// The pre-training corpus is well formed.
pub proof fn lemma_pretrain_well_formed(vocab: Seq<Seq<char>>, target: nat)
    ensures
        sentences::all_well_formed(base::pretrain(vocab, target)),
{
    let pool = unified::base_sentences();
    let lens = base::line_lens(vocab, pool);
    let k = filling::lines_taken(lens, MARGIN as nat, target);
    unified_laws::law_base_sentences();
    lemma_cycled_well_formed(pool, k);
    lemma_filler_well_formed(base::pretrain_missing(vocab, target));
    sentence_laws::lemma_append_well_formed(
        filling::cycled(pool, k),
        base::filler(base::pretrain_missing(vocab, target)),
    );
}

#[verifier::spinoff_prover]
#[verifier::rlimit(60)]
proof fn lemma_dialogue_rows()
    ensures
        sentences::all_well_formed(sentences::rows(ARITHMETIC_DIALOGUES@)),
        sentences::all_well_formed(sentences::rows(DIALOGUE_FACTS@)),
        sentences::all_well_formed(sentences::rows(SPECIES_DIALOGUES@)),
        sentences::all_well_formed(sentences::rows(MISMATCH_DIALOGUES@)),
        sentences::all_well_formed(sentences::rows(KINSHIP_DIALOGUES@)),
        sentences::all_well_formed(sentences::rows(IDENTITY_DIALOGUES@)),
{
}

#[verifier::spinoff_prover]
#[verifier::rlimit(60)]
proof fn lemma_replayed_rows()
    ensures
        sentences::all_well_formed(sentences::rows(REPLAYED_EQUATIONS@)),
        sentences::all_well_formed(sentences::rows(REPLAYED_FACTS@)),
        sentences::all_well_formed(sentences::rows(REPLAYED_DEFINITIONS@)),
        sentences::all_well_formed(sentences::rows(REPLAYED_MIX@)),
{
}

proof fn lemma_append(a: Seq<Seq<usize>>, b: Seq<Seq<usize>>)
    requires
        sentences::all_well_formed(a),
        sentences::all_well_formed(b),
    ensures
        sentences::all_well_formed(a + b),
        (a + b).len() == a.len() + b.len(),
        (a + b).flatten().len() == a.flatten().len() + b.flatten().len(),
{
    sentence_laws::lemma_append_well_formed(a, b);
    sentence_laws::lemma_append_volume(a, b);
}

/// The instruction corpus: 97 sentences of 686 tokens.
pub proof fn law_instruct_corpus()
    ensures
        sentences::all_well_formed(base::instruct()),
        base::instruct().len() == 97,
        base::instruct().flatten().len() == 686,
{
    lemma_dialogue_rows();
    lemma_replayed_rows();
    let l0 = sentences::rows(ARITHMETIC_DIALOGUES@);
    let facts = filling::cycled(sentences::rows(DIALOGUE_FACTS@), 12);
    let species = filling::cycled(sentences::rows(SPECIES_DIALOGUES@), 6);
    let kinship = filling::cycled(sentences::rows(KINSHIP_DIALOGUES@), 8);
    lemma_cycled_well_formed(sentences::rows(DIALOGUE_FACTS@), 12);
    lemma_cycled_well_formed(sentences::rows(SPECIES_DIALOGUES@), 6);
    lemma_cycled_well_formed(sentences::rows(KINSHIP_DIALOGUES@), 8);
    sentence_laws::lemma_uniform_volume(facts, 8);
    sentence_laws::lemma_uniform_volume(species, 7);
    sentence_laws::lemma_uniform_volume(kinship, 7);
    sentence_laws::lemma_rows_volume(ARITHMETIC_DIALOGUES@);
    sentence_laws::lemma_rows_volume(MISMATCH_DIALOGUES@);
    sentence_laws::lemma_rows_volume(IDENTITY_DIALOGUES@);
    sentence_laws::lemma_rows_volume(REPLAYED_EQUATIONS@);
    sentence_laws::lemma_rows_volume(REPLAYED_FACTS@);
    sentence_laws::lemma_rows_volume(REPLAYED_DEFINITIONS@);
    sentence_laws::lemma_rows_volume(REPLAYED_MIX@);
    lemma_append(l0, facts);
    let l1 = l0 + facts;
    lemma_append(l1, species);
    let l2 = l1 + species;
    lemma_append(l2, sentences::rows(MISMATCH_DIALOGUES@));
    let l3 = l2 + sentences::rows(MISMATCH_DIALOGUES@);
    lemma_append(l3, kinship);
    let l4 = l3 + kinship;
    lemma_append(l4, sentences::rows(IDENTITY_DIALOGUES@));
    let l5 = l4 + sentences::rows(IDENTITY_DIALOGUES@);
    lemma_append(l5, sentences::rows(REPLAYED_EQUATIONS@));
    let l6 = l5 + sentences::rows(REPLAYED_EQUATIONS@);
    lemma_append(l6, sentences::rows(REPLAYED_FACTS@));
    let l7 = l6 + sentences::rows(REPLAYED_FACTS@);
    lemma_append(l7, sentences::rows(REPLAYED_DEFINITIONS@));
    let l8 = l7 + sentences::rows(REPLAYED_DEFINITIONS@);
    lemma_append(l8, sentences::rows(REPLAYED_MIX@));
}

/// Going over a pool again and again uses no other words.
pub proof fn lemma_cycled_within(pool: Seq<Seq<usize>>, k: nat, size: nat)
    requires
        pool.len() > 0,
        sentence_laws::within(pool, size),
    ensures
        sentence_laws::within(filling::cycled(pool, k), size),
{
    let list = filling::cycled(pool, k);
    assert forall|i: int| 0 <= i < list.len() implies tokenizer::in_vocab(
        #[trigger] list[i],
        size,
    ) by {
        let j = i % (pool.len() as int);
        assert(0 <= j < pool.len());
        assert(tokenizer::in_vocab(pool[j], size));
    }
}

#[verifier::spinoff_prover]
#[verifier::rlimit(60)]
proof fn lemma_instruct_within()
    ensures
        sentence_laws::within(base::instruct(), 21),
{
    let l0 = sentences::rows(ARITHMETIC_DIALOGUES@);
    let facts = filling::cycled(sentences::rows(DIALOGUE_FACTS@), 12);
    let species = filling::cycled(sentences::rows(SPECIES_DIALOGUES@), 6);
    let kinship = filling::cycled(sentences::rows(KINSHIP_DIALOGUES@), 8);
    lemma_cycled_within(sentences::rows(DIALOGUE_FACTS@), 12, 21);
    lemma_cycled_within(sentences::rows(SPECIES_DIALOGUES@), 6, 21);
    lemma_cycled_within(sentences::rows(KINSHIP_DIALOGUES@), 8, 21);
    let l1 = l0 + facts;
    let l2 = l1 + species;
    let l3 = l2 + sentences::rows(MISMATCH_DIALOGUES@);
    let l4 = l3 + kinship;
    let l5 = l4 + sentences::rows(IDENTITY_DIALOGUES@);
    let l6 = l5 + sentences::rows(REPLAYED_EQUATIONS@);
    let l7 = l6 + sentences::rows(REPLAYED_FACTS@);
    let l8 = l7 + sentences::rows(REPLAYED_DEFINITIONS@);
    sentence_laws::lemma_append_within(l0, facts, 21);
    sentence_laws::lemma_append_within(l1, species, 21);
    sentence_laws::lemma_append_within(l2, sentences::rows(MISMATCH_DIALOGUES@), 21);
    sentence_laws::lemma_append_within(l3, kinship, 21);
    sentence_laws::lemma_append_within(l4, sentences::rows(IDENTITY_DIALOGUES@), 21);
    sentence_laws::lemma_append_within(l5, sentences::rows(REPLAYED_EQUATIONS@), 21);
    sentence_laws::lemma_append_within(l6, sentences::rows(REPLAYED_FACTS@), 21);
    sentence_laws::lemma_append_within(l7, sentences::rows(REPLAYED_DEFINITIONS@), 21);
    sentence_laws::lemma_append_within(l8, sentences::rows(REPLAYED_MIX@), 21);
}

/// Every vocabulary that begins the Chinchilla vocabulary and has the 21 tokens of the first
/// reads the instruction corpus as 686 tokens.
pub proof fn law_instruct_corpus_encodes(vocab: Seq<Seq<char>>)
    requires
        21 <= vocab.len() <= 65,
        vocab == tokenizer::words(VOCAB_CHINCHILLA@).take(vocab.len() as int),
    ensures
        tokenizer::encoding(vocab, sentences::text_of(base::instruct())).len() == 686,
{
    lemma_instruct_within();
    law_instruct_corpus();
    sentence_laws::law_text_encodes_to_its_sentences(vocab, base::instruct());
}

/// Under a vocabulary that covers a list, its lines have as many tokens as its sentences.
pub proof fn lemma_covered_lens(vocab: Seq<Seq<char>>, list: Seq<Seq<usize>>, m: nat)
    requires
        sentence_laws::covers(vocab, list),
        sentences::all_well_formed(list),
        m <= list.len(),
        forall|i: int| 0 <= i < list.len() ==> (#[trigger] list[i]).len() <= usize::MAX,
    ensures
        forall|i: int|
            0 <= i < list.len() ==> #[trigger] base::line_lens(vocab, list)[i] == list[i].len(),
        filling::partial(base::line_lens(vocab, list), m) == list.take(m as int).flatten().len(),
    decreases m,
{
    let lens = base::line_lens(vocab, list);
    assert forall|i: int| 0 <= i < list.len() implies #[trigger] lens[i] == list[i].len() by {
        sentence_laws::law_line_encodes_to_its_sentence(vocab, list, i, Seq::empty());
    }
    if m == 0 {
        assert(list.take(0).flatten() =~= Seq::<usize>::empty());
    } else {
        let j = (m - 1) as nat;
        lemma_covered_lens(vocab, list, j);
        assert(list.take(m as int) =~= list.take(j as int).push(list[j as int]));
        list.take(j as int).lemma_flatten_push(list[j as int]);
        assert(lens[j as int] == list[j as int].len());
    }
}

/// Under a vocabulary that covers a pool, going over it again and again takes the tokens that
/// filling counts.
pub proof fn lemma_cycled_volume(vocab: Seq<Seq<char>>, pool: Seq<Seq<usize>>, k: nat)
    requires
        pool.len() > 0,
        sentence_laws::covers(vocab, pool),
        sentences::all_well_formed(pool),
        forall|i: int| 0 <= i < pool.len() ==> (#[trigger] pool[i]).len() <= usize::MAX,
    ensures
        filling::cycled(pool, k).flatten().len() == filling::prefix(
            base::line_lens(vocab, pool),
            k,
        ),
    decreases k,
{
    let lens = base::line_lens(vocab, pool);
    let list = filling::cycled(pool, k);
    if k == 0 {
        assert(list.flatten() =~= Seq::<usize>::empty());
        assert(0 * filling::total(lens) == 0);
    } else {
        let j = (k - 1) as nat;
        let r = (j % pool.len()) as int;
        lemma_cycled_volume(vocab, pool, j);
        filling::lemma_prefix_step(lens, j);
        lemma_covered_lens(vocab, pool, 0);
        assert(lens[r] == pool[r].len());
        assert(list =~= filling::cycled(pool, j).push(pool[r]));
        filling::cycled(pool, j).lemma_flatten_push(pool[r]);
    }
}

/// The fillers are as long as what is missing, but for two remainders.
pub proof fn lemma_filler_volume(remainder: nat)
    requires
        4 <= remainder <= 25,
    ensures
        base::filler(remainder).flatten().len() == (if remainder == 21 {
            24
        } else if remainder == 22 {
            23
        } else {
            remainder
        }),
        sentence_laws::within(base::filler(remainder), 21),
        forall|i: int|
            0 <= i < base::filler(remainder).len() ==> (#[trigger] base::filler(remainder)[i]).len()
                <= 7,
{
    let list = base::filler(remainder);
    reveal_with_fuel(Seq::<_>::flatten, 5);
    assert(list.drop_first().len() == list.len() - 1);
    if list.len() >= 2 {
        assert(list.drop_first()[0] == list[1]);
        if list.len() >= 3 {
            assert(list.drop_first().drop_first()[0] == list[2]);
            if list.len() >= 4 {
                assert(list.drop_first().drop_first().drop_first()[0] == list[3]);
            }
        }
    }
}

/// Under a vocabulary that begins the Chinchilla vocabulary and has the 21 tokens of the first, a
/// pre-training text exists exactly where the pool leaves 4 to 25 tokens missing, but for 21 and
/// 22.
pub proof fn law_pretrain_corpus_exists(vocab: Seq<Seq<char>>, target: nat)
    requires
        21 <= vocab.len() <= 65,
        vocab == tokenizer::words(VOCAB_CHINCHILLA@).take(vocab.len() as int),
    ensures
        base::pretrain_exists(vocab, target) <==> {
            let lens = base::line_lens(vocab, unified::base_sentences());
            let rest = base::pretrain_missing(vocab, target);
            filling::fillable(lens, MARGIN as nat, target) && 4 <= rest <= 25 && rest != 21 && rest
                != 22
        },
{
    let pool = unified::base_sentences();
    let lens = base::line_lens(vocab, pool);
    let rest = base::pretrain_missing(vocab, target);
    let fillers = base::filler(rest);
    if filling::fillable(lens, MARGIN as nat, target) && 4 <= rest <= 25 {
        let k = filling::lines_taken(lens, MARGIN as nat, target);
        assert(filling::fills(lens, MARGIN as nat, target, k));
        unified_laws::law_base_sentences();
        unified_laws::lemma_base_within();
        lemma_filler_well_formed(rest);
        lemma_filler_volume(rest);
        lemma_covered_lens(vocab, fillers, fillers.len());
        assert(fillers.take(fillers.len() as int) =~= fillers);
        lemma_cycled_volume(vocab, pool, k);
        lemma_cycled_within(pool, k, 21);
        let list = base::pretrain(vocab, target);
        sentence_laws::lemma_append_within(filling::cycled(pool, k), fillers, 21);
        sentence_laws::lemma_append_volume(filling::cycled(pool, k), fillers);
        sentence_laws::law_text_encodes_to_its_sentences(vocab, list);
    }
}

/// The equations of a drill have six tokens each.
proof fn lemma_equation_lens(domain: Domain, n: int, k: nat)
    ensures
        forall|i: int|
            0 <= i < drills::drill(domain, Form::Equation, n, k).len() ==> (
            #[trigger] drills::drill(domain, Form::Equation, n, k)[i]).len() == 6,
    decreases k,
{
    let list = drills::drill(domain, Form::Equation, n, k);
    if k > 0 {
        let before = drills::drill(domain, Form::Equation, n, (k - 1) as nat);
        lemma_equation_lens(domain, n, (k - 1) as nat);
        assert forall|i: int| 0 <= i < list.len() implies (#[trigger] list[i]).len() == 6 by {
            if i < before.len() {
                assert(list[i] == before[i]);
            }
        }
    }
}

/// The sum of equal lengths.
proof fn lemma_equal_lens(lens: Seq<usize>, len: usize, m: nat)
    requires
        forall|i: int| 0 <= i < m ==> lens[i] == len,
    ensures
        filling::partial(lens, m) == m * len,
    decreases m,
{
    if m > 0 {
        lemma_equal_lens(lens, len, (m - 1) as nat);
        assert(m * len == (m - 1) * len + len) by (nonlinear_arith);
    }
}

/// The first sixteen lines of the base pool are equations, and all its lines have 460 tokens.
proof fn lemma_base_lens(vocab: Seq<Seq<char>>)
    requires
        vocab == tokenizer::words(VOCAB_V3@),
    ensures
        ({
            let lens = base::line_lens(vocab, unified::base_sentences());
            &&& lens.len() == 78
            &&& filling::total(lens) == 460
            &&& filling::partial(lens, 15) == 90
            &&& filling::partial(lens, 16) == 96
        }),
{
    let pool = unified::base_sentences();
    let lens = base::line_lens(vocab, pool);
    tokenizer_laws::law_vocabularies_are_backward_compatible();
    unified_laws::law_base_sentences();
    unified_laws::lemma_base_within();
    lemma_covered_lens(vocab, pool, 78);
    assert(pool.take(78) =~= pool);
    lemma_equation_lens(unified::small_sums(), 6, 36);
    drill_laws::lemma_small_counts();
    drill_laws::law_drill_volume(unified::small_sums(), Form::Equation, 6, 36);
    assert forall|i: int| 0 <= i < 16 implies lens[i] == 6 by {
        assert(pool[i] == drills::drill(unified::small_sums(), Form::Equation, 6, 36)[i]);
    }
    lemma_equal_lens(lens, 6, 15);
    lemma_equal_lens(lens, 6, 16);
}

/// The target that the base pre-training text is built for, 10240 tokens, is met under the third
/// vocabulary.
pub proof fn law_base_pretrain_corpus_exists()
    ensures
        base::pretrain_exists(tokenizer::words(VOCAB_V3@), 10240),
{
    let vocab = tokenizer::words(VOCAB_V3@);
    let lens = base::line_lens(vocab, unified::base_sentences());
    tokenizer_laws::law_vocabularies_are_backward_compatible();
    lemma_base_lens(vocab);
    assert(filling::prefix(lens, 1731) == 22 * 460 + 15 * 6);
    assert(filling::prefix(lens, 1732) == 22 * 460 + 16 * 6);
    assert forall|j: nat| j < 1732 implies #[trigger] filling::prefix(lens, j) + MARGIN < 10240 by {
        filling::lemma_prefix_monotone(lens, j, 1731);
    }
    assert(filling::fills(lens, MARGIN as nat, 10240, 1732));
    filling::lemma_fills_once(
        lens,
        MARGIN as nat,
        10240,
        1732,
        filling::lines_taken(lens, MARGIN as nat, 10240),
    );
    law_pretrain_corpus_exists(vocab, 10240);
}

} // verus!
