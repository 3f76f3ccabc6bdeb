//! The unified corpora: equations, facts, relations and dialogues, each sentence once.

use vstd::prelude::*;

use crate::classic::tokenizer::Tokenizer;
use crate::classic::tokenizer;
use crate::corpus::drills::{Domain, Form};
use crate::corpus::drills;
use crate::corpus::sentences;
use crate::corpus::unified_laws;
use crate::corpus::words::{
    ANIMAL, BEAST, BIRD, BOT, CAT, D0, D1, D2, D3, D4, D5, D6, D7, D8, D9, DOG, EOS, EQUALS,
    FISH, FOE, FOREST, FOX, FRIEND, HARE, HOME, HUMAN, IS, NO, PREDATOR, RIVER, SKY, USER,
    WHERE, WHO, WOLF, YES,
};
use crate::text;

verus! {

/// What the cat and the dog are.
pub const FACTS: [[usize; 4]; 4] = [
    [CAT, IS, ANIMAL, EOS],
    [DOG, IS, ANIMAL, EOS],
    [DOG, IS, FRIEND, EOS],
    [CAT, IS, FRIEND, EOS],
];

/// Who the cat and the dog are, in full sentences.
pub const DEFINITIONS: [[usize; 7]; 4] = [
    [WHO, CAT, EQUALS, CAT, IS, ANIMAL, EOS],
    [WHO, DOG, EQUALS, DOG, IS, ANIMAL, EOS],
    [WHO, CAT, EQUALS, CAT, IS, FRIEND, EOS],
    [WHO, DOG, EQUALS, DOG, IS, FRIEND, EOS],
];

/// Who the cat and the dog are, in one word.
pub const SHORT_DEFINITIONS: [[usize; 5]; 4] = [
    [WHO, CAT, EQUALS, ANIMAL, EOS],
    [WHO, DOG, EQUALS, ANIMAL, EOS],
    [WHO, CAT, EQUALS, FRIEND, EOS],
    [WHO, DOG, EQUALS, FRIEND, EOS],
];

/// Relations with their truth values.
pub const LOGIC: [[usize; 6]; 24] = [
    [CAT, IS, DOG, EQUALS, NO, EOS],
    [DOG, IS, CAT, EQUALS, NO, EOS],
    [CAT, IS, ANIMAL, EQUALS, YES, EOS],
    [DOG, IS, ANIMAL, EQUALS, YES, EOS],
    [DOG, IS, FRIEND, EQUALS, YES, EOS],
    [CAT, IS, FRIEND, EQUALS, YES, EOS],
    [ANIMAL, IS, CAT, EQUALS, YES, EOS],
    [ANIMAL, IS, DOG, EQUALS, YES, EOS],
    [FRIEND, IS, DOG, EQUALS, YES, EOS],
    [FRIEND, IS, CAT, EQUALS, YES, EOS],
    [CAT, IS, D0, EQUALS, NO, EOS],
    [DOG, IS, D1, EQUALS, NO, EOS],
    [CAT, IS, D2, EQUALS, NO, EOS],
    [DOG, IS, D3, EQUALS, NO, EOS],
    [D1, IS, D2, EQUALS, NO, EOS],
    [D2, IS, D3, EQUALS, NO, EOS],
    [D3, IS, D4, EQUALS, NO, EOS],
    [D4, IS, D5, EQUALS, NO, EOS],
    [D0, IS, D0, EQUALS, YES, EOS],
    [D1, IS, D1, EQUALS, YES, EOS],
    [D2, IS, D2, EQUALS, YES, EOS],
    [D3, IS, D3, EQUALS, YES, EOS],
    [D4, IS, D4, EQUALS, YES, EOS],
    [D5, IS, D5, EQUALS, YES, EOS],
];

/// Who the cat and the dog are, as dialogues.
pub const DIALOGUE_FACTS: [[usize; 8]; 2] = [
    [USER, WHO, CAT, BOT, CAT, IS, ANIMAL, EOS],
    [USER, WHO, DOG, BOT, DOG, IS, FRIEND, EOS],
];

/// Relations with their truth values, as dialogues.
pub const DIALOGUE_LOGIC: [[usize; 7]; 24] = [
    [USER, CAT, IS, DOG, BOT, NO, EOS],
    [USER, DOG, IS, CAT, BOT, NO, EOS],
    [USER, CAT, IS, ANIMAL, BOT, YES, EOS],
    [USER, DOG, IS, ANIMAL, BOT, YES, EOS],
    [USER, DOG, IS, FRIEND, BOT, YES, EOS],
    [USER, CAT, IS, FRIEND, BOT, YES, EOS],
    [USER, ANIMAL, IS, CAT, BOT, YES, EOS],
    [USER, ANIMAL, IS, DOG, BOT, YES, EOS],
    [USER, FRIEND, IS, DOG, BOT, YES, EOS],
    [USER, FRIEND, IS, CAT, BOT, YES, EOS],
    [USER, CAT, IS, D0, BOT, NO, EOS],
    [USER, DOG, IS, D1, BOT, NO, EOS],
    [USER, CAT, IS, D2, BOT, NO, EOS],
    [USER, DOG, IS, D3, BOT, NO, EOS],
    [USER, D1, IS, D2, BOT, NO, EOS],
    [USER, D2, IS, D3, BOT, NO, EOS],
    [USER, D3, IS, D4, BOT, NO, EOS],
    [USER, D4, IS, D5, BOT, NO, EOS],
    [USER, D0, IS, D0, BOT, YES, EOS],
    [USER, D1, IS, D1, BOT, YES, EOS],
    [USER, D2, IS, D2, BOT, YES, EOS],
    [USER, D3, IS, D3, BOT, YES, EOS],
    [USER, D4, IS, D4, BOT, YES, EOS],
    [USER, D5, IS, D5, BOT, YES, EOS],
];

/// The factors of the multiplication drill.
pub const FACTORS: [[usize; 2]; 24] = [
    [1, 1], [1, 2], [1, 3], [1, 4], [1, 5], [1, 6], [1, 7], [1, 8], [1, 9], [2, 1], [2, 2],
    [2, 3], [2, 4], [3, 1], [3, 2], [3, 3], [4, 1], [4, 2], [5, 1], [6, 1], [7, 1], [8, 1],
    [9, 1], [0, 3],
];

/// Where each creature lives.
pub const HABITATS: [[usize; 2]; 8] = [
    [WOLF, FOREST],
    [FOX, FOREST],
    [HARE, FOREST],
    [FISH, RIVER],
    [BIRD, SKY],
    [CAT, HOME],
    [DOG, HOME],
    [HUMAN, HOME],
];

/// What each creature is.
pub const TAXONOMY_FACTS: [[usize; 4]; 12] = [
    [WOLF, IS, BEAST, EOS],
    [FOX, IS, PREDATOR, EOS],
    [BIRD, IS, ANIMAL, EOS],
    [FISH, IS, ANIMAL, EOS],
    [HUMAN, IS, FRIEND, EOS],
    [WOLF, IS, FOE, EOS],
    [HARE, IS, BEAST, EOS],
    [WOLF, IS, PREDATOR, EOS],
    [FOX, IS, BEAST, EOS],
    [HARE, IS, ANIMAL, EOS],
    [WOLF, IS, ANIMAL, EOS],
    [FOX, IS, ANIMAL, EOS],
];

/// Who each creature is, in one word.
pub const TAXONOMY_SHORT_DEFINITIONS: [[usize; 5]; 6] = [
    [WHO, WOLF, EQUALS, BEAST, EOS],
    [WHO, FOX, EQUALS, PREDATOR, EOS],
    [WHO, HARE, EQUALS, BEAST, EOS],
    [WHO, FISH, EQUALS, ANIMAL, EOS],
    [WHO, BIRD, EQUALS, ANIMAL, EOS],
    [WHO, HUMAN, EQUALS, FRIEND, EOS],
];

/// Who each creature is, in full sentences.
pub const TAXONOMY_DEFINITIONS: [[usize; 7]; 6] = [
    [WHO, WOLF, EQUALS, WOLF, IS, BEAST, EOS],
    [WHO, FOX, EQUALS, FOX, IS, PREDATOR, EOS],
    [WHO, HARE, EQUALS, HARE, IS, BEAST, EOS],
    [WHO, FISH, EQUALS, FISH, IS, ANIMAL, EOS],
    [WHO, BIRD, EQUALS, BIRD, IS, ANIMAL, EOS],
    [WHO, HUMAN, EQUALS, HUMAN, IS, FRIEND, EOS],
];

/// Who each creature is, as dialogues.
pub const TAXONOMY_DIALOGUES: [[usize; 8]; 6] = [
    [USER, WHO, WOLF, BOT, WOLF, IS, BEAST, EOS],
    [USER, WHO, FOX, BOT, FOX, IS, PREDATOR, EOS],
    [USER, WHO, HARE, BOT, HARE, IS, BEAST, EOS],
    [USER, WHO, FISH, BOT, FISH, IS, ANIMAL, EOS],
    [USER, WHO, BIRD, BOT, BIRD, IS, ANIMAL, EOS],
    [USER, WHO, HUMAN, BOT, HUMAN, IS, FRIEND, EOS],
];

/// Relations that hold.
pub const AFFIRMATIONS: [[usize; 2]; 16] = [
    [WOLF, BEAST],
    [FOX, PREDATOR],
    [FISH, ANIMAL],
    [HUMAN, FRIEND],
    [WOLF, PREDATOR],
    [WOLF, FOE],
    [BIRD, ANIMAL],
    [HARE, BEAST],
    [FOX, BEAST],
    [HARE, ANIMAL],
    [WOLF, ANIMAL],
    [FOX, ANIMAL],
    [D6, D6],
    [D7, D7],
    [D8, D8],
    [D9, D9],
];

/// Relations that do not hold.
pub const NEGATIONS: [[usize; 2]; 16] = [
    [WOLF, DOG],
    [FOX, CAT],
    [FISH, BIRD],
    [BIRD, FISH],
    [HARE, PREDATOR],
    [FISH, PREDATOR],
    [HUMAN, FOE],
    [HUMAN, BEAST],
    [CAT, FISH],
    [DOG, BIRD],
    [WOLF, HARE],
    [FOX, HARE],
    [D5, D6],
    [D6, D7],
    [D7, D8],
    [D8, D9],
];

/// The sums that do not exceed five.
pub open spec fn small_sums() -> Domain {
    Domain::Sums { low: 0, high: 5 }
}

/// The differences of any minuend.
pub open spec fn differences() -> Domain {
    Domain::Differences { low: 0 }
}

/// The sums from six to nine.
pub open spec fn large_sums() -> Domain {
    Domain::Sums { low: 6, high: 9 }
}

/// The differences of minuends from six on.
pub open spec fn large_differences() -> Domain {
    Domain::Differences { low: 6 }
}

/// The statements that hold without a dialogue: equations up to five, facts and relations.
pub open spec fn base_sentences() -> Seq<Seq<usize>> {
    drills::drill(small_sums(), Form::Equation, 6, 36) + drills::drill(
        differences(),
        Form::Equation,
        6,
        36,
    ) + sentences::rows(FACTS@) + sentences::rows(DEFINITIONS@) + sentences::rows(
        SHORT_DEFINITIONS@,
    ) + sentences::rows(LOGIC@)
}

/// The sentences of the unified corpus: the base statements, then the dialogues.
pub open spec fn unified() -> Seq<Seq<usize>> {
    base_sentences() + drills::drill(small_sums(), Form::Dialogue, 6, 36) + drills::drill(
        differences(),
        Form::Dialogue,
        6,
        36,
    ) + sentences::rows(DIALOGUE_FACTS@) + sentences::rows(DIALOGUE_LOGIC@)
}

/// The product equation and dialogue of each pair of factors.
pub open spec fn products() -> Seq<Seq<usize>> {
    Seq::new(
        48,
        |i: int|
            if i % 2 == 0 {
                drills::equation(Domain::Products, FACTORS[i / 2][0] as int, FACTORS[i / 2][1] as int)
            } else {
                drills::dialogue(Domain::Products, FACTORS[i / 2][0] as int, FACTORS[i / 2][1] as int)
            },
    )
}

/// The statement and the dialogue of each habitat.
pub open spec fn habitats() -> Seq<Seq<usize>> {
    Seq::new(
        16,
        |i: int|
            if i % 2 == 0 {
                seq![WHERE, HABITATS[i / 2][0], EQUALS, HABITATS[i / 2][1], EOS]
            } else {
                seq![USER, WHERE, HABITATS[i / 2][0], BOT, HABITATS[i / 2][1], EOS]
            },
    )
}

/// The statement and the dialogue of each relation of a table, with the given answer.
pub open spec fn relations(table: Seq<[usize; 2]>, answer: usize) -> Seq<Seq<usize>> {
    Seq::new(
        2 * table.len(),
        |i: int|
            if i % 2 == 0 {
                seq![table[i / 2][0], IS, table[i / 2][1], EQUALS, answer, EOS]
            } else {
                seq![USER, table[i / 2][0], IS, table[i / 2][1], BOT, answer, EOS]
            },
    )
}

/// The sentences of the second unified corpus: those of the first, then the larger numbers, the
/// products, and the wider world of creatures.
pub open spec fn unified_v2() -> Seq<Seq<usize>> {
    unified() + drills::drill(large_sums(), Form::EquationAndDialogue, 10, 100) + drills::drill(
        large_differences(),
        Form::EquationAndDialogue,
        10,
        100,
    ) + products() + habitats() + sentences::rows(TAXONOMY_FACTS@) + sentences::rows(
        TAXONOMY_SHORT_DEFINITIONS@,
    ) + sentences::rows(TAXONOMY_DEFINITIONS@) + sentences::rows(TAXONOMY_DIALOGUES@) + relations(
        AFFIRMATIONS@,
        YES,
    ) + relations(NEGATIONS@, NO)
}

/// The base statements as token sequences.
pub fn base_statements() -> (list: Vec<Vec<usize>>)
    ensures
        sentences::deep(list@) == base_sentences(),
{
    let mut list: Vec<Vec<usize>> = Vec::new();
    drills::push_drill(&mut list, Domain::Sums { low: 0, high: 5 }, Form::Equation, 6);
    drills::push_drill(&mut list, Domain::Differences { low: 0 }, Form::Equation, 6);
    sentences::push_rows(&mut list, &FACTS);
    sentences::push_rows(&mut list, &DEFINITIONS);
    sentences::push_rows(&mut list, &SHORT_DEFINITIONS);
    sentences::push_rows(&mut list, &LOGIC);
    assert(sentences::deep(list@) =~= base_sentences());
    list
}

/// The sentences of the unified corpus as token sequences.
pub fn unified_statements() -> (list: Vec<Vec<usize>>)
    ensures
        sentences::deep(list@) == unified(),
{
    let mut list: Vec<Vec<usize>> = base_statements();
    drills::push_drill(&mut list, Domain::Sums { low: 0, high: 5 }, Form::Dialogue, 6);
    drills::push_drill(&mut list, Domain::Differences { low: 0 }, Form::Dialogue, 6);
    sentences::push_rows(&mut list, &DIALOGUE_FACTS);
    sentences::push_rows(&mut list, &DIALOGUE_LOGIC);
    assert(sentences::deep(list@) =~= unified());
    list
}

/// The factors are digits, and so are their products.
pub proof fn lemma_factors(i: int)
    requires
        0 <= i < 24,
    ensures
        FACTORS[i][0] <= 9,
        FACTORS[i][1] <= 9,
        FACTORS[i][0] * FACTORS[i][1] <= 9,
{
    let a = FACTORS[i][0];
    let b = FACTORS[i][1];
    assert(a <= 9 && b <= 9);
    assert(a <= 1 || b <= 1 || (a <= 2 && b <= 4) || (a <= 4 && b <= 2) || (a <= 3 && b <= 3));
    assert(a * b <= 9) by (nonlinear_arith)
        requires
            a <= 9,
            b <= 9,
            a <= 1 || b <= 1 || (a <= 2 && b <= 4) || (a <= 4 && b <= 2) || (a <= 3 && b <= 3),
    ;
}

fn push_products(list: &mut Vec<Vec<usize>>)
    ensures
        sentences::deep(final(list)@) == sentences::deep(old(list)@) + products(),
{
    let ghost before = sentences::deep(list@);
    for i in 0..24
        invariant
            sentences::deep(list@) == before + products().take(2 * i),
    {
        let a: usize = FACTORS[i][0];
        let b: usize = FACTORS[i][1];
        proof {
            lemma_factors(i as int);
        }
        drills::push_drilled(list, Domain::Products, Form::EquationAndDialogue, a, b);
        assert(sentences::deep(list@) =~= before + products().take(2 * (i + 1)));
    }
    assert(products().take(48) =~= products());
}

fn push_habitats(list: &mut Vec<Vec<usize>>)
    ensures
        sentences::deep(final(list)@) == sentences::deep(old(list)@) + habitats(),
{
    let ghost before = sentences::deep(list@);
    for i in 0..8
        invariant
            sentences::deep(list@) == before + habitats().take(2 * i),
    {
        let creature: usize = HABITATS[i][0];
        let place: usize = HABITATS[i][1];
        let statement: Vec<usize> = vec![WHERE, creature, EQUALS, place, EOS];
        let dialogue: Vec<usize> = vec![USER, WHERE, creature, BOT, place, EOS];
        proof {
            sentences::lemma_deep_push(list@, statement);
            sentences::lemma_deep_push(list@.push(statement), dialogue);
        }
        assert(statement@ =~= habitats()[2 * i]);
        assert(dialogue@ =~= habitats()[2 * i + 1]);
        list.push(statement);
        list.push(dialogue);
        assert(sentences::deep(list@) =~= before + habitats().take(2 * (i + 1)));
    }
    assert(habitats().take(16) =~= habitats());
}

fn push_relations<const N: usize>(
    list: &mut Vec<Vec<usize>>,
    table: &[[usize; 2]; N],
    answer: usize,
)
    ensures
        sentences::deep(final(list)@) == sentences::deep(old(list)@) + relations(table@, answer),
{
    let ghost before = sentences::deep(list@);
    for i in 0..N
        invariant
            sentences::deep(list@) == before + relations(table@, answer).take(2 * i),
    {
        let subject: usize = table[i][0];
        let object: usize = table[i][1];
        let statement: Vec<usize> = vec![subject, IS, object, EQUALS, answer, EOS];
        let dialogue: Vec<usize> = vec![USER, subject, IS, object, BOT, answer, EOS];
        proof {
            sentences::lemma_deep_push(list@, statement);
            sentences::lemma_deep_push(list@.push(statement), dialogue);
        }
        assert(statement@ =~= relations(table@, answer)[2 * i]);
        assert(dialogue@ =~= relations(table@, answer)[2 * i + 1]);
        list.push(statement);
        list.push(dialogue);
        assert(sentences::deep(list@) =~= before + relations(table@, answer).take(2 * (i + 1)));
    }
    assert(relations(table@, answer).take(2 * N) =~= relations(table@, answer));
}

/// The sentences of the second unified corpus as token sequences.
pub fn unified_v2_statements() -> (list: Vec<Vec<usize>>)
    ensures
        sentences::deep(list@) == unified_v2(),
{
    let mut list: Vec<Vec<usize>> = unified_statements();
    let form: Form = Form::EquationAndDialogue;
    drills::push_drill(&mut list, Domain::Sums { low: 6, high: 9 }, form, 10);
    drills::push_drill(&mut list, Domain::Differences { low: 6 }, form, 10);
    push_products(&mut list);
    push_habitats(&mut list);
    sentences::push_rows(&mut list, &TAXONOMY_FACTS);
    sentences::push_rows(&mut list, &TAXONOMY_SHORT_DEFINITIONS);
    sentences::push_rows(&mut list, &TAXONOMY_DEFINITIONS);
    sentences::push_rows(&mut list, &TAXONOMY_DIALOGUES);
    push_relations(&mut list, &AFFIRMATIONS, YES);
    push_relations(&mut list, &NEGATIONS, NO);
    assert(sentences::deep(list@) =~= unified_v2());
    list
}

/// The text of a list of sentences.
pub fn text_of_sentences(list: &Vec<Vec<usize>>) -> (text: String)
    requires
        sentences::all_well_formed(sentences::deep(list@)),
    ensures
        text@ == sentences::text_of(sentences::deep(list@)),
{
    let lines: Vec<String> = sentences::spell_lines(list);
    sentences::text_of_lines(&lines)
}

/// The pool of base statements, one line each.
pub fn generate_pretrain_sentences() -> (pool: Vec<String>)
    ensures
        text::views(pool@) == sentences::spelled_all(base_sentences()),
        pool@.len() == 78,
{
    proof {
        unified_laws::law_base_sentences();
    }
    let list: Vec<Vec<usize>> = base_statements();
    let pool: Vec<String> = sentences::spell_lines(&list);
    assert(text::views(pool@).len() == 78);
    pool
}

/// Builds the unified corpus: its text, its number of lines, and its number of tokens under the
/// given tokenizer.
pub fn build_unified_corpus(tok: &Tokenizer) -> (corpus: (String, usize, usize))
    ensures
        corpus.0@ == sentences::text_of(unified()),
        corpus.1 == unified().len(),
        corpus.1 == 146,
        corpus.2 == tokenizer::encoding(tok@, corpus.0@).len(),
{
    proof {
        unified_laws::law_unified_corpus();
    }
    let list: Vec<Vec<usize>> = unified_statements();
    let text: String = text_of_sentences(&list);
    let tokens: usize = tok.encode(text.as_str()).len();
    (text, list.len(), tokens)
}

/// The token numbers that the second unified corpus and the first one inside it must have.
pub open spec fn v2_volume_holds(vocab: Seq<Seq<char>>) -> bool {
    &&& tokenizer::encoding(vocab, sentences::text_of(unified())).len() == 980
    &&& tokenizer::encoding(vocab, sentences::text_of(unified_v2())).len() == 2940
}

/// Builds the second unified corpus: its text, its number of lines and its number of tokens.
/// There is none under a tokenizer for which the first corpus does not have 980 tokens, or this
/// one three times as many.
pub fn build_unified_corpus_v2(tok: &Tokenizer) -> (corpus: Option<(String, usize, usize)>)
    ensures
        corpus is Some <==> v2_volume_holds(tok@),
        corpus matches Some((text, lines, tokens)) ==> text@ == sentences::text_of(unified_v2())
            && lines == unified_v2().len() && lines == 440 && tokens == 2940,
{
    proof {
        unified_laws::law_unified_corpus_v2();
    }
    let (_, _, base_tokens) = build_unified_corpus(tok);
    if base_tokens != 980 {
        return None;
    }
    let list: Vec<Vec<usize>> = unified_v2_statements();
    let text: String = text_of_sentences(&list);
    let tokens: usize = tok.encode(text.as_str()).len();
    if tokens != 2940 {
        return None;
    }
    Some((text, list.len(), tokens))
}

} // verus!
