//! The base corpora: a pre-training text of a given number of tokens, and a small instruction
//! text.

use vstd::prelude::*;

use crate::classic::tokenizer::Tokenizer;
use crate::classic::tokenizer;
use crate::corpus::base_laws;
use crate::corpus::filling;
use crate::corpus::sentences;
use crate::corpus::unified::DIALOGUE_FACTS;
use crate::corpus::unified;
use crate::corpus::unified_laws;
use crate::corpus::words::{
    ANIMAL, BOT, CAT, D0, D1, D2, D3, D4, D5, DOG, EOS, EQUALS, FRIEND, IS, MINUS, NO, PLUS,
    USER, WHO, YES,
};
use crate::text;

verus! {

/// How far below its target the pre-training text is filled from the pool.
pub const MARGIN: usize = 25;

/// Sums and differences as dialogues.
pub const ARITHMETIC_DIALOGUES: [[usize; 8]; 31] = [
    [USER, D0, PLUS, D1, EQUALS, BOT, D1, EOS],
    [USER, D1, PLUS, D1, EQUALS, BOT, D2, EOS],
    [USER, D1, PLUS, D2, EQUALS, BOT, D3, EOS],
    [USER, D2, PLUS, D1, EQUALS, BOT, D3, EOS],
    [USER, D2, PLUS, D2, EQUALS, BOT, D4, EOS],
    [USER, D2, PLUS, D3, EQUALS, BOT, D5, EOS],
    [USER, D2, PLUS, D3, EQUALS, BOT, D5, EOS],
    [USER, D3, PLUS, D2, EQUALS, BOT, D5, EOS],
    [USER, D3, PLUS, D1, EQUALS, BOT, D4, EOS],
    [USER, D4, PLUS, D1, EQUALS, BOT, D5, EOS],
    [USER, D1, PLUS, D4, EQUALS, BOT, D5, EOS],
    [USER, D0, PLUS, D5, EQUALS, BOT, D5, EOS],
    [USER, D2, PLUS, D0, EQUALS, BOT, D2, EOS],
    [USER, D3, PLUS, D0, EQUALS, BOT, D3, EOS],
    [USER, D1, PLUS, D3, EQUALS, BOT, D4, EOS],
    [USER, D5, MINUS, D0, EQUALS, BOT, D5, EOS],
    [USER, D5, MINUS, D1, EQUALS, BOT, D4, EOS],
    [USER, D5, MINUS, D2, EQUALS, BOT, D3, EOS],
    [USER, D5, MINUS, D3, EQUALS, BOT, D2, EOS],
    [USER, D5, MINUS, D4, EQUALS, BOT, D1, EOS],
    [USER, D5, MINUS, D5, EQUALS, BOT, D0, EOS],
    [USER, D4, MINUS, D0, EQUALS, BOT, D4, EOS],
    [USER, D4, MINUS, D1, EQUALS, BOT, D3, EOS],
    [USER, D4, MINUS, D1, EQUALS, BOT, D3, EOS],
    [USER, D4, MINUS, D2, EQUALS, BOT, D2, EOS],
    [USER, D4, MINUS, D3, EQUALS, BOT, D1, EOS],
    [USER, D3, MINUS, D0, EQUALS, BOT, D3, EOS],
    [USER, D3, MINUS, D1, EQUALS, BOT, D2, EOS],
    [USER, D3, MINUS, D2, EQUALS, BOT, D1, EOS],
    [USER, D2, MINUS, D1, EQUALS, BOT, D1, EOS],
    [USER, D1, MINUS, D1, EQUALS, BOT, D0, EOS],
];

/// The cat is no dog, nor the other way round.
pub const SPECIES_DIALOGUES: [[usize; 7]; 2] = [
    [USER, CAT, IS, DOG, BOT, NO, EOS],
    [USER, DOG, IS, CAT, BOT, NO, EOS],
];

/// Relations between unlike things.
pub const MISMATCH_DIALOGUES: [[usize; 7]; 6] = [
    [USER, CAT, IS, D0, BOT, NO, EOS],
    [USER, DOG, IS, D1, BOT, NO, EOS],
    [USER, D1, IS, D2, BOT, NO, EOS],
    [USER, D2, IS, D3, BOT, NO, EOS],
    [USER, D3, IS, D4, BOT, NO, EOS],
    [USER, D4, IS, D5, BOT, NO, EOS],
];

/// What the cat and the dog are, confirmed.
pub const KINSHIP_DIALOGUES: [[usize; 7]; 4] = [
    [USER, CAT, IS, ANIMAL, BOT, YES, EOS],
    [USER, DOG, IS, ANIMAL, BOT, YES, EOS],
    [USER, CAT, IS, FRIEND, BOT, YES, EOS],
    [USER, DOG, IS, FRIEND, BOT, YES, EOS],
];

/// Every number is itself.
pub const IDENTITY_DIALOGUES: [[usize; 7]; 4] = [
    [USER, D0, IS, D0, BOT, YES, EOS],
    [USER, D1, IS, D1, BOT, YES, EOS],
    [USER, D2, IS, D2, BOT, YES, EOS],
    [USER, D3, IS, D3, BOT, YES, EOS],
];

/// Equations replayed from the base corpus.
pub const REPLAYED_EQUATIONS: [[usize; 6]; 9] = [
    [D1, PLUS, D1, EQUALS, D2, EOS],
    [D2, PLUS, D3, EQUALS, D5, EOS],
    [D3, PLUS, D2, EQUALS, D5, EOS],
    [D4, PLUS, D1, EQUALS, D5, EOS],
    [D5, MINUS, D1, EQUALS, D4, EOS],
    [D5, MINUS, D2, EQUALS, D3, EOS],
    [D4, MINUS, D1, EQUALS, D3, EOS],
    [D3, MINUS, D2, EQUALS, D1, EOS],
    [D2, MINUS, D1, EQUALS, D1, EOS],
];

/// Facts replayed from the base corpus.
pub const REPLAYED_FACTS: [[usize; 4]; 4] = [
    [CAT, IS, ANIMAL, EOS],
    [DOG, IS, ANIMAL, EOS],
    [DOG, IS, FRIEND, EOS],
    [CAT, IS, FRIEND, EOS],
];

/// Definitions replayed from the base corpus.
pub const REPLAYED_DEFINITIONS: [[usize; 7]; 2] = [
    [WHO, CAT, EQUALS, CAT, IS, ANIMAL, EOS],
    [WHO, DOG, EQUALS, DOG, IS, FRIEND, EOS],
];

/// Relations and further equations replayed from the base corpus.
pub const REPLAYED_MIX: [[usize; 6]; 15] = [
    [CAT, IS, DOG, EQUALS, NO, EOS],
    [DOG, IS, CAT, EQUALS, NO, EOS],
    [CAT, IS, ANIMAL, EQUALS, YES, EOS],
    [DOG, IS, ANIMAL, EQUALS, YES, EOS],
    [DOG, IS, FRIEND, EQUALS, YES, EOS],
    [CAT, IS, FRIEND, EQUALS, YES, EOS],
    [D2, PLUS, D2, EQUALS, D4, EOS],
    [D4, MINUS, D2, EQUALS, D2, EOS],
    [D5, MINUS, D3, EQUALS, D2, EOS],
    [D3, PLUS, D1, EQUALS, D4, EOS],
    [D1, PLUS, D2, EQUALS, D3, EOS],
    [D3, MINUS, D1, EQUALS, D2, EOS],
    [D5, MINUS, D5, EQUALS, D0, EOS],
    [D0, PLUS, D0, EQUALS, D0, EOS],
    [D0, PLUS, D3, EQUALS, D3, EOS],
];

pub const CAT_FACT: [usize; 4] = [CAT, IS, ANIMAL, EOS];

pub const CAT_SHORT_DEFINITION: [usize; 5] = [WHO, CAT, EQUALS, ANIMAL, EOS];

pub const ONE_AND_ONE: [usize; 6] = [D1, PLUS, D1, EQUALS, D2, EOS];

pub const CAT_DEFINITION: [usize; 7] = [WHO, CAT, EQUALS, CAT, IS, ANIMAL, EOS];

pub const DOG_FACT: [usize; 4] = [DOG, IS, FRIEND, EOS];

pub const CAT_FRIEND_FACT: [usize; 4] = [CAT, IS, FRIEND, EOS];

pub const TWO_AND_TWO: [usize; 6] = [D2, PLUS, D2, EQUALS, D4, EOS];

pub const DOG_DEFINITION: [usize; 7] = [WHO, DOG, EQUALS, DOG, IS, FRIEND, EOS];

pub const THREE_AND_TWO: [usize; 6] = [D3, PLUS, D2, EQUALS, D5, EOS];

pub const FOUR_LESS_ONE: [usize; 6] = [D4, MINUS, D1, EQUALS, D3, EOS];

pub const FIVE_LESS_ONE: [usize; 6] = [D5, MINUS, D1, EQUALS, D4, EOS];

/// The sentences of the instruction corpus.
pub open spec fn instruct() -> Seq<Seq<usize>> {
    sentences::rows(ARITHMETIC_DIALOGUES@) + filling::cycled(sentences::rows(DIALOGUE_FACTS@), 12)
        + filling::cycled(sentences::rows(SPECIES_DIALOGUES@), 6) + sentences::rows(
        MISMATCH_DIALOGUES@,
    ) + filling::cycled(sentences::rows(KINSHIP_DIALOGUES@), 8) + sentences::rows(
        IDENTITY_DIALOGUES@,
    ) + sentences::rows(REPLAYED_EQUATIONS@) + sentences::rows(REPLAYED_FACTS@) + sentences::rows(
        REPLAYED_DEFINITIONS@,
    ) + sentences::rows(REPLAYED_MIX@)
}

/// The sentences that make up for the tokens still missing.
pub open spec fn filler(remainder: nat) -> Seq<Seq<usize>> {
    if remainder == 4 {
        seq![CAT_FACT@]
    } else if remainder == 5 {
        seq![CAT_SHORT_DEFINITION@]
    } else if remainder == 6 {
        seq![ONE_AND_ONE@]
    } else if remainder == 7 {
        seq![CAT_DEFINITION@]
    } else if remainder == 8 {
        seq![CAT_FACT@, DOG_FACT@]
    } else if remainder == 9 {
        seq![CAT_SHORT_DEFINITION@, CAT_FRIEND_FACT@]
    } else if remainder == 10 {
        seq![ONE_AND_ONE@, CAT_FACT@]
    } else if remainder == 11 {
        seq![ONE_AND_ONE@, CAT_SHORT_DEFINITION@]
    } else if remainder == 12 {
        seq![ONE_AND_ONE@, TWO_AND_TWO@]
    } else if remainder == 13 {
        seq![CAT_DEFINITION@, ONE_AND_ONE@]
    } else if remainder == 14 {
        seq![CAT_DEFINITION@, DOG_DEFINITION@]
    } else if remainder == 15 {
        seq![ONE_AND_ONE@, CAT_SHORT_DEFINITION@, CAT_FRIEND_FACT@]
    } else if remainder == 16 {
        seq![ONE_AND_ONE@, TWO_AND_TWO@, CAT_FACT@]
    } else if remainder == 17 {
        seq![ONE_AND_ONE@, TWO_AND_TWO@, CAT_SHORT_DEFINITION@]
    } else if remainder == 18 {
        seq![ONE_AND_ONE@, TWO_AND_TWO@, THREE_AND_TWO@]
    } else if remainder == 19 {
        seq![CAT_DEFINITION@, ONE_AND_ONE@, TWO_AND_TWO@]
    } else if remainder == 20 {
        seq![ONE_AND_ONE@, TWO_AND_TWO@, CAT_FACT@, DOG_FACT@]
    } else if remainder == 21 {
        seq![ONE_AND_ONE@, TWO_AND_TWO@, THREE_AND_TWO@, FOUR_LESS_ONE@]
    } else if remainder == 22 {
        seq![ONE_AND_ONE@, TWO_AND_TWO@, THREE_AND_TWO@, CAT_SHORT_DEFINITION@]
    } else if remainder == 23 {
        seq![CAT_DEFINITION@, ONE_AND_ONE@, TWO_AND_TWO@, CAT_FACT@]
    } else if remainder == 24 {
        seq![ONE_AND_ONE@, TWO_AND_TWO@, THREE_AND_TWO@, FIVE_LESS_ONE@]
    } else if remainder == 25 {
        seq![CAT_DEFINITION@, ONE_AND_ONE@, TWO_AND_TWO@, THREE_AND_TWO@]
    } else {
        Seq::empty()
    }
}

/// The number of tokens of a line under a vocabulary.
pub open spec fn line_len(vocab: Seq<Seq<char>>, sentence: Seq<usize>) -> nat {
    tokenizer::encoding(vocab, sentences::spelled(sentence)).len()
}

/// The numbers of tokens of the lines of a list.
pub open spec fn line_lens(vocab: Seq<Seq<char>>, list: Seq<Seq<usize>>) -> Seq<usize> {
    Seq::new(list.len(), |i: int| line_len(vocab, list[i]) as usize)
}

/// The number of tokens of all lines of a list.
pub open spec fn line_total(vocab: Seq<Seq<char>>, list: Seq<Seq<usize>>) -> nat {
    filling::total(line_lens(vocab, list))
}

/// The tokens that the pool leaves missing of a target.
pub open spec fn pretrain_missing(vocab: Seq<Seq<char>>, target: nat) -> nat {
    filling::missing(line_lens(vocab, unified::base_sentences()), MARGIN as nat, target)
}

/// The sentences of the pre-training corpus: the pool over and over, then the filler.
pub open spec fn pretrain(vocab: Seq<Seq<char>>, target: nat) -> Seq<Seq<usize>> {
    let pool = unified::base_sentences();
    let lens = line_lens(vocab, pool);
    filling::cycled(pool, filling::lines_taken(lens, MARGIN as nat, target)) + filler(
        pretrain_missing(vocab, target),
    )
}

/// Whether the pool and the filler meet a target exactly.
pub open spec fn pretrain_exists(vocab: Seq<Seq<char>>, target: nat) -> bool {
    &&& filling::fillable(line_lens(vocab, unified::base_sentences()), MARGIN as nat, target)
    &&& 4 <= pretrain_missing(vocab, target) <= 25
    &&& line_total(vocab, filler(pretrain_missing(vocab, target))) == pretrain_missing(
        vocab,
        target,
    )
    &&& tokenizer::encoding(vocab, sentences::text_of(pretrain(vocab, target))).len() == target
}

/// Appends one line.
pub fn push_line<const L: usize>(list: &mut Vec<Vec<usize>>, line: &[usize; L])
    ensures
        sentences::deep(final(list)@) == sentences::deep(old(list)@).push(line@),
{
    let mut sentence: Vec<usize> = Vec::new();
    for j in 0..L
        invariant
            sentence@ == line@.take(j as int),
    {
        sentence.push(line[j]);
    }
    assert(sentence@ =~= line@);
    proof {
        sentences::lemma_deep_push(list@, sentence);
    }
    list.push(sentence);
}

/// Appends the rows of a table, `times` over.
fn push_repeated<const L: usize, const N: usize>(
    list: &mut Vec<Vec<usize>>,
    table: &[[usize; L]; N],
    times: usize,
)
    requires
        N > 0,
        times * N <= usize::MAX,
    ensures
        sentences::deep(final(list)@) == sentences::deep(old(list)@) + filling::cycled(
            sentences::rows(table@),
            (times * N) as nat,
        ),
{
    let ghost before = sentences::deep(list@);
    let ghost all = sentences::rows(table@);
    for i in 0..times * N
        invariant
            N > 0,
            all == sentences::rows(table@),
            sentences::deep(list@) == before + filling::cycled(all, i as nat),
    {
        push_line(list, &table[i % N]);
        assert(sentences::deep(list@) =~= before + filling::cycled(all, (i + 1) as nat));
    }
}

/// The sentences of the instruction corpus as token sequences.
pub fn instruct_statements() -> (list: Vec<Vec<usize>>)
    ensures
        sentences::deep(list@) == instruct(),
{
    let mut list: Vec<Vec<usize>> = Vec::new();
    sentences::push_rows(&mut list, &ARITHMETIC_DIALOGUES);
    push_repeated(&mut list, &DIALOGUE_FACTS, 6);
    push_repeated(&mut list, &SPECIES_DIALOGUES, 3);
    sentences::push_rows(&mut list, &MISMATCH_DIALOGUES);
    push_repeated(&mut list, &KINSHIP_DIALOGUES, 2);
    sentences::push_rows(&mut list, &IDENTITY_DIALOGUES);
    sentences::push_rows(&mut list, &REPLAYED_EQUATIONS);
    sentences::push_rows(&mut list, &REPLAYED_FACTS);
    sentences::push_rows(&mut list, &REPLAYED_DEFINITIONS);
    sentences::push_rows(&mut list, &REPLAYED_MIX);
    assert(sentences::deep(list@) =~= instruct());
    list
}

/// The filler for the tokens still missing, as token sequences.
pub fn filler_statements(remainder: usize) -> (list: Vec<Vec<usize>>)
    ensures
        sentences::deep(list@) == filler(remainder as nat),
{
    let mut list: Vec<Vec<usize>> = Vec::new();
    match remainder {
        4 => {
            push_line(&mut list, &CAT_FACT);
        },
        5 => {
            push_line(&mut list, &CAT_SHORT_DEFINITION);
        },
        6 => {
            push_line(&mut list, &ONE_AND_ONE);
        },
        7 => {
            push_line(&mut list, &CAT_DEFINITION);
        },
        8 => {
            push_line(&mut list, &CAT_FACT);
            push_line(&mut list, &DOG_FACT);
        },
        9 => {
            push_line(&mut list, &CAT_SHORT_DEFINITION);
            push_line(&mut list, &CAT_FRIEND_FACT);
        },
        10 => {
            push_line(&mut list, &ONE_AND_ONE);
            push_line(&mut list, &CAT_FACT);
        },
        11 => {
            push_line(&mut list, &ONE_AND_ONE);
            push_line(&mut list, &CAT_SHORT_DEFINITION);
        },
        12 => {
            push_line(&mut list, &ONE_AND_ONE);
            push_line(&mut list, &TWO_AND_TWO);
        },
        13 => {
            push_line(&mut list, &CAT_DEFINITION);
            push_line(&mut list, &ONE_AND_ONE);
        },
        14 => {
            push_line(&mut list, &CAT_DEFINITION);
            push_line(&mut list, &DOG_DEFINITION);
        },
        15 => {
            push_line(&mut list, &ONE_AND_ONE);
            push_line(&mut list, &CAT_SHORT_DEFINITION);
            push_line(&mut list, &CAT_FRIEND_FACT);
        },
        16 => {
            push_line(&mut list, &ONE_AND_ONE);
            push_line(&mut list, &TWO_AND_TWO);
            push_line(&mut list, &CAT_FACT);
        },
        17 => {
            push_line(&mut list, &ONE_AND_ONE);
            push_line(&mut list, &TWO_AND_TWO);
            push_line(&mut list, &CAT_SHORT_DEFINITION);
        },
        18 => {
            push_line(&mut list, &ONE_AND_ONE);
            push_line(&mut list, &TWO_AND_TWO);
            push_line(&mut list, &THREE_AND_TWO);
        },
        19 => {
            push_line(&mut list, &CAT_DEFINITION);
            push_line(&mut list, &ONE_AND_ONE);
            push_line(&mut list, &TWO_AND_TWO);
        },
        20 => {
            push_line(&mut list, &ONE_AND_ONE);
            push_line(&mut list, &TWO_AND_TWO);
            push_line(&mut list, &CAT_FACT);
            push_line(&mut list, &DOG_FACT);
        },
        21 => {
            push_line(&mut list, &ONE_AND_ONE);
            push_line(&mut list, &TWO_AND_TWO);
            push_line(&mut list, &THREE_AND_TWO);
            push_line(&mut list, &FOUR_LESS_ONE);
        },
        22 => {
            push_line(&mut list, &ONE_AND_ONE);
            push_line(&mut list, &TWO_AND_TWO);
            push_line(&mut list, &THREE_AND_TWO);
            push_line(&mut list, &CAT_SHORT_DEFINITION);
        },
        23 => {
            push_line(&mut list, &CAT_DEFINITION);
            push_line(&mut list, &ONE_AND_ONE);
            push_line(&mut list, &TWO_AND_TWO);
            push_line(&mut list, &CAT_FACT);
        },
        24 => {
            push_line(&mut list, &ONE_AND_ONE);
            push_line(&mut list, &TWO_AND_TWO);
            push_line(&mut list, &THREE_AND_TWO);
            push_line(&mut list, &FIVE_LESS_ONE);
        },
        25 => {
            push_line(&mut list, &CAT_DEFINITION);
            push_line(&mut list, &ONE_AND_ONE);
            push_line(&mut list, &TWO_AND_TWO);
            push_line(&mut list, &THREE_AND_TWO);
        },
        _ => {},
    }
    assert(sentences::deep(list@) =~= filler(remainder as nat));
    list
}

/// Counts the tokens of each line.
pub fn count_lines(tok: &Tokenizer, list: &Vec<Vec<usize>>) -> (lens: Vec<usize>)
    requires
        sentences::all_well_formed(sentences::deep(list@)),
    ensures
        lens@ == line_lens(tok@, sentences::deep(list@)),
        forall|i: int|
            0 <= i < lens@.len() ==> lens@[i] == line_len(tok@, sentences::deep(list@)[i]),
{
    let lines: Vec<String> = sentences::spell_lines(list);
    let mut lens: Vec<usize> = Vec::new();
    let ghost all = sentences::deep(list@);
    assert(text::views(lines@).len() == list@.len());
    for i in 0..lines.len()
        invariant
            all == sentences::deep(list@),
            lines@.len() == list@.len(),
            text::views(lines@) == sentences::spelled_all(all),
            lens@ == line_lens(tok@, all).take(i as int),
            forall|j: int| 0 <= j < lens@.len() ==> lens@[j] == line_len(tok@, all[j]),
    {
        assert(text::views(lines@)[i as int] == sentences::spelled(all[i as int]));
        lens.push(tok.encode(lines[i].as_str()).len());
        assert(lens@ =~= line_lens(tok@, all).take(i + 1));
    }
    assert(lens@ =~= line_lens(tok@, all));
    lens
}

/// Adds up lengths; nothing where the sum does not fit.
pub fn sum(lens: &Vec<usize>) -> (total: Option<usize>)
    ensures
        match total {
            Some(t) => t == filling::total(lens@),
            None => filling::total(lens@) > usize::MAX,
        },
{
    let mut t: usize = 0;
    for i in 0..lens.len()
        invariant
            t == filling::partial(lens@, i as nat),
    {
        assert(filling::partial(lens@, (i + 1) as nat) == t + lens@[i as int]);
        match t.checked_add(lens[i]) {
            Some(next) => {
                t = next;
            },
            None => {
                proof {
                    filling::lemma_partial_monotone(lens@, (i + 1) as nat, lens@.len());
                }
                return None;
            },
        }
    }
    Some(t)
}

/// The first lines of a pool gone over again and again.
pub fn pick_lines(pool: &Vec<Vec<usize>>, picks: &Vec<usize>) -> (list: Vec<Vec<usize>>)
    requires
        pool@.len() > 0,
        picks@ == Seq::new(picks@.len(), |i: int| (i % (pool@.len() as int)) as usize),
    ensures
        sentences::deep(list@) == filling::cycled(sentences::deep(pool@), picks@.len()),
{
    let ghost all = sentences::deep(pool@);
    let size: usize = pool.len();
    let mut list: Vec<Vec<usize>> = Vec::new();
    for i in 0..picks.len()
        invariant
            all == sentences::deep(pool@),
            size == pool@.len(),
            size > 0,
            picks@ == Seq::new(picks@.len(), |i: int| (i % (pool@.len() as int)) as usize),
            sentences::deep(list@) == filling::cycled(all, i as nat),
    {
        assert(picks@[i as int] == i as int % (size as int));
        let sentence: Vec<usize> = pool[picks[i]].clone();
        assert(sentence@ =~= pool@[picks@[i as int] as int]@);
        proof {
            sentences::lemma_deep_push(list@, sentence);
        }
        list.push(sentence);
        assert(sentences::deep(list@) =~= filling::cycled(all, (i + 1) as nat));
    }
    list
}

/// Builds a pre-training text of exactly `target_len` tokens from the base statements: the pool
/// over and over, then a filler for the last tokens. There is none where pool and filler do not
/// meet the target under the given tokenizer.
pub fn build_pretrain_corpus(tok: &Tokenizer, target_len: usize) -> (corpus: Option<
    (String, usize),
>)
    ensures
        corpus is Some <==> pretrain_exists(tok@, target_len as nat),
        corpus matches Some((text, tokens)) ==> text@ == sentences::text_of(
            pretrain(tok@, target_len as nat),
        ) && tokens == target_len && tokens == tokenizer::encoding(tok@, text@).len(),
{
    proof {
        unified_laws::law_base_sentences();
    }
    let pool: Vec<Vec<usize>> = unified::base_statements();
    assert(sentences::deep(pool@).len() == 78);
    let lens: Vec<usize> = count_lines(tok, &pool);
    match filling::fill(&lens, MARGIN, target_len) {
        None => None,
        Some((picks, rest)) => {
            if rest < 4 || rest > 25 {
                return None;
            }
            let fillers: Vec<Vec<usize>> = filler_statements(rest);
            proof {
                base_laws::lemma_filler_well_formed(rest as nat);
            }
            let filler_lens: Vec<usize> = count_lines(tok, &fillers);
            match sum(&filler_lens) {
                None => {
                    return None;
                },
                Some(filled) => {
                    if filled != rest {
                        return None;
                    }
                },
            }
            let mut list: Vec<Vec<usize>> = pick_lines(&pool, &picks);
            sentences::push_all(&mut list, &fillers);
            assert(sentences::deep(list@) == pretrain(tok@, target_len as nat));
            proof {
                base_laws::lemma_cycled_well_formed(sentences::deep(pool@), picks@.len());
                base_laws::lemma_pretrain_well_formed(tok@, target_len as nat);
            }
            let text: String = unified::text_of_sentences(&list);
            let tokens: usize = tok.encode(text.as_str()).len();
            if tokens != target_len {
                return None;
            }
            Some((text, tokens))
        },
    }
}

/// Builds the instruction corpus: its text, and its number of tokens under the given tokenizer.
pub fn build_instruct_corpus(tok: &Tokenizer) -> (corpus: (String, usize))
    ensures
        corpus.0@ == sentences::text_of(instruct()),
        corpus.1 == tokenizer::encoding(tok@, corpus.0@).len(),
{
    proof {
        base_laws::law_instruct_corpus();
    }
    let list: Vec<Vec<usize>> = instruct_statements();
    let text: String = unified::text_of_sentences(&list);
    let tokens: usize = tok.encode(text.as_str()).len();
    (text, tokens)
}

} // verus!
