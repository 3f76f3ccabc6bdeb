//! The Chinchilla corpora: a pool of statements about science, logic, nature and arithmetic, a
//! pre-training text of a given number of tokens, and an instruction text of dialogues.

use vstd::prelude::*;

use crate::classic::tokenizer::Tokenizer;
use crate::classic::tokenizer;
use crate::corpus::base;
use crate::corpus::chinchilla_laws;
use crate::corpus::drills::{Domain, Form};
use crate::corpus::drills;
use crate::corpus::filling;
use crate::corpus::pool_volume;
use crate::corpus::remainder;
use crate::corpus::sentences;
use crate::corpus::unified;
use crate::corpus::words::{
    ANIMAL, BEAR, BEAST, BIRD, BOT, BURROW, CAT, D0, D1, D2, D3, D4, D5, D6, D7, D8, D9, DOG,
    EATS, EOS, EQUALS, FIELD, FISH, FOE, FOREST, FOX, FRIEND, GRASS, HARE, HOME, HOW, HUMAN, IF,
    IS, KNOWLEDGE, LOGIC, MIND, MINUS, MODEL, NO, NOT, NUMBER, OAK, OR, OVER, PIKE, PLUS,
    PREDATOR, RIVER, SCIENCE, SKY, SNAKE, SO, TAIGA, TIMES, TREE, USER, WATER, WHAT, WHERE, WHO,
    WHY, WOLF, YES,
};
use crate::text;

verus! {

/// How far below its target the pre-training text is filled from the pool.
pub const MARGIN: usize = 30;

/// The least number of tokens of the instruction text.
pub const INSTRUCT_MIN: usize = 1800;

/// The greatest number of tokens of the instruction text.
pub const INSTRUCT_MAX: usize = 2200;

/// Science, knowledge and the model.
pub const NOTIONS: [[usize; 4]; 9] = [
    [LOGIC, IS, SCIENCE, EOS],
    [SCIENCE, IS, KNOWLEDGE, EOS],
    [MODEL, IS, KNOWLEDGE, EOS],
    [LOGIC, IS, KNOWLEDGE, EOS],
    [SCIENCE, IS, LOGIC, EOS],
    [MODEL, IS, SCIENCE, EOS],
    [HUMAN, IS, MIND, EOS],
    [HUMAN, IS, KNOWLEDGE, EOS],
    [HUMAN, IS, FRIEND, EOS],
];

/// What a human is not.
pub const HUMAN_CONTRASTS: [[usize; 5]; 3] = [
    [HUMAN, IS, NOT, BEAST, EOS],
    [HUMAN, IS, NOT, PREDATOR, EOS],
    [HUMAN, IS, NOT, FOE, EOS],
];

/// Mind, knowledge, and the ten numbers.
pub const NOTIONS_AND_NUMBERS: [[usize; 4]; 17] = [
    [MIND, IS, KNOWLEDGE, EOS],
    [MIND, IS, LOGIC, EOS],
    [MIND, IS, SCIENCE, EOS],
    [KNOWLEDGE, IS, SCIENCE, EOS],
    [KNOWLEDGE, IS, MIND, EOS],
    [KNOWLEDGE, IS, LOGIC, EOS],
    [MODEL, IS, MIND, EOS],
    [D0, IS, NUMBER, EOS],
    [D1, IS, NUMBER, EOS],
    [D2, IS, NUMBER, EOS],
    [D3, IS, NUMBER, EOS],
    [D4, IS, NUMBER, EOS],
    [D5, IS, NUMBER, EOS],
    [D6, IS, NUMBER, EOS],
    [D7, IS, NUMBER, EOS],
    [D8, IS, NUMBER, EOS],
    [D9, IS, NUMBER, EOS],
];

/// A number is one or another.
pub const NUMBER_CHOICES: [[usize; 6]; 5] = [
    [NUMBER, IS, D0, OR, D1, EOS],
    [NUMBER, IS, D2, OR, D3, EOS],
    [NUMBER, IS, D4, OR, D5, EOS],
    [NUMBER, IS, D6, OR, D7, EOS],
    [NUMBER, IS, D8, OR, D9, EOS],
];

/// Each number is not the next.
pub const NUMBER_CONTRASTS: [[usize; 5]; 9] = [
    [D0, IS, NOT, D1, EOS],
    [D1, IS, NOT, D2, EOS],
    [D2, IS, NOT, D3, EOS],
    [D3, IS, NOT, D4, EOS],
    [D4, IS, NOT, D5, EOS],
    [D5, IS, NOT, D6, EOS],
    [D6, IS, NOT, D7, EOS],
    [D7, IS, NOT, D8, EOS],
    [D8, IS, NOT, D9, EOS],
];

/// Conclusions about notions and humans.
pub const SYLLOGISMS: [[usize; 9]; 5] = [
    [IF, LOGIC, IS, SCIENCE, SO, SCIENCE, IS, KNOWLEDGE, EOS],
    [IF, SCIENCE, IS, KNOWLEDGE, SO, KNOWLEDGE, IS, MIND, EOS],
    [IF, MODEL, IS, KNOWLEDGE, SO, MODEL, IS, SCIENCE, EOS],
    [IF, HUMAN, IS, MIND, SO, HUMAN, NOT, BEAST, EOS],
    [IF, HUMAN, IS, FRIEND, SO, HUMAN, NOT, FOE, EOS],
];

/// Who eats an animal is a predator.
pub const PREDATOR_SYLLOGISMS: [[usize; 8]; 5] = [
    [IF, WOLF, EATS, HARE, SO, WOLF, PREDATOR, EOS],
    [IF, FOX, EATS, HARE, SO, FOX, PREDATOR, EOS],
    [IF, PIKE, EATS, FISH, SO, PIKE, PREDATOR, EOS],
    [IF, BEAR, EATS, FISH, SO, BEAR, PREDATOR, EOS],
    [IF, SNAKE, EATS, HARE, SO, SNAKE, PREDATOR, EOS],
];

/// Conclusions about prey, trees and equations.
pub const FURTHER_SYLLOGISMS: [[usize; 9]; 18] = [
    [IF, HARE, EATS, GRASS, SO, HARE, NOT, PREDATOR, EOS],
    [IF, FISH, EATS, GRASS, SO, FISH, NOT, PREDATOR, EOS],
    [IF, OAK, IS, TREE, SO, OAK, NOT, ANIMAL, EOS],
    [IF, TREE, IS, OAK, SO, TREE, NOT, FISH, EOS],
    [IF, BEAR, IS, BEAST, SO, BEAR, NOT, TREE, EOS],
    [IF, PIKE, IS, FISH, SO, PIKE, NOT, BEAST, EOS],
    [IF, D1, PLUS, D1, EQUALS, D2, SO, YES, EOS],
    [IF, D2, PLUS, D2, EQUALS, D4, SO, YES, EOS],
    [IF, D3, PLUS, D3, EQUALS, D6, SO, YES, EOS],
    [IF, D4, PLUS, D4, EQUALS, D8, SO, YES, EOS],
    [IF, D2, TIMES, D3, EQUALS, D6, SO, YES, EOS],
    [IF, D6, OVER, D2, EQUALS, D3, SO, YES, EOS],
    [IF, D8, OVER, D4, EQUALS, D2, SO, YES, EOS],
    [IF, D9, OVER, D3, EQUALS, D3, SO, YES, EOS],
    [IF, D5, MINUS, D2, EQUALS, D3, SO, YES, EOS],
    [IF, D7, MINUS, D4, EQUALS, D3, SO, YES, EOS],
    [IF, D8, MINUS, D3, EQUALS, D5, SO, YES, EOS],
    [IF, D9, MINUS, D5, EQUALS, D4, SO, YES, EOS],
];

/// What each thing is.
pub const KINDS: [[usize; 4]; 23] = [
    [CAT, IS, ANIMAL, EOS],
    [DOG, IS, ANIMAL, EOS],
    [DOG, IS, FRIEND, EOS],
    [CAT, IS, FRIEND, EOS],
    [WOLF, IS, BEAST, EOS],
    [FOX, IS, BEAST, EOS],
    [HARE, IS, BEAST, EOS],
    [FISH, IS, ANIMAL, EOS],
    [BIRD, IS, ANIMAL, EOS],
    [BEAR, IS, BEAST, EOS],
    [SNAKE, IS, ANIMAL, EOS],
    [PIKE, IS, FISH, EOS],
    [OAK, IS, TREE, EOS],
    [TAIGA, IS, FOREST, EOS],
    [WATER, IS, RIVER, EOS],
    [GRASS, IS, FIELD, EOS],
    [BURROW, IS, HOME, EOS],
    [FOX, IS, PREDATOR, EOS],
    [WOLF, IS, PREDATOR, EOS],
    [PIKE, IS, PREDATOR, EOS],
    [BEAR, IS, PREDATOR, EOS],
    [SNAKE, IS, PREDATOR, EOS],
    [BIRD, IS, PREDATOR, EOS],
];

/// Where each thing is.
pub const PLACES: [[usize; 5]; 14] = [
    [WHERE, WOLF, EQUALS, FOREST, EOS],
    [WHERE, FOX, EQUALS, BURROW, EOS],
    [WHERE, HARE, EQUALS, FIELD, EOS],
    [WHERE, FISH, EQUALS, RIVER, EOS],
    [WHERE, BIRD, EQUALS, SKY, EOS],
    [WHERE, BEAR, EQUALS, TAIGA, EOS],
    [WHERE, PIKE, EQUALS, WATER, EOS],
    [WHERE, SNAKE, EQUALS, BURROW, EOS],
    [WHERE, OAK, EQUALS, FOREST, EOS],
    [WHERE, HUMAN, EQUALS, HOME, EOS],
    [WHERE, CAT, EQUALS, HOME, EOS],
    [WHERE, DOG, EQUALS, HOME, EOS],
    [WHERE, GRASS, EQUALS, FIELD, EOS],
    [WHERE, WATER, EQUALS, RIVER, EOS],
];

/// Who eats whom.
pub const MEALS: [[usize; 4]; 11] = [
    [WOLF, EATS, HARE, EOS],
    [FOX, EATS, HARE, EOS],
    [PIKE, EATS, FISH, EOS],
    [BEAR, EATS, FISH, EOS],
    [CAT, EATS, FISH, EOS],
    [BIRD, EATS, FISH, EOS],
    [SNAKE, EATS, HARE, EOS],
    [HARE, EATS, GRASS, EOS],
    [FISH, EATS, GRASS, EOS],
    [BEAR, EATS, GRASS, EOS],
    [HUMAN, EATS, FISH, EOS],
];

/// Chains of two meals.
pub const FOOD_CHAINS: [[usize; 9]; 5] = [
    [WOLF, EATS, HARE, HARE, EATS, GRASS, EQUALS, YES, EOS],
    [PIKE, EATS, FISH, FISH, EATS, GRASS, EQUALS, YES, EOS],
    [BEAR, EATS, FISH, FISH, EATS, GRASS, EQUALS, YES, EOS],
    [FOX, EATS, HARE, HARE, EATS, GRASS, EQUALS, YES, EOS],
    [SNAKE, EATS, FISH, FISH, EATS, GRASS, EQUALS, YES, EOS],
];

/// Relations denied.
pub const DENIALS: [[usize; 6]; 13] = [
    [WOLF, EATS, GRASS, EQUALS, NO, EOS],
    [HARE, EATS, WOLF, EQUALS, NO, EOS],
    [FISH, EATS, PIKE, EQUALS, NO, EOS],
    [GRASS, EATS, HARE, EQUALS, NO, EOS],
    [OAK, EATS, FISH, EQUALS, NO, EOS],
    [CAT, IS, DOG, EQUALS, NO, EOS],
    [DOG, IS, CAT, EQUALS, NO, EOS],
    [WOLF, IS, FRIEND, EQUALS, NO, EOS],
    [HUMAN, IS, FOE, EQUALS, NO, EOS],
    [OAK, IS, ANIMAL, EQUALS, NO, EOS],
    [PIKE, IS, BIRD, EQUALS, NO, EOS],
    [SNAKE, IS, BEAST, EQUALS, NO, EOS],
    [BEAR, IS, FISH, EQUALS, NO, EOS],
];

/// What things are not.
pub const CONTRASTS: [[usize; 5]; 7] = [
    [CAT, IS, NOT, DOG, EOS],
    [DOG, IS, NOT, CAT, EOS],
    [WOLF, IS, NOT, FRIEND, EOS],
    [OAK, IS, NOT, FISH, EOS],
    [TREE, IS, NOT, BIRD, EOS],
    [GRASS, IS, NOT, WATER, EOS],
    [BURROW, IS, NOT, RIVER, EOS],
];

/// No creature is a number.
pub const NUMBER_DENIALS: [[usize; 6]; 6] = [
    [CAT, IS, D0, EQUALS, NO, EOS],
    [DOG, IS, D1, EQUALS, NO, EOS],
    [HUMAN, IS, D2, EQUALS, NO, EOS],
    [OAK, IS, D3, EQUALS, NO, EOS],
    [FISH, IS, D4, EQUALS, NO, EOS],
    [WOLF, IS, D5, EQUALS, NO, EOS],
];

/// What each notion is.
pub const NOTION_DIALOGUES: [[usize; 9]; 5] = [
    [USER, WHAT, IS, SCIENCE, BOT, SCIENCE, IS, KNOWLEDGE, EOS],
    [USER, WHAT, IS, LOGIC, BOT, LOGIC, IS, SCIENCE, EOS],
    [USER, WHAT, IS, MODEL, BOT, MODEL, IS, KNOWLEDGE, EOS],
    [USER, WHAT, IS, MIND, BOT, MIND, IS, KNOWLEDGE, EOS],
    [USER, WHAT, IS, KNOWLEDGE, BOT, KNOWLEDGE, IS, SCIENCE, EOS],
];

/// Who a human is.
pub const HUMAN_DIALOGUE: [[usize; 8]; 1] = [
    [USER, WHO, HUMAN, BOT, HUMAN, IS, MIND, EOS],
];

/// Relations between notions, judged.
pub const NOTION_VERDICTS: [[usize; 7]; 5] = [
    [USER, HUMAN, IS, MIND, BOT, YES, EOS],
    [USER, HUMAN, IS, BEAST, BOT, NO, EOS],
    [USER, LOGIC, IS, SCIENCE, BOT, YES, EOS],
    [USER, SCIENCE, IS, KNOWLEDGE, BOT, YES, EOS],
    [USER, MODEL, IS, SCIENCE, BOT, YES, EOS],
];

/// Why things are as they are.
pub const REASON_DIALOGUES: [[usize; 10]; 8] = [
    [USER, WHY, HUMAN, NOT, BEAST, BOT, HUMAN, IS, MIND, EOS],
    [USER, WHY, OAK, NOT, PREDATOR, BOT, OAK, IS, TREE, EOS],
    [USER, WHY, WOLF, EATS, HARE, BOT, WOLF, IS, PREDATOR, EOS],
    [USER, WHY, FOX, EATS, HARE, BOT, FOX, IS, PREDATOR, EOS],
    [USER, WHY, PIKE, EATS, FISH, BOT, PIKE, IS, PREDATOR, EOS],
    [USER, WHY, BEAR, EATS, FISH, BOT, BEAR, IS, PREDATOR, EOS],
    [USER, WHY, SNAKE, EATS, HARE, BOT, SNAKE, IS, PREDATOR, EOS],
    [USER, WHY, HARE, EATS, GRASS, BOT, HARE, NOT, PREDATOR, EOS],
];

/// How things relate, and how numbers add up.
pub const HOW_DIALOGUES: [[usize; 8]; 10] = [
    [USER, HOW, MODEL, IS, KNOWLEDGE, BOT, YES, EOS],
    [USER, HOW, MIND, IS, LOGIC, BOT, YES, EOS],
    [USER, HOW, KNOWLEDGE, IS, SCIENCE, BOT, YES, EOS],
    [USER, HOW, D1, PLUS, D1, BOT, D2, EOS],
    [USER, HOW, D2, PLUS, D2, BOT, D4, EOS],
    [USER, HOW, D3, PLUS, D3, BOT, D6, EOS],
    [USER, HOW, D4, PLUS, D4, BOT, D8, EOS],
    [USER, HOW, D6, OVER, D2, BOT, D3, EOS],
    [USER, HOW, D8, OVER, D4, BOT, D2, EOS],
    [USER, HOW, D9, OVER, D3, BOT, D3, EOS],
];

/// The wolf as a predator.
pub const WOLF_IMPLICATION: [[usize; 11]; 1] = [
    [USER, IF, WOLF, EATS, HARE, SO, WOLF, PREDATOR, BOT, YES, EOS],
];

/// The hare does not eat the wolf.
pub const HARE_IMPLICATION: [[usize; 8]; 1] = [
    [USER, IF, HARE, EATS, WOLF, BOT, NO, EOS],
];

/// The pike as a predator.
pub const PIKE_IMPLICATION: [[usize; 11]; 1] = [
    [USER, IF, PIKE, EATS, FISH, SO, PIKE, PREDATOR, BOT, YES, EOS],
];

/// The fish does not eat the pike.
pub const FISH_IMPLICATION: [[usize; 8]; 1] = [
    [USER, IF, FISH, EATS, PIKE, BOT, NO, EOS],
];

/// Beasts are no trees, nor trees animals.
pub const CONTRAST_IMPLICATIONS: [[usize; 12]; 2] = [
    [USER, IF, BEAR, IS, BEAST, SO, BEAR, NOT, TREE, BOT, YES, EOS],
    [USER, IF, OAK, IS, TREE, SO, OAK, NOT, ANIMAL, BOT, YES, EOS],
];

/// The human as a friend.
pub const HUMAN_IMPLICATION: [[usize; 11]; 1] = [
    [USER, IF, HUMAN, IS, MIND, SO, HUMAN, FRIEND, BOT, YES, EOS],
];

/// Chains of two meals, confirmed.
pub const CHAIN_DIALOGUES: [[usize; 10]; 4] = [
    [USER, WOLF, EATS, HARE, HARE, EATS, GRASS, BOT, YES, EOS],
    [USER, PIKE, EATS, FISH, FISH, EATS, GRASS, BOT, YES, EOS],
    [USER, BEAR, EATS, FISH, FISH, EATS, GRASS, BOT, YES, EOS],
    [USER, FOX, EATS, HARE, HARE, EATS, GRASS, BOT, YES, EOS],
];

/// One thing or another.
pub const CHOICE_DIALOGUES: [[usize; 9]; 5] = [
    [USER, WOLF, IS, PREDATOR, OR, GRASS, BOT, PREDATOR, EOS],
    [USER, OAK, IS, TREE, OR, FISH, BOT, TREE, EOS],
    [USER, PIKE, IS, FISH, OR, BEAST, BOT, FISH, EOS],
    [USER, HUMAN, IS, MIND, OR, FOE, BOT, MIND, EOS],
    [USER, D5, IS, NUMBER, OR, BEAST, BOT, NUMBER, EOS],
];

/// What is a number and what is not.
pub const NUMBER_DIALOGUES: [[usize; 7]; 13] = [
    [USER, CAT, IS, NUMBER, BOT, NO, EOS],
    [USER, DOG, IS, NUMBER, BOT, NO, EOS],
    [USER, OAK, IS, NUMBER, BOT, NO, EOS],
    [USER, D0, IS, NUMBER, BOT, YES, EOS],
    [USER, D1, IS, NUMBER, BOT, YES, EOS],
    [USER, D2, IS, NUMBER, BOT, YES, EOS],
    [USER, D3, IS, NUMBER, BOT, YES, EOS],
    [USER, D4, IS, NUMBER, BOT, YES, EOS],
    [USER, D5, IS, NUMBER, BOT, YES, EOS],
    [USER, D6, IS, NUMBER, BOT, YES, EOS],
    [USER, D7, IS, NUMBER, BOT, YES, EOS],
    [USER, D8, IS, NUMBER, BOT, YES, EOS],
    [USER, D9, IS, NUMBER, BOT, YES, EOS],
];

/// Where each thing is, as dialogues.
pub const PLACE_DIALOGUES: [[usize; 6]; 12] = [
    [USER, WHERE, WOLF, BOT, FOREST, EOS],
    [USER, WHERE, FOX, BOT, BURROW, EOS],
    [USER, WHERE, HARE, BOT, FIELD, EOS],
    [USER, WHERE, FISH, BOT, RIVER, EOS],
    [USER, WHERE, BIRD, BOT, SKY, EOS],
    [USER, WHERE, BEAR, BOT, TAIGA, EOS],
    [USER, WHERE, PIKE, BOT, WATER, EOS],
    [USER, WHERE, SNAKE, BOT, BURROW, EOS],
    [USER, WHERE, OAK, BOT, FOREST, EOS],
    [USER, WHERE, HUMAN, BOT, HOME, EOS],
    [USER, WHERE, CAT, BOT, HOME, EOS],
    [USER, WHERE, DOG, BOT, HOME, EOS],
];

/// Who each thing is, as dialogues.
pub const KIND_DIALOGUES: [[usize; 8]; 9] = [
    [USER, WHO, WOLF, BOT, WOLF, IS, BEAST, EOS],
    [USER, WHO, FOX, BOT, FOX, IS, PREDATOR, EOS],
    [USER, WHO, HARE, BOT, HARE, IS, BEAST, EOS],
    [USER, WHO, FISH, BOT, FISH, IS, ANIMAL, EOS],
    [USER, WHO, BIRD, BOT, BIRD, IS, ANIMAL, EOS],
    [USER, WHO, BEAR, BOT, BEAR, IS, BEAST, EOS],
    [USER, WHO, PIKE, BOT, PIKE, IS, FISH, EOS],
    [USER, WHO, OAK, BOT, OAK, IS, TREE, EOS],
    [USER, WHO, HUMAN, BOT, HUMAN, IS, MIND, EOS],
];

/// Who eats whom, as dialogues.
pub const MEAL_DIALOGUES: [[usize; 7]; 12] = [
    [USER, WHAT, EATS, WOLF, BOT, HARE, EOS],
    [USER, WHAT, EATS, FOX, BOT, HARE, EOS],
    [USER, WHAT, EATS, PIKE, BOT, FISH, EOS],
    [USER, WHAT, EATS, BEAR, BOT, FISH, EOS],
    [USER, WHAT, EATS, HARE, BOT, GRASS, EOS],
    [USER, WHAT, EATS, CAT, BOT, FISH, EOS],
    [USER, WHAT, EATS, DOG, BOT, FISH, EOS],
    [USER, WHAT, EATS, BIRD, BOT, FISH, EOS],
    [USER, WHAT, EATS, SNAKE, BOT, HARE, EOS],
    [USER, WHO, EATS, HARE, BOT, WOLF, EOS],
    [USER, WHO, EATS, FISH, BOT, PIKE, EOS],
    [USER, WHO, EATS, GRASS, BOT, HARE, EOS],
];

pub const WHERE_WOLF: [usize; 3] = [WHERE, WOLF, EOS];

pub const WHO_CAT: [usize; 3] = [WHO, CAT, EOS];

pub const LOGIC_IS_SCIENCE: [usize; 4] = [LOGIC, IS, SCIENCE, EOS];

pub const SCIENCE_IS_KNOWLEDGE: [usize; 4] = [SCIENCE, IS, KNOWLEDGE, EOS];

pub const ZERO_IS_NOT_ONE: [usize; 5] = [D0, IS, NOT, D1, EOS];

pub const HUMAN_IS_MIND: [usize; 4] = [HUMAN, IS, MIND, EOS];

pub const HUMAN_IS_NO_BEAST: [usize; 5] = [HUMAN, IS, NOT, BEAST, EOS];

pub const ONE_AND_ONE: [usize; 6] = [D1, PLUS, D1, EQUALS, D2, EOS];

pub const CAT_DEFINITION: [usize; 7] = [WHO, CAT, EQUALS, CAT, IS, ANIMAL, EOS];

pub const ZERO_OR_ONE: [usize; 6] = [NUMBER, IS, D0, OR, D1, EOS];

pub const IF_ONE_AND_ONE: [usize; 9] = [IF, D1, PLUS, D1, EQUALS, D2, SO, YES, EOS];

pub const IF_WOLF_EATS_HARE: [usize; 8] = [IF, WOLF, EATS, HARE, SO, WOLF, PREDATOR, EOS];

/// The sums of digits that are digits.
pub open spec fn sums() -> Domain {
    Domain::Sums { low: 0, high: 9 }
}

/// The differences of digits.
pub open spec fn differences() -> Domain {
    Domain::Differences { low: 0 }
}

/// The first occurrences in a list, in order.
pub open spec fn deduped(list: Seq<Seq<usize>>) -> Seq<Seq<usize>>
    decreases list.len(),
{
    if list.len() == 0 {
        Seq::empty()
    } else {
        let before = deduped(list.drop_last());
        if before.contains(list.last()) {
            before
        } else {
            before.push(list.last())
        }
    }
}

/// The statements that are no equations.
pub open spec fn statements() -> Seq<Seq<usize>> {
    sentences::rows(NOTIONS@)
        + sentences::rows(HUMAN_CONTRASTS@)
        + sentences::rows(NOTIONS_AND_NUMBERS@)
        + sentences::rows(NUMBER_CHOICES@)
        + sentences::rows(NUMBER_CONTRASTS@)
        + sentences::rows(SYLLOGISMS@)
        + sentences::rows(PREDATOR_SYLLOGISMS@)
        + sentences::rows(FURTHER_SYLLOGISMS@)
        + sentences::rows(KINDS@)
        + sentences::rows(PLACES@)
        + sentences::rows(MEALS@)
        + sentences::rows(FOOD_CHAINS@)
        + sentences::rows(DENIALS@)
        + sentences::rows(CONTRASTS@)
        + sentences::rows(NUMBER_DENIALS@)
}

/// The sentences that the pool is made of.
pub open spec fn pool_candidates() -> Seq<Seq<usize>> {
    let form = Form::EquationAndVerdicts;
    statements() + drills::drill(sums(), form, 10, 100) + drills::drill(
        differences(),
        form,
        10,
        100,
    ) + drills::drill(Domain::Products, form, 10, 100) + drills::drill(
        Domain::Quotients,
        form,
        10,
        100,
    )
}

/// The pool of the pre-training text: each sentence once.
pub open spec fn pool() -> Seq<Seq<usize>> {
    deduped(pool_candidates())
}

/// The dialogues of sums and products over the first `k` pairs of digits up to five.
pub open spec fn mixed(k: nat) -> Seq<Seq<usize>>
    decreases k,
{
    if k == 0 {
        Seq::empty()
    } else {
        let a = (k - 1) / 6;
        let b = (k - 1) % 6;
        let before = mixed((k - 1) as nat);
        let with_sum = if drills::admits(sums(), a, b) {
            before + drills::drilled(sums(), Form::Dialogue, a, b)
        } else {
            before
        };
        if drills::admits(Domain::Products, a, b) {
            with_sum + drills::drilled(Domain::Products, Form::Dialogue, a, b)
        } else {
            with_sum
        }
    }
}

/// The dialogues about notions, deductions and numbers.
pub open spec fn reasoning() -> Seq<Seq<usize>> {
    sentences::rows(NOTION_DIALOGUES@)
        + sentences::rows(HUMAN_DIALOGUE@)
        + sentences::rows(NOTION_VERDICTS@)
        + sentences::rows(REASON_DIALOGUES@)
        + sentences::rows(HOW_DIALOGUES@)
        + sentences::rows(WOLF_IMPLICATION@)
        + sentences::rows(HARE_IMPLICATION@)
        + sentences::rows(PIKE_IMPLICATION@)
        + sentences::rows(FISH_IMPLICATION@)
        + sentences::rows(CONTRAST_IMPLICATIONS@)
        + sentences::rows(HUMAN_IMPLICATION@)
        + sentences::rows(CHAIN_DIALOGUES@)
        + sentences::rows(CHOICE_DIALOGUES@)
        + sentences::rows(NUMBER_DIALOGUES@)
}

/// The dialogues that the instruction text is made of.
pub open spec fn instruct_candidates() -> Seq<Seq<usize>> {
    reasoning() + drills::drill(differences(), Form::Dialogue, 10, 100) + drills::drill(
        Domain::Quotients,
        Form::Dialogue,
        10,
        100,
    ) + mixed(36) + sentences::rows(PLACE_DIALOGUES@) + sentences::rows(KIND_DIALOGUES@)
        + sentences::rows(MEAL_DIALOGUES@)
}

/// The sentences of the instruction text: each dialogue once.
pub open spec fn instruct() -> Seq<Seq<usize>> {
    deduped(instruct_candidates())
}

/// The short sentences from which a remainder is made up.
pub open spec fn fillers() -> Seq<Seq<usize>> {
    seq![
        WHERE_WOLF@,
        WHO_CAT@,
        LOGIC_IS_SCIENCE@,
        SCIENCE_IS_KNOWLEDGE@,
        ZERO_IS_NOT_ONE@,
        HUMAN_IS_MIND@,
        HUMAN_IS_NO_BEAST@,
        ONE_AND_ONE@,
        CAT_DEFINITION@,
        ZERO_OR_ONE@,
        IF_ONE_AND_ONE@,
        IF_WOLF_EATS_HARE@,
    ]
}

/// Whether a sentence stands in a list.
fn occurs(list: &Vec<Vec<usize>>, sentence: &Vec<usize>) -> (b: bool)
    ensures
        b <==> sentences::deep(list@).contains(sentence@),
{
    for i in 0..list.len()
        invariant
            forall|j: int| 0 <= j < i ==> list@[j]@ != sentence@,
    {
        if same(&list[i], sentence) {
            assert(sentences::deep(list@)[i as int] == sentence@);
            return true;
        }
    }
    assert(!sentences::deep(list@).contains(sentence@));
    false
}

/// Whether two sentences are equal.
fn same(a: &Vec<usize>, b: &Vec<usize>) -> (eq: bool)
    ensures
        eq <==> a@ == b@,
{
    if a.len() != b.len() {
        return false;
    }
    for i in 0..a.len()
        invariant
            a@.len() == b@.len(),
            forall|j: int| 0 <= j < i ==> a@[j] == b@[j],
    {
        if a[i] != b[i] {
            return false;
        }
    }
    assert(a@ =~= b@);
    true
}

/// Keeps the first occurrences in a list, in order.
pub fn dedupe(list: &Vec<Vec<usize>>) -> (kept: Vec<Vec<usize>>)
    ensures
        sentences::deep(kept@) == deduped(sentences::deep(list@)),
{
    let ghost all = sentences::deep(list@);
    let mut kept: Vec<Vec<usize>> = Vec::new();
    assert(sentences::deep(kept@) =~= deduped(all.take(0)));
    for i in 0..list.len()
        invariant
            all == sentences::deep(list@),
            sentences::deep(kept@) == deduped(all.take(i as int)),
    {
        assert(all.take(i + 1).drop_last() =~= all.take(i as int));
        if !occurs(&kept, &list[i]) {
            let sentence: Vec<usize> = list[i].clone();
            assert(sentence@ =~= list@[i as int]@);
            proof {
                sentences::lemma_deep_push(kept@, sentence);
            }
            kept.push(sentence);
        }
    }
    assert(all.take(all.len() as int) =~= all);
    kept
}

/// The pool of the pre-training text as token sequences.
pub fn pool_statements() -> (list: Vec<Vec<usize>>)
    ensures
        sentences::deep(list@) == pool(),
{
    let mut list: Vec<Vec<usize>> = Vec::new();
    sentences::push_rows(&mut list, &NOTIONS);
    sentences::push_rows(&mut list, &HUMAN_CONTRASTS);
    sentences::push_rows(&mut list, &NOTIONS_AND_NUMBERS);
    sentences::push_rows(&mut list, &NUMBER_CHOICES);
    sentences::push_rows(&mut list, &NUMBER_CONTRASTS);
    sentences::push_rows(&mut list, &SYLLOGISMS);
    sentences::push_rows(&mut list, &PREDATOR_SYLLOGISMS);
    sentences::push_rows(&mut list, &FURTHER_SYLLOGISMS);
    sentences::push_rows(&mut list, &KINDS);
    sentences::push_rows(&mut list, &PLACES);
    sentences::push_rows(&mut list, &MEALS);
    sentences::push_rows(&mut list, &FOOD_CHAINS);
    sentences::push_rows(&mut list, &DENIALS);
    sentences::push_rows(&mut list, &CONTRASTS);
    sentences::push_rows(&mut list, &NUMBER_DENIALS);
    assert(sentences::deep(list@) =~= statements());
    let form: Form = Form::EquationAndVerdicts;
    drills::push_drill(&mut list, Domain::Sums { low: 0, high: 9 }, form, 10);
    drills::push_drill(&mut list, Domain::Differences { low: 0 }, form, 10);
    drills::push_drill(&mut list, Domain::Products, form, 10);
    drills::push_drill(&mut list, Domain::Quotients, form, 10);
    assert(sentences::deep(list@) =~= pool_candidates());
    dedupe(&list)
}

/// Appends the dialogues of sums and products of digits up to five.
fn push_mixed(list: &mut Vec<Vec<usize>>)
    ensures
        sentences::deep(final(list)@) == sentences::deep(old(list)@) + mixed(36),
{
    let ghost before = sentences::deep(list@);
    for k in 0..36
        invariant
            sentences::deep(list@) == before + mixed(k as nat),
    {
        let a: usize = k / 6;
        let b: usize = k % 6;
        let ghost done = mixed(k as nat);
        let ghost start = list@;
        if a + b <= 9 {
            drills::push_drilled(list, Domain::Sums { low: 0, high: 9 }, Form::Dialogue, a, b);
        }
        assert(a * b <= 25) by (nonlinear_arith)
            requires
                a <= 5,
                b <= 5,
        ;
        if a * b <= 9 {
            drills::push_drilled(list, Domain::Products, Form::Dialogue, a, b);
        }
        assert(sentences::deep(list@) =~= before + mixed((k + 1) as nat));
    }
}

/// The sentences of the instruction text as token sequences.
pub fn instruct_statements() -> (list: Vec<Vec<usize>>)
    ensures
        sentences::deep(list@) == instruct(),
{
    let mut list: Vec<Vec<usize>> = Vec::new();
    sentences::push_rows(&mut list, &NOTION_DIALOGUES);
    sentences::push_rows(&mut list, &HUMAN_DIALOGUE);
    sentences::push_rows(&mut list, &NOTION_VERDICTS);
    sentences::push_rows(&mut list, &REASON_DIALOGUES);
    sentences::push_rows(&mut list, &HOW_DIALOGUES);
    sentences::push_rows(&mut list, &WOLF_IMPLICATION);
    sentences::push_rows(&mut list, &HARE_IMPLICATION);
    sentences::push_rows(&mut list, &PIKE_IMPLICATION);
    sentences::push_rows(&mut list, &FISH_IMPLICATION);
    sentences::push_rows(&mut list, &CONTRAST_IMPLICATIONS);
    sentences::push_rows(&mut list, &HUMAN_IMPLICATION);
    sentences::push_rows(&mut list, &CHAIN_DIALOGUES);
    sentences::push_rows(&mut list, &CHOICE_DIALOGUES);
    sentences::push_rows(&mut list, &NUMBER_DIALOGUES);
    assert(sentences::deep(list@) =~= reasoning());
    drills::push_drill(&mut list, Domain::Differences { low: 0 }, Form::Dialogue, 10);
    drills::push_drill(&mut list, Domain::Quotients, Form::Dialogue, 10);
    push_mixed(&mut list);
    sentences::push_rows(&mut list, &PLACE_DIALOGUES);
    sentences::push_rows(&mut list, &KIND_DIALOGUES);
    sentences::push_rows(&mut list, &MEAL_DIALOGUES);
    assert(sentences::deep(list@) =~= instruct_candidates());
    dedupe(&list)
}

/// The short sentences from which a remainder is made up, as token sequences.
pub fn filler_statements() -> (list: Vec<Vec<usize>>)
    ensures
        sentences::deep(list@) == fillers(),
{
    let mut list: Vec<Vec<usize>> = Vec::new();
    base::push_line(&mut list, &WHERE_WOLF);
    base::push_line(&mut list, &WHO_CAT);
    base::push_line(&mut list, &LOGIC_IS_SCIENCE);
    base::push_line(&mut list, &SCIENCE_IS_KNOWLEDGE);
    base::push_line(&mut list, &ZERO_IS_NOT_ONE);
    base::push_line(&mut list, &HUMAN_IS_MIND);
    base::push_line(&mut list, &HUMAN_IS_NO_BEAST);
    base::push_line(&mut list, &ONE_AND_ONE);
    base::push_line(&mut list, &CAT_DEFINITION);
    base::push_line(&mut list, &ZERO_OR_ONE);
    base::push_line(&mut list, &IF_ONE_AND_ONE);
    base::push_line(&mut list, &IF_WOLF_EATS_HARE);
    assert(sentences::deep(list@) =~= fillers());
    list
}

/// The pool of the pre-training text, one line each: 702 in all.
pub fn generate_pretrain_pool() -> (lines: Vec<String>)
    ensures
        text::views(lines@) == sentences::spelled_all(pool()),
        lines@.len() == 702,
{
    proof {
        chinchilla_laws::law_pool_is_sound();
        pool_volume::law_pool_volume();
    }
    let list: Vec<Vec<usize>> = pool_statements();
    let lines: Vec<String> = sentences::spell_lines(&list);
    assert(lines@.len() == text::views(lines@).len());
    lines
}

/// The sentences at the given positions of a list.
pub open spec fn picked(list: Seq<Seq<usize>>, picks: Seq<usize>) -> Seq<Seq<usize>> {
    Seq::new(picks.len(), |i: int| list[picks[i] as int])
}

/// The fillers that make up a remainder, as far as the search finds them.
pub open spec fn made_up(vocab: Seq<Seq<char>>, target: nat) -> Option<Seq<Seq<usize>>> {
    match remainder::search(base::line_lens(vocab, fillers()), target) {
        Some(picks) => Some(picked(fillers(), picks)),
        None => None,
    }
}

/// Finds fillers whose tokens make up a remainder exactly, as token sequences.
pub fn remainder_statements(target: usize, tok: &Tokenizer) -> (found: Option<Vec<Vec<usize>>>)
    ensures
        match (found, made_up(tok@, target as nat)) {
            (Some(list), Some(wanted)) => sentences::deep(list@) == wanted,
            (None, None) => true,
            _ => false,
        },
{
    proof {
        chinchilla_laws::lemma_fillers_well_formed();
    }
    let all: Vec<Vec<usize>> = filler_statements();
    assert(sentences::deep(all@).len() == 12);
    let lens: Vec<usize> = base::count_lines(tok, &all);
    match remainder::make_up(&lens, target) {
        None => None,
        Some(picks) => {
            proof {
                remainder::law_search_is_exact(lens@, target as nat);
            }
            let mut list: Vec<Vec<usize>> = Vec::new();
            assert(sentences::deep(list@) =~= picked(fillers(), picks@).take(0));
            for i in 0..picks.len()
                invariant
                    sentences::deep(all@) == fillers(),
                    lens@.len() == fillers().len(),
                    remainder::usable(lens@, picks@),
                    sentences::deep(list@) == picked(fillers(), picks@).take(i as int),
            {
                assert(picks@[i as int] < lens@.len());
                assert(all@.len() == fillers().len());
                let sentence: Vec<usize> = all[picks[i]].clone();
                assert(sentence@ =~= all@[picks@[i as int] as int]@);
                assert(sentence@ == sentences::deep(all@)[picks@[i as int] as int]);
                proof {
                    sentences::lemma_deep_push(list@, sentence);
                }
                list.push(sentence);
                assert(sentences::deep(list@) =~= picked(fillers(), picks@).take(i + 1));
            }
            assert(sentences::deep(list@) =~= picked(fillers(), picks@));
            Some(list)
        },
    }
}

/// Finds fillers whose tokens make up a remainder exactly, one line each.
pub fn solve_remainder(target: usize, tok: &Tokenizer) -> (found: Option<Vec<String>>)
    ensures
        match (found, made_up(tok@, target as nat)) {
            (Some(lines), Some(wanted)) => text::views(lines@) == sentences::spelled_all(wanted),
            (None, None) => true,
            _ => false,
        },
{
    match remainder_statements(target, tok) {
        None => None,
        Some(list) => {
            proof {
                chinchilla_laws::lemma_made_up_well_formed(tok@, target as nat);
            }
            Some(sentences::spell_lines(&list))
        },
    }
}

/// Whether every line of a list survives encoding and decoding under a vocabulary.
pub open spec fn faithful(vocab: Seq<Seq<char>>, list: Seq<Seq<usize>>) -> bool {
    forall|i: int|
        0 <= i < list.len() ==> tokenizer::decoding(
            vocab,
            tokenizer::encoding(vocab, sentences::spelled(#[trigger] list[i])),
        ) == sentences::spelled(list[i])
}

/// Whether every line survives encoding and decoding.
pub fn is_faithful(tok: &Tokenizer, list: &Vec<Vec<usize>>) -> (b: bool)
    requires
        sentences::all_well_formed(sentences::deep(list@)),
    ensures
        b <==> faithful(tok@, sentences::deep(list@)),
{
    let lines: Vec<String> = sentences::spell_lines(list);
    let ghost all = sentences::deep(list@);
    assert(text::views(lines@).len() == all.len());
    for i in 0..lines.len()
        invariant
            all == sentences::deep(list@),
            lines@.len() == all.len(),
            text::views(lines@) == sentences::spelled_all(all),
            forall|j: int|
                0 <= j < i ==> tokenizer::decoding(
                    tok@,
                    tokenizer::encoding(tok@, sentences::spelled(#[trigger] all[j])),
                ) == sentences::spelled(all[j]),
    {
        assert(text::views(lines@)[i as int] == sentences::spelled(all[i as int]));
        let ids: Vec<usize> = tok.encode(lines[i].as_str());
        let back: String = tok.decode(ids.as_slice());
        if back != lines[i] {
            return false;
        }
    }
    true
}

/// The tokens that the pool leaves missing of a target.
pub open spec fn pretrain_missing(vocab: Seq<Seq<char>>, target: nat) -> nat {
    filling::missing(base::line_lens(vocab, pool()), MARGIN as nat, target)
}

/// The sentences of the pre-training text: the pool over and over, then the fillers.
pub open spec fn pretrain(vocab: Seq<Seq<char>>, target: nat) -> Seq<Seq<usize>> {
    let lens = base::line_lens(vocab, pool());
    filling::cycled(pool(), filling::lines_taken(lens, MARGIN as nat, target)) + made_up(
        vocab,
        pretrain_missing(vocab, target),
    )->0
}

/// Whether pool and fillers meet a target exactly, and every line survives a round trip.
pub open spec fn pretrain_exists(vocab: Seq<Seq<char>>, target: nat) -> bool {
    &&& filling::fillable(base::line_lens(vocab, pool()), MARGIN as nat, target)
    &&& made_up(vocab, pretrain_missing(vocab, target)) is Some
    &&& tokenizer::encoding(vocab, sentences::text_of(pretrain(vocab, target))).len() == target
    &&& faithful(vocab, pretrain(vocab, target))
}

/// Builds a pre-training text of exactly `target_len` tokens. There is none where pool and
/// fillers do not meet the target under the given tokenizer, or some line does not survive a
/// round trip.
pub fn build_pretrain_corpus(tok: &Tokenizer, target_len: usize) -> (corpus: Option<String>)
    ensures
        corpus is Some <==> pretrain_exists(tok@, target_len as nat),
        corpus matches Some(text) ==> text@ == sentences::text_of(
            pretrain(tok@, target_len as nat),
        ) && tokenizer::encoding(tok@, text@).len() == target_len,
{
    proof {
        chinchilla_laws::law_pool_is_sound();
    }
    let all: Vec<Vec<usize>> = pool_statements();
    assert(sentences::deep(all@).len() > 0);
    let lens: Vec<usize> = base::count_lines(tok, &all);
    match filling::fill(&lens, MARGIN, target_len) {
        None => None,
        Some((picks, rest)) => match remainder_statements(rest, tok) {
            None => None,
            Some(fillers) => {
                let mut list: Vec<Vec<usize>> = base::pick_lines(&all, &picks);
                sentences::push_all(&mut list, &fillers);
                assert(sentences::deep(list@) == pretrain(tok@, target_len as nat));
                proof {
                    chinchilla_laws::lemma_pretrain_well_formed(tok@, target_len as nat);
                }
                let text: String = unified::text_of_sentences(&list);
                let tokens: usize = tok.encode(text.as_str()).len();
                if tokens != target_len || !is_faithful(tok, &list) {
                    return None;
                }
                Some(text)
            },
        },
    }
}

/// Whether the instruction text has the wanted number of tokens, and every line survives a round
/// trip.
pub open spec fn instruct_exists(vocab: Seq<Seq<char>>) -> bool {
    &&& INSTRUCT_MIN <= tokenizer::encoding(vocab, sentences::text_of(instruct())).len()
        <= INSTRUCT_MAX
    &&& faithful(vocab, instruct())
}

/// Builds the instruction text of dialogues. There is none where it does not have the wanted
/// number of tokens under the given tokenizer, or some line does not survive a round trip.
pub fn build_instruct_corpus(tok: &Tokenizer) -> (corpus: Option<String>)
    ensures
        corpus is Some <==> instruct_exists(tok@),
        corpus matches Some(text) ==> text@ == sentences::text_of(instruct()),
{
    proof {
        chinchilla_laws::lemma_instruct_well_formed();
    }
    let list: Vec<Vec<usize>> = instruct_statements();
    let text: String = unified::text_of_sentences(&list);
    let tokens: usize = tok.encode(text.as_str()).len();
    if tokens < INSTRUCT_MIN || tokens > INSTRUCT_MAX || !is_faithful(tok, &list) {
        return None;
    }
    Some(text)
}

} // verus!
