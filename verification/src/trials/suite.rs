//! The control suites: what a trained model is asked, and what it should answer.

use vstd::prelude::*;

use crate::classic::telemetry::{passed_count, TestCaseResult};
use crate::classic::telemetry;
use crate::classic::tokenizer::{Tokenizer, VOCAB_CHINCHILLA};
use crate::classic::tokenizer;
use crate::corpus::sentences;
use crate::corpus::words::{
    ANIMAL, BEAR, BEAST, BIRD, BOT, BURROW, CAT, D0, D1, D2, D3, D4, D5, D6, D7, D8, D9, DOG,
    EATS, EOS, EQUALS, FIELD, FISH, FOREST, FOX, FRIEND, GRASS, HARE, HOME, IF, IS, MINUS, NO,
    OAK, OVER, PIKE, PLUS, PREDATOR, RIVER, SKY, SNAKE, SO, TAIGA, TIMES, TREE, USER, WATER,
    WHERE, WHO, WOLF, YES,
};
use crate::trials::suite_laws;

verus! {

/// Sums and differences, as dialogues.
pub const BASE_DIALOGUES: [[usize; 8]; 3] = [
    [USER, D2, PLUS, D3, EQUALS, BOT, D5, EOS],
    [USER, D1, PLUS, D2, EQUALS, BOT, D3, EOS],
    [USER, D4, MINUS, D1, EQUALS, BOT, D3, EOS],
];

/// Who the cat and the dog are, as dialogues.
pub const BASE_FACTS: [[usize; 8]; 2] = [
    [USER, WHO, CAT, BOT, CAT, IS, ANIMAL, EOS],
    [USER, WHO, DOG, BOT, DOG, IS, FRIEND, EOS],
];

/// Relations, as dialogues.
pub const BASE_VERDICTS: [[usize; 7]; 2] = [
    [USER, CAT, IS, DOG, BOT, NO, EOS],
    [USER, CAT, IS, ANIMAL, BOT, YES, EOS],
];

/// A sum and a difference.
pub const BASE_EQUATIONS: [[usize; 6]; 2] = [
    [D2, PLUS, D3, EQUALS, D5, EOS],
    [D4, MINUS, D1, EQUALS, D3, EOS],
];

/// A relation.
pub const BASE_RELATION: [[usize; 6]; 1] = [
    [CAT, IS, DOG, EQUALS, NO, EOS],
];

/// Sums, differences and products, as dialogues.
pub const V2_DIALOGUES: [[usize; 8]; 13] = [
    [USER, D2, PLUS, D3, EQUALS, BOT, D5, EOS],
    [USER, D1, PLUS, D2, EQUALS, BOT, D3, EOS],
    [USER, D3, PLUS, D4, EQUALS, BOT, D7, EOS],
    [USER, D5, PLUS, D3, EQUALS, BOT, D8, EOS],
    [USER, D4, PLUS, D5, EQUALS, BOT, D9, EOS],
    [USER, D4, MINUS, D1, EQUALS, BOT, D3, EOS],
    [USER, D5, MINUS, D2, EQUALS, BOT, D3, EOS],
    [USER, D9, MINUS, D4, EQUALS, BOT, D5, EOS],
    [USER, D8, MINUS, D3, EQUALS, BOT, D5, EOS],
    [USER, D7, MINUS, D2, EQUALS, BOT, D5, EOS],
    [USER, D2, TIMES, D3, EQUALS, BOT, D6, EOS],
    [USER, D2, TIMES, D2, EQUALS, BOT, D4, EOS],
    [USER, D3, TIMES, D3, EQUALS, BOT, D9, EOS],
];

/// Who someone is, as dialogues.
pub const V2_FACTS: [[usize; 8]; 4] = [
    [USER, WHO, CAT, BOT, CAT, IS, ANIMAL, EOS],
    [USER, WHO, DOG, BOT, DOG, IS, FRIEND, EOS],
    [USER, WHO, WOLF, BOT, WOLF, IS, BEAST, EOS],
    [USER, WHO, FOX, BOT, FOX, IS, PREDATOR, EOS],
];

/// Where someone is, as dialogues.
pub const V2_PLACES: [[usize; 6]; 4] = [
    [USER, WHERE, WOLF, BOT, FOREST, EOS],
    [USER, WHERE, FISH, BOT, RIVER, EOS],
    [USER, WHERE, CAT, BOT, HOME, EOS],
    [USER, WHERE, BIRD, BOT, SKY, EOS],
];

/// Relations, as dialogues.
pub const V2_VERDICTS: [[usize; 7]; 4] = [
    [USER, CAT, IS, DOG, BOT, NO, EOS],
    [USER, WOLF, IS, DOG, BOT, NO, EOS],
    [USER, CAT, IS, ANIMAL, BOT, YES, EOS],
    [USER, WOLF, IS, BEAST, BOT, YES, EOS],
];

/// A sum, a difference and a product.
pub const V2_EQUATIONS: [[usize; 6]; 3] = [
    [D2, PLUS, D3, EQUALS, D5, EOS],
    [D4, MINUS, D1, EQUALS, D3, EOS],
    [D2, TIMES, D3, EQUALS, D6, EOS],
];

/// A relation.
pub const V2_RELATION: [[usize; 6]; 1] = [
    [WOLF, IS, BEAST, EQUALS, YES, EOS],
];

/// Where someone is.
pub const V2_PLACE: [[usize; 5]; 1] = [
    [WHERE, FISH, EQUALS, RIVER, EOS],
];

/// Sums, as dialogues.
pub const V3_SUM_DIALOGUES: [[usize; 8]; 8] = [
    [USER, D2, PLUS, D3, EQUALS, BOT, D5, EOS],
    [USER, D1, PLUS, D2, EQUALS, BOT, D3, EOS],
    [USER, D0, PLUS, D1, EQUALS, BOT, D1, EOS],
    [USER, D2, PLUS, D2, EQUALS, BOT, D4, EOS],
    [USER, D3, PLUS, D1, EQUALS, BOT, D4, EOS],
    [USER, D3, PLUS, D4, EQUALS, BOT, D7, EOS],
    [USER, D5, PLUS, D3, EQUALS, BOT, D8, EOS],
    [USER, D4, PLUS, D5, EQUALS, BOT, D9, EOS],
];

/// Sums.
pub const V3_SUMS: [[usize; 6]; 2] = [
    [D2, PLUS, D3, EQUALS, D5, EOS],
    [D3, PLUS, D4, EQUALS, D7, EOS],
];

/// Differences, as dialogues.
pub const V3_DIFFERENCE_DIALOGUES: [[usize; 8]; 8] = [
    [USER, D4, MINUS, D1, EQUALS, BOT, D3, EOS],
    [USER, D5, MINUS, D2, EQUALS, BOT, D3, EOS],
    [USER, D3, MINUS, D1, EQUALS, BOT, D2, EOS],
    [USER, D2, MINUS, D1, EQUALS, BOT, D1, EOS],
    [USER, D5, MINUS, D5, EQUALS, BOT, D0, EOS],
    [USER, D9, MINUS, D4, EQUALS, BOT, D5, EOS],
    [USER, D8, MINUS, D3, EQUALS, BOT, D5, EOS],
    [USER, D7, MINUS, D2, EQUALS, BOT, D5, EOS],
];

/// Differences.
pub const V3_DIFFERENCES: [[usize; 6]; 2] = [
    [D4, MINUS, D1, EQUALS, D3, EOS],
    [D8, MINUS, D3, EQUALS, D5, EOS],
];

/// Products and quotients, as dialogues.
pub const V3_PRODUCT_DIALOGUES: [[usize; 8]; 8] = [
    [USER, D2, TIMES, D3, EQUALS, BOT, D6, EOS],
    [USER, D2, TIMES, D2, EQUALS, BOT, D4, EOS],
    [USER, D3, TIMES, D3, EQUALS, BOT, D9, EOS],
    [USER, D4, TIMES, D2, EQUALS, BOT, D8, EOS],
    [USER, D6, OVER, D2, EQUALS, BOT, D3, EOS],
    [USER, D8, OVER, D4, EQUALS, BOT, D2, EOS],
    [USER, D9, OVER, D3, EQUALS, BOT, D3, EOS],
    [USER, D4, OVER, D2, EQUALS, BOT, D2, EOS],
];

/// A product and a quotient.
pub const V3_PRODUCTS: [[usize; 6]; 2] = [
    [D2, TIMES, D3, EQUALS, D6, EOS],
    [D6, OVER, D2, EQUALS, D3, EOS],
];

/// Who someone is, as dialogues.
pub const V3_FACT_DIALOGUES: [[usize; 8]; 8] = [
    [USER, WHO, CAT, BOT, CAT, IS, ANIMAL, EOS],
    [USER, WHO, DOG, BOT, DOG, IS, FRIEND, EOS],
    [USER, WHO, WOLF, BOT, WOLF, IS, BEAST, EOS],
    [USER, WHO, FOX, BOT, FOX, IS, PREDATOR, EOS],
    [USER, WHO, BEAR, BOT, BEAR, IS, BEAST, EOS],
    [USER, WHO, PIKE, BOT, PIKE, IS, FISH, EOS],
    [USER, WHO, SNAKE, BOT, SNAKE, IS, PREDATOR, EOS],
    [USER, WHO, OAK, BOT, OAK, IS, TREE, EOS],
];

/// Who someone is.
pub const V3_FACTS: [[usize; 7]; 2] = [
    [WHO, CAT, EQUALS, CAT, IS, ANIMAL, EOS],
    [WHO, BEAR, EQUALS, BEAR, IS, BEAST, EOS],
];

/// Where someone is, as dialogues.
pub const V3_PLACE_DIALOGUES: [[usize; 6]; 8] = [
    [USER, WHERE, WOLF, BOT, FOREST, EOS],
    [USER, WHERE, FISH, BOT, RIVER, EOS],
    [USER, WHERE, CAT, BOT, HOME, EOS],
    [USER, WHERE, BIRD, BOT, SKY, EOS],
    [USER, WHERE, BEAR, BOT, TAIGA, EOS],
    [USER, WHERE, PIKE, BOT, WATER, EOS],
    [USER, WHERE, SNAKE, BOT, BURROW, EOS],
    [USER, WHERE, HARE, BOT, FIELD, EOS],
];

/// Where someone is.
pub const V3_PLACES: [[usize; 5]; 2] = [
    [WHERE, FISH, EQUALS, RIVER, EOS],
    [WHERE, BEAR, EQUALS, TAIGA, EOS],
];

/// Relations and food chains, as dialogues.
pub const V3_VERDICT_DIALOGUES: [[usize; 7]; 8] = [
    [USER, CAT, IS, DOG, BOT, NO, EOS],
    [USER, CAT, IS, ANIMAL, BOT, YES, EOS],
    [USER, BEAR, IS, FISH, BOT, NO, EOS],
    [USER, PIKE, IS, FISH, BOT, YES, EOS],
    [USER, WOLF, EATS, HARE, BOT, YES, EOS],
    [USER, HARE, EATS, WOLF, BOT, NO, EOS],
    [USER, PIKE, EATS, FISH, BOT, YES, EOS],
    [USER, FISH, EATS, PIKE, BOT, NO, EOS],
];

/// A relation and a food chain.
pub const V3_VERDICTS: [[usize; 6]; 2] = [
    [WOLF, IS, BEAST, EQUALS, YES, EOS],
    [BEAR, EATS, FISH, EQUALS, YES, EOS],
];

/// Differences in pairs, as dialogues.
pub const PAIRED_DIFFERENCES: [[usize; 8]; 8] = [
    [USER, D5, MINUS, D2, EQUALS, BOT, D3, EOS],
    [USER, D5, MINUS, D3, EQUALS, BOT, D2, EOS],
    [USER, D4, MINUS, D1, EQUALS, BOT, D3, EOS],
    [USER, D4, MINUS, D3, EQUALS, BOT, D1, EOS],
    [USER, D9, MINUS, D4, EQUALS, BOT, D5, EOS],
    [USER, D9, MINUS, D5, EQUALS, BOT, D4, EOS],
    [USER, D3, MINUS, D1, EQUALS, BOT, D2, EOS],
    [USER, D3, MINUS, D2, EQUALS, BOT, D1, EOS],
];

/// Differences.
pub const BASE_DIFFERENCES: [[usize; 6]; 2] = [
    [D4, MINUS, D1, EQUALS, D3, EOS],
    [D5, MINUS, D2, EQUALS, D3, EOS],
];

/// Relations, as dialogues.
pub const RELATION_VERDICTS: [[usize; 7]; 4] = [
    [USER, CAT, IS, DOG, BOT, NO, EOS],
    [USER, CAT, IS, ANIMAL, BOT, YES, EOS],
    [USER, BEAR, IS, FISH, BOT, NO, EOS],
    [USER, PIKE, IS, FISH, BOT, YES, EOS],
];

/// An implication, as a dialogue.
pub const IMPLICATION: [[usize; 11]; 1] = [
    [USER, IF, WOLF, EATS, HARE, SO, WOLF, PREDATOR, BOT, YES, EOS],
];

/// A false implication, as a dialogue.
pub const FALSE_IMPLICATION: [[usize; 8]; 1] = [
    [USER, IF, HARE, EATS, WOLF, BOT, NO, EOS],
];

/// Food chains, as dialogues.
pub const FOOD_VERDICTS: [[usize; 7]; 2] = [
    [USER, WOLF, EATS, HARE, BOT, YES, EOS],
    [USER, HARE, EATS, WOLF, BOT, NO, EOS],
];

/// Longer food chains, as dialogues.
pub const CHAIN_VERDICTS: [[usize; 10]; 2] = [
    [USER, WOLF, EATS, HARE, HARE, EATS, GRASS, BOT, YES, EOS],
    [USER, PIKE, EATS, FISH, FISH, EATS, GRASS, BOT, YES, EOS],
];

/// What the tasks of this suite are about.
pub const BASE_CATEGORIES: [&'static str; 10] = [
    "Addition Arithmetic",
    "Addition Arithmetic",
    "Subtraction Arithmetic",
    "Entity Fact / Definition",
    "Entity Fact / Definition",
    "Boolean Logic Negation",
    "Boolean Logic Affirmation",
    "Base Addition Formulation",
    "Base Subtraction Formulation",
    "Base Logic Formulation",
];

/// What the tasks of this suite are about.
pub const V2_CATEGORIES: [&'static str; 30] = [
    "Addition Arithmetic (Basic)",
    "Addition Arithmetic (Basic)",
    "Addition Arithmetic (Extended)",
    "Addition Arithmetic (Extended)",
    "Addition Arithmetic (Extended)",
    "Subtraction Arithmetic (Basic)",
    "Subtraction Arithmetic (Basic)",
    "Subtraction Arithmetic (Extended)",
    "Subtraction Arithmetic (Extended)",
    "Subtraction Arithmetic (Extended)",
    "Multiplication Arithmetic",
    "Multiplication Arithmetic",
    "Multiplication Arithmetic",
    "Entity Fact / Definition",
    "Entity Fact / Definition",
    "Entity Fact / Definition",
    "Entity Fact / Definition",
    "Spatial Reasoning",
    "Spatial Reasoning",
    "Spatial Reasoning",
    "Spatial Reasoning",
    "Boolean Logic Negation",
    "Boolean Logic Negation",
    "Boolean Logic Affirmation",
    "Boolean Logic Affirmation",
    "Anti-Forgetting Base Addition",
    "Anti-Forgetting Base Subtraction",
    "Anti-Forgetting Base Multiplication",
    "Anti-Forgetting Base Logic",
    "Anti-Forgetting Base Spatial",
];

/// What the tasks of this suite are about.
pub const V3_CATEGORIES: [&'static str; 60] = [
    "Addition Arithmetic (Basic)",
    "Addition Arithmetic (Basic)",
    "Addition Arithmetic (Basic)",
    "Addition Arithmetic (Basic)",
    "Addition Arithmetic (Basic)",
    "Addition Arithmetic (Extended)",
    "Addition Arithmetic (Extended)",
    "Addition Arithmetic (Extended)",
    "Addition Arithmetic (Base Prompt)",
    "Addition Arithmetic (Base Prompt)",
    "Subtraction Arithmetic (Basic)",
    "Subtraction Arithmetic (Basic)",
    "Subtraction Arithmetic (Basic)",
    "Subtraction Arithmetic (Basic)",
    "Subtraction Arithmetic (Basic)",
    "Subtraction Arithmetic (Extended)",
    "Subtraction Arithmetic (Extended)",
    "Subtraction Arithmetic (Extended)",
    "Subtraction Arithmetic (Base Prompt)",
    "Subtraction Arithmetic (Base Prompt)",
    "Multiplication Arithmetic (Basic)",
    "Multiplication Arithmetic (Basic)",
    "Multiplication Arithmetic (Basic)",
    "Multiplication Arithmetic (Extended)",
    "Division Arithmetic (Exact)",
    "Division Arithmetic (Exact)",
    "Division Arithmetic (Exact)",
    "Division Arithmetic (Exact)",
    "Multiplication Arithmetic (Base Prompt)",
    "Division Arithmetic (Base Prompt)",
    "Entity Taxonomy (кот)",
    "Entity Taxonomy (пес)",
    "Entity Taxonomy (волк)",
    "Entity Taxonomy (лиса)",
    "Entity Taxonomy (медведь)",
    "Entity Taxonomy (щука)",
    "Entity Taxonomy (змея)",
    "Entity Taxonomy (дуб)",
    "Entity Taxonomy (Base Prompt)",
    "Entity Taxonomy (Base Prompt)",
    "Spatial Reasoning (волк)",
    "Spatial Reasoning (рыба)",
    "Spatial Reasoning (кот)",
    "Spatial Reasoning (птица)",
    "Spatial Reasoning (медведь)",
    "Spatial Reasoning (щука)",
    "Spatial Reasoning (змея)",
    "Spatial Reasoning (заяц)",
    "Spatial Reasoning (Base Prompt)",
    "Spatial Reasoning (Base Prompt)",
    "Boolean Logic (Negation)",
    "Boolean Logic (Affirmation)",
    "Boolean Logic (Negation)",
    "Boolean Logic (Affirmation)",
    "Transitivity / Food Chain (Affirmation)",
    "Transitivity / Food Chain (Negation)",
    "Transitivity / Food Chain (Affirmation)",
    "Transitivity / Food Chain (Negation)",
    "Boolean Logic (Base Prompt)",
    "Transitivity / Food Chain (Base Prompt)",
];

/// What the tasks of this suite are about.
pub const CHINCHILLA_CATEGORIES: [&'static str; 60] = [
    "Addition Arithmetic (Basic)",
    "Addition Arithmetic (Basic)",
    "Addition Arithmetic (Basic)",
    "Addition Arithmetic (Basic)",
    "Addition Arithmetic (Basic)",
    "Addition Arithmetic (Extended)",
    "Addition Arithmetic (Extended)",
    "Addition Arithmetic (Extended)",
    "Addition Arithmetic (Base Prompt)",
    "Addition Arithmetic (Base Prompt)",
    "Subtraction (Pair A: 5 - 2)",
    "Subtraction (Pair A: 5 - 3)",
    "Subtraction (Pair B: 4 - 1)",
    "Subtraction (Pair B: 4 - 3)",
    "Subtraction (Pair C: 9 - 4)",
    "Subtraction (Pair C: 9 - 5)",
    "Subtraction (Pair D: 3 - 1)",
    "Subtraction (Pair D: 3 - 2)",
    "Subtraction (Base Prompt: 4 - 1)",
    "Subtraction (Base Prompt: 5 - 2)",
    "Multiplication Arithmetic (Basic)",
    "Multiplication Arithmetic (Basic)",
    "Multiplication Arithmetic (Basic)",
    "Multiplication Arithmetic (Extended)",
    "Division Arithmetic (Exact)",
    "Division Arithmetic (Exact)",
    "Division Arithmetic (Exact)",
    "Division Arithmetic (Exact)",
    "Multiplication Arithmetic (Base Prompt)",
    "Division Arithmetic (Base Prompt)",
    "Entity Taxonomy (кот)",
    "Entity Taxonomy (пес)",
    "Entity Taxonomy (волк)",
    "Entity Taxonomy (лиса)",
    "Entity Taxonomy (медведь)",
    "Entity Taxonomy (щука)",
    "Entity Taxonomy (змея)",
    "Entity Taxonomy (дуб)",
    "Entity Taxonomy (Base Prompt)",
    "Entity Taxonomy (Base Prompt)",
    "Spatial Reasoning (волк)",
    "Spatial Reasoning (рыба)",
    "Spatial Reasoning (кот)",
    "Spatial Reasoning (птица)",
    "Spatial Reasoning (медведь)",
    "Spatial Reasoning (щука)",
    "Spatial Reasoning (змея)",
    "Spatial Reasoning (заяц)",
    "Spatial Reasoning (Base Prompt)",
    "Spatial Reasoning (Base Prompt)",
    "Boolean Logic (Negation)",
    "Boolean Logic (Affirmation)",
    "Boolean Logic (Negation)",
    "Boolean Logic (Affirmation)",
    "Boolean Logic (Implication)",
    "Boolean Logic (Negative Implication)",
    "Food Chain Predicate (Affirmation)",
    "Food Chain Predicate (Negation)",
    "Transitivity Chain (Food Chain)",
    "Transitivity Chain (Food Chain)",
];

/// The names of the domains of the suite over the third corpus.
pub const V3_DOMAINS: [&'static str; 6] = [
    "Addition Arithmetic",
    "Subtraction Arithmetic",
    "Multiplication & Division",
    "Taxonomy & Entity Definitions",
    "Spatial Reasoning",
    "Boolean Logic & Transitivity",
];

/// The names of the domains of the suite over the Chinchilla corpora.
pub const CHINCHILLA_DOMAINS: [&'static str; 6] = [
    "Addition Arithmetic (+)",
    "Subtraction Arithmetic (-) (A-B != B-A)",
    "Multiplication & Division (*, /)",
    "Taxonomy & Entity Facts",
    "Spatial Reasoning (где)",
    "Boolean Logic & Transitivity Chains",
];

/// The number of tasks of a domain.
pub const DOMAIN_TASKS: usize = 10;

/// A control suite.
#[derive(Debug, Clone, Copy, PartialEq, Eq, Structural)]
pub enum Suite {
    /// Ten tasks over the first words.
    Base,
    /// Thirty tasks over the second corpus.
    CorpusV2,
    /// Sixty tasks over the third corpus.
    CorpusV3,
    /// Sixty tasks over the Chinchilla corpora.
    Chinchilla,
}

/// The token behind which the answer of a sentence begins.
pub open spec fn marker(sentence: Seq<usize>) -> usize {
    if sentence[0] == USER {
        BOT
    } else {
        EQUALS
    }
}

/// The number of words up to the first occurrence of a word, that occurrence included.
pub open spec fn up_to(sentence: Seq<usize>, word: usize) -> nat
    decreases sentence.len(),
{
    if sentence.len() == 0 {
        0
    } else if sentence[0] == word {
        1
    } else {
        1 + up_to(sentence.drop_first(), word)
    }
}

/// The number of words of the question in a sentence.
pub open spec fn asked(sentence: Seq<usize>) -> nat {
    up_to(sentence, marker(sentence))
}

/// The question in a sentence.
pub open spec fn question(sentence: Seq<usize>) -> Seq<usize> {
    sentence.take(asked(sentence) as int)
}

/// The answer in a sentence.
pub open spec fn answer(sentence: Seq<usize>) -> Seq<usize> {
    sentence.skip(asked(sentence) as int)
}

impl Suite {
    /// The tasks, each as the sentence of its question and its answer.
    pub open spec fn tasks(self) -> Seq<Seq<usize>> {
        match self {
            Suite::Base => sentences::rows(BASE_DIALOGUES@)
                + sentences::rows(BASE_FACTS@)
                + sentences::rows(BASE_VERDICTS@)
                + sentences::rows(BASE_EQUATIONS@)
                + sentences::rows(BASE_RELATION@),
            Suite::CorpusV2 => sentences::rows(V2_DIALOGUES@)
                + sentences::rows(V2_FACTS@)
                + sentences::rows(V2_PLACES@)
                + sentences::rows(V2_VERDICTS@)
                + sentences::rows(V2_EQUATIONS@)
                + sentences::rows(V2_RELATION@)
                + sentences::rows(V2_PLACE@),
            Suite::CorpusV3 => sentences::rows(V3_SUM_DIALOGUES@)
                + sentences::rows(V3_SUMS@)
                + sentences::rows(V3_DIFFERENCE_DIALOGUES@)
                + sentences::rows(V3_DIFFERENCES@)
                + sentences::rows(V3_PRODUCT_DIALOGUES@)
                + sentences::rows(V3_PRODUCTS@)
                + sentences::rows(V3_FACT_DIALOGUES@)
                + sentences::rows(V3_FACTS@)
                + sentences::rows(V3_PLACE_DIALOGUES@)
                + sentences::rows(V3_PLACES@)
                + sentences::rows(V3_VERDICT_DIALOGUES@)
                + sentences::rows(V3_VERDICTS@),
            Suite::Chinchilla => sentences::rows(V3_SUM_DIALOGUES@)
                + sentences::rows(V3_SUMS@)
                + sentences::rows(PAIRED_DIFFERENCES@)
                + sentences::rows(BASE_DIFFERENCES@)
                + sentences::rows(V3_PRODUCT_DIALOGUES@)
                + sentences::rows(V3_PRODUCTS@)
                + sentences::rows(V3_FACT_DIALOGUES@)
                + sentences::rows(V3_FACTS@)
                + sentences::rows(V3_PLACE_DIALOGUES@)
                + sentences::rows(V3_PLACES@)
                + sentences::rows(RELATION_VERDICTS@)
                + sentences::rows(IMPLICATION@)
                + sentences::rows(FALSE_IMPLICATION@)
                + sentences::rows(FOOD_VERDICTS@)
                + sentences::rows(CHAIN_VERDICTS@),
        }
    }

    /// What the tasks are about.
    pub open spec fn categories(self) -> Seq<&'static str> {
        match self {
            Suite::Base => BASE_CATEGORIES@,
            Suite::CorpusV2 => V2_CATEGORIES@,
            Suite::CorpusV3 => V3_CATEGORIES@,
            Suite::Chinchilla => CHINCHILLA_CATEGORIES@,
        }
    }

    /// The number of tasks.
    pub open spec fn size(self) -> nat {
        match self {
            Suite::Base => 10,
            Suite::CorpusV2 => 30,
            Suite::CorpusV3 => 60,
            Suite::Chinchilla => 60,
        }
    }

    /// The number of tasks.
    pub fn len(self) -> (len: usize)
        ensures
            len == self.size(),
    {
        match self {
            Suite::Base => 10,
            Suite::CorpusV2 => 30,
            Suite::CorpusV3 => 60,
            Suite::Chinchilla => 60,
        }
    }

    /// The tasks, each as the sentence of its question and its answer.
    pub fn sentences(self) -> (list: Vec<Vec<usize>>)
        ensures
            sentences::deep(list@) == self.tasks(),
    {
        let mut list: Vec<Vec<usize>> = Vec::new();
        assert(sentences::deep(list@) =~= Seq::empty());
        match self {
            Suite::Base => {
                sentences::push_rows(&mut list, &BASE_DIALOGUES);
                sentences::push_rows(&mut list, &BASE_FACTS);
                sentences::push_rows(&mut list, &BASE_VERDICTS);
                sentences::push_rows(&mut list, &BASE_EQUATIONS);
                sentences::push_rows(&mut list, &BASE_RELATION);
            },
            Suite::CorpusV2 => {
                sentences::push_rows(&mut list, &V2_DIALOGUES);
                sentences::push_rows(&mut list, &V2_FACTS);
                sentences::push_rows(&mut list, &V2_PLACES);
                sentences::push_rows(&mut list, &V2_VERDICTS);
                sentences::push_rows(&mut list, &V2_EQUATIONS);
                sentences::push_rows(&mut list, &V2_RELATION);
                sentences::push_rows(&mut list, &V2_PLACE);
            },
            Suite::CorpusV3 => {
                sentences::push_rows(&mut list, &V3_SUM_DIALOGUES);
                sentences::push_rows(&mut list, &V3_SUMS);
                sentences::push_rows(&mut list, &V3_DIFFERENCE_DIALOGUES);
                sentences::push_rows(&mut list, &V3_DIFFERENCES);
                sentences::push_rows(&mut list, &V3_PRODUCT_DIALOGUES);
                sentences::push_rows(&mut list, &V3_PRODUCTS);
                sentences::push_rows(&mut list, &V3_FACT_DIALOGUES);
                sentences::push_rows(&mut list, &V3_FACTS);
                sentences::push_rows(&mut list, &V3_PLACE_DIALOGUES);
                sentences::push_rows(&mut list, &V3_PLACES);
                sentences::push_rows(&mut list, &V3_VERDICT_DIALOGUES);
                sentences::push_rows(&mut list, &V3_VERDICTS);
            },
            Suite::Chinchilla => {
                sentences::push_rows(&mut list, &V3_SUM_DIALOGUES);
                sentences::push_rows(&mut list, &V3_SUMS);
                sentences::push_rows(&mut list, &PAIRED_DIFFERENCES);
                sentences::push_rows(&mut list, &BASE_DIFFERENCES);
                sentences::push_rows(&mut list, &V3_PRODUCT_DIALOGUES);
                sentences::push_rows(&mut list, &V3_PRODUCTS);
                sentences::push_rows(&mut list, &V3_FACT_DIALOGUES);
                sentences::push_rows(&mut list, &V3_FACTS);
                sentences::push_rows(&mut list, &V3_PLACE_DIALOGUES);
                sentences::push_rows(&mut list, &V3_PLACES);
                sentences::push_rows(&mut list, &RELATION_VERDICTS);
                sentences::push_rows(&mut list, &IMPLICATION);
                sentences::push_rows(&mut list, &FALSE_IMPLICATION);
                sentences::push_rows(&mut list, &FOOD_VERDICTS);
                sentences::push_rows(&mut list, &CHAIN_VERDICTS);
            },
        }
        assert(sentences::deep(list@) =~= self.tasks());
        list
    }

    /// The names of the domains: none where a suite is not divided.
    pub open spec fn domains(self) -> Seq<&'static str> {
        match self {
            Suite::CorpusV3 => V3_DOMAINS@,
            Suite::Chinchilla => CHINCHILLA_DOMAINS@,
            _ => Seq::empty(),
        }
    }

    /// The name of a domain, where the suite has one at this position.
    pub fn domain(self, d: usize) -> (name: Option<&'static str>)
        ensures
            name is Some <==> d < self.domains().len(),
            name matches Some(n) ==> n@ == self.domains()[d as int]@,
    {
        if d >= 6 {
            return None;
        }
        match self {
            Suite::CorpusV3 => Some(V3_DOMAINS[d]),
            Suite::Chinchilla => Some(CHINCHILLA_DOMAINS[d]),
            _ => None,
        }
    }

    /// What a task is about.
    pub fn category(self, i: usize) -> (name: &'static str)
        requires
            i < self.size(),
        ensures
            name@ == self.categories()[i as int]@,
    {
        match self {
            Suite::Base => BASE_CATEGORIES[i],
            Suite::CorpusV2 => V2_CATEGORIES[i],
            Suite::CorpusV3 => V3_CATEGORIES[i],
            Suite::Chinchilla => CHINCHILLA_CATEGORIES[i],
        }
    }
}

/// A task as it is put to a model.
#[derive(Debug, Clone)]
pub struct ControlTask {
    /// What the model is asked.
    pub prompt: String,
    /// What it should answer.
    pub expected: String,
    /// What the task is about.
    pub category: &'static str,
}

impl ControlTask {
    /// The task at a position of a suite.
    pub open spec fn is_task(self, suite: Suite, i: int) -> bool {
        &&& self.prompt@ == sentences::spelled(question(suite.tasks()[i]))
        &&& self.expected@ == sentences::spelled(answer(suite.tasks()[i]))
        &&& self.category@ == suite.categories()[i]@
    }
}

/// The cases of a domain.
pub open spec fn of_domain(cases: Seq<TestCaseResult>, d: int) -> Seq<TestCaseResult> {
    cases.subrange(d * DOMAIN_TASKS, (d + 1) * DOMAIN_TASKS)
}

/// Counts the cases of a domain that passed.
pub fn domain_passed(cases: &Vec<TestCaseResult>, d: usize) -> (count: usize)
    requires
        (d + 1) * DOMAIN_TASKS <= cases@.len(),
    ensures
        count == telemetry::passed_of(of_domain(cases@, d as int)),
        count <= DOMAIN_TASKS,
{
    assert(cases.len() <= usize::MAX);
    passed_count(cases, d * DOMAIN_TASKS, d * DOMAIN_TASKS + DOMAIN_TASKS)
}

/// Counts the words of the question in a sentence.
pub fn count_asked(sentence: &[usize]) -> (count: usize)
    requires
        sentence@.len() > 0,
    ensures
        count == asked(sentence@),
        count <= sentence@.len(),
{
    let mark: usize = if sentence[0] == USER {
        BOT
    } else {
        EQUALS
    };
    let ghost whole = sentence@;
    let mut at: usize = 0;
    assert(whole.skip(0) =~= whole);
    while at < sentence.len()
        invariant
            whole == sentence@,
            mark == marker(whole),
            at <= whole.len(),
            asked(whole) == at + up_to(whole.skip(at as int), mark),
        decreases whole.len() - at,
    {
        assert(whole.skip(at as int).drop_first() =~= whole.skip(at + 1));
        if sentence[at] == mark {
            return at + 1;
        }
        at = at + 1;
    }
    assert(whole.skip(at as int).len() == 0);
    at
}

/// The tasks of a suite, as they are put to a model.
pub fn control_tasks(suite: Suite) -> (tasks: Vec<ControlTask>)
    ensures
        tasks@.len() == suite.size(),
        forall|i: int| 0 <= i < tasks@.len() ==> (#[trigger] tasks@[i]).is_task(suite, i),
{
    let tok: Tokenizer = Tokenizer::chinchilla();
    let list: Vec<Vec<usize>> = suite.sentences();
    proof {
        suite_laws::law_suites_are_sound(suite);
    }
    assert(list@.len() == sentences::deep(list@).len());
    let mut tasks: Vec<ControlTask> = Vec::new();
    for i in 0..list.len()
        invariant
            tok@ == tokenizer::words(VOCAB_CHINCHILLA@),
            sentences::deep(list@) == suite.tasks(),
            list@.len() == suite.size(),
            suite_laws::all_sound(suite.tasks(), 65),
            tasks@.len() == i,
            forall|j: int| 0 <= j < i ==> (#[trigger] tasks@[j]).is_task(suite, j),
    {
        let ghost sentence = suite.tasks()[i as int];
        assert(list@[i as int]@ == sentence);
        assert(suite_laws::sound_task(sentence, 65));
        let count: usize = count_asked(list[i].as_slice());
        let mut asks: Vec<usize> = Vec::new();
        for k in 0..count
            invariant
                i < list@.len(),
                sentence == list@[i as int]@,
                count <= sentence.len(),
                asks@ == sentence.take(k as int),
        {
            asks.push(list[i][k]);
            assert(asks@ =~= sentence.take(k + 1));
        }
        let mut answers: Vec<usize> = Vec::new();
        let len: usize = list[i].len();
        for k in count..len
            invariant
                i < list@.len(),
                sentence == list@[i as int]@,
                count <= k <= len,
                len == sentence.len(),
                answers@ == sentence.subrange(count as int, k as int),
        {
            answers.push(list[i][k]);
            assert(answers@ =~= sentence.subrange(count as int, k + 1));
        }
        assert(asks@ =~= question(sentence));
        assert(answers@ =~= answer(sentence));
        let prompt: String = tok.decode(asks.as_slice());
        let expected: String = tok.decode(answers.as_slice());
        tasks.push(ControlTask { prompt, expected, category: suite.category(i) });
    }
    tasks
}

} // verus!
