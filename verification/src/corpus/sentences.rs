//! Sentences as token sequences, their spelling, and the tables and drills they come from.

use vstd::prelude::*;

use crate::classic::tokenizer::{Tokenizer, VOCAB_CHINCHILLA};
use crate::classic::tokenizer;
use crate::corpus::words::EOS;
use crate::text;

verus! {

/// The number of tokens that sentences are made of.
pub const WORDS: usize = 65;

/// The line that spells a sentence: its words separated by single spaces.
pub open spec fn spelled(sentence: Seq<usize>) -> Seq<char> {
    tokenizer::decoding(tokenizer::words(VOCAB_CHINCHILLA@), sentence)
}

/// The lines that spell a list of sentences.
pub open spec fn spelled_all(sentences: Seq<Seq<usize>>) -> Seq<Seq<char>> {
    Seq::new(sentences.len(), |i: int| spelled(sentences[i]))
}

/// The text of a list of sentences: one line each, every line ended by a line feed.
pub open spec fn text_of(sentences: Seq<Seq<usize>>) -> Seq<char> {
    text::join(spelled_all(sentences), seq!['\n']) + seq!['\n']
}

/// A sentence over the vocabulary that ends with the end-of-sequence token and has it nowhere
/// else.
pub open spec fn well_formed(sentence: Seq<usize>) -> bool {
    &&& sentence.len() > 0
    &&& sentence.last() == EOS
    &&& forall|i: int| 0 <= i < sentence.len() - 1 ==> sentence[i] != EOS
    &&& tokenizer::in_vocab(sentence, WORDS as nat)
}

/// Every sentence is well formed.
pub open spec fn all_well_formed(sentences: Seq<Seq<usize>>) -> bool {
    forall|i: int| 0 <= i < sentences.len() ==> well_formed(#[trigger] sentences[i])
}

/// The views of a list of token vectors.
pub open spec fn deep(sentences: Seq<Vec<usize>>) -> Seq<Seq<usize>> {
    Seq::new(sentences.len(), |i: int| sentences[i]@)
}

/// The sentences in the rows of a table.
pub open spec fn rows<const L: usize>(table: Seq<[usize; L]>) -> Seq<Seq<usize>> {
    Seq::new(table.len(), |i: int| table[i]@)
}

/// Appending a vector appends its view.
pub proof fn lemma_deep_push(sentences: Seq<Vec<usize>>, sentence: Vec<usize>)
    ensures
        deep(sentences.push(sentence)) == deep(sentences).push(sentence@),
{
    assert(deep(sentences.push(sentence)) =~= deep(sentences).push(sentence@));
}

/// Appends the rows of a table.
pub fn push_rows<const L: usize, const N: usize>(
    sentences: &mut Vec<Vec<usize>>,
    table: &[[usize; L]; N],
)
    ensures
        deep(final(sentences)@) == deep(old(sentences)@) + rows(table@),
{
    let ghost before = deep(sentences@);
    for i in 0..N
        invariant
            deep(sentences@) == before + rows(table@).take(i as int),
    {
        let mut sentence: Vec<usize> = Vec::new();
        for j in 0..L
            invariant
                i < N,
                sentence@ == table@[i as int]@.take(j as int),
        {
            sentence.push(table[i][j]);
        }
        assert(sentence@ =~= table@[i as int]@);
        proof {
            lemma_deep_push(sentences@, sentence);
        }
        sentences.push(sentence);
        assert(deep(sentences@) =~= before + rows(table@).take(i + 1));
    }
    assert(rows(table@).take(N as int) =~= rows(table@));
}

/// Appends all sentences of another list.
pub fn push_all(sentences: &mut Vec<Vec<usize>>, more: &Vec<Vec<usize>>)
    ensures
        deep(final(sentences)@) == deep(old(sentences)@) + deep(more@),
{
    let ghost before = deep(sentences@);
    for i in 0..more.len()
        invariant
            deep(sentences@) == before + deep(more@).take(i as int),
    {
        let sentence: Vec<usize> = more[i].clone();
        assert(sentence@ =~= more@[i as int]@);
        proof {
            lemma_deep_push(sentences@, sentence);
        }
        sentences.push(sentence);
        assert(deep(sentences@) =~= before + deep(more@).take(i + 1));
    }
    assert(deep(more@).take(more@.len() as int) =~= deep(more@));
}

/// Spells every sentence on a line of its own.
pub fn spell_lines(sentences: &Vec<Vec<usize>>) -> (lines: Vec<String>)
    requires
        all_well_formed(deep(sentences@)),
    ensures
        text::views(lines@) == spelled_all(deep(sentences@)),
{
    let tok: Tokenizer = Tokenizer::chinchilla();
    let mut lines: Vec<String> = Vec::new();
    for i in 0..sentences.len()
        invariant
            tok@ == tokenizer::words(VOCAB_CHINCHILLA@),
            all_well_formed(deep(sentences@)),
            text::views(lines@) == spelled_all(deep(sentences@)).take(i as int),
    {
        assert(well_formed(deep(sentences@)[i as int]));
        let line: String = tok.decode(sentences[i].as_slice());
        proof {
            text::lemma_views_push(lines@, line);
        }
        lines.push(line);
        assert(text::views(lines@) =~= spelled_all(deep(sentences@)).take(i + 1));
    }
    assert(text::views(lines@) =~= spelled_all(deep(sentences@)));
    lines
}

/// Joins lines into a text in which every line is ended by a line feed.
pub fn text_of_lines(lines: &Vec<String>) -> (joined: String)
    ensures
        joined@ == text::join(text::views(lines@), seq!['\n']) + seq!['\n'],
{
    proof {
        reveal_strlit("\n");
    }
    assert("\n"@ =~= seq!['\n']);
    let mut joined: String = text::join_strings(lines, "\n");
    joined.push('\n');
    assert(joined@ =~= text::join(text::views(lines@), seq!['\n']) + seq!['\n']);
    joined
}

} // verus!
