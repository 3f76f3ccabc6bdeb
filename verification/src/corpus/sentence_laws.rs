//! What holds of the spelling of any list of well-formed sentences.

use vstd::prelude::*;
use vstd::seq_lib::*;

use crate::classic::tokenizer::VOCAB_CHINCHILLA;
use crate::classic::tokenizer;
use crate::classic::tokenizer_laws;
use crate::corpus::sentences;
use crate::text;

verus! {

/// A vocabulary that begins the Chinchilla vocabulary and holds every word of the sentences.
pub open spec fn covers(vocab: Seq<Seq<char>>, list: Seq<Seq<usize>>) -> bool {
    &&& vocab.len() <= VOCAB_CHINCHILLA@.len()
    &&& vocab == tokenizer::words(VOCAB_CHINCHILLA@).take(vocab.len() as int)
    &&& within(list, vocab.len())
}

/// The end-of-sequence token as it is spelled.
pub open spec fn eos_mark() -> Seq<char> {
    "<eos>"@
}

/// A sentence reads back as itself under every vocabulary that holds its words.
pub proof fn law_line_encodes_to_its_sentence(
    vocab: Seq<Seq<char>>,
    list: Seq<Seq<usize>>,
    i: int,
    rest: Seq<char>,
)
    requires
        covers(vocab, list),
        0 <= i < list.len(),
        tokenizer_laws::at_gap(rest),
    ensures
        tokenizer::encoding(vocab, sentences::spelled(list[i]) + rest) == list[i]
            + tokenizer::encoding(vocab, rest),
        tokenizer::encoding(vocab, sentences::spelled(list[i])) == list[i],
        tokenizer::decoding(vocab, list[i]) == sentences::spelled(list[i]),
{
    let full = tokenizer::words(VOCAB_CHINCHILLA@);
    tokenizer_laws::law_chinchilla_vocabulary_is_unambiguous();
    tokenizer_laws::law_unambiguous_prefix(full, vocab.len() as int);
    tokenizer_laws::law_decode_is_backward_compatible(vocab, full, list[i]);
    tokenizer_laws::law_encode_inverts_decode_before(vocab, list[i], rest);
    tokenizer_laws::law_encode_inverts_decode(vocab, list[i]);
}

/// Every line of a corpus survives encoding and decoding unchanged.
pub proof fn law_line_survives_round_trip(vocab: Seq<Seq<char>>, list: Seq<Seq<usize>>, i: int)
    requires
        covers(vocab, list),
        0 <= i < list.len(),
    ensures
        tokenizer::decoding(vocab, tokenizer::encoding(vocab, sentences::spelled(list[i])))
            == sentences::spelled(list[i]),
{
    law_line_encodes_to_its_sentence(vocab, list, i, Seq::empty());
}

proof fn lemma_joined_lines_encode(vocab: Seq<Seq<char>>, list: Seq<Seq<usize>>, rest: Seq<char>)
    requires
        covers(vocab, list),
        tokenizer_laws::at_gap(rest),
    ensures
        tokenizer::encoding(
            vocab,
            text::join(sentences::spelled_all(list), seq!['\n']) + rest,
        ) == list.flatten() + tokenizer::encoding(vocab, rest),
    decreases list.len(),
{
    let lines = sentences::spelled_all(list);
    let joined = text::join(lines, seq!['\n']);
    if list.len() == 0 {
        assert(joined + rest =~= rest);
        assert(list.flatten() + tokenizer::encoding(vocab, rest) =~= tokenizer::encoding(
            vocab,
            rest,
        ));
    } else {
        let front = list.drop_last();
        let last = list.last();
        let n = list.len() - 1;
        law_line_encodes_to_its_sentence(vocab, list, n as int, rest);
        assert(front.push(last) =~= list);
        front.lemma_flatten_push(last);
        assert(forall|i: int| 0 <= i < front.len() ==> front[i] == list[i]);
        if list.len() == 1 {
            assert(front.flatten() =~= Seq::<usize>::empty());
            assert(list.flatten() =~= last);
            assert(joined == lines[0]);
        } else {
            let tail = seq!['\n'] + (sentences::spelled(last) + rest);
            assert(lines.drop_last() =~= sentences::spelled_all(front));
            assert(joined + rest =~= text::join(sentences::spelled_all(front), seq!['\n']) + tail);
            lemma_joined_lines_encode(vocab, front, tail);
            tokenizer_laws::lemma_encode_gap(vocab, '\n', sentences::spelled(last) + rest);
            assert(front.flatten() + (last + tokenizer::encoding(vocab, rest)) =~= list.flatten()
                + tokenizer::encoding(vocab, rest));
        }
    }
}

/// The text of a corpus reads back as the tokens of its sentences, one after the other.
pub proof fn law_text_encodes_to_its_sentences(vocab: Seq<Seq<char>>, list: Seq<Seq<usize>>)
    requires
        covers(vocab, list),
    ensures
        tokenizer::encoding(vocab, sentences::text_of(list)) == list.flatten(),
{
    lemma_joined_lines_encode(vocab, list, seq!['\n']);
    tokenizer_laws::lemma_encode_gap(vocab, '\n', Seq::empty());
    assert(seq!['\n'] + Seq::<char>::empty() =~= seq!['\n']);
    assert(list.flatten() + Seq::<usize>::empty() =~= list.flatten());
}

/// Different sentences are spelled by different lines.
pub proof fn law_lines_are_unique(list: Seq<Seq<usize>>)
    requires
        sentences::all_well_formed(list),
        list.no_duplicates(),
    ensures
        sentences::spelled_all(list).no_duplicates(),
{
    let vocab = tokenizer::words(VOCAB_CHINCHILLA@);
    tokenizer_laws::law_chinchilla_vocabulary_is_unambiguous();
    let lines = sentences::spelled_all(list);
    assert forall|i: int, j: int|
        0 <= i < lines.len() && 0 <= j < lines.len() && i != j implies lines[i] != lines[j] by {
        assert(sentences::well_formed(list[i]) && sentences::well_formed(list[j]));
        tokenizer_laws::law_decode_is_injective(vocab, list[i], list[j]);
    }
}

/// Every line ends with the end-of-sequence token.
pub proof fn law_line_ends_with_eos(sentence: Seq<usize>)
    requires
        sentences::well_formed(sentence),
    ensures
        eos_mark().is_suffix_of(sentences::spelled(sentence)),
{
    let vocab = tokenizer::words(VOCAB_CHINCHILLA@);
    let parts = tokenizer::tokens_of(vocab, sentence);
    let line = sentences::spelled(sentence);
    assert(parts.last() == eos_mark());
    assert(line.subrange(line.len() - eos_mark().len(), line.len() as int) =~= eos_mark());
}

/// Sentences of one length have as many tokens as that length times their number.
pub proof fn lemma_uniform_volume(list: Seq<Seq<usize>>, len: nat)
    requires
        forall|i: int| 0 <= i < list.len() ==> (#[trigger] list[i]).len() == len,
    ensures
        list.flatten().len() == len * list.len(),
    decreases list.len(),
{
    if list.len() == 0 {
        assert(list.flatten() =~= Seq::<usize>::empty());
        assert(len * list.len() == 0) by (nonlinear_arith)
            requires
                list.len() == 0,
        ;
    } else {
        let front = list.drop_last();
        assert forall|i: int| 0 <= i < front.len() implies (#[trigger] front[i]).len() == len by {
            assert(front[i] == list[i]);
        }
        lemma_uniform_volume(front, len);
        assert(list =~= front.push(list.last()));
        front.lemma_flatten_push(list.last());
        assert(len * list.len() == len * front.len() + len) by (nonlinear_arith)
            requires
                list.len() == front.len() + 1,
        ;
    }
}

/// The rows of a table have as many tokens as it has entries.
pub proof fn lemma_rows_volume<const L: usize>(table: Seq<[usize; L]>)
    ensures
        sentences::rows(table).flatten().len() == L * table.len(),
{
    lemma_uniform_volume(sentences::rows(table), L as nat);
}

/// Every word of every sentence lies in a vocabulary of `size` tokens.
pub open spec fn within(list: Seq<Seq<usize>>, size: nat) -> bool {
    forall|i: int| 0 <= i < list.len() ==> tokenizer::in_vocab(#[trigger] list[i], size)
}

/// The words of an appended list are those of both parts.
pub proof fn lemma_append_within(a: Seq<Seq<usize>>, b: Seq<Seq<usize>>, size: nat)
    requires
        within(a, size),
        within(b, size),
    ensures
        within(a + b, size),
{
    let list = a + b;
    assert forall|i: int| 0 <= i < list.len() implies tokenizer::in_vocab(
        #[trigger] list[i],
        size,
    ) by {
        if i < a.len() {
            assert(list[i] == a[i]);
        } else {
            assert(list[i] == b[i - a.len()]);
        }
    }
}

/// Well-formedness is kept by appending.
pub proof fn lemma_append_well_formed(a: Seq<Seq<usize>>, b: Seq<Seq<usize>>)
    requires
        sentences::all_well_formed(a),
        sentences::all_well_formed(b),
    ensures
        sentences::all_well_formed(a + b),
{
    assert forall|i: int| 0 <= i < (a + b).len() implies sentences::well_formed(
        #[trigger] (a + b)[i],
    ) by {
        if i < a.len() {
            assert((a + b)[i] == a[i]);
        } else {
            assert((a + b)[i] == b[i - a.len()]);
        }
    }
}

/// The tokens of an appended list are those of both parts.
pub proof fn lemma_append_volume(a: Seq<Seq<usize>>, b: Seq<Seq<usize>>)
    ensures
        (a + b).flatten().len() == a.flatten().len() + b.flatten().len(),
{
    lemma_flatten_concat(a, b);
}

/// A text has one line for each sentence: its words with single blanks between them, and a line
/// feed.
pub proof fn law_text_has_a_line_for_each_sentence(list: Seq<Seq<usize>>)
    requires
        list.len() > 0,
    ensures
        sentences::text_of(list) == Seq::new(
            list.len(),
            |i: int|
                tokenizer::decoding(tokenizer::words(VOCAB_CHINCHILLA@), list[i]) + seq!['\n'],
        ).flatten(),
    decreases list.len(),
{
    let lines = Seq::new(
        list.len(),
        |i: int| tokenizer::decoding(tokenizer::words(VOCAB_CHINCHILLA@), list[i]) + seq!['\n'],
    );
    let spelled = sentences::spelled_all(list);
    if list.len() == 1 {
        assert(lines =~= seq![spelled[0] + seq!['\n']]);
        lines.lemma_flatten_one_element();
    } else {
        let front = list.drop_last();
        law_text_has_a_line_for_each_sentence(front);
        let before = Seq::new(
            front.len(),
            |i: int|
                tokenizer::decoding(tokenizer::words(VOCAB_CHINCHILLA@), front[i]) + seq!['\n'],
        );
        let line = spelled.last() + seq!['\n'];
        assert(lines =~= before.push(line));
        before.lemma_flatten_push(line);
        assert(spelled.drop_last() =~= sentences::spelled_all(front));
        assert(sentences::text_of(list) =~= sentences::text_of(front) + line);
    }
}

} // verus!
