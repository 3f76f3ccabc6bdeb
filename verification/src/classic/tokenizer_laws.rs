//! What encoding and decoding promise of each other, and of the four vocabularies.

use vstd::prelude::*;

use crate::classic::tokenizer::{
    EOS_TOKEN_ID, BOT_TOKEN_ID, PAD_TOKEN_ID, USER_TOKEN_ID, VOCAB, VOCAB_CHINCHILLA, VOCAB_V2,
    VOCAB_V3,
};
use crate::classic::tokenizer;
use crate::text;

verus! {

/// A token in angle brackets, with no other closing bracket.
pub open spec fn bracket_token(token: Seq<char>) -> bool {
    &&& token.len() >= 2
    &&& token[0] == '<'
    &&& token.last() == '>'
    &&& forall|k: int| 0 <= k < token.len() - 1 ==> token[k] != '>'
}

/// A token of one visible character.
pub open spec fn sign_token(token: Seq<char>) -> bool {
    token.len() == 1 && !text::white_space(token[0]) && token[0] != '<'
}

/// A word without boundaries whose first character is not itself a token.
pub open spec fn word_token(vocab: Seq<Seq<char>>, token: Seq<char>) -> bool {
    &&& token.len() >= 2
    &&& forall|k: int| 0 <= k < token.len() ==> !tokenizer::boundary(#[trigger] token[k])
    &&& !vocab.contains(seq![token[0]])
}

/// A vocabulary in which every token is read back as itself: no token occurs twice, and each is
/// bracketed, a sign or a word.
pub open spec fn unambiguous(vocab: Seq<Seq<char>>) -> bool {
    &&& vocab.no_duplicates()
    &&& vocab.len() <= usize::MAX
    &&& forall|i: int|
        0 <= i < vocab.len() ==> bracket_token(#[trigger] vocab[i]) || sign_token(vocab[i])
            || word_token(vocab, vocab[i])
}

/// Where a token may end: at the end of the text or before white space, punctuation or a digit.
pub open spec fn at_gap(rest: Seq<char>) -> bool {
    rest.len() == 0 || tokenizer::boundary(rest[0])
}

/// In an unambiguous vocabulary each token has its own position as its identifier.
pub proof fn law_token_to_id_inverts_id_to_token(vocab: Seq<Seq<char>>, id: usize)
    requires
        unambiguous(vocab),
        id < vocab.len(),
    ensures
        tokenizer::find(vocab, vocab[id as int]) == Some(id),
{
    vocab.index_of_first_ensures(vocab[id as int]);
    assert(vocab.contains(vocab[id as int]));
}

proof fn lemma_run_len_of_word(word: Seq<char>, rest: Seq<char>)
    requires
        forall|k: int| 0 <= k < word.len() ==> !tokenizer::boundary(#[trigger] word[k]),
        at_gap(rest),
    ensures
        tokenizer::run_len(word + rest) == word.len(),
    decreases word.len(),
{
    if word.len() == 0 {
        assert(word + rest =~= rest);
    } else {
        assert((word + rest).drop_first() =~= word.drop_first() + rest);
        assert(forall|k: int|
            0 <= k < word.drop_first().len() ==> word.drop_first()[k] == #[trigger] word[k + 1]);
        lemma_run_len_of_word(word.drop_first(), rest);
    }
}

/// White space at the head of a text does not change its tokens.
pub proof fn lemma_encode_gap(vocab: Seq<Seq<char>>, c: char, rest: Seq<char>)
    requires
        text::white_space(c),
    ensures
        tokenizer::encoding(vocab, seq![c] + rest) == tokenizer::encoding(vocab, rest),
{
    assert((seq![c] + rest).drop_first() =~= rest);
}

/// A token of an unambiguous vocabulary that ends at a gap is read as itself.
pub proof fn law_encode_token(vocab: Seq<Seq<char>>, id: usize, rest: Seq<char>)
    requires
        unambiguous(vocab),
        id < vocab.len(),
        at_gap(rest),
    ensures
        tokenizer::encoding(vocab, vocab[id as int] + rest) == seq![id] + tokenizer::encoding(
            vocab,
            rest,
        ),
{
    let token = vocab[id as int];
    let s = token + rest;
    law_token_to_id_inverts_id_to_token(vocab, id);
    s.index_of_first_ensures('>');
    vocab.index_of_first_ensures(s.take(1));
    assert(s.skip(token.len() as int) =~= rest);
    assert(s.take(token.len() as int) =~= token);
    assert(s[0] == token[0]);
    if bracket_token(token) {
        assert(s[token.len() - 1] == '>');
        assert(s.contains('>'));
        assert forall|k: int| 0 <= k < token.len() - 1 implies s[k] != '>' by {
            assert(s[k] == token[k]);
        }
        assert(s.index_of_first('>') == Some(token.len() - 1));
    } else if sign_token(token) {
        assert(s.take(1) =~= token);
    } else {
        assert(!tokenizer::boundary(token[0]));
        assert(s.take(1) =~= seq![token[0]]);
        assert(s.drop_first() =~= token.drop_first() + rest);
        assert(forall|k: int|
            0 <= k < token.drop_first().len() ==> token.drop_first()[k] == #[trigger] token[k + 1]);
        lemma_run_len_of_word(token.drop_first(), rest);
    }
    assert(tokenizer::lexeme(vocab, s) == (token.len() as int, Some(id)));
}

/// The text of a token sequence, followed by a gap, is read back as that sequence.
pub proof fn law_encode_inverts_decode_before(
    vocab: Seq<Seq<char>>,
    ids: Seq<usize>,
    rest: Seq<char>,
)
    requires
        unambiguous(vocab),
        tokenizer::in_vocab(ids, vocab.len()),
        at_gap(rest),
    ensures
        tokenizer::encoding(vocab, tokenizer::decoding(vocab, ids) + rest) == ids
            + tokenizer::encoding(vocab, rest),
    decreases ids.len(),
{
    let tokens = tokenizer::tokens_of(vocab, ids);
    if ids.len() == 0 {
        assert(tokenizer::decoding(vocab, ids) + rest =~= rest);
        assert(ids + tokenizer::encoding(vocab, rest) =~= tokenizer::encoding(vocab, rest));
    } else {
        let id = ids.last();
        let front = ids.drop_last();
        let last = vocab[id as int];
        law_encode_token(vocab, id, rest);
        assert(tokens.last() == last);
        assert(ids =~= front + seq![id]);
        if ids.len() == 1 {
            assert(tokenizer::decoding(vocab, ids) == last);
            assert(ids =~= seq![id]);
        } else {
            let tail = seq![' '] + (last + rest);
            assert(tokens.drop_last() =~= tokenizer::tokens_of(vocab, front));
            assert(tokenizer::decoding(vocab, ids) + rest =~= tokenizer::decoding(vocab, front)
                + tail);
            assert(at_gap(tail));
            law_encode_inverts_decode_before(vocab, front, tail);
            lemma_encode_gap(vocab, ' ', last + rest);
            assert(front + (seq![id] + tokenizer::encoding(vocab, rest)) =~= ids
                + tokenizer::encoding(vocab, rest));
        }
    }
}

/// Encoding undoes decoding.
pub proof fn law_encode_inverts_decode(vocab: Seq<Seq<char>>, ids: Seq<usize>)
    requires
        unambiguous(vocab),
        tokenizer::in_vocab(ids, vocab.len()),
    ensures
        tokenizer::encoding(vocab, tokenizer::decoding(vocab, ids)) == ids,
{
    let decoded = tokenizer::decoding(vocab, ids);
    law_encode_inverts_decode_before(vocab, ids, Seq::empty());
    assert(decoded + Seq::<char>::empty() =~= decoded);
    assert(ids + Seq::<usize>::empty() =~= ids);
}

/// A text made of vocabulary tokens with single spaces between them survives a round trip.
pub proof fn law_decode_inverts_encode(vocab: Seq<Seq<char>>, line: Seq<char>, ids: Seq<usize>)
    requires
        unambiguous(vocab),
        tokenizer::in_vocab(ids, vocab.len()),
        line == tokenizer::decoding(vocab, ids),
    ensures
        tokenizer::decoding(vocab, tokenizer::encoding(vocab, line)) == line,
{
    law_encode_inverts_decode(vocab, ids);
}

/// Different token sequences have different texts.
pub proof fn law_decode_is_injective(vocab: Seq<Seq<char>>, a: Seq<usize>, b: Seq<usize>)
    requires
        unambiguous(vocab),
        tokenizer::in_vocab(a, vocab.len()),
        tokenizer::in_vocab(b, vocab.len()),
        a != b,
    ensures
        tokenizer::decoding(vocab, a) != tokenizer::decoding(vocab, b),
{
    law_encode_inverts_decode(vocab, a);
    law_encode_inverts_decode(vocab, b);
}

/// Each vocabulary begins with the one before it.
pub proof fn law_vocabularies_are_backward_compatible()
    ensures
        tokenizer::words(VOCAB@) == tokenizer::words(VOCAB_V2@).take(21),
        tokenizer::words(VOCAB_V2@) == tokenizer::words(VOCAB_V3@).take(41),
        tokenizer::words(VOCAB_V3@) == tokenizer::words(VOCAB_CHINCHILLA@).take(53),
{
    assert(tokenizer::words(VOCAB@) =~= tokenizer::words(VOCAB_V2@).take(21));
    assert(tokenizer::words(VOCAB_V2@) =~= tokenizer::words(VOCAB_V3@).take(41));
    assert(tokenizer::words(VOCAB_V3@) =~= tokenizer::words(VOCAB_CHINCHILLA@).take(53));
}

/// A part of an unambiguous vocabulary from its head is unambiguous.
pub proof fn law_unambiguous_prefix(vocab: Seq<Seq<char>>, n: int)
    requires
        unambiguous(vocab),
        0 <= n <= vocab.len(),
    ensures
        unambiguous(vocab.take(n)),
{
    let part = vocab.take(n);
    assert forall|i: int| 0 <= i < part.len() implies bracket_token(#[trigger] part[i])
        || sign_token(part[i]) || word_token(part, part[i]) by {
        assert(part[i] == vocab[i]);
        if word_token(vocab, vocab[i]) {
            assert forall|k: int| 0 <= k < n implies part[k] != seq![vocab[i][0]] by {
                assert(vocab[k] != seq![vocab[i][0]]);
            }
        }
    }
}

/// A lower-case Cyrillic letter of the basic alphabet.
pub open spec fn letter(c: char) -> bool {
    0x430 <= c as u32 <= 0x44f
}

/// Brackets that open no token, stops and quotes.
pub open spec fn stop(c: char) -> bool {
    ||| c == '>' || c == '?' || c == '.' || c == ',' || c == '!' || c == ':' || c == ';'
    ||| c == '"' || c == '\'' || c == '(' || c == ')' || c == '[' || c == ']'
}

/// A word of two to eight lower-case letters.
spec fn short_word(w: Seq<char>) -> bool {
    &&& 2 <= w.len() <= 8
    &&& letter(w[0])
    &&& letter(w[1])
    &&& w.len() > 2 ==> letter(w[2])
    &&& w.len() > 3 ==> letter(w[3])
    &&& w.len() > 4 ==> letter(w[4])
    &&& w.len() > 5 ==> letter(w[5])
    &&& w.len() > 6 ==> letter(w[6])
    &&& w.len() > 7 ==> letter(w[7])
}

proof fn lemma_short_word(w: Seq<char>)
    requires
        short_word(w),
    ensures
        forall|k: int| 0 <= k < w.len() ==> !tokenizer::boundary(#[trigger] w[k]),
{
    assert forall|k: int| 0 <= k < w.len() implies letter(#[trigger] w[k]) by {
        assert(k == 0 || k == 1 || k == 2 || k == 3 || k == 4 || k == 5 || k == 6 || k == 7);
    }
}

/// A token of four or five characters in angle brackets.
spec fn short_bracket(w: Seq<char>) -> bool {
    &&& 5 <= w.len() <= 6
    &&& w[0] == '<'
    &&& w[1] != '>' && w[2] != '>' && w[3] != '>'
    &&& w[1] != ' ' && w[2] != ' ' && w[3] != ' ' && w[4] != ' '
    &&& w.len() == 5 ==> w[4] == '>'
    &&& w.len() == 6 ==> w[4] != '>' && w[5] == '>'
}

proof fn lemma_short_bracket(w: Seq<char>)
    requires
        short_bracket(w),
    ensures
        bracket_token(w),
        !w.contains(' '),
{
    assert forall|k: int| 0 <= k < w.len() - 1 implies w[k] != '>' by {
        assert(k == 0 || k == 1 || k == 2 || k == 3 || k == 4);
    }
    assert forall|k: int| 0 <= k < w.len() implies w[k] != ' ' by {
        assert(k == 0 || k == 1 || k == 2 || k == 3 || k == 4 || k == 5);
    }
}

/// A number that differs between any two tokens of the Chinchilla vocabulary.
spec fn spelling_key(w: Seq<char>) -> int {
    if w.len() < 3 {
        w.len() + 16 * (w[0] as int)
    } else {
        w.len() + 16 * (w[0] as int) + 0x10000 * (w[1] as int) + 0x10000000 * (w[2] as int)
    }
}

/// The position of a token of the Chinchilla vocabulary that is a sign.
spec fn sign_position(i: int) -> bool {
    4 <= i <= 12 || 21 <= i <= 25 || i == 41
}

#[verifier::spinoff_prover]
#[verifier::rlimit(100)]
proof fn lemma_chinchilla_spelling(i: int)
    requires
        0 <= i < 65,
    ensures
        ({
            let w = VOCAB_CHINCHILLA@[i]@;
            if i < 4 {
                short_bracket(w)
            } else if sign_position(i) {
                w.len() == 1 && 0x2a <= w[0] as u32 <= 0x3d && w[0] != '<' && !stop(w[0])
            } else {
                short_word(w)
            }
        }),
{
    reveal_strlit("<pad>");
    reveal_strlit("<eos>");
    reveal_strlit("<user>");
    reveal_strlit("<bot>");
    reveal_strlit("0");
    reveal_strlit("1");
    reveal_strlit("2");
    reveal_strlit("3");
    reveal_strlit("4");
    reveal_strlit("5");
    reveal_strlit("+");
    reveal_strlit("-");
    reveal_strlit("=");
    reveal_strlit("кот");
    reveal_strlit("пес");
    reveal_strlit("животное");
    reveal_strlit("друг");
    reveal_strlit("это");
    reveal_strlit("да");
    reveal_strlit("нет");
    reveal_strlit("кто");
    reveal_strlit("6");
    reveal_strlit("7");
    reveal_strlit("8");
    reveal_strlit("9");
    reveal_strlit("*");
    reveal_strlit("волк");
    reveal_strlit("лиса");
    reveal_strlit("заяц");
    reveal_strlit("рыба");
    reveal_strlit("птица");
    reveal_strlit("зверь");
    reveal_strlit("хищник");
    reveal_strlit("человек");
    reveal_strlit("враг");
    reveal_strlit("где");
    reveal_strlit("что");
    reveal_strlit("река");
    reveal_strlit("небо");
    reveal_strlit("лес");
    reveal_strlit("дом");
    reveal_strlit("/");
    reveal_strlit("медведь");
    reveal_strlit("змея");
    reveal_strlit("щука");
    reveal_strlit("дуб");
    reveal_strlit("дерево");
    reveal_strlit("тайга");
    reveal_strlit("нора");
    reveal_strlit("поле");
    reveal_strlit("трава");
    reveal_strlit("вода");
    reveal_strlit("ест");
    reveal_strlit("не");
    reveal_strlit("как");
    reveal_strlit("почему");
    reveal_strlit("если");
    reveal_strlit("то");
    reveal_strlit("или");
    reveal_strlit("наука");
    reveal_strlit("число");
    reveal_strlit("модель");
    reveal_strlit("разум");
    reveal_strlit("знание");
    reveal_strlit("логика");
}

#[verifier::spinoff_prover]
#[verifier::rlimit(100)]
proof fn lemma_chinchilla_spellings_differ(i: int, j: int)
    requires
        0 <= i < j < 65,
    ensures
        VOCAB_CHINCHILLA@[i]@ != VOCAB_CHINCHILLA@[j]@,
{
    reveal_strlit("<pad>");
    reveal_strlit("<eos>");
    reveal_strlit("<user>");
    reveal_strlit("<bot>");
    reveal_strlit("0");
    reveal_strlit("1");
    reveal_strlit("2");
    reveal_strlit("3");
    reveal_strlit("4");
    reveal_strlit("5");
    reveal_strlit("+");
    reveal_strlit("-");
    reveal_strlit("=");
    reveal_strlit("кот");
    reveal_strlit("пес");
    reveal_strlit("животное");
    reveal_strlit("друг");
    reveal_strlit("это");
    reveal_strlit("да");
    reveal_strlit("нет");
    reveal_strlit("кто");
    reveal_strlit("6");
    reveal_strlit("7");
    reveal_strlit("8");
    reveal_strlit("9");
    reveal_strlit("*");
    reveal_strlit("волк");
    reveal_strlit("лиса");
    reveal_strlit("заяц");
    reveal_strlit("рыба");
    reveal_strlit("птица");
    reveal_strlit("зверь");
    reveal_strlit("хищник");
    reveal_strlit("человек");
    reveal_strlit("враг");
    reveal_strlit("где");
    reveal_strlit("что");
    reveal_strlit("река");
    reveal_strlit("небо");
    reveal_strlit("лес");
    reveal_strlit("дом");
    reveal_strlit("/");
    reveal_strlit("медведь");
    reveal_strlit("змея");
    reveal_strlit("щука");
    reveal_strlit("дуб");
    reveal_strlit("дерево");
    reveal_strlit("тайга");
    reveal_strlit("нора");
    reveal_strlit("поле");
    reveal_strlit("трава");
    reveal_strlit("вода");
    reveal_strlit("ест");
    reveal_strlit("не");
    reveal_strlit("как");
    reveal_strlit("почему");
    reveal_strlit("если");
    reveal_strlit("то");
    reveal_strlit("или");
    reveal_strlit("наука");
    reveal_strlit("число");
    reveal_strlit("модель");
    reveal_strlit("разум");
    reveal_strlit("знание");
    reveal_strlit("логика");

    let a = VOCAB_CHINCHILLA@[i]@;
    let b = VOCAB_CHINCHILLA@[j]@;
    assert(spelling_key(a) != spelling_key(b));
}

/// Every token of the Chinchilla vocabulary is read back as itself.
pub proof fn law_chinchilla_vocabulary_is_unambiguous()
    ensures
        unambiguous(tokenizer::words(VOCAB_CHINCHILLA@)),
{
    let vocab = tokenizer::words(VOCAB_CHINCHILLA@);
    assert forall|i: int| 0 <= i < 65 implies bracket_token(#[trigger] vocab[i]) || sign_token(
        vocab[i],
    ) || word_token(vocab, vocab[i]) by {
        lemma_chinchilla_spelling(i);
        let w = vocab[i];
        if i < 4 {
            lemma_short_bracket(w);
        } else if !sign_position(i) {
            lemma_short_word(w);
            assert forall|k: int| 0 <= k < 65 implies vocab[k] != seq![w[0]] by {
                lemma_chinchilla_spelling(k);
                assert(seq![w[0]].len() == 1 && seq![w[0]][0] == w[0]);
            }
        }
    }
    assert forall|i: int, j: int| 0 <= i < 65 && 0 <= j < 65 && i != j implies vocab[i]
        != vocab[j] by {
        if i < j {
            lemma_chinchilla_spellings_differ(i, j);
        } else {
            lemma_chinchilla_spellings_differ(j, i);
        }
    }
}

/// Every token of each of the four vocabularies is read back as itself.
pub proof fn law_vocabularies_are_unambiguous()
    ensures
        unambiguous(tokenizer::words(VOCAB@)),
        unambiguous(tokenizer::words(VOCAB_V2@)),
        unambiguous(tokenizer::words(VOCAB_V3@)),
        unambiguous(tokenizer::words(VOCAB_CHINCHILLA@)),
{
    law_vocabularies_are_backward_compatible();
    law_chinchilla_vocabulary_is_unambiguous();
    law_unambiguous_prefix(tokenizer::words(VOCAB_CHINCHILLA@), 53);
    law_unambiguous_prefix(tokenizer::words(VOCAB_V3@), 41);
    law_unambiguous_prefix(tokenizer::words(VOCAB_V2@), 21);
}

/// In each vocabulary the control tokens have their fixed identifiers.
pub proof fn law_control_tokens(vocab: Seq<Seq<char>>)
    requires
        vocab == tokenizer::words(VOCAB@) || vocab == tokenizer::words(VOCAB_V2@) || vocab
            == tokenizer::words(VOCAB_V3@) || vocab == tokenizer::words(VOCAB_CHINCHILLA@),
    ensures
        tokenizer::find(vocab, "<pad>"@) == Some(PAD_TOKEN_ID),
        tokenizer::find(vocab, "<eos>"@) == Some(EOS_TOKEN_ID),
        tokenizer::find(vocab, "<user>"@) == Some(USER_TOKEN_ID),
        tokenizer::find(vocab, "<bot>"@) == Some(BOT_TOKEN_ID),
{
    law_vocabularies_are_unambiguous();
    assert(vocab[0] == "<pad>"@);
    assert(vocab[1] == "<eos>"@);
    assert(vocab[2] == "<user>"@);
    assert(vocab[3] == "<bot>"@);
    law_token_to_id_inverts_id_to_token(vocab, PAD_TOKEN_ID);
    law_token_to_id_inverts_id_to_token(vocab, EOS_TOKEN_ID);
    law_token_to_id_inverts_id_to_token(vocab, USER_TOKEN_ID);
    law_token_to_id_inverts_id_to_token(vocab, BOT_TOKEN_ID);
}

/// A sequence of older identifiers has the same text under every later vocabulary.
pub proof fn law_decode_is_backward_compatible(
    vocab: Seq<Seq<char>>,
    later: Seq<Seq<char>>,
    ids: Seq<usize>,
)
    requires
        vocab.len() <= later.len(),
        vocab == later.take(vocab.len() as int),
        tokenizer::in_vocab(ids, vocab.len()),
    ensures
        tokenizer::decoding(vocab, ids) == tokenizer::decoding(later, ids),
{
    assert(tokenizer::tokens_of(vocab, ids) =~= tokenizer::tokens_of(later, ids));
}

/// No bracketed token contains a blank.
pub open spec fn brackets_without_blanks(vocab: Seq<Seq<char>>) -> bool {
    forall|i: int|
        0 <= i < vocab.len() && (#[trigger] vocab[i]).len() > 0 && vocab[i][0] == '<'
            && vocab[i].last() == '>' ==> !vocab[i].contains(' ')
}

proof fn lemma_run_len_before_blank(a: Seq<char>, b: Seq<char>)
    ensures
        tokenizer::run_len(a + (seq![' '] + b)) == tokenizer::run_len(a),
    decreases a.len(),
{
    let s = a + (seq![' '] + b);
    if a.len() == 0 {
        assert(s[0] == ' ');
    } else {
        assert(s[0] == a[0]);
        assert(s.drop_first() =~= a.drop_first() + (seq![' '] + b));
        lemma_run_len_before_blank(a.drop_first(), b);
    }
}

/// What stands behind a blank has no part in the lexeme before it.
proof fn lemma_lexeme_before_blank(vocab: Seq<Seq<char>>, a: Seq<char>, b: Seq<char>)
    requires
        brackets_without_blanks(vocab),
        a.len() > 0,
    ensures
        tokenizer::lexeme(vocab, a + (seq![' '] + b)) == tokenizer::lexeme(vocab, a),
{
    let s = a + (seq![' '] + b);
    a.index_of_first_ensures('>');
    s.index_of_first_ensures('>');
    assert(s[0] == a[0]);
    assert(s.take(1) =~= a.take(1));
    assert(s.drop_first() =~= a.drop_first() + (seq![' '] + b));
    lemma_run_len_before_blank(a.drop_first(), b);
    tokenizer::lemma_run_len_bound(a.drop_first());
    let len = 1 + tokenizer::run_len(a.drop_first());
    assert(s.take(len as int) =~= a.take(len as int));
    assert(tokenizer::bracketed(vocab, s) == tokenizer::bracketed(vocab, a)) by {
        match a.index_of_first('>') {
            Some(close) => {
                assert(s[close] == '>');
                assert(s.contains('>'));
                assert forall|j: int| 0 <= j < close implies s[j] != '>' by {
                    assert(s[j] == a[j]);
                }
                assert(s.index_of_first('>') == Some(close));
                assert(s.take(close + 1) =~= a.take(close + 1));
            },
            None => match s.index_of_first('>') {
                Some(close) => {
                    if close < a.len() {
                        assert(a[close] == '>');
                        assert(a.contains('>'));
                    }
                    let candidate = s.take(close + 1);
                    assert(candidate[a.len() as int] == ' ');
                    assert(candidate.contains(' '));
                    vocab.index_of_first_ensures(candidate);
                    if s[0] == '<' && vocab.contains(candidate) {
                        let i = choose|i: int| 0 <= i < vocab.len() && vocab[i] == candidate;
                        assert(vocab[i][0] == '<' && vocab[i].last() == '>');
                    }
                },
                None => {},
            },
        }
    }
}

/// A blank between two texts keeps them apart: the tokens of both together are those of the first
/// and then those of the second.
pub proof fn law_encode_distributes_over_blank(
    vocab: Seq<Seq<char>>,
    a: Seq<char>,
    b: Seq<char>,
)
    requires
        brackets_without_blanks(vocab),
    ensures
        tokenizer::encoding(vocab, a + (seq![' '] + b)) == tokenizer::encoding(vocab, a)
            + tokenizer::encoding(vocab, b),
    decreases a.len(),
{
    let tail = seq![' '] + b;
    let s = a + tail;
    if a.len() == 0 {
        assert(s =~= tail);
        lemma_encode_gap(vocab, ' ', b);
        assert(tokenizer::encoding(vocab, a) + tokenizer::encoding(vocab, b)
            =~= tokenizer::encoding(vocab, b));
    } else if text::white_space(a[0]) {
        assert(s[0] == a[0]);
        assert(s.drop_first() =~= a.drop_first() + tail);
        law_encode_distributes_over_blank(vocab, a.drop_first(), b);
    } else {
        assert(s[0] == a[0]);
        lemma_lexeme_before_blank(vocab, a, b);
        tokenizer::lemma_lexeme_len(vocab, a);
        let (len, id) = tokenizer::lexeme(vocab, a);
        assert(s.skip(len) =~= a.skip(len) + tail);
        law_encode_distributes_over_blank(vocab, a.skip(len), b);
        let rest = tokenizer::encoding(vocab, a.skip(len));
        if let Some(id) = id {
            assert(seq![id] + (rest + tokenizer::encoding(vocab, b)) =~= seq![id] + rest
                + tokenizer::encoding(vocab, b));
        }
    }
}

/// A punctuation mark that begins no token hides nothing: the tokens behind it are read as if it
/// were not there.
pub proof fn law_punctuation_hides_nothing(vocab: Seq<Seq<char>>, mark: char, rest: Seq<char>)
    requires
        tokenizer::punctuation(mark),
        forall|i: int|
            0 <= i < vocab.len() && (#[trigger] vocab[i]).len() > 0 ==> vocab[i][0] != mark,
    ensures
        tokenizer::encoding(vocab, seq![mark] + rest) == tokenizer::encoding(vocab, rest),
{
    let s = seq![mark] + rest;
    assert(s[0] == mark);
    assert forall|n: int| 1 <= n <= s.len() implies tokenizer::find(
        vocab,
        #[trigger] s.take(n),
    ) is None by {
        let part = s.take(n);
        vocab.index_of_first_ensures(part);
        if vocab.contains(part) {
            let i = choose|i: int| 0 <= i < vocab.len() && vocab[i] == part;
            assert(vocab[i][0] == mark);
        }
    }
    s.index_of_first_ensures('>');
    tokenizer::lemma_run_len_bound(s.drop_first());
    let word = s.take((1 + tokenizer::run_len(s.drop_first())) as int);
    let folded = tokenizer::fold_yo(tokenizer::lowered(word));
    assert(word[0] == mark && folded[0] == mark);
    vocab.index_of_first_ensures(folded);
    if vocab.contains(folded) {
        let i = choose|i: int| 0 <= i < vocab.len() && vocab[i] == folded;
        assert(vocab[i][0] == mark);
    }
    assert(tokenizer::lexeme(vocab, s) == (1int, None::<usize>));
    assert(s.skip(1) =~= rest);
}

/// One of the four vocabularies.
pub open spec fn named_vocabulary(vocab: Seq<Seq<char>>) -> bool {
    ||| vocab == tokenizer::words(VOCAB@)
    ||| vocab == tokenizer::words(VOCAB_V2@)
    ||| vocab == tokenizer::words(VOCAB_V3@)
    ||| vocab == tokenizer::words(VOCAB_CHINCHILLA@)
}

/// Every token of the four vocabularies is one of the Chinchilla vocabulary.
proof fn lemma_named_vocabulary(vocab: Seq<Seq<char>>, i: int)
    requires
        named_vocabulary(vocab),
        0 <= i < vocab.len(),
    ensures
        i < 65,
        vocab[i] == VOCAB_CHINCHILLA@[i]@,
{
    law_vocabularies_are_backward_compatible();
}

/// In the four vocabularies no bracketed token contains a blank, so that a blank between two texts
/// keeps them apart.
pub proof fn law_named_vocabularies_distribute(vocab: Seq<Seq<char>>, a: Seq<char>, b: Seq<char>)
    requires
        named_vocabulary(vocab),
    ensures
        tokenizer::encoding(vocab, a + (seq![' '] + b)) == tokenizer::encoding(vocab, a)
            + tokenizer::encoding(vocab, b),
{
    assert forall|i: int|
        0 <= i < vocab.len() && (#[trigger] vocab[i]).len() > 0 && vocab[i][0] == '<'
            && vocab[i].last() == '>' implies !vocab[i].contains(' ') by {
        lemma_named_vocabulary(vocab, i);
        lemma_chinchilla_spelling(i);
        if i < 4 {
            lemma_short_bracket(vocab[i]);
        }
    }
    law_encode_distributes_over_blank(vocab, a, b);
}

/// In the four vocabularies no bracket, stop or quote hides what stands behind it.
pub proof fn law_stops_hide_nothing(vocab: Seq<Seq<char>>, mark: char, rest: Seq<char>)
    requires
        named_vocabulary(vocab),
        stop(mark),
    ensures
        tokenizer::encoding(vocab, seq![mark] + rest) == tokenizer::encoding(vocab, rest),
{
    assert forall|i: int| 0 <= i < vocab.len() && (#[trigger] vocab[i]).len() > 0 implies vocab[i][0]
        != mark by {
        lemma_named_vocabulary(vocab, i);
        lemma_chinchilla_spelling(i);
    }
    law_punctuation_hides_nothing(vocab, mark, rest);
}

} // verus!
