//! What each piece of a text contributes to its tokens. Together these laws say what a text
//! encodes to from its first character to its last.

use vstd::prelude::*;

use crate::classic::tokenizer;
use crate::text;

verus! {

/// White space: the characters with the Unicode property of that name.
pub open spec fn gap(c: char) -> bool {
    let n = c as u32;
    9 <= n <= 13 || n == 32 || n == 133 || n == 160 || n == 5760 || 8192 <= n <= 8202 || n == 8232
        || n == 8233 || n == 8239 || n == 8287 || n == 12288
}

/// The marks that end a word: brackets, stops, quotes and the signs of arithmetic.
pub open spec fn marks() -> Set<char> {
    set![
        '<', '>', '?', '.', ',', '!', ':', ';', '"', '\'', '(', ')', '[', ']', '+', '-', '=', '*',
        '/'
    ]
}

/// A decimal digit.
pub open spec fn numeral(c: char) -> bool {
    '0' <= c <= '9'
}

/// What a word is made of: neither white space nor marks nor digits.
pub open spec fn inside(c: char) -> bool {
    !gap(c) && !marks().contains(c) && !numeral(c)
}

/// All characters of a run may stand inside a word.
pub open spec fn run(s: Seq<char>) -> bool {
    forall|k: int| 0 <= k < s.len() ==> inside(#[trigger] s[k])
}

/// Where a word has ended.
pub open spec fn ended(rest: Seq<char>) -> bool {
    rest.len() == 0 || !inside(rest[0])
}

/// A token and its first place in a vocabulary.
pub open spec fn stands_at(vocab: Seq<Seq<char>>, token: Seq<char>, id: usize) -> bool {
    &&& id < vocab.len()
    &&& vocab[id as int] == token
    &&& forall|j: int| 0 <= j < id ==> vocab[j] != token
}

/// A text in lower case, its `ё` written as `е`.
pub open spec fn plain_form(s: Seq<char>) -> Seq<char> {
    Seq::new(
        text::lowercase(s).len(),
        |i: int|
            if text::lowercase(s)[i] == 'ё' {
                'е'
            } else {
                text::lowercase(s)[i]
            },
    )
}

/// No text from `<` to the first `>` at the head of `s` is a token.
pub open spec fn opens_no_token(vocab: Seq<Seq<char>>, s: Seq<char>) -> bool {
    s[0] == '<' ==> forall|n: int|
        1 <= n < s.len() && #[trigger] s[n] == '>' && (forall|k: int| 0 <= k < n ==> s[k] != '>')
            ==> !vocab.contains(s.take(n + 1))
}

proof fn lemma_found(vocab: Seq<Seq<char>>, token: Seq<char>, id: usize)
    requires
        stands_at(vocab, token, id),
    ensures
        tokenizer::find(vocab, token) == Some(id),
        vocab.contains(token),
{
    vocab.index_of_first_ensures(token);
    assert(vocab.contains(token));
    let i = vocab.index_of_first(token)->0;
    if i < id {
        assert(vocab[i] == token);
    }
}

proof fn lemma_not_found(vocab: Seq<Seq<char>>, token: Seq<char>)
    requires
        !vocab.contains(token),
    ensures
        tokenizer::find(vocab, token) is None,
{
    vocab.index_of_first_ensures(token);
}

proof fn lemma_inside(c: char)
    ensures
        inside(c) == !tokenizer::boundary(c),
        gap(c) == text::white_space(c),
        marks().contains(c) == tokenizer::punctuation(c),
{
}

proof fn lemma_run_len(word: Seq<char>, rest: Seq<char>)
    requires
        run(word),
        ended(rest),
    ensures
        tokenizer::run_len(word + rest) == word.len(),
    decreases word.len(),
{
    let s = word + rest;
    if word.len() == 0 {
        assert(s =~= rest);
        if rest.len() > 0 {
            lemma_inside(rest[0]);
        }
    } else {
        lemma_inside(word[0]);
        assert(s[0] == word[0]);
        assert(s.drop_first() =~= word.drop_first() + rest);
        assert forall|k: int| 0 <= k < word.drop_first().len() implies inside(
            #[trigger] word.drop_first()[k],
        ) by {
            assert(word.drop_first()[k] == word[k + 1]);
        }
        lemma_run_len(word.drop_first(), rest);
    }
}

proof fn lemma_no_bracket(vocab: Seq<Seq<char>>, s: Seq<char>)
    requires
        s.len() > 0,
        opens_no_token(vocab, s),
    ensures
        tokenizer::bracketed(vocab, s) is None,
{
    s.index_of_first_ensures('>');
    match s.index_of_first('>') {
        Some(close) => {
            if s[0] == '<' {
                assert(s[close] == '>');
                assert(close >= 1);
                lemma_not_found(vocab, s.take(close + 1));
            }
        },
        None => {},
    }
}

/// The lexeme of a word that begins with `first`.
proof fn lemma_word_lexeme(vocab: Seq<Seq<char>>, first: char, tail: Seq<char>, rest: Seq<char>)
    requires
        !gap(first),
        !vocab.contains(seq![first]),
        opens_no_token(vocab, seq![first] + tail + rest),
        run(tail),
        ended(rest),
    ensures
        ({
            let word = seq![first] + tail;
            let s = word + rest;
            let id = tokenizer::word_id(vocab, word);
            &&& tokenizer::lexeme(vocab, s) == if id is None && marks().contains(first) {
                (1int, None::<usize>)
            } else {
                (word.len() as int, id)
            }
            &&& s.skip(word.len() as int) == rest
            &&& s.skip(1) == tail + rest
            &&& s.len() > 0 && s[0] == first
            &&& !text::white_space(s[0])
            &&& tokenizer::lowered(word) == if marks().contains(first) {
                seq![first] + text::lowercase(tail)
            } else {
                text::lowercase(word)
            }
        }),
{
    let word = seq![first] + tail;
    let s = word + rest;
    lemma_inside(first);
    lemma_no_bracket(vocab, s);
    lemma_not_found(vocab, seq![first]);
    assert(s.take(1) =~= seq![first]);
    assert(s.drop_first() =~= tail + rest);
    lemma_run_len(tail, rest);
    assert(s.take(word.len() as int) =~= word);
    assert(s.skip(word.len() as int) =~= rest);
    assert(s.skip(1) =~= tail + rest);
    assert(word.drop_first() =~= tail);
}

/// An empty text has no tokens.
pub proof fn law_nothing_reads_as_nothing(vocab: Seq<Seq<char>>)
    ensures
        tokenizer::encoding(vocab, Seq::empty()) == Seq::<usize>::empty(),
{
}

/// White space contributes nothing.
pub proof fn law_gap_reads_as_nothing(vocab: Seq<Seq<char>>, c: char, rest: Seq<char>)
    requires
        gap(c),
    ensures
        tokenizer::encoding(vocab, seq![c] + rest) == tokenizer::encoding(vocab, rest),
{
    lemma_inside(c);
    assert((seq![c] + rest).drop_first() =~= rest);
}

/// A bracketed token contributes itself, whatever stands behind it.
pub proof fn law_bracketed_token_reads_as_itself(
    vocab: Seq<Seq<char>>,
    token: Seq<char>,
    id: usize,
    rest: Seq<char>,
)
    requires
        stands_at(vocab, token, id),
        token.len() >= 2,
        token[0] == '<',
        token.last() == '>',
        forall|k: int| 0 <= k < token.len() - 1 ==> token[k] != '>',
    ensures
        tokenizer::encoding(vocab, token + rest) == seq![id] + tokenizer::encoding(vocab, rest),
{
    let s = token + rest;
    lemma_found(vocab, token, id);
    lemma_inside('<');
    s.index_of_first_ensures('>');
    assert(s[token.len() - 1] == '>');
    assert(s.contains('>'));
    let close = s.index_of_first('>')->0;
    assert(close == token.len() - 1) by {
        if close < token.len() - 1 {
            assert(s[close] == token[close]);
        }
    }
    assert(s.take(token.len() as int) =~= token);
    assert(s.skip(token.len() as int) =~= rest);
    assert(tokenizer::lexeme(vocab, s) == (token.len() as int, Some(id)));
}

/// A character that is a token contributes itself, whatever stands behind it, unless it opens a
/// bracketed token.
pub proof fn law_sign_reads_as_itself(
    vocab: Seq<Seq<char>>,
    c: char,
    id: usize,
    rest: Seq<char>,
)
    requires
        !gap(c),
        stands_at(vocab, seq![c], id),
        opens_no_token(vocab, seq![c] + rest),
    ensures
        tokenizer::encoding(vocab, seq![c] + rest) == seq![id] + tokenizer::encoding(vocab, rest),
{
    let s = seq![c] + rest;
    lemma_inside(c);
    lemma_found(vocab, seq![c], id);
    lemma_no_bracket(vocab, s);
    assert(s.take(1) =~= seq![c]);
    assert(s.skip(1) =~= rest);
    assert(tokenizer::lexeme(vocab, s) == (1int, Some(id)));
}

/// A word that is a token as it is written contributes that token.
pub proof fn law_known_word_reads_as_itself(
    vocab: Seq<Seq<char>>,
    first: char,
    tail: Seq<char>,
    id: usize,
    rest: Seq<char>,
)
    requires
        !gap(first),
        !vocab.contains(seq![first]),
        opens_no_token(vocab, seq![first] + tail + rest),
        run(tail),
        ended(rest),
        stands_at(vocab, seq![first] + tail, id),
    ensures
        tokenizer::encoding(vocab, seq![first] + tail + rest) == seq![id] + tokenizer::encoding(
            vocab,
            rest,
        ),
{
    lemma_word_lexeme(vocab, first, tail, rest);
    lemma_found(vocab, seq![first] + tail, id);
}

/// A word that is no token as it is written, but is one in lower case with `ё` as `е`, contributes
/// that token. A mark at its head has no case.
pub proof fn law_folded_word_reads_as_its_form(
    vocab: Seq<Seq<char>>,
    first: char,
    tail: Seq<char>,
    id: usize,
    rest: Seq<char>,
)
    requires
        !gap(first),
        !vocab.contains(seq![first]),
        opens_no_token(vocab, seq![first] + tail + rest),
        run(tail),
        ended(rest),
        !vocab.contains(seq![first] + tail),
        stands_at(
            vocab,
            if marks().contains(first) {
                seq![first] + plain_form(tail)
            } else {
                plain_form(seq![first] + tail)
            },
            id,
        ),
    ensures
        tokenizer::encoding(vocab, seq![first] + tail + rest) == seq![id] + tokenizer::encoding(
            vocab,
            rest,
        ),
{
    let word = seq![first] + tail;
    lemma_word_lexeme(vocab, first, tail, rest);
    lemma_not_found(vocab, word);
    let form = if marks().contains(first) {
        seq![first] + plain_form(tail)
    } else {
        plain_form(word)
    };
    assert(tokenizer::fold_yo(tokenizer::lowered(word)) =~= form);
    lemma_found(vocab, form, id);
}

/// A word that is no token, neither as it is written nor in lower case with `ё` as `е`, contributes
/// nothing at all; where it begins with a mark, only the mark contributes nothing, and what is
/// behind it is read for itself.
pub proof fn law_unknown_word_reads_as_nothing(
    vocab: Seq<Seq<char>>,
    first: char,
    tail: Seq<char>,
    rest: Seq<char>,
)
    requires
        !gap(first),
        !vocab.contains(seq![first]),
        opens_no_token(vocab, seq![first] + tail + rest),
        run(tail),
        ended(rest),
        !vocab.contains(seq![first] + tail),
        !vocab.contains(
            if marks().contains(first) {
                seq![first] + plain_form(tail)
            } else {
                plain_form(seq![first] + tail)
            },
        ),
    ensures
        !marks().contains(first) ==> tokenizer::encoding(vocab, seq![first] + tail + rest)
            == tokenizer::encoding(vocab, rest),
        marks().contains(first) ==> tokenizer::encoding(vocab, seq![first] + tail + rest)
            == tokenizer::encoding(vocab, tail + rest),
{
    let word = seq![first] + tail;
    lemma_word_lexeme(vocab, first, tail, rest);
    lemma_not_found(vocab, word);
    let form = if marks().contains(first) {
        seq![first] + plain_form(tail)
    } else {
        plain_form(word)
    };
    assert(tokenizer::fold_yo(tokenizer::lowered(word)) =~= form);
    lemma_not_found(vocab, form);
}

/// A word looked up by itself has an identifier exactly where the vocabulary holds it, or its form
/// in lower case with `ё` as `е`; the token of that identifier is the one or the other.
pub proof fn law_word_id_is_the_word(vocab: Seq<Seq<char>>, word: Seq<char>)
    requires
        vocab.len() <= usize::MAX,
        word.len() > 0,
        !marks().contains(word[0]),
    ensures
        tokenizer::word_id(vocab, word) is None <==> !vocab.contains(word) && !vocab.contains(
            plain_form(word),
        ),
        tokenizer::word_id(vocab, word) matches Some(id) ==> {
            &&& id < vocab.len()
            &&& vocab.contains(word) ==> stands_at(vocab, word, id)
            &&& !vocab.contains(word) ==> stands_at(vocab, plain_form(word), id)
        },
{
    lemma_inside(word[0]);
    assert(tokenizer::fold_yo(tokenizer::lowered(word)) =~= plain_form(word));
    vocab.index_of_first_ensures(word);
    vocab.index_of_first_ensures(plain_form(word));
}

/// The text of no token is empty, that of one token is the token, and that of two lists of tokens
/// is that of the first, a blank, and that of the second.
pub proof fn law_decoding_joins_with_blanks(
    vocab: Seq<Seq<char>>,
    id: usize,
    first: Seq<usize>,
    second: Seq<usize>,
)
    requires
        id < vocab.len(),
        first.len() > 0,
        second.len() > 0,
    ensures
        tokenizer::decoding(vocab, Seq::empty()) == Seq::<char>::empty(),
        tokenizer::decoding(vocab, seq![id]) == vocab[id as int],
        tokenizer::decoding(vocab, first + second) == tokenizer::decoding(vocab, first)
            + seq![' '] + tokenizer::decoding(vocab, second),
{
    text::lemma_join_split(
        tokenizer::tokens_of(vocab, first),
        tokenizer::tokens_of(vocab, second),
        seq![' '],
    );
    assert(tokenizer::tokens_of(vocab, first + second) =~= tokenizer::tokens_of(vocab, first)
        + tokenizer::tokens_of(vocab, second));
}

} // verus!
