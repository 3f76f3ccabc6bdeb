//! The controlled vocabularies and the deterministic tokenizer over them.

use vstd::prelude::*;

use crate::text;

verus! {

/// The vocabulary of 21 tokens (v1).
pub const VOCAB: [&'static str; 21] = [
    "<pad>", "<eos>", "<user>", "<bot>", "0", "1", "2", "3", "4", "5", "+", "-", "=", "кот",
    "пес", "животное", "друг", "это", "да", "нет", "кто",
];

/// The vocabulary of 41 tokens (v2); tokens 0..20 are those of v1.
pub const VOCAB_V2: [&'static str; 41] = [
    "<pad>", "<eos>", "<user>", "<bot>", "0", "1", "2", "3", "4", "5", "+", "-", "=", "кот",
    "пес", "животное", "друг", "это", "да", "нет", "кто", "6", "7", "8", "9", "*", "волк",
    "лиса", "заяц", "рыба", "птица", "зверь", "хищник", "человек", "враг", "где", "что", "река",
    "небо", "лес", "дом",
];

/// The vocabulary of 53 tokens (v3); tokens 0..40 are those of v2.
pub const VOCAB_V3: [&'static str; 53] = [
    "<pad>", "<eos>", "<user>", "<bot>", "0", "1", "2", "3", "4", "5", "+", "-", "=", "кот",
    "пес", "животное", "друг", "это", "да", "нет", "кто", "6", "7", "8", "9", "*", "волк",
    "лиса", "заяц", "рыба", "птица", "зверь", "хищник", "человек", "враг", "где", "что", "река",
    "небо", "лес", "дом", "/", "медведь", "змея", "щука", "дуб", "дерево", "тайга", "нора",
    "поле", "трава", "вода", "ест",
];

/// The vocabulary of 65 tokens; tokens 0..52 are those of v3. It adds logical connectives and
/// the foundational notions of science, mathematics and reasoning.
pub const VOCAB_CHINCHILLA: [&'static str; 65] = [
    "<pad>", "<eos>", "<user>", "<bot>", "0", "1", "2", "3", "4", "5", "+", "-", "=", "кот",
    "пес", "животное", "друг", "это", "да", "нет", "кто", "6", "7", "8", "9", "*", "волк",
    "лиса", "заяц", "рыба", "птица", "зверь", "хищник", "человек", "враг", "где", "что", "река",
    "небо", "лес", "дом", "/", "медведь", "змея", "щука", "дуб", "дерево", "тайга", "нора",
    "поле", "трава", "вода", "ест", "не", "как", "почему", "если", "то", "или", "наука",
    "число", "модель", "разум", "знание", "логика",
];

/// The v4 vocabulary is the Chinchilla vocabulary.
pub const VOCAB_V4: [&'static str; 65] = VOCAB_CHINCHILLA;

pub const PAD_TOKEN_ID: usize = 0;

pub const EOS_TOKEN_ID: usize = 1;

pub const USER_TOKEN_ID: usize = 2;

pub const BOT_TOKEN_ID: usize = 3;

/// The words of a vocabulary table.
pub open spec fn words(table: Seq<&str>) -> Seq<Seq<char>> {
    Seq::new(table.len(), |i: int| table[i]@)
}

/// The identifier of a token: the first position at which it stands in the vocabulary.
pub open spec fn find(vocab: Seq<Seq<char>>, token: Seq<char>) -> Option<usize> {
    match vocab.index_of_first(token) {
        Some(i) => Some(i as usize),
        None => None,
    }
}

/// The characters at which a running word ends.
pub open spec fn boundary(c: char) -> bool {
    ||| text::white_space(c)
    ||| c == '<' || c == '>' || c == '?' || c == '.' || c == ',' || c == '!' || c == ':' || c == ';'
    ||| c == '"' || c == '\'' || c == '(' || c == ')' || c == '[' || c == ']'
    ||| '0' <= c <= '9'
    ||| c == '+' || c == '-' || c == '=' || c == '*' || c == '/'
}

/// The punctuation marks: brackets, stops, quotes and signs.
pub open spec fn punctuation(c: char) -> bool {
    boundary(c) && !text::white_space(c) && !('0' <= c <= '9')
}

/// The number of characters before the first boundary.
pub open spec fn run_len(s: Seq<char>) -> nat
    decreases s.len(),
{
    if s.len() == 0 || boundary(s[0]) {
        0
    } else {
        1 + run_len(s.drop_first())
    }
}

/// A text with every `ё` written as `е`.
pub open spec fn fold_yo(s: Seq<char>) -> Seq<char> {
    s.map_values(
        |c: char|
            if c == 'ё' {
                'е'
            } else {
                c
            },
    )
}

/// A word in lower case. A punctuation mark at its head has no case and stays as it is.
pub open spec fn lowered(word: Seq<char>) -> Seq<char> {
    if word.len() > 0 && punctuation(word[0]) {
        seq![word[0]] + text::lowercase(word.drop_first())
    } else {
        text::lowercase(word)
    }
}

/// The identifier of a word: as it is written, or else in lower case with `ё` as `е`.
pub open spec fn word_id(vocab: Seq<Seq<char>>, word: Seq<char>) -> Option<usize> {
    match find(vocab, word) {
        Some(id) => Some(id),
        None => find(vocab, fold_yo(lowered(word))),
    }
}

/// The bracketed text `<...>` at the head of `s`, up to the first `>`, where it is a token.
pub open spec fn bracketed(vocab: Seq<Seq<char>>, s: Seq<char>) -> Option<(int, usize)> {
    match s.index_of_first('>') {
        Some(close) if s[0] == '<' => match find(vocab, s.take(close + 1)) {
            Some(id) => Some((close + 1, id)),
            None => None,
        },
        _ => None,
    }
}

/// The length of the lexeme at the head of `s`, and its token where it has one: a bracketed
/// token, a one-character token, or a word up to the next boundary. A punctuation mark whose word is
/// no token, in lower case neither, stands alone, so that it does not hide what is behind it.
pub open spec fn lexeme(vocab: Seq<Seq<char>>, s: Seq<char>) -> (int, Option<usize>) {
    match bracketed(vocab, s) {
        Some((len, id)) => (len, Some(id)),
        None => match find(vocab, s.take(1)) {
            Some(id) => (1, Some(id)),
            None => {
                let len = 1 + run_len(s.drop_first());
                let word = s.take(len as int);
                let id = word_id(vocab, word);
                if id is None && punctuation(s[0]) {
                    (1, None)
                } else {
                    (len as int, id)
                }
            },
        },
    }
}

/// The tokens of a text: those of its lexemes in order, white space between them skipped.
pub open spec fn encoding(vocab: Seq<Seq<char>>, s: Seq<char>) -> Seq<usize>
    decreases s.len(),
{
    if s.len() == 0 {
        Seq::empty()
    } else if text::white_space(s[0]) {
        encoding(vocab, s.drop_first())
    } else {
        proof {
            lemma_lexeme_len(vocab, s);
        }
        let (len, id) = lexeme(vocab, s);
        let rest = encoding(vocab, s.skip(len));
        match id {
            Some(id) => seq![id] + rest,
            None => rest,
        }
    }
}

/// The tokens with the given identifiers.
pub open spec fn tokens_of(vocab: Seq<Seq<char>>, ids: Seq<usize>) -> Seq<Seq<char>> {
    Seq::new(ids.len(), |i: int| vocab[ids[i] as int])
}

/// The text of a token sequence: its tokens separated by single spaces.
pub open spec fn decoding(vocab: Seq<Seq<char>>, ids: Seq<usize>) -> Seq<char> {
    text::join(tokens_of(vocab, ids), seq![' '])
}

/// Whether all identifiers lie in a vocabulary of `size` tokens.
pub open spec fn in_vocab(ids: Seq<usize>, size: nat) -> bool {
    forall|i: int| 0 <= i < ids.len() ==> ids[i] < size
}

/// The run before the first boundary lies in the text.
pub proof fn lemma_run_len_bound(s: Seq<char>)
    ensures
        run_len(s) <= s.len(),
    decreases s.len(),
{
    if s.len() != 0 && !boundary(s[0]) {
        lemma_run_len_bound(s.drop_first());
    }
}

/// A lexeme is not empty and does not reach past the text.
pub proof fn lemma_lexeme_len(vocab: Seq<Seq<char>>, s: Seq<char>)
    requires
        s.len() > 0,
    ensures
        1 <= lexeme(vocab, s).0 <= s.len(),
{
    s.index_of_first_ensures('>');
    lemma_run_len_bound(s.drop_first());
}

/// Tokenizer over a vocabulary.
#[derive(Debug, Clone)]
pub struct Tokenizer {
    vocab: Vec<String>,
}

impl View for Tokenizer {
    type V = Seq<Seq<char>>;

    closed spec fn view(&self) -> Seq<Seq<char>> {
        text::views(self.vocab@)
    }
}

impl Tokenizer {
    /// Creates a tokenizer with the 53-token vocabulary (v3).
    pub fn new() -> (tok: Self)
        ensures
            tok@ == words(VOCAB_V3@),
    {
        Self::v3()
    }

    /// Creates a tokenizer with the 65-token Chinchilla vocabulary (v4).
    pub fn chinchilla() -> (tok: Self)
        ensures
            tok@ == words(VOCAB_CHINCHILLA@),
    {
        Self::from_vocab(&VOCAB_CHINCHILLA)
    }

    /// Creates a tokenizer with the 21-token vocabulary (v1).
    pub fn v1() -> (tok: Self)
        ensures
            tok@ == words(VOCAB@),
    {
        Self::from_vocab(&VOCAB)
    }

    /// Creates a tokenizer with the 41-token vocabulary (v2).
    pub fn v2() -> (tok: Self)
        ensures
            tok@ == words(VOCAB_V2@),
    {
        Self::from_vocab(&VOCAB_V2)
    }

    /// Creates a tokenizer with the 53-token vocabulary (v3).
    pub fn v3() -> (tok: Self)
        ensures
            tok@ == words(VOCAB_V3@),
    {
        Self::from_vocab(&VOCAB_V3)
    }

    /// Creates a tokenizer from an arbitrary vocabulary.
    pub fn from_vocab(vocab_slice: &[&str]) -> (tok: Self)
        ensures
            tok@ == words(vocab_slice@),
    {
        let mut vocab: Vec<String> = Vec::new();
        for i in 0..vocab_slice.len()
            invariant
                text::views(vocab@) == words(vocab_slice@).take(i as int),
        {
            let word: String = vocab_slice[i].to_string();
            proof {
                text::lemma_views_push(vocab@, word);
            }
            vocab.push(word);
            assert(text::views(vocab@) =~= words(vocab_slice@).take(i + 1));
        }
        assert(text::views(vocab@) =~= words(vocab_slice@));
        Tokenizer { vocab }
    }

    /// Returns the number of tokens in the vocabulary.
    pub fn vocab_size(&self) -> (size: usize)
        ensures
            size == self@.len(),
    {
        self.vocab.len()
    }

    /// Looks up the identifier of a token by its exact text.
    pub fn token_to_id(&self, token: &str) -> (id: Option<usize>)
        ensures
            id == find(self@, token@),
            id is Some ==> id->0 < self@.len() && self@[id->0 as int] == token@,
            id is None <==> !self@.contains(token@),
    {
        let wanted: String = token.to_string();
        for i in 0..self.vocab.len()
            invariant
                wanted@ == token@,
                forall|j: int| 0 <= j < i ==> self@[j] != token@,
        {
            if self.vocab[i] == wanted {
                proof {
                    self@.index_of_first_ensures(token@);
                }
                assert(self@[i as int] == token@);
                return Some(i);
            }
        }
        proof {
            self@.index_of_first_ensures(token@);
        }
        None
    }

    /// Looks up the text of a token by its identifier.
    pub fn id_to_token(&self, id: usize) -> (token: &str)
        requires
            id < self@.len(),
        ensures
            token@ == self@[id as int],
    {
        self.vocab[id].as_str()
    }

    /// Looks up a word already in lower case, its `ё` taken as `е`.
    pub fn folded_id(&self, lowered: &str) -> (id: Option<usize>)
        ensures
            id == find(self@, fold_yo(lowered@)),
            id is Some ==> id->0 < self@.len(),
    {
        let chars: Vec<char> = text::chars_of(lowered);
        let mut folded: String = String::new();
        for i in 0..chars.len()
            invariant
                chars@ == lowered@,
                folded@ == fold_yo(lowered@).take(i as int),
        {
            let c: char = if chars[i] == 'ё' {
                'е'
            } else {
                chars[i]
            };
            folded.push(c);
            assert(folded@ =~= fold_yo(lowered@).take(i + 1));
        }
        assert(folded@ =~= fold_yo(lowered@));
        self.token_to_id(folded.as_str())
    }

    /// Looks up a word as it is written, or else in lower case with `ё` as `е`.
    pub fn word_to_id(&self, word: &str) -> (id: Option<usize>)
        ensures
            id == word_id(self@, word@),
            id is Some ==> id->0 < self@.len(),
    {
        match self.token_to_id(word) {
            Some(id) => Some(id),
            None => self.folded_id(lower(word).as_str()),
        }
    }

    /// The bracketed token that starts at `chars[at]`, with the position behind it.
    fn bracketed_at(&self, chars: &Vec<char>, at: usize) -> (found: Option<(usize, usize)>)
        requires
            at < chars@.len(),
        ensures
            match (found, bracketed(self@, chars@.skip(at as int))) {
                (Some((end, id)), Some((len, token))) => end == at + len && id == token && at < end
                    <= chars@.len() && id < self@.len(),
                (None, None) => true,
                _ => false,
            },
    {
        let ghost s = chars@.skip(at as int);
        proof {
            s.index_of_first_ensures('>');
        }
        if chars[at] != '<' {
            return None;
        }
        for close in at..chars.len()
            invariant
                at < chars@.len(),
                chars@[at as int] == '<',
                s == chars@.skip(at as int),
                forall|k: int| 0 <= k < close - at ==> s[k] != '>',
                match s.index_of_first('>') {
                    Some(index) => {
                        &&& 0 <= index < s.len()
                        &&& s[index] == '>'
                        &&& forall|j: int| 0 <= j < index < s.len() ==> s[j] != '>'
                    },
                    None => !s.contains('>'),
                },
        {
            assert(s[close - at] == chars@[close as int]);
            if chars[close] == '>' {
                assert(s.contains('>'));
                assert(s.index_of_first('>') == Some(close - at));
                let candidate: String = text::string_of(chars, at, close + 1);
                assert(candidate@ =~= s.take(close - at + 1));
                return match self.token_to_id(candidate.as_str()) {
                    Some(id) => Some((close + 1, id)),
                    None => None,
                };
            }
        }
        assert(!s.contains('>'));
        None
    }

    /// The position behind the word that starts at `chars[at]`.
    fn word_end(chars: &Vec<char>, at: usize) -> (end: usize)
        requires
            at < chars@.len(),
        ensures
            at < end <= chars@.len(),
            end == at + 1 + run_len(chars@.skip(at as int).drop_first()),
    {
        let len: usize = chars.len();
        let mut end: usize = at + 1;
        assert(chars@.skip(at as int).drop_first() =~= chars@.skip(end as int));
        while end < len && !is_boundary(chars[end])
            invariant
                len == chars@.len(),
                at < end <= chars@.len(),
                1 + run_len(chars@.skip(at as int).drop_first()) == end - at + run_len(
                    chars@.skip(end as int),
                ),
            decreases chars@.len() - end,
        {
            assert(chars@.skip(end as int).drop_first() =~= chars@.skip(end + 1));
            end = end + 1;
        }
        end
    }

    /// Encodes the text of a file to train on. The error says that nothing in it is a token.
    pub fn encode_training_text(&self, text: &str) -> (ids: Result<Vec<usize>, String>)
        ensures
            match ids {
                Ok(ids) => ids@ == encoding(self@, text@) && ids@.len() > 0,
                Err(message) => encoding(self@, text@).len() == 0 && message@
                    == "File contains no valid tokens"@,
            },
    {
        let ids: Vec<usize> = self.encode(text);
        if ids.len() == 0 {
            Err("File contains no valid tokens".to_string())
        } else {
            Ok(ids)
        }
    }

    /// Encodes a text into token identifiers; words and punctuation outside the vocabulary are
    /// dropped.
    pub fn encode(&self, text: &str) -> (ids: Vec<usize>)
        ensures
            ids@ == encoding(self@, text@),
            in_vocab(ids@, self@.len()),
    {
        let chars: Vec<char> = text::chars_of(text);
        let mut ids: Vec<usize> = Vec::new();
        let mut at: usize = 0;
        assert(chars@.skip(0) =~= text@);
        while at < chars.len()
            invariant
                chars@ == text@,
                at <= chars@.len(),
                encoding(self@, text@) == ids@ + encoding(self@, chars@.skip(at as int)),
                in_vocab(ids@, self@.len()),
            decreases chars@.len() - at,
        {
            let ghost s = chars@.skip(at as int);
            let ghost before = ids@;
            assert(s[0] == chars@[at as int]);
            if text::is_white_space(chars[at]) {
                assert(s.drop_first() =~= chars@.skip(at + 1));
                at = at + 1;
            } else {
                proof {
                    lemma_lexeme_len(self@, s);
                }
                let start: usize = at;
                let id: Option<usize>;
                match self.bracketed_at(&chars, at) {
                    Some((end, token)) => {
                        at = end;
                        id = Some(token);
                    },
                    None => {
                        let single: String = text::string_of(&chars, at, at + 1);
                        assert(single@ =~= s.take(1));
                        match self.token_to_id(single.as_str()) {
                            Some(token) => {
                                at = at + 1;
                                id = Some(token);
                            },
                            None => {
                                let end: usize = Self::word_end(&chars, at);
                                let word: String = text::string_of(&chars, at, end);
                                assert(word@ =~= s.take(end - at));
                                id = self.word_to_id(word.as_str());
                                at = if id.is_none() && is_punctuation(chars[at]) {
                                    at + 1
                                } else {
                                    end
                                };
                            },
                        }
                    },
                }
                assert(lexeme(self@, s) == ((at - start) as int, id));
                assert(s.skip(at - start) =~= chars@.skip(at as int));
                if let Some(token) = id {
                    ids.push(token);
                    assert(before + (seq![token] + encoding(self@, chars@.skip(at as int))) =~= ids@
                        + encoding(self@, chars@.skip(at as int)));
                }
            }
        }
        assert(encoding(self@, chars@.skip(at as int)) =~= Seq::<usize>::empty());
        ids
    }

    /// Decodes token identifiers into a text with single spaces between the tokens.
    pub fn decode(&self, tokens: &[usize]) -> (text: String)
        requires
            in_vocab(tokens@, self@.len()),
        ensures
            text@ == decoding(self@, tokens@),
    {
        let mut parts: Vec<String> = Vec::new();
        for i in 0..tokens.len()
            invariant
                in_vocab(tokens@, self@.len()),
                text::views(parts@) == tokens_of(self@, tokens@).take(i as int),
        {
            let token: String = self.id_to_token(tokens[i]).to_string();
            proof {
                text::lemma_views_push(parts@, token);
            }
            parts.push(token);
            assert(text::views(parts@) =~= tokens_of(self@, tokens@).take(i + 1));
        }
        assert(text::views(parts@) =~= tokens_of(self@, tokens@));
        proof {
            reveal_strlit(" ");
        }
        assert(" "@ =~= seq![' ']);
        text::join_strings(&parts, " ")
    }
}

impl Default for Tokenizer {
    fn default() -> (tok: Self)
        ensures
            tok@ == words(VOCAB_V3@),
    {
        Self::new()
    }
}

/// Whether a running word ends at a character.
fn is_boundary(c: char) -> (b: bool)
    ensures
        b == boundary(c),
{
    text::is_white_space(c) || c == '<' || c == '>' || c == '?' || c == '.' || c == ',' || c == '!'
        || c == ':' || c == ';' || c == '"' || c == '\'' || c == '(' || c == ')' || c == '[' || c
        == ']' || ('0' <= c && c <= '9') || c == '+' || c == '-' || c == '=' || c == '*' || c == '/'
}

/// Writes a word in lower case.
fn lower(word: &str) -> (low: String)
    ensures
        low@ == lowered(word@),
{
    let chars: Vec<char> = text::chars_of(word);
    if chars.len() == 0 || !is_punctuation(chars[0]) {
        return word.to_lowercase();
    }
    let rest: String = text::string_of(&chars, 1, chars.len());
    assert(rest@ =~= word@.drop_first());
    let mut low: String = String::new();
    low.push(chars[0]);
    low.append(rest.to_lowercase().as_str());
    assert(low@ =~= lowered(word@));
    low
}

/// Whether a character is a punctuation mark.
fn is_punctuation(c: char) -> (b: bool)
    ensures
        b == punctuation(c),
{
    is_boundary(c) && !text::is_white_space(c) && !('0' <= c && c <= '9')
}

} // verus!
