//! Checks of corpora that come from outside, and the listing of a vocabulary.

use vstd::prelude::*;
use vstd::string::*;

use crate::classic::tokenizer::Tokenizer;
use crate::text::{chars_of, decimal_string};
use crate::text;

verus! {

/// What ends every line of a corpus.
pub open spec fn line_end() -> Seq<char> {
    "<eos>"@
}

/// Whether a line ends as it should.
pub open spec fn terminated(line: Seq<char>) -> bool {
    line.len() >= 5 && line.skip(line.len() - 5) == line_end()
}

/// What is wrong with a line of a corpus.
#[derive(Debug, Clone, Copy, PartialEq, Eq, Structural)]
pub enum LineFault {
    /// The line at this position does not end with the end token.
    Unterminated(usize),
    /// The line at this position has occurred before.
    Repeated(usize),
}

/// Whether a line has occurred before its position.
pub open spec fn repeated(lines: Seq<Seq<char>>, i: int) -> bool {
    exists|j: int| 0 <= j < i && #[trigger] lines[j] == lines[i]
}

/// Whether a line is as it should be: terminated, and new.
pub open spec fn sound_line(lines: Seq<Seq<char>>, i: int) -> bool {
    terminated(lines[i]) && !repeated(lines, i)
}

/// The first fault of the lines from `i` on.
pub open spec fn first_fault(lines: Seq<Seq<char>>, i: nat) -> Option<LineFault>
    decreases lines.len() - i,
{
    if i >= lines.len() {
        None
    } else if !terminated(lines[i as int]) {
        Some(LineFault::Unterminated(i as usize))
    } else if repeated(lines, i as int) {
        Some(LineFault::Repeated(i as usize))
    } else {
        first_fault(lines, i + 1)
    }
}

/// Whether a line ends with the end token.
fn ends_with_eos(line: &str) -> (ended: bool)
    ensures
        ended == terminated(line@),
{
    proof {
        reveal_strlit("<eos>");
    }
    let chars: Vec<char> = chars_of(line);
    let n: usize = chars.len();
    if n < 5 {
        return false;
    }
    let ended: bool = chars[n - 5] == '<' && chars[n - 4] == 'e' && chars[n - 3] == 'o' && chars[n
        - 2] == 's' && chars[n - 1] == '>';
    proof {
        let tail = line@.skip(line@.len() - 5);
        if ended {
            assert(tail =~= line_end());
        } else if tail == line_end() {
            assert(tail[0] == chars@[n - 5]);
            assert(tail[1] == chars@[n - 4]);
            assert(tail[2] == chars@[n - 3]);
            assert(tail[3] == chars@[n - 2]);
            assert(tail[4] == chars@[n - 1]);
        }
    }
    ended
}

/// Whether a line has occurred before its position.
fn occurred_before(lines: &Vec<String>, i: usize) -> (found: bool)
    requires
        i < lines@.len(),
    ensures
        found == repeated(text::views(lines@), i as int),
{
    for j in 0..i
        invariant
            i < lines@.len(),
            forall|k: int|
                0 <= k < j ==> #[trigger] text::views(lines@)[k] != text::views(lines@)[i as int],
    {
        if lines[j] == lines[i] {
            assert(text::views(lines@)[j as int] == text::views(lines@)[i as int]);
            return true;
        }
    }
    false
}

/// Finds the first fault in the lines of a corpus.
pub fn check_lines(lines: &Vec<String>) -> (fault: Option<LineFault>)
    ensures
        fault == first_fault(text::views(lines@), 0),
{
    let n: usize = lines.len();
    let mut i: usize = 0;
    while i < n
        invariant
            i <= n,
            n == lines@.len(),
            first_fault(text::views(lines@), i as nat) == first_fault(text::views(lines@), 0),
        decreases n - i,
    {
        if !ends_with_eos(lines[i].as_str()) {
            return Some(LineFault::Unterminated(i));
        }
        if occurred_before(lines, i) {
            return Some(LineFault::Repeated(i));
        }
        i = i + 1;
    }
    None
}

/// A corpus has no fault exactly where every line is sound.
pub proof fn law_faultless_corpus_is_sound(lines: Seq<Seq<char>>, i: nat)
    requires
        i <= lines.len(),
    ensures
        first_fault(lines, i) is None <==> forall|k: int|
            i <= k < lines.len() ==> #[trigger] sound_line(lines, k),
    decreases lines.len() - i,
{
    if i < lines.len() {
        law_faultless_corpus_is_sound(lines, i + 1);
        let sound = sound_line(lines, i as int);
        if first_fault(lines, i) is None {
            assert forall|k: int| i <= k < lines.len() implies #[trigger] sound_line(lines, k) by {
                if k > i {
                    assert(sound_line(lines, k));
                }
            }
        }
    }
}

/// The lines of a faultless corpus are all different.
pub proof fn law_faultless_corpus_has_no_duplicates(lines: Seq<Seq<char>>)
    requires
        first_fault(lines, 0) is None,
    ensures
        lines.no_duplicates(),
{
    law_faultless_corpus_is_sound(lines, 0);
    assert forall|i: int, j: int| 0 <= i < lines.len() && 0 <= j < lines.len() && i != j implies
        lines[i] != lines[j] by {
        if i < j {
            assert(sound_line(lines, j));
        } else {
            assert(sound_line(lines, i));
        }
    }
}

/// The listing of the first words: each with its number, one to a line.
pub open spec fn listing(words: Seq<Seq<char>>, n: nat) -> Seq<char>
    decreases n,
{
    if n == 0 {
        Seq::empty()
    } else {
        listing(words, (n - 1) as nat) + text::decimal((n - 1) as nat) + ": "@ + words[n - 1]
            + "\n"@
    }
}

/// Lists a vocabulary.
pub fn vocab_listing(tok: &Tokenizer) -> (listed: String)
    ensures
        listed@ == listing(tok@, tok@.len()),
{
    let mut listed: String = String::new();
    let n: usize = tok.vocab_size();
    for i in 0..n
        invariant
            n == tok@.len(),
            listed@ == listing(tok@, i as nat),
    {
        let number: String = decimal_string(i as u128);
        listed.append(number.as_str());
        listed.append(": ");
        listed.append(tok.id_to_token(i));
        listed.append("\n");
        assert(listed@ =~= listing(tok@, (i + 1) as nat));
    }
    listed
}

/// A line ends as it should exactly where its last five characters are `<`, `e`, `o`, `s` and `>`.
pub proof fn law_terminated_lines_end_with_eos(line: Seq<char>)
    ensures
        terminated(line) <==> {
            let n = line.len() as int;
            n >= 5 && line[n - 5] == '<' && line[n - 4] == 'e' && line[n - 3] == 'o' && line[n - 2]
                == 's' && line[n - 1] == '>'
        },
{
    reveal_strlit("<eos>");
    let n = line.len() as int;
    if n >= 5 {
        let tail = line.skip(n - 5);
        assert(tail[0] == line[n - 5] && tail[1] == line[n - 4] && tail[2] == line[n - 3]);
        assert(tail[3] == line[n - 2] && tail[4] == line[n - 1]);
        if tail[0] == '<' && tail[1] == 'e' && tail[2] == 'o' && tail[3] == 's' && tail[4] == '>' {
            assert(tail =~= line_end());
        }
    }
}

/// The fault reported is that of the first faulty line: every line before it ends as it should and
/// is new; a line that does not end as it should is reported for that, any other for having
/// occurred before.
pub proof fn law_first_fault_is_reported(lines: Seq<Seq<char>>, i: nat)
    requires
        i <= lines.len() <= usize::MAX,
    ensures
        first_fault(lines, i) matches Some(fault) ==> {
            let at = match fault {
                LineFault::Unterminated(at) => at as int,
                LineFault::Repeated(at) => at as int,
            };
            &&& i <= at < lines.len()
            &&& fault is Unterminated <==> !terminated(lines[at])
            &&& fault is Repeated ==> exists|j: int| 0 <= j < at && #[trigger] lines[j] == lines[at]
            &&& forall|k: int|
                i <= k < at ==> terminated(#[trigger] lines[k]) && forall|j: int|
                    0 <= j < k ==> #[trigger] lines[j] != lines[k]
        },
    decreases lines.len() - i,
{
    if i < lines.len() {
        law_first_fault_is_reported(lines, i + 1);
    }
}

/// A vocabulary is listed with one line for each token: its number, a colon, a blank, the token.
pub proof fn law_listing_has_a_line_for_each_token(words: Seq<Seq<char>>, n: nat)
    requires
        n <= words.len(),
    ensures
        listing(words, n) == Seq::new(
            n,
            |i: int| text::decimal(i as nat) + seq![':', ' '] + words[i] + seq!['\n'],
        ).flatten(),
    decreases n,
{
    reveal_strlit(": ");
    reveal_strlit("\n");
    assert(": "@ =~= seq![':', ' ']);
    assert("\n"@ =~= seq!['\n']);
    let all = Seq::new(
        n,
        |i: int| text::decimal(i as nat) + seq![':', ' '] + words[i] + seq!['\n'],
    );
    if n == 0 {
        assert(all.flatten() =~= Seq::<char>::empty());
    } else {
        let m = (n - 1) as nat;
        law_listing_has_a_line_for_each_token(words, m);
        let before = Seq::new(
            m,
            |i: int| text::decimal(i as nat) + seq![':', ' '] + words[i] + seq!['\n'],
        );
        let line = text::decimal(m) + seq![':', ' '] + words[m as int] + seq!['\n'];
        assert(all =~= before.push(line));
        before.lemma_flatten_push(line);
        assert(listing(words, n) =~= listing(words, m) + line);
    }
}

} // verus!
