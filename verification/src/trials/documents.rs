//! Documents of a corpus: how many words they have, which of them are long, and pairs of texts.

use vstd::prelude::*;
use vstd::string::*;

use crate::scan::{find_tab, word_count};
use crate::scan;
use crate::text::{chars_of, string_of};
use crate::text;

verus! {

/// The number of words that a document must exceed to be long.
pub const LONG_DOCUMENT: usize = 500;

/// The number of words of a text.
pub open spec fn words(line: Seq<char>) -> nat {
    scan::words_before(line, line.len())
}

/// The number of words of all lines.
pub open spec fn total_words(lines: Seq<Seq<char>>) -> nat
    decreases lines.len(),
{
    if lines.len() == 0 {
        0
    } else {
        total_words(lines.drop_last()) + words(lines.last())
    }
}

/// The number of long lines.
pub open spec fn long_lines(lines: Seq<Seq<char>>) -> nat
    decreases lines.len(),
{
    if lines.len() == 0 {
        0
    } else {
        long_lines(lines.drop_last()) + if words(lines.last()) > LONG_DOCUMENT {
            1nat
        } else {
            0nat
        }
    }
}

/// How large a corpus is.
#[derive(Debug, Clone, Copy, PartialEq, Eq, Structural)]
pub struct CorpusSize {
    /// Number of words.
    pub words: u128,
    /// Number of long documents.
    pub long_documents: usize,
}

/// Measures the documents of a corpus, one on each line.
pub fn measure_documents(lines: &Vec<String>) -> (size: CorpusSize)
    ensures
        size.words == total_words(text::views(lines@)),
        size.long_documents == long_lines(text::views(lines@)),
{
    let ghost all = text::views(lines@);
    let mut total: u128 = 0;
    let mut long_documents: usize = 0;
    for i in 0..lines.len()
        invariant
            all == text::views(lines@),
            total == total_words(all.take(i as int)),
            total <= i * usize::MAX,
            long_documents == long_lines(all.take(i as int)),
            long_documents <= i,
    {
        assert(all.take(i + 1).drop_last() =~= all.take(i as int));
        let count: usize = word_count(lines[i].as_str());
        proof {
            assert(i * usize::MAX + usize::MAX == (i + 1) * usize::MAX) by (nonlinear_arith);
            assert((i + 1) * usize::MAX <= u128::MAX) by (nonlinear_arith)
                requires
                    i + 1 <= u64::MAX,
                    usize::MAX <= u64::MAX,
            ;
        }
        total = total + count as u128;
        if count > LONG_DOCUMENT {
            long_documents = long_documents + 1;
        }
    }
    assert(all.take(all.len() as int) =~= all);
    CorpusSize { words: total, long_documents }
}

/// A long document has more words than the bound, so all of them together have more than that
/// many times the bound.
pub proof fn law_long_documents_have_words(lines: Seq<Seq<char>>)
    ensures
        total_words(lines) >= long_lines(lines) * (LONG_DOCUMENT + 1),
        long_lines(lines) <= lines.len(),
    decreases lines.len(),
{
    if lines.len() > 0 {
        law_long_documents_have_words(lines.drop_last());
    }
}

/// The two fields of a line, as they stand: before the first tab, and between it and the next one.
pub open spec fn raw_fields(line: Seq<char>) -> (Seq<char>, Seq<char>) {
    let first = scan::next_tab(line, 0) as int;
    let second = scan::next_tab(line, (first + 1) as nat) as int;
    (line.subrange(0, first), line.subrange(first + 1, second))
}

/// Splits a line at its tabs into its first two fields, where it has two.
pub fn split_pair(line: &str) -> (pair: Option<(String, String)>)
    ensures
        pair is Some <==> scan::next_tab(line@, 0) < line@.len(),
        pair matches Some(fields) ==> (fields.0@, fields.1@) == raw_fields(line@),
{
    let chars: Vec<char> = chars_of(line);
    let first: usize = find_tab(&chars, 0);
    if first >= chars.len() {
        return None;
    }
    let second: usize = find_tab(&chars, first + 1);
    Some((string_of(&chars, 0, first), string_of(&chars, first + 1, second)))
}

/// The words of all lines are those of the first lines and those of the others.
pub proof fn law_words_of_lines_add_up(first: Seq<Seq<char>>, second: Seq<Seq<char>>, line: Seq<char>)
    ensures
        total_words(first + second) == total_words(first) + total_words(second),
        total_words(seq![line]) == words(line),
    decreases second.len(),
{
    reveal_with_fuel(total_words, 2);
    assert(seq![line].drop_last() =~= Seq::empty());
    if second.len() == 0 {
        assert(first + second =~= first);
    } else {
        assert((first + second).drop_last() =~= first + second.drop_last());
        law_words_of_lines_add_up(first, second.drop_last(), line);
    }
}

/// The long documents are those of more than five hundred words.
pub proof fn law_long_documents_are_counted(lines: Seq<Seq<char>>)
    ensures
        long_lines(lines) == lines.filter(|line: Seq<char>| words(line) > 500).len(),
    decreases lines.len(),
{
    reveal(Seq::filter);
    if lines.len() > 0 {
        law_long_documents_are_counted(lines.drop_last());
    }
}

proof fn lemma_tab_at(s: Seq<char>, from: nat, at: nat)
    requires
        from <= at <= s.len(),
        forall|k: int| from <= k < at ==> #[trigger] s[k] != '\t',
        at < s.len() ==> s[at as int] == '\t',
    ensures
        scan::next_tab(s, from) == at,
    decreases at - from,
{
    if from < at {
        lemma_tab_at(s, from + 1, at);
    }
}

/// A line is split at its tabs, as it stands: into what comes before the first one, and what comes
/// between that and the next one, or the end.
pub proof fn law_lines_are_split_at_tabs(a: Seq<char>, b: Seq<char>, rest: Seq<char>)
    requires
        !a.contains('\t'),
        !b.contains('\t'),
        rest.len() == 0 || rest[0] == '\t',
    ensures
        scan::next_tab(a, 0) == a.len(),
        scan::next_tab(a + seq!['\t'] + b + rest, 0) == a.len(),
        raw_fields(a + seq!['\t'] + b + rest) == (a, b),
{
    assert forall|k: int| 0 <= k < a.len() implies #[trigger] a[k] != '\t' by {
        assert(a.contains(a[k]));
    }
    lemma_tab_at(a, 0, a.len());
    let line = a + seq!['\t'] + b + rest;
    let n = a.len();
    let m = (n + 1 + b.len()) as nat;
    assert forall|k: int| 0 <= k < n implies #[trigger] line[k] != '\t' by {
        assert(line[k] == a[k]);
    }
    assert(line[n as int] == '\t');
    lemma_tab_at(line, 0, n);
    assert forall|k: int| n + 1 <= k < m implies #[trigger] line[k] != '\t' by {
        assert(line[k] == b[k - n - 1]);
        assert(b.contains(b[k - n - 1]));
    }
    if rest.len() > 0 {
        assert(line[m as int] == rest[0]);
    }
    lemma_tab_at(line, n + 1, m);
    assert(line.subrange(0, n as int) =~= a);
    assert(line.subrange(n as int + 1, m as int) =~= b);
}

} // verus!
