//! Trimming, searching and counting in texts.

use vstd::prelude::*;

use crate::text::{chars_of, is_white_space, string_of};
use crate::text;

verus! {

/// The first position from `i` on that is no white space, or the end.
pub open spec fn first_solid(s: Seq<char>, i: nat) -> nat
    decreases s.len() - i,
{
    if i >= s.len() || !text::white_space(s[i as int]) {
        i
    } else {
        first_solid(s, i + 1)
    }
}

/// The end of the text up to `j` without the white space before it.
pub open spec fn solid_end(s: Seq<char>, j: nat) -> nat
    decreases j,
{
    if j == 0 || !text::white_space(s[j - 1]) {
        j
    } else {
        solid_end(s, (j - 1) as nat)
    }
}

/// A text without the white space at its ends.
pub open spec fn trimmed(s: Seq<char>) -> Seq<char> {
    let from = first_solid(s, 0);
    if from >= s.len() {
        Seq::empty()
    } else {
        s.subrange(from as int, solid_end(s, s.len()) as int)
    }
}

proof fn lemma_first_solid(s: Seq<char>, i: nat)
    requires
        i <= s.len(),
    ensures
        i <= first_solid(s, i) <= s.len(),
        forall|k: int| i <= k < first_solid(s, i) ==> text::white_space(#[trigger] s[k]),
        first_solid(s, i) < s.len() ==> !text::white_space(s[first_solid(s, i) as int]),
    decreases s.len() - i,
{
    if i < s.len() && text::white_space(s[i as int]) {
        lemma_first_solid(s, i + 1);
    }
}

proof fn lemma_solid_end(s: Seq<char>, j: nat)
    requires
        j <= s.len(),
    ensures
        solid_end(s, j) <= j,
        forall|k: int| solid_end(s, j) <= k < j ==> text::white_space(#[trigger] s[k]),
        solid_end(s, j) > 0 ==> !text::white_space(s[solid_end(s, j) - 1]),
    decreases j,
{
    if j > 0 && text::white_space(s[j - 1]) {
        lemma_solid_end(s, (j - 1) as nat);
    }
}

/// A solid character lies between both ends.
proof fn lemma_bounds(s: Seq<char>)
    requires
        first_solid(s, 0) < s.len(),
    ensures
        first_solid(s, 0) < solid_end(s, s.len()) <= s.len(),
{
    lemma_first_solid(s, 0);
    lemma_solid_end(s, s.len());
    if solid_end(s, s.len()) <= first_solid(s, 0) {
        assert(text::white_space(s[first_solid(s, 0) as int]));
    }
}

/// Cuts the white space off both ends of a text.
pub fn trim(s: &str) -> (cut: String)
    ensures
        cut@ == trimmed(s@),
{
    let chars: Vec<char> = chars_of(s);
    let n: usize = chars.len();
    let mut from: usize = 0;
    while from < n && is_white_space(chars[from])
        invariant
            from <= n,
            n == chars@.len(),
            first_solid(chars@, from as nat) == first_solid(chars@, 0),
        decreases n - from,
    {
        from = from + 1;
    }
    if from == n {
        return String::new();
    }
    let mut to: usize = n;
    while to > 0 && is_white_space(chars[to - 1])
        invariant
            to <= n,
            n == chars@.len(),
            solid_end(chars@, to as nat) == solid_end(chars@, n as nat),
        decreases to,
    {
        to = to - 1;
    }
    proof {
        lemma_bounds(chars@);
    }
    string_of(&chars, from, to)
}

/// A trimmed text neither begins nor ends with white space, and only white space was cut off.
pub proof fn law_trimming_cuts_only_white_space(s: Seq<char>)
    ensures
        trimmed(s).len() > 0 ==> !text::white_space(trimmed(s)[0]) && !text::white_space(
            trimmed(s).last(),
        ),
        trimmed(s).len() == 0 ==> forall|k: int|
            0 <= k < s.len() ==> text::white_space(#[trigger] s[k]),
        trimmed(s).len() > 0 ==> {
            let from = first_solid(s, 0) as int;
            let to = solid_end(s, s.len()) as int;
            &&& trimmed(s) == s.subrange(from, to)
            &&& forall|k: int| 0 <= k < from ==> text::white_space(#[trigger] s[k])
            &&& forall|k: int| to <= k < s.len() ==> text::white_space(#[trigger] s[k])
        },
{
    lemma_first_solid(s, 0);
    lemma_solid_end(s, s.len());
    if first_solid(s, 0) < s.len() {
        lemma_bounds(s);
    }
}

/// Trimming twice is trimming once.
pub proof fn law_trimming_is_idempotent(s: Seq<char>)
    ensures
        trimmed(trimmed(s)) == trimmed(s),
{
    let once = trimmed(s);
    law_trimming_cuts_only_white_space(s);
    if once.len() > 0 {
        assert(first_solid(once, 0) == 0);
        assert(solid_end(once, once.len()) == once.len());
        assert(once.subrange(0, once.len() as int) =~= once);
    }
}

/// A part stands at a position of a text.
pub open spec fn occurs_at(s: Seq<char>, part: Seq<char>, i: int) -> bool {
    0 <= i && i + part.len() <= s.len() && s.subrange(i, i + part.len()) == part
}

/// A part stands somewhere in a text.
pub open spec fn occurs(s: Seq<char>, part: Seq<char>) -> bool {
    exists|i: int| occurs_at(s, part, i)
}

/// Whether a part stands at a position.
fn stands_at(chars: &Vec<char>, part: &Vec<char>, i: usize) -> (found: bool)
    requires
        i + part@.len() <= chars@.len(),
    ensures
        found == occurs_at(chars@, part@, i as int),
{
    let n: usize = chars.len();
    for k in 0..part.len()
        invariant
            n == chars@.len(),
            i + part@.len() <= n,
            forall|j: int| 0 <= j < k ==> chars@[i + j] == part@[j],
    {
        if chars[i + k] != part[k] {
            assert(chars@.subrange(i as int, i + part@.len())[k as int] == chars@[i + k]);
            return false;
        }
    }
    assert(chars@.subrange(i as int, i + part@.len()) =~= part@);
    true
}

/// Whether a part stands somewhere in a text.
pub fn contains(s: &str, part: &str) -> (found: bool)
    ensures
        found == occurs(s@, part@),
{
    let chars: Vec<char> = chars_of(s);
    let wanted: Vec<char> = chars_of(part);
    if wanted.len() > chars.len() {
        return false;
    }
    let last: usize = chars.len() - wanted.len();
    let mut i: usize = 0;
    while i <= last
        invariant
            chars@ == s@,
            wanted@ == part@,
            last == chars@.len() - wanted@.len(),
            i <= last + 1,
            forall|j: int| 0 <= j < i ==> !occurs_at(chars@, wanted@, j),
        decreases last + 1 - i,
    {
        if stands_at(&chars, &wanted, i) {
            return true;
        }
        if i == last {
            assert forall|j: int| !occurs_at(chars@, wanted@, j) by {
                if occurs_at(chars@, wanted@, j) {
                    assert(j <= last);
                }
            }
            return false;
        }
        i = i + 1;
    }
    false
}

/// A text that begins with a part contains it.
pub proof fn law_prefix_occurs(s: Seq<char>, part: Seq<char>)
    requires
        part.len() <= s.len(),
        s.take(part.len() as int) == part,
    ensures
        occurs(s, part),
{
    assert(s.subrange(0, part.len() as int) =~= s.take(part.len() as int));
    assert(occurs_at(s, part, 0));
}

/// The first characters of a text.
pub open spec fn truncated(s: Seq<char>, max_chars: nat) -> Seq<char> {
    if s.len() <= max_chars {
        s
    } else {
        s.take(max_chars as int)
    }
}

/// Keeps the first characters of a text.
pub fn truncate_chars(s: &str, max_chars: usize) -> (cut: String)
    ensures
        cut@ == truncated(s@, max_chars as nat),
{
    let chars: Vec<char> = chars_of(s);
    let to: usize = if chars.len() <= max_chars {
        chars.len()
    } else {
        max_chars
    };
    let cut: String = string_of(&chars, 0, to);
    assert(cut@ =~= truncated(s@, max_chars as nat));
    cut
}

/// The number of words that begin before a position.
pub open spec fn words_before(s: Seq<char>, n: nat) -> nat
    decreases n,
{
    if n == 0 {
        0
    } else {
        let i = n - 1;
        words_before(s, i as nat) + if !text::white_space(s[i]) && (i == 0 || text::white_space(
            s[i - 1],
        )) {
            1nat
        } else {
            0nat
        }
    }
}

/// Counts the words of a text: its runs of characters that are no white space.
pub fn word_count(s: &str) -> (count: usize)
    ensures
        count == words_before(s@, s@.len()),
{
    let chars: Vec<char> = chars_of(s);
    let mut count: usize = 0;
    let mut inside: bool = false;
    for i in 0..chars.len()
        invariant
            count == words_before(chars@, i as nat),
            count <= i,
            inside == (i > 0 && !text::white_space(chars@[i - 1])),
    {
        let solid: bool = !is_white_space(chars[i]);
        if solid && !inside {
            count = count + 1;
        }
        inside = solid;
    }
    count
}

/// The position of the first tab from `i` on, or the end.
pub open spec fn next_tab(s: Seq<char>, i: nat) -> nat
    decreases s.len() - i,
{
    if i >= s.len() || s[i as int] == '\t' {
        i
    } else {
        next_tab(s, i + 1)
    }
}

/// Finds the first tab from a position on, or the end.
pub fn find_tab(chars: &Vec<char>, from: usize) -> (at: usize)
    requires
        from <= chars@.len(),
    ensures
        at == next_tab(chars@, from as nat),
        from <= at <= chars@.len(),
{
    let n: usize = chars.len();
    let mut at: usize = from;
    while at < n && chars[at] != '\t'
        invariant
            from <= at <= n,
            n == chars@.len(),
            next_tab(chars@, at as nat) == next_tab(chars@, from as nat),
        decreases n - at,
    {
        at = at + 1;
    }
    at
}

/// What is left of a text is a stretch of it: before and behind it there is white space only, and
/// it begins and ends with something else. Where there is nothing else, nothing is left.
pub proof fn law_trimming_leaves_the_solid_stretch(s: Seq<char>)
    ensures
        exists|from: int, to: int|
            {
                &&& 0 <= from <= to <= s.len()
                &&& trimmed(s) == #[trigger] s.subrange(from, to)
                &&& forall|k: int| 0 <= k < from ==> text::white_space(#[trigger] s[k])
                &&& forall|k: int| to <= k < s.len() ==> text::white_space(#[trigger] s[k])
                &&& from < to ==> !text::white_space(s[from]) && !text::white_space(s[to - 1])
            },
{
    law_trimming_cuts_only_white_space(s);
    lemma_first_solid(s, 0);
    lemma_solid_end(s, s.len());
    if first_solid(s, 0) < s.len() {
        lemma_bounds(s);
        let from = first_solid(s, 0) as int;
        let to = solid_end(s, s.len()) as int;
        assert(trimmed(s) == s.subrange(from, to));
    } else {
        let n = s.len() as int;
        assert(trimmed(s) =~= s.subrange(n, n));
    }
}

/// A part occurs in a text exactly where the text is something, the part, and something else.
pub proof fn law_occurrence_splits_the_text(s: Seq<char>, part: Seq<char>)
    ensures
        occurs(s, part) <==> exists|a: Seq<char>, b: Seq<char>| s == #[trigger] (a + part + b),
{
    if occurs(s, part) {
        let i = choose|i: int| occurs_at(s, part, i);
        let a = s.take(i);
        let b = s.skip(i + part.len());
        assert(s =~= a + s.subrange(i, i + part.len()) + b);
        assert(s == a + part + b);
    }
    if exists|a: Seq<char>, b: Seq<char>| s == #[trigger] (a + part + b) {
        let (a, b) = choose|a: Seq<char>, b: Seq<char>| s == #[trigger] (a + part + b);
        assert(s.subrange(a.len() as int, (a.len() + part.len()) as int) =~= part);
        assert(occurs_at(s, part, a.len() as int));
    }
}

/// A truncated text is the beginning of the text, and as long as it may be.
pub proof fn law_truncated_text_is_a_beginning(s: Seq<char>, max_chars: nat)
    ensures
        truncated(s, max_chars).is_prefix_of(s),
        truncated(s, max_chars).len() <= max_chars,
        truncated(s, max_chars).len() == s.len() || truncated(s, max_chars).len() == max_chars,
{
}

proof fn lemma_words_prefix(s: Seq<char>, t: Seq<char>, n: nat)
    requires
        n <= s.len(),
        n <= t.len(),
        s.take(n as int) == t.take(n as int),
    ensures
        words_before(s, n) == words_before(t, n),
    decreases n,
{
    if n > 0 {
        assert(s[n - 1] == s.take(n as int)[n - 1] && t[n - 1] == t.take(n as int)[n - 1]);
        assert(s.take(n - 1) =~= s.take(n as int).take(n - 1));
        assert(t.take(n - 1) =~= t.take(n as int).take(n - 1));
        if n > 1 {
            assert(s[n - 2] == s.take(n as int)[n - 2] && t[n - 2] == t.take(n as int)[n - 2]);
        }
        lemma_words_prefix(s, t, (n - 1) as nat);
    }
}

/// White space parts the words of a text: those before and those behind it are all there are.
pub proof fn law_words_add_up(a: Seq<char>, c: char, b: Seq<char>)
    requires
        text::white_space(c),
    ensures
        words_before(a + seq![c] + b, (a.len() + 1 + b.len()) as nat) == words_before(a, a.len())
            + words_before(b, b.len()),
    decreases b.len(),
{
    let s = a + seq![c] + b;
    if b.len() == 0 {
        assert(s.take(a.len() as int) =~= a.take(a.len() as int));
        lemma_words_prefix(s, a, a.len());
        assert(s[a.len() as int] == c);
    } else {
        let front = b.drop_last();
        let t = a + seq![c] + front;
        let n = (a.len() + 1 + front.len()) as nat;
        law_words_add_up(a, c, front);
        assert(s.take(n as int) =~= t.take(n as int));
        lemma_words_prefix(s, t, n);
        assert(b.take(front.len() as int) =~= front.take(front.len() as int));
        lemma_words_prefix(b, front, front.len());
        assert(s[n as int] == b.last());
        if front.len() > 0 {
            assert(s[n - 1] == b[b.len() - 2]);
        } else {
            assert(s[n - 1] == c);
        }
    }
}

/// A text without white space is one word, unless it is empty.
pub proof fn law_solid_text_is_one_word(s: Seq<char>, n: nat)
    requires
        n <= s.len(),
        forall|k: int| 0 <= k < n ==> !text::white_space(#[trigger] s[k]),
    ensures
        words_before(s, n) == if n == 0 {
            0nat
        } else {
            1nat
        },
    decreases n,
{
    if n > 0 {
        law_solid_text_is_one_word(s, (n - 1) as nat);
        assert(!text::white_space(s[n - 1]));
        if n > 1 {
            assert(!text::white_space(s[n - 2]));
        }
    }
}

/// The next tab is the first one: none stands before it, and where it is not the end, it is a tab.
pub proof fn law_next_tab_is_the_first(s: Seq<char>, i: nat)
    requires
        i <= s.len(),
    ensures
        i <= next_tab(s, i) <= s.len(),
        forall|k: int| i <= k < next_tab(s, i) ==> #[trigger] s[k] != '\t',
        next_tab(s, i) < s.len() ==> s[next_tab(s, i) as int] == '\t',
    decreases s.len() - i,
{
    if i < s.len() && s[i as int] != '\t' {
        law_next_tab_is_the_first(s, i + 1);
    }
}

} // verus!
