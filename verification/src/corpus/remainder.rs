//! Making up a number of tokens exactly from lines of given lengths.

use vstd::prelude::*;

verus! {

/// Whether a failed attempt is followed by the next one. Where some line has no tokens, an
/// attempt that fails at all repeats itself without end.
pub open spec fn backtracks(lens: Seq<usize>) -> bool {
    !lens.contains(0)
}

/// The lines, by position, that a depth-first search finds for `target` tokens, trying the lines
/// in order at each step.
pub open spec fn search(lens: Seq<usize>, target: nat) -> Option<Seq<usize>>
    decreases target, lens.len() + 1,
{
    if target == 0 {
        Some(Seq::empty())
    } else {
        attempt(lens, target, 0)
    }
}

/// The lines that the search finds when it starts with a line from position `i` on.
pub open spec fn attempt(lens: Seq<usize>, target: nat, i: nat) -> Option<Seq<usize>>
    decreases target, lens.len() - i,
{
    if i >= lens.len() || lens[i as int] == 0 {
        None
    } else if lens[i as int] > target {
        attempt(lens, target, i + 1)
    } else {
        match search(lens, (target - lens[i as int]) as nat) {
            Some(rest) => Some(seq![i as usize] + rest),
            None => if backtracks(lens) {
                attempt(lens, target, i + 1)
            } else {
                None
            },
        }
    }
}

/// The tokens of the lines at the given positions.
pub open spec fn tokens_at(lens: Seq<usize>, picks: Seq<usize>) -> nat
    decreases picks.len(),
{
    if picks.len() == 0 {
        0
    } else {
        lens[picks[0] as int] as nat + tokens_at(lens, picks.drop_first())
    }
}

/// Positions of lines that have tokens.
pub open spec fn usable(lens: Seq<usize>, picks: Seq<usize>) -> bool {
    forall|i: int|
        0 <= i < picks.len() ==> (#[trigger] picks[i]) < lens.len() && lens[picks[i] as int] > 0
}

/// The lines that the search finds have exactly the wanted tokens.
pub proof fn law_search_is_exact(lens: Seq<usize>, target: nat)
    requires
        lens.len() <= usize::MAX,
    ensures
        search(lens, target) matches Some(picks) ==> tokens_at(lens, picks) == target && usable(
            lens,
            picks,
        ),
    decreases target, lens.len() + 1,
{
    if target > 0 {
        lemma_attempt_is_exact(lens, target, 0);
    }
}

proof fn lemma_attempt_is_exact(lens: Seq<usize>, target: nat, i: nat)
    requires
        lens.len() <= usize::MAX,
    ensures
        attempt(lens, target, i) matches Some(picks) ==> tokens_at(lens, picks) == target
            && usable(lens, picks),
    decreases target, lens.len() - i,
{
    if i < lens.len() && lens[i as int] != 0 {
        if lens[i as int] > target {
            lemma_attempt_is_exact(lens, target, i + 1);
        } else {
            let less = (target - lens[i as int]) as nat;
            law_search_is_exact(lens, less);
            match search(lens, less) {
                Some(rest) => {
                    let picks = seq![i as usize] + rest;
                    assert(picks.drop_first() =~= rest);
                    assert forall|j: int| 0 <= j < picks.len() implies (#[trigger] picks[j])
                        < lens.len() && lens[picks[j] as int] > 0 by {
                        if j > 0 {
                            assert(picks[j] == rest[j - 1]);
                        }
                    }
                },
                None => if backtracks(lens) {
                    lemma_attempt_is_exact(lens, target, i + 1);
                },
            }
        }
    }
}

proof fn lemma_attempt_succeeds_by(lens: Seq<usize>, target: nat, i: nat, from: nat)
    requires
        backtracks(lens),
        from <= i < lens.len(),
        0 < lens[i as int] <= target,
        search(lens, (target - lens[i as int]) as nat) is Some,
    ensures
        attempt(lens, target, from) is Some,
    decreases i - from,
{
    if from < i {
        lemma_attempt_succeeds_by(lens, target, i, from + 1);
        assert(lens[from as int] != 0);
    }
}

/// Where a line leaves a remainder that can be made up, the whole can be made up.
pub proof fn lemma_search_succeeds_by(lens: Seq<usize>, target: nat, i: nat)
    requires
        backtracks(lens),
        i < lens.len(),
        0 < lens[i as int] <= target,
        search(lens, (target - lens[i as int]) as nat) is Some,
    ensures
        search(lens, target) is Some,
{
    lemma_attempt_succeeds_by(lens, target, i, 0);
}

/// Where every line has tokens, the search finds lines whenever there are any.
pub proof fn law_search_is_complete(lens: Seq<usize>, target: nat, picks: Seq<usize>)
    requires
        backtracks(lens),
        usable(lens, picks),
        tokens_at(lens, picks) == target,
    ensures
        search(lens, target) is Some,
    decreases picks.len(),
{
    if picks.len() > 0 {
        let rest = picks.drop_first();
        assert forall|i: int| 0 <= i < rest.len() implies (#[trigger] rest[i]) < lens.len()
            && lens[rest[i] as int] > 0 by {
            assert(rest[i] == picks[i + 1]);
        }
        assert(picks[0] < lens.len());
        law_search_is_complete(lens, tokens_at(lens, rest), rest);
        lemma_search_succeeds_by(lens, target, picks[0] as nat);
    }
}

fn all_positive(lens: &Vec<usize>) -> (b: bool)
    ensures
        b <==> backtracks(lens@),
{
    for i in 0..lens.len()
        invariant
            forall|j: int| 0 <= j < i ==> lens@[j] != 0,
    {
        if lens[i] == 0 {
            assert(lens@[i as int] == 0);
            return false;
        }
    }
    assert(!lens@.contains(0));
    true
}

/// One step of the depth-first search: appends the lines found for `target` tokens.
fn dfs(lens: &Vec<usize>, target: usize, again: bool, current: &mut Vec<usize>) -> (found: bool)
    requires
        again <==> backtracks(lens@),
    ensures
        match search(lens@, target as nat) {
            Some(picks) => found && final(current)@ == old(current)@ + picks,
            None => !found && final(current)@ == old(current)@,
        },
    decreases target,
{
    if target == 0 {
        assert(current@ =~= old(current)@ + Seq::<usize>::empty());
        return true;
    }
    let ghost start = current@;
    for i in 0..lens.len()
        invariant
            target > 0,
            again <==> backtracks(lens@),
            current@ == start,
            start == old(current)@,
            search(lens@, target as nat) == attempt(lens@, target as nat, i as nat),
    {
        let len: usize = lens[i];
        if len == 0 {
            return false;
        }
        if len <= target {
            current.push(i);
            if dfs(lens, target - len, again, current) {
                proof {
                    let rest = search(lens@, (target - len) as nat)->0;
                    assert(current@ =~= start + (seq![i] + rest));
                }
                return true;
            }
            let _ = current.pop();
            assert(current@ =~= start);
            if !again {
                return false;
            }
        }
    }
    false
}

/// Finds lines whose lengths make up `target` exactly: their positions, in order.
pub fn make_up(lens: &Vec<usize>, target: usize) -> (picks: Option<Vec<usize>>)
    ensures
        match (picks, search(lens@, target as nat)) {
            (Some(found), Some(wanted)) => found@ == wanted,
            (None, None) => true,
            _ => false,
        },
{
    let again: bool = all_positive(lens);
    let mut current: Vec<usize> = Vec::new();
    if dfs(lens, target, again, &mut current) {
        proof {
            let wanted = search(lens@, target as nat)->0;
            assert(Seq::<usize>::empty() + wanted =~= wanted);
        }
        Some(current)
    } else {
        None
    }
}

} // verus!
