//! Filling a corpus from a pool of lines, round after round, up to a token budget.

use vstd::prelude::*;

verus! {

/// The sum of the first `m` lengths.
pub open spec fn partial(lens: Seq<usize>, m: nat) -> nat
    decreases m,
{
    if m == 0 {
        0
    } else {
        partial(lens, (m - 1) as nat) + lens[m - 1] as nat
    }
}

/// The tokens of one round over the pool.
pub open spec fn total(lens: Seq<usize>) -> nat {
    partial(lens, lens.len())
}

/// The tokens of the first `k` lines when the pool is gone over again and again.
pub open spec fn prefix(lens: Seq<usize>, k: nat) -> nat {
    (k / lens.len()) * total(lens) + partial(lens, k % lens.len())
}

/// Whether `k` is the first number of lines after which at most `margin` tokens are missing, and
/// none too many are there.
pub open spec fn fills(lens: Seq<usize>, margin: nat, target: nat, k: nat) -> bool {
    &&& forall|j: nat| j < k ==> #[trigger] prefix(lens, j) + margin < target
    &&& target <= prefix(lens, k) + margin
    &&& prefix(lens, k) <= target
}

/// Whether the pool can be taken up to the margin of the target.
pub open spec fn fillable(lens: Seq<usize>, margin: nat, target: nat) -> bool {
    exists|k: nat| fills(lens, margin, target, k)
}

/// The number of lines taken.
pub open spec fn lines_taken(lens: Seq<usize>, margin: nat, target: nat) -> nat {
    choose|k: nat| fills(lens, margin, target, k)
}

/// The tokens still missing behind the lines taken.
pub open spec fn missing(lens: Seq<usize>, margin: nat, target: nat) -> nat {
    (target - prefix(lens, lines_taken(lens, margin, target))) as nat
}

/// The first `k` lines of the pool gone over again and again.
pub open spec fn cycled(pool: Seq<Seq<usize>>, k: nat) -> Seq<Seq<usize>> {
    Seq::new(k, |i: int| pool[i % (pool.len() as int)])
}

/// More lengths have no smaller sum.
pub proof fn lemma_partial_monotone(lens: Seq<usize>, a: nat, b: nat)
    requires
        a <= b,
    ensures
        partial(lens, a) <= partial(lens, b),
    decreases b,
{
    if a < b {
        lemma_partial_monotone(lens, a, (b - 1) as nat);
    }
}

/// The next line is the next of the round, or the first of the next one.
proof fn lemma_next_round(k: nat, n: nat)
    requires
        n > 0,
    ensures
        k % n + 1 < n ==> (k + 1) / n == k / n && (k + 1) % n == k % n + 1,
        k % n + 1 == n ==> (k + 1) / n == k / n + 1 && (k + 1) % n == 0,
{
    let d = n as int;
    let q = k as int / d;
    let r = k as int % d;
    let next: int = k as int + 1;
    vstd::arithmetic::div_mod::lemma_fundamental_div_mod(k as int, d);
    if r + 1 < d {
        vstd::arithmetic::div_mod::lemma_fundamental_div_mod_converse(next, d, q, r + 1);
    } else {
        assert(next == d * (q + 1) + 0) by (nonlinear_arith)
            requires
                next == d * q + r + 1,
                r + 1 == d,
        ;
        vstd::arithmetic::div_mod::lemma_fundamental_div_mod_converse(next, d, q + 1, 0);
    }
}

/// One more line adds its tokens.
pub proof fn lemma_prefix_step(lens: Seq<usize>, k: nat)
    requires
        lens.len() > 0,
    ensures
        prefix(lens, k + 1) == prefix(lens, k) + lens[(k % lens.len()) as int],
{
    let n = lens.len();
    let q = k / n;
    let r = k % n;
    let t = total(lens);
    lemma_next_round(k, n);
    if r + 1 == n {
        assert((q + 1) * t == q * t + t) by (nonlinear_arith);
        assert(partial(lens, r + 1) == partial(lens, r) + lens[r as int] as nat);
    }
}

/// More lines have no fewer tokens.
pub proof fn lemma_prefix_monotone(lens: Seq<usize>, a: nat, b: nat)
    requires
        lens.len() > 0,
        a <= b,
    ensures
        prefix(lens, a) <= prefix(lens, b),
    decreases b,
{
    if a < b {
        lemma_prefix_monotone(lens, a, (b - 1) as nat);
        lemma_prefix_step(lens, (b - 1) as nat);
    }
}

/// Only one number of lines fills a budget.
pub proof fn lemma_fills_once(lens: Seq<usize>, margin: nat, target: nat, a: nat, b: nat)
    requires
        fills(lens, margin, target, a),
        fills(lens, margin, target, b),
    ensures
        a == b,
{
    assert(prefix(lens, a) + margin >= target && prefix(lens, b) + margin >= target);
}

/// As long as tokens are missing, fewer than `n * target` lines have been taken.
proof fn lemma_lines_bounded(lens: Seq<usize>, target: nat, k: nat)
    requires
        lens.len() > 0,
        total(lens) > 0,
        prefix(lens, k) < target,
    ensures
        k < lens.len() * target,
{
    let n = lens.len() as int;
    let q = k as int / n;
    vstd::arithmetic::div_mod::lemma_fundamental_div_mod(k as int, n);
    assert(q <= q * total(lens)) by (nonlinear_arith)
        requires
            total(lens) >= 1,
            q >= 0,
    ;
    assert(q + 1 <= target);
    assert(k < n * target) by (nonlinear_arith)
        requires
            k as int == n * q + k as int % n,
            0 <= k as int % n < n,
            q + 1 <= target,
            n > 0,
    ;
}

proof fn lemma_zero_prefix(lens: Seq<usize>, k: nat)
    requires
        lens.len() > 0,
        total(lens) == 0,
    ensures
        prefix(lens, k) == 0,
{
    lemma_partial_monotone(lens, k % lens.len(), lens.len());
    assert((k / lens.len()) * total(lens) == 0) by (nonlinear_arith)
        requires
            total(lens) == 0,
    ;
}

fn has_tokens(lens: &Vec<usize>) -> (b: bool)
    ensures
        b <==> total(lens@) > 0,
{
    for i in 0..lens.len()
        invariant
            partial(lens@, i as nat) == 0,
    {
        if lens[i] > 0 {
            proof {
                lemma_partial_monotone(lens@, (i + 1) as nat, lens@.len());
            }
            return true;
        }
    }
    false
}

/// Takes lines of the given lengths from a pool, round after round, until at most `margin` of
/// `target` tokens are missing. Returns which lines were taken and how many tokens are missing;
/// nothing where the lines have no tokens or overshoot the target.
pub fn fill(lens: &Vec<usize>, margin: usize, target: usize) -> (taken: Option<
    (Vec<usize>, usize),
>)
    requires
        lens@.len() > 0,
    ensures
        taken is Some <==> fillable(lens@, margin as nat, target as nat),
        taken matches Some((picks, rest)) ==> {
            let k = lines_taken(lens@, margin as nat, target as nat);
            &&& picks@ == Seq::new(k, |i: int| (i % (lens@.len() as int)) as usize)
            &&& rest == missing(lens@, margin as nat, target as nat)
            &&& fills(lens@, margin as nat, target as nat, k)
        },
{
    let n: usize = lens.len();
    if target > margin && !has_tokens(lens) {
        assert forall|k: nat| !fills(lens@, margin as nat, target as nat, k) by {
            lemma_zero_prefix(lens@, k);
        }
        return None;
    }
    let mut picks: Vec<usize> = Vec::new();
    let mut rest: usize = target;
    let mut at: usize = 0;
    assert(prefix(lens@, 0) == 0) by {
        assert(0 * total(lens@) == 0);
    }
    while rest > margin
        invariant
            n == lens@.len(),
            n > 0,
            rest <= target,
            rest > margin ==> total(lens@) > 0,
            picks@ == Seq::new(picks@.len(), |i: int| (i % (n as int)) as usize),
            at == picks@.len() % (n as nat),
            rest == target - prefix(lens@, picks@.len()),
            forall|j: nat| j < picks@.len() ==> #[trigger] prefix(lens@, j) + margin < target,
        decreases lens@.len() * target - picks@.len(),
    {
        let ghost k = picks@.len();
        proof {
            lemma_lines_bounded(lens@, target as nat, k);
            lemma_prefix_step(lens@, k);
        }
        let len: usize = lens[at];
        if len > rest {
            assert forall|m: nat| !fills(lens@, margin as nat, target as nat, m) by {
                if m <= k {
                    assert(prefix(lens@, m) + margin < target);
                } else {
                    lemma_prefix_monotone(lens@, k + 1, m);
                }
            }
            return None;
        }
        picks.push(at);
        rest = rest - len;
        at = if at + 1 == n {
            0
        } else {
            at + 1
        };
        proof {
            lemma_next_round(k, n as nat);
        }
        assert(picks@ =~= Seq::new(picks@.len(), |i: int| (i % (n as int)) as usize));
    }
    proof {
        let k = picks@.len();
        assert(fills(lens@, margin as nat, target as nat, k));
        lemma_fills_once(
            lens@,
            margin as nat,
            target as nat,
            k,
            lines_taken(lens@, margin as nat, target as nat),
        );
    }
    Some((picks, rest))
}

} // verus!
