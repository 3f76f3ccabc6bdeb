//! Compute budgets: how many epochs a model is owed for the same number of operations.

use vstd::prelude::*;

verus! {

/// Operations that training takes for each parameter and token.
pub const TRAINING_OPS: u64 = 6;

/// Operations that the projector of the recurrent model adds for each token of training.
pub const PROJECTOR_OPS: u64 = 864;

/// Operations that the projector of the recurrent model adds for each token of inference.
pub const PROJECTOR_STEP_OPS: u64 = 288;

/// The budget of the trial on the third corpus, in operations.
pub const CORPUS_V3_BUDGET: u64 = 21_750_000_000;

/// Pretraining epochs of the transformer in the trial on the Chinchilla corpora.
pub const PRETRAIN_EPOCHS: u64 = 20;

/// Fine-tuning epochs of the transformer in the trial on the Chinchilla corpora.
pub const INSTRUCT_EPOCHS: u64 = 50;

/// The tokens that a replayed sequence counts for.
pub const REPLAY_TOKENS: u64 = 8;

/// The whole number nearest to a quotient; of two, the greater one.
pub open spec fn nearest(n: nat, d: nat) -> nat {
    (2 * n + d) / (2 * d)
}

/// The distance between two numbers.
pub open spec fn distance(a: int, b: int) -> int {
    if a < b {
        b - a
    } else {
        a - b
    }
}

/// No whole number of parts comes nearer to a total than the nearest quotient, which misses it by
/// at most half a part.
pub proof fn law_nearest_is_nearest(n: nat, d: nat, other: nat)
    requires
        d > 0,
    ensures
        2 * distance((nearest(n, d) * d) as int, n as int) <= d,
        distance((nearest(n, d) * d) as int, n as int) <= distance((other * d) as int, n as int),
{
    let q = nearest(n, d);
    let t = 2 * n + d;
    assert(2 * d * q <= t < 2 * d * q + 2 * d) by (nonlinear_arith)
        requires
            q == t / (2 * d),
            d > 0,
    ;
    assert(2 * d * q == 2 * (q * d)) by (nonlinear_arith);
    if other < q {
        assert(other * d + d <= q * d) by (nonlinear_arith)
            requires
                other + 1 <= q,
        ;
    } else if other > q {
        assert(other * d >= q * d + d) by (nonlinear_arith)
            requires
                other >= q + 1,
        ;
    }
}

/// The whole number nearest to a quotient; of two, the greater one.
pub fn nearest_quotient(n: u64, d: u64) -> (q: u64)
    requires
        d > 0,
    ensures
        q == nearest(n as nat, d as nat),
{
    let low: u64 = n / d;
    let rest: u64 = n % d;
    proof {
        lemma_nearest_by_rest(n as nat, d as nat);
        if rest >= d - rest {
            assert(d >= 2);
            assert(low < u64::MAX) by (nonlinear_arith)
                requires
                    low == n / d,
                    d >= 2,
                    n <= u64::MAX,
            ;
        }
    }
    if rest >= d - rest {
        low + 1
    } else {
        low
    }
}

proof fn lemma_nearest_by_rest(n: nat, d: nat)
    requires
        d > 0,
    ensures
        0 <= n % d < d,
        nearest(n, d) == if n % d >= d - n % d {
            n / d + 1
        } else {
            n / d
        },
{
    let low = n / d;
    let rest = n % d;
    assert(n == d * low + rest && 0 <= rest < d) by (nonlinear_arith)
        requires
            low == n / d,
            rest == n % d,
            d > 0,
    ;
    let q = if rest >= d - rest {
        low + 1
    } else {
        low
    };
    let t = 2 * n + d;
    let r = t - 2 * d * q;
    assert(2 * d * (low + 1) == 2 * (d * low) + 2 * d) by (nonlinear_arith);
    assert(2 * d * low == 2 * (d * low)) by (nonlinear_arith);
    assert(0 <= r < 2 * d);
    assert(t / (2 * d) == q) by (nonlinear_arith)
        requires
            t == 2 * d * q + r,
            0 <= r < 2 * d,
    ;
}

/// The operations that the transformer takes for each token of training.
pub fn classic_ops(params: usize) -> (ops: u64)
    requires
        6 * params <= u64::MAX,
    ensures
        ops == 6 * params,
{
    TRAINING_OPS * (params as u64)
}

/// The operations that the recurrent model takes for each token of training.
pub fn srx_ops(params: usize) -> (ops: u64)
    requires
        6 * params + 864 <= u64::MAX,
    ensures
        ops == 6 * params + 864,
{
    TRAINING_OPS * (params as u64) + PROJECTOR_OPS
}

/// The operations that the recurrent model takes for each token of inference.
pub fn srx_step_ops(params: usize) -> (ops: u64)
    requires
        2 * params + 288 <= u64::MAX,
    ensures
        ops == 2 * params + 288,
{
    2 * (params as u64) + PROJECTOR_STEP_OPS
}

/// The number of epochs that comes nearest to a budget.
pub fn epochs_for(budget: u64, ops_per_token: u64, tokens: u64) -> (epochs: u64)
    requires
        0 < ops_per_token * tokens <= u64::MAX,
    ensures
        epochs == nearest(budget as nat, (ops_per_token * tokens) as nat),
{
    nearest_quotient(budget, ops_per_token * tokens)
}

/// The number of tokens of some sequences.
pub open spec fn token_total(sequences: Seq<Vec<usize>>) -> nat
    decreases sequences.len(),
{
    if sequences.len() == 0 {
        0
    } else {
        token_total(sequences.drop_last()) + sequences.last()@.len()
    }
}

/// The tokens of some sequences are at least those of any that come first among them.
proof fn lemma_token_total_grows(sequences: Seq<Vec<usize>>, n: int)
    requires
        0 <= n <= sequences.len(),
    ensures
        token_total(sequences.take(n)) <= token_total(sequences),
    decreases sequences.len(),
{
    if n == sequences.len() {
        assert(sequences.take(n) =~= sequences);
    } else {
        assert(sequences.drop_last().take(n) =~= sequences.take(n));
        lemma_token_total_grows(sequences.drop_last(), n);
    }
}

/// The operations spent once every token of the sequences has been trained on, those spent before
/// counted in; none if they are too many to count.
pub fn spent_after(before: u64, sequences: &Vec<Vec<usize>>, ops_per_token: u64) -> (spent: Option<
    u64,
>)
    ensures
        spent == {
            let total = before + token_total(sequences@) * ops_per_token;
            if total <= u64::MAX {
                Some(total as u64)
            } else {
                None
            }
        },
{
    let mut spent: u64 = before;
    assert(token_total(sequences@.take(0)) == 0);
    assert(0 * ops_per_token == 0);
    for i in 0..sequences.len()
        invariant
            spent == before + token_total(sequences@.take(i as int)) * ops_per_token,
    {
        let len: u64 = sequences[i].len() as u64;
        proof {
            let taken = sequences@.take(i + 1);
            assert(taken.drop_last() =~= sequences@.take(i as int));
            let counted = token_total(sequences@.take(i as int));
            assert((counted + len) * ops_per_token == counted * ops_per_token + len
                * ops_per_token) by (nonlinear_arith);
            lemma_token_total_grows(sequences@, i + 1);
            let all = token_total(sequences@);
            assert((counted + len) * ops_per_token <= all * ops_per_token) by (nonlinear_arith)
                requires
                    counted + len <= all,
            ;
            assert(0 <= len * ops_per_token) by (nonlinear_arith);
        }
        match len.checked_mul(ops_per_token) {
            None => {
                return None;
            },
            Some(ops) => {
                match spent.checked_add(ops) {
                    None => {
                        return None;
                    },
                    Some(sum) => {
                        spent = sum;
                    },
                }
            },
        }
    }
    assert(sequences@.take(sequences@.len() as int) =~= sequences@);
    Some(spent)
}

/// What two models are owed for the same number of operations: so many epochs of pretraining and
/// then of fine-tuning.
#[derive(Debug, Clone, Copy, PartialEq, Eq, Structural)]
pub struct TwoStagePlan {
    /// Tokens of a fine-tuning epoch, the replayed ones counted in.
    pub instruct_tokens: u64,
    /// Operations of the pretraining of the transformer.
    pub classic_pretrain: u64,
    /// Operations of the fine-tuning of the transformer.
    pub classic_instruct: u64,
    /// The budget.
    pub total: u64,
    /// Pretraining epochs of the recurrent model.
    pub srx_pretrain_epochs: u64,
    /// Operations that they take.
    pub srx_pretrain: u64,
    /// Fine-tuning epochs of the recurrent model.
    pub srx_instruct_epochs: u64,
    /// Operations of the recurrent model in all.
    pub srx_total: u64,
}

/// The tokens of a fine-tuning epoch.
pub open spec fn mixed_tokens(instruct: nat, replayed: nat) -> nat {
    instruct + replayed * 8
}

/// The operations of the transformer in all.
pub open spec fn classic_total(params: nat, pretrain: nat, mixed: nat) -> nat {
    20 * pretrain * (6 * params) + 50 * mixed * (6 * params)
}

impl TwoStagePlan {
    /// The plan for a number of parameters and tokens.
    pub open spec fn is_plan(
        self,
        params: nat,
        pretrain: nat,
        instruct: nat,
        replayed: nat,
    ) -> bool {
        let mixed = mixed_tokens(instruct, replayed);
        let ops = 6 * params + 864;
        let left = if self.srx_pretrain <= self.total {
            (self.total - self.srx_pretrain) as nat
        } else {
            0nat
        };
        &&& self.instruct_tokens == mixed
        &&& self.classic_pretrain == 20 * pretrain * (6 * params)
        &&& self.classic_instruct == 50 * mixed * (6 * params)
        &&& self.total == classic_total(params, pretrain, mixed)
        &&& self.srx_pretrain_epochs == nearest(self.classic_pretrain as nat, pretrain * ops)
        &&& self.srx_pretrain == self.srx_pretrain_epochs * (pretrain * ops)
        &&& self.srx_instruct_epochs == nearest(left, mixed * ops)
        &&& self.srx_total == self.srx_pretrain + self.srx_instruct_epochs * (mixed * ops)
    }
}

/// Plans both stages of both models.
pub fn two_stage_plan(params: usize, pretrain: usize, instruct: usize, replayed: usize) -> (plan:
    TwoStagePlan)
    requires
        pretrain > 0,
        mixed_tokens(instruct as nat, replayed as nat) > 0,
        classic_total(
            params as nat,
            pretrain as nat,
            mixed_tokens(instruct as nat, replayed as nat),
        ) + pretrain * (6 * params + 864) + mixed_tokens(instruct as nat, replayed as nat) * (6
            * params + 864) <= u64::MAX,
    ensures
        plan.is_plan(params as nat, pretrain as nat, instruct as nat, replayed as nat),
{
    let ghost mixed = mixed_tokens(instruct as nat, replayed as nat);
    let ghost ops = (6 * params + 864) as nat;
    let ghost six = (6 * params) as nat;
    let ghost budget = classic_total(params as nat, pretrain as nat, mixed);
    proof {
        lemma_factor(1, ops, pretrain as nat);
        lemma_factor(1, ops, mixed);
        lemma_factor(20, pretrain as nat, six);
        lemma_factor(50, mixed, six);
        assert(20 * pretrain * six >= 0) by (nonlinear_arith)
            requires
                pretrain >= 0,
                six >= 0,
        ;
        assert(50 * mixed * six >= 0) by (nonlinear_arith)
            requires
                mixed >= 0,
                six >= 0,
        ;
        assert(mixed <= mixed * ops) by (nonlinear_arith)
            requires
                ops >= 1,
                mixed >= 0,
        ;
        assert(ops <= pretrain * ops) by (nonlinear_arith)
            requires
                ops >= 0,
                pretrain >= 1,
        ;
        assert(20 * pretrain <= pretrain * ops) by (nonlinear_arith)
            requires
                ops >= 20,
                pretrain >= 0,
        ;
        assert(50 * mixed <= mixed * ops) by (nonlinear_arith)
            requires
                ops >= 50,
                mixed >= 0,
        ;
        assert(pretrain * ops > 0) by (nonlinear_arith)
            requires
                pretrain > 0,
                ops > 0,
        ;
        assert(mixed * ops > 0) by (nonlinear_arith)
            requires
                mixed > 0,
                ops > 0,
        ;
    }
    let instruct_tokens: u64 = instruct as u64 + (replayed as u64) * REPLAY_TOKENS;
    let classic: u64 = classic_ops(params);
    let srx: u64 = srx_ops(params);
    let classic_pretrain: u64 = PRETRAIN_EPOCHS * (pretrain as u64) * classic;
    let classic_instruct: u64 = INSTRUCT_EPOCHS * instruct_tokens * classic;
    let total: u64 = classic_pretrain + classic_instruct;
    let pretrain_epoch: u64 = (pretrain as u64) * srx;
    let instruct_epoch: u64 = instruct_tokens * srx;
    let srx_pretrain_epochs: u64 = nearest_quotient(classic_pretrain, pretrain_epoch);
    proof {
        law_nearest_is_nearest(classic_pretrain as nat, pretrain_epoch as nat, 0);
    }
    let srx_pretrain: u64 = srx_pretrain_epochs * pretrain_epoch;
    let left: u64 = if srx_pretrain <= total {
        total - srx_pretrain
    } else {
        0
    };
    let srx_instruct_epochs: u64 = nearest_quotient(left, instruct_epoch);
    proof {
        law_nearest_is_nearest(left as nat, instruct_epoch as nat, 0);
    }
    let srx_total: u64 = srx_pretrain + srx_instruct_epochs * instruct_epoch;
    TwoStagePlan {
        instruct_tokens,
        classic_pretrain,
        classic_instruct,
        total,
        srx_pretrain_epochs,
        srx_pretrain,
        srx_instruct_epochs,
        srx_total,
    }
}

proof fn lemma_factor(a: nat, b: nat, c: nat)
    ensures
        a * b * c == a * (b * c),
        a * b * c == a * (c * b),
        b * c == c * b,
{
    assert(a * b * c == a * (b * c)) by (nonlinear_arith);
    assert(b * c == c * b) by (nonlinear_arith);
}

/// Both models take the same number of operations, to within half a fine-tuning epoch, wherever
/// the pretraining of the recurrent model leaves something of the budget.
pub proof fn law_plan_keeps_the_budget(
    plan: TwoStagePlan,
    params: nat,
    pretrain: nat,
    instruct: nat,
    replayed: nat,
)
    requires
        plan.is_plan(params, pretrain, instruct, replayed),
        mixed_tokens(instruct, replayed) > 0,
        plan.srx_pretrain <= plan.total,
    ensures
        2 * distance(plan.srx_total as int, plan.total as int) <= mixed_tokens(instruct, replayed)
            * (6 * params + 864),
{
    let epoch = mixed_tokens(instruct, replayed) * (6 * params + 864);
    assert(epoch > 0) by (nonlinear_arith)
        requires
            mixed_tokens(instruct, replayed) > 0,
            epoch == mixed_tokens(instruct, replayed) * (6 * params + 864),
            params >= 0,
    ;
    law_nearest_is_nearest((plan.total - plan.srx_pretrain) as nat, epoch, 0);
}

/// Of two whole numbers that are equally near to a quotient, the greater one is taken.
pub proof fn law_ties_go_up(half: nat, q: nat)
    requires
        half > 0,
    ensures
        nearest(q * (2 * half) + half, 2 * half) == q + 1,
{
    let n = q * (2 * half) + half;
    let d = 2 * half;
    assert(2 * n + d == (q + 1) * (2 * d)) by (nonlinear_arith)
        requires
            n == q * (2 * half) + half,
            d == 2 * half,
    ;
    vstd::arithmetic::div_mod::lemma_div_multiples_vanish((q + 1) as int, (2 * d) as int);
}

/// The tokens of some sequences and of others add up, and those of one sequence are its length.
pub proof fn law_tokens_add_up(first: Seq<Vec<usize>>, second: Seq<Vec<usize>>, one: Vec<usize>)
    ensures
        token_total(first + second) == token_total(first) + token_total(second),
        token_total(seq![one]) == one@.len(),
    decreases second.len(),
{
    reveal_with_fuel(token_total, 2);
    assert(seq![one].drop_last() =~= Seq::empty());
    if second.len() == 0 {
        assert(first + second =~= first);
    } else {
        assert((first + second).drop_last() =~= first + second.drop_last());
        law_tokens_add_up(first, second.drop_last(), one);
    }
}

/// What a plan counts: six operations of the transformer for each parameter and token, over twenty
/// epochs of pretraining and fifty of fine-tuning; the recurrent model takes 864 more for each
/// token. A replayed sequence counts for eight tokens.
pub proof fn law_plan_counts_operations(
    plan: TwoStagePlan,
    params: nat,
    pretrain: nat,
    instruct: nat,
    replayed: nat,
)
    requires
        plan.is_plan(params, pretrain, instruct, replayed),
    ensures
        plan.instruct_tokens == instruct + 8 * replayed,
        plan.classic_pretrain == 120 * (params * pretrain),
        plan.classic_instruct == 300 * (params * plan.instruct_tokens),
        plan.total == plan.classic_pretrain + plan.classic_instruct,
        plan.srx_pretrain == plan.srx_pretrain_epochs * (6 * (params * pretrain) + 864 * pretrain),
        plan.srx_total == plan.srx_pretrain + plan.srx_instruct_epochs * (6 * (params
            * plan.instruct_tokens) + 864 * plan.instruct_tokens),
{
    let mixed = plan.instruct_tokens as nat;
    assert(20 * pretrain * (6 * params) == 120 * (params * pretrain)) by (nonlinear_arith);
    assert(50 * mixed * (6 * params) == 300 * (params * mixed)) by (nonlinear_arith);
    assert(pretrain * (6 * params + 864) == 6 * (params * pretrain) + 864 * pretrain)
        by (nonlinear_arith);
    assert(mixed * (6 * params + 864) == 6 * (params * mixed) + 864 * mixed) by (nonlinear_arith);
}

/// The recurrent model is pretrained for the number of epochs that comes nearest to what the
/// transformer takes for pretraining, and fine-tuned for the number that comes nearest to what is
/// then left of the budget.
pub proof fn law_plan_is_nearest(
    plan: TwoStagePlan,
    params: nat,
    pretrain: nat,
    instruct: nat,
    replayed: nat,
    other: nat,
)
    requires
        plan.is_plan(params, pretrain, instruct, replayed),
        pretrain > 0,
        plan.instruct_tokens > 0,
    ensures
        distance(plan.srx_pretrain as int, plan.classic_pretrain as int) <= distance(
            (other * (pretrain * (6 * params + 864))) as int,
            plan.classic_pretrain as int,
        ),
        plan.srx_pretrain <= plan.total ==> distance(plan.srx_total as int, plan.total as int)
            <= distance(
            plan.srx_pretrain + other * (plan.instruct_tokens * (6 * params + 864)),
            plan.total as int,
        ),
        plan.srx_pretrain > plan.total ==> plan.srx_instruct_epochs == 0,
{
    let ops = 6 * params + 864;
    let first = pretrain * ops;
    let second = plan.instruct_tokens as nat * ops;
    assert(first > 0) by (nonlinear_arith)
        requires
            first == pretrain * ops,
            pretrain > 0,
            ops > 0,
    ;
    assert(second > 0) by (nonlinear_arith)
        requires
            second == plan.instruct_tokens as nat * ops,
            plan.instruct_tokens > 0,
            ops > 0,
    ;
    law_nearest_is_nearest(plan.classic_pretrain as nat, first, other);
    if plan.srx_pretrain <= plan.total {
        law_nearest_is_nearest((plan.total - plan.srx_pretrain) as nat, second, other);
    } else {
        vstd::arithmetic::div_mod::lemma_basic_div(second as int, (2 * second) as int);
    }
}

} // verus!
