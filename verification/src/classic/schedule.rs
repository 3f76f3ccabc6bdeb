//! The order in which a training run goes through its sequences.

use vstd::prelude::*;

use crate::classic::dataset::{shuffle, split_into_eos_sequences};
use crate::classic::dataset;
use crate::classic::dataset_laws;
use crate::classic::rng::FastRng;
use crate::classic::rng;

verus! {

/// What a training run is for.
#[derive(Debug, Clone, Copy, PartialEq, Eq, Structural)]
pub enum TrainStage {
    /// Training on one data set.
    Dataset,
    /// Pretraining on the base corpus.
    Pretrain,
    /// Fine-tuning on dialogues.
    Instruct,
}

impl TrainStage {
    /// The seed of the stage's shuffles.
    pub open spec fn seed_value(self) -> u64 {
        match self {
            TrainStage::Dataset => 4242,
            TrainStage::Pretrain => 1234,
            TrainStage::Instruct => 5678,
        }
    }

    /// How many sequences the initial loss is measured on, at most.
    pub open spec fn eval_limit(self) -> nat {
        match self {
            TrainStage::Dataset => 20,
            TrainStage::Pretrain => 20,
            TrainStage::Instruct => 10,
        }
    }

    /// The seed of the stage's shuffles.
    pub fn seed(self) -> (seed: u64)
        ensures
            seed == self.seed_value(),
    {
        match self {
            TrainStage::Dataset => 4242,
            TrainStage::Pretrain => 1234,
            TrainStage::Instruct => 5678,
        }
    }

    /// How many of `len` sequences the initial loss is measured on.
    pub fn eval_count(self, len: usize) -> (count: usize)
        ensures
            count == if len < self.eval_limit() {
                len as nat
            } else {
                self.eval_limit()
            },
    {
        let limit: usize = match self {
            TrainStage::Dataset => 20,
            TrainStage::Pretrain => 20,
            TrainStage::Instruct => 10,
        };
        if len < limit {
            len
        } else {
            limit
        }
    }
}

/// The next thing to do in a training run.
#[derive(Debug, Clone, Copy, PartialEq, Eq, Structural)]
pub enum TrainAction {
    /// An epoch begins: settle its learning rate.
    BeginEpoch(usize),
    /// Take one optimisation step on the sequence at this position.
    Step(usize),
    /// The run is over.
    Done,
}

/// A training run in progress.
pub struct TrainSchedule {
    /// The sequences, in the order of the current epoch.
    pub sequences: Vec<Vec<usize>>,
    /// The generator behind the shuffles.
    pub rng: FastRng,
    /// The number of epochs to run.
    pub epochs: usize,
    /// The number of epochs begun.
    pub begun: usize,
    /// The position of the next sequence in the current epoch.
    pub next: usize,
}

/// The order of the sequences and the state of the generator after a number of shuffles.
pub open spec fn order_after(
    sequences: Seq<Seq<usize>>,
    state: u64,
    shuffles: nat,
) -> (Seq<Seq<usize>>, u64)
    decreases shuffles,
{
    if shuffles == 0 {
        (sequences, state)
    } else {
        let (order, reached) = order_after(sequences, state, (shuffles - 1) as nat);
        dataset::shuffled(order, reached, dataset::last_position(order.len()))
    }
}

/// Shuffling a list of vectors shuffles what they hold.
proof fn lemma_deep_shuffled(items: Seq<Vec<usize>>, state: u64, i: nat)
    requires
        i < items.len() || i == 0,
    ensures
        dataset::deep(dataset::shuffled(items, state, i).0) == dataset::shuffled(
            dataset::deep(items),
            state,
            i,
        ).0,
        dataset::shuffled(items, state, i).1 == dataset::shuffled(dataset::deep(items), state, i).1,
    decreases i,
{
    if i > 0 {
        let next = rng::splitmix_advance(state);
        let j = (rng::splitmix_output(next) as usize as nat) % (i + 1);
        assert(0 <= j < i + 1) by (nonlinear_arith)
            requires
                j == (rng::splitmix_output(next) as usize as nat) % (i + 1),
        ;
        let exchanged = dataset::exchanged(items, i as int, j as int);
        assert(dataset::deep(exchanged) =~= dataset::exchanged(
            dataset::deep(items),
            i as int,
            j as int,
        ));
        lemma_deep_shuffled(exchanged, next, (i - 1) as nat);
    }
}

impl TrainSchedule {
    /// A run is inside an epoch or between two, and has begun no more epochs than it has.
    pub open spec fn well_formed(self) -> bool {
        &&& self.begun <= self.epochs
        &&& self.next <= self.sequences@.len()
        &&& self.sequences@.len() > 0
        &&& self.begun == 0 ==> self.next == self.sequences@.len()
    }

    /// The sequences in their current order.
    pub open spec fn order(self) -> Seq<Seq<usize>> {
        dataset::deep(self.sequences@)
    }

    /// The number of optimisation steps taken.
    pub open spec fn steps_taken(self) -> nat {
        if self.begun == 0 {
            0
        } else {
            ((self.begun - 1) * self.sequences@.len() + self.next) as nat
        }
    }

    /// Prepares a run over a token stream. There is none where the stream holds no sequence.
    pub fn new(tokens: &[usize], max_seq_len: usize, epochs: usize, seed: u64) -> (schedule:
        Option<Self>)
        ensures
            schedule is None <==> dataset::sequences_of(tokens@, max_seq_len as nat).len() == 0,
            schedule matches Some(run) ==> {
                &&& run.well_formed()
                &&& run.order() == dataset::sequences_of(tokens@, max_seq_len as nat)
                &&& run.rng@ == rng::seeded(seed)
                &&& run.epochs == epochs
                &&& run.begun == 0
            },
    {
        let sequences: Vec<Vec<usize>> = split_into_eos_sequences(tokens, max_seq_len);
        assert(dataset::deep(sequences@).len() == sequences@.len());
        if sequences.len() == 0 {
            return None;
        }
        let next: usize = sequences.len();
        Some(TrainSchedule { sequences, rng: FastRng::new(seed), epochs, begun: 0, next })
    }

    /// Moves on to the next action: a step on the next sequence of the epoch; behind the last
    /// one, a shuffle and the next epoch; behind the last epoch, nothing.
    pub fn advance(&mut self) -> (action: TrainAction)
        requires
            old(self).well_formed(),
        ensures
            final(self).well_formed(),
            final(self).epochs == old(self).epochs,
            if old(self).next < old(self).sequences@.len() {
                &&& action == TrainAction::Step(old(self).next)
                &&& final(self).sequences == old(self).sequences
                &&& final(self).rng == old(self).rng
                &&& final(self).begun == old(self).begun
                &&& final(self).next == old(self).next + 1
            } else if old(self).begun < old(self).epochs {
                &&& action == TrainAction::BeginEpoch(old(self).begun)
                &&& (final(self).order(), final(self).rng@) == dataset::shuffled(
                    old(self).order(),
                    old(self).rng@,
                    dataset::last_position(old(self).order().len()),
                )
                &&& final(self).begun == old(self).begun + 1
                &&& final(self).next == 0
            } else {
                &&& action == TrainAction::Done
                &&& *final(self) == *old(self)
            },
    {
        if self.next < self.sequences.len() {
            let position: usize = self.next;
            self.next = position + 1;
            return TrainAction::Step(position);
        }
        if self.begun < self.epochs {
            proof {
                lemma_deep_shuffled(
                    self.sequences@,
                    self.rng@,
                    dataset::last_position(self.sequences@.len()),
                );
            }
            shuffle(&mut self.sequences, &mut self.rng);
            let epoch: usize = self.begun;
            self.begun = epoch + 1;
            self.next = 0;
            return TrainAction::BeginEpoch(epoch);
        }
        TrainAction::Done
    }

    /// The number of optimisation steps taken.
    pub fn total_steps(&self) -> (steps: u128)
        requires
            self.well_formed(),
        ensures
            steps == self.steps_taken(),
    {
        if self.begun == 0 {
            return 0;
        }
        let len: u128 = self.sequences.len() as u128;
        let finished: u128 = (self.begun - 1) as u128;
        assert(finished * len <= (u64::MAX - 1) * u64::MAX) by (nonlinear_arith)
            requires
                finished <= u64::MAX - 1,
                len <= u64::MAX,
        ;
        finished * len + self.next as u128
    }
}

/// The sequences of a fine-tuning epoch: all dialogues, and behind them `count` base sequences,
/// taken from the pool in a circle from `start` on.
pub open spec fn replayed(
    dialogues: Seq<Seq<usize>>,
    pool: Seq<Seq<usize>>,
    start: nat,
    count: nat,
) -> Seq<Seq<usize>> {
    dialogues + Seq::new(count, |i: int| pool[(start + i) % pool.len() as int])
}

/// Mixes base sequences into the dialogues of a fine-tuning epoch.
pub fn replay_mix(
    dialogues: &Vec<Vec<usize>>,
    pool: &Vec<Vec<usize>>,
    start: usize,
    count: usize,
) -> (mix: Vec<Vec<usize>>)
    requires
        pool@.len() > 0,
        start + count <= usize::MAX,
    ensures
        dataset::deep(mix@) == replayed(
            dataset::deep(dialogues@),
            dataset::deep(pool@),
            start as nat,
            count as nat,
        ),
{
    let mut mix: Vec<Vec<usize>> = Vec::new();
    for i in 0..dialogues.len()
        invariant
            dataset::deep(mix@) == dataset::deep(dialogues@).take(i as int),
    {
        let ghost before = mix@;
        let dialogue: Vec<usize> = dialogues[i].clone();
        assert(dialogue@ =~= dialogues@[i as int]@);
        mix.push(dialogue);
        assert(dataset::deep(mix@) =~= dataset::deep(before).push(dialogue@));
        assert(dataset::deep(mix@) =~= dataset::deep(dialogues@).take(i + 1));
    }
    assert(dataset::deep(mix@) =~= replayed(
        dataset::deep(dialogues@),
        dataset::deep(pool@),
        start as nat,
        0,
    ));
    for i in 0..count
        invariant
            pool@.len() > 0,
            start + count <= usize::MAX,
            dataset::deep(mix@) == replayed(
                dataset::deep(dialogues@),
                dataset::deep(pool@),
                start as nat,
                i as nat,
            ),
    {
        let ghost before = mix@;
        let at: usize = (start + i) % pool.len();
        let sequence: Vec<usize> = pool[at].clone();
        assert(sequence@ =~= pool@[at as int]@);
        mix.push(sequence);
        assert(dataset::deep(mix@) =~= dataset::deep(before).push(sequence@));
        assert(dataset::deep(mix@) =~= replayed(
            dataset::deep(dialogues@),
            dataset::deep(pool@),
            start as nat,
            (i + 1) as nat,
        ));
    }
    mix
}

/// A mix holds every dialogue, and replays only sequences of the pool.
pub proof fn law_mix_keeps_dialogues(
    dialogues: Seq<Seq<usize>>,
    pool: Seq<Seq<usize>>,
    start: nat,
    count: nat,
)
    requires
        pool.len() > 0,
    ensures
        replayed(dialogues, pool, start, count).len() == dialogues.len() + count,
        replayed(dialogues, pool, start, count).take(dialogues.len() as int) == dialogues,
        forall|i: int|
            dialogues.len() <= i < dialogues.len() + count ==> pool.contains(
                #[trigger] replayed(dialogues, pool, start, count)[i],
            ),
{
    let mix = replayed(dialogues, pool, start, count);
    assert(mix.take(dialogues.len() as int) =~= dialogues);
    assert forall|i: int| dialogues.len() <= i < dialogues.len() + count implies pool.contains(
        #[trigger] mix[i],
    ) by {
        let at = (start + (i - dialogues.len())) % pool.len() as int;
        assert(mix[i] == pool[at]);
    }
}

/// The replayed sequences go through the pool in a circle: the place `i` behind the dialogues
/// replays the sequence that is left over when whole rounds of the pool are taken from `start + i`.
pub proof fn law_replay_goes_in_a_circle(
    dialogues: Seq<Seq<usize>>,
    pool: Seq<Seq<usize>>,
    start: nat,
    count: nat,
    i: nat,
    rounds: nat,
    at: nat,
)
    requires
        i < count,
        at < pool.len(),
        start + i == rounds * pool.len() + at,
    ensures
        replayed(dialogues, pool, start, count)[(dialogues.len() + i) as int] == pool[at as int],
{
    vstd::arithmetic::div_mod::lemma_fundamental_div_mod_converse(
        (start + i) as int,
        pool.len() as int,
        rounds as int,
        at as int,
    );
}

/// What a mix replays from one start on is what one that starts a place later replays, but for
/// the first sequence; a whole round more or less changes nothing; and where the start lies in
/// the pool, its sequence comes first.
pub proof fn law_replay_moves_on(
    dialogues: Seq<Seq<usize>>,
    pool: Seq<Seq<usize>>,
    start: nat,
    count: nat,
)
    requires
        pool.len() > 0,
    ensures
        replayed(dialogues, pool, start + 1, count) == dialogues + replayed(
            dialogues,
            pool,
            start,
            count + 1,
        ).skip(dialogues.len() as int + 1),
        replayed(dialogues, pool, start + pool.len(), count) == replayed(
            dialogues,
            pool,
            start,
            count,
        ),
        start < pool.len() ==> replayed(dialogues, pool, start, count + 1)[dialogues.len() as int]
            == pool[start as int],
{
    let n = pool.len() as int;
    let d = dialogues.len() as int;
    let later = replayed(dialogues, pool, start + 1, count);
    let longer = replayed(dialogues, pool, start, count + 1);
    assert(later =~= dialogues + longer.skip(d + 1)) by {
        assert forall|j: int| d <= j < d + count implies later[j] == longer[j + 1] by {
            assert((start + 1) + (j - d) == start + (j + 1 - d));
        }
    }
    let round = replayed(dialogues, pool, start + pool.len(), count);
    let plain = replayed(dialogues, pool, start, count);
    assert forall|j: int| 0 <= j < round.len() implies round[j] == plain[j] by {
        if j >= d {
            let x = start + (j - d);
            vstd::arithmetic::div_mod::lemma_mod_add_multiples_vanish(x, n);
        }
    }
    assert(round =~= plain);
    if start < pool.len() {
        vstd::arithmetic::div_mod::lemma_small_mod(start, pool.len());
    }
}

/// As many replayed sequences in a row as the pool holds are the whole pool, from somewhere on and
/// then from its beginning.
pub proof fn law_replay_covers_the_pool(
    dialogues: Seq<Seq<usize>>,
    pool: Seq<Seq<usize>>,
    start: nat,
    count: nat,
    i: nat,
)
    requires
        pool.len() > 0,
        i + pool.len() <= count,
    ensures
        exists|cut: int|
            0 <= cut < pool.len() && replayed(dialogues, pool, start, count).subrange(
                (dialogues.len() + i) as int,
                (dialogues.len() + i + pool.len()) as int,
            ) == #[trigger] pool.skip(cut) + pool.take(cut),
{
    let n = pool.len() as int;
    let x = (start + i) as int;
    let cut = x % n;
    let mix = replayed(dialogues, pool, start, count);
    let row = mix.subrange((dialogues.len() + i) as int, dialogues.len() + i + n);
    let turned = pool.skip(cut) + pool.take(cut);
    assert forall|j: int| 0 <= j < n implies row[j] == turned[j] by {
        vstd::arithmetic::div_mod::lemma_fundamental_div_mod(x, n);
        assert(row[j] == pool[(start + (i + j)) % n]);
        if cut + j < n {
            vstd::arithmetic::div_mod::lemma_fundamental_div_mod_converse(
                x + j,
                n,
                x / n,
                cut + j,
            );
        } else {
            assert(x + j == n * (x / n + 1) + (cut + j - n)) by (nonlinear_arith)
                requires
                    x == n * (x / n) + cut,
            ;
            vstd::arithmetic::div_mod::lemma_fundamental_div_mod_converse(
                x + j,
                n,
                x / n + 1,
                cut + j - n,
            );
        }
    }
    assert(row =~= turned);
}

/// Every epoch goes through every sequence of the stream, each as often as it occurs there.
pub proof fn law_epoch_trains_on_everything(
    sequences: Seq<Seq<usize>>,
    state: u64,
    shuffles: nat,
)
    ensures
        order_after(sequences, state, shuffles).0.to_multiset() == sequences.to_multiset(),
        order_after(sequences, state, shuffles).0.len() == sequences.len(),
    decreases shuffles,
{
    if shuffles > 0 {
        law_epoch_trains_on_everything(sequences, state, (shuffles - 1) as nat);
        let (order, reached) = order_after(sequences, state, (shuffles - 1) as nat);
        dataset_laws::law_shuffle_keeps_items(
            order,
            reached,
            dataset::last_position(order.len()),
        );
    }
}

/// A run keeps to the order that its seed fixes: after every action the sequences stand in the
/// order of as many shuffles as epochs have begun.
pub open spec fn on_course(run: TrainSchedule, sequences: Seq<Seq<usize>>, state: u64) -> bool {
    (run.order(), run.rng@) == order_after(sequences, state, run.begun as nat)
}

/// Beginning an epoch keeps a run on course.
pub proof fn law_epoch_keeps_course(
    before: TrainSchedule,
    after: TrainSchedule,
    sequences: Seq<Seq<usize>>,
    state: u64,
)
    requires
        on_course(before, sequences, state),
        after.begun == before.begun + 1,
        (after.order(), after.rng@) == dataset::shuffled(
            before.order(),
            before.rng@,
            dataset::last_position(before.order().len()),
        ),
    ensures
        on_course(after, sequences, state),
{
}

/// A finished run has taken one step for each sequence and epoch.
pub proof fn law_finished_run_counts_steps(run: TrainSchedule)
    requires
        run.well_formed(),
        run.next == run.sequences@.len(),
        run.begun == run.epochs,
    ensures
        run.steps_taken() == run.epochs * run.sequences@.len(),
{
    let len = run.sequences@.len() as int;
    let epochs = run.epochs as int;
    assert((epochs - 1) * len + len == epochs * len) by (nonlinear_arith);
    assert(epochs == 0 ==> epochs * len == 0) by (nonlinear_arith);
    assert(epochs >= 1 ==> (epochs - 1) * len >= 0) by (nonlinear_arith)
        requires
            len >= 0,
    ;
}

/// Every stage shuffles from a seed of its own, and measures its initial loss on twenty sequences at
/// most, fine-tuning on ten.
pub proof fn law_stages_are_seeded(stage: TrainStage)
    ensures
        stage.seed_value() == 4242 <==> stage == TrainStage::Dataset,
        stage.seed_value() == 1234 <==> stage == TrainStage::Pretrain,
        stage.seed_value() == 5678 <==> stage == TrainStage::Instruct,
        stage.eval_limit() == 10 <==> stage == TrainStage::Instruct,
        stage.eval_limit() == 10 || stage.eval_limit() == 20,
{
}

/// A run that is between two steps has taken a step for each sequence of the epochs behind it, and
/// for each sequence before the next one in the epoch it is in.
pub proof fn law_steps_are_counted(run: TrainSchedule, later: TrainSchedule)
    requires
        run.well_formed(),
        later.well_formed(),
        run.sequences@.len() == later.sequences@.len(),
    ensures
        run.begun == 0 ==> run.steps_taken() == 0,
        run.begun == 1 ==> run.steps_taken() == run.next,
        run.begun > 0 && later.begun == run.begun && later.next == run.next + 1
            ==> later.steps_taken() == run.steps_taken() + 1,
        run.begun > 0 && later.begun == run.begun + 1 && run.next == run.sequences@.len()
            && later.next == 0 ==> later.steps_taken() == run.steps_taken(),
{
    let n = run.sequences@.len() as int;
    if run.begun > 0 {
        assert(run.begun * n == (run.begun - 1) * n + n) by (nonlinear_arith);
        assert(0 <= (run.begun - 1) * n) by (nonlinear_arith)
            requires
                run.begun > 0,
                n >= 0,
        ;
    }
    if run.begun == 1 {
        assert((run.begun - 1) * n == 0) by (nonlinear_arith)
            requires
                run.begun == 1,
        ;
    }
}

} // verus!
