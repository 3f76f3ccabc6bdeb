//! Autoregressive generation: which token is fed to the model at which position, which one is
//! chosen, and when generation ends.

use vstd::prelude::*;

use crate::float_bits;

verus! {

/// The position of the last greatest logit in the total order of bit patterns; the first position
/// where there is none.
pub open spec fn is_greedy_choice(logits: Seq<u32>, choice: nat) -> bool {
    if logits.len() == 0 {
        choice == 0
    } else {
        &&& choice < logits.len()
        &&& forall|i: int|
            0 <= i < logits.len() ==> float_bits::place_of(#[trigger] logits[i])
                <= float_bits::place_of(logits[choice as int])
        &&& forall|i: int|
            choice < i < logits.len() ==> float_bits::place_of(#[trigger] logits[i])
                < float_bits::place_of(logits[choice as int])
    }
}

/// Chooses the greatest logit, given by bit patterns; of equal ones the last.
pub fn greedy_choice(logits: &[u32]) -> (choice: usize)
    ensures
        is_greedy_choice(logits@, choice as nat),
{
    if logits.len() == 0 {
        return 0;
    }
    let mut best: usize = 0;
    for i in 1..logits.len()
        invariant
            best < i <= logits@.len(),
            forall|j: int|
                0 <= j < i ==> float_bits::place_of(#[trigger] logits@[j]) <= float_bits::place_of(
                    logits@[best as int],
                ),
            forall|j: int|
                best < j < i ==> float_bits::place_of(#[trigger] logits@[j])
                    < float_bits::place_of(logits@[best as int]),
    {
        if float_bits::place(logits[i]) >= float_bits::place(logits[best]) {
            best = i;
        }
    }
    best
}

/// There is one greedy choice.
pub proof fn law_greedy_choice_is_determined(logits: Seq<u32>, first: nat, second: nat)
    requires
        is_greedy_choice(logits, first),
        is_greedy_choice(logits, second),
    ensures
        first == second,
{
    if logits.len() > 0 {
        let a = logits[first as int];
        let b = logits[second as int];
        if first < second {
            assert(float_bits::place_of(a) <= float_bits::place_of(b));
        } else if second < first {
            assert(float_bits::place_of(b) <= float_bits::place_of(a));
        }
    }
}

/// The position of the first cumulated probability that a draw does not exceed.
pub open spec fn is_first_reached(cumulated: Seq<u32>, draw: u32, reached: Option<usize>) -> bool {
    match reached {
        Some(i) => {
            &&& i < cumulated.len()
            &&& float_bits::at_most(draw, cumulated[i as int])
            &&& forall|j: int|
                0 <= j < i ==> !float_bits::at_most(draw, #[trigger] cumulated[j])
        },
        None => forall|j: int|
            0 <= j < cumulated.len() ==> !float_bits::at_most(draw, #[trigger] cumulated[j]),
    }
}

/// Finds the first cumulated probability that a draw does not exceed.
pub fn first_reached(cumulated: &[u32], draw: u32) -> (reached: Option<usize>)
    ensures
        is_first_reached(cumulated@, draw, reached),
{
    for i in 0..cumulated.len()
        invariant
            forall|j: int| 0 <= j < i ==> !float_bits::at_most(draw, #[trigger] cumulated@[j]),
    {
        if float_bits::less_or_equal(draw, cumulated[i]) {
            return Some(i);
        }
    }
    None
}

/// What generation does next.
#[derive(Debug, Clone, Copy, PartialEq, Eq, Structural)]
pub enum GenerateAction {
    /// Run the model on a token at a position.
    Feed {
        /// The token.
        token: usize,
        /// Its position.
        pos: usize,
    },
    /// Choose the next token by the logits of the last one fed.
    Choose,
    /// Nothing: generation has ended.
    Done,
}

/// A generation in progress.
pub struct Generation {
    /// The prompt and what was generated behind it.
    pub output: Vec<usize>,
    /// The length of the prompt.
    pub prompt_len: usize,
    /// The number of tokens that the model has seen.
    pub fed: usize,
    /// The greatest number of tokens to generate.
    pub max_new_tokens: usize,
    /// The number of positions of the model.
    pub max_seq_len: usize,
    /// The token that ends generation, if any.
    pub eos_token: Option<usize>,
    /// Whether generation has been cut short.
    pub stopped: bool,
}

/// Whether a token, chosen for a position, ends generation at once: it is the end token, or the
/// model has no such position.
pub open spec fn stops(eos_token: Option<usize>, max_seq_len: nat, token: usize, pos: nat) -> bool {
    eos_token == Some(token) || pos >= max_seq_len
}

/// What generation makes out of a stream of choices: as many of them as it may, up to the first
/// that ends it.
pub open spec fn continuation(
    choices: Seq<usize>,
    pos: nat,
    max_new_tokens: nat,
    eos_token: Option<usize>,
    max_seq_len: nat,
) -> Seq<usize>
    decreases choices.len(),
{
    if choices.len() == 0 || max_new_tokens == 0 {
        Seq::empty()
    } else if stops(eos_token, max_seq_len, choices[0], pos) {
        seq![choices[0]]
    } else {
        seq![choices[0]] + continuation(
            choices.skip(1),
            pos + 1,
            (max_new_tokens - 1) as nat,
            eos_token,
            max_seq_len,
        )
    }
}

impl Generation {
    /// The tokens generated so far.
    pub open spec fn produced(self) -> Seq<usize> {
        self.output@.skip(self.prompt_len as int)
    }

    /// No more tokens are generated than asked for; every token but the last is neither an end
    /// token nor beyond the model's positions, and the last one is so exactly where generation
    /// was cut short; the model has seen every token but, at most, the last one generated.
    pub open spec fn well_formed(self) -> bool {
        &&& self.prompt_len <= self.output@.len() <= self.prompt_len + self.max_new_tokens
        &&& self.fed <= self.output@.len()
        &&& forall|i: int|
            self.prompt_len <= i < self.output@.len() - 1 ==> !stops(
                self.eos_token,
                self.max_seq_len as nat,
                #[trigger] self.output@[i],
                i as nat,
            )
        &&& self.output@.len() > self.prompt_len ==> {
            &&& self.prompt_len > 0
            &&& self.stopped == stops(
                self.eos_token,
                self.max_seq_len as nat,
                self.output@.last(),
                (self.output@.len() - 1) as nat,
            )
            &&& self.fed >= self.output@.len() - 1
            &&& self.stopped ==> self.fed == self.output@.len() - 1
        }
        &&& self.output@.len() == self.prompt_len ==> self.stopped == (self.prompt_len == 0
            || self.max_new_tokens == 0)
        &&& self.output@.len() == self.prompt_len && self.stopped ==> self.fed == 0
        &&& self.prompt_len > 0 && self.max_new_tokens > 0 ==> self.prompt_len <= self.max_seq_len
    }

    /// Begins a generation. Without a prompt, or with nothing to generate, it has ended.
    pub fn new(
        prompt: &[usize],
        max_new_tokens: usize,
        max_seq_len: usize,
        eos_token: Option<usize>,
    ) -> (generation: Self)
        requires
            prompt@.len() > 0 && max_new_tokens > 0 ==> prompt@.len() <= max_seq_len,
        ensures
            generation.well_formed(),
            generation.output@ == prompt@,
            generation.prompt_len == prompt@.len(),
            generation.fed == 0,
            generation.max_new_tokens == max_new_tokens,
            generation.max_seq_len == max_seq_len,
            generation.eos_token == eos_token,
            generation.stopped == (prompt@.len() == 0 || max_new_tokens == 0),
    {
        let mut output: Vec<usize> = Vec::new();
        for i in 0..prompt.len()
            invariant
                output@ == prompt@.take(i as int),
        {
            output.push(prompt[i]);
            assert(output@ =~= prompt@.take(i + 1));
        }
        assert(output@ =~= prompt@);
        Generation {
            output,
            prompt_len: prompt.len(),
            fed: 0,
            max_new_tokens,
            max_seq_len,
            eos_token,
            stopped: prompt.len() == 0 || max_new_tokens == 0,
        }
    }

    /// What a generation does next: feed what the model has not seen, then choose, until it was
    /// cut short or has generated all it may.
    pub open spec fn next_action(self) -> GenerateAction {
        if self.stopped {
            GenerateAction::Done
        } else if self.fed < self.output@.len() {
            GenerateAction::Feed { token: self.output@[self.fed as int], pos: self.fed }
        } else if self.output@.len() == self.prompt_len + self.max_new_tokens {
            GenerateAction::Done
        } else {
            GenerateAction::Choose
        }
    }

    /// What to do next.
    pub fn action(&self) -> (action: GenerateAction)
        requires
            self.well_formed(),
        ensures
            action == self.next_action(),
            action matches GenerateAction::Feed { token, pos } ==> pos < self.max_seq_len,
    {
        if self.stopped {
            GenerateAction::Done
        } else if self.fed < self.output.len() {
            GenerateAction::Feed { token: self.output[self.fed], pos: self.fed }
        } else if self.output.len() - self.prompt_len == self.max_new_tokens {
            GenerateAction::Done
        } else {
            GenerateAction::Choose
        }
    }

    /// Notes that the model has seen the token asked for.
    pub fn note_fed(&mut self)
        requires
            old(self).well_formed(),
            old(self).next_action() is Feed,
        ensures
            final(self).well_formed(),
            final(self).fed == old(self).fed + 1,
            final(self).output == old(self).output,
            final(self).prompt_len == old(self).prompt_len,
            final(self).max_new_tokens == old(self).max_new_tokens,
            final(self).max_seq_len == old(self).max_seq_len,
            final(self).eos_token == old(self).eos_token,
            final(self).stopped == old(self).stopped,
    {
        self.fed = self.fed + 1;
    }

    /// Takes the token chosen.
    pub fn accept(&mut self, token: usize)
        requires
            old(self).well_formed(),
            old(self).next_action() is Choose,
        ensures
            final(self).well_formed(),
            final(self).output@ == old(self).output@.push(token),
            final(self).stopped == stops(
                old(self).eos_token,
                old(self).max_seq_len as nat,
                token,
                old(self).output@.len(),
            ),
            final(self).fed == old(self).fed,
            final(self).prompt_len == old(self).prompt_len,
            final(self).max_new_tokens == old(self).max_new_tokens,
            final(self).max_seq_len == old(self).max_seq_len,
            final(self).eos_token == old(self).eos_token,
    {
        let pos: usize = self.output.len();
        self.output.push(token);
        let ended: bool = match self.eos_token {
            Some(eos) => token == eos,
            None => false,
        };
        self.stopped = ended || pos >= self.max_seq_len;
    }
}

/// What a generation has produced is what its choices make: whatever choices it goes on with,
/// its tokens are the beginning of their continuation, and all of it where it was cut short or
/// has generated all it may.
pub proof fn law_generation_follows_its_choices(run: Generation, more: Seq<usize>)
    requires
        run.well_formed(),
        run.output@.len() > run.prompt_len,
    ensures
        run.next_action() is Done || more.len() == 0 ==> continuation(
            run.produced() + more,
            run.prompt_len as nat,
            run.max_new_tokens as nat,
            run.eos_token,
            run.max_seq_len as nat,
        ) == run.produced(),
{
    let produced = run.produced();
    assert(produced.last() == run.output@.last());
    assert forall|i: int| 0 <= i < produced.len() - 1 implies !stops(
        run.eos_token,
        run.max_seq_len as nat,
        #[trigger] produced[i],
        (run.prompt_len + i) as nat,
    ) by {
        assert(produced[i] == run.output@[run.prompt_len + i]);
    }
    if run.next_action() is Done || more.len() == 0 {
        lemma_continuation(
            produced,
            more,
            run.prompt_len as nat,
            run.max_new_tokens as nat,
            run.eos_token,
            run.max_seq_len as nat,
        );
    }
}

proof fn lemma_continuation(
    produced: Seq<usize>,
    more: Seq<usize>,
    pos: nat,
    max_new_tokens: nat,
    eos_token: Option<usize>,
    max_seq_len: nat,
)
    requires
        0 < produced.len() <= max_new_tokens,
        forall|i: int|
            0 <= i < produced.len() - 1 ==> !stops(
                eos_token,
                max_seq_len,
                #[trigger] produced[i],
                (pos + i) as nat,
            ),
        more.len() == 0 || produced.len() == max_new_tokens || stops(
            eos_token,
            max_seq_len,
            produced.last(),
            (pos + produced.len() - 1) as nat,
        ),
    ensures
        continuation(produced + more, pos, max_new_tokens, eos_token, max_seq_len) == produced,
    decreases produced.len(),
{
    let choices = produced + more;
    assert(choices[0] == produced[0]);
    if produced.len() == 1 {
        assert(produced =~= seq![choices[0]]);
        if !stops(eos_token, max_seq_len, choices[0], pos) {
            let rest = continuation(
                choices.skip(1),
                pos + 1,
                (max_new_tokens - 1) as nat,
                eos_token,
                max_seq_len,
            );
            if more.len() == 0 {
                assert(choices.skip(1).len() == 0);
            }
            assert(rest =~= Seq::empty());
            assert(seq![choices[0]] + rest =~= produced);
        }
    } else {
        let tail = produced.skip(1);
        assert(!stops(eos_token, max_seq_len, produced[0], (pos + 0) as nat));
        assert forall|i: int| 0 <= i < tail.len() - 1 implies !stops(
            eos_token,
            max_seq_len,
            #[trigger] tail[i],
            (pos + 1 + i) as nat,
        ) by {
            assert(tail[i] == produced[i + 1]);
        }
        assert(tail.last() == produced.last());
        lemma_continuation(tail, more, pos + 1, (max_new_tokens - 1) as nat, eos_token, max_seq_len);
        assert(choices.skip(1) =~= tail + more);
        assert(seq![choices[0]] + tail =~= produced);
    }
}

/// A generation keeps its prompt, generates no more than asked for, puts an end token nowhere but
/// in the last place, and goes at most one token beyond the model's positions.
pub proof fn law_generation_is_bounded(run: Generation)
    requires
        run.well_formed(),
    ensures
        run.produced().len() <= run.max_new_tokens,
        run.output@ == run.output@.take(run.prompt_len as int) + run.produced(),
        run.produced().len() > 0 ==> run.output@.len() <= run.max_seq_len + 1,
        forall|i: int|
            0 <= i < run.produced().len() - 1 ==> run.eos_token != Some(
                #[trigger] run.produced()[i],
            ),
{
    assert(run.output@ =~= run.output@.take(run.prompt_len as int) + run.produced());
    let len = run.output@.len();
    if run.produced().len() > 1 {
        assert(!stops(
            run.eos_token,
            run.max_seq_len as nat,
            run.output@[len - 2],
            (len - 2) as nat,
        ));
    }
    assert forall|i: int| 0 <= i < run.produced().len() - 1 implies run.eos_token != Some(
        #[trigger] run.produced()[i],
    ) by {
        assert(run.produced()[i] == run.output@[run.prompt_len + i]);
    }
}

/// A greedy choice is exceeded by no other logit, and the same logit does not stand behind it.
pub proof fn law_greedy_choice_is_the_last_greatest(logits: Seq<u32>, choice: nat, i: int)
    requires
        is_greedy_choice(logits, choice),
        0 <= i < logits.len(),
    ensures
        choice < logits.len(),
        !float_bits::exceeds(logits[i], logits[choice as int]),
        i > choice ==> logits[i] != logits[choice as int],
        logits[i] < 0x80000000 ==> logits[i] <= logits[choice as int] < 0x80000000,
        logits[choice as int] >= 0x80000000 ==> logits[i] >= logits[choice as int],
{
    float_bits::law_places_go_by_sign_and_bits(logits[i], logits[choice as int]);
    float_bits::law_places_go_by_sign_and_bits(logits[choice as int], logits[i]);
    if float_bits::exceeds(logits[i], logits[choice as int]) {
        float_bits::law_total_order_extends_order(logits[i], logits[choice as int]);
    }
}

/// A draw stops at the first cumulated probability that it does not exceed: it exceeds all before,
/// and where it stops nowhere it exceeds all there are.
pub proof fn law_draw_stops_where_it_is_reached(
    cumulated: Seq<u32>,
    draw: u32,
    reached: Option<usize>,
    j: int,
)
    requires
        is_first_reached(cumulated, draw, reached),
        0 <= j < cumulated.len(),
        draw <= 0x7f800000,
        cumulated[j] <= 0x7f800000,
    ensures
        reached matches Some(i) ==> {
            &&& i < cumulated.len()
            &&& j < i ==> draw > cumulated[j]
            &&& j == i ==> draw <= cumulated[j]
        },
        reached is None ==> draw > cumulated[j],
{
    float_bits::law_order_goes_by_sign_and_bits(draw, cumulated[j]);
    float_bits::law_order_goes_by_sign_and_bits(cumulated[j], draw);
}

/// What is fed is the first token that the model has not seen, at its own position; a choice is
/// asked for only when it has seen them all, none of them ended the generation, and not all that
/// was asked for is there; and a generation is over for one of four reasons: there is no prompt,
/// nothing was asked for, all that was asked for is there and seen, or the last token is the end
/// token or lies beyond the positions of the model.
pub proof fn law_actions_are_due(run: Generation)
    requires
        run.well_formed(),
    ensures
        run.next_action() matches GenerateAction::Feed { token, pos } ==> {
            &&& pos == run.fed
            &&& pos < run.output@.len()
            &&& token == run.output@[pos as int]
            &&& pos < run.max_seq_len
        },
        run.next_action() is Choose ==> {
            &&& run.fed == run.output@.len()
            &&& run.prompt_len > 0
            &&& run.output@.len() < run.prompt_len + run.max_new_tokens
            &&& run.output@.len() > run.prompt_len ==> run.eos_token != Some(run.output@.last())
                && run.output@.len() <= run.max_seq_len
        },
        run.next_action() is Done <==> {
            ||| run.prompt_len == 0
            ||| run.max_new_tokens == 0
            ||| run.output@.len() == run.prompt_len + run.max_new_tokens && run.fed
                == run.output@.len()
            ||| run.output@.len() > run.prompt_len && run.eos_token == Some(run.output@.last())
            ||| run.output@.len() > run.prompt_len && run.output@.len() > run.max_seq_len
        },
{
    if run.output@.len() > run.prompt_len {
        assert(run.output@.last() == run.output@[run.output@.len() - 1]);
    }
}

/// A continuation is a beginning of the choices. It ends behind the first that is the end token or
/// lies beyond the positions of the model, and otherwise with the choices or with the number asked
/// for.
pub proof fn law_continuation_ends_where_it_is_due(
    choices: Seq<usize>,
    pos: nat,
    max_new_tokens: nat,
    eos_token: Option<usize>,
    max_seq_len: nat,
    n: nat,
)
    requires
        n <= choices.len(),
        n <= max_new_tokens,
        forall|i: int|
            0 <= i < n - 1 ==> eos_token != Some(#[trigger] choices[i]) && pos + i < max_seq_len,
        n == choices.len() || n == max_new_tokens || n > 0 && (eos_token == Some(choices[n - 1])
            || pos + n - 1 >= max_seq_len),
    ensures
        continuation(choices, pos, max_new_tokens, eos_token, max_seq_len) == choices.take(n as int),
{
    let produced = choices.take(n as int);
    let more = choices.skip(n as int);
    assert(produced + more =~= choices);
    if n > 0 {
        lemma_continuation(produced, more, pos, max_new_tokens, eos_token, max_seq_len);
    } else {
        assert(produced =~= Seq::<usize>::empty());
    }
}

/// A draw never stops at a cumulated probability that is no number.
pub proof fn law_draw_passes_what_is_no_number(
    cumulated: Seq<u32>,
    draw: u32,
    reached: Option<usize>,
    j: int,
)
    requires
        is_first_reached(cumulated, draw, reached),
        0 <= j < cumulated.len(),
        0x7f800000 < cumulated[j] < 0x80000000 || cumulated[j] > 0xff800000,
    ensures
        reached matches Some(i) ==> i != j,
{
    float_bits::law_order_goes_by_sign_and_bits(draw, cumulated[j]);
}

} // verus!
