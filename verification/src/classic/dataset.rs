//! Training data: cutting a token stream into sequences, shuffling them, and the order in which
//! a training run goes through them.

use vstd::prelude::*;

use crate::classic::rng::FastRng;
use crate::classic::rng;
use crate::classic::tokenizer::EOS_TOKEN_ID;

verus! {

/// The pieces that a token stream is cut into, behind every end-of-sequence token and wherever a
/// piece has grown to `max_len`; and the piece that is still open.
pub open spec fn cut(tokens: Seq<usize>, max_len: nat) -> (Seq<Seq<usize>>, Seq<usize>)
    decreases tokens.len(),
{
    if tokens.len() == 0 {
        (Seq::empty(), Seq::empty())
    } else {
        let (pieces, open) = cut(tokens.drop_last(), max_len);
        let grown = open.push(tokens.last());
        if tokens.last() == EOS_TOKEN_ID || grown.len() >= max_len {
            (pieces.push(grown), Seq::empty())
        } else {
            (pieces, grown)
        }
    }
}

/// The pieces of at least two tokens, in order.
pub open spec fn trainable(pieces: Seq<Seq<usize>>) -> Seq<Seq<usize>>
    decreases pieces.len(),
{
    if pieces.len() == 0 {
        Seq::empty()
    } else {
        let before = trainable(pieces.drop_last());
        if pieces.last().len() >= 2 {
            before.push(pieces.last())
        } else {
            before
        }
    }
}

/// The training sequences of a token stream.
pub open spec fn sequences_of(tokens: Seq<usize>, max_len: nat) -> Seq<Seq<usize>> {
    let (pieces, open) = cut(tokens, max_len);
    trainable(pieces.push(open))
}

/// The views of a list of token vectors.
pub open spec fn deep(sequences: Seq<Vec<usize>>) -> Seq<Seq<usize>> {
    Seq::new(sequences.len(), |i: int| sequences[i]@)
}

/// Cuts a token stream into training sequences.
pub fn split_into_eos_sequences(tokens: &[usize], max_len: usize) -> (sequences: Vec<Vec<usize>>)
    ensures
        deep(sequences@) == sequences_of(tokens@, max_len as nat),
{
    let mut sequences: Vec<Vec<usize>> = Vec::new();
    let mut current: Vec<usize> = Vec::new();
    assert(deep(sequences@) =~= trainable(cut(tokens@.take(0), max_len as nat).0));
    for i in 0..tokens.len()
        invariant
            deep(sequences@) == trainable(cut(tokens@.take(i as int), max_len as nat).0),
            current@ == cut(tokens@.take(i as int), max_len as nat).1,
    {
        let ghost before = cut(tokens@.take(i as int), max_len as nat);
        let ghost listed = sequences@;
        assert(tokens@.take(i + 1).drop_last() =~= tokens@.take(i as int));
        let token: usize = tokens[i];
        current.push(token);
        if token == EOS_TOKEN_ID || current.len() >= max_len {
            assert(before.0.push(current@).drop_last() =~= before.0);
            if current.len() >= 2 {
                let sequence: Vec<usize> = current.clone();
                assert(sequence@ =~= current@);
                sequences.push(sequence);
                assert(deep(sequences@) =~= deep(listed).push(current@));
            }
            current.clear();
        }
    }
    assert(tokens@.take(tokens@.len() as int) =~= tokens@);
    let ghost (pieces, open) = cut(tokens@, max_len as nat);
    assert(pieces.push(open).drop_last() =~= pieces);
    if current.len() >= 2 {
        let ghost listed = sequences@;
        let ghost last = current@;
        sequences.push(current);
        assert(deep(sequences@) =~= deep(listed).push(last));
    }
    sequences
}

/// A sequence with two of its items exchanged.
pub open spec fn exchanged<T>(items: Seq<T>, i: int, j: int) -> Seq<T> {
    items.update(i, items[j]).update(j, items[i])
}

/// The items and the state of the generator after a Fisher-Yates shuffle of the positions up to
/// `i`, from the last one down.
pub open spec fn shuffled<T>(items: Seq<T>, state: u64, i: nat) -> (Seq<T>, u64)
    decreases i,
{
    if i == 0 {
        (items, state)
    } else {
        let next = rng::splitmix_advance(state);
        let j = (rng::splitmix_output(next) as usize as nat) % (i + 1);
        shuffled(exchanged(items, i as int, j as int), next, (i - 1) as nat)
    }
}

/// The last position of a list.
pub open spec fn last_position(len: nat) -> nat {
    if len == 0 {
        0
    } else {
        (len - 1) as nat
    }
}

/// `<[T]>::swap` exchanges two items.
#[verifier::external_body]
fn exchange<T>(items: &mut Vec<T>, i: usize, j: usize)
    requires
        i < old(items)@.len(),
        j < old(items)@.len(),
    ensures
        final(items)@ == exchanged(old(items)@, i as int, j as int),
{
    items.swap(i, j)
}

/// Shuffles a list in place with the draws of a generator.
pub fn shuffle<T>(items: &mut Vec<T>, rng: &mut FastRng)
    ensures
        (final(items)@, final(rng)@) == shuffled(
            old(items)@,
            old(rng)@,
            last_position(old(items)@.len()),
        ),
        final(items)@.len() == old(items)@.len(),
{
    let ghost start = items@;
    let ghost seed = rng@;
    let len: usize = items.len();
    if len == 0 {
        return ;
    }
    let mut i: usize = len - 1;
    while i > 0
        invariant
            i < len,
            len == start.len(),
            items@.len() == len,
            shuffled(items@, rng@, i as nat) == shuffled(start, seed, (len - 1) as nat),
        decreases i,
    {
        let drawn: u64 = rng.next_u64();
        let j: usize = (drawn as usize) % (i + 1);
        exchange(items, i, j);
        i = i - 1;
    }
}

} // verus!
