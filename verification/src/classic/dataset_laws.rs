//! What holds of the cutting and shuffling of training data.

use vstd::prelude::*;

use crate::classic::dataset;
use crate::classic::rng;
use crate::classic::tokenizer::EOS_TOKEN_ID;

verus! {

/// The pieces one behind the other.
pub open spec fn joined(pieces: Seq<Seq<usize>>) -> Seq<usize>
    decreases pieces.len(),
{
    if pieces.len() == 0 {
        Seq::empty()
    } else {
        joined(pieces.drop_last()) + pieces.last()
    }
}

/// The end-of-sequence token stands nowhere but in the last place.
pub open spec fn ends_once(piece: Seq<usize>) -> bool {
    forall|i: int| 0 <= i < piece.len() - 1 ==> piece[i] != EOS_TOKEN_ID
}

/// Why a piece was closed: it ends with an end-of-sequence token, or has reached the limit.
pub open spec fn complete(piece: Seq<usize>, max_len: nat) -> bool {
    &&& piece.len() > 0
    &&& piece.last() == EOS_TOKEN_ID || piece.len() >= max_len
    &&& piece.len() <= max_len || piece.len() == 1
    &&& ends_once(piece)
}

/// Cutting loses and reorders nothing: the pieces and the open rest are the stream.
pub proof fn law_pieces_make_up_the_stream(tokens: Seq<usize>, max_len: nat)
    ensures
        ({
            let (pieces, open) = dataset::cut(tokens, max_len);
            joined(pieces) + open == tokens
        }),
    decreases tokens.len(),
{
    let (pieces, open) = dataset::cut(tokens, max_len);
    if tokens.len() == 0 {
        assert(joined(pieces) + open =~= tokens);
    } else {
        law_pieces_make_up_the_stream(tokens.drop_last(), max_len);
        let (before, left) = dataset::cut(tokens.drop_last(), max_len);
        let grown = left.push(tokens.last());
        assert(tokens.drop_last().push(tokens.last()) =~= tokens);
        assert(joined(before) + grown =~= tokens);
        if tokens.last() == EOS_TOKEN_ID || grown.len() >= max_len {
            assert(before.push(grown).drop_last() =~= before);
            assert(joined(pieces) + open =~= tokens);
        }
    }
}

/// Every closed piece was closed for its reason and no later than it could be, and the open rest
/// has no reason to be closed.
pub proof fn law_pieces_are_complete(tokens: Seq<usize>, max_len: nat)
    ensures
        ({
            let (pieces, open) = dataset::cut(tokens, max_len);
            &&& forall|i: int| 0 <= i < pieces.len() ==> complete(#[trigger] pieces[i], max_len)
            &&& forall|i: int| 0 <= i < open.len() ==> open[i] != EOS_TOKEN_ID
            &&& open.len() > 0 ==> open.len() < max_len
        }),
    decreases tokens.len(),
{
    if tokens.len() > 0 {
        law_pieces_are_complete(tokens.drop_last(), max_len);
    }
}

/// The trainable pieces are pieces, in their order, and every piece of two tokens is among them.
proof fn lemma_trainable(pieces: Seq<Seq<usize>>)
    ensures
        forall|i: int|
            0 <= i < dataset::trainable(pieces).len() ==> {
                &&& (#[trigger] dataset::trainable(pieces)[i]).len() >= 2
                &&& pieces.contains(dataset::trainable(pieces)[i])
            },
        forall|i: int|
            0 <= i < pieces.len() && (#[trigger] pieces[i]).len() >= 2
                ==> dataset::trainable(pieces).contains(pieces[i]),
    decreases pieces.len(),
{
    if pieces.len() > 0 {
        let before = pieces.drop_last();
        lemma_trainable(before);
        let kept = dataset::trainable(pieces);
        assert forall|i: int| 0 <= i < kept.len() implies {
            &&& (#[trigger] kept[i]).len() >= 2
            &&& pieces.contains(kept[i])
        } by {
            if i < dataset::trainable(before).len() {
                assert(kept[i] == dataset::trainable(before)[i]);
                let j = choose|j: int| 0 <= j < before.len() && before[j] == kept[i];
                assert(pieces[j] == kept[i]);
            } else {
                assert(pieces[pieces.len() - 1] == kept[i]);
            }
        }
        assert forall|i: int| 0 <= i < pieces.len() && (#[trigger] pieces[i]).len() >= 2 implies
            kept.contains(pieces[i]) by {
            if i < pieces.len() - 1 {
                assert(before[i] == pieces[i]);
                let j = choose|j: int|
                    0 <= j < dataset::trainable(before).len() && dataset::trainable(before)[j]
                        == pieces[i];
                assert(kept[j] == pieces[i]);
            } else {
                assert(kept[kept.len() - 1] == pieces[i]);
            }
        }
    }
}

/// Every training sequence has at least two tokens, no more than the limit, and an
/// end-of-sequence token only in its last place.
pub proof fn law_sequences_are_bounded(tokens: Seq<usize>, max_len: nat)
    ensures
        forall|i: int|
            0 <= i < dataset::sequences_of(tokens, max_len).len() ==> {
                &&& 2 <= (#[trigger] dataset::sequences_of(tokens, max_len)[i]).len() <= max_len
                &&& ends_once(dataset::sequences_of(tokens, max_len)[i])
            },
{
    let (pieces, open) = dataset::cut(tokens, max_len);
    let all = pieces.push(open);
    law_pieces_are_complete(tokens, max_len);
    lemma_trainable(all);
    let kept = dataset::sequences_of(tokens, max_len);
    assert forall|i: int| 0 <= i < kept.len() implies {
        &&& 2 <= (#[trigger] kept[i]).len() <= max_len
        &&& ends_once(kept[i])
    } by {
        let j = choose|j: int| 0 <= j < all.len() && all[j] == kept[i];
        if j < pieces.len() {
            assert(complete(pieces[j], max_len));
        }
    }
}

/// Where no piece is a single token, the training sequences hold the whole stream in order.
pub proof fn law_sequences_keep_the_stream(tokens: Seq<usize>, max_len: nat)
    requires
        forall|i: int|
            0 <= i < dataset::cut(tokens, max_len).0.len()
                ==> (#[trigger] dataset::cut(tokens, max_len).0[i]).len() != 1,
        dataset::cut(tokens, max_len).1.len() != 1,
    ensures
        joined(dataset::sequences_of(tokens, max_len)) == tokens,
{
    let (pieces, open) = dataset::cut(tokens, max_len);
    law_pieces_make_up_the_stream(tokens, max_len);
    law_pieces_are_complete(tokens, max_len);
    assert(pieces.push(open).drop_last() =~= pieces);
    lemma_nothing_dropped(pieces);
    if open.len() >= 2 {
        assert(dataset::trainable(pieces).push(open).drop_last() =~= dataset::trainable(pieces));
    } else {
        assert(open =~= Seq::empty());
        assert(joined(pieces) + open =~= joined(pieces));
    }
}

proof fn lemma_nothing_dropped(pieces: Seq<Seq<usize>>)
    requires
        forall|i: int| 0 <= i < pieces.len() ==> (#[trigger] pieces[i]).len() >= 2,
    ensures
        dataset::trainable(pieces) == pieces,
    decreases pieces.len(),
{
    if pieces.len() > 0 {
        lemma_nothing_dropped(pieces.drop_last());
        assert(pieces.last().len() >= 2);
        assert(pieces.drop_last().push(pieces.last()) =~= pieces);
    }
}

/// Exchanging two items keeps all of them.
pub proof fn law_exchange_keeps_items<T>(items: Seq<T>, i: int, j: int)
    requires
        0 <= i < items.len(),
        0 <= j < items.len(),
    ensures
        dataset::exchanged(items, i, j).to_multiset() == items.to_multiset(),
{
    broadcast use vstd::seq_lib::group_to_multiset_ensures;

    let first = items.update(i, items[j]);
    vstd::seq_lib::to_multiset_update(items, i, items[j]);
    vstd::seq_lib::to_multiset_update(first, j, items[i]);
    if i == j {
        assert(dataset::exchanged(items, i, j) =~= items);
    } else {
        assert(items.to_multiset().count(items[i]) > 0) by {
            assert(items.contains(items[i]));
        }
        assert(dataset::exchanged(items, i, j).to_multiset() =~= items.to_multiset());
    }
}

/// Shuffling keeps all items.
pub proof fn law_shuffle_keeps_items<T>(items: Seq<T>, state: u64, i: nat)
    requires
        i < items.len() || i == 0,
    ensures
        dataset::shuffled(items, state, i).0.to_multiset() == items.to_multiset(),
        dataset::shuffled(items, state, i).0.len() == items.len(),
    decreases i,
{
    if i > 0 {
        let next = rng::splitmix_advance(state);
        let j = (rng::splitmix_output(next) as usize as nat) % (i + 1);
        assert(0 <= j < i + 1) by (nonlinear_arith)
            requires
                j == (rng::splitmix_output(next) as usize as nat) % (i + 1),
        ;
        law_exchange_keeps_items(items, i as int, j as int);
        law_shuffle_keeps_items(
            dataset::exchanged(items, i as int, j as int),
            next,
            (i - 1) as nat,
        );
    }
}

/// Shuffling draws one number for each position but the first: the generator's state afterwards
/// depends on the number of items alone.
pub proof fn law_shuffle_draws<T>(first: Seq<T>, second: Seq<T>, state: u64, i: nat)
    ensures
        dataset::shuffled(first, state, i).1 == dataset::shuffled(second, state, i).1,
    decreases i,
{
    if i > 0 {
        let next = rng::splitmix_advance(state);
        let j = (rng::splitmix_output(next) as usize as nat) % (i + 1);
        law_shuffle_draws(
            dataset::exchanged(first, i as int, j as int),
            dataset::exchanged(second, i as int, j as int),
            next,
            (i - 1) as nat,
        );
    }
}

/// The training sequences are the pieces of at least two tokens, each where it stands among them.
pub proof fn law_single_tokens_are_dropped(tokens: Seq<usize>, max_len: nat)
    ensures
        ({
            let (pieces, open) = dataset::cut(tokens, max_len);
            dataset::sequences_of(tokens, max_len) == pieces.push(open).filter(
                |piece: Seq<usize>| piece.len() > 1,
            )
        }),
{
    let (pieces, open) = dataset::cut(tokens, max_len);
    lemma_trainable_is_filtered(pieces.push(open));
}

proof fn lemma_trainable_is_filtered(pieces: Seq<Seq<usize>>)
    ensures
        dataset::trainable(pieces) == pieces.filter(|piece: Seq<usize>| piece.len() > 1),
    decreases pieces.len(),
{
    reveal(Seq::filter);
    if pieces.len() > 0 {
        lemma_trainable_is_filtered(pieces.drop_last());
    }
}

/// A shuffle exchanges its last place with the one that a draw picks, what is left of the draw when
/// the number of places is taken away as often as it can be, and then shuffles the places before.
pub proof fn law_shuffle_exchanges_the_last_with_a_drawn_place<T>(
    items: Seq<T>,
    state: u64,
    i: nat,
    j: nat,
    times: nat,
    rest: Seq<T>,
)
    requires
        0 < i < items.len(),
        j <= i,
        rng::splitmix_output(rng::splitmix_advance(state)) as usize == times * (i + 1) + j,
        rest.len() == items.len(),
        rest[i as int] == items[j as int],
        rest[j as int] == items[i as int],
        forall|p: int| 0 <= p < items.len() && p != i && p != j ==> rest[p] == items[p],
    ensures
        dataset::shuffled(items, state, i) == dataset::shuffled(
            rest,
            rng::splitmix_advance(state),
            (i - 1) as nat,
        ),
{
    let drawn = rng::splitmix_output(rng::splitmix_advance(state)) as usize as int;
    vstd::arithmetic::div_mod::lemma_fundamental_div_mod_converse(
        drawn,
        i as int + 1,
        times as int,
        j as int,
    );
    assert(dataset::exchanged(items, i as int, j as int) =~= rest);
}

/// A shuffle goes down from the last place; where there is at most one place left, nothing is drawn
/// and nothing moves.
pub proof fn law_shuffle_goes_from_the_last_place<T>(items: Seq<T>, state: u64)
    ensures
        items.len() > 0 ==> dataset::last_position(items.len()) + 1 == items.len(),
        items.len() <= 1 ==> dataset::shuffled(
            items,
            state,
            dataset::last_position(items.len()),
        ) == (items, state),
        dataset::shuffled(items, state, 0) == (items, state),
{
}

} // verus!
