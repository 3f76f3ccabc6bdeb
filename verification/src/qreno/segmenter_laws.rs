//! Where the lattice is cut, said of the clusters that come out.

use vstd::prelude::*;

use crate::float_bits;
use crate::qreno::segmenter::BondSignal;
use crate::qreno::segmenter;

verus! {

/// The bytes that are white space: blank, tabulator, line feed, form feed and carriage return.
pub open spec fn blank_bytes() -> Set<u8> {
    set![32u8, 9u8, 10u8, 12u8, 13u8]
}

/// White space on one side of the bond behind byte `i` only.
pub open spec fn at_edge_of_space(bytes: Seq<u8>, i: int) -> bool {
    blank_bytes().contains(bytes[i]) <==> !blank_bytes().contains(bytes[i + 1])
}

/// A bond that drops by at least 0.15 against the one before and lies below its barrier.
pub open spec fn domain_wall(signal: BondSignal) -> bool {
    float_bits::at_most(signal.delta_t, 0xbe19999a) && float_bits::exceeds(
        signal.barrier,
        signal.energy,
    )
}

/// A bond whose energy lies below the floor.
pub open spec fn dissociated(signal: BondSignal) -> bool {
    float_bits::exceeds(signal.floor, signal.energy)
}

/// The cuts that the search has found at the first bonds stay the same when it goes on.
proof fn lemma_cuts_stay(
    bytes: Seq<u8>,
    signals: Seq<BondSignal>,
    max_len: nat,
    min_len: nat,
    count: nat,
    more: nat,
)
    requires
        count <= more <= usize::MAX,
    ensures
        ({
            let first = segmenter::cuts_within(bytes, signals, max_len, min_len, count);
            let all = segmenter::cuts_within(bytes, signals, max_len, min_len, more);
            &&& first.len() <= all.len()
            &&& all.take(first.len() as int) == first
            &&& forall|k: int| first.len() <= k < all.len() ==> count < #[trigger] all[k] <= more
            &&& forall|k: int| 0 <= k < first.len() ==> 0 < #[trigger] first[k] <= count
        }),
    decreases more,
{
    let first = segmenter::cuts_within(bytes, signals, max_len, min_len, count);
    let all = segmenter::cuts_within(bytes, signals, max_len, min_len, more);
    if count < more {
        lemma_cuts_stay(bytes, signals, max_len, min_len, count, (more - 1) as nat);
        let before = segmenter::cuts_within(bytes, signals, max_len, min_len, (more - 1) as nat);
        assert(all.take(first.len() as int) =~= before.take(first.len() as int));
    } else {
        assert(all.take(first.len() as int) =~= first);
        if count > 0 {
            lemma_cuts_stay(
                bytes,
                signals,
                max_len,
                min_len,
                (count - 1) as nat,
                (count - 1) as nat,
            );
        }
    }
}

/// The cuts rise from one to the number of bonds.
proof fn lemma_cuts_rise(
    bytes: Seq<u8>,
    signals: Seq<BondSignal>,
    max_len: nat,
    min_len: nat,
    count: nat,
)
    requires
        count <= usize::MAX,
    ensures
        ({
            let cuts = segmenter::cuts_within(bytes, signals, max_len, min_len, count);
            &&& forall|j: int| 0 <= j < cuts.len() ==> 0 < #[trigger] cuts[j] <= count
            &&& forall|j: int, k: int| 0 <= j < k < cuts.len() ==> cuts[j] < cuts[k]
        }),
    decreases count,
{
    if count > 0 {
        let before = segmenter::cuts_within(bytes, signals, max_len, min_len, (count - 1) as nat);
        let cuts = segmenter::cuts_within(bytes, signals, max_len, min_len, count);
        lemma_cuts_rise(bytes, signals, max_len, min_len, (count - 1) as nat);
        assert forall|j: int| 0 <= j < cuts.len() implies 0 < #[trigger] cuts[j] <= count by {
            if j < before.len() {
                assert(cuts[j] == before[j]);
            }
        }
        assert forall|j: int, k: int| 0 <= j < k < cuts.len() implies cuts[j] < cuts[k] by {
            assert(cuts[j] == before[j]);
            if k < before.len() {
                assert(cuts[k] == before[k]);
            }
        }
    }
}

/// Clusters lie one behind the other from the first byte to the last, and each says whether all
/// of its bytes are white space.
pub proof fn law_segments_follow_each_other(
    bytes: Seq<u8>,
    signals: Seq<BondSignal>,
    max_len: nat,
    min_len: nat,
    k: int,
)
    requires
        0 < bytes.len() <= usize::MAX,
        0 <= k < segmenter::segments_of(bytes, signals, max_len, min_len).len(),
    ensures
        ({
            let found = segmenter::segments_of(bytes, signals, max_len, min_len);
            &&& found[0].start == 0
            &&& found[k].len >= 1
            &&& k + 1 < found.len() ==> found[k + 1].start == found[k].start + found[k].len
            &&& k + 1 == found.len() ==> found[k].start + found[k].len == bytes.len()
            &&& found[k].is_delimiter <==> forall|j: int|
                found[k].start <= j < found[k].start + found[k].len ==> blank_bytes().contains(
                    #[trigger] bytes[j],
                )
        }),
{
    let count = segmenter::bond_count(bytes);
    let cuts = segmenter::cuts_within(bytes, signals, max_len, min_len, count);
    lemma_cuts_rise(bytes, signals, max_len, min_len, count);
    let found = segmenter::segments_of(bytes, signals, max_len, min_len);
    assert(found[k] == segmenter::segment(bytes, cuts, k));
    if 0 < k < cuts.len() {
        assert(cuts[k - 1] < cuts[k]);
    }
    let from = segmenter::bound(cuts, bytes.len(), k);
    let to = segmenter::bound(cuts, bytes.len(), k + 1);
    assert(from == found[k].start && to == found[k].start + found[k].len);
    assert forall|j: int| from <= j < to implies blank_bytes().contains(bytes[j])
        == segmenter::ascii_space(#[trigger] bytes[j]) by {}
    if segmenter::all_space(bytes, from, to) {
        assert forall|j: int| from <= j < to implies blank_bytes().contains(#[trigger] bytes[j]) by {
            assert(segmenter::ascii_space(bytes[j]));
        }
    } else {
        let j = choose|j: int| from <= j < to && !segmenter::ascii_space(#[trigger] bytes[j]);
        assert(!blank_bytes().contains(bytes[j]));
    }
}

/// A cluster ends behind byte `i` exactly where the bytes end, where it has reached the greatest
/// length, or where it has reached the least length and either white space begins or ends there
/// or, away from both edges of the bytes, the bond is a domain wall or dissociated. Each of the
/// two is enough.
#[verifier::rlimit(40)]
pub proof fn law_segments_end_where_bonds_break(
    bytes: Seq<u8>,
    signals: Seq<BondSignal>,
    max_len: nat,
    min_len: nat,
    k: int,
    i: int,
)
    requires
        0 < bytes.len() <= usize::MAX,
        0 <= k < segmenter::segments_of(bytes, signals, max_len, min_len).len(),
        ({
            let cluster = segmenter::segments_of(bytes, signals, max_len, min_len)[k];
            cluster.start <= i < cluster.start + cluster.len
        }),
    ensures
        ({
            let cluster = segmenter::segments_of(bytes, signals, max_len, min_len)[k];
            let len = i + 1 - cluster.start;
            i + 1 == cluster.start + cluster.len <==> {
                ||| i + 1 == bytes.len()
                ||| len >= max_len
                ||| len >= min_len && at_edge_of_space(bytes, i)
                ||| len >= min_len && 0 < i && i + 2 < bytes.len() && domain_wall(signals[i])
                ||| len >= min_len && 0 < i && i + 2 < bytes.len() && dissociated(signals[i])
            }
        }),
{
    let count = segmenter::bond_count(bytes);
    let cuts = segmenter::cuts_within(bytes, signals, max_len, min_len, count);
    lemma_cuts_rise(bytes, signals, max_len, min_len, count);
    let cluster = segmenter::segments_of(bytes, signals, max_len, min_len)[k];
    assert(cluster == segmenter::segment(bytes, cuts, k));
    if 0 < k < cuts.len() {
        assert(cuts[k - 1] < cuts[k]);
    }
    let from = segmenter::bound(cuts, bytes.len(), k);
    let to = segmenter::bound(cuts, bytes.len(), k + 1);
    assert(from == cluster.start && to == cluster.start + cluster.len);
    if i + 1 < bytes.len() {
        let before = segmenter::cuts_within(bytes, signals, max_len, min_len, i as nat);
        let here = segmenter::cuts_within(bytes, signals, max_len, min_len, (i + 1) as nat);
        lemma_cuts_stay(bytes, signals, max_len, min_len, i as nat, count);
        lemma_cuts_stay(bytes, signals, max_len, min_len, (i + 1) as nat, count);
        // The cuts up to byte `i` are those before the cluster.
        assert(before.len() == k) by {
            if before.len() > k {
                assert(before[k] == cuts[k]);
            } else if before.len() < k {
                assert(cuts[k - 1] > i);
            }
        }
        assert(segmenter::last_cut(before) == from) by {
            if k > 0 {
                assert(before[k - 1] == cuts[k - 1]);
            }
        }
        assert(segmenter::space_changes(bytes, i) <==> at_edge_of_space(bytes, i));
        if here.len() == k + 1 {
            assert(here[k] == i + 1);
            assert(cuts[k] == here[k]);
        } else {
            assert(here == before);
            if k < cuts.len() {
                assert(cuts[k] > i + 1);
            }
        }
    }
}

} // verus!
