//! Where a partition by bonds and delimiters puts each byte.

use vstd::prelude::*;

use crate::float_bits;
use crate::qreno::hamiltonian;

verus! {

/// The bytes that separate words: `space tab newline return , . ! ? ; : ( ) [ ] { } " ' / \` and
/// zero.
pub open spec fn separators() -> Set<u8> {
    set![
        32u8, 9u8, 10u8, 13u8, 44u8, 46u8, 33u8, 63u8, 59u8, 58u8, 40u8, 41u8, 91u8, 93u8, 123u8,
        125u8, 34u8, 39u8, 47u8, 92u8, 0u8
    ]
}

proof fn lemma_separators(b: u8)
    ensures
        separators().contains(b) == hamiltonian::delimiter(b),
{
}

proof fn lemma_clusters_from(
    bytes: Seq<u8>,
    bonds: Seq<u32>,
    threshold: u32,
    limit: nat,
    from: int,
    k: int,
)
    requires
        0 <= from < bytes.len() <= usize::MAX,
        1 <= limit <= usize::MAX,
        0 <= k < hamiltonian::clusters_from(bytes, bonds, threshold, limit, from).len(),
    ensures
        ({
            let found = hamiltonian::clusters_from(bytes, bonds, threshold, limit, from);
            let cluster = found[k];
            &&& found[0].start == from
            &&& from <= cluster.start < bytes.len()
            &&& cluster == hamiltonian::cluster_at(
                bytes,
                bonds,
                threshold,
                limit,
                cluster.start as int,
            )
            &&& cluster.len == hamiltonian::grown(
                bytes,
                bonds,
                threshold,
                limit,
                cluster.start as int,
                1,
            )
            &&& k + 1 < found.len() ==> found[k + 1].start == cluster.start + cluster.len
            &&& k + 1 == found.len() ==> cluster.start + cluster.len == bytes.len()
        }),
    decreases bytes.len() - from,
{
    let found = hamiltonian::clusters_from(bytes, bonds, threshold, limit, from);
    hamiltonian::lemma_grown(bytes, bonds, threshold, limit, from, 1);
    let next = from + hamiltonian::grown(bytes, bonds, threshold, limit, from, 1);
    let rest = hamiltonian::clusters_from(bytes, bonds, threshold, limit, next);
    assert(found.skip(1) =~= rest);
    assert(found[0] == hamiltonian::cluster_at(bytes, bonds, threshold, limit, from));
    if k > 0 {
        assert(found[k] == rest[k - 1]);
        if k + 1 < found.len() {
            assert(found[k + 1] == rest[k]);
        }
        lemma_clusters_from(bytes, bonds, threshold, limit, next, k - 1);
    } else if found.len() > 1 {
        assert(found[1] == rest[0]);
        lemma_clusters_from(bytes, bonds, threshold, limit, next, 0);
    }
}

/// Clusters lie one behind the other from the first byte to the last, and one that begins with a
/// separator is marked so.
pub proof fn law_clusters_follow_each_other(
    bytes: Seq<u8>,
    bonds: Seq<u32>,
    threshold: u32,
    max_cluster_len: nat,
    k: int,
)
    requires
        0 < bytes.len() <= usize::MAX,
        0 <= k < hamiltonian::clusters_of(bytes, bonds, threshold, max_cluster_len).len(),
    ensures
        ({
            let found = hamiltonian::clusters_of(bytes, bonds, threshold, max_cluster_len);
            &&& found[0].start == 0
            &&& found[k].len >= 1
            &&& k + 1 < found.len() ==> found[k + 1].start == found[k].start + found[k].len
            &&& k + 1 == found.len() ==> found[k].start + found[k].len == bytes.len()
            &&& found[k].is_delimiter == separators().contains(bytes[found[k].start as int])
        }),
{
    let limit = hamiltonian::length_limit(max_cluster_len);
    lemma_clusters_from(bytes, bonds, threshold, limit, 0, k);
    let found = hamiltonian::clusters_of(bytes, bonds, threshold, max_cluster_len);
    hamiltonian::lemma_grown(bytes, bonds, threshold, limit, found[k].start as int, 1);
    lemma_separators(bytes[found[k].start as int]);
}

/// Some bytes make at least one cluster, none make none.
pub proof fn law_bytes_make_clusters(
    bytes: Seq<u8>,
    bonds: Seq<u32>,
    threshold: u32,
    max_cluster_len: nat,
)
    ensures
        hamiltonian::clusters_of(bytes, bonds, threshold, max_cluster_len).len() == 0
            <==> bytes.len() == 0,
{
}

/// A byte behind the first of a cluster belongs to it exactly where the cluster is not yet as
/// long as asked for, between one and sixteen bytes, and the byte repeats the separator that the
/// cluster begins with, or the cluster begins with no separator, the byte is none either, and the
/// bond before it is not below the threshold.
pub proof fn law_clusters_hold_what_is_bonded(
    bytes: Seq<u8>,
    bonds: Seq<u32>,
    threshold: u32,
    max_cluster_len: nat,
    k: int,
    i: int,
)
    requires
        0 < bytes.len() <= usize::MAX,
        0 <= k < hamiltonian::clusters_of(bytes, bonds, threshold, max_cluster_len).len(),
        ({
            let cluster = hamiltonian::clusters_of(bytes, bonds, threshold, max_cluster_len)[k];
            cluster.start < i <= cluster.start + cluster.len && i < bytes.len()
        }),
    ensures
        ({
            let cluster = hamiltonian::clusters_of(bytes, bonds, threshold, max_cluster_len)[k];
            let first = bytes[cluster.start as int];
            i < cluster.start + cluster.len <==> {
                &&& i - cluster.start < 16
                &&& i - cluster.start < max_cluster_len
                &&& separators().contains(first) ==> bytes[i] == first
                &&& !separators().contains(first) ==> {
                    &&& !separators().contains(bytes[i])
                    &&& !float_bits::exceeds(threshold, bonds[i - 1])
                }
            }
        }),
{
    let limit = hamiltonian::length_limit(max_cluster_len);
    lemma_clusters_from(bytes, bonds, threshold, limit, 0, k);
    let cluster = hamiltonian::clusters_of(bytes, bonds, threshold, max_cluster_len)[k];
    let start = cluster.start as int;
    hamiltonian::lemma_grown(bytes, bonds, threshold, limit, start, 1);
    lemma_separators(bytes[start]);
    lemma_separators(bytes[i]);
    let len = i - start;
    assert(start + len == i && start + len - 1 == i - 1);
    if i < start + cluster.len {
        assert(hamiltonian::extends(bytes, bonds, threshold, limit, start, len));
    } else {
        assert(!hamiltonian::extends(bytes, bonds, threshold, limit, start, len));
    }
}

} // verus!
