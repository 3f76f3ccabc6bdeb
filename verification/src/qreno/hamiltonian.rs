//! Bonds between neighbouring bytes, and the clusters that they hold together.

use vstd::prelude::*;

use crate::float_bits;

verus! {

/// The greatest length of a cluster.
pub const MAX_CLUSTER_LEN: usize = 16;

/// Parameters of the bonds between neighbouring bytes.
#[derive(Debug, Clone)]
pub struct BondParams<T> {
    /// Dimension of the field.
    pub field_dim: usize,
    /// Weight of each charge component.
    pub w_bond: Vec<T>,
    /// Bias.
    pub b_bond: T,
    /// Strength below which a bond breaks.
    pub threshold: T,
}

impl<T> BondParams<T> {
    /// One parameter for each weight, and the bias.
    pub fn param_count(&self) -> (count: usize)
        requires
            self.w_bond@.len() < usize::MAX,
        ensures
            count == self.w_bond@.len() + 1,
    {
        self.w_bond.len() + 1
    }
}

impl<T: Copy> BondParams<T> {
    /// Bonds with one weight for all charge components.
    pub fn new(field_dim: usize, weight: T, bias: T, threshold: T) -> (bond: Self)
        ensures
            bond.field_dim == field_dim,
            bond.w_bond@ == Seq::new(field_dim as nat, |i: int| weight),
            bond.b_bond == bias,
            bond.threshold == threshold,
    {
        let w_bond: Vec<T> = crate::classic::cache::blank_buffer(weight, field_dim);
        assert(w_bond@ =~= Seq::new(field_dim as nat, |i: int| weight));
        BondParams { field_dim, w_bond, b_bond: bias, threshold }
    }
}

/// A run of bytes that forms one unit.
#[derive(Debug, Clone, Copy, PartialEq, Eq, Structural)]
pub struct Cluster {
    /// Position of the first byte.
    pub start: usize,
    /// Number of bytes.
    pub len: usize,
    /// Whether the cluster separates others.
    pub is_delimiter: bool,
}

/// Whether a byte separates clusters: white space, punctuation, brackets, quotes, slashes or zero.
pub open spec fn delimiter(b: u8) -> bool {
    b == 0x20 || b == 0x09 || b == 0x0a || b == 0x0d || b == 0x2c || b == 0x2e || b == 0x21 || b
        == 0x3f || b == 0x3b || b == 0x3a || b == 0x28 || b == 0x29 || b == 0x5b || b == 0x5d || b
        == 0x7b || b == 0x7d || b == 0x22 || b == 0x27 || b == 0x2f || b == 0x5c || b == 0x00
}

/// Whether a byte separates clusters.
pub fn is_delimiter_byte(b: u8) -> (found: bool)
    ensures
        found == delimiter(b),
{
    matches!(
        b,
        0x20 | 0x09 | 0x0a | 0x0d | 0x2c | 0x2e | 0x21 | 0x3f | 0x3b | 0x3a | 0x28 | 0x29 | 0x5b
            | 0x5d | 0x7b | 0x7d | 0x22 | 0x27 | 0x2f | 0x5c | 0x00
    )
}

/// The length that a cluster may reach: the one asked for, but at least one and at most sixteen.
pub open spec fn length_limit(max_cluster_len: nat) -> nat {
    if max_cluster_len < 1 {
        1
    } else if max_cluster_len > MAX_CLUSTER_LEN {
        MAX_CLUSTER_LEN as nat
    } else {
        max_cluster_len
    }
}

/// Whether the bond behind a byte is broken: its strength is below the threshold. Both are given
/// by bit patterns.
pub open spec fn broken(bonds: Seq<u32>, threshold: u32, i: int) -> bool {
    float_bits::exceeds(threshold, bonds[i])
}

/// Whether a cluster of `len` bytes at `start` takes in the next byte. A delimiter takes in its
/// like; any other byte takes in what is no delimiter and is bonded to the one before.
pub open spec fn extends(
    bytes: Seq<u8>,
    bonds: Seq<u32>,
    threshold: u32,
    limit: nat,
    start: int,
    len: int,
) -> bool {
    &&& start + len < bytes.len()
    &&& len < limit
    &&& if delimiter(bytes[start]) {
        bytes[start + len] == bytes[start]
    } else {
        !delimiter(bytes[start + len]) && !broken(bonds, threshold, start + len - 1)
    }
}

/// The length of the cluster at `start`, from a length on that it has reached.
pub open spec fn grown(
    bytes: Seq<u8>,
    bonds: Seq<u32>,
    threshold: u32,
    limit: nat,
    start: int,
    len: int,
) -> int
    decreases bytes.len() - start - len,
{
    if extends(bytes, bonds, threshold, limit, start, len) {
        grown(bytes, bonds, threshold, limit, start, len + 1)
    } else {
        len
    }
}

/// The cluster at `start`.
pub open spec fn cluster_at(
    bytes: Seq<u8>,
    bonds: Seq<u32>,
    threshold: u32,
    limit: nat,
    start: int,
) -> Cluster {
    Cluster {
        start: start as usize,
        len: grown(bytes, bonds, threshold, limit, start, 1) as usize,
        is_delimiter: delimiter(bytes[start]),
    }
}

/// A cluster has at least one byte, lies within the bytes, and is of one kind.
pub proof fn lemma_grown(
    bytes: Seq<u8>,
    bonds: Seq<u32>,
    threshold: u32,
    limit: nat,
    start: int,
    len: int,
)
    requires
        0 <= start,
        1 <= len,
        start + len <= bytes.len(),
    ensures
        ({
            let reached = grown(bytes, bonds, threshold, limit, start, len);
            &&& len <= reached
            &&& reached <= limit || reached == len
            &&& start + reached <= bytes.len()
            &&& !extends(bytes, bonds, threshold, limit, start, reached)
            &&& forall|k: int|
                len <= k < reached ==> #[trigger] extends(
                    bytes,
                    bonds,
                    threshold,
                    limit,
                    start,
                    k,
                )
        }),
    decreases bytes.len() - start - len,
{
    if extends(bytes, bonds, threshold, limit, start, len) {
        lemma_grown(bytes, bonds, threshold, limit, start, len + 1);
    }
}

/// The clusters of the bytes from `from` on: one behind the other.
pub open spec fn clusters_from(
    bytes: Seq<u8>,
    bonds: Seq<u32>,
    threshold: u32,
    limit: nat,
    from: int,
) -> Seq<Cluster>
    decreases bytes.len() - from,
{
    if from < 0 || from >= bytes.len() {
        Seq::empty()
    } else {
        proof {
            lemma_grown(bytes, bonds, threshold, limit, from, 1);
        }
        seq![cluster_at(bytes, bonds, threshold, limit, from)] + clusters_from(
            bytes,
            bonds,
            threshold,
            limit,
            from + grown(bytes, bonds, threshold, limit, from, 1),
        )
    }
}

/// The clusters of the bytes.
pub open spec fn clusters_of(
    bytes: Seq<u8>,
    bonds: Seq<u32>,
    threshold: u32,
    max_cluster_len: nat,
) -> Seq<Cluster> {
    clusters_from(bytes, bonds, threshold, length_limit(max_cluster_len), 0)
}

/// Partitions bytes into clusters. `bonds` holds the strength of the bond behind each byte but the
/// last, as a bit pattern.
pub fn partition_into_clusters(
    bytes: &[u8],
    bonds: &[u32],
    threshold: u32,
    max_cluster_len: usize,
) -> (clusters: Vec<Cluster>)
    requires
        bytes@.len() <= bonds@.len() + 1,
    ensures
        clusters@ == clusters_of(bytes@, bonds@, threshold, max_cluster_len as nat),
{
    let limit: usize = if max_cluster_len < 1 {
        1
    } else if max_cluster_len > MAX_CLUSTER_LEN {
        MAX_CLUSTER_LEN
    } else {
        max_cluster_len
    };
    let n: usize = bytes.len();
    let mut clusters: Vec<Cluster> = Vec::new();
    let mut i: usize = 0;
    while i < n
        invariant
            i <= n,
            n == bytes@.len(),
            n <= bonds@.len() + 1,
            1 <= limit,
            limit == length_limit(max_cluster_len as nat),
            clusters@ + clusters_from(bytes@, bonds@, threshold, limit as nat, i as int)
                == clusters_of(bytes@, bonds@, threshold, max_cluster_len as nat),
        decreases n - i,
    {
        let first: u8 = bytes[i];
        let separates: bool = is_delimiter_byte(first);
        let mut len: usize = 1;
        let mut growing: bool = true;
        while growing && len < n - i && len < limit
            invariant
                i < n,
                n == bytes@.len(),
                n <= bonds@.len() + 1,
                1 <= len <= n - i,
                len <= limit,
                first == bytes@[i as int],
                separates == delimiter(first),
                growing ==> grown(bytes@, bonds@, threshold, limit as nat, i as int, len as int)
                    == grown(bytes@, bonds@, threshold, limit as nat, i as int, 1),
                !growing ==> len == grown(
                    bytes@,
                    bonds@,
                    threshold,
                    limit as nat,
                    i as int,
                    1,
                ),
            decreases (n - i - len) + if growing {
                1int
            } else {
                0int
            },
        {
            let next: u8 = bytes[i + len];
            let taken: bool = if separates {
                next == first
            } else {
                !is_delimiter_byte(next) && !float_bits::greater(threshold, bonds[i + len - 1])
            };
            if taken {
                len = len + 1;
            } else {
                growing = false;
            }
        }
        assert(len == grown(bytes@, bonds@, threshold, limit as nat, i as int, 1));
        let ghost before = clusters@;
        let cluster: Cluster = Cluster { start: i, len, is_delimiter: separates };
        clusters.push(cluster);
        assert(clusters@ + clusters_from(
            bytes@,
            bonds@,
            threshold,
            limit as nat,
            (i + len) as int,
        ) =~= before + clusters_from(bytes@, bonds@, threshold, limit as nat, i as int));
        i = i + len;
    }
    assert(clusters@ + clusters_from(bytes@, bonds@, threshold, limit as nat, n as int)
        =~= clusters@);
    clusters
}

/// The clusters lie one behind the other and cover the bytes from one position to another.
pub open spec fn tiles(clusters: Seq<Cluster>, from: int, to: int) -> bool
    decreases clusters.len(),
{
    if clusters.len() == 0 {
        from == to
    } else {
        clusters[0].start == from && clusters[0].len >= 1 && tiles(
            clusters.skip(1),
            from + clusters[0].len,
            to,
        )
    }
}

/// What a cluster may be: no longer than the limit; a run of one delimiter, or of bytes that are
/// no delimiters and all bonded.
pub open spec fn sound_cluster(
    bytes: Seq<u8>,
    bonds: Seq<u32>,
    threshold: u32,
    limit: nat,
    cluster: Cluster,
) -> bool {
    &&& 1 <= cluster.len <= limit
    &&& cluster.start + cluster.len <= bytes.len()
    &&& cluster.is_delimiter == delimiter(bytes[cluster.start as int])
    &&& forall|k: int|
        cluster.start < k < cluster.start + cluster.len ==> if cluster.is_delimiter {
            #[trigger] bytes[k] == bytes[cluster.start as int]
        } else {
            !delimiter(bytes[k]) && !broken(bonds, threshold, k - 1)
        }
}

proof fn lemma_cluster_is_sound(
    bytes: Seq<u8>,
    bonds: Seq<u32>,
    threshold: u32,
    limit: nat,
    start: int,
)
    requires
        0 <= start < bytes.len() <= usize::MAX,
        1 <= limit <= usize::MAX,
    ensures
        sound_cluster(
            bytes,
            bonds,
            threshold,
            limit,
            cluster_at(bytes, bonds, threshold, limit, start),
        ),
{
    lemma_grown(bytes, bonds, threshold, limit, start, 1);
    let cluster = cluster_at(bytes, bonds, threshold, limit, start);
    assert forall|k: int|
        cluster.start < k < cluster.start + cluster.len implies if cluster.is_delimiter {
        #[trigger] bytes[k] == bytes[cluster.start as int]
    } else {
        !delimiter(bytes[k]) && !broken(bonds, threshold, k - 1)
    } by {
        assert(extends(bytes, bonds, threshold, limit, start, k - start));
        assert(start + (k - start) == k);
        assert(start + (k - start) - 1 == k - 1);
    }
    assert(cluster.start == start);
    assert(cluster.len == grown(bytes, bonds, threshold, limit, start, 1));
}

proof fn lemma_clusters_from(
    bytes: Seq<u8>,
    bonds: Seq<u32>,
    threshold: u32,
    limit: nat,
    from: int,
)
    requires
        0 <= from <= bytes.len() <= usize::MAX,
        1 <= limit <= usize::MAX,
    ensures
        ({
            let clusters = clusters_from(bytes, bonds, threshold, limit, from);
            &&& tiles(clusters, from, bytes.len() as int)
            &&& forall|i: int|
                0 <= i < clusters.len() ==> sound_cluster(
                    bytes,
                    bonds,
                    threshold,
                    limit,
                    #[trigger] clusters[i],
                )
        }),
    decreases bytes.len() - from,
{
    let clusters = clusters_from(bytes, bonds, threshold, limit, from);
    if from < bytes.len() {
        lemma_grown(bytes, bonds, threshold, limit, from, 1);
        lemma_cluster_is_sound(bytes, bonds, threshold, limit, from);
        let len = grown(bytes, bonds, threshold, limit, from, 1);
        lemma_clusters_from(bytes, bonds, threshold, limit, from + len);
        let rest = clusters_from(bytes, bonds, threshold, limit, from + len);
        assert(clusters.skip(1) =~= rest);
        assert forall|i: int| 0 <= i < clusters.len() implies sound_cluster(
            bytes,
            bonds,
            threshold,
            limit,
            #[trigger] clusters[i],
        ) by {
            if i > 0 {
                assert(clusters[i] == rest[i - 1]);
            }
        }
    }
}

/// Partitioning loses no byte and counts none twice, and every cluster is sound.
pub proof fn law_clusters_partition_the_bytes(
    bytes: Seq<u8>,
    bonds: Seq<u32>,
    threshold: u32,
    max_cluster_len: nat,
)
    requires
        bytes.len() <= usize::MAX,
    ensures
        tiles(
            clusters_of(bytes, bonds, threshold, max_cluster_len),
            0,
            bytes.len() as int,
        ),
        forall|i: int|
            0 <= i < clusters_of(bytes, bonds, threshold, max_cluster_len).len()
                ==> sound_cluster(
                bytes,
                bonds,
                threshold,
                length_limit(max_cluster_len),
                #[trigger] clusters_of(bytes, bonds, threshold, max_cluster_len)[i],
            ),
{
    lemma_clusters_from(bytes, bonds, threshold, length_limit(max_cluster_len), 0);
}

/// Whether a cluster had to end where it does: the bytes end, the limit is reached, or the next
/// byte does not belong to it.
pub open spec fn ends_duly(
    bytes: Seq<u8>,
    bonds: Seq<u32>,
    threshold: u32,
    limit: nat,
    cluster: Cluster,
) -> bool {
    let next = cluster.start + cluster.len;
    ||| next == bytes.len()
    ||| cluster.len == limit
    ||| if cluster.is_delimiter {
        bytes[next] != bytes[cluster.start as int]
    } else {
        delimiter(bytes[next]) || broken(bonds, threshold, next - 1)
    }
}

/// No cluster ends before it has to.
pub proof fn law_clusters_end_duly(
    bytes: Seq<u8>,
    bonds: Seq<u32>,
    threshold: u32,
    limit: nat,
    from: int,
)
    requires
        0 <= from <= bytes.len() <= usize::MAX,
        1 <= limit <= usize::MAX,
    ensures
        forall|i: int|
            0 <= i < clusters_from(bytes, bonds, threshold, limit, from).len() ==> ends_duly(
                bytes,
                bonds,
                threshold,
                limit,
                #[trigger] clusters_from(bytes, bonds, threshold, limit, from)[i],
            ),
    decreases bytes.len() - from,
{
    let clusters = clusters_from(bytes, bonds, threshold, limit, from);
    if from < bytes.len() {
        lemma_grown(bytes, bonds, threshold, limit, from, 1);
        let len = grown(bytes, bonds, threshold, limit, from, 1);
        law_clusters_end_duly(bytes, bonds, threshold, limit, from + len);
        let rest = clusters_from(bytes, bonds, threshold, limit, from + len);
        assert forall|i: int| 0 <= i < clusters.len() implies ends_duly(
            bytes,
            bonds,
            threshold,
            limit,
            #[trigger] clusters[i],
        ) by {
            if i > 0 {
                assert(clusters[i] == rest[i - 1]);
            } else {
                assert(!extends(bytes, bonds, threshold, limit, from, len));
            }
        }
    }
}

} // verus!
