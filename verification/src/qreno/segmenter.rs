//! Segmentation of bytes by the energies of a lattice of bonds.

use vstd::prelude::*;

use crate::float_bits;
use crate::qreno::hamiltonian::Cluster;
use crate::qreno::hamiltonian;

verus! {

/// The bit pattern of -0.15: how far a bond must fall behind the one before it to be a domain wall.
pub const DOMAIN_WALL_BITS: u32 = 0xbe19999a;

/// Parameters of the lattice.
#[derive(Debug, Clone)]
pub struct SshLatticeParams<T> {
    /// Dimension of the field.
    pub field_dim: usize,
    /// Depth of the bond potential.
    pub d_e: T,
    /// Stiffness of the bond potential.
    pub a: T,
    /// Distance at which a bond is strongest.
    pub r_0: T,
    /// Weight of the local mean energy.
    pub alpha_local: T,
    /// Weight of the divergence of charges.
    pub beta_kl: T,
    /// Greatest length of a cluster.
    pub max_cluster_len: usize,
    /// Least length of a cluster that a cut may leave behind.
    pub min_cluster_len: usize,
}

/// Scratch memory of the segmentation.
#[derive(Debug, Clone)]
pub struct SshLatticeWorkspace<T> {
    /// Hopping integrals.
    pub t_bonds: Vec<T>,
    /// Bond energies.
    pub e_bonds: Vec<T>,
    /// Cuts found.
    pub cut_indices: Vec<usize>,
}

impl<T> SshLatticeWorkspace<T> {
    /// Empty scratch memory.
    pub fn new() -> (workspace: Self)
        ensures
            workspace.t_bonds@.len() == 0,
            workspace.e_bonds@.len() == 0,
            workspace.cut_indices@.len() == 0,
    {
        SshLatticeWorkspace { t_bonds: Vec::new(), e_bonds: Vec::new(), cut_indices: Vec::new() }
    }

    /// Empty scratch memory for a number of bonds.
    pub fn with_capacity(capacity: usize) -> (workspace: Self)
        ensures
            workspace.t_bonds@.len() == 0,
            workspace.e_bonds@.len() == 0,
            workspace.cut_indices@.len() == 0,
    {
        SshLatticeWorkspace {
            t_bonds: Vec::with_capacity(capacity),
            e_bonds: Vec::with_capacity(capacity),
            cut_indices: Vec::with_capacity(capacity / 4 + 1),
        }
    }

    /// Empties the scratch memory.
    pub fn clear(&mut self)
        ensures
            final(self).t_bonds@.len() == 0,
            final(self).e_bonds@.len() == 0,
            final(self).cut_indices@.len() == 0,
    {
        self.t_bonds.clear();
        self.e_bonds.clear();
        self.cut_indices.clear();
    }
}

/// What the lattice says of one bond, by bit patterns.
#[derive(Debug, Clone, Copy)]
pub struct BondSignal {
    /// Its hopping integral less that of the bond before.
    pub delta_t: u32,
    /// Its energy.
    pub energy: u32,
    /// The energy below which it is weak.
    pub barrier: u32,
    /// The energy below which it breaks.
    pub floor: u32,
}

/// Whether a byte is ASCII white space.
pub open spec fn ascii_space(b: u8) -> bool {
    b == 0x20 || b == 0x09 || b == 0x0a || b == 0x0c || b == 0x0d
}

/// Whether a byte is ASCII white space.
pub fn is_ascii_space(b: u8) -> (found: bool)
    ensures
        found == ascii_space(b),
{
    matches!(b, 0x20 | 0x09 | 0x0a | 0x0c | 0x0d)
}

/// Whether white space begins or ends behind a byte.
pub open spec fn space_changes(bytes: Seq<u8>, i: int) -> bool {
    ascii_space(bytes[i]) != ascii_space(bytes[i + 1])
}

/// Whether a bond gives way: it falls behind the one before it and is weak, or its energy is below
/// the floor.
pub open spec fn gives_way(signal: BondSignal) -> bool {
    ||| float_bits::at_most(signal.delta_t, DOMAIN_WALL_BITS) && float_bits::exceeds(
        signal.barrier,
        signal.energy,
    )
    ||| float_bits::exceeds(signal.floor, signal.energy)
}

/// Whether the lattice is cut behind byte `i`, where the cluster that ends there has `len` bytes.
/// At the greatest length it always is; else only where the least length is reached and white
/// space changes or, away from both edges, the bond gives way.
pub open spec fn cut_behind(
    bytes: Seq<u8>,
    signals: Seq<BondSignal>,
    max_len: nat,
    min_len: nat,
    i: int,
    len: int,
) -> bool {
    if len >= max_len {
        true
    } else if i == 0 || i + 2 == bytes.len() {
        space_changes(bytes, i) && len >= min_len
    } else {
        (space_changes(bytes, i) || gives_way(signals[i])) && len >= min_len
    }
}

/// The last cut, or the beginning.
pub open spec fn last_cut(cuts: Seq<usize>) -> int {
    if cuts.len() == 0 {
        0
    } else {
        cuts.last() as int
    }
}

/// The cuts at the first `count` bonds.
pub open spec fn cuts_within(
    bytes: Seq<u8>,
    signals: Seq<BondSignal>,
    max_len: nat,
    min_len: nat,
    count: nat,
) -> Seq<usize>
    decreases count,
{
    if count == 0 {
        Seq::empty()
    } else {
        let before = cuts_within(bytes, signals, max_len, min_len, (count - 1) as nat);
        if cut_behind(bytes, signals, max_len, min_len, count - 1, count - last_cut(before)) {
            before.push(count as usize)
        } else {
            before
        }
    }
}

/// The number of bonds.
pub open spec fn bond_count(bytes: Seq<u8>) -> nat {
    if bytes.len() == 0 {
        0
    } else {
        (bytes.len() - 1) as nat
    }
}

/// All bytes of a range are white space.
pub open spec fn all_space(bytes: Seq<u8>, from: int, to: int) -> bool {
    forall|k: int| from <= k < to ==> ascii_space(#[trigger] bytes[k])
}

/// Where the cluster before or behind a cut begins or ends.
pub open spec fn bound(cuts: Seq<usize>, len: nat, k: int) -> int {
    if k <= 0 {
        0
    } else if k <= cuts.len() {
        cuts[k - 1] as int
    } else {
        len as int
    }
}

/// The cluster between two neighbouring cuts.
pub open spec fn segment(bytes: Seq<u8>, cuts: Seq<usize>, k: int) -> Cluster {
    let from = bound(cuts, bytes.len(), k);
    let to = bound(cuts, bytes.len(), k + 1);
    Cluster {
        start: from as usize,
        len: (to - from) as usize,
        is_delimiter: all_space(bytes, from, to),
    }
}

/// The clusters between all cuts.
pub open spec fn segments(bytes: Seq<u8>, cuts: Seq<usize>) -> Seq<Cluster> {
    if bytes.len() == 0 {
        Seq::empty()
    } else {
        Seq::new(cuts.len() + 1, |k: int| segment(bytes, cuts, k))
    }
}

/// Cuts rise strictly from above zero, and lie within the bonds gone through.
pub open spec fn rising(cuts: Seq<usize>, count: nat) -> bool {
    &&& forall|j: int| 0 <= j < cuts.len() ==> 0 < #[trigger] cuts[j] <= count
    &&& forall|j: int, k: int| 0 <= j < k < cuts.len() ==> cuts[j] < cuts[k]
}

proof fn lemma_cuts_rise(
    bytes: Seq<u8>,
    signals: Seq<BondSignal>,
    max_len: nat,
    min_len: nat,
    count: nat,
)
    requires
        count <= usize::MAX,
    ensures
        rising(cuts_within(bytes, signals, max_len, min_len, count), count),
    decreases count,
{
    if count > 0 {
        lemma_cuts_rise(bytes, signals, max_len, min_len, (count - 1) as nat);
    }
}

/// Whether a bond gives way.
fn bond_gives_way(signal: &BondSignal) -> (broken: bool)
    ensures
        broken == gives_way(*signal),
{
    (float_bits::less_or_equal(signal.delta_t, DOMAIN_WALL_BITS) && float_bits::greater(
        signal.barrier,
        signal.energy,
    )) || float_bits::greater(signal.floor, signal.energy)
}

/// Finds the cuts of the lattice.
fn find_cuts(bytes: &[u8], signals: &[BondSignal], max_len: usize, min_len: usize) -> (cuts: Vec<
    usize,
>)
    requires
        bytes@.len() <= signals@.len() + 1,
    ensures
        cuts@ == cuts_within(
            bytes@,
            signals@,
            max_len as nat,
            min_len as nat,
            bond_count(bytes@),
        ),
{
    let mut cuts: Vec<usize> = Vec::new();
    let n: usize = bytes.len();
    if n == 0 {
        return cuts;
    }
    let bonds: usize = n - 1;
    let mut last: usize = 0;
    for i in 0..bonds
        invariant
            bonds == bytes@.len() - 1,
            bytes@.len() <= signals@.len() + 1,
            cuts@ == cuts_within(bytes@, signals@, max_len as nat, min_len as nat, i as nat),
            last == last_cut(cuts@),
            last <= i,
    {
        let len: usize = i + 1 - last;
        let changes: bool = is_ascii_space(bytes[i]) != is_ascii_space(bytes[i + 1]);
        let cut: bool = if len >= max_len {
            true
        } else if i == 0 || i + 1 == bonds {
            changes && len >= min_len
        } else {
            (changes || bond_gives_way(&signals[i])) && len >= min_len
        };
        if cut {
            cuts.push(i + 1);
            last = i + 1;
        }
    }
    cuts
}

/// Whether all bytes of a range are white space.
fn range_is_space(bytes: &[u8], from: usize, to: usize) -> (all: bool)
    requires
        from <= to <= bytes@.len(),
    ensures
        all == all_space(bytes@, from as int, to as int),
{
    for k in from..to
        invariant
            from <= k <= to <= bytes@.len(),
            all_space(bytes@, from as int, k as int),
    {
        if !is_ascii_space(bytes[k]) {
            assert(!ascii_space(bytes@[k as int]));
            return false;
        }
    }
    true
}

/// The clusters of a lattice.
pub open spec fn segments_of(
    bytes: Seq<u8>,
    signals: Seq<BondSignal>,
    max_len: nat,
    min_len: nat,
) -> Seq<Cluster> {
    segments(bytes, cuts_within(bytes, signals, max_len, min_len, bond_count(bytes)))
}

/// Segments bytes by what the lattice says of the bond behind each byte but the last.
pub fn physical_segment(
    bytes: &[u8],
    signals: &[BondSignal],
    max_cluster_len: usize,
    min_cluster_len: usize,
) -> (clusters: Vec<Cluster>)
    requires
        bytes@.len() <= signals@.len() + 1,
    ensures
        clusters@ == segments_of(
            bytes@,
            signals@,
            max_cluster_len as nat,
            min_cluster_len as nat,
        ),
{
    let mut clusters: Vec<Cluster> = Vec::new();
    let n: usize = bytes.len();
    if n == 0 {
        return clusters;
    }
    let cuts: Vec<usize> = find_cuts(bytes, signals, max_cluster_len, min_cluster_len);
    proof {
        lemma_cuts_rise(
            bytes@,
            signals@,
            max_cluster_len as nat,
            min_cluster_len as nat,
            bond_count(bytes@),
        );
    }
    let mut start: usize = 0;
    for k in 0..cuts.len()
        invariant
            n == bytes@.len(),
            n > 0,
            rising(cuts@, (n - 1) as nat),
            start == bound(cuts@, bytes@.len(), k as int),
            clusters@ == Seq::new(k as nat, |j: int| segment(bytes@, cuts@, j)),
    {
        let cut: usize = cuts[k];
        assert(start < cut) by {
            if k > 0 {
                assert(cuts@[k - 1] < cuts@[k as int]);
            }
        }
        let cluster: Cluster = Cluster {
            start,
            len: cut - start,
            is_delimiter: range_is_space(bytes, start, cut),
        };
        clusters.push(cluster);
        assert(cluster == segment(bytes@, cuts@, k as int));
        assert(clusters@ =~= Seq::new((k + 1) as nat, |j: int| segment(bytes@, cuts@, j)));
        start = cut;
    }
    assert(start < n) by {
        if cuts@.len() > 0 {
            assert(cuts@[cuts@.len() - 1] <= n - 1);
        }
    }
    let cluster: Cluster = Cluster {
        start,
        len: n - start,
        is_delimiter: range_is_space(bytes, start, n),
    };
    clusters.push(cluster);
    assert(cluster == segment(bytes@, cuts@, cuts@.len() as int));
    assert(clusters@ =~= segments(bytes@, cuts@));
    clusters
}

proof fn lemma_segments_tile(bytes: Seq<u8>, cuts: Seq<usize>, k: int)
    requires
        0 < bytes.len() <= usize::MAX,
        rising(cuts, bond_count(bytes)),
        0 <= k <= cuts.len() + 1,
    ensures
        hamiltonian::tiles(
            segments(bytes, cuts).skip(k),
            bound(cuts, bytes.len(), k),
            bytes.len() as int,
        ),
    decreases cuts.len() + 1 - k,
{
    let rest = segments(bytes, cuts).skip(k);
    if k <= cuts.len() {
        lemma_segments_tile(bytes, cuts, k + 1);
        assert(rest[0] == segment(bytes, cuts, k));
        assert(rest.skip(1) =~= segments(bytes, cuts).skip(k + 1));
        assert(bound(cuts, bytes.len(), k) < bound(cuts, bytes.len(), k + 1)) by {
            if 0 < k < cuts.len() {
                assert(cuts[k - 1] < cuts[k]);
            } else if k == cuts.len() && k > 0 {
                assert(cuts[k - 1] <= bond_count(bytes));
            }
        }
    }
}

/// Segmentation loses no byte and counts none twice.
pub proof fn law_segments_partition_the_bytes(
    bytes: Seq<u8>,
    signals: Seq<BondSignal>,
    max_len: nat,
    min_len: nat,
)
    requires
        bytes.len() <= usize::MAX,
    ensures
        hamiltonian::tiles(
            segments_of(bytes, signals, max_len, min_len),
            0,
            bytes.len() as int,
        ),
{
    if bytes.len() > 0 {
        let cuts = cuts_within(bytes, signals, max_len, min_len, bond_count(bytes));
        lemma_cuts_rise(bytes, signals, max_len, min_len, bond_count(bytes));
        lemma_segments_tile(bytes, cuts, 0);
        assert(segments(bytes, cuts).skip(0) =~= segments(bytes, cuts));
    }
}

/// The distance from one cut to the next, and from the last one to where the search stands, never
/// exceeds the greatest length.
proof fn lemma_cuts_are_close(
    bytes: Seq<u8>,
    signals: Seq<BondSignal>,
    max_len: nat,
    min_len: nat,
    count: nat,
)
    requires
        max_len >= 1,
        count <= usize::MAX,
    ensures
        ({
            let cuts = cuts_within(bytes, signals, max_len, min_len, count);
            &&& count - last_cut(cuts) < max_len
            &&& forall|k: int|
                0 <= k < cuts.len() ==> #[trigger] bound(cuts, bytes.len(), k + 1) - bound(
                    cuts,
                    bytes.len(),
                    k,
                ) <= max_len
        }),
    decreases count,
{
    if count > 0 {
        let prior = (count - 1) as nat;
        lemma_cuts_are_close(bytes, signals, max_len, min_len, prior);
        let before = cuts_within(bytes, signals, max_len, min_len, prior);
        let cuts = cuts_within(bytes, signals, max_len, min_len, count);
        assert forall|k: int| 0 <= k < cuts.len() implies #[trigger] bound(
            cuts,
            bytes.len(),
            k + 1,
        ) - bound(cuts, bytes.len(), k) <= max_len by {
            if k < before.len() {
                assert(bound(cuts, bytes.len(), k + 1) == bound(before, bytes.len(), k + 1));
                assert(bound(cuts, bytes.len(), k) == bound(before, bytes.len(), k));
            } else {
                assert(bound(cuts, bytes.len(), k) == last_cut(before));
            }
        }
    }
}

/// No cluster is longer than the greatest length.
pub proof fn law_segments_are_bounded(
    bytes: Seq<u8>,
    signals: Seq<BondSignal>,
    max_len: nat,
    min_len: nat,
)
    requires
        max_len >= 1,
        bytes.len() <= usize::MAX,
    ensures
        forall|k: int|
            0 <= k < segments_of(bytes, signals, max_len, min_len).len() ==> 1 <= (
            #[trigger] segments_of(bytes, signals, max_len, min_len)[k]).len <= max_len,
{
    if bytes.len() > 0 {
        let count = bond_count(bytes);
        let cuts = cuts_within(bytes, signals, max_len, min_len, count);
        lemma_cuts_rise(bytes, signals, max_len, min_len, count);
        lemma_cuts_are_close(bytes, signals, max_len, min_len, count);
        let found = segments_of(bytes, signals, max_len, min_len);
        assert forall|k: int| 0 <= k < found.len() implies 1 <= (#[trigger] found[k]).len
            <= max_len by {
            assert(found[k] == segment(bytes, cuts, k));
            let from = bound(cuts, bytes.len(), k);
            let to = bound(cuts, bytes.len(), k + 1);
            if k < cuts.len() {
                assert(to - from <= max_len);
                assert(from < to) by {
                    if k > 0 {
                        assert(cuts[k - 1] < cuts[k]);
                    }
                }
            } else {
                assert(from == last_cut(cuts));
                assert(count - from < max_len);
                assert(to == count + 1);
            }
        }
    }
}

/// Where clusters of one byte are allowed, white space is always cut off from what surrounds it.
pub proof fn law_white_space_is_cut_off(
    bytes: Seq<u8>,
    signals: Seq<BondSignal>,
    max_len: nat,
    min_len: nat,
    i: int,
    count: nat,
)
    requires
        min_len <= 1,
        0 <= i < count <= bond_count(bytes),
        bytes.len() <= usize::MAX,
        space_changes(bytes, i),
    ensures
        cuts_within(bytes, signals, max_len, min_len, count).contains((i + 1) as usize),
    decreases count,
{
    let before = cuts_within(bytes, signals, max_len, min_len, (count - 1) as nat);
    let cuts = cuts_within(bytes, signals, max_len, min_len, count);
    lemma_cuts_rise(bytes, signals, max_len, min_len, (count - 1) as nat);
    if i == count - 1 {
        assert(count - last_cut(before) >= 1) by {
            if before.len() > 0 {
                assert(before[before.len() - 1] <= count - 1);
            }
        }
        assert(cuts[cuts.len() - 1] == (i + 1) as usize);
    } else {
        law_white_space_is_cut_off(bytes, signals, max_len, min_len, i, (count - 1) as nat);
        let j = choose|j: int| 0 <= j < before.len() && before[j] == (i + 1) as usize;
        assert(cuts[j] == before[j]);
    }
}

} // verus!
