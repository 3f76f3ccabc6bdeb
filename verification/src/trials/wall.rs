//! What a long context costs: where the cache of a transformer comes to lie, and how often its
//! step is measured.

use vstd::prelude::*;

use crate::scaled::config::{CacheLevel, L1D_BYTES, L2_BYTES, L3_BYTES};

verus! {

/// How a cache fills the memory hierarchy.
#[derive(Debug, Clone, Copy, PartialEq, Eq, Structural)]
pub enum CacheStatus {
    /// It leaves room in the first-level cache.
    WithinFirst,
    /// It fills the first-level cache.
    FillsFirst,
    /// It spills into the second-level cache.
    WithinSecond,
    /// It spills into the third-level cache.
    WithinThird,
    /// It spills into main memory.
    Beyond,
}

impl CacheStatus {
    /// How a number of bytes fills the memory hierarchy.
    pub open spec fn of(bytes: nat) -> Self {
        if bytes < L1D_BYTES {
            CacheStatus::WithinFirst
        } else if bytes == L1D_BYTES {
            CacheStatus::FillsFirst
        } else if bytes <= L2_BYTES {
            CacheStatus::WithinSecond
        } else if bytes <= L3_BYTES {
            CacheStatus::WithinThird
        } else {
            CacheStatus::Beyond
        }
    }

    /// The level of the hierarchy that this is a status of.
    pub open spec fn level(self) -> CacheLevel {
        match self {
            CacheStatus::WithinFirst => CacheLevel::L1d,
            CacheStatus::FillsFirst => CacheLevel::L1d,
            CacheStatus::WithinSecond => CacheLevel::L2,
            CacheStatus::WithinThird => CacheLevel::L3,
            CacheStatus::Beyond => CacheLevel::Dram,
        }
    }
}

/// How a number of bytes fills the memory hierarchy.
pub fn cache_status(bytes: usize) -> (status: CacheStatus)
    ensures
        status == CacheStatus::of(bytes as nat),
{
    if bytes < L1D_BYTES {
        CacheStatus::WithinFirst
    } else if bytes == L1D_BYTES {
        CacheStatus::FillsFirst
    } else if bytes <= L2_BYTES {
        CacheStatus::WithinSecond
    } else if bytes <= L3_BYTES {
        CacheStatus::WithinThird
    } else {
        CacheStatus::Beyond
    }
}

/// The status of a footprint lies on the level that holds it.
pub proof fn law_status_lies_on_its_level(bytes: nat)
    ensures
        CacheStatus::of(bytes).level() == CacheLevel::holding(bytes),
{
}

/// How often a step is measured at a length of context.
pub open spec fn rounds_at(context: nat) -> nat {
    if context <= 1024 {
        2000
    } else if context <= 4096 {
        500
    } else if context <= 16384 {
        100
    } else {
        30
    }
}

/// How often a step is measured at a length of context.
pub fn measured_rounds(context: usize) -> (rounds: usize)
    ensures
        rounds == rounds_at(context as nat),
{
    if context <= 1024 {
        2000
    } else if context <= 4096 {
        500
    } else if context <= 16384 {
        100
    } else {
        30
    }
}

/// Longer contexts are measured no more often, and all are measured.
pub proof fn law_rounds_shrink(context: nat, longer: nat)
    requires
        context <= longer,
    ensures
        0 < rounds_at(longer) <= rounds_at(context),
{
}

/// A footprint leaves room in the first-level cache below 32 kilobytes, fills it at exactly that
/// size, and spills by 256 kilobytes and by 20 megabytes.
pub proof fn law_status_goes_by_size(bytes: nat)
    ensures
        CacheStatus::of(bytes) == CacheStatus::WithinFirst <==> bytes < 32 * 1024,
        CacheStatus::of(bytes) == CacheStatus::FillsFirst <==> bytes == 32 * 1024,
        CacheStatus::of(bytes) == CacheStatus::WithinSecond <==> 32 * 1024 < bytes <= 256 * 1024,
        CacheStatus::of(bytes) == CacheStatus::WithinThird <==> 256 * 1024 < bytes <= 20 * 1024
            * 1024,
        CacheStatus::of(bytes) == CacheStatus::Beyond <==> 20 * 1024 * 1024 < bytes,
{
}

/// How often a step is measured changes behind 1024, 4096 and 16384 positions only.
pub proof fn law_rounds_change_at_three_lengths(context: nat)
    ensures
        rounds_at(context) == 2000 <==> context <= 1024,
        rounds_at(context) == 500 <==> 1024 < context <= 4096,
        rounds_at(context) == 100 <==> 4096 < context <= 16384,
        rounds_at(context) == 30 <==> 16384 < context,
{
}

} // verus!
