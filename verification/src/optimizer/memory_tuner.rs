//! Memory allocation and hugepage alignment optimization.

use crate::model::host::HugepageTier;
use vstd::prelude::*;

verus! {

/// MiB of hugepage memory a tier has free.
pub open spec fn available_mb(t: HugepageTier) -> int {
    (t.free_pages * t.page_size_kb) / 1024
}

/// The tier can back `requested_mb` MiB.
pub open spec fn tier_fits(t: HugepageTier, requested_mb: u64) -> bool {
    available_mb(t) >= requested_mb && t.free_pages > 0
}

/// Index of the first tier from `i` on that can back the request.
pub open spec fn first_tier_from(tiers: Seq<HugepageTier>, requested_mb: u64, i: int) -> Option<int>
    decreases tiers.len() - i,
{
    if i < 0 || i >= tiers.len() {
        None
    } else if tier_fits(tiers[i], requested_mb) {
        Some(i)
    } else {
        first_tier_from(tiers, requested_mb, i + 1)
    }
}

/// The free memory of every tier fits in a `u64` of KiB.
pub open spec fn tiers_in_range(tiers: Seq<HugepageTier>) -> bool {
    forall|i: int| 0 <= i < tiers.len() ==> #[trigger] tiers[i].free_pages * tiers[i].page_size_kb <= u64::MAX
}

pub struct MemoryTuner;

impl MemoryTuner {
    /// Determines whether hugepages should be activated and the optimal page size:
    /// the page size of the first tier with enough free memory for the request.
    pub fn select_hugepages(requested_mb: u64, tiers: &[HugepageTier]) -> (r: (bool, Option<u64>))
        requires
            tiers_in_range(tiers@),
        ensures
            r == (match first_tier_from(tiers@, requested_mb, 0) {
                Some(i) => (true, Some(tiers@[i].page_size_kb)),
                None => (false, None::<u64>),
            }),
            r.0 ==> exists|i: int| 0 <= i < tiers@.len() && tier_fits(tiers@[i], requested_mb)
                && r.1 == Some(tiers@[i].page_size_kb),
            !r.0 ==> forall|i: int| 0 <= i < tiers@.len() ==> !tier_fits(#[trigger] tiers@[i], requested_mb),
    {
        let mut i: usize = 0;
        while i < tiers.len()
            invariant
                i <= tiers@.len(),
                tiers_in_range(tiers@),
                first_tier_from(tiers@, requested_mb, 0) == first_tier_from(tiers@, requested_mb, i as int),
                forall|q: int| 0 <= q < i ==> !tier_fits(#[trigger] tiers@[q], requested_mb),
            decreases tiers.len() - i,
        {
            let tier = &tiers[i];
            assert(tier.free_pages * tier.page_size_kb <= u64::MAX);
            let available = (tier.free_pages * tier.page_size_kb) / 1024;
            if available >= requested_mb && tier.free_pages > 0 {
                return (true, Some(tier.page_size_kb));
            }
            i = i + 1;
        }
        (false, None)
    }
}

} // verus!
