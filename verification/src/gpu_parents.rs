//! Per-transform parent records, and the stream of changes to them.
//!
//! Re-parenting is rare, so changes arrive as a list of pairs rather than as a
//! bitmask over a capacity-sized staging; a frame without any does no work.

use crate::assets::gpu_store::{growth, Grow};
use crate::growth::{group_count, grow_u32, groups, grown, max_u32};
use crate::gpu_renderers::SCATTER_WORKGROUP_SIZE;
use vstd::prelude::*;

verus! {

/// Parent id of a root transform.
pub const NO_PARENT: u32 = u32::MAX;

/// A dispatch that scatters `update_count` pairs.
#[derive(Clone, Copy, PartialEq, Eq, Structural, Debug)]
pub struct Scatter {
    pub update_count: u32,
    pub groups: u32,
}

/// The parent of every slot after the pairs, in order: of two changes of one
/// slot the later one stands.
pub open spec fn reparented(parents: Seq<u32>, updates: Seq<[u32; 2]>) -> Seq<u32>
    decreases updates.len(),
{
    if updates.len() == 0 {
        parents
    } else {
        reparented(parents, updates.drop_last()).update(
            updates.last()[0] as int,
            updates.last()[1],
        )
    }
}

/// The parent records of a world, as far as the host decides.
pub struct GpuParents {
    pub capacity: u32,
}

impl GpuParents {
    pub open spec fn wf(&self) -> bool {
        self.capacity >= 1
    }

    /// `capacity` transform slots, every one a root.
    pub fn new(capacity: u32) -> (r: Self)
        ensures
            r.wf(),
            r.capacity == if capacity >= 1 {
                capacity
            } else {
                1
            },
    {
        GpuParents { capacity: max_u32(capacity, 1) }
    }

    /// Number of transform slots the buffer can hold.
    pub fn capacity(&self) -> (r: u32)
        ensures
            r == self.capacity,
    {
        self.capacity
    }

    /// Grow to at least `needed` slots: geometric, existing records kept, new
    /// tail filled with roots. Nothing if it fits already.
    pub fn ensure_capacity(&mut self, needed: u32) -> (r: Option<Grow>)
        requires
            old(self).wf(),
        ensures
            final(self).wf(),
            r == growth(old(self).capacity, needed as int, old(self).capacity),
            final(self).capacity == grown(
                old(self).capacity as nat,
                needed as nat,
                u32::MAX as nat,
            ),
    {
        if needed <= self.capacity {
            return None;
        }
        let keep: u32 = self.capacity;
        let new_cap: u32 = grow_u32(keep, needed);
        self.capacity = new_cap;
        Some(Grow { new_cap, keep })
    }

    /// The dispatch that scatters streamed pairs into the buffer; none when
    /// there are no pairs. Capacity must cover every id first.
    pub fn ingest(&self, updates: &Vec<[u32; 2]>) -> (r: Option<Scatter>)
        requires
            updates.len() <= u32::MAX,
            forall|i: int| 0 <= i < updates.len() ==> (#[trigger] updates[i])[0] < self.capacity,
        ensures
            updates.len() == 0 ==> r is None,
            updates.len() > 0 ==> r == Some(
                Scatter {
                    update_count: updates.len() as u32,
                    groups: groups(updates.len() as nat, 64) as u32,
                },
            ),
    {
        if updates.len() == 0 {
            return None;
        }
        let n: u32 = updates.len() as u32;
        Some(Scatter { update_count: n, groups: group_count(n, SCATTER_WORKGROUP_SIZE) })
    }
}

/// A grown buffer: filled with `fill`, then the first `keep` records of the
/// old one copied over.
pub open spec fn migrated(old: Seq<u32>, new_len: nat, keep: nat, fill: u32) -> Seq<u32> {
    Seq::new(
        new_len,
        |i: int|
            if i < keep {
                old[i]
            } else {
                fill
            },
    )
}

/// Growing a buffer of records loses none of them, and every slot that it adds
/// reads as the sentinel.
pub proof fn growth_preserves_records(old: Seq<u32>, cap: u32, needed: u32, fill: u32)
    requires
        old.len() == cap,
        needed > cap,
    ensures
        growth(cap, needed as int, cap) is Some,
        ({
            let g = growth(cap, needed as int, cap)->0;
            let new = migrated(old, g.new_cap as nat, g.keep as nat, fill);
            &&& new.len() >= needed
            &&& new.take(cap as int) == old
            &&& forall|i: int| cap <= i < new.len() ==> new[i] == fill
        }),
{
    let g = growth(cap, needed as int, cap)->0;
    let new = migrated(old, g.new_cap as nat, g.keep as nat, fill);
    assert(new.take(cap as int) =~= old);
}

/// Scattering a frame's pairs touches exactly the slots that they name.
pub proof fn scatter_touches_only_its_slots(parents: Seq<u32>, updates: Seq<[u32; 2]>, slot: int)
    requires
        0 <= slot < parents.len(),
        forall|i: int| 0 <= i < updates.len() ==> (#[trigger] updates[i])[0] < parents.len(),
    ensures
        reparented(parents, updates).len() == parents.len(),
        (forall|i: int| 0 <= i < updates.len() ==> (#[trigger] updates[i])[0] != slot)
            ==> reparented(parents, updates)[slot] == parents[slot],
        updates.len() > 0 && updates.last()[0] == slot ==> reparented(parents, updates)[slot]
            == updates.last()[1],
    decreases updates.len(),
{
    if updates.len() > 0 {
        let rest = updates.drop_last();
        assert forall|i: int| 0 <= i < rest.len() implies (#[trigger] rest[i])[0]
            < parents.len() by {
            assert(rest[i] == updates[i]);
        }
        scatter_touches_only_its_slots(parents, rest, slot);
        assert(updates[updates.len() - 1][0] < parents.len());
        if forall|i: int| 0 <= i < updates.len() ==> (#[trigger] updates[i])[0] != slot {
            assert forall|i: int| 0 <= i < rest.len() implies (#[trigger] rest[i])[0] != slot by {
                assert(rest[i] == updates[i]);
            }
        }
    }
}

} // verus!
