//! Device-side mesh registry: a [`MeshCatalog`] whose every change is replayed
//! into device-local buffers as it happens.

use crate::assets::catalog::{MeshCatalog, Placement};
use crate::assets::gpu_store::{
    growth, plan_growth, Grow, INITIAL_INDEX_CAP, INITIAL_REDIRECT_CAP, INITIAL_TABLE_CAP,
    INITIAL_VERTEX_CAP,
};
use crate::assets::redirect::Flip;
use crate::assets::{
    table_entry, MeshBounds, MeshId, MeshSlot, MeshTableEntry, ERROR, PLACEHOLDER,
};
use crate::growth::{grown, max_u32};
use vstd::arithmetic::power2::{lemma_pow2_strictly_increases, lemma_pow2_unfold, pow2};
use vstd::prelude::*;

verus! {

/// `p` is the least power of two that is at least `n`, and at least one.
pub open spec fn is_next_power_of_two(n: nat, p: nat) -> bool {
    exists|e: nat| p == #[trigger] pow2(e) && n <= p && (e > 0 ==> pow2((e - 1) as nat) < n)
}

/// The least power of two that is at least `n`.
pub fn next_power_of_two(n: u32) -> (p: u32)
    requires
        n <= 0x8000_0000,
    ensures
        is_next_power_of_two(n as nat, p as nat),
        p >= 1,
        p >= n,
        n > 0 ==> p < 2 * n,
        n == 0 ==> p == 1,
        p & ((p - 1) as u32) == 0,
{
    let mut p: u32 = 1;
    let ghost mut e: nat = 0;
    proof {
        vstd::arithmetic::power2::lemma2_to64();
        assert(1u32 & 0u32 == 0) by (bit_vector);
    }
    while p < n
        invariant
            n <= 0x8000_0000,
            p >= 1,
            p == pow2(e),
            e <= 31,
            pow2(31) == 0x8000_0000,
            e > 0 ==> pow2((e - 1) as nat) < n,
            p == 1 || p < 2 * n,
            p & ((p - 1) as u32) == 0,
        decreases 32 - e,
    {
        proof {
            if e >= 31 {
                assert(p == 0x8000_0000);
            }
            vstd::arithmetic::power2::lemma_pow2_unfold(e + 1);
            assert(p & ((p - 1) as u32) == 0 && 1 <= p && p < 0x8000_0000 ==> ((p * 2) as u32) & ((p
                * 2 - 1) as u32) == 0) by (bit_vector);
        }
        p = p * 2;
        proof {
            e = e + 1;
        }
    }
    assert(p == pow2(e));
    p
}

/// How much geometry a mesh has, and its bounding sphere.
#[derive(Clone, Copy)]
pub struct MeshShape {
    pub vertex_count: u32,
    pub index_count: u32,
    pub bounds: MeshBounds,
}

/// What resolving a mesh uploads: its geometry at the placement (empty parts
/// are not copied), its table entry, and its redirect word.
pub struct ResolveUpload {
    pub placement: Placement,
    pub entry: MeshTableEntry,
    pub flip: Flip,
    pub grow_vertex: Option<Grow>,
    pub grow_index: Option<Grow>,
    pub grow_table: Option<Grow>,
    /// Whether a backing buffer grew: what captured it must be rebuilt.
    pub grew: bool,
}

/// The mesh registry, as far as the host decides.
pub struct MeshRegistry {
    pub catalog: MeshCatalog,
    pub vertex_cap: u32,
    pub index_cap: u32,
    pub table_cap: u32,
    pub redirect_cap: u32,
}

impl MeshRegistry {
    pub open spec fn wf(&self) -> bool {
        &&& self.catalog.wf()
        &&& self.catalog@.vertex_used <= self.vertex_cap
        &&& self.catalog@.index_used <= self.index_cap
        &&& self.catalog@.table.len() <= self.table_cap
        &&& self.catalog@.redirect.len() <= self.redirect_cap
        &&& self.catalog@.table.len() >= 2
    }

    /// A registry with the placeholder and the error mesh in the first two
    /// slots. The result also says where the two go; both are uploaded,
    /// table entries included, with the redirect zero-filled.
    pub fn new(placeholder: MeshShape, error: MeshShape) -> (r: (Self, Placement, Placement))
        requires
            placeholder.vertex_count + error.vertex_count <= 0x8000_0000,
            placeholder.index_count + error.index_count <= 0x8000_0000,
        ensures
            r.0.wf(),
            r.0.catalog@.table == seq![
                table_entry(0, 0, placeholder.index_count, placeholder.bounds),
                table_entry(
                    placeholder.vertex_count,
                    placeholder.index_count,
                    error.index_count,
                    error.bounds,
                ),
            ],
            r.0.catalog@.table[0].index_count == placeholder.index_count,
            r.0.catalog@.table[0].first_index == 0,
            r.0.catalog@.table[0].vertex_offset == 0,
            r.0.catalog@.table[0].bounds_center == placeholder.bounds.center,
            r.0.catalog@.table[0].bounds_radius == placeholder.bounds.radius,
            r.0.catalog@.table[1].index_count == error.index_count,
            r.0.catalog@.table[1].first_index == placeholder.index_count,
            r.0.catalog@.table[1].vertex_offset == placeholder.vertex_count as i32,
            r.0.catalog@.table[1].bounds_center == error.bounds.center,
            r.0.catalog@.table[1].bounds_radius == error.bounds.radius,
            r.1.slot == MeshSlot(0),
            r.2.slot == MeshSlot(1),
            r.0.catalog@.redirect.len() == 0,
            r.0.catalog@.by_hash == Map::<u64, MeshId>::empty(),
            r.0.catalog@.vertex_used == placeholder.vertex_count + error.vertex_count,
            r.0.catalog@.index_used == placeholder.index_count + error.index_count,
            r.1 == (Placement {
                slot: MeshSlot(PLACEHOLDER),
                vertex_offset: 0,
                first_index: 0,
                index_count: placeholder.index_count,
            }),
            r.2 == (Placement {
                slot: MeshSlot(ERROR),
                vertex_offset: placeholder.vertex_count,
                first_index: placeholder.index_count,
                index_count: error.index_count,
            }),
            r.0.table_cap == INITIAL_TABLE_CAP,
            r.0.redirect_cap == INITIAL_REDIRECT_CAP,
            r.0.vertex_cap >= placeholder.vertex_count + error.vertex_count,
            r.0.index_cap >= placeholder.index_count + error.index_count,
            r.0.vertex_cap == 4096 || r.0.vertex_cap < 2 * (placeholder.vertex_count
                + error.vertex_count),
            r.0.index_cap == 8192 || r.0.index_cap < 2 * (placeholder.index_count
                + error.index_count),
            r.0.vertex_cap >= INITIAL_VERTEX_CAP,
            r.0.index_cap >= INITIAL_INDEX_CAP,
            r.0.vertex_cap > INITIAL_VERTEX_CAP ==> is_next_power_of_two(
                (placeholder.vertex_count + error.vertex_count) as nat,
                r.0.vertex_cap as nat,
            ),
            r.0.index_cap > INITIAL_INDEX_CAP ==> is_next_power_of_two(
                (placeholder.index_count + error.index_count) as nat,
                r.0.index_cap as nat,
            ),
    {
        let need_v: u32 = placeholder.vertex_count + error.vertex_count;
        let need_i: u32 = placeholder.index_count + error.index_count;
        let vertex_cap: u32 = max_u32(INITIAL_VERTEX_CAP, next_power_of_two(need_v));
        let index_cap: u32 = max_u32(INITIAL_INDEX_CAP, next_power_of_two(need_i));
        let mut catalog = MeshCatalog::new();
        let ph = catalog.alloc_slot(
            placeholder.vertex_count,
            placeholder.index_count,
            placeholder.bounds.center,
            placeholder.bounds.radius,
        );
        let er = catalog.alloc_slot(
            error.vertex_count,
            error.index_count,
            error.bounds.center,
            error.bounds.radius,
        );
        assert(catalog@.table =~= seq![
            table_entry(0, 0, placeholder.index_count, placeholder.bounds),
            table_entry(
                placeholder.vertex_count,
                placeholder.index_count,
                error.index_count,
                error.bounds,
            ),
        ]);
        (
            MeshRegistry {
                catalog,
                vertex_cap,
                index_cap,
                table_cap: INITIAL_TABLE_CAP,
                redirect_cap: INITIAL_REDIRECT_CAP,
            },
            ph,
            er,
        )
    }

    /// Deduped request for a path, by its hash: the stable id, whether a load
    /// must be started, and the redirect growth that a new id may need. A new
    /// id resolves to the placeholder through the zero-filled redirect, so
    /// nothing else is written.
    pub fn request(&mut self, hash: u64) -> (r: (MeshId, bool, Option<Grow>))
        requires
            old(self).wf(),
            !old(self).catalog@.by_hash.contains_key(hash) ==> old(self).catalog@.redirect.len()
                < u32::MAX,
            old(self).catalog@.by_hash.contains_key(hash) ==> old(self).catalog@.refcount[old(
                self,
            ).catalog@.by_hash[hash].0 as int] < u32::MAX,
        ensures
            final(self).wf(),
            (r.0, r.1) == old(self).catalog@.answer(hash),
            final(self).catalog@ == old(self).catalog@.requested(hash),
            r.2 == if r.1 {
                growth(
                    old(self).redirect_cap,
                    (old(self).catalog@.redirect.len() + 1) as int,
                    old(self).catalog@.redirect.len() as u32,
                )
            } else {
                None
            },
            final(self).redirect_cap == if r.2 is Some {
                r.2->0.new_cap
            } else {
                old(self).redirect_cap
            },
            final(self).vertex_cap == old(self).vertex_cap,
            final(self).index_cap == old(self).index_cap,
            final(self).table_cap == old(self).table_cap,
    {
        let old_ids: u32 = self.catalog.mesh_id_count();
        let (id, needs_load) = self.catalog.request(hash);
        if !needs_load {
            return (id, needs_load, None);
        }
        let (grow, cap) = plan_growth(self.redirect_cap, self.catalog.mesh_id_count(), old_ids);
        self.redirect_cap = cap;
        (id, needs_load, grow)
    }

    /// A load finished: place the geometry, grow what it does not fit, and
    /// point the id at its slot.
    pub fn resolve(&mut self, id: MeshId, mesh: MeshShape) -> (r: ResolveUpload)
        requires
            old(self).wf(),
            old(self).catalog@.has(id),
            old(self).catalog@.table.len() < u32::MAX,
            old(self).catalog@.vertex_used + mesh.vertex_count <= u32::MAX,
            old(self).catalog@.index_used + mesh.index_count <= u32::MAX,
        ensures
            final(self).wf(),
            ({
                let m0 = old(self).catalog@;
                let m1 = m0.with_slot(mesh.vertex_count, mesh.index_count, mesh.bounds);
                &&& final(self).catalog@ == m1.redirected(id, r.placement.slot)
                &&& r.placement == m0.next_placement(mesh.index_count)
                &&& r.entry == table_entry(
                    m0.vertex_used,
                    m0.index_used,
                    mesh.index_count,
                    mesh.bounds,
                )
                &&& r.entry.index_count == mesh.index_count
                &&& r.entry.first_index == r.placement.first_index
                &&& r.entry.vertex_offset == r.placement.vertex_offset as i32
                &&& r.entry.bounds_center == mesh.bounds.center
                &&& r.entry.bounds_radius == mesh.bounds.radius
                &&& r.placement.slot.0 == m0.table.len()
                &&& r.placement.vertex_offset == m0.vertex_used
                &&& r.placement.first_index == m0.index_used
                &&& r.placement.index_count == mesh.index_count
                &&& final(self).catalog@.table.last() == r.entry
                &&& final(self).catalog@.redirect[id.0 as int] == r.placement.slot
                &&& r.flip == (Flip { id: id.0, slot: r.placement.slot.0 })
                &&& r.grow_vertex is Some <==> m0.vertex_used + mesh.vertex_count
                    > old(self).vertex_cap
                &&& r.grow_index is Some <==> m0.index_used + mesh.index_count
                    > old(self).index_cap
                &&& r.grow_table is Some <==> m0.table.len() + 1 > old(self).table_cap
                &&& r.grow_vertex == growth(
                    old(self).vertex_cap,
                    m1.vertex_used as int,
                    m0.vertex_used,
                )
                &&& r.grow_index == growth(
                    old(self).index_cap,
                    m1.index_used as int,
                    m0.index_used,
                )
                &&& r.grow_table == growth(
                    old(self).table_cap,
                    (m0.table.len() + 1) as int,
                    m0.table.len() as u32,
                )
                &&& r.grew == (r.grow_vertex is Some || r.grow_index is Some
                    || r.grow_table is Some)
                &&& final(self).vertex_cap == grown(
                    old(self).vertex_cap as nat,
                    m1.vertex_used as nat,
                    u32::MAX as nat,
                )
                &&& final(self).index_cap == grown(
                    old(self).index_cap as nat,
                    m1.index_used as nat,
                    u32::MAX as nat,
                )
                &&& final(self).table_cap == grown(
                    old(self).table_cap as nat,
                    (m0.table.len() + 1) as nat,
                    u32::MAX as nat,
                )
                &&& final(self).redirect_cap == old(self).redirect_cap
            }),
    {
        let old_v: u32 = self.catalog.vertex_used();
        let old_i: u32 = self.catalog.index_used();
        let old_slots: u32 = self.catalog.slot_count();
        let placement = self.catalog.resolve(
            id,
            mesh.vertex_count,
            mesh.index_count,
            mesh.bounds.center,
            mesh.bounds.radius,
        );
        let (grow_vertex, vertex_cap) = plan_growth(
            self.vertex_cap,
            self.catalog.vertex_used(),
            old_v,
        );
        let (grow_index, index_cap) = plan_growth(
            self.index_cap,
            self.catalog.index_used(),
            old_i,
        );
        let (grow_table, table_cap) = plan_growth(
            self.table_cap,
            self.catalog.slot_count(),
            old_slots,
        );
        self.vertex_cap = vertex_cap;
        self.index_cap = index_cap;
        self.table_cap = table_cap;
        let entry: MeshTableEntry = self.catalog.table()[placement.slot.0 as usize];
        ResolveUpload {
            placement,
            entry,
            flip: Flip { id: id.0, slot: placement.slot.0 },
            grow_vertex,
            grow_index,
            grow_table,
            grew: grow_vertex.is_some() || grow_index.is_some() || grow_table.is_some(),
        }
    }

    /// A load failed: point the id at the error slot, which is resident
    /// already. The result is the one word to write.
    pub fn fail(&mut self, id: MeshId) -> (r: Flip)
        requires
            old(self).wf(),
            old(self).catalog@.has(id),
        ensures
            final(self).wf(),
            r == (Flip { id: id.0, slot: ERROR }),
            final(self).catalog@ == old(self).catalog@.redirected(id, MeshSlot(ERROR)),
            final(self).vertex_cap == old(self).vertex_cap,
            final(self).index_cap == old(self).index_cap,
            final(self).table_cap == old(self).table_cap,
            final(self).redirect_cap == old(self).redirect_cap,
    {
        self.catalog.fail(id);
        Flip { id: id.0, slot: ERROR }
    }

    /// Drop one reference to an id.
    pub fn release(&mut self, id: MeshId)
        requires
            old(self).wf(),
            old(self).catalog@.has(id),
        ensures
            final(self).wf(),
            final(self).catalog@ == old(self).catalog@.released(id),
            final(self).vertex_cap == old(self).vertex_cap,
            final(self).index_cap == old(self).index_cap,
            final(self).table_cap == old(self).table_cap,
            final(self).redirect_cap == old(self).redirect_cap,
    {
        self.catalog.release(id);
    }

    /// Number of drawable slots.
    pub fn slot_count(&self) -> (r: u32)
        requires
            self.wf(),
        ensures
            r == self.catalog@.table.len(),
    {
        self.catalog.slot_count()
    }

    /// Number of allocated ids.
    pub fn mesh_id_count(&self) -> (r: u32)
        requires
            self.wf(),
        ensures
            r == self.catalog@.redirect.len(),
    {
        self.catalog.mesh_id_count()
    }

    /// Current drawable slot an id resolves to.
    pub fn redirect_of(&self, id: MeshId) -> (r: MeshSlot)
        requires
            self.wf(),
            self.catalog@.has(id),
        ensures
            r == self.catalog@.redirect[id.0 as int],
    {
        self.catalog.redirect_of(id)
    }
}

/// A number has one least power of two that is not below it, and that is less
/// than twice the number.
pub proof fn the_next_power_is_the_least(n: nat, p: nat, q: nat)
    requires
        is_next_power_of_two(n, p),
        is_next_power_of_two(n, q),
    ensures
        p == q,
        p >= n,
        n >= 1 ==> p < 2 * n,
        p >= 1,
        exists|e: nat| p == #[trigger] pow2(e),
{
    let e = choose|e: nat|
        p == #[trigger] pow2(e) && n <= p && (e > 0 ==> pow2((e - 1) as nat) < n);
    let d = choose|e: nat|
        q == #[trigger] pow2(e) && n <= q && (e > 0 ==> pow2((e - 1) as nat) < n);
    vstd::arithmetic::power2::lemma2_to64();
    vstd::arithmetic::power2::lemma_pow2_pos(e);
    if e > 0 {
        lemma_pow2_unfold(e);
    }
    if e < d {
        if e < d - 1 {
            lemma_pow2_strictly_increases(e, (d - 1) as nat);
        }
    } else if d < e {
        if d < e - 1 {
            lemma_pow2_strictly_increases(d, (e - 1) as nat);
        }
    }
}

} // verus!
