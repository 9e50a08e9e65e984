//! Pure-CPU mesh bookkeeping: the source of truth that the GPU mirrors track.

use crate::assets::{
    make_table_entry, table_entry, vertex_offset_round_trips, MeshBounds, MeshId, MeshSlot,
    MeshTableEntry, ERROR, PLACEHOLDER,
};
use std::collections::HashMap;
use vstd::prelude::*;

verus! {

broadcast use vstd::std_specs::hash::group_hash_axioms;

/// Where a mesh's geometry was placed in the mega vertex and index buffers,
/// and the drawable slot that now describes it.
#[derive(Clone, Copy, Debug, PartialEq, Eq, Structural)]
pub struct Placement {
    /// The drawable slot allocated for this mesh.
    pub slot: MeshSlot,
    /// First vertex of this mesh in the mega vertex buffer.
    pub vertex_offset: u32,
    /// First index of this mesh in the mega index buffer.
    pub first_index: u32,
    /// Number of indices.
    pub index_count: u32,
}

/// What a catalog knows.
pub ghost struct CatalogModel {
    /// Path hash to the id allocated for it.
    pub by_hash: Map<u64, MeshId>,
    /// Per id, the slot it resolves to.
    pub redirect: Seq<MeshSlot>,
    /// Per id, how many requests hold it.
    pub refcount: Seq<u32>,
    /// Per slot, its table entry.
    pub table: Seq<MeshTableEntry>,
    /// Per slot, how many vertices its mesh has.
    pub vertex_counts: Seq<u32>,
    /// Vertices and indices appended so far.
    pub vertex_used: u32,
    pub index_used: u32,
}

/// The sum of the first `n` counts.
pub open spec fn sum_of(counts: Seq<u32>, n: nat) -> nat
    decreases n,
{
    if n == 0 {
        0
    } else {
        sum_of(counts, (n - 1) as nat) + counts[n - 1] as nat
    }
}

impl CatalogModel {
    /// Per slot, how many indices its mesh has.
    pub open spec fn index_counts(self) -> Seq<u32> {
        Seq::new(self.table.len(), |s: int| self.table[s].index_count)
    }

    /// The slots tile the mega buffers: each one's geometry starts where that
    /// of all slots before it ends, and the cursors stand behind the last.
    pub open spec fn tiled(self) -> bool {
        &&& self.vertex_counts.len() == self.table.len()
        &&& forall|s: int|
            0 <= s < self.table.len() ==> (#[trigger] self.table[s]).vertex_offset as u32
                == sum_of(self.vertex_counts, s as nat) && self.table[s].first_index == sum_of(
                self.index_counts(),
                s as nat,
            )
        &&& self.vertex_used == sum_of(self.vertex_counts, self.table.len())
        &&& self.index_used == sum_of(self.index_counts(), self.table.len())
    }

    /// The catalog with a slot appended for `vertex_count` vertices and
    /// `index_count` indices.
    pub open spec fn with_slot(
        self,
        vertex_count: u32,
        index_count: u32,
        bounds: MeshBounds,
    ) -> CatalogModel {
        CatalogModel {
            table: self.table.push(
                table_entry(self.vertex_used, self.index_used, index_count, bounds),
            ),
            vertex_counts: self.vertex_counts.push(vertex_count),
            vertex_used: (self.vertex_used + vertex_count) as u32,
            index_used: (self.index_used + index_count) as u32,
            ..self
        }
    }

    /// Where that slot lies.
    pub open spec fn next_placement(self, index_count: u32) -> Placement {
        Placement {
            slot: MeshSlot(self.table.len() as u32),
            vertex_offset: self.vertex_used,
            first_index: self.index_used,
            index_count,
        }
    }

    /// The catalog with `id` resolving to `slot`.
    pub open spec fn redirected(self, id: MeshId, slot: MeshSlot) -> CatalogModel {
        CatalogModel { redirect: self.redirect.update(id.0 as int, slot), ..self }
    }

    /// The id and load flag that a request for `hash` is answered with.
    pub open spec fn answer(self, hash: u64) -> (MeshId, bool) {
        if self.by_hash.contains_key(hash) {
            (self.by_hash[hash], false)
        } else {
            (MeshId(self.redirect.len() as u32), true)
        }
    }

    /// The catalog after a request for `hash`.
    pub open spec fn requested(self, hash: u64) -> CatalogModel {
        if self.by_hash.contains_key(hash) {
            self.retained(self.by_hash[hash])
        } else {
            CatalogModel {
                by_hash: self.by_hash.insert(hash, MeshId(self.redirect.len() as u32)),
                redirect: self.redirect.push(MeshSlot(PLACEHOLDER)),
                refcount: self.refcount.push(1),
                ..self
            }
        }
    }

    /// The catalog with one more reference to `id`.
    pub open spec fn retained(self, id: MeshId) -> CatalogModel {
        let at = id.0 as int;
        CatalogModel { refcount: self.refcount.update(at, (self.refcount[at] + 1) as u32), ..self }
    }

    /// The catalog with one reference to `id` less, if there is one.
    pub open spec fn released(self, id: MeshId) -> CatalogModel {
        let at = id.0 as int;
        CatalogModel {
            refcount: self.refcount.update(
                at,
                if self.refcount[at] > 0 {
                    (self.refcount[at] - 1) as u32
                } else {
                    0u32
                },
            ),
            ..self
        }
    }

    /// An id that was handed out.
    pub open spec fn has(self, id: MeshId) -> bool {
        id.0 < self.redirect.len()
    }
}

/// CPU mirror of the asset registry's state.
pub struct MeshCatalog {
    /// Dedup cache: path hash to the id already allocated for it.
    by_hash: HashMap<u64, MeshId>,
    redirect: Vec<MeshSlot>,
    refcount: Vec<u32>,
    /// One entry per drawable slot.
    table: Vec<MeshTableEntry>,
    /// Per slot, how many vertices its mesh has: the table does not say.
    vertex_counts: Ghost<Seq<u32>>,
    /// Running append cursors into the mega buffers.
    vertex_used: u32,
    index_used: u32,
}

impl View for MeshCatalog {
    type V = CatalogModel;

    closed spec fn view(&self) -> CatalogModel {
        CatalogModel {
            by_hash: self.by_hash@,
            redirect: self.redirect@,
            refcount: self.refcount@,
            table: self.table@,
            vertex_counts: self.vertex_counts@,
            vertex_used: self.vertex_used,
            index_used: self.index_used,
        }
    }
}

impl MeshCatalog {
    /// Ids are dense, slots tile the mega buffers, and an id belongs to exactly
    /// one hash, as long as there are no more ids than 32 bits can tell apart.
    pub open spec fn wf(&self) -> bool {
        let m = self@;
        &&& m.refcount.len() == m.redirect.len()
        &&& m.tiled()
        &&& forall|h: u64| #[trigger]
            m.by_hash.contains_key(h) ==> m.by_hash[h].0 < m.redirect.len()
        &&& m.redirect.len() <= 0x1_0000_0000 ==> forall|g: u64, h: u64|
            #![trigger m.by_hash[g], m.by_hash[h]]
            m.by_hash.contains_key(g) && m.by_hash.contains_key(h) && m.by_hash[g] == m.by_hash[h]
                ==> g == h
    }

    /// Empty catalog: no reserved slots yet. Two calls of
    /// [`alloc_slot`](Self::alloc_slot) install the placeholder and the error
    /// mesh.
    pub fn new() -> (r: Self)
        ensures
            r.wf(),
            r@ == (CatalogModel {
                by_hash: Map::empty(),
                redirect: Seq::empty(),
                refcount: Seq::empty(),
                table: Seq::empty(),
                vertex_counts: Seq::empty(),
                vertex_used: 0,
                index_used: 0,
            }),
    {
        let r = MeshCatalog {
            by_hash: HashMap::new(),
            redirect: Vec::new(),
            refcount: Vec::new(),
            table: Vec::new(),
            vertex_counts: Ghost(Seq::empty()),
            vertex_used: 0,
            index_used: 0,
        };
        assert(r@.by_hash =~= Map::<u64, MeshId>::empty());
        r
    }

    /// Allocate the next drawable slot for this much geometry, advancing the
    /// mega-buffer cursors and recording the slot's table entry. The result
    /// says where the geometry must be uploaded.
    pub fn alloc_slot(
        &mut self,
        vertex_count: u32,
        index_count: u32,
        bounds_center: [u32; 3],
        bounds_radius: u32,
    ) -> (r: Placement)
        requires
            old(self).wf(),
            old(self)@.vertex_used + vertex_count <= u32::MAX,
            old(self)@.index_used + index_count <= u32::MAX,
        ensures
            final(self).wf(),
            r == old(self)@.next_placement(index_count),
            final(self)@ == old(self)@.with_slot(
                vertex_count,
                index_count,
                (MeshBounds { center: bounds_center, radius: bounds_radius }),
            ),
            final(self)@.table.len() == old(self)@.table.len() + 1,
            final(self)@.table.last().index_count == index_count,
            final(self)@.table.last().first_index == r.first_index,
            final(self)@.table.last().vertex_offset == r.vertex_offset as i32,
            final(self)@.table.last().bounds_center == bounds_center,
            final(self)@.table.last().bounds_radius == bounds_radius,
            r.slot.0 == old(self)@.table.len() as u32,
            r.vertex_offset == old(self)@.vertex_used,
            r.first_index == old(self)@.index_used,
            r.index_count == index_count,
            final(self)@.vertex_used == old(self)@.vertex_used + vertex_count,
            final(self)@.index_used == old(self)@.index_used + index_count,
    {
        let ghost before = self@;
        let slot = MeshSlot(self.slot_count());
        let vertex_offset: u32 = self.vertex_used;
        let first_index: u32 = self.index_used;
        self.vertex_used = self.vertex_used + vertex_count;
        self.index_used = self.index_used + index_count;
        self.table.push(
            make_table_entry(
                vertex_offset,
                first_index,
                index_count,
                MeshBounds { center: bounds_center, radius: bounds_radius },
            ),
        );
        proof {
            self.vertex_counts@ = self.vertex_counts@.push(vertex_count);
            lemma_appended_tiles(
                before,
                vertex_count,
                index_count,
                MeshBounds { center: bounds_center, radius: bounds_radius },
            );
        }
        assert(self@.by_hash == before.by_hash);
        Placement { slot, vertex_offset, first_index, index_count }
    }

    /// Deduped request keyed by a path hash. A hash seen for the first time
    /// gets a new id, which resolves to the placeholder, and needs a load; one
    /// seen before gets its id again, with one more reference.
    pub fn request(&mut self, hash: u64) -> (r: (MeshId, bool))
        requires
            old(self).wf(),
            old(self)@.by_hash.contains_key(hash) ==> old(self)@.refcount[old(
                self,
            )@.by_hash[hash].0 as int] < u32::MAX,
        ensures
            final(self).wf(),
            r == old(self)@.answer(hash),
            final(self)@ == old(self)@.requested(hash),
            r.1 <==> !old(self)@.by_hash.contains_key(hash),
            !r.1 ==> r.0 == old(self)@.by_hash[hash],
            r.1 ==> final(self)@.redirect == old(self)@.redirect.push(MeshSlot(0)),
            r.1 ==> final(self)@.refcount == old(self)@.refcount.push(1),
            !r.1 ==> final(self)@.redirect == old(self)@.redirect,
            final(self)@.by_hash.contains_key(hash) && final(self)@.by_hash[hash] == r.0,
            final(self)@.table == old(self)@.table,
    {
        let ghost before = self@;
        if let Some(id) = self.by_hash.get(&hash) {
            let id: MeshId = *id;
            let at: usize = id.0 as usize;
            let rc: u32 = self.refcount[at];
            self.refcount.set(at, rc + 1);
            return (id, false);
        }
        let id = MeshId(self.mesh_id_count());
        self.redirect.push(MeshSlot(PLACEHOLDER));
        self.refcount.push(1);
        self.by_hash.insert(hash, id);
        assert(self@.by_hash =~= before.requested(hash).by_hash);
        (id, true)
    }

    /// A load finished: allocate a drawable slot for the geometry and repoint
    /// the id at it.
    pub fn resolve(
        &mut self,
        id: MeshId,
        vertex_count: u32,
        index_count: u32,
        bounds_center: [u32; 3],
        bounds_radius: u32,
    ) -> (r: Placement)
        requires
            old(self).wf(),
            old(self)@.has(id),
            old(self)@.vertex_used + vertex_count <= u32::MAX,
            old(self)@.index_used + index_count <= u32::MAX,
        ensures
            final(self).wf(),
            r == old(self)@.next_placement(index_count),
            final(self)@ == old(self)@.with_slot(
                vertex_count,
                index_count,
                (MeshBounds { center: bounds_center, radius: bounds_radius }),
            ).redirected(id, r.slot),
            final(self)@.table.len() == old(self)@.table.len() + 1,
            final(self)@.table.last().index_count == index_count,
            final(self)@.table.last().first_index == r.first_index,
            final(self)@.table.last().vertex_offset == r.vertex_offset as i32,
            final(self)@.table.last().bounds_center == bounds_center,
            final(self)@.table.last().bounds_radius == bounds_radius,
            r.slot.0 == old(self)@.table.len() as u32,
            r.vertex_offset == old(self)@.vertex_used,
            r.first_index == old(self)@.index_used,
            r.index_count == index_count,
            final(self)@.vertex_used == old(self)@.vertex_used + vertex_count,
            final(self)@.index_used == old(self)@.index_used + index_count,
            final(self)@.redirect[id.0 as int] == r.slot,
    {
        let placement = self.alloc_slot(vertex_count, index_count, bounds_center, bounds_radius);
        self.redirect.set(id.0 as usize, placement.slot);
        placement
    }

    /// A load failed: point the id at the error slot.
    pub fn fail(&mut self, id: MeshId)
        requires
            old(self).wf(),
            old(self)@.has(id),
        ensures
            final(self).wf(),
            final(self)@ == old(self)@.redirected(id, MeshSlot(ERROR)),
            final(self)@.redirect[id.0 as int] == MeshSlot(1),
            final(self)@.redirect.len() == old(self)@.redirect.len(),
            forall|i: int|
                0 <= i < old(self)@.redirect.len() && i != id.0 ==> final(self)@.redirect[i]
                    == old(self)@.redirect[i],
    {
        let ghost before = self@;
        self.redirect.set(id.0 as usize, MeshSlot(ERROR));
        assert(self@.by_hash == before.by_hash);
    }

    /// Add one reference, without going by the path.
    pub fn retain(&mut self, id: MeshId)
        requires
            old(self).wf(),
            old(self)@.has(id),
            old(self)@.refcount[id.0 as int] < u32::MAX,
        ensures
            final(self).wf(),
            final(self)@ == old(self)@.retained(id),
    {
        let ghost before = self@;
        let rc: u32 = self.refcount[id.0 as usize];
        self.refcount.set(id.0 as usize, rc + 1);
        assert(self@.by_hash == before.by_hash);
    }

    /// Drop one reference. Slots are not reclaimed: the mega buffers are
    /// append-only, so this only adjusts the count, which stays at zero once
    /// it is there.
    pub fn release(&mut self, id: MeshId)
        requires
            old(self).wf(),
            old(self)@.has(id),
        ensures
            final(self).wf(),
            final(self)@ == old(self)@.released(id),
    {
        let ghost before = self@;
        let rc: u32 = self.refcount[id.0 as usize];
        self.refcount.set(id.0 as usize, rc.saturating_sub(1));
        assert(self@.by_hash == before.by_hash);
    }

    /// Current drawable slot an id resolves to.
    pub fn redirect_of(&self, id: MeshId) -> (r: MeshSlot)
        requires
            self.wf(),
            self@.has(id),
        ensures
            r == self@.redirect[id.0 as int],
    {
        self.redirect[id.0 as usize]
    }

    /// The full redirect mirror.
    pub fn redirect(&self) -> (r: &[MeshSlot])
        ensures
            r@ == self@.redirect,
    {
        self.redirect.as_slice()
    }

    /// The full drawable-slot table.
    pub fn table(&self) -> (r: &[MeshTableEntry])
        ensures
            r@ == self@.table,
    {
        self.table.as_slice()
    }

    /// Number of drawable slots.
    pub fn slot_count(&self) -> (r: u32)
        ensures
            r == self@.table.len() as u32,
    {
        #[verifier::truncate]
        (self.table.len() as u32)
    }

    /// Number of allocated ids.
    pub fn mesh_id_count(&self) -> (r: u32)
        ensures
            r == self@.redirect.len() as u32,
    {
        #[verifier::truncate]
        (self.redirect.len() as u32)
    }

    /// Vertices appended to the mega vertex buffer so far.
    pub fn vertex_used(&self) -> (r: u32)
        ensures
            r == self@.vertex_used,
    {
        self.vertex_used
    }

    /// Indices appended to the mega index buffer so far.
    pub fn index_used(&self) -> (r: u32)
        ensures
            r == self@.index_used,
    {
        self.index_used
    }

    /// Reference count of an id.
    pub fn refcount_of(&self, id: MeshId) -> (r: u32)
        requires
            self.wf(),
            self@.has(id),
        ensures
            r == self@.refcount[id.0 as int],
    {
        self.refcount[id.0 as usize]
    }
}

impl Default for MeshCatalog {
    fn default() -> (r: Self)
        ensures
            r.wf(),
            r@ == (CatalogModel {
                by_hash: Map::empty(),
                redirect: Seq::empty(),
                refcount: Seq::empty(),
                table: Seq::empty(),
                vertex_counts: Seq::empty(),
                vertex_used: 0,
                index_used: 0,
            }),
    {
        MeshCatalog::new()
    }
}

proof fn lemma_same_sums(a: Seq<u32>, b: Seq<u32>, n: nat)
    requires
        n <= a.len(),
        n <= b.len(),
        forall|i: int| 0 <= i < n ==> a[i] == b[i],
    ensures
        sum_of(a, n) == sum_of(b, n),
    decreases n,
{
    if n > 0 {
        lemma_same_sums(a, b, (n - 1) as nat);
    }
}

proof fn lemma_sums_grow(counts: Seq<u32>, j: nat, n: nat)
    requires
        j <= n,
    ensures
        sum_of(counts, j) <= sum_of(counts, n),
    decreases n - j,
{
    if j < n {
        lemma_sums_grow(counts, j, (n - 1) as nat);
    }
}

proof fn lemma_appended_tiles(
    m: CatalogModel,
    vertex_count: u32,
    index_count: u32,
    bounds: MeshBounds,
)
    requires
        m.tiled(),
        m.vertex_used + vertex_count <= u32::MAX,
        m.index_used + index_count <= u32::MAX,
    ensures
        m.with_slot(vertex_count, index_count, bounds).tiled(),
{
    let n = m.with_slot(vertex_count, index_count, bounds);
    let len = m.table.len();
    vertex_offset_round_trips(m.vertex_used);
    lemma_same_sums(m.vertex_counts, n.vertex_counts, len);
    lemma_same_sums(m.index_counts(), n.index_counts(), len);
    assert forall|s: int| 0 <= s < n.table.len() implies (#[trigger] n.table[s]).vertex_offset
        as u32 == sum_of(n.vertex_counts, s as nat) && n.table[s].first_index == sum_of(
        n.index_counts(),
        s as nat,
    ) by {
        if s < len {
            assert(n.table[s] == m.table[s]);
            lemma_same_sums(m.vertex_counts, n.vertex_counts, s as nat);
            lemma_same_sums(m.index_counts(), n.index_counts(), s as nat);
        }
    }
    assert(n.table.len() - 1 == len);
}

/// Requests dedup: asking for the same path again gives the same id without a
/// second load, two paths share an id only if they are one path, and asking
/// for one path leaves the answer for a path that was requested before. Past
/// the last id that 32 bits can tell apart, ids are given again.
pub proof fn requests_dedup(c: MeshCatalog, g: u64, h: u64)
    requires
        c.wf(),
        c@.redirect.len() <= 0x1_0000_0000,
        c@.by_hash.contains_key(g) && c@.by_hash.contains_key(h) || c@.redirect.len() <= u32::MAX,
    ensures
        c@.requested(g).answer(g) == (c@.answer(g).0, false),
        (c@.requested(g).answer(h).0 == c@.answer(g).0) == (g == h),
        g != h && c@.by_hash.contains_key(h) ==> c@.requested(g).answer(h) == c@.answer(h),
{
    if c@.by_hash.contains_key(h) {
        assert(c@.by_hash[h].0 < c@.redirect.len());
    }
    if c@.by_hash.contains_key(g) {
        assert(c@.by_hash[g].0 < c@.redirect.len());
    }
    assert(0x1_0000_0000u64 as u32 == 0u32) by (bit_vector);
}

/// A request loads exactly if its path was never requested. A known path gives
/// the id it was first given and counts one more reference to it; a new one
/// gives the next id, which draws as the placeholder with one reference. No
/// other path or id is touched, and no slot or cursor moves.
pub proof fn requests_touch_one_id(c: MeshCatalog, hash: u64)
    requires
        c.wf(),
        !c@.by_hash.contains_key(hash) ==> c@.redirect.len() <= u32::MAX,
        c@.by_hash.contains_key(hash) ==> c@.refcount[c@.by_hash[hash].0 as int] < u32::MAX,
    ensures
        ({
            let (id, load) = c@.answer(hash);
            let m = c@.requested(hash);
            let at = id.0 as int;
            &&& load == !c@.by_hash.contains_key(hash)
            &&& m.by_hash == c@.by_hash.insert(hash, id)
            &&& load ==> at == c@.redirect.len() && m.redirect.len() == c@.redirect.len() + 1
                && m.redirect[at] == MeshSlot(PLACEHOLDER) && m.refcount[at] == 1
            &&& !load ==> id == c@.by_hash[hash] && m.redirect == c@.redirect && m.refcount[at]
                == c@.refcount[at] + 1
            &&& m.refcount.len() == m.redirect.len()
            &&& forall|i: int|
                0 <= i < c@.redirect.len() && i != at ==> m.redirect[i] == c@.redirect[i]
                    && #[trigger] m.refcount[i] == c@.refcount[i]
            &&& m.table == c@.table
            &&& m.vertex_counts == c@.vertex_counts
            &&& m.vertex_used == c@.vertex_used
            &&& m.index_used == c@.index_used
        }),
{
    if c@.by_hash.contains_key(hash) {
        assert(c@.by_hash[hash].0 < c@.redirect.len());
        assert(c@.by_hash.insert(hash, c@.by_hash[hash]) =~= c@.by_hash);
    }
}

/// A slot is never moved or overwritten: appending another leaves every entry
/// as it was, its geometry starts where all earlier geometry ends, and the
/// slots still tile the buffers, no two of them sharing a vertex or an index.
/// While the vertices fit the table's signed field, every slot's offset is the
/// count of all vertices before it. No id and no reference is touched.
pub proof fn slots_are_append_only(
    m: CatalogModel,
    vertex_count: u32,
    index_count: u32,
    bounds: MeshBounds,
)
    requires
        m.tiled(),
        m.vertex_used + vertex_count <= u32::MAX,
        m.index_used + index_count <= u32::MAX,
    ensures
        ({
            let n = m.with_slot(vertex_count, index_count, bounds);
            let p = m.next_placement(index_count);
            &&& n.tiled()
            &&& n.table.len() == m.table.len() + 1
            &&& forall|s: int| 0 <= s < m.table.len() ==> n.table[s] == m.table[s]
            &&& n.vertex_counts == m.vertex_counts.push(vertex_count)
            &&& m.vertex_used + vertex_count <= i32::MAX ==> forall|s: int|
                0 <= s < n.table.len() ==> (#[trigger] n.table[s]).vertex_offset == sum_of(
                    n.vertex_counts,
                    s as nat,
                )
            &&& forall|a: int, b: int|
                #![trigger n.table[a], n.table[b]]
                0 <= a < b < n.table.len() ==> n.table[a].vertex_offset as u32
                    + n.vertex_counts[a] <= n.table[b].vertex_offset as u32
                    && n.table[a].first_index + n.table[a].index_count <= n.table[b].first_index
            &&& p == (Placement {
                slot: MeshSlot(m.table.len() as u32),
                vertex_offset: m.vertex_used,
                first_index: m.index_used,
                index_count,
            })
            &&& n.vertex_used == p.vertex_offset + vertex_count
            &&& n.index_used == p.first_index + index_count
            &&& n.by_hash == m.by_hash
            &&& n.redirect == m.redirect
            &&& n.refcount == m.refcount
        }),
{
    lemma_appended_tiles(m, vertex_count, index_count, bounds);
    let n = m.with_slot(vertex_count, index_count, bounds);
    assert forall|s: int| m.vertex_used + vertex_count <= i32::MAX && 0 <= s
        < n.table.len() implies (#[trigger] n.table[s]).vertex_offset == sum_of(
        n.vertex_counts,
        s as nat,
    ) by {
        lemma_within_cursors(n, s);
    }
    assert forall|a: int, b: int|
        #![trigger n.table[a], n.table[b]]
        0 <= a < b < n.table.len() implies n.table[a].vertex_offset as u32 + n.vertex_counts[a]
        <= n.table[b].vertex_offset as u32 && n.table[a].first_index + n.table[a].index_count
        <= n.table[b].first_index by {
        lemma_disjoint(n, a, b);
    }
}

/// Every slot's offsets are the sums of the counts before it, its geometry
/// ends before the cursors, and the cursors are the totals. While the buffer
/// holds no more vertices than the table's signed field can count, the field
/// is that sum itself.
pub proof fn slots_start_where_earlier_ones_end(c: MeshCatalog, s: int)
    requires
        c.wf(),
        0 <= s < c@.table.len(),
    ensures
        c@.table[s].vertex_offset as u32 == sum_of(c@.vertex_counts, s as nat),
        c@.table[s].first_index == sum_of(c@.index_counts(), s as nat),
        c@.vertex_used <= i32::MAX ==> c@.table[s].vertex_offset == sum_of(
            c@.vertex_counts,
            s as nat,
        ),
        c@.table[s].vertex_offset as u32 + c@.vertex_counts[s] <= c@.vertex_used,
        c@.table[s].first_index + c@.table[s].index_count <= c@.index_used,
        c@.vertex_used == sum_of(c@.vertex_counts, c@.table.len()),
        c@.index_used == sum_of(c@.index_counts(), c@.table.len()),
{
    lemma_within_cursors(c@, s);
}

/// Slot by slot, the geometry lies without gap or overlap: an earlier slot
/// ends before a later one begins, and exactly where the next one does.
pub proof fn slots_tile_the_buffers(c: MeshCatalog, a: int, b: int)
    requires
        c.wf(),
        0 <= a < b < c@.table.len(),
    ensures
        c@.table[a].vertex_offset as u32 + c@.vertex_counts[a] <= c@.table[b].vertex_offset as u32,
        c@.table[a].first_index + c@.table[a].index_count <= c@.table[b].first_index,
        b == a + 1 ==> c@.table[a].vertex_offset as u32 + c@.vertex_counts[a]
            == c@.table[b].vertex_offset as u32 && c@.table[a].first_index
            + c@.table[a].index_count == c@.table[b].first_index,
{
    lemma_disjoint(c@, a, b);
}

proof fn lemma_within_cursors(m: CatalogModel, s: int)
    requires
        m.tiled(),
        0 <= s < m.table.len(),
    ensures
        m.vertex_used <= i32::MAX ==> m.table[s].vertex_offset == sum_of(
            m.vertex_counts,
            s as nat,
        ),
        m.table[s].vertex_offset as u32 + m.vertex_counts[s] <= m.vertex_used,
        m.table[s].first_index + m.table[s].index_count <= m.index_used,
{
    let vc = m.vertex_counts;
    let ic = m.index_counts();
    assert(sum_of(vc, (s + 1) as nat) == sum_of(vc, s as nat) + vc[s]);
    assert(sum_of(ic, (s + 1) as nat) == sum_of(ic, s as nat) + ic[s]);
    lemma_sums_grow(vc, (s + 1) as nat, m.table.len());
    lemma_sums_grow(ic, (s + 1) as nat, m.table.len());
    lemma_signed(m.table[s].vertex_offset);
}

proof fn lemma_disjoint(m: CatalogModel, a: int, b: int)
    requires
        m.tiled(),
        0 <= a < b < m.table.len(),
    ensures
        m.table[a].vertex_offset as u32 + m.vertex_counts[a] <= m.table[b].vertex_offset as u32,
        m.table[a].first_index + m.table[a].index_count <= m.table[b].first_index,
        b == a + 1 ==> m.table[a].vertex_offset as u32 + m.vertex_counts[a]
            == m.table[b].vertex_offset as u32 && m.table[a].first_index
            + m.table[a].index_count == m.table[b].first_index,
{
    let vc = m.vertex_counts;
    let ic = m.index_counts();
    assert(sum_of(vc, (a + 1) as nat) == sum_of(vc, a as nat) + vc[a]);
    assert(sum_of(ic, (a + 1) as nat) == sum_of(ic, a as nat) + ic[a]);
    lemma_sums_grow(vc, (a + 1) as nat, b as nat);
    lemma_sums_grow(ic, (a + 1) as nat, b as nat);
}

proof fn lemma_signed(x: i32)
    ensures
        x as u32 <= i32::MAX ==> x == x as u32,
{
    assert(x as u32 <= 0x7fff_ffffu32 ==> x >= 0) by (bit_vector);
}

/// Resolving appends what [`alloc_slot`](MeshCatalog::alloc_slot) would have
/// and points the id at it. No other id, no reference and no entry changes.
pub proof fn resolving_repoints_one_id(
    c: MeshCatalog,
    id: MeshId,
    vertex_count: u32,
    index_count: u32,
    bounds: MeshBounds,
)
    requires
        c.wf(),
        c@.has(id),
        c@.vertex_used + vertex_count <= u32::MAX,
        c@.index_used + index_count <= u32::MAX,
    ensures
        ({
            let n = c@.with_slot(vertex_count, index_count, bounds);
            let p = c@.next_placement(index_count);
            let m = n.redirected(id, p.slot);
            &&& p.slot == MeshSlot(c@.table.len() as u32)
            &&& m.redirect[id.0 as int] == p.slot
            &&& m.redirect.len() == c@.redirect.len()
            &&& forall|i: int|
                0 <= i < c@.redirect.len() && i != id.0 ==> m.redirect[i] == c@.redirect[i]
            &&& m.refcount == c@.refcount
            &&& m.by_hash == c@.by_hash
            &&& m.table == n.table
            &&& m.vertex_counts == n.vertex_counts
            &&& m.vertex_used == n.vertex_used
            &&& m.index_used == n.index_used
            &&& m.table.len() == c@.table.len() + 1
            &&& forall|s: int| 0 <= s < c@.table.len() ==> m.table[s] == c@.table[s]
        }),
{
}

/// Resolving an id once more appends another slot and leaves the entry of the
/// one before in place.
pub proof fn resolving_again_keeps_the_old_entry(
    c: MeshCatalog,
    id: MeshId,
    first: (u32, u32, MeshBounds),
    second: (u32, u32, MeshBounds),
)
    requires
        c.wf(),
        c@.has(id),
        c@.vertex_used + first.0 + second.0 <= u32::MAX,
        c@.index_used + first.1 + second.1 <= u32::MAX,
    ensures
        ({
            let p = c@.next_placement(first.1);
            let m = c@.with_slot(first.0, first.1, first.2).redirected(id, p.slot);
            let q = m.next_placement(second.1);
            let n = m.with_slot(second.0, second.1, second.2).redirected(id, q.slot);
            &&& p.slot == MeshSlot(c@.table.len() as u32)
            &&& q.slot == MeshSlot((c@.table.len() + 1) as u32)
            &&& n.table.len() == c@.table.len() + 2
            &&& n.table[c@.table.len() as int] == table_entry(
                c@.vertex_used,
                c@.index_used,
                first.1,
                first.2,
            )
            &&& n.redirect[id.0 as int] == q.slot
        }),
{
}

/// Releasing takes one reference off, down to none, and does nothing else:
/// no slot is reclaimed.
pub proof fn releasing_lowers_one_count(c: MeshCatalog, id: MeshId)
    requires
        c.wf(),
        c@.has(id),
    ensures
        ({
            let m = c@.released(id);
            let at = id.0 as int;
            &&& c@.refcount[at] > 0 ==> m.refcount[at] == c@.refcount[at] - 1
            &&& c@.refcount[at] == 0 ==> m.refcount[at] == 0
            &&& m.refcount.len() == c@.refcount.len()
            &&& forall|i: int|
                0 <= i < c@.refcount.len() && i != at ==> m.refcount[i] == c@.refcount[i]
            &&& m == CatalogModel { refcount: m.refcount, ..c@ }
        }),
{
}

/// A path that was released is found again: a later request gives its id
/// without a load, and counts up from what was left, even from nothing.
pub proof fn released_paths_are_found_again(c: MeshCatalog, hash: u64)
    requires
        c.wf(),
        c@.by_hash.contains_key(hash),
    ensures
        ({
            let id = c@.by_hash[hash];
            let at = id.0 as int;
            let m = c@.released(id);
            &&& m.answer(hash) == (id, false)
            &&& m.requested(hash).refcount[at] == m.refcount[at] + 1
            &&& c@.refcount[at] <= 1 ==> m.requested(hash).refcount[at] == 1
        }),
{
    assert(c@.by_hash[hash].0 < c@.redirect.len());
}

/// A request followed by a release of what it gave leaves every reference
/// count as it was; only a new id stays, with no reference.
pub proof fn releasing_undoes_a_request(c: MeshCatalog, hash: u64)
    requires
        c.wf(),
        !c@.by_hash.contains_key(hash) ==> c@.redirect.len() <= u32::MAX,
        c@.by_hash.contains_key(hash) ==> c@.refcount[c@.by_hash[hash].0 as int] < u32::MAX,
    ensures
        ({
            let (id, load) = c@.answer(hash);
            let m = c@.requested(hash).released(id);
            &&& !load ==> m == c@
            &&& load ==> m.refcount == c@.refcount.push(0)
            &&& forall|i: int| 0 <= i < c@.refcount.len() ==> m.refcount[i] == c@.refcount[i]
        }),
{
    let (id, load) = c@.answer(hash);
    let m = c@.requested(hash).released(id);
    if load {
        assert(m.refcount =~= c@.refcount.push(0));
    } else {
        assert(id.0 < c@.redirect.len());
        assert(m.refcount =~= c@.refcount);
    }
}

/// Failing a load allocates nothing.
pub proof fn failing_allocates_no_slot(m: CatalogModel, id: MeshId)
    ensures
        m.redirected(id, MeshSlot(ERROR)).table == m.table,
        m.redirected(id, MeshSlot(ERROR)).vertex_used == m.vertex_used,
        m.redirected(id, MeshSlot(ERROR)).index_used == m.index_used,
        m.redirected(id, MeshSlot(ERROR)).refcount == m.refcount,
        m.redirected(id, MeshSlot(ERROR)).by_hash == m.by_hash,
{
}

/// The slot that is appended for a mesh describes that mesh: its index count,
/// its bounding sphere, and the offsets of its placement.
pub proof fn slots_describe_their_mesh(
    m: CatalogModel,
    vertex_count: u32,
    index_count: u32,
    bounds: MeshBounds,
)
    ensures
        ({
            let e = m.with_slot(vertex_count, index_count, bounds).table.last();
            let p = m.next_placement(index_count);
            &&& e.index_count == index_count
            &&& e.bounds_center == bounds.center
            &&& e.bounds_radius == bounds.radius
            &&& e.first_index == p.first_index
            &&& e.vertex_offset == p.vertex_offset as i32
            &&& p.first_index == m.index_used
            &&& p.vertex_offset == m.vertex_used
            &&& p.index_count == index_count
        }),
{
}

/// Retaining adds one reference to the id and does nothing else.
pub proof fn retaining_raises_one_count(c: MeshCatalog, id: MeshId)
    requires
        c.wf(),
        c@.has(id),
        c@.refcount[id.0 as int] < u32::MAX,
    ensures
        ({
            let m = c@.retained(id);
            let at = id.0 as int;
            &&& m.refcount[at] == c@.refcount[at] + 1
            &&& m.refcount.len() == c@.refcount.len()
            &&& forall|i: int|
                0 <= i < c@.refcount.len() && i != at ==> m.refcount[i] == c@.refcount[i]
            &&& m.redirect == c@.redirect
            &&& m.by_hash == c@.by_hash
            &&& m.table == c@.table
            &&& m.vertex_used == c@.vertex_used
            &&& m.index_used == c@.index_used
        }),
{
}

} // verus!
