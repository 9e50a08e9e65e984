//! Device-local mirror of the mesh registry: what to upload each frame, where
//! it goes in the mega buffers, and which redirect flips may land with it.
//!
//! Uploads are paced. A sync takes at most a capped number of slots and bytes,
//! so a burst of decoded meshes streams over many short frames instead of
//! snowballing into a few giant ones. A redirect flip whose slot has not been
//! uploaded yet waits, so that a renderer keeps drawing its placeholder until
//! its own geometry is resident.

use crate::assets::redirect::{
    all_resident, append_flips, apply_flips, deferred, extend_redirect, extended, flipped,
    flips_are_applied_or_deferred, ids_below, lemma_flipped, lemma_split,
    new_ids_are_placeholders, resident, resolved, split_flips, the_last_flip_stands, Flip,
};
use crate::assets::{
    make_table_entry, table_entry, MeshBounds, MeshTableEntry, TextureId, PLACEHOLDER,
};
use crate::growth::{grow_u32, grown};
use vstd::prelude::*;

verus! {

pub const INITIAL_VERTEX_CAP: u32 = 4096;

pub const INITIAL_INDEX_CAP: u32 = 8192;

pub const INITIAL_TABLE_CAP: u32 = 8;

pub const INITIAL_REDIRECT_CAP: u32 = 64;

/// Starting upload caps; the pacing adapts from here.
pub const INITIAL_UPLOAD_SLOTS_CAP: usize = 1024;

pub const INITIAL_UPLOAD_BYTES_CAP: usize = 8 * 1024 * 1024;

/// Absolute bounds on the adaptive caps: the floor keeps progress under
/// pathological stalls, the ceiling bounds staging memory.
pub const UPLOAD_SLOTS_CAP_MIN: usize = 64;

pub const UPLOAD_SLOTS_CAP_MAX: usize = 65536;

pub const UPLOAD_BYTES_CAP_MIN: usize = 1048576;

pub const UPLOAD_BYTES_CAP_MAX: usize = 512 * 1024 * 1024;

/// Bytes of one vertex and of one index in the mega buffers.
pub const VERTEX_BYTES: u64 = 32;

pub const INDEX_BYTES: u64 = 4;

/// Per-slot texture word of a slot that has no base-color texture.
pub const NO_TEXTURE: u32 = u32::MAX;

/// What the registry says of one resolved slot.
#[derive(Clone, Copy)]
pub struct SlotMesh {
    pub vertex_count: u32,
    pub index_count: u32,
    pub bounds: MeshBounds,
    pub texture: Option<TextureId>,
}

/// What a sync drains from the registry.
pub struct MeshDelta {
    /// The slots that are resolved but not uploaded, in slot order.
    pub slots: Vec<SlotMesh>,
    /// The redirect changes since the last drain, oldest first.
    pub redirect_updates: Vec<Flip>,
    pub mesh_id_count: u32,
    /// Per id, how many renderers hold it.
    pub refcounts: Vec<u32>,
}

/// Vertices of the first `k` slots.
pub open spec fn vertices_of(slots: Seq<SlotMesh>, k: nat) -> nat
    decreases k,
{
    if k == 0 {
        0
    } else {
        vertices_of(slots, (k - 1) as nat) + slots[k - 1].vertex_count as nat
    }
}

/// Indices of the first `k` slots.
pub open spec fn indices_of(slots: Seq<SlotMesh>, k: nat) -> nat
    decreases k,
{
    if k == 0 {
        0
    } else {
        indices_of(slots, (k - 1) as nat) + slots[k - 1].index_count as nat
    }
}

/// Bytes of the first `k` slots.
pub open spec fn bytes_of(slots: Seq<SlotMesh>, k: nat) -> nat {
    32 * vertices_of(slots, k) + 4 * indices_of(slots, k)
}

/// `k` slots are what a budget of `slots_cap` slots and `bytes_cap` bytes
/// takes: as many as there are until either cap is reached, and always one if
/// there is one, so that a single oversized mesh still lands.
pub open spec fn is_drain(
    slots: Seq<SlotMesh>,
    slots_cap: nat,
    bytes_cap: nat,
    k: nat,
) -> bool {
    &&& k <= slots.len()
    &&& k <= slots_cap
    &&& forall|j: nat| 0 < j < k ==> #[trigger] bytes_of(slots, j) < bytes_cap
    &&& k == slots.len() || k == slots_cap || (k > 0 && bytes_of(slots, k) >= bytes_cap)
}

/// Where a slot's geometry goes in the mega buffers.
#[derive(Clone, Copy, PartialEq, Eq, Structural, Debug)]
pub struct SlotPlacement {
    pub vertex_offset: u32,
    pub first_index: u32,
    pub vcount: u32,
    pub icount: u32,
}

/// A buffer to reallocate: its new capacity, and how many leading elements of
/// the old one to copy over.
#[derive(Clone, Copy, PartialEq, Eq, Structural, Debug)]
pub struct Grow {
    pub new_cap: u32,
    pub keep: u32,
}

/// What growing a buffer of `cap` elements for `needed` takes.
pub open spec fn growth(cap: u32, needed: int, keep: u32) -> Option<Grow> {
    if needed <= cap {
        None
    } else {
        Some(Grow { new_cap: grown(cap as nat, needed as nat, u32::MAX as nat) as u32, keep })
    }
}

/// [`growth`], and the capacity that results.
pub fn plan_growth(cap: u32, needed: u32, keep: u32) -> (r: (Option<Grow>, u32))
    ensures
        r.0 == growth(cap, needed as int, keep),
        r.1 == grown(cap as nat, needed as nat, u32::MAX as nat),
{
    let new_cap: u32 = grow_u32(cap, needed);
    if needed <= cap {
        (None, new_cap)
    } else {
        (Some(Grow { new_cap, keep }), new_cap)
    }
}

/// One sync's upload, to be recorded into a single submission in field order.
pub struct MeshSync {
    /// Whether anything uploaded, flipped or grew: the draw plan is stale.
    pub changed: bool,
    /// Per uploaded slot, the instances that resolve to it.
    pub totals: Vec<u32>,
    /// Whether there is anything to submit.
    pub submit: bool,
    pub grow_vertex: Option<Grow>,
    pub grow_index: Option<Grow>,
    /// The per-slot table and the per-slot texture words grow in lock-step.
    pub grow_table: Option<Grow>,
    /// The grown redirect buffer is zero-filled before the copy.
    pub grow_redirect: Option<Grow>,
    /// The first slot uploaded.
    pub first_slot: u32,
    /// Per uploaded slot, where its geometry goes. Empty parts are not copied.
    pub placements: Vec<SlotPlacement>,
    pub table_entries: Vec<MeshTableEntry>,
    pub texture_entries: Vec<u32>,
    /// The redirect words that land with the upload, in order.
    pub flips: Vec<Flip>,
}

/// The texture word of a slot.
pub open spec fn texture_word(texture: Option<TextureId>) -> u32 {
    match texture {
        Some(t) => t.0,
        None => NO_TEXTURE,
    }
}

/// The table entry of the `i`th slot of a batch placed behind `vertex_used`
/// vertices and `index_used` indices.
pub open spec fn batch_entry(
    slots: Seq<SlotMesh>,
    vertex_used: u32,
    index_used: u32,
    i: int,
) -> MeshTableEntry {
    table_entry(
        (vertex_used + vertices_of(slots, i as nat)) as u32,
        (index_used + indices_of(slots, i as nat)) as u32,
        slots[i].index_count,
        slots[i].bounds,
    )
}

/// The table entries of the first `k` slots of such a batch.
pub open spec fn batch_entries(
    slots: Seq<SlotMesh>,
    vertex_used: u32,
    index_used: u32,
    k: nat,
) -> Seq<MeshTableEntry> {
    Seq::new(k, |i: int| batch_entry(slots, vertex_used, index_used, i))
}

/// The instances that the first `ids` ids add to `slot`.
pub open spec fn slot_total(
    redirect: Seq<u32>,
    refcounts: Seq<u32>,
    slot: int,
    ids: nat,
) -> nat
    decreases ids,
{
    if ids == 0 {
        0
    } else {
        slot_total(redirect, refcounts, slot, (ids - 1) as nat) + if resolved(redirect, ids - 1)
            == slot {
            refcounts[ids - 1] as nat
        } else {
            0
        }
    }
}

/// The sum of the first `n` counts.
pub open spec fn total(counts: Seq<u32>, n: nat) -> nat
    decreases n,
{
    if n == 0 {
        0
    } else {
        total(counts, (n - 1) as nat) + counts[n - 1] as nat
    }
}

/// Mirror of the mesh registry on the render side.
pub struct GpuMeshStore {
    pub vertex_cap: u32,
    pub index_cap: u32,
    /// Append cursors into the mega buffers.
    pub vertex_used: u32,
    pub index_used: u32,
    pub table_cap: u32,
    pub redirect_cap: u32,
    /// Mirror of the per-slot table.
    pub cpu_table: Vec<MeshTableEntry>,
    /// Slots uploaded so far; lags the registry while a burst is paced.
    pub synced_slots: u32,
    /// Flips whose target slot has not been uploaded yet.
    pub pending_redirects: Vec<Flip>,
    /// Mirror of the GPU's redirect buffer, pending flips still at their old
    /// value.
    pub cpu_redirect: Vec<u32>,
    pub upload_slots_cap: usize,
    pub upload_bytes_cap: usize,
}

/// The slots' index ranges tile the first `index_used` indices of the mega
/// buffer: no gap, no overlap.
pub open spec fn tiles_indices(table: Seq<MeshTableEntry>, index_used: int) -> bool {
    &&& table.len() == 0 ==> index_used == 0
    &&& table.len() > 0 ==> table[0].first_index == 0 && table.last().first_index
        + table.last().index_count == index_used
    &&& forall|s: int|
        0 <= s < table.len() - 1 ==> (#[trigger] table[s]).first_index + table[s].index_count
            == table[s + 1].first_index
}

impl GpuMeshStore {
    pub open spec fn wf(&self) -> bool {
        &&& self.vertex_used <= self.vertex_cap
        &&& self.index_used <= self.index_cap
        &&& self.synced_slots <= self.table_cap
        &&& self.cpu_table.len() == self.synced_slots
        &&& self.cpu_redirect.len() <= self.redirect_cap
        &&& all_resident(self.cpu_redirect@, self.synced_slots as int)
        &&& forall|i: int|
            0 <= i < self.pending_redirects.len() ==> (#[trigger] self.pending_redirects[i]).slot
                >= self.synced_slots
        &&& tiles_indices(self.cpu_table@, self.index_used as int)
        &&& UPLOAD_SLOTS_CAP_MIN <= self.upload_slots_cap <= UPLOAD_SLOTS_CAP_MAX
        &&& UPLOAD_BYTES_CAP_MIN <= self.upload_bytes_cap <= UPLOAD_BYTES_CAP_MAX
    }

    /// Nothing was synced yet.
    pub open spec fn is_new(&self) -> bool {
        &&& self.vertex_cap == INITIAL_VERTEX_CAP
        &&& self.index_cap == INITIAL_INDEX_CAP
        &&& self.table_cap == INITIAL_TABLE_CAP
        &&& self.redirect_cap == INITIAL_REDIRECT_CAP
        &&& self.vertex_used == 0
        &&& self.index_used == 0
        &&& self.synced_slots == 0
        &&& self.cpu_table.len() == 0
        &&& self.cpu_redirect.len() == 0
        &&& self.pending_redirects.len() == 0
        &&& self.upload_slots_cap == INITIAL_UPLOAD_SLOTS_CAP
        &&& self.upload_bytes_cap == INITIAL_UPLOAD_BYTES_CAP
    }

    /// Empty mirror at the initial capacities. The redirect buffer starts
    /// zero-filled, so unresolved ids read as the placeholder.
    pub fn new() -> (r: Self)
        ensures
            r.wf(),
            r.is_new(),
    {
        GpuMeshStore {
            vertex_cap: INITIAL_VERTEX_CAP,
            index_cap: INITIAL_INDEX_CAP,
            vertex_used: 0,
            index_used: 0,
            table_cap: INITIAL_TABLE_CAP,
            redirect_cap: INITIAL_REDIRECT_CAP,
            cpu_table: Vec::new(),
            synced_slots: 0,
            pending_redirects: Vec::new(),
            cpu_redirect: Vec::new(),
            upload_slots_cap: INITIAL_UPLOAD_SLOTS_CAP,
            upload_bytes_cap: INITIAL_UPLOAD_BYTES_CAP,
        }
    }

    /// How many of `slots` this frame's budget takes.
    fn drain(&self, slots: &Vec<SlotMesh>) -> (k: usize)
        requires
            self.wf(),
        ensures
            is_drain(
                slots@,
                self.upload_slots_cap as nat,
                self.upload_bytes_cap as nat,
                k as nat,
            ),
    {
        let mut k: usize = 0;
        let mut bytes: u64 = 0;
        while k < slots.len() && k < self.upload_slots_cap && (bytes < self.upload_bytes_cap as u64
            || k == 0)
            invariant
                self.wf(),
                k <= slots.len(),
                k <= self.upload_slots_cap,
                bytes == bytes_of(slots@, k as nat),
                bytes <= k * 0x24_0000_0000,
                forall|j: nat|
                    0 < j < k ==> #[trigger] bytes_of(slots@, j) < self.upload_bytes_cap,
            decreases slots.len() - k,
        {
            let s: SlotMesh = slots[k];
            proof {
                assert(bytes_of(slots@, (k + 1) as nat) == bytes_of(slots@, k as nat) + 32
                    * s.vertex_count + 4 * s.index_count);
                assert(32 * s.vertex_count + 4 * s.index_count <= 0x24_0000_0000);
            }
            bytes = bytes + s.vertex_count as u64 * VERTEX_BYTES + s.index_count as u64
                * INDEX_BYTES;
            k = k + 1;
        }
        k
    }

    /// Whether `sync` can take `delta`: the slots fit a 32-bit count, there is
    /// a slot for what is referenced, and the part that this frame's budget
    /// takes [`fits`](Self::fits).
    pub open spec fn accepts(&self, delta: MeshDelta) -> bool {
        &&& self.synced_slots + delta.slots.len() <= u32::MAX
        &&& delta.refcounts.len() > 0 ==> self.synced_slots + delta.slots.len() > 0
        &&& forall|k: nat|
            #[trigger] is_drain(
                delta.slots@,
                self.upload_slots_cap as nat,
                self.upload_bytes_cap as nat,
                k,
            ) ==> self.fits(delta, k)
    }

    /// The flips that land once `k` of the slots are uploaded.
    pub open spec fn landing(&self, delta: MeshDelta, k: nat) -> Seq<Flip> {
        resident(self.queued(delta), self.synced_slots + k)
    }

    /// The map once they have landed.
    pub open spec fn landed(&self, delta: MeshDelta, k: nat) -> Seq<u32> {
        flipped(
            extended(self.cpu_redirect@, delta.mesh_id_count as int),
            self.landing(delta, k),
        )
    }

    /// Uploading `k` of the slots stays within what a 32-bit count can
    /// address: the geometry, and every single slot's instances. The flips
    /// that land with it are of known ids.
    pub open spec fn fits(&self, delta: MeshDelta, k: nat) -> bool {
        &&& self.vertex_used + vertices_of(delta.slots@, k) <= u32::MAX
        &&& self.index_used + indices_of(delta.slots@, k) <= u32::MAX
        &&& ids_below(
            self.landing(delta, k),
            extended(self.cpu_redirect@, delta.mesh_id_count as int).len() as int,
        )
        &&& forall|s: int|
            0 <= s < self.synced_slots + k ==> #[trigger] slot_total(
                self.landed(delta, k),
                delta.refcounts@,
                s,
                delta.refcounts@.len(),
            ) <= u32::MAX
    }

    /// A store that nothing was synced into can take `delta`, and a draw plan
    /// all the instances.
    pub open spec fn accepts_first(delta: MeshDelta) -> bool {
        &&& delta.slots.len() <= u32::MAX
        &&& forall|k: nat|
            #[trigger] is_drain(
                delta.slots@,
                INITIAL_UPLOAD_SLOTS_CAP as nat,
                INITIAL_UPLOAD_BYTES_CAP as nat,
                k,
            ) ==> vertices_of(delta.slots@, k) <= u32::MAX && indices_of(delta.slots@, k)
                <= u32::MAX && ids_below(
                resident(delta.redirect_updates@, k as int),
                delta.mesh_id_count as int,
            )
        &&& total(delta.refcounts@, delta.refcounts.len() as nat) <= u32::MAX
        &&& delta.refcounts.len() > 0 ==> delta.slots.len() > 0
    }

    /// The flips that a sync with `delta` looks at.
    pub open spec fn queued(&self, delta: MeshDelta) -> Seq<Flip> {
        self.pending_redirects@ + delta.redirect_updates@
    }

    /// `self` is `s0` after a sync with `delta`, and `r` is what to upload for
    /// it.
    pub open spec fn synced(&self, s0: GpuMeshStore, delta: MeshDelta, r: MeshSync) -> bool {
        let s1 = *self;
        let k = r.placements@.len();
        let watermark = s0.synced_slots + k;
        let queued = s0.queued(delta);
        &&& r.submit == (k > 0 || queued.len() > 0 || delta.mesh_id_count > s0.redirect_cap)
        &&& s1.synced_slots == watermark
        &&& s1.vertex_used == s0.vertex_used + vertices_of(delta.slots@, k)
        &&& s1.index_used == s0.index_used + indices_of(delta.slots@, k)
        &&& r.first_slot == s0.synced_slots
        &&& forall|i: int|
            0 <= i < k ==> #[trigger] r.placements[i] == (SlotPlacement {
                vertex_offset: (s0.vertex_used + vertices_of(delta.slots@, i as nat)) as u32,
                first_index: (s0.index_used + indices_of(delta.slots@, i as nat)) as u32,
                vcount: delta.slots[i].vertex_count,
                icount: delta.slots[i].index_count,
            })
        &&& r.table_entries@ == batch_entries(
            delta.slots@,
            s0.vertex_used,
            s0.index_used,
            k,
        )
        &&& r.texture_entries@ == Seq::new(k, |i: int| texture_word(delta.slots[i].texture))
        &&& s1.cpu_table@ == s0.cpu_table@ + r.table_entries@
        &&& r.flips@ == resident(queued, watermark)
        &&& s1.pending_redirects@ == deferred(queued, watermark)
        &&& s1.cpu_redirect@ == flipped(
            extended(s0.cpu_redirect@, delta.mesh_id_count as int),
            r.flips@,
        )
        &&& r.grow_vertex == growth(s0.vertex_cap, s1.vertex_used as int, s0.vertex_used)
        &&& r.grow_index == growth(s0.index_cap, s1.index_used as int, s0.index_used)
        &&& r.grow_table == growth(s0.table_cap, watermark, s0.synced_slots)
        &&& r.grow_redirect == growth(
            s0.redirect_cap,
            delta.mesh_id_count as int,
            s0.redirect_cap,
        )
        &&& s1.vertex_cap == grown(
            s0.vertex_cap as nat,
            s1.vertex_used as nat,
            u32::MAX as nat,
        )
        &&& s1.index_cap == grown(
            s0.index_cap as nat,
            s1.index_used as nat,
            u32::MAX as nat,
        )
        &&& s1.table_cap == grown(s0.table_cap as nat, watermark as nat, u32::MAX as nat)
        &&& s1.redirect_cap == grown(
            s0.redirect_cap as nat,
            delta.mesh_id_count as nat,
            u32::MAX as nat,
        )
        &&& s1.upload_slots_cap == s0.upload_slots_cap
        &&& s1.upload_bytes_cap == s0.upload_bytes_cap
        &&& r.changed == (k > 0 || r.flips.len() > 0 || r.grow_vertex is Some
            || r.grow_index is Some || r.grow_table is Some || r.grow_redirect is Some)
        &&& r.totals@ == Seq::new(
            watermark as nat,
            |s: int|
                slot_total(
                    s1.cpu_redirect@,
                    delta.refcounts@,
                    s,
                    delta.refcounts.len() as nat,
                ) as u32,
        )
        &&& is_drain(
            delta.slots@,
            s0.upload_slots_cap as nat,
            s0.upload_bytes_cap as nat,
            k,
        )
    }

    /// Drains the registry's changes within this frame's budget and plans
    /// their upload.
    ///
    /// The totals go by the redirect that the GPU sees, not the registry's,
    /// which runs ahead while a burst is paced. They are returned even when
    /// nothing uploads, because a spawn shifts them without any redirect
    /// changing.
    pub fn sync(&mut self, delta: &MeshDelta) -> (r: MeshSync)
        requires
            old(self).wf(),
            old(self).accepts(*delta),
        ensures
            final(self).wf(),
            final(self).synced(*old(self), *delta, r),
        forall|i: int|
            0 <= i < r.placements.len() ==> {
                let p = #[trigger] r.placements[i];
                let e = final(self).cpu_table[old(self).synced_slots + i];
                let s = delta.slots[i];
                &&& e == r.table_entries[i]
                &&& e.index_count == s.index_count
                &&& e.first_index == p.first_index
                &&& e.vertex_offset == p.vertex_offset as i32
                &&& e.bounds_center == s.bounds.center
                &&& e.bounds_radius == s.bounds.radius
                &&& p.vcount == s.vertex_count
                &&& p.icount == s.index_count
                &&& s.texture is Some ==> r.texture_entries[i] == (s.texture->0).0
                &&& s.texture is None ==> r.texture_entries[i] == u32::MAX
            },
    {
        let ghost s0 = *self;
        let from: u32 = self.synced_slots;
        let k: usize = self.drain(&delta.slots);
        append_flips(&mut self.pending_redirects, &delta.redirect_updates);
        extend_redirect(&mut self.cpu_redirect, delta.mesh_id_count);
        let ghost queued = self.pending_redirects@;
        let ghost redirect0 = self.cpu_redirect@;
        let submit: bool = k > 0 || self.pending_redirects.len() > 0 || delta.mesh_id_count
            > self.redirect_cap;

        // Mega-buffer offsets, table entries and texture words of the batch.
        let mut placements: Vec<SlotPlacement> = Vec::new();
        let mut table_entries: Vec<MeshTableEntry> = Vec::new();
        let mut texture_entries: Vec<u32> = Vec::new();
        let mut v_cursor: u32 = self.vertex_used;
        let mut i_cursor: u32 = self.index_used;
        let mut n: usize = 0;
        while n < k
            invariant
                n <= k <= delta.slots.len(),
                s0.vertex_used + vertices_of(delta.slots@, k as nat) <= u32::MAX,
                s0.index_used + indices_of(delta.slots@, k as nat) <= u32::MAX,
                v_cursor == s0.vertex_used + vertices_of(delta.slots@, n as nat),
                i_cursor == s0.index_used + indices_of(delta.slots@, n as nat),
                placements.len() == n,
                forall|i: int|
                    0 <= i < n ==> #[trigger] placements[i] == (SlotPlacement {
                        vertex_offset: (s0.vertex_used + vertices_of(delta.slots@, i as nat)) as u32,
                        first_index: (s0.index_used + indices_of(delta.slots@, i as nat)) as u32,
                        vcount: delta.slots[i].vertex_count,
                        icount: delta.slots[i].index_count,
                    }),
                table_entries@ == batch_entries(
                    delta.slots@,
                    s0.vertex_used,
                    s0.index_used,
                    n as nat,
                ),
                texture_entries@ == Seq::new(
                    n as nat,
                    |i: int| texture_word(delta.slots[i].texture),
                ),
            decreases k - n,
        {
            let s: SlotMesh = delta.slots[n];
            proof {
                lemma_sums_monotone(delta.slots@, (n + 1) as nat, k as nat);
            }
            placements.push(
                SlotPlacement {
                    vertex_offset: v_cursor,
                    first_index: i_cursor,
                    vcount: s.vertex_count,
                    icount: s.index_count,
                },
            );
            table_entries.push(make_table_entry(v_cursor, i_cursor, s.index_count, s.bounds));
            let word: u32 = match s.texture {
                Some(t) => t.0,
                None => NO_TEXTURE,
            };
            texture_entries.push(word);
            v_cursor = v_cursor + s.vertex_count;
            i_cursor = i_cursor + s.index_count;
            n = n + 1;
            assert(table_entries@ =~= batch_entries(
                delta.slots@,
                s0.vertex_used,
                s0.index_used,
                n as nat,
            ));
            assert(texture_entries@ =~= Seq::new(
                n as nat,
                |i: int| texture_word(delta.slots[i].texture),
            ));
        }

        let new_synced: u32 = from + k as u32;
        let (grow_vertex, vertex_cap) = plan_growth(self.vertex_cap, v_cursor, self.vertex_used);
        let (grow_index, index_cap) = plan_growth(self.index_cap, i_cursor, self.index_used);
        let (grow_table, table_cap) = plan_growth(self.table_cap, new_synced, from);
        let (grow_redirect, redirect_cap) = plan_growth(
            self.redirect_cap,
            delta.mesh_id_count,
            self.redirect_cap,
        );
        let grew: bool = grow_vertex.is_some() || grow_index.is_some() || grow_table.is_some()
            || grow_redirect.is_some();

        // Only the flips whose slot is uploaded as of this sync land with it.
        let (flips, still_pending) = split_flips(&self.pending_redirects, new_synced);
        proof {
            assert(s0.fits(*delta, k as nat));
            assert(flips@ == s0.landing(*delta, k as nat));
            lemma_split(queued, new_synced as int);
            assert(all_resident(redirect0, new_synced as int));
            lemma_flipped(redirect0, flips@, new_synced as int);
        }
        apply_flips(&mut self.cpu_redirect, &flips);
        self.pending_redirects = still_pending;
        let ghost table0 = self.cpu_table@;
        append_entries(&mut self.cpu_table, &table_entries);
        proof {
            lemma_tiles(
                table0,
                delta.slots@,
                s0.vertex_used,
                s0.index_used,
                k as nat,
            );
        }
        self.vertex_used = v_cursor;
        self.index_used = i_cursor;
        self.synced_slots = new_synced;
        self.vertex_cap = vertex_cap;
        self.index_cap = index_cap;
        self.table_cap = table_cap;
        self.redirect_cap = redirect_cap;
        assert(self.cpu_redirect@ == s0.landed(*delta, k as nat));
        let totals: Vec<u32> = self.slot_totals(&delta.refcounts);
        assert(forall|i: int|
            0 <= i < k ==> self.cpu_table[s0.synced_slots + i] == #[trigger] table_entries[i]);
        MeshSync {
            changed: grew || flips.len() > 0 || k > 0,
            totals,
            submit,
            grow_vertex,
            grow_index,
            grow_table,
            grow_redirect,
            first_slot: from,
            placements,
            table_entries,
            texture_entries,
            flips,
        }
    }

    /// Per uploaded slot, the instances that resolve to it on the GPU.
    fn slot_totals(&self, refcounts: &Vec<u32>) -> (totals: Vec<u32>)
        requires
            all_resident(self.cpu_redirect@, self.synced_slots as int),
            refcounts.len() > 0 ==> self.synced_slots > 0,
            forall|s: int|
                0 <= s < self.synced_slots ==> #[trigger] slot_total(
                    self.cpu_redirect@,
                    refcounts@,
                    s,
                    refcounts@.len(),
                ) <= u32::MAX,
        ensures
            totals@ == Seq::new(
                self.synced_slots as nat,
                |s: int|
                    slot_total(self.cpu_redirect@, refcounts@, s, refcounts.len() as nat) as u32,
            ),
    {
        let mut totals: Vec<u32> = vec![0u32; self.synced_slots as usize];
        let mut id: usize = 0;
        while id < refcounts.len()
            invariant
                id <= refcounts.len(),
                all_resident(self.cpu_redirect@, self.synced_slots as int),
                refcounts.len() > 0 ==> self.synced_slots > 0,
                forall|s: int|
                    0 <= s < self.synced_slots ==> #[trigger] slot_total(
                        self.cpu_redirect@,
                        refcounts@,
                        s,
                        refcounts@.len(),
                    ) <= u32::MAX,
                totals.len() == self.synced_slots,
                forall|s: int|
                    0 <= s < totals.len() ==> #[trigger] totals[s] == slot_total(
                        self.cpu_redirect@,
                        refcounts@,
                        s,
                        id as nat,
                    ),
            decreases refcounts.len() - id,
        {
            let slot: u32 = if id < self.cpu_redirect.len() {
                self.cpu_redirect[id]
            } else {
                PLACEHOLDER
            };
            proof {
                lemma_slot_total_grows(
                    self.cpu_redirect@,
                    refcounts@,
                    slot as int,
                    (id + 1) as nat,
                    refcounts@.len(),
                );
            }
            let have: u32 = totals[slot as usize];
            totals.set(slot as usize, have + refcounts[id]);
            id = id + 1;
        }
        proof {
            assert forall|s: int| 0 <= s < totals.len() implies totals@[s] == #[trigger] slot_total(
                self.cpu_redirect@,
                refcounts@,
                s,
                refcounts.len() as nat,
            ) as u32 by {
                assert(totals[s] == slot_total(self.cpu_redirect@, refcounts@, s, id as nat));
            }
            assert(totals@ =~= Seq::new(
                self.synced_slots as nat,
                |s: int|
                    slot_total(self.cpu_redirect@, refcounts@, s, refcounts.len() as nat) as u32,
            ));
        }
        totals
    }

    /// Takes over caps that were rescaled from a sync's measured wall time,
    /// clamped to their absolute bounds. A sync that uploaded nothing carries
    /// no timing signal and leaves the caps alone.
    pub fn adapt_upload_caps(
        &mut self,
        uploaded_slots: usize,
        scaled_slots_cap: usize,
        scaled_bytes_cap: usize,
    )
        requires
            old(self).wf(),
        ensures
            final(self).wf(),
            uploaded_slots == 0 ==> *final(self) == *old(self),
            uploaded_slots > 0 ==> *final(self) == (GpuMeshStore {
                upload_slots_cap: clamped(
                    scaled_slots_cap,
                    UPLOAD_SLOTS_CAP_MIN,
                    UPLOAD_SLOTS_CAP_MAX,
                ),
                upload_bytes_cap: clamped(
                    scaled_bytes_cap,
                    UPLOAD_BYTES_CAP_MIN,
                    UPLOAD_BYTES_CAP_MAX,
                ),
                ..*old(self)
            }),
            uploaded_slots > 0 ==> 64 <= final(self).upload_slots_cap <= 65536,
            uploaded_slots > 0 && 64 <= scaled_slots_cap <= 65536
                ==> final(self).upload_slots_cap == scaled_slots_cap,
            uploaded_slots > 0 ==> 1048576 <= final(self).upload_bytes_cap <= 536870912,
            uploaded_slots > 0 && 1048576 <= scaled_bytes_cap <= 536870912
                ==> final(self).upload_bytes_cap == scaled_bytes_cap,
    {
        if uploaded_slots == 0 {
            return;
        }
        self.upload_slots_cap = clamp(scaled_slots_cap, UPLOAD_SLOTS_CAP_MIN, UPLOAD_SLOTS_CAP_MAX);
        self.upload_bytes_cap = clamp(scaled_bytes_cap, UPLOAD_BYTES_CAP_MIN, UPLOAD_BYTES_CAP_MAX);
    }

    /// Number of drawable slots uploaded so far.
    pub fn slot_count(&self) -> (r: u32)
        ensures
            r == self.synced_slots,
    {
        self.synced_slots
    }

    /// The mega-buffer offsets and index count of a drawable slot, or nothing
    /// if it has not been synced yet.
    pub fn slot_geometry(&self, slot: u32) -> (r: Option<MeshTableEntry>)
        ensures
            r == if slot < self.cpu_table.len() {
                Some(self.cpu_table@[slot as int])
            } else {
                None
            },
    {
        if (slot as usize) < self.cpu_table.len() {
            Some(self.cpu_table[slot as usize])
        } else {
            None
        }
    }
}

/// `v` moved into `[lo, hi]`.
pub open spec fn clamped(v: usize, lo: usize, hi: usize) -> usize {
    if v < lo {
        lo
    } else if v > hi {
        hi
    } else {
        v
    }
}

fn clamp(v: usize, lo: usize, hi: usize) -> (r: usize)
    ensures
        r == clamped(v, lo, hi),
{
    if v < lo {
        lo
    } else if v > hi {
        hi
    } else {
        v
    }
}

fn append_entries(table: &mut Vec<MeshTableEntry>, more: &Vec<MeshTableEntry>)
    ensures
        final(table)@ == old(table)@ + more@,
{
    let ghost before = table@;
    let mut i: usize = 0;
    assert(table@ =~= before + more@.take(0));
    while i < more.len()
        invariant
            i <= more.len(),
            table@ == before + more@.take(i as int),
        decreases more.len() - i,
    {
        table.push(more[i]);
        i = i + 1;
        assert(table@ =~= before + more@.take(i as int));
    }
    assert(more@.take(i as int) =~= more@);
}

proof fn lemma_sums_monotone(slots: Seq<SlotMesh>, j: nat, k: nat)
    requires
        j <= k,
    ensures
        vertices_of(slots, j) <= vertices_of(slots, k),
        indices_of(slots, j) <= indices_of(slots, k),
    decreases k - j,
{
    if j < k {
        lemma_sums_monotone(slots, j, (k - 1) as nat);
    }
}

proof fn lemma_slot_total_grows(
    redirect: Seq<u32>,
    refcounts: Seq<u32>,
    slot: int,
    j: nat,
    k: nat,
)
    requires
        j <= k,
    ensures
        slot_total(redirect, refcounts, slot, j) <= slot_total(redirect, refcounts, slot, k),
    decreases k - j,
{
    if j < k {
        lemma_slot_total_grows(redirect, refcounts, slot, j, (k - 1) as nat);
    }
}

/// A new store accepts what [`accepts_first`](GpuMeshStore::accepts_first)
/// asks for.
pub proof fn lemma_first_accepted(store: GpuMeshStore, delta: MeshDelta)
    requires
        store.is_new(),
        GpuMeshStore::accepts_first(delta),
    ensures
        store.accepts(delta),
{
    assert(store.queued(delta) =~= delta.redirect_updates@);
    assert forall|k: nat| #[trigger]
        is_drain(
            delta.slots@,
            store.upload_slots_cap as nat,
            store.upload_bytes_cap as nat,
            k,
        ) implies store.fits(delta, k) by {
        assert forall|s: int| 0 <= s < store.synced_slots + k implies #[trigger] slot_total(
            store.landed(delta, k),
            delta.refcounts@,
            s,
            delta.refcounts@.len(),
        ) <= u32::MAX by {
            lemma_slot_total_bound(
                store.landed(delta, k),
                delta.refcounts@,
                s,
                delta.refcounts@.len(),
            );
        }
    }
}

pub proof fn lemma_slot_total_bound(redirect: Seq<u32>, refcounts: Seq<u32>, slot: int, ids: nat)
    ensures
        slot_total(redirect, refcounts, slot, ids) <= total(refcounts, ids),
    decreases ids,
{
    if ids > 0 {
        lemma_slot_total_bound(redirect, refcounts, slot, (ids - 1) as nat);
    }
}

/// A batch appended behind the cursors keeps the index ranges tiled.
proof fn lemma_tiles(
    table: Seq<MeshTableEntry>,
    slots: Seq<SlotMesh>,
    vertex_used: u32,
    index_used: u32,
    k: nat,
)
    requires
        tiles_indices(table, index_used as int),
        k <= slots.len(),
        index_used + indices_of(slots, k) <= u32::MAX,
    ensures
        tiles_indices(
            table + batch_entries(slots, vertex_used, index_used, k),
            index_used + indices_of(slots, k),
        ),
    decreases k,
{
    let all = table + batch_entries(slots, vertex_used, index_used, k);
    if k == 0 {
        assert(all =~= table);
    } else {
        let j = (k - 1) as nat;
        lemma_sums_monotone(slots, j, k);
        lemma_tiles(table, slots, vertex_used, index_used, j);
        let before = table + batch_entries(slots, vertex_used, index_used, j);
        let last = batch_entry(slots, vertex_used, index_used, j as int);
        assert(all =~= before.push(last));
        assert forall|s: int| 0 <= s < all.len() - 1 implies (#[trigger] all[s]).first_index
            + all[s].index_count == all[s + 1].first_index by {
            if s < before.len() - 1 {
                assert(all[s] == before[s]);
                assert(all[s + 1] == before[s + 1]);
            } else {
                assert(all[s] == before.last());
                assert(all[s + 1] == last);
            }
        }
        if before.len() > 0 {
            assert(all[0] == before[0]);
        }
    }
}

proof fn lemma_totals_partition(
    redirect: Seq<u32>,
    refcounts: Seq<u32>,
    slots: nat,
    ids: nat,
)
    requires
        slots > 0,
        all_resident(redirect, slots as int),
    ensures
        sum_of_totals(redirect, refcounts, slots, ids) == total(refcounts, ids),
    decreases ids,
{
    if ids == 0 {
        lemma_sum_zero(redirect, refcounts, slots);
    } else {
        lemma_totals_partition(redirect, refcounts, slots, (ids - 1) as nat);
        lemma_sum_step(redirect, refcounts, slots, ids);
    }
}

/// The sum, over the first `slots` slots, of what `ids` ids add to each.
pub open spec fn sum_of_totals(
    redirect: Seq<u32>,
    refcounts: Seq<u32>,
    slots: nat,
    ids: nat,
) -> nat
    decreases slots,
{
    if slots == 0 {
        0
    } else {
        sum_of_totals(redirect, refcounts, (slots - 1) as nat, ids) + slot_total(
            redirect,
            refcounts,
            slots - 1,
            ids,
        )
    }
}

proof fn lemma_sum_zero(redirect: Seq<u32>, refcounts: Seq<u32>, slots: nat)
    ensures
        sum_of_totals(redirect, refcounts, slots, 0) == 0,
    decreases slots,
{
    if slots > 0 {
        lemma_sum_zero(redirect, refcounts, (slots - 1) as nat);
    }
}

/// One more id adds its count to the sum exactly once, in the slot that it
/// resolves to.
proof fn lemma_sum_step(redirect: Seq<u32>, refcounts: Seq<u32>, slots: nat, ids: nat)
    requires
        ids > 0,
    ensures
        sum_of_totals(redirect, refcounts, slots, ids) == sum_of_totals(
            redirect,
            refcounts,
            slots,
            (ids - 1) as nat,
        ) + if resolved(redirect, ids - 1) < slots {
            refcounts[ids - 1] as nat
        } else {
            0
        },
    decreases slots,
{
    if slots > 0 {
        lemma_sum_step(redirect, refcounts, (slots - 1) as nat, ids);
    }
}

/// Every renderer is drawn exactly once: over all uploaded slots, the instance
/// totals add up to the reference counts.
pub proof fn every_instance_has_one_slot(redirect: Seq<u32>, refcounts: Seq<u32>, slots: nat)
    requires
        slots > 0,
        all_resident(redirect, slots as int),
    ensures
        sum_of_totals(redirect, refcounts, slots, refcounts.len()) == total(
            refcounts,
            refcounts.len(),
        ),
{
    lemma_totals_partition(redirect, refcounts, slots, refcounts.len());
}

/// No id ever resolves to a slot whose geometry is not resident: once a sync
/// has uploaded anything, every id of a well-formed store, known or not,
/// resolves to an uploaded slot with a table entry.
pub proof fn redirects_never_dangle(store: GpuMeshStore, id: int)
    requires
        store.wf(),
        store.synced_slots > 0,
    ensures
        resolved(store.cpu_redirect@, id) < store.synced_slots,
        resolved(store.cpu_redirect@, id) < store.cpu_table.len(),
{
}

/// Totals that count per slot add up slot by slot.
pub proof fn lemma_totals_add_up(
    redirect: Seq<u32>,
    refcounts: Seq<u32>,
    totals: Seq<u32>,
    n: nat,
)
    requires
        n <= totals.len(),
        forall|s: int|
            0 <= s < totals.len() ==> #[trigger] totals[s] == slot_total(
                redirect,
                refcounts,
                s,
                refcounts.len(),
            ),
    ensures
        total(totals, n) == sum_of_totals(redirect, refcounts, n, refcounts.len()),
    decreases n,
{
    if n > 0 {
        lemma_totals_add_up(redirect, refcounts, totals, (n - 1) as nat);
        assert(totals[n - 1] == slot_total(redirect, refcounts, n - 1, refcounts.len()));
    }
}

/// A sync only goes forward, and as far as its budget allows. With `delta`'s
/// slots the registry has so many more than the store: the store ends at or
/// below that, past where it was if it lagged, and no uploaded slot's geometry
/// changes. Every id, known or not, resolves to an uploaded slot. The sync
/// counts as a change exactly if a slot was uploaded, a redirect flipped or a
/// buffer grew, and the totals count every reference once.
pub proof fn syncs_only_go_forward(
    before: GpuMeshStore,
    after: GpuMeshStore,
    delta: MeshDelta,
    sync: MeshSync,
)
    requires
        before.wf(),
        before.accepts(delta),
        after.wf(),
        after.synced(before, delta, sync),
    ensures
        before.synced_slots <= after.synced_slots <= before.synced_slots + delta.slots.len(),
        delta.slots.len() > 0 ==> after.synced_slots > before.synced_slots,
        after.cpu_table.len() == after.synced_slots,
        forall|s: int|
            0 <= s < before.synced_slots ==> after.cpu_table@[s] == before.cpu_table@[s],
        before.synced_slots + delta.slots.len() > 0 ==> forall|id: int|
            #[trigger] resolved(after.cpu_redirect@, id) < after.synced_slots,
        sync.changed == (after.synced_slots > before.synced_slots || sync.flips.len() > 0
            || after.vertex_cap > before.vertex_cap || after.index_cap > before.index_cap
            || after.table_cap > before.table_cap || after.redirect_cap > before.redirect_cap),
        sync.totals.len() == after.synced_slots,
        total(sync.totals@, sync.totals@.len()) == total(
            delta.refcounts@,
            delta.refcounts@.len(),
        ),
{
    let totals = sync.totals@;
    let redirect = after.cpu_redirect@;
    let refcounts = delta.refcounts@;
    assert forall|s: int| 0 <= s < totals.len() implies #[trigger] totals[s] == slot_total(
        redirect,
        refcounts,
        s,
        refcounts.len(),
    ) by {
        assert(before.fits(delta, sync.placements@.len()));
        assert(redirect == before.landed(delta, sync.placements@.len()));
    }
    if totals.len() > 0 {
        lemma_totals_add_up(redirect, refcounts, totals, totals.len());
        every_instance_has_one_slot(redirect, refcounts, totals.len());
    }
}

/// Two uploaded slots never share an index of the mega buffer, and no slot
/// reaches past what has been written.
pub proof fn slot_geometry_is_disjoint(store: GpuMeshStore, a: int, b: int)
    requires
        store.wf(),
        0 <= a < b < store.synced_slots,
    ensures
        store.cpu_table[a].first_index + store.cpu_table[a].index_count
            <= store.cpu_table[b].first_index,
        store.cpu_table[b].first_index + store.cpu_table[b].index_count <= store.index_used,
{
    lemma_tile_order(store.cpu_table@, store.index_used as int, a, b);
}

proof fn lemma_tile_order(t: Seq<MeshTableEntry>, used: int, a: int, b: int)
    requires
        tiles_indices(t, used),
        0 <= a < b < t.len(),
    ensures
        t[a].first_index + t[a].index_count <= t[b].first_index,
        t[b].first_index + t[b].index_count <= used,
    decreases t.len() - b + (b - a), b - a,
{
    lemma_tile_end(t, used, b);
    assert(t[a].first_index + t[a].index_count == t[a + 1].first_index);
    if a + 1 < b {
        lemma_tile_order(t, used, a + 1, b);
    }
}

proof fn lemma_tile_end(t: Seq<MeshTableEntry>, used: int, b: int)
    requires
        tiles_indices(t, used),
        0 <= b < t.len(),
    ensures
        t[b].first_index + t[b].index_count <= used,
    decreases t.len() - b,
{
    if b + 1 < t.len() {
        assert(t[b].first_index + t[b].index_count == t[b + 1].first_index);
        lemma_tile_end(t, used, b + 1);
    }
}

/// Every slot that a sync uploads is described by its own mesh: the entry that
/// it gets in the table has the mesh's index count and bounding sphere, and
/// its offsets are the ones at which its geometry is placed. The slots of a
/// batch lie end to end behind what was there.
pub proof fn uploads_describe_their_mesh(
    before: GpuMeshStore,
    after: GpuMeshStore,
    delta: MeshDelta,
    sync: MeshSync,
    i: int,
)
    requires
        before.wf(),
        before.accepts(delta),
        after.wf(),
        after.synced(before, delta, sync),
        0 <= i < sync.placements.len(),
    ensures
        ({
            let n = sync.placements.len();
            let p = sync.placements[i];
            let e = after.cpu_table[before.synced_slots + i];
            let s = delta.slots[i];
            &&& sync.table_entries[i] == e
            &&& e.index_count == s.index_count
            &&& e.first_index == p.first_index
            &&& e.vertex_offset == p.vertex_offset as i32
            &&& e.bounds_center == s.bounds.center
            &&& e.bounds_radius == s.bounds.radius
            &&& p.vcount == s.vertex_count
            &&& p.icount == s.index_count
            &&& s.texture is Some ==> sync.texture_entries[i] == (s.texture->0).0
            &&& s.texture is None ==> sync.texture_entries[i] == u32::MAX
            &&& i == 0 ==> p.vertex_offset == before.vertex_used && p.first_index
                == before.index_used
            &&& i > 0 ==> p.vertex_offset == sync.placements[i - 1].vertex_offset
                + sync.placements[i - 1].vcount && p.first_index == sync.placements[i
                - 1].first_index + sync.placements[i - 1].icount
            &&& i == n - 1 ==> after.vertex_used == p.vertex_offset + p.vcount && after.index_used
                == p.first_index + p.icount
            &&& sync.first_slot == before.synced_slots
            &&& after.synced_slots == before.synced_slots + n
            &&& sync.table_entries.len() == n
            &&& sync.texture_entries.len() == n
        }),
{
    let k = sync.placements@.len();
    assert(before.fits(delta, k));
    lemma_sums_monotone(delta.slots@, i as nat, k);
    lemma_sums_monotone(delta.slots@, (i + 1) as nat, k);
    if i > 0 {
        lemma_sums_monotone(delta.slots@, (i - 1) as nat, k);
        assert(vertices_of(delta.slots@, i as nat) == vertices_of(delta.slots@, (i - 1) as nat)
            + delta.slots@[i - 1].vertex_count);
        assert(sync.placements[i - 1].vcount == delta.slots[i - 1].vertex_count);
    }
    assert(vertices_of(delta.slots@, (i + 1) as nat) == vertices_of(delta.slots@, i as nat)
        + delta.slots@[i].vertex_count);
    assert(indices_of(delta.slots@, (i + 1) as nat) == indices_of(delta.slots@, i as nat)
        + delta.slots@[i].index_count);
    assert(after.cpu_table@[before.synced_slots + i] == sync.table_entries@[i]);
}

/// A buffer is reallocated exactly when what it must hold has outgrown it, and
/// all that was in use of the old one is kept.
pub proof fn syncs_grow_what_they_outgrow(
    before: GpuMeshStore,
    after: GpuMeshStore,
    delta: MeshDelta,
    sync: MeshSync,
)
    requires
        before.wf(),
        after.wf(),
        after.synced(before, delta, sync),
    ensures
        sync.grow_vertex is Some <==> after.vertex_used > before.vertex_cap,
        sync.grow_vertex is Some ==> sync.grow_vertex->0.new_cap == after.vertex_cap
            && sync.grow_vertex->0.keep == before.vertex_used,
        sync.grow_vertex is None ==> after.vertex_cap == before.vertex_cap,
        sync.grow_index is Some <==> after.index_used > before.index_cap,
        sync.grow_index is Some ==> sync.grow_index->0.new_cap == after.index_cap
            && sync.grow_index->0.keep == before.index_used,
        sync.grow_index is None ==> after.index_cap == before.index_cap,
        sync.grow_table is Some <==> after.synced_slots > before.table_cap,
        sync.grow_table is Some ==> sync.grow_table->0.new_cap == after.table_cap
            && sync.grow_table->0.keep == before.synced_slots,
        sync.grow_table is None ==> after.table_cap == before.table_cap,
        sync.grow_redirect is Some <==> delta.mesh_id_count > before.redirect_cap,
        sync.grow_redirect is Some ==> sync.grow_redirect->0.new_cap == after.redirect_cap
            && sync.grow_redirect->0.keep == before.redirect_cap,
        sync.grow_redirect is None ==> after.redirect_cap == before.redirect_cap,
        after.vertex_used <= after.vertex_cap,
        after.index_used <= after.index_cap,
        after.synced_slots <= after.table_cap,
        delta.mesh_id_count <= after.redirect_cap,
        sync.changed ==> sync.submit,
        sync.submit <==> sync.placements.len() > 0 || before.pending_redirects.len() > 0
            || delta.redirect_updates.len() > 0 || delta.mesh_id_count > before.redirect_cap,
        after.upload_slots_cap == before.upload_slots_cap,
        after.upload_bytes_cap == before.upload_bytes_cap,
{
}

/// One more slot weighs its vertices and its indices, at the size of each.
pub proof fn bytes_add_up(slots: Seq<SlotMesh>, k: nat)
    requires
        k < slots.len(),
    ensures
        bytes_of(slots, 0) == 0,
        bytes_of(slots, k + 1) == bytes_of(slots, k) + 32 * slots[k as int].vertex_count + 4
            * slots[k as int].index_count,
{
}

/// A sync stops only where its budget ends: a slot is left over only once
/// either cap is reached, and neither was reached a slot earlier.
pub proof fn syncs_use_their_budget(
    before: GpuMeshStore,
    after: GpuMeshStore,
    delta: MeshDelta,
    sync: MeshSync,
)
    requires
        before.wf(),
        after.synced(before, delta, sync),
    ensures
        sync.placements.len() <= before.upload_slots_cap,
        sync.placements.len() <= delta.slots.len(),
        sync.placements.len() < delta.slots.len() ==> sync.placements.len()
            == before.upload_slots_cap || bytes_of(delta.slots@, sync.placements.len() as nat)
            >= before.upload_bytes_cap,
        sync.placements.len() > 1 ==> bytes_of(delta.slots@, (sync.placements.len() - 1) as nat)
            < before.upload_bytes_cap,
        delta.slots.len() > 0 ==> sync.placements.len() > 0,
{
}

/// Every renderer of a mesh is counted at the slot that the mesh draws as, and
/// at no other: taking away `n` renderers of one id takes `n` from that slot's
/// total.
pub proof fn references_count_at_their_slot(
    redirect: Seq<u32>,
    refcounts: Seq<u32>,
    id: int,
    n: u32,
    slot: int,
)
    requires
        0 <= id < refcounts.len(),
        n <= refcounts[id],
    ensures
        ({
            let fewer = refcounts.update(id, (refcounts[id] - n) as u32);
            let mine = if id < redirect.len() {
                redirect[id] as int
            } else {
                0
            };
            slot_total(redirect, refcounts, slot, refcounts.len()) - slot_total(
                redirect,
                fewer,
                slot,
                refcounts.len(),
            ) == if slot == mine {
                n as int
            } else {
                0
            }
        }),
{
    lemma_fewer(redirect, refcounts, id, n, slot, refcounts.len());
}

proof fn lemma_fewer(
    redirect: Seq<u32>,
    refcounts: Seq<u32>,
    id: int,
    n: u32,
    slot: int,
    ids: nat,
)
    requires
        0 <= id < refcounts.len(),
        n <= refcounts[id],
        ids <= refcounts.len(),
    ensures
        slot_total(redirect, refcounts, slot, ids) - slot_total(
            redirect,
            refcounts.update(id, (refcounts[id] - n) as u32),
            slot,
            ids,
        ) == if id < ids && resolved(redirect, id) == slot {
            n as int
        } else {
            0
        },
    decreases ids,
{
    if ids > 0 {
        lemma_fewer(redirect, refcounts, id, n, slot, (ids - 1) as nat);
    }
}

/// A rescaled cap that is within its bounds is taken as it is; one that is not
/// becomes the bound that it passed.
pub proof fn caps_stay_in_bounds(v: usize, lo: usize, hi: usize)
    requires
        lo <= hi,
    ensures
        lo <= clamped(v, lo, hi) <= hi,
        lo <= v <= hi ==> clamped(v, lo, hi) == v,
        v < lo ==> clamped(v, lo, hi) == lo,
        v > hi ==> clamped(v, lo, hi) == hi,
{
}

/// A buffer grows exactly if what it needs does not fit, to where it does, and
/// with the elements to keep that were asked for.
pub proof fn growth_makes_room(cap: u32, needed: int, keep: u32)
    requires
        0 <= needed <= u32::MAX,
    ensures
        growth(cap, needed, keep) is Some <==> needed > cap,
        growth(cap, needed, keep) is Some ==> growth(cap, needed, keep)->0.keep == keep,
        growth(cap, needed, keep) is Some ==> growth(cap, needed, keep)->0.new_cap >= needed,
        growth(cap, needed, keep) is Some ==> growth(cap, needed, keep)->0.new_cap <= 2 * cap
            || growth(cap, needed, keep)->0.new_cap == needed,
{
}

/// What lands with a sync is what waited and what is new, as far as its slot is
/// uploaded now. The rest waits on, and an id that nothing lands of resolves to
/// what it did.
pub proof fn syncs_land_what_is_uploaded(
    before: GpuMeshStore,
    after: GpuMeshStore,
    delta: MeshDelta,
    sync: MeshSync,
    f: Flip,
    id: int,
)
    requires
        before.wf(),
        before.accepts(delta),
        after.wf(),
        after.synced(before, delta, sync),
    ensures
        sync.flips@.contains(f) ==> f.slot < after.synced_slots,
        after.pending_redirects@.contains(f) ==> f.slot >= after.synced_slots,
        before.pending_redirects@.contains(f) || delta.redirect_updates@.contains(f)
            ==> sync.flips@.contains(f) || after.pending_redirects@.contains(f),
        sync.flips@.contains(f) || after.pending_redirects@.contains(f)
            ==> before.pending_redirects@.contains(f) || delta.redirect_updates@.contains(f),
        sync.flips.len() + after.pending_redirects.len() == before.pending_redirects.len()
            + delta.redirect_updates.len(),
        after.cpu_redirect.len() >= before.cpu_redirect.len(),
        after.cpu_redirect.len() >= delta.mesh_id_count,
        id >= 0 && (forall|k: int| 0 <= k < sync.flips.len() ==> (#[trigger] sync.flips@[k]).id
            != id) ==> resolved(after.cpu_redirect@, id) == resolved(before.cpu_redirect@, id),
        0 < sync.flips.len() && sync.flips@.last().id == id ==> resolved(after.cpu_redirect@, id)
            == sync.flips@.last().slot,
{
    let a = before.pending_redirects@;
    let b = delta.redirect_updates@;
    let queued = before.queued(delta);
    let w = after.synced_slots as int;
    lemma_split(queued, w);
    flips_are_applied_or_deferred(queued, w);
    if queued.contains(f) {
        let i = choose|i: int| 0 <= i < queued.len() && queued[i] == f;
        if i < a.len() {
            assert(a[i] == f);
        } else {
            assert(b[i - a.len()] == f);
        }
    }
    if a.contains(f) {
        let i = choose|i: int| 0 <= i < a.len() && a[i] == f;
        assert(queued[i] == f);
    }
    if b.contains(f) {
        let i = choose|i: int| 0 <= i < b.len() && b[i] == f;
        assert(queued[a.len() + i] == f);
    }
    assert(before.fits(delta, sync.placements@.len()));
    let base = extended(before.cpu_redirect@, delta.mesh_id_count as int);
    lemma_flipped(base, sync.flips@, w);
    new_ids_are_placeholders(before.cpu_redirect@, delta.mesh_id_count as int, id);
    if 0 <= id < base.len() {
        the_last_flip_stands(base, sync.flips@, sync.flips.len() - 1, id);
    }
}

/// A new store holds nothing and waits for nothing.
pub proof fn new_mesh_stores_are_empty(s: GpuMeshStore)
    requires
        s.is_new(),
    ensures
        s.vertex_used == 0,
        s.index_used == 0,
        s.synced_slots == 0,
        s.cpu_table.len() == 0,
        s.cpu_redirect.len() == 0,
        s.pending_redirects.len() == 0,
        s.vertex_cap >= 1 && s.index_cap >= 1 && s.table_cap >= 1 && s.redirect_cap >= 1,
        s.upload_slots_cap == 1024,
        s.upload_bytes_cap == 8388608,
{
}

/// The totals count by the redirect as it is once the sync has landed: what
/// each slot will be drawn for is what resolves to it from then on.
pub proof fn totals_go_by_the_landed_redirect(
    before: GpuMeshStore,
    after: GpuMeshStore,
    delta: MeshDelta,
    sync: MeshSync,
    s: int,
)
    requires
        before.wf(),
        before.accepts(delta),
        after.wf(),
        after.synced(before, delta, sync),
        0 <= s < after.synced_slots,
    ensures
        sync.totals.len() == after.synced_slots,
        sync.totals[s] == slot_total(
            after.cpu_redirect@,
            delta.refcounts@,
            s,
            delta.refcounts.len() as nat,
        ),
{
    assert(before.fits(delta, sync.placements@.len()));
    assert(after.cpu_redirect@ == before.landed(delta, sync.placements@.len()));
}

} // verus!
