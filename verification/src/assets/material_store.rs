//! Device-local mirror of the material registry.
//!
//! Materials are tiny, so a sync uploads everything pending: new slots, edits
//! of resident slots, and the redirect flips whose slot is resident as of the
//! same submission. Until then an id reads slot zero, the default material.

use crate::assets::gpu_store::{growth, plan_growth, Grow, NO_TEXTURE};
use crate::assets::redirect::{
    append_flips, deferred, flips_are_applied_or_deferred, lemma_split, resident, split_flips, Flip,
};
use crate::assets::TextureId;
use crate::growth::grown;
use vstd::prelude::*;

verus! {

pub const INITIAL_MATERIAL_CAP: u32 = 64;

pub const INITIAL_MATERIAL_REDIRECT_CAP: u32 = 64;

/// A material as it is authored; numbers are bit patterns.
#[derive(Clone, Copy, PartialEq, Eq, Debug)]
pub struct MaterialData {
    pub base_color: [u32; 4],
    pub emissive: [u32; 3],
    pub roughness: u32,
    pub metallic: u32,
    pub base_color_tex: Option<TextureId>,
}

/// A material as the fragment shader reads it: forty-eight bytes.
#[derive(Clone, Copy, PartialEq, Eq, Debug)]
pub struct GpuMaterial {
    pub base_color: [u32; 4],
    pub emissive: [u32; 3],
    pub roughness: u32,
    pub metallic: u32,
    /// The raw texture id, or [`NO_TEXTURE`].
    pub base_color_tex: u32,
    pub _pad: [u32; 2],
}

impl GpuMaterial {
    /// `self` is how the shader reads `d`.
    pub open spec fn reads(&self, d: MaterialData) -> bool {
        &&& self.base_color == d.base_color
        &&& self.emissive == d.emissive
        &&& self.roughness == d.roughness
        &&& self.metallic == d.metallic
        &&& self.base_color_tex == match d.base_color_tex {
            Some(t) => t.0,
            None => NO_TEXTURE,
        }
        &&& self._pad[0] == 0
        &&& self._pad[1] == 0
    }

    pub fn from_data(d: MaterialData) -> (r: GpuMaterial)
        ensures
            r.reads(d),
            r.base_color == d.base_color,
            r.emissive == d.emissive,
            r.roughness == d.roughness,
            r.metallic == d.metallic,
            d.base_color_tex is Some ==> r.base_color_tex == (d.base_color_tex->0).0,
            d.base_color_tex is None ==> r.base_color_tex == u32::MAX,
    {
        let tex: u32 = match d.base_color_tex {
            Some(t) => t.0,
            None => NO_TEXTURE,
        };
        GpuMaterial {
            base_color: d.base_color,
            emissive: d.emissive,
            roughness: d.roughness,
            metallic: d.metallic,
            base_color_tex: tex,
            _pad: [0, 0],
        }
    }
}

/// What a sync drains from the registry.
pub struct MaterialDelta {
    /// Every slot's current data.
    pub slots: Vec<MaterialData>,
    /// The slots edited in place since the last drain.
    pub dirty_slots: Vec<u32>,
    pub redirect_updates: Vec<Flip>,
    pub material_id_count: u32,
}

/// An edit of a resident slot.
#[derive(Clone, Copy)]
pub struct MaterialPatch {
    pub slot: u32,
    pub data: GpuMaterial,
}

/// One sync's upload, to be recorded into one submission in field order.
pub struct MaterialSync {
    /// Whether anything changed: the descriptor sets are stale.
    pub changed: bool,
    /// Whether there is anything to submit.
    pub submit: bool,
    pub grow_redirect: Option<Grow>,
    pub grow_materials: Option<Grow>,
    /// The first new slot, and the data of the new slots from there on.
    pub first_slot: u32,
    pub new_slots: Vec<GpuMaterial>,
    pub patches: Vec<MaterialPatch>,
    pub flips: Vec<Flip>,
}

/// The edited slots that lie below the watermark, in order. Those above it
/// upload with their current data anyway.
pub open spec fn resident_edits(dirty: Seq<u32>, watermark: int) -> Seq<u32>
    decreases dirty.len(),
{
    if dirty.len() == 0 {
        Seq::empty()
    } else {
        let before = resident_edits(dirty.drop_last(), watermark);
        if dirty.last() < watermark {
            before.push(dirty.last())
        } else {
            before
        }
    }
}

/// Mirror of the material registry on the render side.
pub struct GpuMaterialStore {
    pub materials_cap: u32,
    pub redirect_cap: u32,
    /// Slots uploaded so far.
    pub synced_slots: u32,
    /// Flips awaiting their slot's upload.
    pub pending_redirects: Vec<Flip>,
}

impl GpuMaterialStore {
    pub open spec fn wf(&self) -> bool {
        &&& self.synced_slots <= self.materials_cap
        &&& forall|i: int|
            0 <= i < self.pending_redirects.len() ==> (#[trigger] self.pending_redirects[i]).slot
                >= self.synced_slots
    }

    /// Nothing was synced yet.
    pub open spec fn is_new(&self) -> bool {
        &&& self.materials_cap == INITIAL_MATERIAL_CAP
        &&& self.redirect_cap == INITIAL_MATERIAL_REDIRECT_CAP
        &&& self.synced_slots == 0
        &&& self.pending_redirects.len() == 0
    }

    /// Empty mirror at the initial capacities, redirect zero-filled.
    pub fn new() -> (r: Self)
        ensures
            r.wf(),
            r.is_new(),
    {
        GpuMaterialStore {
            materials_cap: INITIAL_MATERIAL_CAP,
            redirect_cap: INITIAL_MATERIAL_REDIRECT_CAP,
            synced_slots: 0,
            pending_redirects: Vec::new(),
        }
    }

    /// Whether `sync` can take `delta`: the registry never forgets a slot,
    /// and its counts are 32-bit.
    pub open spec fn accepts(&self, delta: MaterialDelta) -> bool {
        self.synced_slots <= delta.slots.len() <= u32::MAX
    }

    /// `self` is `s0` after a sync with `delta`, and `r` is what to upload for
    /// it.
    pub open spec fn synced(
        &self,
        s0: GpuMaterialStore,
        delta: MaterialDelta,
        r: MaterialSync,
    ) -> bool {
        let s1 = *self;
        let watermark = delta.slots.len() as int;
        let queued = s0.pending_redirects@ + delta.redirect_updates@;
        let edits = resident_edits(delta.dirty_slots@, s0.synced_slots as int);
        &&& s1.synced_slots == watermark
        &&& s1.pending_redirects@ == deferred(queued, watermark)
        &&& r.flips@ == resident(queued, watermark)
        &&& r.first_slot == s0.synced_slots
        &&& r.new_slots.len() == watermark - s0.synced_slots
        &&& forall|i: int|
            0 <= i < r.new_slots.len() ==> (#[trigger] r.new_slots[i]).reads(
                delta.slots[s0.synced_slots + i],
            )
        &&& r.patches.len() == edits.len()
        &&& forall|i: int|
            0 <= i < r.patches.len() ==> (#[trigger] r.patches[i]).slot == edits[i]
                && r.patches[i].data.reads(delta.slots[edits[i] as int])
        &&& r.grow_redirect == growth(
            s0.redirect_cap,
            delta.material_id_count as int,
            s0.redirect_cap,
        )
        &&& r.grow_materials == growth(s0.materials_cap, watermark, s0.synced_slots)
        &&& s1.redirect_cap == grown(
            s0.redirect_cap as nat,
            delta.material_id_count as nat,
            u32::MAX as nat,
        )
        &&& s1.materials_cap == grown(
            s0.materials_cap as nat,
            watermark as nat,
            u32::MAX as nat,
        )
        &&& r.changed == (r.new_slots.len() > 0 || r.patches.len() > 0 || queued.len() > 0
            || r.grow_redirect is Some || r.grow_materials is Some)
        &&& r.submit == (r.new_slots.len() > 0 || r.patches.len() > 0 || r.flips.len() > 0)
    }

    /// Drains the registry's changes and plans the upload of all of them.
    pub fn sync(&mut self, delta: &MaterialDelta) -> (r: MaterialSync)
        requires
            old(self).wf(),
            old(self).accepts(*delta),
        ensures
            final(self).wf(),
            final(self).synced(*old(self), *delta, r),
    {
        let from: u32 = self.synced_slots;
        let ghost s0 = *self;
        let new_synced: u32 = delta.slots.len() as u32;
        append_flips(&mut self.pending_redirects, &delta.redirect_updates);
        let ghost queued = self.pending_redirects@;
        let any_queued: bool = self.pending_redirects.len() > 0;

        let mut new_slots: Vec<GpuMaterial> = Vec::new();
        let mut s: u32 = from;
        while s < new_synced
            invariant
                from <= s <= new_synced,
                new_synced == delta.slots.len(),
                new_slots.len() == s - from,
                forall|i: int|
                    0 <= i < new_slots.len() ==> (#[trigger] new_slots[i]).reads(
                        delta.slots[from + i],
                    ),
            decreases new_synced - s,
        {
            new_slots.push(GpuMaterial::from_data(delta.slots[s as usize]));
            s = s + 1;
        }

        let mut patches: Vec<MaterialPatch> = Vec::new();
        let mut d: usize = 0;
        while d < delta.dirty_slots.len()
            invariant
                d <= delta.dirty_slots.len(),
                from <= delta.slots.len(),
                patches.len() == resident_edits(
                    delta.dirty_slots@.take(d as int),
                    from as int,
                ).len(),
                forall|i: int|
                    0 <= i < patches.len() ==> (#[trigger] patches[i]).slot == resident_edits(
                        delta.dirty_slots@.take(d as int),
                        from as int,
                    )[i] && patches[i].data.reads(delta.slots[patches[i].slot as int]),
            decreases delta.dirty_slots.len() - d,
        {
            let slot: u32 = delta.dirty_slots[d];
            assert(delta.dirty_slots@.take(d + 1).drop_last() =~= delta.dirty_slots@.take(d as int));
            if slot < from {
                patches.push(
                    MaterialPatch {
                        slot,
                        data: GpuMaterial::from_data(delta.slots[slot as usize]),
                    },
                );
            }
            d = d + 1;
        }
        assert(delta.dirty_slots@.take(d as int) =~= delta.dirty_slots@);

        let (grow_redirect, redirect_cap) = plan_growth(
            self.redirect_cap,
            delta.material_id_count,
            self.redirect_cap,
        );
        let (grow_materials, materials_cap) = plan_growth(self.materials_cap, new_synced, from);
        let (flips, still_pending) = split_flips(&self.pending_redirects, new_synced);
        proof {
            lemma_split(queued, new_synced as int);
        }
        self.pending_redirects = still_pending;
        self.redirect_cap = redirect_cap;
        self.materials_cap = materials_cap;
        self.synced_slots = new_synced;
        MaterialSync {
            changed: new_slots.len() > 0 || patches.len() > 0 || any_queued
                || grow_redirect.is_some() || grow_materials.is_some(),
            submit: new_slots.len() > 0 || patches.len() > 0 || flips.len() > 0,
            grow_redirect,
            grow_materials,
            first_slot: from,
            new_slots,
            patches,
            flips,
        }
    }
}

/// An id never resolves to a slot whose data is not resident: every flip that
/// lands with a sync points below the watermark that the sync leaves, and
/// every flip that does not is kept for a later one.
pub proof fn material_flips_are_resident(queued: Seq<Flip>, watermark: int)
    ensures
        forall|i: int|
            0 <= i < resident(queued, watermark).len() ==> (#[trigger] resident(
                queued,
                watermark,
            )[i]).slot < watermark,
        forall|f: Flip| #[trigger]
            queued.contains(f) ==> resident(queued, watermark).contains(f) || deferred(
                queued,
                watermark,
            ).contains(f),
{
    lemma_split(queued, watermark);
    flips_are_applied_or_deferred(queued, watermark);
}

/// Every new slot is uploaded as it was authored, property by property, and so
/// is every resident slot that was edited; an edit of a slot that is new
/// anyway, or of none, patches nothing. After the sync every slot that there
/// is has been uploaded.
pub proof fn materials_upload_as_authored(
    before: GpuMaterialStore,
    after: GpuMaterialStore,
    delta: MaterialDelta,
    sync: MaterialSync,
    i: int,
    slot: u32,
)
    requires
        before.wf(),
        before.accepts(delta),
        after.synced(before, delta, sync),
    ensures
        after.synced_slots == delta.slots.len(),
        sync.first_slot == before.synced_slots,
        sync.new_slots.len() == delta.slots.len() - before.synced_slots,
        0 <= i < sync.new_slots.len() ==> {
            let g = sync.new_slots[i];
            let d = delta.slots[before.synced_slots + i];
            &&& g.base_color == d.base_color
            &&& g.emissive == d.emissive
            &&& g.roughness == d.roughness
            &&& g.metallic == d.metallic
            &&& d.base_color_tex is Some ==> g.base_color_tex == (d.base_color_tex->0).0
            &&& d.base_color_tex is None ==> g.base_color_tex == u32::MAX
        },
        0 <= i < sync.patches.len() ==> {
            let g = sync.patches[i].data;
            let s = sync.patches[i].slot;
            let d = delta.slots[s as int];
            &&& s < before.synced_slots
            &&& delta.dirty_slots@.contains(s)
            &&& g.base_color == d.base_color
            &&& g.emissive == d.emissive
            &&& g.roughness == d.roughness
            &&& g.metallic == d.metallic
            &&& d.base_color_tex is Some ==> g.base_color_tex == (d.base_color_tex->0).0
            &&& d.base_color_tex is None ==> g.base_color_tex == u32::MAX
        },
        slot < before.synced_slots && delta.dirty_slots@.contains(slot) ==> exists|k: int|
            0 <= k < sync.patches.len() && (#[trigger] sync.patches[k]).slot == slot,
        sync.grow_materials is Some <==> delta.slots.len() > before.materials_cap,
        sync.grow_materials is Some ==> sync.grow_materials->0.new_cap == after.materials_cap
            && sync.grow_materials->0.keep == before.synced_slots,
        sync.grow_materials is None ==> after.materials_cap == before.materials_cap,
        sync.grow_redirect is Some <==> delta.material_id_count > before.redirect_cap,
        sync.grow_redirect is Some ==> sync.grow_redirect->0.new_cap == after.redirect_cap
            && sync.grow_redirect->0.keep == before.redirect_cap,
        sync.grow_redirect is None ==> after.redirect_cap == before.redirect_cap,
        delta.slots.len() <= after.materials_cap,
        delta.material_id_count <= after.redirect_cap,
        sync.submit ==> sync.changed,
        sync.flips.len() > 0 || sync.patches.len() > 0 || sync.new_slots.len() > 0 ==> sync.submit,
        sync.submit ==> sync.flips.len() > 0 || sync.patches.len() > 0 || sync.new_slots.len() > 0,
        sync.changed <==> sync.new_slots.len() > 0 || sync.patches.len() > 0
            || before.pending_redirects.len() > 0 || delta.redirect_updates.len() > 0
            || delta.material_id_count > before.redirect_cap || delta.slots.len()
            > before.materials_cap,
{
    let edits = resident_edits(delta.dirty_slots@, before.synced_slots as int);
    if 0 <= i < sync.patches.len() {
        edits_of_resident_slots_are_kept(delta.dirty_slots@, before.synced_slots as int, edits[i]);
        assert(edits.contains(edits[i]));
    }
    edits_of_resident_slots_are_kept(delta.dirty_slots@, before.synced_slots as int, slot);
    if slot < before.synced_slots && delta.dirty_slots@.contains(slot) {
        let k = choose|k: int| 0 <= k < edits.len() && edits[k] == slot;
        assert(sync.patches[k].slot == slot);
    }
}

/// An edited slot is patched exactly if it lies below the watermark.
pub proof fn edits_of_resident_slots_are_kept(dirty: Seq<u32>, watermark: int, slot: u32)
    ensures
        resident_edits(dirty, watermark).contains(slot) <==> dirty.contains(slot) && slot
            < watermark,
        resident_edits(dirty, watermark).len() <= dirty.len(),
    decreases dirty.len(),
{
    if dirty.len() > 0 {
        let rest = dirty.drop_last();
        edits_of_resident_slots_are_kept(rest, watermark, slot);
        let e0 = resident_edits(rest, watermark);
        let e1 = resident_edits(dirty, watermark);
        if rest.contains(slot) {
            let i = choose|i: int| 0 <= i < rest.len() && rest[i] == slot;
            assert(dirty[i] == slot);
        }
        if dirty.contains(slot) {
            let i = choose|i: int| 0 <= i < dirty.len() && dirty[i] == slot;
            if i < rest.len() {
                assert(rest[i] == slot);
            }
        }
        if e0.contains(slot) {
            let i = choose|i: int| 0 <= i < e0.len() && e0[i] == slot;
            assert(e1[i] == slot);
        }
        if e1.contains(slot) {
            let i = choose|i: int| 0 <= i < e1.len() && e1[i] == slot;
            if i < e0.len() {
                assert(e0[i] == slot);
            } else {
                assert(dirty[dirty.len() - 1] == slot);
            }
        }
        if dirty.last() == slot && slot < watermark {
            assert(e1[e0.len() as int] == slot);
        }
    }
}

/// A new store holds nothing and waits for nothing.
pub proof fn new_material_stores_are_empty(s: GpuMaterialStore)
    requires
        s.is_new(),
    ensures
        s.synced_slots == 0,
        s.pending_redirects.len() == 0,
        s.materials_cap == 64,
        s.redirect_cap == 64,
{
}

/// What lands with a sync is what waited and what is new, as far as its slot is
/// uploaded now; the rest waits on.
pub proof fn material_syncs_land_what_is_uploaded(
    before: GpuMaterialStore,
    after: GpuMaterialStore,
    delta: MaterialDelta,
    sync: MaterialSync,
    f: Flip,
)
    requires
        after.synced(before, delta, sync),
    ensures
        sync.flips@.contains(f) ==> f.slot < after.synced_slots,
        after.pending_redirects@.contains(f) ==> f.slot >= after.synced_slots,
        before.pending_redirects@.contains(f) || delta.redirect_updates@.contains(f)
            ==> sync.flips@.contains(f) || after.pending_redirects@.contains(f),
        sync.flips@.contains(f) || after.pending_redirects@.contains(f)
            ==> before.pending_redirects@.contains(f) || delta.redirect_updates@.contains(f),
        sync.flips.len() + after.pending_redirects.len() == before.pending_redirects.len()
            + delta.redirect_updates.len(),
{
    let a = before.pending_redirects@;
    let b = delta.redirect_updates@;
    let queued = a + b;
    let w = after.synced_slots as int;
    lemma_split(queued, w);
    flips_are_applied_or_deferred(queued, w);
    if queued.contains(f) {
        let i = choose|i: int| 0 <= i < queued.len() && queued[i] == f;
        if i < a.len() {
            assert(a[i] == f);
        } else {
            assert(b[i - a.len()] == f);
        }
    }
    if a.contains(f) {
        let i = choose|i: int| 0 <= i < a.len() && a[i] == f;
        assert(queued[i] == f);
    }
    if b.contains(f) {
        let i = choose|i: int| 0 <= i < b.len() && b[i] == f;
        assert(queued[a.len() + i] == f);
    }
}

} // verus!
