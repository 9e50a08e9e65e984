//! Device-local mirror of the texture registry: one sampled image per slot,
//! bound as a fixed-size array whose unused tail is the placeholder.

use crate::assets::gpu_store::{growth, plan_growth, Grow};
use crate::assets::redirect::{append_flips, Flip};
use crate::growth::grown;
use vstd::prelude::*;

verus! {

/// Size of the fragment shader's sampler array.
pub const MAX_TEXTURES: u32 = 1024;

pub const INITIAL_TEXTURE_REDIRECT_CAP: u32 = 64;

/// Mirror of the texture registry on the render side.
pub struct GpuTextureStore {
    pub redirect_cap: u32,
    /// Slots uploaded so far.
    pub synced_slots: u32,
}

/// One sync's upload: images for the slots of `[first_slot, end_slot)`, and
/// the redirect words that land with them.
pub struct TextureSync {
    pub changed: bool,
    pub grow_redirect: Option<Grow>,
    pub first_slot: u32,
    pub end_slot: u32,
    /// The redirect words to patch, in order.
    pub flips: Vec<Flip>,
}

impl GpuTextureStore {
    pub open spec fn wf(&self) -> bool {
        self.synced_slots <= MAX_TEXTURES
    }

    /// Nothing was synced yet.
    pub open spec fn is_new(&self) -> bool {
        self.redirect_cap == INITIAL_TEXTURE_REDIRECT_CAP && self.synced_slots == 0
    }

    /// Empty mirror, redirect zero-filled.
    pub fn new() -> (r: Self)
        ensures
            r.wf(),
            r.is_new(),
    {
        GpuTextureStore { redirect_cap: INITIAL_TEXTURE_REDIRECT_CAP, synced_slots: 0 }
    }

    /// `self` is `s0` after a sync with a registry of that many slots and ids,
    /// and `r` is what to upload for it.
    pub open spec fn synced(
        &self,
        s0: GpuTextureStore,
        slot_count: u32,
        redirect_updates: Seq<Flip>,
        texture_id_count: u32,
        r: TextureSync,
    ) -> bool {
        &&& self.synced_slots == slot_count
        &&& r.first_slot == s0.synced_slots
        &&& r.end_slot == slot_count
        &&& r.flips@ == redirect_updates
        &&& r.grow_redirect == growth(s0.redirect_cap, texture_id_count as int, s0.redirect_cap)
        &&& self.redirect_cap == grown(
            s0.redirect_cap as nat,
            texture_id_count as nat,
            u32::MAX as nat,
        )
        &&& r.changed == (slot_count > s0.synced_slots || redirect_updates.len() > 0
            || texture_id_count > s0.redirect_cap)
    }

    /// Plans the upload of every slot that the registry has beyond the ones
    /// uploaded, and of `redirect_updates`, which land with them. More than
    /// [`MAX_TEXTURES`] slots cannot be bound.
    pub fn sync(
        &mut self,
        slot_count: u32,
        redirect_updates: &Vec<Flip>,
        texture_id_count: u32,
    ) -> (r: TextureSync)
        requires
            old(self).wf(),
            old(self).synced_slots <= slot_count <= MAX_TEXTURES,
        ensures
            final(self).wf(),
            final(self).synced(*old(self), slot_count, redirect_updates@, texture_id_count, r),
    {
        let from: u32 = self.synced_slots;
        let (grow_redirect, redirect_cap) = plan_growth(
            self.redirect_cap,
            texture_id_count,
            self.redirect_cap,
        );
        let changed: bool = slot_count > from || redirect_updates.len() > 0
            || grow_redirect.is_some();
        self.redirect_cap = redirect_cap;
        self.synced_slots = slot_count;
        let mut flips: Vec<Flip> = Vec::new();
        append_flips(&mut flips, redirect_updates);
        assert(flips@ =~= redirect_updates@);
        TextureSync { changed, grow_redirect, first_slot: from, end_slot: slot_count, flips }
    }

    /// The slot behind each element of the shader's array: its own where that
    /// is uploaded, the placeholder's everywhere else. The placeholder has to
    /// be uploaded first.
    pub fn descriptor_array(&self) -> (r: Vec<u32>)
        requires
            self.wf(),
            self.synced_slots > 0,
        ensures
            r.len() == MAX_TEXTURES,
            r.len() == 1024,
            forall|i: int|
                0 <= i < r.len() ==> #[trigger] r[i] == if i < self.synced_slots {
                    i as u32
                } else {
                    0
                },
    {
        let mut r: Vec<u32> = Vec::new();
        let mut i: u32 = 0;
        while i < MAX_TEXTURES
            invariant
                i <= MAX_TEXTURES,
                r.len() == i,
                forall|k: int|
                    0 <= k < r.len() ==> #[trigger] r[k] == if k < self.synced_slots {
                        k as u32
                    } else {
                        0
                    },
            decreases MAX_TEXTURES - i,
        {
            if i < self.synced_slots {
                r.push(i);
            } else {
                r.push(0);
            }
            i = i + 1;
        }
        r
    }
}

/// A sync uploads every slot that is new and no other, lands every flip that
/// it is given, and makes room for every id.
pub proof fn texture_syncs_catch_up(
    before: GpuTextureStore,
    after: GpuTextureStore,
    slot_count: u32,
    redirect_updates: Seq<Flip>,
    texture_id_count: u32,
    sync: TextureSync,
)
    requires
        before.synced_slots <= slot_count,
        after.synced(before, slot_count, redirect_updates, texture_id_count, sync),
    ensures
        sync.first_slot == before.synced_slots,
        sync.end_slot == slot_count,
        after.synced_slots == slot_count,
        sync.flips@ == redirect_updates,
        sync.grow_redirect is Some <==> texture_id_count > before.redirect_cap,
        sync.grow_redirect is Some ==> sync.grow_redirect->0.new_cap == after.redirect_cap
            && sync.grow_redirect->0.keep == before.redirect_cap,
        sync.grow_redirect is None ==> after.redirect_cap == before.redirect_cap,
        texture_id_count <= after.redirect_cap,
        sync.changed <==> sync.first_slot < sync.end_slot || redirect_updates.len() > 0
            || sync.grow_redirect is Some,
{
}

/// A new store holds nothing.
pub proof fn new_texture_stores_are_empty(s: GpuTextureStore)
    requires
        s.is_new(),
    ensures
        s.synced_slots == 0,
        s.redirect_cap == 64,
{
}

} // verus!
