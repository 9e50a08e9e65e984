//! What the rendering thread decides for every frame: what must be rebuilt,
//! what can be rewritten in place, and how the debug switches take effect.

use crate::assets::gpu_store::{
    growth, lemma_first_accepted, total, GpuMeshStore, Grow, MeshDelta, MeshSync,
};
use crate::assets::material_store::{GpuMaterialStore, MaterialDelta, MaterialSync};
use crate::assets::redirect::Flip;
use crate::assets::texture_store::{GpuTextureStore, TextureSync, MAX_TEXTURES};
use crate::camera::{
    draw_count, predecessor, rewritten, sizable, source_of, CameraHandle, RenderCamera,
};
use crate::draw::{
    at_least_one, build_draw_plan, is_plan, lemma_totals_fit, plans_draw_each_slots_own_geometry,
    DrawPlan, WorldDraw, WorldId, WorldSource,
};
use crate::frame_handoff::{packed_extent, promoted, FrameHandoff, GpuStaging, WordSpan};
use crate::gpu_renderers::{stream_len, streams3, GpuRenderers, INITIAL_SPAWN_CAPACITY};
use crate::growth::{grown, max_usize};
use crate::input::{Input, KeyCode};
use crate::stats::{recorded, FrameStats};
use crate::transform_gpu::{
    streams2, Regrow, WorldTransformGpu, INITIAL_PARENT_UPDATE_CAPACITY,
};
use vstd::prelude::*;

verus! {

/// Frames after which the staging's memory residency is reported, once.
pub const RESIDENCY_REPORT_FRAME: u64 = 120;

/// What grew or changed this frame.
#[derive(Clone, Copy, PartialEq, Eq, Structural, Debug)]
pub struct FrameChanges {
    pub grew_world: bool,
    pub grew_renderers: bool,
    pub grew_parent_staging: bool,
    pub grew_spawn_staging: bool,
    pub mesh_changed: bool,
    pub tex_changed: bool,
    pub mat_changed: bool,
    /// Whether anything spawned.
    pub spawned: bool,
}

impl FrameChanges {
    /// The draw plan's instance bases may have shifted.
    pub open spec fn is_plan_dirty(self) -> bool {
        self.spawned || self.mesh_changed
    }

    /// A buffer that recorded commands bind was reallocated.
    pub open spec fn forces_full(self) -> bool {
        self.grew_world || self.grew_renderers || self.grew_parent_staging
            || self.grew_spawn_staging || self.mesh_changed || self.tex_changed || self.mat_changed
    }

    pub fn plan_dirty(&self) -> (r: bool)
        ensures
            r == self.is_plan_dirty(),
    {
        self.spawned || self.mesh_changed
    }

    pub fn force_full(&self) -> (r: bool)
        ensures
            r == self.forces_full(),
    {
        self.grew_world || self.grew_renderers || self.grew_parent_staging
            || self.grew_spawn_staging || self.mesh_changed || self.tex_changed || self.mat_changed
    }
}

/// How the draw plan reaches the GPU this frame.
#[derive(Clone, Copy, PartialEq, Eq, Structural, Debug)]
pub enum PlanUpdate {
    /// It has not changed.
    Keep,
    /// Rewrite the templates in place, once the GPU is done reading them.
    Templates,
    /// Everything was rebuilt for it.
    Full,
}

/// The keys that switch debug features, as pressed this frame.
#[derive(Clone, Copy, PartialEq, Eq, Structural, Debug)]
pub struct DebugKeys {
    /// Occlusion culling on or off.
    pub f8: bool,
    /// Frustum lock on or off.
    pub f9: bool,
}

/// What a frame decided.
#[derive(Clone, Copy, PartialEq, Eq, Structural, Debug)]
pub struct FrameDecision {
    pub update: PlanUpdate,
    /// The frame slots' primary buffers must be recorded again.
    pub rebuild_frame_slots: bool,
}

/// The camera's worlds need more than a rewrite.
pub open spec fn outgrown(draws: Seq<WorldDraw>, worlds: Seq<WorldSource>) -> bool {
    worlds.len() != draws.len() || exists|i: int|
        0 <= i < worlds.len() && (draws[i].world != worlds[i].id || (
        #[trigger] draws[i]).is_outgrown(worlds[i]))
}

/// How the plan is brought up to date.
pub open spec fn plan_update(
    changes: FrameChanges,
    draws: Seq<WorldDraw>,
    worlds: Seq<WorldSource>,
) -> PlanUpdate {
    if !changes.is_plan_dirty() && !changes.forces_full() {
        PlanUpdate::Keep
    } else if changes.forces_full() || outgrown(draws, worlds) {
        PlanUpdate::Full
    } else {
        PlanUpdate::Templates
    }
}

/// `after` is `before` brought up to date with a frame's changes and switches,
/// and `r` is what that took.
pub open spec fn updated(
    before: RenderCamera,
    after: RenderCamera,
    changes: FrameChanges,
    worlds: Seq<WorldSource>,
    keys: DebugKeys,
    view_proj: [u32; 16],
    r: FrameDecision,
) -> bool {
    &&& r.update == plan_update(changes, before.draws@, worlds)
    &&& r.rebuild_frame_slots == (r.update == PlanUpdate::Full || before.hiz_frozen
        != before.cull_lock || keys.f8)
    &&& after.hiz_frozen == before.cull_lock
    &&& after.occlusion_enabled == (before.occlusion_enabled != keys.f8)
    &&& after.cull_lock == (before.cull_lock != keys.f9)
    &&& after.locked_view_proj == if keys.f9 && !before.cull_lock {
        view_proj
    } else {
        before.locked_view_proj
    }
    &&& r.update != PlanUpdate::Full ==> after.draws == before.draws && after.slot_count
        == before.slot_count
    &&& r.update == PlanUpdate::Full ==> after.slot_count == draw_count(worlds)
        && after.draws.len() == worlds.len() && forall|i: int|
        0 <= i < worlds.len() ==> (#[trigger] after.draws[i]).draws(
            predecessor(before.draws@, worlds, i as nat),
            worlds[i],
        )
    &&& after == (RenderCamera {
        hiz_frozen: after.hiz_frozen,
        occlusion_enabled: after.occlusion_enabled,
        cull_lock: after.cull_lock,
        locked_view_proj: after.locked_view_proj,
        draws: after.draws,
        slot_count: after.slot_count,
        ..before
    })
}

/// Brings a camera up to date with this frame's changes and switches. The lock
/// toggles last, so the freeze that it asks for is applied by the next frame.
pub fn update_camera(
    camera: &mut RenderCamera,
    changes: FrameChanges,
    worlds: &Vec<WorldSource>,
    keys: DebugKeys,
    view_proj: [u32; 16],
) -> (r: FrameDecision)
    requires
        old(camera).wf(),
    ensures
        final(camera).wf(),
        updated(*old(camera), *final(camera), changes, worlds@, keys, view_proj, r),
{
    let mut update: PlanUpdate = PlanUpdate::Keep;
    let mut rebuild: bool = false;
    if changes.plan_dirty() || changes.force_full() {
        if camera.needs_structural_rebuild(worlds, changes.force_full()) {
            camera.ensure_current(worlds);
            rebuild = true;
            update = PlanUpdate::Full;
        } else {
            update = PlanUpdate::Templates;
        }
    }
    if camera.apply_pending_hiz_freeze() {
        rebuild = true;
    }
    if keys.f8 {
        let desired: bool = !camera.occlusion_enabled();
        if camera.set_occlusion_enabled(desired) {
            rebuild = true;
        }
    }
    if keys.f9 {
        let new_lock: bool = !camera.cull_lock();
        camera.set_cull_lock(new_lock, view_proj);
    }
    FrameDecision { update, rebuild_frame_slots: rebuild }
}

/// The entities of a hierarchy, and always one.
pub open spec fn entities(hierarchy_len: Option<usize>) -> nat {
    match hierarchy_len {
        Some(n) => at_least_one(n as nat),
        None => 1,
    }
}

/// The entities to make room for: the hierarchy's, and always one.
pub fn entity_count(hierarchy_len: Option<usize>) -> (r: usize)
    ensures
        r == entities(hierarchy_len),
{
    match hierarchy_len {
        Some(n) => max_usize(n, 1),
        None => 1,
    }
}

/// Counts a submitted frame; whether to report the residency after it.
pub fn count_frame(total_frames: &mut u64) -> (r: bool)
    requires
        *old(total_frames) < u64::MAX,
    ensures
        *final(total_frames) == *old(total_frames) + 1,
        r == (*final(total_frames) == RESIDENCY_REPORT_FRAME),
        r == (*final(total_frames) == 120),
{
    *total_frames = *total_frames + 1;
    *total_frames == RESIDENCY_REPORT_FRAME
}

/// A rebuild settles: once a camera's draws were rebuilt for its worlds, the
/// same worlds need no other, and only what is forced or has spawned touches
/// the plan again.
pub proof fn rebuilds_settle(
    before: Seq<WorldDraw>,
    draws: Seq<WorldDraw>,
    worlds: Seq<WorldSource>,
    changes: FrameChanges,
)
    requires
        draws.len() == worlds.len(),
        forall|i: int|
            0 <= i < worlds.len() ==> (#[trigger] draws[i]).draws(
                predecessor(before, worlds, i as nat),
                worlds[i],
            ),
        !changes.forces_full(),
    ensures
        !outgrown(draws, worlds),
        plan_update(changes, draws, worlds) == if changes.spawned {
            PlanUpdate::Templates
        } else {
            PlanUpdate::Keep
        },
{
}

proof fn lemma_source(worlds: Seq<WorldSource>, i: int, at: nat)
    requires
        0 <= at <= i < worlds.len(),
        forall|a: int, b: int| 0 <= a < b < worlds.len() ==> worlds[a].id != worlds[b].id,
    ensures
        source_of(worlds, worlds[i].id, at) == Some(i),
    decreases worlds.len() - at,
{
    if at < i {
        lemma_source(worlds, i, at + 1);
    }
}

/// The cheap path is always safe: where it is chosen, and no world is listed
/// twice, every template has room for its world's commands.
pub proof fn templates_have_room(
    changes: FrameChanges,
    camera: RenderCamera,
    worlds: Seq<WorldSource>,
    i: int,
)
    requires
        camera.wf(),
        plan_update(changes, camera.draws@, worlds) == PlanUpdate::Templates,
        0 <= i < camera.draws.len(),
        forall|a: int, b: int| 0 <= a < b < worlds.len() ==> worlds[a].id != worlds[b].id,
    ensures
        source_of(worlds, camera.draws[i].world, 0) == Some(i),
        worlds[i].plan.commands.len() <= camera.draws[i].pass1.slot_capacity,
        worlds[i].plan.commands.len() <= camera.draws[i].pass2.slot_capacity,
{
    let d = camera.draws@[i];
    assert(d.wf());
    assert(camera.draws@[i].world == worlds[i].id && !camera.draws@[i].is_outgrown(worlds[i]));
    lemma_source(worlds, i, 0);
}

/// A camera whose draws its worlds have not outgrown has room for their
/// commands.
proof fn lemma_room(camera: RenderCamera, worlds: Seq<WorldSource>)
    requires
        camera.wf(),
        worlds.len() == 1,
        !outgrown(camera.draws@, worlds),
    ensures
        forall|i: int|
            #![trigger camera.draws[i]]
            0 <= i < camera.draws.len() ==> match source_of(worlds, camera.draws[i].world, 0) {
                Some(s) => worlds[s].plan.commands.len() <= camera.draws[i].pass1.slot_capacity
                    && worlds[s].plan.commands.len() <= camera.draws[i].pass2.slot_capacity,
                None => true,
            },
{
    assert forall|i: int|
        #![trigger camera.draws[i]]
        0 <= i < camera.draws.len() implies match source_of(worlds, camera.draws[i].world, 0) {
        Some(s) => worlds[s].plan.commands.len() <= camera.draws[i].pass1.slot_capacity
            && worlds[s].plan.commands.len() <= camera.draws[i].pass2.slot_capacity,
        None => true,
    } by {
        assert(camera.draws@[i].wf());
        assert(camera.draws@[i].world == worlds[i].id && !camera.draws@[i].is_outgrown(worlds[i]));
        lemma_source(worlds, i, 0);
    }
}

/// The world that the main camera draws.
pub const MAIN_WORLD: WorldId = 0;

/// What the simulation hands over for one frame, beside the staged transforms.
pub struct FrameJob {
    /// The generation that the transforms were published at.
    pub ready_gen: u64,
    pub entity_count: usize,
    /// Re-parentings, as slot and new parent.
    pub parent_updates: Vec<[u32; 2]>,
    /// Renderer records, as slot, mesh and material.
    pub spawns: Vec<[u32; 3]>,
    pub f8_pressed: bool,
    pub f9_pressed: bool,
    /// This frame's view-projection; numbers are bit patterns.
    pub view_proj_cols: [u32; 16],
    pub sim_update_ns: u64,
    pub cpu_staging_ns: u64,
    pub main_wait_ns: u64,
}

/// What the asset registries changed since the last drain.
pub struct AssetDeltas {
    pub meshes: MeshDelta,
    pub texture_slots: u32,
    pub texture_updates: Vec<Flip>,
    pub texture_ids: u32,
    pub materials: MaterialDelta,
}

/// What to upload for them.
pub struct AssetUploads {
    pub meshes: MeshSync,
    pub textures: TextureSync,
    pub materials: MaterialSync,
}

/// What a frame found to do before it may touch what the GPU still reads.
pub struct FramePrep {
    /// Per-entity buffers to reallocate.
    pub grow_world: Option<Regrow>,
    pub grow_renderers: Option<Grow>,
    pub uploads: AssetUploads,
    pub changes: FrameChanges,
    /// The world as the camera draws it from this frame on.
    pub worlds: Vec<WorldSource>,
    pub decision: FrameDecision,
}

/// What the rendering thread owns of one window.
pub struct RenderContext {
    pub world_transforms: WorldTransformGpu,
    pub main_camera: RenderCamera,
    pub gpu_mesh_store: GpuMeshStore,
    pub gpu_texture_store: GpuTextureStore,
    pub gpu_material_store: GpuMaterialStore,
    pub gpu_renderers: GpuRenderers,
}

/// The slots that a job's entities take.
pub open spec fn slots_of(job: FrameJob) -> nat {
    at_least_one(job.entity_count as nat)
}

/// The stores can take the deltas, and a draw plan all the instances.
pub open spec fn stores_accept(
    meshes: GpuMeshStore,
    textures: GpuTextureStore,
    materials: GpuMaterialStore,
    deltas: AssetDeltas,
) -> bool {
    &&& meshes.accepts(deltas.meshes)
    &&& total(deltas.meshes.refcounts@, deltas.meshes.refcounts@.len()) <= u32::MAX
    &&& textures.synced_slots <= deltas.texture_slots <= MAX_TEXTURES
    &&& materials.accepts(deltas.materials)
}

impl RenderContext {
    pub open spec fn wf(&self) -> bool {
        &&& self.world_transforms.wf()
        &&& self.main_camera.wf()
        &&& self.gpu_mesh_store.wf()
        &&& self.gpu_texture_store.wf()
        &&& self.gpu_material_store.wf()
        &&& self.gpu_renderers.wf()
    }

    /// `self`'s stores are those given after a sync with `deltas`, and
    /// `uploads` is what to upload for it.
    pub open spec fn assets_synced(
        &self,
        meshes: GpuMeshStore,
        textures: GpuTextureStore,
        materials: GpuMaterialStore,
        deltas: AssetDeltas,
        uploads: AssetUploads,
    ) -> bool {
        &&& self.gpu_mesh_store.synced(meshes, deltas.meshes, uploads.meshes)
        &&& self.gpu_texture_store.synced(
            textures,
            deltas.texture_slots,
            deltas.texture_updates@,
            deltas.texture_ids,
            uploads.textures,
        )
        &&& self.gpu_material_store.synced(materials, deltas.materials, uploads.materials)
    }

    /// `worlds` is the main world, as the stores and the transforms have it.
    pub open spec fn shows(&self, worlds: Seq<WorldSource>, totals: Seq<u32>) -> bool {
        &&& worlds.len() == 1
        &&& worlds[0].id == MAIN_WORLD
        &&& worlds[0].capacity == self.world_transforms.entity_capacity
        &&& is_plan(worlds[0].plan, self.gpu_mesh_store, totals)
    }

    /// Whether [`prepare_frame`](Self::prepare_frame) can take a job: what it
    /// makes room for stays within what a 32-bit count and the memory can
    /// address.
    pub open spec fn accepts(&self, job: FrameJob, deltas: AssetDeltas) -> bool {
        let parents = grown(
            self.world_transforms.parent_update_capacity as nat,
            job.parent_updates@.len(),
            usize::MAX as nat,
        );
        let spawns = grown(
            self.gpu_renderers.spawn_capacity as nat,
            job.spawns@.len(),
            usize::MAX as nat,
        );
        &&& grown(
            self.world_transforms.entity_capacity as nat,
            slots_of(job),
            usize::MAX as nat,
        ) <= u32::MAX
        &&& parents <= u32::MAX
        &&& stream_len(parents, 2) <= usize::MAX
        &&& spawns <= u32::MAX
        &&& stream_len(spawns, 3) <= usize::MAX
        &&& stores_accept(
            self.gpu_mesh_store,
            self.gpu_texture_store,
            self.gpu_material_store,
            deltas,
        )
        &&& forall|i: int|
            0 <= i < job.spawns.len() ==> (#[trigger] job.spawns[i])[0] < grown(
                self.gpu_renderers.capacity as nat,
                grown(
                    self.world_transforms.entity_capacity as nat,
                    slots_of(job),
                    usize::MAX as nat,
                ),
                u32::MAX as nat,
            )
    }

    /// Whether [`stage_frame`](Self::stage_frame) may run: everything that it
    /// writes has room.
    pub open spec fn has_room(&self, job: FrameJob, prep: FramePrep) -> bool {
        &&& job.parent_updates.len() <= self.world_transforms.parent_update_capacity
        &&& job.spawns.len() <= self.gpu_renderers.spawn_capacity
        &&& forall|i: int|
            0 <= i < job.spawns.len() ==> (#[trigger] job.spawns[i])[0]
                < self.gpu_renderers.capacity
        &&& prep.worlds.len() == 1
        &&& prep.decision.update == PlanUpdate::Templates ==> !outgrown(
            self.main_camera.draws@,
            prep.worlds@,
        )
    }

    /// A window's render state for a scene whose hierarchy is that long, with
    /// the registries' first upload, and a camera that matches the swapchain.
    pub fn new(
        hierarchy_len: Option<usize>,
        state: CameraHandle,
        swapchain_extent: [u32; 2],
        deltas: &AssetDeltas,
    ) -> (r: (RenderContext, AssetUploads))
        requires
            hierarchy_len is Some ==> hierarchy_len->0 <= u32::MAX,
            sizable((swapchain_extent[0], swapchain_extent[1])),
            deltas.texture_slots <= MAX_TEXTURES,
            deltas.materials.slots.len() <= u32::MAX,
            GpuMeshStore::accepts_first(deltas.meshes),
        ensures
            r.0.wf(),
            r.0.world_transforms.entity_capacity == entities(hierarchy_len),
            r.0.gpu_renderers.capacity == entities(hierarchy_len),
            streams3(r.0.gpu_renderers.spawn_staging@, Seq::empty()),
            streams2(r.0.world_transforms.staging_parent_updates@, Seq::empty()),
            r.0.world_transforms.next_signal_expected == 1,
            exists|m: GpuMeshStore, t: GpuTextureStore, n: GpuMaterialStore|
                m.is_new() && t.is_new() && n.is_new() && #[trigger] r.0.assets_synced(
                    m,
                    t,
                    n,
                    *deltas,
                    r.1,
                ),
            r.0.main_camera.state == state,
            r.0.main_camera.resolution is MatchSwapchain,
            (r.0.main_camera.extent[0], r.0.main_camera.extent[1]) == (
                swapchain_extent[0],
                swapchain_extent[1],
            ),
            exists|worlds: Seq<WorldSource>| #[trigger]
                r.0.shows(worlds, r.1.meshes.totals@) && r.0.main_camera.draws.len() == 1
                    && r.0.main_camera.draws[0].draws(None, worlds[0])
                    && r.0.main_camera.slot_count == draw_count(worlds),
            r.0.main_camera.vp_write_slot == 0,
            r.0.main_camera.locked_view_proj@ == Seq::new(16, |i: int| 0u32),
            r.0.world_transforms.parent_update_capacity == INITIAL_PARENT_UPDATE_CAPACITY,
            r.0.gpu_renderers.spawn_capacity == INITIAL_SPAWN_CAPACITY,
            !r.0.main_camera.cull_lock,
            !r.0.main_camera.hiz_frozen,
            r.0.main_camera.occlusion_enabled,
    {
        let mut gpu_mesh_store: GpuMeshStore = GpuMeshStore::new();
        let mut gpu_texture_store: GpuTextureStore = GpuTextureStore::new();
        let mut gpu_material_store: GpuMaterialStore = GpuMaterialStore::new();
        let ghost m = gpu_mesh_store;
        let ghost t = gpu_texture_store;
        let ghost n = gpu_material_store;
        let textures: TextureSync = gpu_texture_store.sync(
            deltas.texture_slots,
            &deltas.texture_updates,
            deltas.texture_ids,
        );
        let materials: MaterialSync = gpu_material_store.sync(&deltas.materials);
        let initial: usize = entity_count(hierarchy_len);
        let world_transforms: WorldTransformGpu = WorldTransformGpu::new(initial);
        let gpu_renderers: GpuRenderers = GpuRenderers::new(initial as u32);
        proof {
            lemma_first_accepted(gpu_mesh_store, deltas.meshes);
        }
        let meshes: MeshSync = gpu_mesh_store.sync(&deltas.meshes);
        proof {
            lemma_totals_fit(gpu_mesh_store, m, deltas.meshes, meshes);
        }
        let plan: DrawPlan = build_draw_plan(&gpu_mesh_store, &meshes.totals);
        let worlds: Vec<WorldSource> = vec![
            WorldSource { id: MAIN_WORLD, capacity: initial, plan },
        ];
        let main_camera: RenderCamera = RenderCamera::new_match_swapchain(
            state,
            swapchain_extent,
            &worlds,
        );
        let uploads: AssetUploads = AssetUploads { meshes, textures, materials };
        let ctx: RenderContext = RenderContext {
            world_transforms,
            main_camera,
            gpu_mesh_store,
            gpu_texture_store,
            gpu_material_store,
            gpu_renderers,
        };
        let r: (RenderContext, AssetUploads) = (ctx, uploads);
        proof {
            assert(m.is_new() && t.is_new() && n.is_new());
            assert(r.0.assets_synced(m, t, n, *deltas, r.1));
            assert(r.0.shows(worlds@, r.1.meshes.totals@));
            assert(r.0.main_camera.draws[0].draws(None, worlds[0]));
        }
        r
    }

    /// The swapchain has images of another extent: the camera follows, and the
    /// simulation learns of it. Whether the camera's targets were rebuilt; the
    /// frame slots are rebuilt either way.
    pub fn swapchain_recreated(
        &mut self,
        handoff: &mut FrameHandoff,
        new_extent: [u32; 2],
    ) -> (r: bool)
        requires
            old(self).wf(),
            sizable((new_extent[0], new_extent[1])),
        ensures
            final(self).wf(),
            final(handoff).extent == packed_extent(new_extent),
            *final(handoff) == (FrameHandoff { extent: final(handoff).extent, ..*old(handoff) }),
            *final(self) == (RenderContext { main_camera: final(self).main_camera, ..*old(self) }),
            r == (old(self).main_camera.resolution is MatchSwapchain && (
                new_extent[0],
                new_extent[1],
            ) != (old(self).main_camera.extent[0], old(self).main_camera.extent[1])),
            !(old(self).main_camera.resolution is MatchSwapchain) ==> final(self).main_camera
                == old(self).main_camera,
            old(self).main_camera.resolution is MatchSwapchain ==> final(self).main_camera.resized_from(old(self).main_camera, (new_extent[0], new_extent[1])),
    {
        handoff.publish_extent(new_extent);
        self.main_camera.on_swapchain_resize(new_extent)
    }

    /// Everything that a frame may do while the GPU still reads the frame
    /// before: make room, drain the registries, bring the camera up to date.
    /// The simulation learns how many slots there are.
    pub fn prepare_frame(
        &mut self,
        handoff: &mut FrameHandoff,
        job: &FrameJob,
        deltas: &AssetDeltas,
    ) -> (r: FramePrep)
        requires
            old(self).wf(),
            old(self).accepts(*job, *deltas),
        ensures
            final(self).wf(),
            final(self).has_room(*job, r),
            final(self).world_transforms.entity_capacity >= job.entity_count,
            final(self).world_transforms.entity_capacity >= 1,
            final(self).gpu_renderers.capacity
                >= final(self).world_transforms.entity_capacity,
            final(self).world_transforms.parent_update_capacity >= job.parent_updates.len(),
            final(self).gpu_renderers.spawn_capacity >= job.spawns.len(),
            r.grow_world is Some <==> job.entity_count
                > old(self).world_transforms.entity_capacity,
            r.worlds.len() == 1,
            r.worlds[0].id == 0,
            r.worlds[0].capacity == final(self).world_transforms.entity_capacity,
            final(self).world_transforms.entity_capacity == grown(
                old(self).world_transforms.entity_capacity as nat,
                slots_of(*job),
                usize::MAX as nat,
            ),
            r.grow_world == if slots_of(*job) <= old(self).world_transforms.entity_capacity {
                None
            } else {
                Some(
                    Regrow {
                        new_cap: final(self).world_transforms.entity_capacity,
                        keep: old(self).world_transforms.entity_capacity,
                    },
                )
            },
            final(self).gpu_renderers.capacity == grown(
                old(self).gpu_renderers.capacity as nat,
                final(self).world_transforms.entity_capacity as nat,
                u32::MAX as nat,
            ),
            r.grow_renderers == growth(
                old(self).gpu_renderers.capacity,
                final(self).world_transforms.entity_capacity as int,
                old(self).gpu_renderers.capacity,
            ),
            final(self).world_transforms.parent_update_capacity == grown(
                old(self).world_transforms.parent_update_capacity as nat,
                job.parent_updates@.len(),
                usize::MAX as nat,
            ),
            final(self).gpu_renderers.spawn_capacity == grown(
                old(self).gpu_renderers.spawn_capacity as nat,
                job.spawns@.len(),
                usize::MAX as nat,
            ),
            *final(handoff) == (FrameHandoff {
                entity_capacity: final(self).world_transforms.entity_capacity,
                ..*old(handoff)
            }),
            final(self).assets_synced(
                old(self).gpu_mesh_store,
                old(self).gpu_texture_store,
                old(self).gpu_material_store,
                *deltas,
                r.uploads,
            ),
            r.changes == (FrameChanges {
                grew_world: r.grow_world is Some,
                grew_renderers: r.grow_renderers is Some,
                grew_parent_staging: job.parent_updates.len() > old(
                    self,
                ).world_transforms.parent_update_capacity,
                grew_spawn_staging: job.spawns.len() > old(self).gpu_renderers.spawn_capacity,
                mesh_changed: r.uploads.meshes.changed,
                tex_changed: r.uploads.textures.changed,
                mat_changed: r.uploads.materials.changed,
                spawned: job.spawns.len() > 0,
            }),
            final(self).shows(r.worlds@, r.uploads.meshes.totals@),
            updated(
                old(self).main_camera,
                final(self).main_camera,
                r.changes,
                r.worlds@,
                (DebugKeys { f8: job.f8_pressed, f9: job.f9_pressed }),
                job.view_proj_cols,
                r.decision,
            ),
            final(self).world_transforms.next_signal_expected == old(
                self,
            ).world_transforms.next_signal_expected,
    {
        let ghost before = *self;
        let grow_world: Option<Regrow> = self.world_transforms.ensure_capacity(
            max_usize(job.entity_count, 1),
        );
        let renderer_capacity: usize = self.world_transforms.entity_capacity();
        let grow_renderers: Option<Grow> = self.gpu_renderers.ensure_capacity(
            renderer_capacity as u32,
        );
        let grew_parent_staging: bool = self.world_transforms.ensure_parent_update_capacity(
            job.parent_updates.len(),
        );
        handoff.publish_entity_capacity(renderer_capacity);
        let meshes: MeshSync = self.gpu_mesh_store.sync(&deltas.meshes);
        let textures: TextureSync = self.gpu_texture_store.sync(
            deltas.texture_slots,
            &deltas.texture_updates,
            deltas.texture_ids,
        );
        let materials: MaterialSync = self.gpu_material_store.sync(&deltas.materials);
        let grew_spawn_staging: bool = self.gpu_renderers.ensure_spawn_capacity(job.spawns.len());
        let changes: FrameChanges = FrameChanges {
            grew_world: grow_world.is_some(),
            grew_renderers: grow_renderers.is_some(),
            grew_parent_staging,
            grew_spawn_staging,
            mesh_changed: meshes.changed,
            tex_changed: textures.changed,
            mat_changed: materials.changed,
            spawned: job.spawns.len() > 0,
        };
        proof {
            lemma_totals_fit(self.gpu_mesh_store, before.gpu_mesh_store, deltas.meshes, meshes);
        }
        let plan: DrawPlan = build_draw_plan(&self.gpu_mesh_store, &meshes.totals);
        let worlds: Vec<WorldSource> = vec![
            WorldSource { id: MAIN_WORLD, capacity: renderer_capacity, plan },
        ];
        let decision: FrameDecision = update_camera(
            &mut self.main_camera,
            changes,
            &worlds,
            DebugKeys { f8: job.f8_pressed, f9: job.f9_pressed },
            job.view_proj_cols,
        );
        let uploads: AssetUploads = AssetUploads { meshes, textures, materials };
        FramePrep { grow_world, grow_renderers, uploads, changes, worlds, decision }
    }

    /// Everything that waits until the GPU is done reading what it shares with
    /// the host: rewrite the draw templates in place if that is all they need,
    /// promote the staged transforms, and write the frame's streams and cull
    /// matrix. The result is the staged spans.
    pub fn stage_frame(
        &mut self,
        handoff: &mut FrameHandoff,
        gpu: &mut GpuStaging,
        job: &FrameJob,
        prep: &FramePrep,
    ) -> (r: [WordSpan; 3])
        requires
            old(self).wf(),
            old(self).has_room(*job, *prep),
            old(handoff).wf(),
            old(gpu).holds(old(handoff).staging),
        ensures
            final(self).wf(),
            final(self).main_camera.draws.len() == old(self).main_camera.draws.len(),
            prep.decision.update == PlanUpdate::Templates ==> forall|i: int|
                0 <= i < old(self).main_camera.draws.len() ==> rewritten(
                    old(self).main_camera.draws[i],
                    #[trigger] final(self).main_camera.draws[i],
                    prep.worlds@,
                ),
            prep.decision.update != PlanUpdate::Templates ==> final(self).main_camera.draws == old(
                self,
            ).main_camera.draws,
            *final(handoff) == (FrameHandoff { consumed_gen: job.ready_gen, ..*old(handoff) }),
            final(handoff).free() <==> old(handoff).ready_gen == job.ready_gen,
            promoted(old(handoff).staging, *old(gpu), *final(gpu)),
            r == old(handoff).staging.min_max_words,
            streams2(final(self).world_transforms.staging_parent_updates@, job.parent_updates@),
            streams3(final(self).gpu_renderers.spawn_staging@, job.spawns@),
            final(self).main_camera.cull_view_proj_staging@ == old(
                self,
            ).main_camera.cull_view_proj_staging@.update(
                old(self).main_camera.vp_write_slot as int,
                old(self).main_camera.cull_matrix(job.view_proj_cols),
            ),
            final(self).main_camera == (RenderCamera {
                draws: final(self).main_camera.draws,
                cull_view_proj_staging: final(self).main_camera.cull_view_proj_staging,
                ..old(self).main_camera
            }),
            final(self).world_transforms == (WorldTransformGpu {
                staging_parent_updates: final(self).world_transforms.staging_parent_updates,
                ..old(self).world_transforms
            }),
            final(self).gpu_renderers == (GpuRenderers {
                spawn_staging: final(self).gpu_renderers.spawn_staging,
                ..old(self).gpu_renderers
            }),
            *final(self) == (RenderContext {
                world_transforms: final(self).world_transforms,
                main_camera: final(self).main_camera,
                gpu_renderers: final(self).gpu_renderers,
                ..*old(self)
            }),
    {
        let templates: bool = match prep.decision.update {
            PlanUpdate::Templates => true,
            _ => false,
        };
        if templates {
            proof {
                lemma_room(self.main_camera, prep.worlds@);
            }
            self.main_camera.write_template_bases(&prep.worlds);
        }
        let spans: [WordSpan; 3] = handoff.consume(job.ready_gen, gpu);
        self.world_transforms.write_parent_updates(&job.parent_updates);
        self.gpu_renderers.write_spawns(&job.spawns);
        self.main_camera.write_cull_view_proj(job.view_proj_cols);
        spans
    }

    /// After the frame was submitted: the GPU owes one more signal, and the
    /// frame's times go into the statistics. The result is the window that
    /// ended with this frame, if one did, and whether to report the staging's
    /// residency.
    pub fn finish_frame(
        &mut self,
        stats: &mut FrameStats,
        total_frames: &mut u64,
        job: &FrameJob,
        times: &FrameTimes,
        elapsed_secs: u64,
    ) -> (r: (Option<FrameStats>, bool))
        requires
            old(stats).wf(),
            old(stats).has_room(),
            *old(total_frames) < u64::MAX,
        ensures
            final(stats).wf(),
            *final(self) == (RenderContext {
                world_transforms: WorldTransformGpu {
                    next_signal_expected: old(
                        self,
                    ).world_transforms.next_signal_expected.wrapping_add(1),
                    ..old(self).world_transforms
                },
                ..*old(self)
            }),
            *final(total_frames) == *old(total_frames) + 1,
            r.1 == (*final(total_frames) == RESIDENCY_REPORT_FRAME),
            (r.0 is Some) == ((old(stats).frame_count + 1) % 512 == 0 && elapsed_secs >= 1),
            r.0 is Some ==> final(stats).is_empty() && timed(*old(stats), r.0->0, *job, *times),
            r.0 is None ==> timed(*old(stats), *final(stats), *job, *times),
    {
        stats.record_host_staging(times.host_staging_ns);
        stats.record_cpu_gpu_staging(times.cpu_gpu_staging_ns);
        stats.record_sim_update(job.sim_update_ns);
        stats.record_cpu_staging(job.cpu_staging_ns);
        stats.record_main_wait(job.main_wait_ns);
        self.world_transforms.inc_signal_expected();
        let window: Option<FrameStats> = stats.tick(elapsed_secs);
        let report: bool = count_frame(total_frames);
        (window, report)
    }
}

/// How long the staging of a frame took, and the promotion that is part of it.
#[derive(Clone, Copy, PartialEq, Eq, Structural, Debug)]
pub struct FrameTimes {
    pub host_staging_ns: u64,
    pub cpu_gpu_staging_ns: u64,
}

/// `after` is `before` with one more frame, of the given times.
pub open spec fn timed(
    before: FrameStats,
    after: FrameStats,
    job: FrameJob,
    times: FrameTimes,
) -> bool {
    &&& recorded(before.host_staging, after.host_staging, times.host_staging_ns)
    &&& recorded(before.cpu_gpu_staging, after.cpu_gpu_staging, times.cpu_gpu_staging_ns)
    &&& recorded(before.sim_update, after.sim_update, job.sim_update_ns)
    &&& recorded(before.cpu_staging, after.cpu_staging, job.cpu_staging_ns)
    &&& recorded(before.main_wait, after.main_wait, job.main_wait_ns)
    &&& after == (FrameStats {
        frame_count: (before.frame_count + 1) as u32,
        host_staging: after.host_staging,
        cpu_gpu_staging: after.cpu_gpu_staging,
        sim_update: after.sim_update,
        cpu_staging: after.cpu_staging,
        main_wait: after.main_wait,
        ..before
    })
}

/// How long the simulation's part of a frame took.
#[derive(Clone, Copy, PartialEq, Eq, Structural, Debug)]
pub struct SimTimes {
    pub sim_update_ns: u64,
    pub cpu_staging_ns: u64,
    pub main_wait_ns: u64,
}

/// The job of a frame that was published at `ready_gen`. The debug keys are
/// the last readers of this frame's input, so its transitions end here.
pub fn gather_job(
    input: &mut Input,
    ready_gen: u64,
    hierarchy_len: Option<usize>,
    parent_updates: Vec<[u32; 2]>,
    spawns: Vec<[u32; 3]>,
    view_proj_cols: [u32; 16],
    times: SimTimes,
) -> (r: FrameJob)
    ensures
        final(input)@ == old(input)@.ended(),
        r == (FrameJob {
            ready_gen,
            entity_count: entities(hierarchy_len) as usize,
            parent_updates,
            spawns,
            f8_pressed: old(input)@.keys_pressed.contains(KeyCode::Function(8).number_of()),
            f9_pressed: old(input)@.keys_pressed.contains(KeyCode::Function(9).number_of()),
            view_proj_cols,
            sim_update_ns: times.sim_update_ns,
            cpu_staging_ns: times.cpu_staging_ns,
            main_wait_ns: times.main_wait_ns,
        }),
{
    let f8_pressed: bool = input.key_pressed(KeyCode::Function(8));
    let f9_pressed: bool = input.key_pressed(KeyCode::Function(9));
    input.end_frame();
    FrameJob {
        ready_gen,
        entity_count: entity_count(hierarchy_len),
        parent_updates,
        spawns,
        f8_pressed,
        f9_pressed,
        view_proj_cols,
        sim_update_ns: times.sim_update_ns,
        cpu_staging_ns: times.cpu_staging_ns,
        main_wait_ns: times.main_wait_ns,
    }
}

/// Whatever was reallocated or changed in a registry has everything rebuilt.
/// Spawns alone are a rewrite, as long as every world still is the one drawn
/// and fits; without either the plan is kept.
pub proof fn frames_rebuild_what_changed(
    changes: FrameChanges,
    draws: Seq<WorldDraw>,
    worlds: Seq<WorldSource>,
    i: int,
)
    requires
        0 <= i < worlds.len(),
    ensures
        ({
            let r = plan_update(changes, draws, worlds);
            let forced = changes.grew_world || changes.grew_renderers
                || changes.grew_parent_staging || changes.grew_spawn_staging
                || changes.mesh_changed || changes.tex_changed || changes.mat_changed;
            &&& forced ==> r is Full
            &&& !forced && !changes.spawned ==> r is Keep
            &&& changes.spawned ==> !(r is Keep)
            &&& changes.spawned && draws.len() != worlds.len() ==> r is Full
            &&& changes.spawned && draws.len() == worlds.len() && draws[i].world != worlds[i].id
                ==> r is Full
            &&& changes.spawned && draws.len() == worlds.len() && worlds[i].plan.total_renderers
                > draws[i].pass1.mvp_capacity ==> r is Full
            &&& changes.spawned && draws.len() == worlds.len() && worlds[i].plan.commands.len()
                != draws[i].slot_count ==> r is Full
            &&& changes.spawned && draws.len() == worlds.len() && worlds[i].plan.commands.len()
                > draws[i].pass1.slot_capacity ==> r is Full
            &&& changes.spawned && draws.len() == worlds.len() && worlds[i].capacity
                != draws[i].cull_range ==> r is Full
            &&& r is Templates ==> draws.len() == worlds.len() && draws[i].world == worlds[i].id
        }),
{
    if draws.len() == worlds.len() && (draws[i].world != worlds[i].id || draws[i].is_outgrown(
        worlds[i],
    )) {
        assert(outgrown(draws, worlds));
    }
}

/// The occlusion key turns culling over, the lock key the lock; locking takes
/// the matrix of the frame, and unlocking keeps it. The pyramids freeze by the
/// lock of the frame before. The frame slots are recorded again for whatever
/// they have recorded, and a rebuilt camera draws every world in order. Nothing
/// else of the camera changes.
pub proof fn switches_take_effect(
    before: RenderCamera,
    after: RenderCamera,
    changes: FrameChanges,
    worlds: Seq<WorldSource>,
    keys: DebugKeys,
    view_proj: [u32; 16],
    r: FrameDecision,
    i: int,
)
    requires
        updated(before, after, changes, worlds, keys, view_proj, r),
    ensures
        keys.f8 ==> after.occlusion_enabled == !before.occlusion_enabled,
        !keys.f8 ==> after.occlusion_enabled == before.occlusion_enabled,
        keys.f9 ==> after.cull_lock == !before.cull_lock,
        !keys.f9 ==> after.cull_lock == before.cull_lock,
        keys.f9 && !before.cull_lock ==> after.locked_view_proj == view_proj,
        !keys.f9 || before.cull_lock ==> after.locked_view_proj == before.locked_view_proj,
        after.hiz_frozen == before.cull_lock,
        keys.f8 || r.update is Full || before.hiz_frozen != before.cull_lock
            ==> r.rebuild_frame_slots,
        r.rebuild_frame_slots ==> keys.f8 || r.update is Full || before.hiz_frozen
            != before.cull_lock,
        !(r.update is Full) ==> after.draws == before.draws && after.slot_count
            == before.slot_count,
        r.update is Full ==> after.draws.len() == worlds.len(),
        r.update is Full && 0 <= i < worlds.len() ==> after.draws[i].world == worlds[i].id
            && after.draws[i].slot_count == worlds[i].plan.commands.len()
            && after.draws[i].cull_range == worlds[i].capacity,
        r.update is Full && worlds.len() > 0 ==> after.slot_count
            == worlds[0].plan.commands.len(),
        after.extent == before.extent,
        after.resolution == before.resolution,
        after.state == before.state,
        after.hiz_mip0 == before.hiz_mip0,
        after.vp_write_slot == before.vp_write_slot,
        after.view_proj_staging == before.view_proj_staging,
        after.cull_view_proj_staging == before.cull_view_proj_staging,
        after.eye_staging == before.eye_staging,
{
    if r.update is Full && 0 <= i < worlds.len() {
        assert(after.draws[i].draws(predecessor(before.draws@, worlds, i as nat), worlds[i]));
    }
}

/// A scene has as many slots as its hierarchy is long, and never none.
pub proof fn scenes_have_a_slot(n: usize)
    ensures
        n >= 1 ==> entities(Some(n)) == n,
        entities(Some(0)) == 1,
        entities(None) == 1,
{
}

/// What the camera is given is the main world: every transform slot of it, and
/// every slot's own geometry behind that of the slots before.
pub proof fn the_main_world_is_shown(
    ctx: RenderContext,
    worlds: Seq<WorldSource>,
    totals: Seq<u32>,
    s: int,
)
    requires
        ctx.shows(worlds, totals),
        0 <= s < totals.len(),
        s < ctx.gpu_mesh_store.cpu_table.len(),
    ensures
        worlds.len() == 1,
        worlds[0].id == 0,
        worlds[0].capacity == ctx.world_transforms.entity_capacity,
        worlds[0].plan.commands.len() == totals.len(),
        worlds[0].plan.commands[s].index_count == ctx.gpu_mesh_store.cpu_table[s].index_count,
        worlds[0].plan.commands[s].first_index == ctx.gpu_mesh_store.cpu_table[s].first_index,
        worlds[0].plan.commands[s].vertex_offset
            == ctx.gpu_mesh_store.cpu_table[s].vertex_offset as u32,
        s > 0 ==> worlds[0].plan.commands[s].first_instance == worlds[0].plan.commands[s
            - 1].first_instance + totals[s - 1],
{
    plans_draw_each_slots_own_geometry(worlds[0].plan, ctx.gpu_mesh_store, totals, s);
}

/// Every measured time goes to the phase that it is of, once, and one frame is
/// counted; no other phase gets a sample.
pub proof fn times_go_to_their_phase(
    before: FrameStats,
    after: FrameStats,
    job: FrameJob,
    times: FrameTimes,
)
    requires
        timed(before, after, job, times),
        before.frame_count < u32::MAX,
    ensures
        after.frame_count == before.frame_count + 1,
        after.host_staging.sum_ns == before.host_staging.sum_ns + times.host_staging_ns,
        after.cpu_gpu_staging.sum_ns == before.cpu_gpu_staging.sum_ns + times.cpu_gpu_staging_ns,
        after.sim_update.sum_ns == before.sim_update.sum_ns + job.sim_update_ns,
        after.cpu_staging.sum_ns == before.cpu_staging.sum_ns + job.cpu_staging_ns,
        after.main_wait.sum_ns == before.main_wait.sum_ns + job.main_wait_ns,
        after.host_staging.count == before.host_staging.count + 1,
        after.cpu_gpu_staging.count == before.cpu_gpu_staging.count + 1,
        after.sim_update.count == before.sim_update.count + 1,
        after.cpu_staging.count == before.cpu_staging.count + 1,
        after.main_wait.count == before.main_wait.count + 1,
        after.acquire == before.acquire,
        after.host_wait_compute == before.host_wait_compute,
        after.gpu_stages == before.gpu_stages,
        after.gpu_total == before.gpu_total,
{
}

/// A job takes as many slots as it has entities, and never none.
pub proof fn jobs_have_a_slot_per_entity(job: FrameJob)
    ensures
        job.entity_count >= 1 ==> slots_of(job) == job.entity_count,
        job.entity_count == 0 ==> slots_of(job) == 1,
{
}

/// Every registry is drained in every frame: textures and materials to the
/// last slot, meshes as far as the budget goes.
pub proof fn every_registry_is_drained(
    ctx: RenderContext,
    meshes: GpuMeshStore,
    textures: GpuTextureStore,
    materials: GpuMaterialStore,
    deltas: AssetDeltas,
    uploads: AssetUploads,
)
    requires
        ctx.assets_synced(meshes, textures, materials, deltas, uploads),
    ensures
        ctx.gpu_texture_store.synced_slots == deltas.texture_slots,
        uploads.textures.flips@ == deltas.texture_updates@,
        ctx.gpu_material_store.synced_slots == deltas.materials.slots.len(),
        ctx.gpu_mesh_store.synced_slots == meshes.synced_slots + uploads.meshes.placements.len(),
        ctx.gpu_mesh_store.synced(meshes, deltas.meshes, uploads.meshes),
        ctx.gpu_material_store.synced(materials, deltas.materials, uploads.materials),
{
}

} // verus!
