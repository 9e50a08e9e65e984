use engine_render::assets::gpu_store::{MeshDelta, SlotMesh};
use engine_render::assets::material_store::{MaterialData, MaterialDelta};
use engine_render::assets::redirect::Flip;
use engine_render::assets::MeshBounds;
use engine_render::camera::{CameraHandle, CameraResolution};
use engine_render::frame_handoff::{FrameHandoff, GpuStaging, TaskLayout, TrsSource};
use engine_render::input::{Input, KeyCode};
use engine_render::render_thread::{
    gather_job, AssetDeltas, FrameJob, FrameTimes, PlanUpdate, RenderContext, SimTimes, MAIN_WORLD,
};
use engine_render::stats::FrameStats;
use engine_render::transform_gpu::Regrow;

const SIM: SimTimes = SimTimes {
    sim_update_ns: 5,
    cpu_staging_ns: 6,
    main_wait_ns: 7,
};

fn mesh(vertices: u32, indices: u32) -> SlotMesh {
    SlotMesh {
        vertex_count: vertices,
        index_count: indices,
        bounds: MeshBounds {
            center: [0; 3],
            radius: 0,
        },
        texture: None,
    }
}

fn deltas(slots: Vec<SlotMesh>, flips: Vec<Flip>, refcounts: Vec<u32>) -> AssetDeltas {
    AssetDeltas {
        meshes: MeshDelta {
            slots,
            redirect_updates: flips,
            mesh_id_count: refcounts.len() as u32,
            refcounts,
        },
        texture_slots: 2,
        texture_updates: vec![],
        texture_ids: 0,
        materials: MaterialDelta {
            slots: vec![MaterialData {
                base_color: [0; 4],
                emissive: [0; 3],
                roughness: 0,
                metallic: 0,
                base_color_tex: None,
            }],
            dirty_slots: vec![],
            redirect_updates: vec![],
            material_id_count: 1,
        },
    }
}

fn first() -> AssetDeltas {
    deltas(vec![mesh(4, 6), mesh(8, 12)], vec![], vec![3])
}

fn quiet(refcounts: Vec<u32>) -> AssetDeltas {
    deltas(vec![], vec![], refcounts)
}

fn job(ready_gen: u64, entity_count: usize, spawns: Vec<[u32; 3]>) -> FrameJob {
    let mut input = Input::new();
    gather_job(
        &mut input,
        ready_gen,
        Some(entity_count),
        vec![[1, 0]],
        spawns,
        [9; 16],
        SIM,
    )
}

fn scene(n: usize, marked: u32) -> Option<TrsSource> {
    Some(TrsSource {
        position_words: vec![marked],
        rotation_words: vec![0],
        scale_words: vec![0],
        positions: (0..3 * n as u32).collect(),
        rotations: vec![0; 2 * n],
        scales: vec![0; 3 * n],
        entity_count: n,
    })
}

fn staging(n: usize) -> GpuStaging {
    GpuStaging {
        positions: vec![77; 3 * n],
        rotations: vec![77; 2 * n],
        scales: vec![77; 3 * n],
        dirty_pos: vec![0; 1],
        dirty_rot: vec![0; 1],
        dirty_scl: vec![0; 1],
        view_proj: [0; 16],
    }
}

#[test]
fn windows_open_with_the_first_upload() {
    let (ctx, uploads) = RenderContext::new(Some(4), CameraHandle(2), [64, 32], &first());
    assert_eq!(ctx.world_transforms.entity_capacity(), 4);
    assert_eq!(ctx.gpu_renderers.capacity(), 4);
    assert_eq!(ctx.main_camera.extent(), [64, 32]);
    assert_eq!(ctx.main_camera.state().slot(), 2);
    assert!(ctx.main_camera.occlusion_enabled() && !ctx.main_camera.cull_lock());
    assert_eq!(uploads.meshes.placements.len(), 2);
    assert_eq!(uploads.meshes.totals, vec![3, 0]);
    assert!(uploads.textures.changed && uploads.materials.changed);
    let draw = &ctx.main_camera.draws[0];
    assert_eq!((draw.world, draw.cull_range, draw.slot_count), (MAIN_WORLD, 4, 2));
    assert_eq!(draw.pass1.template[0].index_count, 6);
    assert_eq!(draw.pass1.template[1].first_instance, 3);
    assert_eq!((ctx.main_camera.slot_count, ctx.main_camera.vp_write_slot), (2, 0));
    assert_eq!(ctx.main_camera.locked_view_proj, [0; 16]);
    assert_eq!(ctx.world_transforms.parent_update_capacity, 1024);
    assert_eq!(ctx.gpu_renderers.spawn_capacity, 1024);

    let (empty, _) = RenderContext::new(None, CameraHandle(0), [1, 1], &first());
    assert_eq!(empty.world_transforms.entity_capacity(), 1);
}

#[test]
fn resizes_reach_the_camera_and_the_simulation() {
    let (mut ctx, _) = RenderContext::new(Some(1), CameraHandle(0), [64, 32], &first());
    let mut handoff = FrameHandoff::new(1, [64, 32]);
    assert!(!ctx.swapchain_recreated(&mut handoff, [64, 32]));
    assert!(ctx.swapchain_recreated(&mut handoff, [10, 20]));
    assert_eq!(handoff.published_extent(), [10, 20]);
    assert_eq!(ctx.main_camera.extent(), [10, 20]);

    ctx.main_camera.resolution = CameraResolution::Fixed([10, 20]);
    assert!(!ctx.swapchain_recreated(&mut handoff, [30, 40]));
    assert_eq!(handoff.published_extent(), [30, 40]);
    assert_eq!(ctx.main_camera.extent(), [10, 20]);
}

#[test]
fn frames_make_room_before_they_draw() {
    let (mut ctx, _) = RenderContext::new(Some(4), CameraHandle(0), [8, 8], &first());
    let mut handoff = FrameHandoff::new(4, [8, 8]);

    // Nothing happened: nothing to do.
    let mut idle = job(1, 4, vec![]);
    idle.parent_updates = vec![];
    let prep = ctx.prepare_frame(&mut handoff, &idle, &quiet(vec![3]));
    assert!(prep.grow_world.is_none() && prep.grow_renderers.is_none());
    assert!(!prep.uploads.meshes.submit && !prep.changes.mesh_changed);
    assert_eq!(prep.decision.update, PlanUpdate::Keep);
    assert!(!prep.decision.rebuild_frame_slots);

    // A renderer left: the templates' bases move.
    let gone = vec![[2, u32::MAX, 0]];
    let prep = ctx.prepare_frame(&mut handoff, &job(1, 4, gone), &quiet(vec![2]));
    assert!(prep.changes.spawned && !prep.changes.grew_world);
    assert_eq!(prep.decision.update, PlanUpdate::Templates);
    assert_eq!(prep.worlds[0].plan.total_renderers, 2);

    // More renderers than the instance buffers have room for.
    let prep = ctx.prepare_frame(&mut handoff, &job(1, 4, vec![[2, 0, 0]]), &quiet(vec![4]));
    assert_eq!(prep.decision.update, PlanUpdate::Full);

    // The hierarchy grew: everything is rebuilt for it.
    let prep = ctx.prepare_frame(&mut handoff, &job(1, 5, vec![]), &quiet(vec![4]));
    assert_eq!(prep.grow_world, Some(Regrow { new_cap: 8, keep: 4 }));
    assert_eq!(prep.grow_renderers.unwrap().new_cap, 8);
    assert_eq!(handoff.published_entity_capacity(), 8);
    assert_eq!(prep.decision.update, PlanUpdate::Full);
    assert!(prep.decision.rebuild_frame_slots);
    assert_eq!(ctx.main_camera.draws[0].cull_range, 8);

    // More re-parentings and records than the streams hold.
    let mut busy = job(1, 5, vec![[0, 0, 0]; 1025]);
    busy.parent_updates = vec![[1, 0]; 3000];
    let prep = ctx.prepare_frame(&mut handoff, &busy, &quiet(vec![4]));
    assert!(prep.changes.grew_parent_staging && prep.changes.grew_spawn_staging);
    assert_eq!(ctx.world_transforms.parent_update_capacity, 3000);
    assert_eq!(ctx.gpu_renderers.spawn_capacity, 2048);

    // A record past the hierarchy's end, in a slot that the buffer has.
    let prep = ctx.prepare_frame(&mut handoff, &job(1, 5, vec![[7, 0, 0]]), &quiet(vec![4]));
    assert!(prep.changes.spawned && prep.grow_renderers.is_none());

    // A mesh landed and an id flipped to it.
    let flip = vec![Flip { id: 0, slot: 2 }];
    let landed = deltas(vec![mesh(3, 3)], flip, vec![4]);
    let prep = ctx.prepare_frame(&mut handoff, &idle, &landed);
    assert_eq!(prep.uploads.meshes.first_slot, 2);
    assert_eq!(prep.uploads.meshes.totals, vec![0, 0, 4]);
    assert_eq!(prep.decision.update, PlanUpdate::Full);
}

#[test]
fn staged_frames_reach_the_gpu() {
    let (mut ctx, _) = RenderContext::new(Some(4), CameraHandle(0), [8, 8], &first());
    let mut handoff = FrameHandoff::new(4, [8, 8]);
    let layout = TaskLayout {
        words_per_task: 1,
        n_tasks: 1,
    };
    let ready_gen = handoff.write_frame(4, &mut scene(4, 0b100), layout, [0; 2], [9; 16]);
    assert!(!handoff.buffer_free());
    let job = job(ready_gen, 4, vec![[2, 0, 0]]);
    let prep = ctx.prepare_frame(&mut handoff, &job, &quiet(vec![2]));
    assert_eq!(ctx.main_camera.draws[0].pass2.template[1].first_instance, 3);
    let mut gpu = staging(4);
    let spans = ctx.stage_frame(&mut handoff, &mut gpu, &job, &prep);

    assert!(handoff.buffer_free());
    assert_eq!((spans[0].min_word, spans[0].max_word), (0, 0));
    assert_eq!(gpu.dirty_pos, vec![0b100]);
    assert_eq!(gpu.positions[6..9], [6, 7, 8]);
    assert_eq!(gpu.positions[0..6], [77; 6]);
    assert_eq!(gpu.view_proj, [9; 16]);
    assert_eq!(ctx.world_transforms.staging_parent_updates[..4], [1, 0, 1, 0]);
    assert_eq!(ctx.gpu_renderers.spawn_staging[..5], [1, 0, 2, 0, 0]);
    let slot = ctx.main_camera.vp_write_slot;
    assert_eq!(ctx.main_camera.cull_view_proj_staging[slot], [9; 16]);
    assert_eq!(ctx.main_camera.draws[0].pass2.template[1].first_instance, 2);
}

#[test]
fn finished_frames_are_counted_and_timed() {
    let (mut ctx, _) = RenderContext::new(Some(1), CameraHandle(0), [8, 8], &first());
    let mut stats = FrameStats::new();
    stats.frame_count = 510;
    let mut frames: u64 = 118;
    let times = FrameTimes {
        host_staging_ns: 40,
        cpu_gpu_staging_ns: 30,
    };
    let job = job(1, 1, vec![]);
    let (window, report) = ctx.finish_frame(&mut stats, &mut frames, &job, &times, 2);
    assert!(window.is_none() && !report);
    let (window, report) = ctx.finish_frame(&mut stats, &mut frames, &job, &times, 2);
    assert!(report);
    let window = window.unwrap();
    assert_eq!((window.frame_count, window.host_staging.sum_ns), (512, 80));
    assert_eq!((window.sim_update.max_ns, window.main_wait.min_ns), (5, 7));
    assert_eq!(window.cpu_staging.count, 2);
    assert_eq!(stats.frame_count, 0);
    assert_eq!(ctx.world_transforms.next_signal_expected, 3);
}

#[test]
fn jobs_end_the_frames_input() {
    let mut input = Input::new();
    input.inject_key(KeyCode::Function(9), true);
    let job = gather_job(&mut input, 3, None, vec![], vec![], [0; 16], SIM);
    assert!(job.f9_pressed && !job.f8_pressed);
    assert_eq!((job.ready_gen, job.entity_count), (3, 1));
    let job = gather_job(&mut input, 4, Some(7), vec![], vec![], [0; 16], SIM);
    assert!(!job.f9_pressed, "held, not pressed");
    assert!(input.key_down(KeyCode::Function(9)));
    assert_eq!((job.entity_count, job.cpu_staging_ns), (7, 6));
}
