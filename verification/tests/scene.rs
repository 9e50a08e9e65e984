use engine_render::camera::{
    camera_count, CameraHandle, CameraResolution, Cameras, CullCommand, PanelBox, RenderCamera,
};
use engine_render::draw::{DrawCommand, DrawPlan, WorldSource};
use engine_render::render_thread::{
    count_frame, entity_count, update_camera, DebugKeys, FrameChanges, PlanUpdate,
};
use engine_render::scene::{CameraComponent, OrbitController, OrbitMotion, OrbitPointer};

fn at(p: [f32; 2]) -> [u32; 2] {
    [p[0].to_bits(), p[1].to_bits()]
}

fn rect(r: [f32; 4]) -> Option<PanelBox> {
    Some(PanelBox {
        origin: at([r[0], r[1]]),
        size: at([r[2], r[3]]),
        far: at([r[0] + r[2], r[1] + r[3]]),
    })
}

#[test]
fn a_camera_with_no_box_is_not_the_same_as_a_camera_nothing_shows() {
    let mut all = Cameras::new();
    let cam = CameraHandle::new(&mut all, 0);
    assert!(
        cam.contains(&all, at([0.0, 0.0])),
        "nothing shows it: the whole window"
    );

    cam.set_rect(&mut all, rect([10.0, 20.0, 30.0, 40.0]));
    assert!(cam.contains(&all, at([11.0, 21.0])) && !cam.contains(&all, at([9.0, 21.0])));
    assert!(
        !cam.contains(&all, at([40.0, 60.0])),
        "the far edge is outside"
    );

    cam.set_rect(&mut all, rect([0.0; 4]));
    assert!(
        !cam.contains(&all, at([0.0, 0.0])),
        "a closed panel owns nothing"
    );
}

#[test]
fn two_cameras_split_the_window() {
    let mut all = Cameras::new();
    let left = CameraHandle::new(&mut all, 7);
    let right = CameraHandle::new(&mut all, 9);
    left.set_rect(&mut all, rect([0.0, 0.0, 400.0, 600.0]));
    right.set_rect(&mut all, rect([400.0, 0.0, 400.0, 600.0]));

    assert!(left.contains(&all, at([100.0, 300.0])) && !right.contains(&all, at([100.0, 300.0])));
    assert!(right.contains(&all, at([500.0, 300.0])) && !left.contains(&all, at([500.0, 300.0])));
    assert_eq!(
        (left.worlds(&all), right.worlds(&all)),
        (vec![7], vec![9]),
        "its own world"
    );
    assert_ne!(left.slot(), right.slot(), "and its own bindless slot");
}

#[test]
fn a_camera_draws_the_worlds_it_is_given_in_order() {
    let mut all = Cameras::new();
    let cam = CameraHandle::new(&mut all, 3);
    cam.draw_world(&mut all, 5);
    cam.draw_world(&mut all, 3);
    assert_eq!(
        cam.worlds(&all),
        vec![3, 5],
        "spawned-in world first, no repeat"
    );
}

#[test]
fn boxes_compare_as_numbers() {
    let mut all = Cameras::new();
    let cam = CameraHandle::new(&mut all, 0);
    cam.set_rect(&mut all, rect([-5.5, -0.0, 5.5, 0.25]));
    assert!(cam.contains(&all, at([-5.5, 0.0])));
    assert!(cam.contains(&all, at([-0.001, 0.2])));
    assert!(!cam.contains(&all, at([0.0, 0.2])));
    assert!(!cam.contains(&all, at([f32::NAN, 0.2])));
    assert!(cam.rect(&all).unwrap().open());
    cam.set_rect(&mut all, rect([1.0, 1.0, 0.0, 5.0]));
    assert!(!cam.rect(&all).unwrap().open());
}

#[test]
fn cameras_start_with_the_default_view() {
    let mut all = Cameras::new();
    assert_eq!(camera_count(&all), 0);
    let cam = CameraHandle::new(&mut all, 2);
    assert_eq!(camera_count(&all), 1);
    assert_eq!(all.camera(0), Some(cam));
    assert_eq!(all.camera(1), None);
    assert_eq!(f32::from_bits(cam.fov_y(&all)), 60_f32.to_radians());
    let state = &all.all[0];
    assert_eq!(f32::from_bits(state.proj.z_near), 0.1);
    assert_eq!(f32::from_bits(state.proj.z_far), 10_000.0);
    let (m, eye) = cam.view_proj(&all);
    let one = 1.0f32.to_bits();
    assert_eq!((m[0], m[5], m[10], m[15]), (one, one, one, one));
    assert_eq!(m.iter().filter(|v| **v == 0).count(), 12);
    assert_eq!(eye, [0; 3]);
    cam.set_view_proj(&mut all, [7; 16], [1, 2, 3]);
    cam.set_grid(&mut all, Some([1, 2, 3, 4]));
    cam.set_aspect(&mut all, 5);
    cam.set_projection(&mut all, 1, 2, 3);
    assert_eq!(cam.view_proj(&all), ([7; 16], [1, 2, 3]));
    assert_eq!(cam.grid(&all), Some([1, 2, 3, 4]));
    assert_eq!((all.all[0].proj.aspect, cam.fov_y(&all)), (5, 1));
}

#[test]
fn camera_components_bind_and_unbind() {
    let mut all = Cameras::new();
    let mut a = CameraComponent::new();
    let mut b = CameraComponent::new();
    assert!(a.camera().is_none());
    a.init(&mut all, 1, 10);
    b.init(&mut all, 2, 10);
    assert_eq!(a.camera(), Some(CameraHandle(0)));
    let minted = &all.all[0];
    assert!(minted.grid.is_none());
    assert_eq!((minted.eye, minted.proj.aspect), ([0; 3], 1.0f32.to_bits()));
    assert_eq!((minted.view_proj[5], minted.view_proj[6]), (1.0f32.to_bits(), 0));
    let live = all.driven(&vec![2]);
    assert_eq!(live.len(), 1);
    assert_eq!((live[0].slot, live[0].entity), (1, 10));
    a.deinit(&mut all, 1, 10);
    assert_eq!(all.bound.len(), 1);
    assert_eq!(all.bound[0].world, 2);
    assert_eq!(camera_count(&all), 2, "a camera outlives its component");
}

#[test]
fn fixed_cameras_never_shrink_to_nothing() {
    let fixed = CameraResolution::Fixed([0, 7]);
    assert_eq!(fixed.resolve([100, 100]), [1, 7]);
    assert_eq!(CameraResolution::MatchSwapchain.resolve([3, 4]), [3, 4]);
    assert!(!fixed.depends_on_swapchain() && !fixed.blits_to_swapchain());
    assert!(CameraResolution::MatchSwapchain.depends_on_swapchain());
    assert!(CameraResolution::MatchSwapchain.blits_to_swapchain());
}

fn source(id: u32, capacity: usize, slots: usize, total: u32) -> WorldSource {
    let command = DrawCommand {
        index_count: 3,
        instance_count: 0,
        first_index: 0,
        vertex_offset: 0,
        first_instance: 0,
    };
    WorldSource {
        id,
        capacity,
        plan: DrawPlan {
            commands: vec![command; slots],
            total_renderers: total,
        },
    }
}

#[test]
fn resizing_follows_the_policy() {
    let mut c = RenderCamera::new_match_swapchain(CameraHandle(0), [801, 600], &vec![]);
    assert_eq!((c.extent(), c.hiz_mip0, c.slot_count), ([801, 600], [401, 300], 1));
    assert!(!c.on_swapchain_resize([801, 600]));
    c.set_cull_lock(true, [1; 16]);
    assert!(c.apply_pending_hiz_freeze());
    assert!(c.on_swapchain_resize([400, 300]));
    assert!(!c.hiz_frozen(), "a resized pyramid holds nothing to freeze");
    assert!(c.set_resolution(CameraResolution::Fixed([400, 300]), [400, 300]));
    assert!(!c.on_swapchain_resize([10, 10]));
    assert_eq!(c.resolution(), CameraResolution::Fixed([400, 300]));
    assert!(!c.set_resolution(CameraResolution::Fixed([400, 300]), [9, 9]));
}

#[test]
fn rebuilds_keep_a_worlds_buffers() {
    let first = vec![source(1, 100, 4, 50), source(2, 10, 4, 5)];
    let mut c = RenderCamera::new_match_swapchain(CameraHandle(0), [8, 8], &first);
    assert_eq!(c.draws[0].pass1.mvp_capacity, 50);
    assert!(!c.needs_structural_rebuild(&first, false));
    assert!(c.needs_structural_rebuild(&first, true));
    let next = vec![source(2, 10, 4, 6), source(3, 7, 4, 0), source(1, 200, 4, 40)];
    assert!(c.needs_structural_rebuild(&next, false));
    assert!(c.ensure_current(&next));
    let d = &c.draws;
    assert_eq!((d[0].world, d[1].world, d[2].world), (2, 3, 1));
    assert_eq!(d[0].pass1.mvp_capacity, 10, "grown twofold");
    assert_eq!(d[1].pass1.mvp_capacity, 1);
    assert_eq!(d[2].pass2.mvp_capacity, 50, "kept");
    assert_eq!(d[2].candidate_capacity, 200);
    assert!(!c.needs_structural_rebuild(&next, false));
}

#[test]
fn templates_end_in_draws_of_nothing() {
    let first = vec![source(1, 100, 4, 50)];
    let mut c = RenderCamera::new_match_swapchain(CameraHandle(0), [8, 8], &first);
    c.write_template_bases(&vec![source(1, 100, 2, 50)]);
    let t = &c.draws[0].pass1.template;
    assert_eq!(t.len(), 4);
    assert_eq!((t[0].index_count, t[1].index_count, t[2].index_count), (3, 3, 0));
    c.write_template_bases(&vec![source(9, 100, 3, 50)]);
    assert_eq!(c.draws[0].pass1.template[2].index_count, 0, "not its world");
}

#[test]
fn culls_record_stage_by_stage() {
    let worlds = vec![source(1, 65, 4, 50), source(2, 0, 0, 5)];
    let c = RenderCamera::new_match_swapchain(CameraHandle(0), [8, 8], &worlds);
    let plan = c.record_cull();
    assert_eq!(plan.len(), 11);
    assert_eq!(plan[1], CullCommand::Reset { draw: 1 });
    assert_eq!(plan[2], CullCommand::BindCull);
    assert_eq!(
        plan[3],
        CullCommand::Cull {
            draw: 0,
            renderer_capacity: 65,
            occlusion: true,
            groups: 2
        }
    );
    assert_eq!(plan[6], CullCommand::Args { draw: 0 });
    assert_eq!(
        plan[10],
        CullCommand::Compact {
            draw: 1,
            slots: 0,
            groups: 1
        }
    );
    let again = c.record_cull_pass2();
    assert_eq!(again.len(), 8);
    assert_eq!(again[3], CullCommand::Retest { draw: 0 });
    assert_eq!(c.scene_draw(), Some(4));
}

#[test]
fn frustum_lock_takes_a_snapshot() {
    let mut c = RenderCamera::new_match_swapchain(CameraHandle(3), [8, 8], &vec![]);
    assert_eq!(c.state(), CameraHandle(3));
    c.write_cull_view_proj([1; 16]);
    assert_eq!(c.cull_view_proj_staging[0], [1; 16]);
    c.set_cull_lock(true, [2; 16]);
    c.set_cull_lock(true, [3; 16]);
    c.advance_staging_slot();
    c.write_cull_view_proj([4; 16]);
    assert_eq!(c.cull_view_proj_staging[1], [2; 16]);
    c.write_view_proj([5; 16], [6; 3]);
    assert_eq!((c.view_proj_staging[1], c.eye_staging[1]), ([5; 16], [6; 3]));
    c.advance_staging_slot();
    assert_eq!(c.vp_write_slot, 0);
    assert!(c.cull_lock());
}

fn changes() -> FrameChanges {
    FrameChanges {
        grew_world: false,
        grew_renderers: false,
        grew_parent_staging: false,
        grew_spawn_staging: false,
        mesh_changed: false,
        tex_changed: false,
        mat_changed: false,
        spawned: false,
    }
}

#[test]
fn frames_rebuild_only_what_they_must() {
    let worlds = vec![source(1, 8, 2, 5)];
    let mut c = RenderCamera::new_match_swapchain(CameraHandle(0), [8, 8], &worlds);
    let none = DebugKeys { f8: false, f9: false };
    let d = update_camera(&mut c, changes(), &worlds, none, [0; 16]);
    assert_eq!((d.update, d.rebuild_frame_slots), (PlanUpdate::Keep, false));

    let mut spawned = changes();
    spawned.spawned = true;
    let d = update_camera(&mut c, spawned, &worlds, none, [0; 16]);
    assert_eq!((d.update, d.rebuild_frame_slots), (PlanUpdate::Templates, false));

    let mut grown = changes();
    grown.tex_changed = true;
    let d = update_camera(&mut c, grown, &worlds, none, [0; 16]);
    assert_eq!((d.update, d.rebuild_frame_slots), (PlanUpdate::Full, true));

    let f9 = DebugKeys { f8: false, f9: true };
    let d = update_camera(&mut c, changes(), &worlds, f9, [9; 16]);
    assert!(!d.rebuild_frame_slots && c.cull_lock() && !c.hiz_frozen());
    let f8 = DebugKeys { f8: true, f9: false };
    let d = update_camera(&mut c, changes(), &worlds, f8, [8; 16]);
    assert!(d.rebuild_frame_slots && c.hiz_frozen() && !c.occlusion_enabled());
    assert_eq!(c.locked_view_proj, [9; 16]);
}

#[test]
fn frames_count_up_to_the_report() {
    let mut n: u64 = 118;
    assert!(!count_frame(&mut n));
    assert!(count_frame(&mut n));
    assert!(!count_frame(&mut n));
    assert_eq!((entity_count(None), entity_count(Some(0)), entity_count(Some(9))), (1, 1, 9));
}

fn pointer() -> OrbitPointer {
    OrbitPointer {
        left_pressed: false,
        right_pressed: false,
        left_down: false,
        right_down: false,
        scroll: 0,
        ui_has_it: false,
        gizmo_has_it: false,
        over_panel: true,
    }
}

#[test]
fn orbiting_belongs_to_where_it_began() {
    let mut o = OrbitController::for_camera(CameraHandle(1));
    let mut p = pointer();
    p.left_pressed = true;
    p.left_down = true;
    let s = o.update(p);
    assert_eq!((s.motion, s.drives), (OrbitMotion::Orbit, Some(CameraHandle(1))));
    // The drag leaves the panel and goes on; the wheel does not.
    let mut p = pointer();
    p.left_down = true;
    p.over_panel = false;
    p.scroll = 1.0f32.to_bits();
    let s = o.update(p);
    assert_eq!((s.motion, s.zoom), (OrbitMotion::Orbit, false));
    // A press on a handle is the gizmo's, but the wheel still zooms.
    let mut p = pointer();
    p.right_pressed = true;
    p.right_down = true;
    p.gizmo_has_it = true;
    p.scroll = (-2.0f32).to_bits();
    let s = o.update(p);
    assert_eq!((s.motion, s.zoom), (OrbitMotion::Still, true));
    let mut p = pointer();
    p.right_pressed = true;
    p.right_down = true;
    p.scroll = (-0.0f32).to_bits();
    let s = o.update(p);
    assert_eq!((s.motion, s.zoom), (OrbitMotion::Pan, false));

    let mut free = OrbitController::new();
    free.adopt(Some(CameraHandle(4)));
    free.adopt(Some(CameraHandle(5)));
    assert_eq!(free.camera, Some(CameraHandle(4)));
    assert_eq!(free.update(pointer()).drives, None);
}
