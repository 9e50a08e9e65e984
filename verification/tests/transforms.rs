use engine_render::camera::CameraResolution;
use engine_render::dirty::{dirty_word_count, walk_bits};
use engine_render::frame_handoff::{
    backoff, copy_dirty_component, pack_extent, unpack_extent, Backoff, CpuTrsStaging,
    FrameHandoff, GpuStaging, TaskLayout, TrsSource, WordSpan,
};
use engine_render::frame_slot::{build_frame_slot, FrameCommand};
use engine_render::hiz::{
    dispatch_groups_2d, history_regions, hiz_build_plan, hiz_level_extent, hiz_mip0_extent,
    hiz_mip_count, HizDispatch,
};
use engine_render::transform_gpu::{map_line, numa_line, WorldTransformGpu};

#[test]
fn bitmasks_have_a_word_per_thirty_two_slots() {
    assert_eq!(dirty_word_count(0), 1);
    assert_eq!(dirty_word_count(1), 1);
    assert_eq!(dirty_word_count(32), 1);
    assert_eq!(dirty_word_count(33), 2);
}

#[test]
fn set_bits_are_walked_lowest_first() {
    assert_eq!(walk_bits(0b1010_0001, 2, 1000), vec![64, 69, 71]);
    assert_eq!(walk_bits(0b1010_0001, 2, 70), vec![64, 69]);
    assert_eq!(walk_bits(0, 0, 10), Vec::<usize>::new());
    assert_eq!(walk_bits(u32::MAX, 0, 100).len(), 32);
    assert_eq!(walk_bits(0x8000_0000, 1, 64), vec![63]);
}

#[test]
fn extents_pack_both_ways() {
    assert_eq!(pack_extent([1920, 1080]), (1920u64 << 32) | 1080);
    assert_eq!(unpack_extent(pack_extent([u32::MAX, 7])), [u32::MAX, 7]);
}

fn source(n: usize, marked: &[usize]) -> TrsSource {
    let words = dirty_word_count(n);
    let mut bits = vec![0u32; words];
    for e in marked {
        bits[e / 32] |= 1 << (e % 32);
    }
    TrsSource {
        position_words: bits.clone(),
        rotation_words: vec![0; words],
        scale_words: bits,
        positions: (0..3 * n as u32).collect(),
        rotations: (0..2 * n as u32).map(|v| 1000 + v).collect(),
        scales: (0..3 * n as u32).map(|v| 5000 + v).collect(),
        entity_count: n,
    }
}

fn gpu(n: usize) -> GpuStaging {
    GpuStaging {
        positions: vec![9; 3 * n],
        rotations: vec![9; 2 * n],
        scales: vec![9; 3 * n],
        dirty_pos: vec![0; dirty_word_count(n)],
        dirty_rot: vec![0; dirty_word_count(n)],
        dirty_scl: vec![0; dirty_word_count(n)],
        view_proj: [0; 16],
    }
}

#[test]
fn a_frame_uploads_exactly_what_is_marked() {
    let mut h = FrameHandoff::new(100, [800, 600]);
    let mut root = Some(source(100, &[2, 70]));
    let layout = TaskLayout {
        words_per_task: 3,
        n_tasks: 2,
    };
    assert!(h.buffer_free());
    let gen = h.write_frame(100, &mut root, layout, [0, 0], [7; 16]);
    assert_eq!(gen, 1);
    assert!(!h.buffer_free());
    assert!(root.as_ref().unwrap().position_words.iter().all(|w| *w == 0));
    assert_eq!(
        h.staging.min_max_words[0],
        WordSpan {
            min_word: 0,
            max_word: 2
        }
    );
    assert_eq!(h.staging.min_max_words[1].max_word, -1);

    let mut g = gpu(100);
    h.consume(gen, &mut g);
    assert!(h.buffer_free());
    assert_eq!(g.positions[6..9], [6, 7, 8]);
    assert_eq!(g.positions[210..213], [210, 211, 212]);
    assert_eq!(g.positions.iter().filter(|v| **v == 9).count(), 294);
    assert!(g.rotations.iter().all(|v| *v == 9));
    assert_eq!(g.scales[6], 5006);
    assert_eq!((g.dirty_pos[0], g.dirty_pos[2]), (4, 1 << 6));
    assert_eq!(g.view_proj, [7; 16]);

    // Nothing sticks: the next quiet frame moves nothing.
    let gen = h.write_frame(100, &mut root, layout, [0, 0], [8; 16]);
    let mut g = gpu(100);
    let spans = h.consume(gen, &mut g);
    assert!(spans.iter().all(|s| s.max_word == -1));
    assert!(g.positions.iter().all(|v| *v == 9));
    assert_eq!(g.view_proj, [8; 16]);
}

#[test]
fn without_a_scene_the_identity_is_staged() {
    let mut h = FrameHandoff::new(0, [1, 1]);
    let mut root = None;
    let layout = TaskLayout {
        words_per_task: 1,
        n_tasks: 1,
    };
    h.write_frame(1, &mut root, layout, [11, 12], [0; 16]);
    let s = &h.staging;
    assert_eq!(s.positions, vec![0, 0, 0]);
    assert_eq!(s.rotations, vec![11, 12]);
    assert_eq!(s.scales, vec![1.0f32.to_bits(); 3]);
    assert_eq!((s.dirty_pos[0], s.dirty_rot[0], s.dirty_scl[0]), (1, 1, 1));
    assert!(s.min_max_words.iter().all(|w| (w.min_word, w.max_word) == (0, 0)));
}

#[test]
fn staging_grows_and_starts_over() {
    let mut s = CpuTrsStaging::new(4);
    s.positions[0] = 5;
    s.ensure_capacity(4);
    assert_eq!((s.capacity, s.positions[0]), (4, 5));
    s.ensure_capacity(5);
    assert_eq!((s.capacity, s.positions.len(), s.positions[0]), (8, 24, 0));
    s.ensure_capacity(100);
    assert_eq!((s.capacity, s.dirty_pos.len()), (100, 4));
}

#[test]
fn handoff_publishes_what_the_reader_knows() {
    let mut h = FrameHandoff::new(3, [800, 600]);
    assert_eq!(h.published_extent(), [800, 600]);
    h.publish_extent([1, 2]);
    h.publish_entity_capacity(77);
    assert_eq!((h.published_extent(), h.published_entity_capacity()), ([1, 2], 77));
    assert_eq!(backoff(1), Backoff::Spin);
    assert_eq!(backoff(64), Backoff::Yield);
    assert_eq!(backoff(2000), Backoff::Sleep);
}

#[test]
fn promotion_skips_clean_words_in_the_span() {
    let span = WordSpan {
        min_word: 0,
        max_word: 2,
    };
    let cpu_dirty = vec![1, 0, 2];
    let values: Vec<u32> = (0..96).collect();
    let mut gpu_dirty = vec![0, 42, 0];
    let mut gpu_values = vec![7; 96];
    copy_dirty_component(span, &cpu_dirty, &values, &mut gpu_dirty, &mut gpu_values, 1, 96);
    assert_eq!(gpu_dirty, vec![1, 42, 2]);
    assert_eq!((gpu_values[0], gpu_values[1], gpu_values[65]), (0, 7, 65));
    let none = WordSpan {
        min_word: i64::MAX,
        max_word: -1,
    };
    copy_dirty_component(none, &cpu_dirty, &values, &mut gpu_dirty, &mut gpu_values, 1, 96);
    assert_eq!(gpu_values[1], 7);
}

#[test]
fn pyramids_halve_down_to_a_texel() {
    assert_eq!(hiz_mip0_extent([801, 600]), [401, 300]);
    assert_eq!(hiz_mip_count([1, 1]), 1);
    assert_eq!(hiz_mip_count([0, 0]), 1);
    assert_eq!(hiz_mip_count([401, 300]), 9);
    assert_eq!(hiz_level_extent([401, 300], 1), [200, 150]);
    assert_eq!(hiz_level_extent([401, 300], 8), [1, 1]);
    assert_eq!(hiz_level_extent([5, 1], 1), [2, 1]);
    assert_eq!(dispatch_groups_2d([9, 0]), [2, 1]);
}

#[test]
fn pyramid_builds_pair_their_levels() {
    let plan = hiz_build_plan([401, 300]);
    assert_eq!(plan.len(), 5, "nine levels: one, then four pairs");
    assert_eq!(plan[0], HizDispatch::Depth { gx: 51, gy: 38 });
    assert_eq!(
        plan[1],
        HizDispatch::Pair {
            first: 1,
            gx: 25,
            gy: 19
        }
    );
    let odd = hiz_build_plan([2, 2]);
    assert_eq!(
        odd[1],
        HizDispatch::Trailing {
            level: 1,
            gx: 1,
            gy: 1
        }
    );
    let regions = history_regions([401, 300], 9);
    assert_eq!(regions.len(), 9);
    assert_eq!((regions[1].level, regions[1].extent), (1, [200, 150]));
}

#[test]
fn frames_record_by_their_switches() {
    let whole = CameraResolution::MatchSwapchain;
    let all = build_frame_slot(true, false, whole);
    let frozen = build_frame_slot(true, true, whole);
    let off = build_frame_slot(false, false, whole);
    let panel = build_frame_slot(true, false, CameraResolution::Fixed([8, 8]));
    assert_eq!((all.len(), frozen.len(), off.len(), panel.len()), (31, 29, 25, 30));
    for plan in [&all, &frozen, &off, &panel] {
        let q: Vec<u32> = plan
            .iter()
            .filter_map(|c| match c {
                FrameCommand::Timestamp { query, .. } => Some(*query),
                _ => None,
            })
            .collect();
        assert_eq!(q, vec![0, 1, 2, 3, 4, 5, 6, 7]);
        let signal = plan.iter().position(|c| *c == FrameCommand::Signal).unwrap();
        let cull = plan.iter().position(|c| *c == FrameCommand::Cull).unwrap();
        assert!(signal < cull);
        let overlay = plan.iter().position(|c| *c == FrameCommand::DrawOverlay).unwrap();
        let scene = plan.iter().rposition(|c| matches!(c, FrameCommand::DrawScene { .. }));
        assert!(scene.unwrap() < overlay - 1);
        let scope = FrameCommand::BeginDraw {
            clear: false,
            keep_depth: false,
        };
        assert_eq!((plan[overlay - 1], plan[overlay + 1]), (scope, FrameCommand::EndDraw));
    }
    assert_eq!(all[all.len() - 2], FrameCommand::Blit);
    assert!(!panel.contains(&FrameCommand::Blit), "a panel shows this camera");
    assert!(all.contains(&FrameCommand::BuildHiz));
    assert!(!frozen.contains(&FrameCommand::BuildHiz) && frozen.contains(&FrameCommand::CullAgain));
    assert!(!off.contains(&FrameCommand::CullAgain));
}

#[test]
fn transform_buffers_grow_and_stream() {
    let mut w = WorldTransformGpu::new(0);
    assert_eq!(w.entity_capacity(), 1);
    let g = w.ensure_capacity(100).unwrap();
    assert_eq!((g.new_cap, g.keep), (100, 1));
    assert!(w.ensure_capacity(100).is_none());
    let l = w.staging_layout();
    assert_eq!((l.slots, l.dirty_words, l.view_projs), (100, 4, 1));
    w.write_parent_updates(&vec![[3, 4], [5, 6]]);
    assert_eq!(w.staging_parent_updates[..6], [2, 0, 3, 4, 5, 6]);
    w.write_parent_updates(&vec![]);
    assert_eq!(w.staging_parent_updates[0], 0);
    assert!(!w.ensure_parent_update_capacity(1024));
    assert!(w.ensure_parent_update_capacity(5000));
    let p = w.scatter_plan();
    assert_eq!((p.component_groups, p.entity_count, p.parent_groups), (2, 100, 79));
}

#[test]
fn the_host_waits_for_the_counter() {
    let mut w = WorldTransformGpu::new(1);
    assert!(w.compute_done(0), "nothing submitted yet");
    w.inc_signal_expected();
    assert!(!w.compute_done(0));
    assert!(w.compute_done(1));
    w.next_signal_expected = 0;
    assert!(w.compute_done(u32::MAX), "the counter wraps");
    assert!(!w.compute_done(u32::MAX - 1));
}

#[test]
fn memory_maps_are_searched_by_address() {
    let maps = "1000-2000 r--p a\n7f00-8000 rw-p /dev/dri/renderD128\n";
    let line = map_line(maps, 0x7f10);
    assert_eq!(line, "7f00-8000 rw-p /dev/dri/renderD128");
    assert_eq!(map_line(maps, 0x2000), "(no /proc/self/maps line found)");
    let numa = "1000 default\n7f00 default file=/dev/dri\n";
    assert_eq!(numa_line(numa, &line), "7f00 default file=/dev/dri");
    assert_eq!(
        numa_line("zz default", &line),
        "(no /proc/self/numa_maps line found)"
    );
}
