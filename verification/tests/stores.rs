use engine_render::assets::gpu_store::{GpuMeshStore, Grow, MeshDelta, SlotMesh, NO_TEXTURE};
use engine_render::assets::material_store::{GpuMaterialStore, MaterialData, MaterialDelta};
use engine_render::assets::redirect::Flip;
use engine_render::assets::texture_store::{GpuTextureStore, MAX_TEXTURES};
use engine_render::assets::{MeshBounds, TextureId};
use engine_render::draw::build_draw_plan;
use engine_render::growth::{div_ceil_usize, group_count, grow_u32, grow_usize};

fn slot(v: u32, i: u32, texture: Option<TextureId>) -> SlotMesh {
    SlotMesh {
        vertex_count: v,
        index_count: i,
        bounds: MeshBounds {
            center: [0; 3],
            radius: 0,
        },
        texture,
    }
}

fn delta(slots: Vec<SlotMesh>, flips: Vec<(u32, u32)>, refcounts: Vec<u32>) -> MeshDelta {
    MeshDelta {
        slots,
        redirect_updates: flips
            .into_iter()
            .map(|(id, slot)| Flip { id, slot })
            .collect(),
        mesh_id_count: refcounts.len() as u32,
        refcounts,
    }
}

#[test]
fn mesh_sync_places_slots_one_behind_the_other() {
    let mut s = GpuMeshStore::new();
    let r = s.sync(&delta(
        vec![slot(10, 30, None), slot(4, 12, Some(TextureId(9)))],
        vec![],
        vec![],
    ));
    assert!(r.changed && r.submit);
    assert_eq!(r.placements.len(), 2);
    assert_eq!((r.placements[1].vertex_offset, r.placements[1].first_index), (10, 30));
    assert_eq!(r.texture_entries, vec![NO_TEXTURE, 9]);
    assert_eq!(s.slot_count(), 2);
    assert_eq!(s.slot_geometry(1).unwrap().index_count, 12);
    assert!(s.slot_geometry(2).is_none());
    assert_eq!(r.totals, vec![0, 0]);

    let quiet = s.sync(&delta(vec![], vec![], vec![]));
    assert!(!quiet.changed && !quiet.submit);
}

#[test]
fn flips_wait_for_their_slot() {
    let mut s = GpuMeshStore::new();
    s.upload_slots_cap = 64;
    s.sync(&delta(vec![slot(1, 3, None), slot(1, 3, None)], vec![], vec![]));
    // More slots than the cap takes: the flip to the last one has to wait.
    let many: Vec<SlotMesh> = (0..65).map(|_| slot(1, 3, None)).collect();
    let r = s.sync(&delta(many, vec![(0, 2), (1, 66)], vec![5, 7]));
    assert_eq!(r.placements.len(), 64);
    assert_eq!(r.flips, vec![Flip { id: 0, slot: 2 }]);
    assert_eq!(s.pending_redirects, vec![Flip { id: 1, slot: 66 }]);
    assert_eq!(r.totals[2], 5);
    assert_eq!(r.totals[0], 7, "a waiting id draws as the placeholder");
    assert_eq!(r.totals.iter().sum::<u32>(), 12);

    let r = s.sync(&delta(vec![slot(1, 3, None)], vec![], vec![5, 7]));
    assert_eq!(r.flips, vec![Flip { id: 1, slot: 66 }]);
    assert_eq!(r.totals[66], 7);
    assert_eq!(r.totals[0], 0);
}

#[test]
fn syncs_go_forward_and_count_every_reference() {
    let mut s = GpuMeshStore::new();
    s.upload_slots_cap = 64;
    let many: Vec<SlotMesh> = (0..100).map(|n| slot(1, n + 1, None)).collect();
    let r = s.sync(&delta(many, vec![(0, 70), (1, 3)], vec![5, 6]));
    assert_eq!(s.slot_count(), 64);
    assert_eq!((r.totals.len(), r.totals[0], r.totals[3]), (64, 5, 6));
    let third = s.slot_geometry(3);
    let rest: Vec<SlotMesh> = (64..100).map(|n| slot(1, n + 1, None)).collect();
    let r = s.sync(&delta(rest, vec![], vec![5, 6]));
    assert_eq!(s.slot_count(), 100);
    assert!(r.changed);
    assert_eq!(r.totals.iter().sum::<u32>(), 11);
    assert_eq!((r.totals[70], r.totals[3]), (5, 6));
    assert_eq!(s.slot_geometry(3), third, "what is uploaded stays");
    assert!(!s.sync(&delta(vec![], vec![], vec![5, 7])).changed);
}

#[test]
fn only_what_lands_must_be_known() {
    let mut s = GpuMeshStore::new();
    let two = vec![slot(1, 3, None), slot(1, 3, None)];
    // The flip of an id that is not there yet waits for its slot.
    let r = s.sync(&delta(two, vec![(9, 2), (1, 1)], vec![u32::MAX, u32::MAX]));
    assert_eq!(r.totals, vec![u32::MAX, u32::MAX], "each slot counts for itself");
    assert_eq!(s.pending_redirects, vec![Flip { id: 9, slot: 2 }]);
    let r = s.sync(&delta(vec![slot(1, 3, None)], vec![], vec![1; 10]));
    assert_eq!(r.totals, vec![8, 1, 1]);
}

#[test]
fn an_oversized_mesh_still_lands() {
    let mut s = GpuMeshStore::new();
    let r = s.sync(&delta(
        vec![slot(1_000_000, 3, None), slot(1, 3, None)],
        vec![],
        vec![],
    ));
    assert_eq!(r.placements.len(), 1, "the budget is spent on the first");
    assert_eq!(
        r.grow_vertex,
        Some(Grow {
            new_cap: 1_000_000,
            keep: 0
        })
    );
}

#[test]
fn upload_caps_stay_in_bounds() {
    let mut s = GpuMeshStore::new();
    s.adapt_upload_caps(0, 1, 1);
    assert_eq!(s.upload_slots_cap, 1024);
    s.adapt_upload_caps(3, 1, 1);
    assert_eq!((s.upload_slots_cap, s.upload_bytes_cap), (64, 1 << 20));
    s.adapt_upload_caps(3, usize::MAX, usize::MAX);
    assert_eq!((s.upload_slots_cap, s.upload_bytes_cap), (1 << 16, 512 << 20));
}

#[test]
fn plans_prefix_sum_their_instances() {
    let mut s = GpuMeshStore::new();
    let r = s.sync(&delta(
        vec![slot(10, 30, None), slot(4, 12, None), slot(8, 24, None)],
        vec![(0, 2)],
        vec![3, 2],
    ));
    assert_eq!(r.totals, vec![2, 0, 3]);
    let plan = build_draw_plan(&s, &r.totals);
    assert_eq!(plan.total_renderers, 5);
    let bases: Vec<u32> = plan.commands.iter().map(|c| c.first_instance).collect();
    assert_eq!(bases, vec![0, 2, 2]);
    assert_eq!(plan.commands[2].vertex_offset, 14);
    assert_eq!(plan.commands[2].first_index, 42);
    assert!(plan.commands.iter().all(|c| c.instance_count == 0));
}

fn material(tex: Option<u32>) -> MaterialData {
    MaterialData {
        base_color: [1, 2, 3, 4],
        emissive: [5, 6, 7],
        roughness: 8,
        metallic: 9,
        base_color_tex: tex.map(TextureId),
    }
}

#[test]
fn material_sync_uploads_everything_once() {
    let mut s = GpuMaterialStore::new();
    let mut d = MaterialDelta {
        slots: vec![material(None), material(Some(3))],
        dirty_slots: vec![0],
        redirect_updates: vec![Flip { id: 0, slot: 1 }, Flip { id: 1, slot: 2 }],
        material_id_count: 2,
    };
    let r = s.sync(&d);
    assert!(r.changed && r.submit);
    assert_eq!(r.new_slots.len(), 2);
    assert_eq!(r.new_slots[0].base_color_tex, NO_TEXTURE);
    assert_eq!(r.new_slots[1].base_color_tex, 3);
    assert!(r.patches.is_empty(), "a new slot needs no patch");
    assert_eq!(r.flips, vec![Flip { id: 0, slot: 1 }]);
    assert_eq!(s.pending_redirects, vec![Flip { id: 1, slot: 2 }]);

    d.dirty_slots = vec![1, 7];
    d.redirect_updates = vec![];
    let r = s.sync(&d);
    assert_eq!(r.patches.len(), 1);
    assert_eq!((r.patches[0].slot, r.patches[0].data.base_color_tex), (1, 3));
    assert!(r.flips.is_empty());

    s.pending_redirects.clear();
    d.dirty_slots = vec![];
    let r = s.sync(&d);
    assert!(!r.changed && !r.submit);
    d.material_id_count = 65;
    let r = s.sync(&d);
    assert!(r.changed && !r.submit, "growing alone submits nothing more");
    assert_eq!(
        r.grow_redirect,
        Some(Grow {
            new_cap: 128,
            keep: 64
        })
    );
}

#[test]
fn texture_array_is_always_full() {
    let mut s = GpuTextureStore::new();
    let r = s.sync(2, &vec![], 0);
    assert!(r.changed);
    assert_eq!((r.first_slot, r.end_slot), (0, 2));
    let a = s.descriptor_array();
    assert_eq!(a.len(), MAX_TEXTURES as usize);
    assert_eq!((a[0], a[1], a[2], a[1023]), (0, 1, 0, 0));
    assert!(!s.sync(2, &vec![], 64).changed);
    let flips = vec![Flip { id: 5, slot: 1 }, Flip { id: 0, slot: 1 }];
    let r = s.sync(2, &flips, 64);
    assert!(r.changed);
    assert_eq!(r.flips, flips, "patched in the order they were drained");
    assert_eq!(s.sync(2, &vec![], 200).grow_redirect.unwrap().new_cap, 200);
}

#[test]
fn growth_doubles_or_fits() {
    assert_eq!(grow_u32(64, 64), 64);
    assert_eq!(grow_u32(64, 65), 128);
    assert_eq!(grow_u32(64, 1000), 1000);
    assert_eq!(grow_u32(0x9000_0000, 0x9000_0001), u32::MAX);
    assert_eq!(grow_usize(usize::MAX - 1, usize::MAX), usize::MAX);
    assert_eq!(div_ceil_usize(65, 64), 2);
    assert_eq!(group_count(0, 64), 1);
    assert_eq!(group_count(64, 64), 1);
    assert_eq!(group_count(65, 64), 2);
}
