use engine_render::assets::catalog::MeshCatalog;
use engine_render::assets::gpu_store::{Grow, INITIAL_INDEX_CAP, INITIAL_VERTEX_CAP};
use engine_render::assets::redirect::Flip;
use engine_render::assets::registry::{next_power_of_two, MeshRegistry, MeshShape};
use engine_render::assets::{MeshBounds, MeshId, MeshSlot};

fn bits(v: [f32; 3]) -> [u32; 3] {
    [v[0].to_bits(), v[1].to_bits(), v[2].to_bits()]
}

#[test]
fn reserved_slots_take_zero_and_one() {
    let mut c = MeshCatalog::new();
    let ph = c.alloc_slot(10, 30, bits([0.0; 3]), 1.0f32.to_bits());
    assert_eq!(ph.slot, MeshSlot::placeholder());
    assert_eq!(ph.vertex_offset, 0);
    assert_eq!(ph.first_index, 0);

    let er = c.alloc_slot(4, 12, bits([0.0; 3]), 0.5f32.to_bits());
    assert_eq!(er.slot, MeshSlot::error());
    assert_eq!(er.vertex_offset, 10);
    assert_eq!(er.first_index, 30);
}

#[test]
fn request_dedups_and_refcounts() {
    let mut c = MeshCatalog::new();
    c.alloc_slot(10, 30, bits([0.0; 3]), 1.0f32.to_bits());
    c.alloc_slot(4, 12, bits([0.0; 3]), 0.5f32.to_bits());

    let (a, load_a) = c.request(0xAAAA);
    assert!(load_a, "first request of a path must trigger a load");
    assert_eq!(c.redirect_of(a), MeshSlot::placeholder());

    let (a2, load_a2) = c.request(0xAAAA);
    assert_eq!(a, a2, "same path must dedup to the same MeshId");
    assert!(!load_a2, "repeat request must not trigger a second load");
    assert_eq!(c.refcount_of(a), 2);

    let (b, load_b) = c.request(0xBBBB);
    assert!(load_b);
    assert_ne!(a, b, "distinct paths must get distinct MeshIds");
}

#[test]
fn resolve_flips_redirect_and_places_geometry() {
    let mut c = MeshCatalog::new();
    c.alloc_slot(10, 30, bits([0.0; 3]), 1.0f32.to_bits());
    c.alloc_slot(4, 12, bits([0.0; 3]), 0.5f32.to_bits());
    let (a, _) = c.request(0xAAAA);

    // Pending: the placeholder.
    assert_eq!(c.redirect_of(a), MeshSlot::placeholder());

    let p = c.resolve(a, 8, 24, bits([1.0, 0.0, 0.0]), 2.0f32.to_bits());
    assert_eq!(p.slot, MeshSlot(2), "first real mesh lands in slot 2");
    assert_eq!(
        p.vertex_offset, 14,
        "cursor after placeholder(10) + error(4)"
    );
    assert_eq!(
        p.first_index, 42,
        "cursor after placeholder(30) + error(12)"
    );

    // The redirect now points at the real slot, with renderers untouched.
    assert_eq!(c.redirect_of(a), MeshSlot(2));

    let entry = c.table()[2];
    assert_eq!(entry.index_count, 24);
    assert_eq!(entry.vertex_offset, 14);
    assert_eq!(entry.first_index, 42);
    assert_eq!(f32::from_bits(entry.bounds_radius), 2.0);

    assert_eq!(c.slot_count(), 3);
    assert_eq!(c.mesh_id_count(), 1);
    assert_eq!(c.vertex_used(), 22); // 10 + 4 + 8
    assert_eq!(c.index_used(), 66); // 30 + 12 + 24
}

#[test]
fn fail_points_redirect_at_error_slot() {
    let mut c = MeshCatalog::new();
    c.alloc_slot(10, 30, bits([0.0; 3]), 1.0f32.to_bits());
    c.alloc_slot(4, 12, bits([0.0; 3]), 0.5f32.to_bits());
    let (a, _) = c.request(0xCAFE);

    c.fail(a);
    assert_eq!(c.redirect_of(a), MeshSlot::error());
    // Failing must not allocate a new drawable slot.
    assert_eq!(c.slot_count(), 2);
}

#[test]
fn releasing_stops_at_zero() {
    let mut c = MeshCatalog::default();
    let (a, _) = c.request(7);
    c.retain(a);
    assert_eq!(c.refcount_of(a), 2);
    c.release(a);
    c.release(a);
    c.release(a);
    assert_eq!(c.refcount_of(a), 0);
    assert_eq!(c.redirect().len(), 1);
}

fn shape(vertex_count: u32, index_count: u32) -> MeshShape {
    MeshShape {
        vertex_count,
        index_count,
        bounds: MeshBounds {
            center: [0; 3],
            radius: 1.0f32.to_bits(),
        },
    }
}

#[test]
fn slots_tile_without_gap_or_overlap() {
    let mut c = MeshCatalog::new();
    let (id, _) = c.request(9);
    c.alloc_slot(24, 36, [0; 3], 1);
    c.alloc_slot(5, 6, [0; 3], 2);
    let first = c.resolve(id, 100, 300, [0; 3], 3);
    let again = c.resolve(id, 1, 2, [0; 3], 4);
    assert_eq!((first.slot, again.slot), (MeshSlot(2), MeshSlot(3)));
    assert_eq!(c.redirect_of(id), again.slot);
    let t = c.table();
    let at: Vec<(i32, u32)> = t.iter().map(|e| (e.vertex_offset, e.first_index)).collect();
    assert_eq!(at, vec![(0, 0), (24, 36), (29, 42), (129, 342)]);
    assert_eq!(t[2].bounds_radius, 3, "the old entry stays");
    assert_eq!((c.vertex_used(), c.index_used()), (130, 344));
}

#[test]
fn requests_and_releases_touch_one_id() {
    let mut c = MeshCatalog::new();
    let (a, load_a) = c.request(1);
    let (b, load_b) = c.request(2);
    assert!(load_a && load_b && a != b);
    assert_eq!(c.redirect_of(b), MeshSlot(0));
    assert_eq!(c.request(1), (a, false));
    assert_eq!((c.refcount_of(a), c.refcount_of(b)), (2, 1));
    c.release(a);
    assert_eq!((c.refcount_of(a), c.refcount_of(b)), (1, 1), "the request is undone");
    c.release(a);
    assert_eq!(c.request(1), (a, false), "found again without a load");
    assert_eq!(c.refcount_of(a), 1);
    assert_eq!((c.mesh_id_count(), c.slot_count()), (2, 0));
}

#[test]
fn registry_starts_with_its_reserved_meshes() {
    let (reg, ph, er) = MeshRegistry::new(shape(10, 30), shape(4, 12));
    assert_eq!(reg.vertex_cap, INITIAL_VERTEX_CAP);
    assert_eq!(reg.index_cap, INITIAL_INDEX_CAP);
    assert_eq!((ph.slot.0, ph.vertex_offset, ph.first_index), (0, 0, 0));
    assert_eq!((er.slot.0, er.vertex_offset, er.first_index), (1, 10, 30));
    let (big, _, _) = MeshRegistry::new(shape(5000, 30), shape(4, 12));
    assert_eq!(big.vertex_cap, 8192);
}

#[test]
fn registry_grows_and_keeps_what_is_there() {
    let (mut reg, _, _) = MeshRegistry::new(shape(10, 30), shape(4, 12));
    let (a, load, grow) = reg.request(1);
    assert!(load && grow.is_none());
    let r = reg.resolve(a, shape(5000, 24));
    assert_eq!(r.placement.slot, MeshSlot(2));
    assert_eq!(
        r.grow_vertex,
        Some(Grow {
            new_cap: 8192,
            keep: 14
        })
    );
    assert!(r.grew && r.grow_index.is_none() && r.grow_table.is_none());
    assert_eq!(r.flip, Flip { id: 0, slot: 2 });
    assert_eq!(r.entry.first_index, 42);
    assert_eq!(reg.redirect_of(a), MeshSlot(2));
    assert_eq!(reg.fail(a), Flip { id: 0, slot: 1 });
    reg.release(a);
    assert_eq!((reg.slot_count(), reg.mesh_id_count()), (3, 1));

    let mut last = None;
    for h in 2..66 {
        last = reg.request(h).2;
    }
    assert_eq!(
        last,
        Some(Grow {
            new_cap: 128,
            keep: 64
        })
    );
    assert_eq!(reg.request(65), (MeshId(64), false, None));
}

#[test]
fn powers_of_two_round_up() {
    assert_eq!(next_power_of_two(0), 1);
    assert_eq!(next_power_of_two(1), 1);
    assert_eq!(next_power_of_two(5), 8);
    assert_eq!(next_power_of_two(4096), 4096);
    assert_eq!(next_power_of_two(0x8000_0000), 0x8000_0000);
}
