use engine_render::assets::catalog::MeshCatalog;
use engine_render::assets::{MeshSlot, TextureId};
use engine_render::components::{
    AssetRef, MaterialRegistry, MeshRenderer, SpawnQueue, Transform, Value,
};
use engine_render::gpu_parents::GpuParents;
use engine_render::gpu_renderers::{GpuRenderers, MATERIAL_INHERIT, NO_RENDERER};

#[test]
fn new_requests_and_resolves_to_placeholder() {
    let mut catalog = MeshCatalog::new();
    let (r, needs_load) = MeshRenderer::new(&mut catalog, 0xA);
    assert!(needs_load);
    let slot = catalog.redirect_of(r.mesh_id());
    assert_eq!(slot, MeshSlot::placeholder());
    assert_eq!(r.material(), None, "fresh renderers inherit");
}

#[test]
fn spawn_queue_round_trips() {
    let mut queue = SpawnQueue::new();
    // Drain any prior state, then push a known batch and drain it.
    let _ = queue.drain_spawns().remove(&0).unwrap_or_default();
    queue.push_spawn(0, 5, 7, MATERIAL_INHERIT);
    queue.push_spawn(0, 9, 2, 3);
    queue.push_spawn(1, 5, 4, 4);
    let drained = queue.drain_spawns().remove(&0).unwrap_or_default();
    assert!(drained.contains(&[5, 7, MATERIAL_INHERIT]));
    assert!(drained.contains(&[9, 2, 3]));
    assert!(
        !drained.contains(&[5, 4, 4]),
        "another world's index would land on whatever slot shares it"
    );
    assert!(
        queue.drain_spawns().remove(&0).unwrap_or_default().is_empty(),
        "queue must be empty after drain"
    );
}

#[test]
fn drained_records_keep_their_order() {
    let mut queue = SpawnQueue::new();
    queue.push_spawn(2, 1, 1, 1);
    queue.push_spawn(3, 9, 9, 9);
    queue.push_spawn(2, 1, 2, 2);
    let mut out = queue.drain_spawns();
    assert_eq!(out.len(), 2);
    assert_eq!(out.remove(&2).unwrap(), vec![[1, 1, 1], [1, 2, 2]]);
    assert_eq!(out.remove(&3).unwrap(), vec![[9, 9, 9]]);
}

#[test]
fn reflected_material_write_refcounts_and_scatters() {
    let mut catalog = MeshCatalog::new();
    let mut materials = MaterialRegistry::new();
    let mut queue = SpawnQueue::new();
    let t = Transform { world: 0, index: 4 };
    let id = materials.create();
    let before = materials.refcount_of(id);

    let (mut r, _) = MeshRenderer::new(&mut catalog, 0xC);
    let _ = queue.drain_spawns().remove(&0).unwrap_or_default();
    let value = Value::Asset(Some(AssetRef::Material(id)));
    assert!(r.set(&mut catalog, &mut materials, &mut queue, "material", value, t));

    assert_eq!(r.material(), Some(id));
    assert!(materials.refcount_of(id) > before, "retained");
    assert!(
        queue
            .drain_spawns()
            .remove(&0)
            .unwrap_or_default()
            .contains(&[t.index, r.mesh_id().0, id.0]),
        "a field write would not have reached the GPU"
    );
    assert_eq!(
        r.get("material"),
        Some(Value::Asset(Some(AssetRef::Material(id))))
    );
}

#[test]
fn removal_scatters_the_sentinel() {
    let mut catalog = MeshCatalog::new();
    let mut queue = SpawnQueue::new();
    let child = Transform { world: 6, index: 1 };
    let (r, _) = MeshRenderer::new(&mut catalog, 0xF);
    r.init(&mut queue, child);
    let _ = queue.drain_spawns().remove(&6).unwrap_or_default();

    r.deinit(&mut queue, child);
    assert!(queue
        .drain_spawns()
        .remove(&6)
        .unwrap_or_default()
        .contains(&[child.index, NO_RENDERER, MATERIAL_INHERIT]));
}

#[test]
fn an_edited_world_still_publishes_its_renderer() {
    let mut catalog = MeshCatalog::new();
    let mut queue = SpawnQueue::new();
    let e = Transform { world: 8, index: 0 };
    let _ = queue.drain_spawns().remove(&8).unwrap_or_default();

    let (r, _) = MeshRenderer::new(&mut catalog, 0x4);
    let mesh = r.mesh_id().0;
    r.init(&mut queue, e);
    assert!(queue
        .drain_spawns()
        .remove(&8)
        .unwrap_or_default()
        .contains(&[e.index, mesh, MATERIAL_INHERIT]));
}

#[test]
fn a_wrong_asset_kind_is_declined() {
    let mut catalog = MeshCatalog::new();
    let mut materials = MaterialRegistry::new();
    let mut queue = SpawnQueue::new();
    let t = Transform { world: 0, index: 0 };
    let (mut r, _) = MeshRenderer::new(&mut catalog, 0xD);
    let wrong = Value::Asset(Some(AssetRef::Texture(TextureId(1))));
    assert!(!r.set(&mut catalog, &mut materials, &mut queue, "material", wrong, t));
    assert_eq!(r.material(), None);
    assert!(queue.drain_spawns().is_empty());
}

#[test]
fn with_material_overrides_and_retains() {
    let mut catalog = MeshCatalog::new();
    let mut materials = MaterialRegistry::new();
    let id = materials.create();
    let (r, _) = MeshRenderer::new(&mut catalog, 0xB);
    let r = r.with_material(&mut materials, id);
    assert_eq!(r.material(), Some(id));
    assert!(
        materials.refcount_of(id) >= 2,
        "with_material must retain"
    );
}

#[test]
fn swapping_a_mesh_moves_the_reference() {
    let mut catalog = MeshCatalog::new();
    let mut materials = MaterialRegistry::new();
    let mut queue = SpawnQueue::new();
    let t = Transform { world: 1, index: 3 };
    let (mut r, _) = MeshRenderer::new(&mut catalog, 1);
    let a = r.mesh_id();
    let (other, _) = MeshRenderer::new(&mut catalog, 2);
    let b = other.mesh_id();
    let shared = MeshRenderer::from_id(&mut catalog, b);
    assert_eq!(shared.mesh_id(), b);
    r.set_mesh(&mut catalog, &mut queue, t, b);
    assert_eq!((catalog.refcount_of(a), catalog.refcount_of(b)), (0, 3));
    assert_eq!(queue.records, vec![[1, 3, b.0, MATERIAL_INHERIT]]);

    let mesh = Value::Asset(Some(AssetRef::Mesh(a)));
    assert!(r.set(&mut catalog, &mut materials, &mut queue, "mesh_id", mesh, t));
    assert_eq!(r.get("mesh_id"), Some(mesh));
    let id = materials.create();
    r.set_material(&mut materials, &mut queue, t, Some(id));
    let none = Value::Asset(None);
    assert!(r.set(&mut catalog, &mut materials, &mut queue, "material", none, t));
    assert_eq!((r.material(), materials.refcount_of(id)), (None, 1));
    assert!(!r.set(&mut catalog, &mut materials, &mut queue, "speed", none, t));
    assert_eq!(r.get("speed"), None);
}

#[test]
fn spawn_streams_hold_count_and_records() {
    let mut g = GpuRenderers::new(0);
    assert_eq!(g.capacity(), 1);
    let grow = g.ensure_capacity(10).unwrap();
    assert_eq!((grow.new_cap, grow.keep), (10, 1));
    assert!(g.ensure_capacity(10).is_none());
    g.write_spawns(&vec![[5, 7, 9], [1, 2, 3]]);
    assert_eq!(g.spawn_staging[..8], [2, 0, 5, 7, 9, 1, 2, 3]);
    g.write_spawns(&vec![]);
    assert_eq!(g.spawn_staging[0], 0, "a quiet frame retires the last one");
    assert_eq!(g.scatter_groups(), 16);
    assert!(!g.ensure_spawn_capacity(1024));
    assert!(g.ensure_spawn_capacity(1025));
    assert_eq!((g.spawn_capacity, g.spawn_staging.len()), (2048, 2 + 3 * 2048));
}

#[test]
fn parents_scatter_only_when_there_is_something() {
    let mut p = GpuParents::new(3);
    assert_eq!(p.capacity(), 3);
    assert!(p.ingest(&vec![]).is_none());
    let s = p.ingest(&vec![[0, 1]; 65]).unwrap();
    assert_eq!((s.update_count, s.groups), (65, 2));
    assert_eq!(p.ensure_capacity(4).unwrap().new_cap, 6);
    assert!(p.ensure_capacity(6).is_none());
}
