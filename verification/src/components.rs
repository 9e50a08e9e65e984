//! The drawable component, and the queue by which its records reach the GPU.
//!
//! The GPU reads per-transform records and not the component, so every change
//! of a renderer queues a record; the renderer drains the queue once a frame
//! and scatters each world's records into that world's own buffer.

use crate::assets::catalog::{CatalogModel, MeshCatalog};
use crate::assets::{MaterialId, MeshId, TextureId};
use crate::draw::WorldId;
use crate::gpu_renderers::{MATERIAL_INHERIT, NO_RENDERER};
use crate::text::same;
use std::collections::HashMap;
use vstd::prelude::*;
use vstd::string::*;

verus! {

broadcast use vstd::std_specs::hash::group_hash_axioms;

/// Records that renderers queued: world, transform, mesh, material.
pub struct SpawnQueue {
    pub records: Vec<[u32; 4]>,
}

/// The records of one world, in the order they were queued.
pub open spec fn of_world(records: Seq<[u32; 4]>, world: WorldId) -> Seq<Seq<u32>>
    decreases records.len(),
{
    if records.len() == 0 {
        Seq::empty()
    } else {
        let before = of_world(records.drop_last(), world);
        let r = records.last();
        if r[0] == world {
            before.push(seq![r[1], r[2], r[3]])
        } else {
            before
        }
    }
}

/// The views of a list of drained records.
pub open spec fn record_views(v: Seq<[u32; 3]>) -> Seq<Seq<u32>> {
    Seq::new(v.len(), |i: int| v[i]@)
}

/// `out` is the queue's records, grouped by world: a world has an entry
/// exactly when it has a record.
pub open spec fn groups_by_world(
    out: Map<WorldId, Vec<[u32; 3]>>,
    records: Seq<[u32; 4]>,
) -> bool {
    forall|w: WorldId|
        #![trigger out.contains_key(w)]
        #![trigger of_world(records, w)]
        {
            &&& out.contains_key(w) <==> of_world(records, w).len() > 0
            &&& out.contains_key(w) ==> record_views(out[w]@) == of_world(records, w)
        }
}

impl SpawnQueue {
    pub fn new() -> (r: Self)
        ensures
            r.records@.len() == 0,
    {
        SpawnQueue { records: Vec::new() }
    }

    /// Enqueue a renderer's record, tagged with the world its index belongs to.
    pub fn push_spawn(
        &mut self,
        world: WorldId,
        transform_id: u32,
        mesh_id: u32,
        material_word: u32,
    )
        ensures
            final(self).records@ == old(self).records@.push(
                [world, transform_id, mesh_id, material_word],
            ),
    {
        self.records.push([world, transform_id, mesh_id, material_word]);
    }

    /// Take every queued record, grouped by the world it belongs to.
    pub fn drain_spawns(&mut self) -> (out: HashMap<WorldId, Vec<[u32; 3]>>)
        ensures
            final(self).records@.len() == 0,
            groups_by_world(out@, old(self).records@),
    {
        let mut records: Vec<[u32; 4]> = Vec::new();
        std::mem::swap(&mut self.records, &mut records);
        let mut out: HashMap<WorldId, Vec<[u32; 3]>> = HashMap::new();
        let mut i: usize = 0;
        assert(groups_by_world(out@, records@.take(0)));
        while i < records.len()
            invariant
                i <= records.len(),
                groups_by_world(out@, records@.take(i as int)),
            decreases records.len() - i,
        {
            let r: [u32; 4] = records[i];
            let ghost before = out@;
            let ghost taken = records@.take(i as int);
            let ghost more = records@.take(i + 1);
            assert(more.drop_last() =~= taken);
            assert(more.last() == r);
            assert(before.contains_key(r[0]) <==> of_world(taken, r[0]).len() > 0);
            let mut list: Vec<[u32; 3]> = match out.remove(&r[0]) {
                Some(v) => v,
                None => Vec::new(),
            };
            let ghost list0 = list@;
            assert(record_views(list0) =~= of_world(taken, r[0]));
            let rec: [u32; 3] = [r[1], r[2], r[3]];
            list.push(rec);
            assert(rec@ =~= seq![r[1], r[2], r[3]]);
            assert(record_views(list@) =~= record_views(list0).push(rec@));
            out.insert(r[0], list);
            assert forall|w: WorldId|
                #![trigger out@.contains_key(w)]
                #![trigger of_world(more, w)]
                {
                    &&& out@.contains_key(w) <==> of_world(more, w).len() > 0
                    &&& out@.contains_key(w) ==> record_views(out@[w]@) == of_world(more, w)
                } by {
                assert(before.contains_key(w) <==> of_world(taken, w).len() > 0);
            }
            i = i + 1;
        }
        assert(records@.take(i as int) =~= records@);
        out
    }
}

/// Reference counts of materials.
pub struct MaterialRegistry {
    pub refcount: Vec<u32>,
}

impl MaterialRegistry {
    pub open spec fn has(&self, id: MaterialId) -> bool {
        id.0 < self.refcount.len()
    }

    /// One more reference to `id` fits.
    pub open spec fn can_retain(&self, id: MaterialId) -> bool {
        self.has(id) && self.refcount[id.0 as int] < u32::MAX
    }

    pub fn new() -> (r: Self)
        ensures
            r.refcount@.len() == 0,
    {
        MaterialRegistry { refcount: Vec::new() }
    }

    /// A new material, with one reference.
    pub fn create(&mut self) -> (r: MaterialId)
        requires
            old(self).refcount.len() < u32::MAX,
        ensures
            r.0 == old(self).refcount.len(),
            final(self).refcount@ == old(self).refcount@.push(1),
    {
        let id = MaterialId(self.refcount.len() as u32);
        self.refcount.push(1);
        id
    }

    pub fn retain(&mut self, id: MaterialId)
        requires
            old(self).can_retain(id),
        ensures
            final(self).refcount@ == retained(old(self).refcount@, Some(id)),
    {
        let rc: u32 = self.refcount[id.0 as usize];
        self.refcount.set(id.0 as usize, rc + 1);
    }

    pub fn release(&mut self, id: MaterialId)
        requires
            old(self).has(id),
        ensures
            final(self).refcount@ == released(old(self).refcount@, Some(id)),
    {
        let rc: u32 = self.refcount[id.0 as usize];
        self.refcount.set(id.0 as usize, rc.saturating_sub(1));
    }

    pub fn refcount_of(&self, id: MaterialId) -> (r: u32)
        requires
            self.has(id),
        ensures
            r == self.refcount[id.0 as int],
    {
        self.refcount[id.0 as usize]
    }
}

/// The counts with one more reference, if there is a material.
pub open spec fn retained(counts: Seq<u32>, id: Option<MaterialId>) -> Seq<u32> {
    match id {
        Some(m) => counts.update(m.0 as int, (counts[m.0 as int] + 1) as u32),
        None => counts,
    }
}

/// The counts with one reference less, if there is a material and it has one.
pub open spec fn released(counts: Seq<u32>, id: Option<MaterialId>) -> Seq<u32> {
    match id {
        Some(m) => counts.update(
            m.0 as int,
            if counts[m.0 as int] > 0 {
                (counts[m.0 as int] - 1) as u32
            } else {
                0u32
            },
        ),
        None => counts,
    }
}

/// Where a component sits: its world and its transform's index there.
#[derive(Clone, Copy, PartialEq, Eq, Structural, Debug)]
pub struct Transform {
    pub world: WorldId,
    pub index: u32,
}

/// An asset that a property holds.
#[derive(Clone, Copy, PartialEq, Eq, Structural, Debug)]
pub enum AssetRef {
    Mesh(MeshId),
    Material(MaterialId),
    Texture(TextureId),
}

/// A property's value. A renderer's are assets.
#[derive(Clone, Copy, PartialEq, Eq, Structural, Debug)]
pub enum Value {
    Asset(Option<AssetRef>),
    Other,
}

/// A drawable mesh attached to an entity. By default it inherits the mesh's
/// authored material; an explicit one overrides it.
#[derive(Clone, Copy, PartialEq, Eq, Structural, Debug)]
pub struct MeshRenderer {
    mesh_id: MeshId,
    material: Option<MaterialId>,
}

impl MeshRenderer {
    pub closed spec fn mesh(&self) -> MeshId {
        self.mesh_id
    }

    pub closed spec fn over(&self) -> Option<MaterialId> {
        self.material
    }

    /// The material word scattered into the GPU record.
    pub open spec fn word(&self) -> u32 {
        match self.over() {
            Some(m) => m.0,
            None => MATERIAL_INHERIT,
        }
    }

    /// The record that the GPU is told.
    pub open spec fn record(&self, t: Transform) -> [u32; 4] {
        [t.world, t.index, self.mesh().0, self.word()]
    }

    /// Request a path, by its hash, and draw what it resolves to: the
    /// placeholder until it is loaded. The flag says whether to start a load.
    pub fn new(catalog: &mut MeshCatalog, hash: u64) -> (r: (Self, bool))
        requires
            old(catalog).wf(),
            old(catalog)@.by_hash.contains_key(hash) ==> old(catalog)@.refcount[old(
                catalog,
            )@.by_hash[hash].0 as int] < u32::MAX,
        ensures
            final(catalog).wf(),
            final(catalog)@ == old(catalog)@.requested(hash),
            (r.0.mesh(), r.1) == old(catalog)@.answer(hash),
            r.0.over() is None,
    {
        let (mesh_id, needs_load) = catalog.request(hash);
        (MeshRenderer { mesh_id, material: None }, needs_load)
    }

    /// A renderer of a mesh that was requested elsewhere; it counts as one more
    /// instance of it.
    pub fn from_id(catalog: &mut MeshCatalog, mesh_id: MeshId) -> (r: Self)
        requires
            old(catalog).wf(),
            old(catalog)@.has(mesh_id),
            old(catalog)@.refcount[mesh_id.0 as int] < u32::MAX,
        ensures
            final(catalog).wf(),
            final(catalog)@ == old(catalog)@.retained(mesh_id),
            r.mesh() == mesh_id,
            r.over() is None,
    {
        catalog.retain(mesh_id);
        MeshRenderer { mesh_id, material: None }
    }

    /// The same, with an explicit material. Before it is added to an entity.
    pub fn with_material(
        self,
        materials: &mut MaterialRegistry,
        material_id: MaterialId,
    ) -> (r: Self)
        requires
            old(materials).can_retain(material_id),
        ensures
            final(materials).refcount@ == retained(old(materials).refcount@, Some(material_id)),
            r.mesh() == self.mesh(),
            r.over() == Some(material_id),
    {
        materials.retain(material_id);
        MeshRenderer { mesh_id: self.mesh_id, material: Some(material_id) }
    }

    /// Swap the mesh on a live entity. References move with it, so the old
    /// mesh can be evicted once nothing draws it.
    pub fn set_mesh(
        &mut self,
        catalog: &mut MeshCatalog,
        queue: &mut SpawnQueue,
        transform: Transform,
        mesh_id: MeshId,
    )
        requires
            old(catalog).wf(),
            old(catalog)@.has(mesh_id),
            old(catalog)@.has(old(self).mesh()),
            old(catalog)@.refcount[mesh_id.0 as int] < u32::MAX,
        ensures
            final(catalog).wf(),
            final(catalog)@ == old(catalog)@.retained(mesh_id).released(old(self).mesh()),
            final(self).mesh() == mesh_id,
            final(self).over() == old(self).over(),
            final(queue).records@ == old(queue).records@.push(final(self).record(transform)),
    {
        catalog.retain(mesh_id);
        catalog.release(self.mesh_id);
        self.mesh_id = mesh_id;
        self.publish(queue, transform);
    }

    /// Swap the material on a live entity: an explicit one, or nothing to
    /// inherit the mesh's own again.
    pub fn set_material(
        &mut self,
        materials: &mut MaterialRegistry,
        queue: &mut SpawnQueue,
        transform: Transform,
        material: Option<MaterialId>,
    )
        requires
            material is Some ==> old(materials).can_retain(material->0),
            old(self).over() is Some ==> old(materials).has(old(self).over()->0),
        ensures
            final(materials).refcount@ == released(
                retained(old(materials).refcount@, material),
                old(self).over(),
            ),
            final(self).over() == material,
            final(self).mesh() == old(self).mesh(),
            final(queue).records@ == old(queue).records@.push(final(self).record(transform)),
    {
        match material {
            Some(id) => {
                materials.retain(id);
            },
            None => {},
        }
        match self.material {
            Some(old_id) => {
                materials.release(old_id);
            },
            None => {},
        }
        self.material = material;
        self.publish(queue, transform);
    }

    /// The mesh that this renderer draws.
    pub fn mesh_id(&self) -> (r: MeshId)
        ensures
            r == self.mesh(),
    {
        self.mesh_id
    }

    /// The explicit material, if any.
    pub fn material(&self) -> (r: Option<MaterialId>)
        ensures
            r == self.over(),
    {
        self.material
    }

    fn material_word(&self) -> (r: u32)
        ensures
            r == self.word(),
    {
        match self.material {
            Some(m) => m.0,
            None => MATERIAL_INHERIT,
        }
    }

    /// Queue the current record. Every write goes through here, so there is
    /// one place that decides what the GPU is told.
    fn publish(&self, queue: &mut SpawnQueue, transform: Transform)
        ensures
            final(queue).records@ == old(queue).records@.push(self.record(transform)),
    {
        let word: u32 = self.material_word();
        queue.push_spawn(transform.world, transform.index, self.mesh_id.0, word);
    }

    /// Attached to an entity.
    pub fn init(&self, queue: &mut SpawnQueue, transform: Transform)
        ensures
            final(queue).records@ == old(queue).records@.push(self.record(transform)),
    {
        self.publish(queue, transform);
    }

    /// Detached: the sentinel goes over the record, or the entity would keep
    /// drawing at its dead slot.
    pub fn deinit(&self, queue: &mut SpawnQueue, transform: Transform)
        ensures
            final(queue).records@ == old(queue).records@.push(
                [transform.world, transform.index, NO_RENDERER, self.word()],
            ),
            final(queue).records@.last()[2] == u32::MAX,
    {
        let word: u32 = self.material_word();
        queue.push_spawn(transform.world, transform.index, NO_RENDERER, word);
    }

    /// Read a property by name.
    pub fn get(&self, name: &str) -> (r: Option<Value>)
        ensures
            r == if name@ == "mesh_id"@ {
                Some(Value::Asset(Some(AssetRef::Mesh(self.mesh()))))
            } else if name@ == "material"@ {
                Some(
                    Value::Asset(
                        match self.over() {
                            Some(m) => Some(AssetRef::Material(m)),
                            None => None,
                        },
                    ),
                )
            } else {
                None
            },
    {
        if same(name, "mesh_id") {
            Some(Value::Asset(Some(AssetRef::Mesh(self.mesh_id))))
        } else if same(name, "material") {
            let held: Option<AssetRef> = match self.material {
                Some(m) => Some(AssetRef::Material(m)),
                None => None,
            };
            Some(Value::Asset(held))
        } else {
            None
        }
    }

    /// Write a property by name, through its setter: a plain write would skip
    /// the references and the GPU record. Whether it was taken; a value of the
    /// wrong kind is declined and nothing moves.
    pub fn set(
        &mut self,
        catalog: &mut MeshCatalog,
        materials: &mut MaterialRegistry,
        queue: &mut SpawnQueue,
        name: &str,
        value: Value,
        transform: Transform,
    ) -> (r: bool)
        requires
            old(catalog).wf(),
            old(catalog)@.has(old(self).mesh()),
            old(self).over() is Some ==> old(materials).has(old(self).over()->0),
            name@ == "mesh_id"@ ==> match value {
                Value::Asset(Some(AssetRef::Mesh(id))) => old(catalog)@.has(id) && old(
                    catalog,
                )@.refcount[id.0 as int] < u32::MAX,
                _ => true,
            },
            name@ == "material"@ ==> match value {
                Value::Asset(Some(AssetRef::Material(id))) => old(materials).can_retain(id),
                _ => true,
            },
        ensures
            final(catalog).wf(),
            r == accepts(name@, value),
            !r ==> *final(self) == *old(self) && final(catalog)@ == old(catalog)@
                && final(materials).refcount@ == old(materials).refcount@
                && final(queue).records@ == old(queue).records@,
            r ==> final(queue).records@ == old(queue).records@.push(final(self).record(transform)),
            r && name@ == "mesh_id"@ ==> {
                let id = value->0->0->Mesh_0;
                &&& final(self).mesh() == id
                &&& final(self).over() == old(self).over()
                &&& final(catalog)@ == old(catalog)@.retained(id).released(old(self).mesh())
                &&& final(materials).refcount@ == old(materials).refcount@
            },
            r && name@ != "mesh_id"@ ==> {
                let id = material_in(value);
                &&& final(self).over() == id
                &&& final(self).mesh() == old(self).mesh()
                &&& final(catalog)@ == old(catalog)@
                &&& final(materials).refcount@ == released(
                    retained(old(materials).refcount@, id),
                    old(self).over(),
                )
            },
    {
        if same(name, "mesh_id") {
            match value {
                Value::Asset(Some(AssetRef::Mesh(id))) => {
                    self.set_mesh(catalog, queue, transform, id);
                    true
                },
                _ => false,
            }
        } else if same(name, "material") {
            match value {
                Value::Asset(Some(AssetRef::Material(id))) => {
                    self.set_material(materials, queue, transform, Some(id));
                    true
                },
                Value::Asset(None) => {
                    self.set_material(materials, queue, transform, None);
                    true
                },
                _ => false,
            }
        } else {
            false
        }
    }
}

/// The material that a value stands for.
pub open spec fn material_in(value: Value) -> Option<MaterialId> {
    match value {
        Value::Asset(Some(AssetRef::Material(id))) => Some(id),
        _ => None,
    }
}

/// Whether a renderer takes `value` for the property `name`.
pub open spec fn accepts(name: Seq<char>, value: Value) -> bool {
    if name == "mesh_id"@ {
        value matches Value::Asset(Some(AssetRef::Mesh(_)))
    } else if name == "material"@ {
        value matches Value::Asset(Some(AssetRef::Material(_))) || value == Value::Asset(None)
    } else {
        false
    }
}

/// What one world queues never lands in another's buffer, and what is queued
/// is drained, in order: a record of `world` is the last of its own group and
/// leaves every other group as it was.
pub proof fn records_reach_their_own_world(
    records: Seq<[u32; 4]>,
    r: [u32; 4],
    other: WorldId,
)
    ensures
        of_world(records.push(r), r[0]) == of_world(records, r[0]).push(seq![r[1], r[2], r[3]]),
        other != r[0] ==> of_world(records.push(r), other) == of_world(records, other),
{
    assert(records.push(r).drop_last() =~= records);
}

/// Swapping a renderer's mesh for the one it has moves no reference.
pub proof fn swapping_for_itself_keeps_the_count(m: CatalogModel, id: MeshId)
    requires
        m.has(id),
        m.refcount.len() == m.redirect.len(),
        m.refcount[id.0 as int] < u32::MAX,
    ensures
        m.retained(id).released(id) == m,
{
    assert(m.retained(id).released(id).refcount =~= m.refcount);
}

/// The GPU is told of the transform that the renderer sits on, in its world,
/// of its mesh, and of its explicit material, or of none.
pub proof fn records_tell_what_is_drawn(r: MeshRenderer, t: Transform)
    ensures
        r.record(t)[0] == t.world,
        r.record(t)[1] == t.index,
        r.record(t)[2] == r.mesh().0,
        r.over() is Some ==> r.record(t)[3] == (r.over()->0).0,
        r.over() is None ==> r.record(t)[3] == u32::MAX,
        r.word() == r.record(t)[3],
{
}

/// A reference more or less moves the count of that material by one, never
/// below zero, and of no other; no material moves none.
pub proof fn material_counts_move_one_by_one(counts: Seq<u32>, id: MaterialId, i: int)
    requires
        id.0 < counts.len(),
    ensures
        retained(counts, None) == counts,
        released(counts, None) == counts,
        retained(counts, Some(id)).len() == counts.len(),
        released(counts, Some(id)).len() == counts.len(),
        counts[id.0 as int] < u32::MAX ==> retained(counts, Some(id))[id.0 as int]
            == counts[id.0 as int] + 1,
        counts[id.0 as int] > 0 ==> released(counts, Some(id))[id.0 as int] == counts[id.0 as int]
            - 1,
        counts[id.0 as int] == 0 ==> released(counts, Some(id))[id.0 as int] == 0,
        0 <= i < counts.len() && i != id.0 ==> retained(counts, Some(id))[i] == counts[i],
        0 <= i < counts.len() && i != id.0 ==> released(counts, Some(id))[i] == counts[i],
{
}

/// A property takes an asset of its own kind; the material takes none as well.
/// No other name is a property.
pub proof fn properties_take_their_own_kind(
    name: Seq<char>,
    mesh: MeshId,
    material: MaterialId,
    texture: TextureId,
    value: Value,
)
    ensures
        name == "mesh_id"@ ==> accepts(name, Value::Asset(Some(AssetRef::Mesh(mesh)))),
        name == "mesh_id"@ ==> !accepts(name, Value::Asset(Some(AssetRef::Material(material)))),
        name == "mesh_id"@ ==> !accepts(name, Value::Asset(None)),
        name == "material"@ ==> accepts(name, Value::Asset(Some(AssetRef::Material(material)))),
        name == "material"@ ==> !accepts(name, Value::Asset(Some(AssetRef::Mesh(mesh)))),
        name == "material"@ ==> accepts(name, Value::Asset(None)),
        !accepts(name, Value::Asset(Some(AssetRef::Texture(texture)))),
        !accepts(name, Value::Other),
        name != "mesh_id"@ && name != "material"@ ==> !accepts(name, value),
        material_in(Value::Asset(Some(AssetRef::Material(material)))) == Some(material),
        material_in(Value::Asset(None)) is None,
{
    reveal_strlit("mesh_id");
    reveal_strlit("material");
    assert("mesh_id"@.len() == 7);
    assert("material"@.len() == 8);
}

/// Draining loses no record: one that was queued is in its world's list, and a
/// world without any has no list.
pub proof fn drained_records_are_listed(
    out: Map<WorldId, Vec<[u32; 3]>>,
    records: Seq<[u32; 4]>,
    r: [u32; 4],
    w: WorldId,
)
    requires
        groups_by_world(out, records.push(r)),
    ensures
        out.contains_key(r[0]),
        out[r[0]].len() > 0,
        out[r[0]]@.last()@ == seq![r[1], r[2], r[3]],
        of_world(records, w).len() == 0 && w != r[0] ==> !out.contains_key(w),
        of_world(Seq::<[u32; 4]>::empty(), w).len() == 0,
{
    records_reach_their_own_world(records, r, w);
    let all = of_world(records.push(r), r[0]);
    assert(out.contains_key(r[0]) <==> all.len() > 0);
    assert(record_views(out[r[0]]@) == all);
    assert(record_views(out[r[0]]@).len() == out[r[0]]@.len());
    assert(record_views(out[r[0]]@).last() == out[r[0]]@.last()@);
    assert(out.contains_key(w) <==> of_world(records.push(r), w).len() > 0);
}

} // verus!
