//! Asset bookkeeping: which mesh, texture and material lives in which slot,
//! what must be uploaded for it, and where.
//!
//! Ids are stable handles that renderers keep; slots are where an asset's data
//! is resident. A redirect table maps the one to the other, so an asset that
//! is still loading draws as the placeholder without any renderer changing.

use vstd::prelude::*;

pub mod catalog;
pub mod gpu_store;
pub mod material_store;
pub mod redirect;
pub mod registry;
pub mod texture_store;

verus! {

/// A stable handle to a requested mesh.
#[derive(Clone, Copy, PartialEq, Eq, Structural, Debug, Hash)]
pub struct MeshId(pub u32);

/// A drawable slot.
#[derive(Clone, Copy, PartialEq, Eq, Structural, Debug, Hash)]
pub struct MeshSlot(pub u32);

/// The slot that a mesh draws as until it has loaded.
pub const PLACEHOLDER: u32 = 0;

/// The slot that a mesh draws as when it failed to load.
pub const ERROR: u32 = 1;

impl MeshSlot {
    /// What a mesh that has not loaded yet draws as.
    pub fn placeholder() -> (r: MeshSlot)
        ensures
            r == MeshSlot(PLACEHOLDER),
            r.0 == 0,
    {
        MeshSlot(PLACEHOLDER)
    }

    /// What a mesh that failed to load draws as.
    pub fn error() -> (r: MeshSlot)
        ensures
            r == MeshSlot(ERROR),
            r.0 == 1,
    {
        MeshSlot(ERROR)
    }
}

/// A stable handle to a material.
#[derive(Clone, Copy, PartialEq, Eq, Structural, Debug, Hash)]
pub struct MaterialId(pub u32);

/// A stable handle to a texture.
#[derive(Clone, Copy, PartialEq, Eq, Structural, Debug, Hash)]
pub struct TextureId(pub u32);

/// A local-space bounding sphere, as bit patterns.
#[derive(Clone, Copy, PartialEq, Eq, Debug)]
pub struct MeshBounds {
    pub center: [u32; 3],
    pub radius: u32,
}

/// Per drawable slot, as the GPU sees it: the static fields of an indexed
/// indirect draw plus a local-space bounding sphere, as bit patterns. Two
/// sixteen-byte rows, no internal padding.
#[derive(Clone, Copy, PartialEq, Eq, Debug)]
pub struct MeshTableEntry {
    pub index_count: u32,
    /// Offset into the mega index buffer.
    pub first_index: u32,
    /// Base into the mega vertex buffer.
    pub vertex_offset: i32,
    pub _pad0: u32,
    pub bounds_center: [u32; 3],
    pub bounds_radius: u32,
}

/// The table entry of a mesh placed at `vertex_offset` and `first_index`.
pub open spec fn table_entry(
    vertex_offset: u32,
    first_index: u32,
    index_count: u32,
    bounds: MeshBounds,
) -> MeshTableEntry {
    MeshTableEntry {
        index_count,
        first_index,
        vertex_offset: vertex_offset as i32,
        _pad0: 0,
        bounds_center: bounds.center,
        bounds_radius: bounds.radius,
    }
}

/// [`table_entry`], as a value.
pub fn make_table_entry(
    vertex_offset: u32,
    first_index: u32,
    index_count: u32,
    bounds: MeshBounds,
) -> (r: MeshTableEntry)
    ensures
        r == table_entry(vertex_offset, first_index, index_count, bounds),
        r.index_count == index_count,
        r.first_index == first_index,
        r.vertex_offset == vertex_offset as i32,
        r.bounds_center == bounds.center,
        r.bounds_radius == bounds.radius,
        r._pad0 == 0,
{
    MeshTableEntry {
        index_count,
        first_index,
        vertex_offset: #[verifier::truncate]
        (vertex_offset as i32),
        _pad0: 0,
        bounds_center: bounds.center,
        bounds_radius: bounds.radius,
    }
}

/// A base vertex survives its trip through the table's signed field.
pub proof fn vertex_offset_round_trips(offset: u32)
    ensures
        (offset as i32) as u32 == offset,
{
    assert((offset as i32) as u32 == offset) by (bit_vector);
}

/// A mesh's table entry has its index count and its bounding sphere, and the
/// offsets at which it was placed.
pub proof fn entries_describe_their_mesh(
    vertex_offset: u32,
    first_index: u32,
    index_count: u32,
    bounds: MeshBounds,
)
    ensures
        ({
            let e = table_entry(vertex_offset, first_index, index_count, bounds);
            &&& e.index_count == index_count
            &&& e.first_index == first_index
            &&& e.vertex_offset as u32 == vertex_offset
            &&& e.bounds_center == bounds.center
            &&& e.bounds_radius == bounds.radius
            &&& e._pad0 == 0
        }),
{
    vertex_offset_round_trips(vertex_offset);
}

} // verus!
