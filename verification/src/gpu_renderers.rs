//! Per-transform renderer records: which mesh and material each transform slot
//! draws, and the stream of changes to them.
//!
//! The stream is one host-mapped buffer of words: the live record count, a
//! pad, then the records. A recorded dispatch covers the whole buffer and
//! stops at the count, so a quiet frame writes a zero and nothing else.

use crate::assets::gpu_store::{growth, Grow};
use crate::growth::{group_count, grow_u32, grow_usize, groups, grown, max_u32};
use vstd::prelude::*;

verus! {

/// Mesh word of a transform slot without a renderer: the cull skips it.
pub const NO_RENDERER: u32 = u32::MAX;

/// Material word that means the mesh slot's authored material.
pub const MATERIAL_INHERIT: u32 = u32::MAX;

/// Initial record capacity of the spawn staging.
pub const INITIAL_SPAWN_CAPACITY: usize = 1024;

/// Invocations per workgroup of the scatter shaders.
pub const SCATTER_WORKGROUP_SIZE: u32 = 64;

/// The number of words that a stream of `capacity` records of `width` words
/// takes.
pub open spec fn stream_len(capacity: nat, width: nat) -> nat {
    2 + width * (if capacity >= 1 {
        capacity
    } else {
        1
    })
}

/// `words` holds the records as its live ones.
pub open spec fn streams3(words: Seq<u32>, records: Seq<[u32; 3]>) -> bool {
    &&& words.len() >= 2 + 3 * records.len()
    &&& words[0] == records.len()
    &&& forall|i: int|
        #![trigger records[i]]
        0 <= i < records.len() ==> words[2 + 3 * i] == records[i][0] && words[3 + 3 * i]
            == records[i][1] && words[4 + 3 * i] == records[i][2]
}

/// The renderer records of a world, as far as the host decides.
pub struct GpuRenderers {
    /// Transform slots the record buffer has; two words each.
    pub capacity: u32,
    /// Records the spawn staging has room for.
    pub spawn_capacity: usize,
    /// The spawn staging.
    pub spawn_staging: Vec<u32>,
}

impl GpuRenderers {
    pub open spec fn wf(&self) -> bool {
        &&& self.capacity >= 1
        &&& self.spawn_capacity >= 1
        &&& self.spawn_capacity <= u32::MAX
        &&& self.spawn_staging.len() == stream_len(self.spawn_capacity as nat, 3)
    }

    /// `capacity` transform slots, sentinel-filled, and an empty stream.
    pub fn new(capacity: u32) -> (r: Self)
        ensures
            r.wf(),
            r.capacity == if capacity >= 1 {
                capacity
            } else {
                1
            },
            r.spawn_capacity == INITIAL_SPAWN_CAPACITY,
            streams3(r.spawn_staging@, Seq::empty()),
    {
        GpuRenderers {
            capacity: max_u32(capacity, 1),
            spawn_capacity: INITIAL_SPAWN_CAPACITY,
            spawn_staging: vec![0u32; 2 + 3 * INITIAL_SPAWN_CAPACITY],
        }
    }

    /// Number of transform slots the buffer can hold.
    pub fn capacity(&self) -> (r: u32)
        ensures
            r == self.capacity,
    {
        self.capacity
    }

    /// Grow the record buffer to at least `needed` slots: geometric, existing
    /// records kept, new tail sentinel-filled. The result, in slots, says what
    /// to reallocate and keep; nothing if it fits already.
    pub fn ensure_capacity(&mut self, needed: u32) -> (r: Option<Grow>)
        requires
            old(self).wf(),
        ensures
            final(self).wf(),
            r == growth(old(self).capacity, needed as int, old(self).capacity),
            *final(self) == (GpuRenderers {
                capacity: grown(old(self).capacity as nat, needed as nat, u32::MAX as nat) as u32,
                ..*old(self)
            }),
    {
        if needed <= self.capacity {
            return None;
        }
        let keep: u32 = self.capacity;
        let new_cap: u32 = grow_u32(keep, needed);
        self.capacity = new_cap;
        Some(Grow { new_cap, keep })
    }

    /// Make room for `needed` records this frame. Whether the staging was
    /// reallocated, in which case it starts over empty and what captured it
    /// must be rebuilt.
    pub fn ensure_spawn_capacity(&mut self, needed: usize) -> (r: bool)
        requires
            old(self).wf(),
            grown(old(self).spawn_capacity as nat, needed as nat, usize::MAX as nat) <= u32::MAX,
            stream_len(
                grown(old(self).spawn_capacity as nat, needed as nat, usize::MAX as nat),
                3,
            ) <= usize::MAX,
        ensures
            final(self).wf(),
            r == (needed > old(self).spawn_capacity),
            !r ==> *final(self) == *old(self),
            r ==> final(self).spawn_capacity == grown(
                old(self).spawn_capacity as nat,
                needed as nat,
                usize::MAX as nat,
            ) && streams3(final(self).spawn_staging@, Seq::empty()),
            final(self).capacity == old(self).capacity,
    {
        if needed <= self.spawn_capacity {
            return false;
        }
        self.spawn_capacity = grow_usize(self.spawn_capacity, needed);
        self.spawn_staging = vec![0u32; 2 + 3 * self.spawn_capacity];
        true
    }

    /// Write this frame's records, and how many there are. Every frame: a
    /// count of zero retires the records of the frame before.
    pub fn write_spawns(&mut self, spawns: &Vec<[u32; 3]>)
        requires
            old(self).wf(),
            spawns.len() <= old(self).spawn_capacity,
            forall|i: int| 0 <= i < spawns.len() ==> (#[trigger] spawns[i])[0] < old(self).capacity,
        ensures
            final(self).wf(),
            streams3(final(self).spawn_staging@, spawns@),
            final(self).capacity == old(self).capacity,
            final(self).spawn_capacity == old(self).spawn_capacity,
            forall|w: int|
                w == 1 || 2 + 3 * spawns.len() <= w < final(self).spawn_staging.len()
                    ==> final(self).spawn_staging[w] == old(self).spawn_staging[w],
    {
        let ghost before = self.spawn_staging@;
        self.spawn_staging.set(0, spawns.len() as u32);
        let mut i: usize = 0;
        while i < spawns.len()
            invariant
                self.wf(),
                i <= spawns.len() <= self.spawn_capacity,
                self.capacity == old(self).capacity,
                self.spawn_capacity == old(self).spawn_capacity,
                self.spawn_staging.len() == before.len(),
                self.spawn_staging[0] == spawns.len(),
                forall|k: int|
                    #![trigger spawns[k]]
                    0 <= k < i ==> self.spawn_staging[2 + 3 * k] == spawns[k][0]
                        && self.spawn_staging[3 + 3 * k] == spawns[k][1] && self.spawn_staging[4 + 3
                        * k] == spawns[k][2],
                forall|w: int|
                    w == 1 || 2 + 3 * i <= w < before.len() ==> self.spawn_staging[w] == before[w],
            decreases spawns.len() - i,
        {
            let rec: [u32; 3] = spawns[i];
            self.spawn_staging.set(2 + 3 * i, rec[0]);
            self.spawn_staging.set(3 + 3 * i, rec[1]);
            self.spawn_staging.set(4 + 3 * i, rec[2]);
            i = i + 1;
        }
    }

    /// Workgroups of the recorded scatter: the staging's whole capacity.
    pub fn scatter_groups(&self) -> (r: u32)
        requires
            self.wf(),
        ensures
            r == groups(self.spawn_capacity as nat, 64),
    {
        group_count(self.spawn_capacity as u32, SCATTER_WORKGROUP_SIZE)
    }
}

/// A stream has one reading: what was written is what the shader finds.
pub proof fn streams_read_back(words: Seq<u32>, a: Seq<[u32; 3]>, b: Seq<[u32; 3]>)
    requires
        streams3(words, a),
        streams3(words, b),
        a.len() <= u32::MAX,
        b.len() <= u32::MAX,
    ensures
        a == b,
{
    assert(a.len() == b.len());
    assert forall|i: int| 0 <= i < a.len() implies a[i] == b[i] by {
        let x = a[i];
        let y = b[i];
        assert(x[0] == y[0] && x[1] == y[1] && x[2] == y[2]);
        assert(x@ =~= y@);
        vstd::array::axiom_array_ext_equal(x, y);
    }
    assert(a =~= b);
}

/// A stream is its count, a pad, and the records one behind the other, each
/// word in its place. There is room for as many as the capacity says.
pub proof fn records_lie_end_to_end(
    words: Seq<u32>,
    records: Seq<[u32; 3]>,
    i: int,
    capacity: nat,
    width: nat,
)
    requires
        streams3(words, records),
        0 <= i < records.len(),
    ensures
        words[0] == records.len(),
        words[2 + 3 * i] == records[i][0],
        words[2 + 3 * i + 1] == records[i][1],
        words[2 + 3 * i + 2] == records[i][2],
        2 + 3 * records.len() <= words.len(),
        stream_len(capacity, 3) >= 2 + 3 * capacity,
        stream_len(capacity, 2) >= 2 + 2 * capacity,
        capacity >= 1 ==> stream_len(capacity, width) == 2 + width * capacity,
        stream_len(0, width) == 2 + width,
{
    assert(width * 1 == width) by (nonlinear_arith);
}

} // verus!
