//! The editor overlay: a world grid and the gizmo's triangles, drawn per camera
//! after both scene passes.
//!
//! Everything is sized once and drawn indirectly, so what changes from frame
//! to frame is only the bytes that the recorded commands read.

use crate::camera::MAX_CAMERAS;
use crate::growth::min_usize;
use vstd::prelude::*;

verus! {

/// Vertices per camera per frame.
pub const VERTEX_CAPACITY: usize = 8192;

/// One overlay triangle corner, in world space; bit patterns.
#[derive(Clone, Copy, PartialEq, Eq, Debug)]
pub struct OverlayVertex {
    pub position: [u32; 3],
    pub color: [u32; 4],
}

/// One non-indexed indirect draw, as the GPU reads it.
#[derive(Clone, Copy, PartialEq, Eq, Structural, Debug)]
pub struct DrawIndirect {
    pub vertex_count: u32,
    pub instance_count: u32,
    pub first_vertex: u32,
    pub first_instance: u32,
}

/// What was published for each camera this frame, by camera slot.
pub struct PublishedOverlays {
    pub all: Vec<Vec<OverlayVertex>>,
}

/// What a camera shows.
pub open spec fn published(all: Seq<Vec<OverlayVertex>>, slot: int) -> Seq<OverlayVertex> {
    if 0 <= slot < all.len() {
        all[slot]@
    } else {
        Seq::empty()
    }
}

impl PublishedOverlays {
    pub open spec fn wf(&self) -> bool {
        self.all.len() == 0 || self.all.len() == MAX_CAMERAS
    }

    pub fn new() -> (r: Self)
        ensures
            r.wf(),
            r.all@.len() == 0,
    {
        PublishedOverlays { all: Vec::new() }
    }

    /// Hand a camera's triangles to the renderer, in place of the last ones.
    /// A camera that nothing was published for shows nothing.
    pub fn publish(&mut self, camera_slot: usize, vertices: Vec<OverlayVertex>)
        requires
            old(self).wf(),
            camera_slot < MAX_CAMERAS,
        ensures
            final(self).wf(),
            published(final(self).all@, camera_slot as int) == vertices@,
            forall|s: int|
                s != camera_slot ==> #[trigger] published(final(self).all@, s) == published(
                    old(self).all@,
                    s,
                ),
    {
        let ghost before = self.all@;
        while self.all.len() < MAX_CAMERAS
            invariant
                self.all.len() <= MAX_CAMERAS,
                before.len() <= self.all.len(),
                forall|s: int| #[trigger] published(self.all@, s) == published(before, s),
            decreases MAX_CAMERAS - self.all.len(),
        {
            let ghost all0 = self.all@;
            self.all.push(Vec::new());
            assert forall|s: int| #[trigger] published(self.all@, s) == published(before, s) by {
                assert(published(all0, s) == published(before, s));
                assert(published(self.all@, s) =~= published(all0, s));
            }
        }
        let ghost all0 = self.all@;
        self.all.set(camera_slot, vertices);
        assert forall|s: int| s != camera_slot implies #[trigger] published(self.all@, s)
            == published(before, s) by {
            assert(published(all0, s) == published(before, s));
        }
    }
}

/// What the overlay's shaders read of a camera, beside the inverse of the
/// view-projection.
#[derive(Clone, Copy, PartialEq, Eq, Debug)]
pub struct OverlayParams {
    pub view_proj: [u32; 16],
    /// The eye, and a zero.
    pub eye: [u32; 4],
    /// The grid's parameters, zeros where there is none.
    pub grid: [u32; 4],
}

/// What the host writes for one camera and one frame: the vertices, the
/// parameters, and the two draws, the grid's and the gizmo's.
pub struct OverlayWrite {
    pub vertices: Vec<OverlayVertex>,
    pub params: OverlayParams,
    pub grid: DrawIndirect,
    pub gizmo: DrawIndirect,
}

/// A draw of `vertex_count` vertices from the first on, once or not at all.
pub open spec fn draws_once(vertex_count: int, shown: bool) -> DrawIndirect {
    DrawIndirect {
        vertex_count: vertex_count as u32,
        instance_count: if shown {
            1
        } else {
            0
        },
        first_vertex: 0,
        first_instance: 0,
    }
}

impl OverlayWrite {
    /// This is what a camera shows, of the vertices `shown` for it: as many as
    /// the buffer holds.
    pub open spec fn shows(
        &self,
        shown: Seq<OverlayVertex>,
        view_proj: [u32; 16],
        eye: [u32; 3],
        grid: Option<[u32; 4]>,
    ) -> bool {
        let count = if shown.len() <= VERTEX_CAPACITY {
            shown.len() as int
        } else {
            VERTEX_CAPACITY as int
        };
        &&& self.vertices@ == shown.take(count)
        &&& self.params.view_proj == view_proj
        &&& self.params.eye@ == eye@.push(0u32)
        &&& self.params.grid@ == match grid {
            Some(g) => g@,
            None => seq![0u32, 0u32, 0u32, 0u32],
        }
        &&& self.grid == draws_once(3, grid is Some)
        &&& self.gizmo == draws_once(count, count > 0)
    }
}

/// This frame's overlay of a camera. An empty one costs two draws of no
/// instance, rather than a new recording.
pub fn write(
    all: &PublishedOverlays,
    camera_slot: usize,
    view_proj: [u32; 16],
    eye: [u32; 3],
    grid: Option<[u32; 4]>,
) -> (r: OverlayWrite)
    ensures
        r.shows(published(all.all@, camera_slot as int), view_proj, eye, grid),
        r.vertices.len() <= VERTEX_CAPACITY,
{
    let mut vertices: Vec<OverlayVertex> = Vec::new();
    let ghost shown = published(all.all@, camera_slot as int);
    let have: usize = if camera_slot < all.all.len() { all.all[camera_slot].len() } else { 0 };
    let count: usize = min_usize(have, VERTEX_CAPACITY);
    let mut i: usize = 0;
    assert(vertices@ =~= shown.take(0));
    while i < count
        invariant
            i <= count <= have,
            count > 0 ==> camera_slot < all.all.len() && have == all.all[camera_slot as int].len(),
            shown == published(all.all@, camera_slot as int),
            have == shown.len(),
            vertices@ == shown.take(i as int),
        decreases count - i,
    {
        vertices.push(all.all[camera_slot][i]);
        i = i + 1;
        assert(vertices@ =~= shown.take(i as int));
    }
    let params = OverlayParams {
        view_proj,
        eye: [eye[0], eye[1], eye[2], 0],
        grid: match grid {
            Some(g) => g,
            None => [0, 0, 0, 0],
        },
    };
    assert(params.eye@ =~= eye@.push(0u32));
    assert(grid is None ==> params.grid@ =~= seq![0u32, 0u32, 0u32, 0u32]);
    OverlayWrite {
        vertices,
        params,
        grid: DrawIndirect {
            vertex_count: 3,
            instance_count: if grid.is_some() { 1 } else { 0 },
            first_vertex: 0,
            first_instance: 0,
        },
        gizmo: DrawIndirect {
            vertex_count: count as u32,
            instance_count: if count > 0 { 1 } else { 0 },
            first_vertex: 0,
            first_instance: 0,
        },
    }
}

/// A command of a camera's recorded overlay.
#[derive(Clone, Copy, PartialEq, Eq, Structural, Debug)]
pub enum OverlayCommand {
    SetViewport { width: u32, height: u32 },
    BindGrid,
    BindGizmo,
    BindVertices,
    /// Draw by the host-written command of this index.
    Draw { command: u32 },
}

/// The recorded overlay of a camera of this extent: the grid, which is tested
/// against the scene's depth, then the gizmo, which is drawn over both.
pub fn record(extent: [u32; 2]) -> (r: Vec<OverlayCommand>)
    ensures
        r@ == seq![
            OverlayCommand::SetViewport { width: extent[0], height: extent[1] },
            OverlayCommand::BindGrid,
            OverlayCommand::Draw { command: 0 },
            OverlayCommand::BindGizmo,
            OverlayCommand::BindVertices,
            OverlayCommand::Draw { command: 1 },
        ],
{
    let mut r: Vec<OverlayCommand> = Vec::new();
    r.push(OverlayCommand::SetViewport { width: extent[0], height: extent[1] });
    r.push(OverlayCommand::BindGrid);
    r.push(OverlayCommand::Draw { command: 0 });
    r.push(OverlayCommand::BindGizmo);
    r.push(OverlayCommand::BindVertices);
    r.push(OverlayCommand::Draw { command: 1 });
    assert(r@ =~= seq![
        OverlayCommand::SetViewport { width: extent[0], height: extent[1] },
        OverlayCommand::BindGrid,
        OverlayCommand::Draw { command: 0 },
        OverlayCommand::BindGizmo,
        OverlayCommand::BindVertices,
        OverlayCommand::Draw { command: 1 },
    ]);
    r
}

/// A camera shows what was published for it, vertex by vertex, up to what the
/// buffer holds. Its gizmo is drawn over exactly those vertices, once, and not
/// at all if there are none; its grid is one triangle, with its parameters, if
/// there is one.
pub proof fn overlays_draw_what_was_published(
    w: OverlayWrite,
    all: Seq<Vec<OverlayVertex>>,
    slot: int,
    view_proj: [u32; 16],
    eye: [u32; 3],
    grid: Option<[u32; 4]>,
    i: int,
)
    requires
        w.shows(published(all, slot), view_proj, eye, grid),
    ensures
        0 <= slot < all.len() && all[slot].len() <= 8192 ==> w.vertices.len() == all[slot].len(),
        0 <= slot < all.len() && all[slot].len() > 8192 ==> w.vertices.len() == 8192,
        slot >= all.len() ==> w.vertices.len() == 0,
        0 <= slot < all.len() && 0 <= i < w.vertices.len() ==> w.vertices[i] == all[slot][i],
        w.gizmo.vertex_count == w.vertices.len(),
        w.gizmo.instance_count == 1 <==> w.vertices.len() > 0,
        w.gizmo.instance_count <= 1,
        w.gizmo.first_vertex == 0 && w.gizmo.first_instance == 0,
        w.grid.vertex_count == 3,
        w.grid.instance_count == 1 <==> grid is Some,
        w.grid.instance_count <= 1,
        w.grid.first_vertex == 0 && w.grid.first_instance == 0,
        w.params.view_proj == view_proj,
        w.params.eye[0] == eye[0] && w.params.eye[1] == eye[1] && w.params.eye[2] == eye[2],
        w.params.eye[3] == 0,
        grid is Some && 0 <= i < 4 ==> w.params.grid[i] == (grid->0)[i],
        grid is None && 0 <= i < 4 ==> w.params.grid[i] == 0,
{
    assert(w.params.eye@[0] == eye@[0] && w.params.eye@[1] == eye@[1] && w.params.eye@[2]
        == eye@[2] && w.params.eye@[3] == 0);
    if grid is Some && 0 <= i < 4 {
        assert(w.params.grid@[i] == (grid->0)@[i]);
    }
}

} // verus!
