//! Cameras: the half that anything may drive, and the render-side half with
//! its resolution, its worlds, and its debug switches.
//!
//! Each camera culls in two passes. The first tests every renderer against
//! the frustum and against last frame's occlusion pyramid and draws what
//! passes; what only occlusion rejected is tested again, in the second, against
//! the pyramid that this frame's first pass built.

use crate::draw::{is_template, write_indirect_template, WorldDraw, WorldId, WorldSource};
use crate::growth::{ceil_div, group_count, groups, lemma_ceil_div, max_u32};
use crate::hiz::hiz_mip0_extent;
use crate::order::{at_most, is_nan, le, less, lt};
use crate::overlay::{published, OverlayWrite, PublishedOverlays};
use vstd::prelude::*;

verus! {

/// How many cameras a process can show at once.
pub const MAX_CAMERAS: usize = 8;

/// Copies of every buffer that the host writes while the GPU reads the other.
pub const STAGING_SLOTS: usize = 2;

/// Workgroup size of the cull dispatches.
pub const CULL_WORKGROUP_SIZE: u32 = 64;

/// How a camera's extent is determined relative to the swapchain.
#[derive(Clone, Copy, PartialEq, Eq, Debug)]
pub enum CameraResolution {
    /// Track the swapchain one to one: the present-blit is a straight copy.
    MatchSwapchain,
    /// Sized by whatever shows it. Not the swapchain's shape, so whatever
    /// shows it also puts it on screen.
    Fixed([u32; 2]),
}

impl CameraResolution {
    /// The extent under a swapchain of the given one. Zero is a legal box for
    /// a panel and not for an image.
    pub open spec fn resolved(self, swapchain_extent: [u32; 2]) -> (u32, u32) {
        match self {
            CameraResolution::MatchSwapchain => (swapchain_extent[0], swapchain_extent[1]),
            CameraResolution::Fixed(e) => (
                if e[0] >= 1 {
                    e[0]
                } else {
                    1
                },
                if e[1] >= 1 {
                    e[1]
                } else {
                    1
                },
            ),
        }
    }

    pub fn resolve(&self, swapchain_extent: [u32; 2]) -> (r: [u32; 2])
        ensures
            (r[0], r[1]) == self.resolved(swapchain_extent),
    {
        match self {
            CameraResolution::MatchSwapchain => swapchain_extent,
            CameraResolution::Fixed(e) => [max_u32(e[0], 1), max_u32(e[1], 1)],
        }
    }

    /// Does this policy depend on the swapchain extent?
    pub fn depends_on_swapchain(&self) -> (r: bool)
        ensures
            r == (*self is MatchSwapchain),
    {
        matches!(self, CameraResolution::MatchSwapchain)
    }

    /// Can the present-blit copy this camera onto the swapchain?
    pub fn blits_to_swapchain(&self) -> (r: bool)
        ensures
            r == (*self is MatchSwapchain),
    {
        matches!(self, CameraResolution::MatchSwapchain)
    }
}

/// Where the panel showing a camera landed: its position, and its far edges.
/// All are bit patterns of window coordinates.
#[derive(Clone, Copy)]
pub struct PanelBox {
    pub origin: [u32; 2],
    pub size: [u32; 2],
    /// Origin plus size.
    pub far: [u32; 2],
}

impl PanelBox {
    /// Inside, near edges included and far edges not.
    pub open spec fn covers(self, p: [u32; 2]) -> bool {
        &&& le(self.origin[0], p[0]) && lt(p[0], self.far[0])
        &&& le(self.origin[1], p[1]) && lt(p[1], self.far[1])
    }

    /// A panel with a box right now.
    pub open spec fn is_open(self) -> bool {
        lt(0, self.size[0]) && lt(0, self.size[1])
    }

    pub fn open(&self) -> (r: bool)
        ensures
            r == self.is_open(),
    {
        less(0, self.size[0]) && less(0, self.size[1])
    }
}

/// Perspective parameters, and the aspect of whatever the camera renders into;
/// bit patterns.
#[derive(Clone, Copy)]
pub struct Projection {
    pub fov_y_radians: u32,
    pub z_near: u32,
    pub z_far: u32,
    pub aspect: u32,
}

/// The state of a camera that anything may write.
pub struct CameraState {
    /// The worlds that the camera composites, in draw order.
    pub worlds: Vec<WorldId>,
    pub view_proj: [u32; 16],
    pub eye: [u32; 3],
    /// Nothing when nothing shows the camera.
    pub rect: Option<PanelBox>,
    pub proj: Projection,
    /// The ground plane's cell size, major multiple and fade radius.
    pub grid: Option<[u32; 4]>,
}

/// An entity that drives a camera.
#[derive(Clone, Copy, PartialEq, Eq, Structural, Debug)]
pub struct Binding {
    pub world: WorldId,
    pub entity: u32,
    pub slot: usize,
}

/// Every camera in the process, in slot order, and the entities that drive
/// them. A camera outlives what made it: slots are never reused.
pub struct Cameras {
    pub all: Vec<CameraState>,
    pub bound: Vec<Binding>,
}

/// No world is listed twice.
pub open spec fn no_repeat(worlds: Seq<WorldId>) -> bool {
    forall|i: int, j: int| 0 <= i < j < worlds.len() ==> worlds[i] != worlds[j]
}

/// The bindings that are not of `entity` in `world`, in order.
pub open spec fn unbound(bound: Seq<Binding>, world: WorldId, entity: u32) -> Seq<Binding>
    decreases bound.len(),
{
    if bound.len() == 0 {
        Seq::empty()
    } else {
        let rest = unbound(bound.drop_last(), world, entity);
        if bound.last().world == world && bound.last().entity == entity {
            rest
        } else {
            rest.push(bound.last())
        }
    }
}

/// The bindings of worlds that are alive, in order.
pub open spec fn alive(bound: Seq<Binding>, worlds: Seq<WorldId>) -> Seq<Binding>
    decreases bound.len(),
{
    if bound.len() == 0 {
        Seq::empty()
    } else {
        let rest = alive(bound.drop_last(), worlds);
        if worlds.contains(bound.last().world) {
            rest.push(bound.last())
        } else {
            rest
        }
    }
}

fn holds_world(worlds: &Vec<WorldId>, world: WorldId) -> (r: bool)
    ensures
        r == worlds@.contains(world),
{
    let mut i: usize = 0;
    while i < worlds.len()
        invariant
            i <= worlds.len(),
            forall|k: int| 0 <= k < i ==> worlds[k] != world,
        decreases worlds.len() - i,
    {
        if worlds[i] == world {
            return true;
        }
        i = i + 1;
    }
    false
}

impl Cameras {
    pub open spec fn wf(&self) -> bool {
        &&& self.all.len() <= MAX_CAMERAS
        &&& forall|i: int| 0 <= i < self.all.len() ==> no_repeat((#[trigger] self.all[i]).worlds@)
        &&& forall|i: int| 0 <= i < self.all.len() ==> (#[trigger] self.all[i]).worlds.len() > 0
        &&& forall|i: int|
            0 <= i < self.bound.len() ==> (#[trigger] self.bound[i]).slot < self.all.len()
    }

    pub fn new() -> (r: Self)
        ensures
            r.wf(),
            r.all@.len() == 0,
            r.bound@.len() == 0,
    {
        Cameras { all: Vec::new(), bound: Vec::new() }
    }

    /// The camera in `slot`, if it exists.
    pub fn camera(&self, slot: usize) -> (r: Option<CameraHandle>)
        ensures
            r == if slot < self.all.len() {
                Some(CameraHandle(slot))
            } else {
                None
            },
    {
        if slot < self.all.len() {
            Some(CameraHandle(slot))
        } else {
            None
        }
    }

    /// `camera` takes its pose from `entity` from now on.
    pub fn bind(&mut self, world: WorldId, entity: u32, camera: CameraHandle)
        requires
            old(self).wf(),
            camera.0 < old(self).all.len(),
        ensures
            final(self).wf(),
            final(self).all == old(self).all,
            final(self).bound@ == old(self).bound@.push(Binding { world, entity, slot: camera.0 }),
    {
        self.bound.push(Binding { world, entity, slot: camera.0 });
    }

    /// Nothing takes its pose from `entity` any more.
    pub fn unbind(&mut self, world: WorldId, entity: u32)
        requires
            old(self).wf(),
        ensures
            final(self).wf(),
            final(self).all == old(self).all,
            final(self).bound@ == unbound(old(self).bound@, world, entity),
    {
        let ghost before = self.bound@;
        let mut kept: Vec<Binding> = Vec::new();
        let mut i: usize = 0;
        while i < self.bound.len()
            invariant
                i <= self.bound.len(),
                self.bound@ == before,
                self.all == old(self).all,
                forall|k: int| 0 <= k < before.len() ==> (#[trigger] before[k]).slot
                    < self.all.len(),
                forall|k: int| 0 <= k < kept.len() ==> (#[trigger] kept[k]).slot < self.all.len(),
                kept@ == unbound(before.take(i as int), world, entity),
            decreases self.bound.len() - i,
        {
            let b: Binding = self.bound[i];
            assert(before.take(i + 1).drop_last() =~= before.take(i as int));
            assert(before[i as int].slot < self.all.len());
            if !(b.world == world && b.entity == entity) {
                kept.push(b);
            }
            i = i + 1;
        }
        assert(before.take(i as int) =~= before);
        self.bound = kept;
    }

    /// The bound cameras to drive this frame. One whose world was dropped
    /// holds its last matrix rather than snapping to the origin.
    pub fn driven(&self, live: &Vec<WorldId>) -> (r: Vec<Binding>)
        ensures
            r@ == alive(self.bound@, live@),
    {
        let mut r: Vec<Binding> = Vec::new();
        let mut i: usize = 0;
        while i < self.bound.len()
            invariant
                i <= self.bound.len(),
                r@ == alive(self.bound@.take(i as int), live@),
            decreases self.bound.len() - i,
        {
            let b: Binding = self.bound[i];
            assert(self.bound@.take(i + 1).drop_last() =~= self.bound@.take(i as int));
            if holds_world(live, b.world) {
                r.push(b);
            }
            i = i + 1;
        }
        assert(self.bound@.take(i as int) =~= self.bound@);
        r
    }
}

/// How many cameras exist.
pub fn camera_count(cameras: &Cameras) -> (r: usize)
    ensures
        r == cameras.all.len(),
{
    cameras.all.len()
}

/// A camera, by its slot.
#[derive(Clone, Copy, PartialEq, Eq, Structural, Debug)]
pub struct CameraHandle(pub usize);

impl CameraHandle {
    /// A camera drawing `world`, sized by whatever ends up showing it, with a
    /// sixty-degree field of view.
    pub fn new(cameras: &mut Cameras, world: WorldId) -> (r: Self)
        requires
            old(cameras).wf(),
            old(cameras).all.len() < MAX_CAMERAS,
        ensures
            final(cameras).wf(),
            r.0 == old(cameras).all.len(),
            final(cameras).all.len() == old(cameras).all.len() + 1,
            final(cameras).bound == old(cameras).bound,
            forall|i: int|
                0 <= i < old(cameras).all.len() ==> final(cameras).all[i] == old(cameras).all[i],
            ({
                let c = final(cameras).all[r.0 as int];
                &&& c.worlds@ == seq![world]
                &&& c.rect is None
                &&& c.grid is None
                &&& c.eye@ == seq![0u32, 0u32, 0u32]
                &&& forall|k: int|
                    0 <= k < 16 ==> #[trigger] c.view_proj[k] == if k % 5 == 0 {
                        0x3f80_0000u32
                    } else {
                        0
                    }
                &&& c.proj.fov_y_radians == 0x3f86_0a92
                &&& c.proj.z_near == 0x3dcc_cccd
                &&& c.proj.z_far == 0x461c_4000
                &&& c.proj.aspect == 0x3f80_0000
            }),
    {
        let slot: usize = cameras.all.len();
        let one: u32 = 0x3f80_0000;
        let state = CameraState {
            worlds: vec![world],
            view_proj: [one, 0, 0, 0, 0, one, 0, 0, 0, 0, one, 0, 0, 0, 0, one],
            eye: [0, 0, 0],
            rect: None,
            proj: Projection {
                fov_y_radians: 0x3f86_0a92,
                z_near: 0x3dcc_cccd,
                z_far: 0x461c_4000,
                aspect: one,
            },
            grid: None,
        };
        assert(state.worlds@ =~= seq![world]);
        assert(state.eye@ =~= seq![0u32, 0u32, 0u32]);
        cameras.all.push(state);
        CameraHandle(slot)
    }

    /// Its reserved bindless slot: what a widget samples to show it.
    pub fn slot(&self) -> (r: usize)
        ensures
            r == self.0,
    {
        self.0
    }

    /// The worlds that this camera composites, in draw order.
    pub fn worlds(&self, cameras: &Cameras) -> (r: Vec<WorldId>)
        requires
            self.0 < cameras.all.len(),
        ensures
            r@ == cameras.all[self.0 as int].worlds@,
    {
        let all: &Vec<WorldId> = &cameras.all[self.0].worlds;
        let mut r: Vec<WorldId> = Vec::new();
        let mut i: usize = 0;
        while i < all.len()
            invariant
                i <= all.len(),
                r@ == all@.take(i as int),
            decreases all.len() - i,
        {
            r.push(all[i]);
            i = i + 1;
            assert(r@ =~= all@.take(i as int));
        }
        assert(all@.take(i as int) =~= all@);
        r
    }

    /// Draw `world` into this camera's image too, on top of what it already
    /// draws. A repeat is ignored: a world drawn twice would only fight with
    /// itself for depth.
    pub fn draw_world(&self, cameras: &mut Cameras, world: WorldId)
        requires
            old(cameras).wf(),
            self.0 < old(cameras).all.len(),
        ensures
            final(cameras).wf(),
            final(cameras).bound == old(cameras).bound,
            final(cameras).all.len() == old(cameras).all.len(),
            ({
                let before = old(cameras).all[self.0 as int];
                let after = final(cameras).all[self.0 as int];
                &&& after.worlds@ == if before.worlds@.contains(world) {
                    before.worlds@
                } else {
                    before.worlds@.push(world)
                }
                &&& after == (CameraState { worlds: after.worlds, ..before })
            }),
            forall|i: int|
                0 <= i < old(cameras).all.len() && i != self.0 ==> final(cameras).all[i] == old(
                    cameras,
                ).all[i],
    {
        let mut worlds: Vec<WorldId> = self.worlds(cameras);
        if !holds_world(&worlds, world) {
            worlds.push(world);
        }
        cameras.all[self.0].worlds = worlds;
    }

    /// The matrix that the renderer uploads next frame, and the eye.
    pub fn view_proj(&self, cameras: &Cameras) -> (r: ([u32; 16], [u32; 3]))
        requires
            self.0 < cameras.all.len(),
        ensures
            r == (cameras.all[self.0 as int].view_proj, cameras.all[self.0 as int].eye),
    {
        (cameras.all[self.0].view_proj, cameras.all[self.0].eye)
    }

    pub fn set_view_proj(&self, cameras: &mut Cameras, view_proj: [u32; 16], eye: [u32; 3])
        requires
            old(cameras).wf(),
            self.0 < old(cameras).all.len(),
        ensures
            final(cameras).wf(),
            changed_only(*old(cameras), *final(cameras), self.0 as int),
            final(cameras).all[self.0 as int] == (CameraState {
                view_proj,
                eye,
                ..old(cameras).all[self.0 as int]
            }),
    {
        cameras.all[self.0].view_proj = view_proj;
        cameras.all[self.0].eye = eye;
    }

    /// Vertical field of view.
    pub fn fov_y(&self, cameras: &Cameras) -> (r: u32)
        requires
            self.0 < cameras.all.len(),
        ensures
            r == cameras.all[self.0 as int].proj.fov_y_radians,
    {
        cameras.all[self.0].proj.fov_y_radians
    }

    /// Show a world grid under this camera, or none.
    pub fn set_grid(&self, cameras: &mut Cameras, grid: Option<[u32; 4]>)
        requires
            old(cameras).wf(),
            self.0 < old(cameras).all.len(),
        ensures
            final(cameras).wf(),
            changed_only(*old(cameras), *final(cameras), self.0 as int),
            final(cameras).all[self.0 as int] == (CameraState {
                grid,
                ..old(cameras).all[self.0 as int]
            }),
    {
        cameras.all[self.0].grid = grid;
    }

    pub fn grid(&self, cameras: &Cameras) -> (r: Option<[u32; 4]>)
        requires
            self.0 < cameras.all.len(),
        ensures
            r == cameras.all[self.0 as int].grid,
    {
        cameras.all[self.0].grid
    }

    /// Keeps the aspect, which only the renderer knows.
    pub fn set_projection(
        &self,
        cameras: &mut Cameras,
        fov_y_radians: u32,
        z_near: u32,
        z_far: u32,
    )
        requires
            old(cameras).wf(),
            self.0 < old(cameras).all.len(),
        ensures
            final(cameras).wf(),
            changed_only(*old(cameras), *final(cameras), self.0 as int),
            final(cameras).all[self.0 as int] == (CameraState {
                proj: Projection {
                    fov_y_radians,
                    z_near,
                    z_far,
                    aspect: old(cameras).all[self.0 as int].proj.aspect,
                },
                ..old(cameras).all[self.0 as int]
            }),
    {
        let aspect: u32 = cameras.all[self.0].proj.aspect;
        cameras.all[self.0].proj = Projection { fov_y_radians, z_near, z_far, aspect };
    }

    /// Published by the renderer once the target is sized.
    pub fn set_aspect(&self, cameras: &mut Cameras, aspect: u32)
        requires
            old(cameras).wf(),
            self.0 < old(cameras).all.len(),
        ensures
            final(cameras).wf(),
            changed_only(*old(cameras), *final(cameras), self.0 as int),
            final(cameras).all[self.0 as int] == (CameraState {
                proj: Projection { aspect, ..old(cameras).all[self.0 as int].proj },
                ..old(cameras).all[self.0 as int]
            }),
    {
        let p: Projection = cameras.all[self.0].proj;
        cameras.all[self.0].proj = Projection {
            fov_y_radians: p.fov_y_radians,
            z_near: p.z_near,
            z_far: p.z_far,
            aspect,
        };
    }

    /// Where the panel showing this camera landed. Nothing means that nothing
    /// shows it, which is the whole window; a zero box means shown, but with
    /// no box right now.
    pub fn set_rect(&self, cameras: &mut Cameras, rect: Option<PanelBox>)
        requires
            old(cameras).wf(),
            self.0 < old(cameras).all.len(),
        ensures
            final(cameras).wf(),
            changed_only(*old(cameras), *final(cameras), self.0 as int),
            final(cameras).all[self.0 as int] == (CameraState {
                rect,
                ..old(cameras).all[self.0 as int]
            }),
    {
        cameras.all[self.0].rect = rect;
    }

    pub fn rect(&self, cameras: &Cameras) -> (r: Option<PanelBox>)
        requires
            self.0 < cameras.all.len(),
        ensures
            r == cameras.all[self.0 as int].rect,
    {
        cameras.all[self.0].rect
    }

    /// Is `p` over this camera's panel? What keeps a drag in one document from
    /// spinning the camera in the one beside it.
    pub fn contains(&self, cameras: &Cameras, p: [u32; 2]) -> (r: bool)
        requires
            self.0 < cameras.all.len(),
        ensures
            r == shows(cameras.all[self.0 as int].rect, p),
    {
        match cameras.all[self.0].rect {
            None => true,
            Some(b) => at_most(b.origin[0], p[0]) && less(p[0], b.far[0]) && at_most(
                b.origin[1],
                p[1],
            ) && less(p[1], b.far[1]),
        }
    }
}

/// Whether a camera with this box answers for `p`.
pub open spec fn shows(rect: Option<PanelBox>, p: [u32; 2]) -> bool {
    match rect {
        None => true,
        Some(b) => b.covers(p),
    }
}

/// Only the camera in `slot` differs.
pub open spec fn changed_only(before: Cameras, after: Cameras, slot: int) -> bool {
    &&& after.all.len() == before.all.len()
    &&& after.bound == before.bound
    &&& forall|i: int|
        0 <= i < before.all.len() && i != slot ==> after.all[i] == before.all[i]
}

/// A panel that is closed owns no pointer, which is not the same as a camera
/// that nothing shows, which owns every pointer.
pub proof fn closed_panels_own_nothing(b: PanelBox, p: [u32; 2])
    requires
        b.far[0] == b.origin[0] || b.far[1] == b.origin[1],
    ensures
        !shows(Some(b), p),
        shows(None, p),
{
}

/// Two panels side by side never both answer for one point.
pub proof fn adjacent_panels_split_the_window(left: PanelBox, right: PanelBox, p: [u32; 2])
    requires
        left.far[0] == right.origin[0],
    ensures
        !(shows(Some(left), p) && shows(Some(right), p)),
{
}

/// Unbinding an entity leaves no binding of it, and every binding of another.
pub proof fn unbinding_is_exact(bound: Seq<Binding>, world: WorldId, entity: u32, b: Binding)
    ensures
        unbound(bound, world, entity).contains(b) <==> bound.contains(b) && !(b.world == world
            && b.entity == entity),
    decreases bound.len(),
{
    if bound.len() > 0 {
        let rest = bound.drop_last();
        unbinding_is_exact(rest, world, entity, b);
        let u0 = unbound(rest, world, entity);
        let u1 = unbound(bound, world, entity);
        assert(bound =~= rest.push(bound.last()));
        if bound.contains(b) {
            let i = choose|i: int| 0 <= i < bound.len() && bound[i] == b;
            if i < rest.len() {
                assert(rest[i] == b);
            }
        }
        if rest.contains(b) {
            let i = choose|i: int| 0 <= i < rest.len() && rest[i] == b;
            assert(bound[i] == b);
        }
        if u0.contains(b) {
            let i = choose|i: int| 0 <= i < u0.len() && u0[i] == b;
            assert(u1[i] == b);
        }
        if u1.contains(b) {
            let i = choose|i: int| 0 <= i < u1.len() && u1[i] == b;
            if i < u0.len() {
                assert(u0[i] == b);
            } else {
                assert(bound[bound.len() - 1] == b);
            }
        }
        if b == bound.last() && !(b.world == world && b.entity == entity) {
            assert(u1[u0.len() as int] == b);
        }
    }
}

// The render-side half.

/// One command of a recorded cull. Worlds are named by their place in the
/// camera's draw order.
#[derive(Clone, Copy, PartialEq, Eq, Structural, Debug)]
pub enum CullCommand {
    /// Reset a world's instance counts, candidate count and compacted draws.
    Reset { draw: usize },
    BindCull,
    /// Test a world's renderers; `occlusion` also against the pyramid.
    Cull { draw: usize, renderer_capacity: u32, occlusion: bool, groups: u32 },
    BindArgs,
    /// Turn a world's candidate count into the second pass's group counts.
    Args { draw: usize },
    BindRetest,
    /// Test a world's candidates again, as many as there are.
    Retest { draw: usize },
    BindCompact,
    /// Drop the slots that the cull left empty.
    Compact { draw: usize, slots: u32, groups: u32 },
}

/// The first pass over `draws`, stage by stage: every world's reset, then
/// every cull, then every args-builder, then every compaction. A world's own
/// stages depend on each other, and each barrier between stages drains the
/// whole GPU, so the stages are shared.
pub open spec fn cull_plan(draws: Seq<WorldDraw>, occlusion: bool) -> Seq<CullCommand> {
    Seq::new(draws.len(), |i: int| CullCommand::Reset { draw: i as usize }) + seq![
        CullCommand::BindCull,
    ] + Seq::new(
        draws.len(),
        |i: int|
            CullCommand::Cull {
                draw: i as usize,
                renderer_capacity: draws[i].cull_range as u32,
                occlusion,
                groups: groups(draws[i].cull_range as nat, 64) as u32,
            },
    ) + seq![CullCommand::BindArgs] + Seq::new(
        draws.len(),
        |i: int| CullCommand::Args { draw: i as usize },
    ) + seq![CullCommand::BindCompact] + compactions(draws)
}

/// The compaction stage.
pub open spec fn compactions(draws: Seq<WorldDraw>) -> Seq<CullCommand> {
    Seq::new(
        draws.len(),
        |i: int|
            CullCommand::Compact {
                draw: i as usize,
                slots: draws[i].slot_count as u32,
                groups: groups(draws[i].slot_count as nat, 64) as u32,
            },
    )
}

/// The second pass, in the same shape.
pub open spec fn retest_plan(draws: Seq<WorldDraw>) -> Seq<CullCommand> {
    Seq::new(draws.len(), |i: int| CullCommand::Reset { draw: i as usize }) + seq![
        CullCommand::BindRetest,
    ] + Seq::new(draws.len(), |i: int| CullCommand::Retest { draw: i as usize }) + seq![
        CullCommand::BindCompact,
    ] + compactions(draws)
}

/// The index of the first draw of `world`, or the number of draws.
pub open spec fn position(draws: Seq<WorldDraw>, world: WorldId, at: nat) -> nat
    decreases draws.len() - at,
{
    if at >= draws.len() {
        draws.len()
    } else if draws[at as int].world == world {
        at
    } else {
        position(draws, world, at + 1)
    }
}

/// `draws` without its first draw of `world`; the last one takes its place.
pub open spec fn without(draws: Seq<WorldDraw>, world: WorldId) -> Seq<WorldDraw> {
    let k = position(draws, world, 0);
    if k < draws.len() {
        draws.update(k as int, draws.last()).drop_last()
    } else {
        draws
    }
}

/// What is left of `old` once the first `n` sources have taken their draws.
pub open spec fn left(old: Seq<WorldDraw>, worlds: Seq<WorldSource>, n: nat) -> Seq<WorldDraw>
    decreases n,
{
    if n == 0 {
        old
    } else {
        without(left(old, worlds, (n - 1) as nat), worlds[n - 1].id)
    }
}

/// The draw whose buffers source `i` takes over, if there is one.
pub open spec fn predecessor(
    old: Seq<WorldDraw>,
    worlds: Seq<WorldSource>,
    i: nat,
) -> Option<WorldDraw> {
    let l = left(old, worlds, i);
    let k = position(l, worlds[i as int].id, 0);
    if k < l.len() {
        Some(l[k as int])
    } else {
        None
    }
}

/// The first source of `world`, from `at` on.
pub open spec fn source_of(worlds: Seq<WorldSource>, world: WorldId, at: nat) -> Option<int>
    decreases worlds.len() - at,
{
    if at >= worlds.len() {
        None
    } else if worlds[at as int].id == world {
        Some(at as int)
    } else {
        source_of(worlds, world, at + 1)
    }
}

/// The draw count of a camera's scene passes: every world's plan spans the
/// same mesh slots, so any world's will do.
pub open spec fn draw_count(worlds: Seq<WorldSource>) -> nat {
    if worlds.len() == 0 {
        1
    } else {
        worlds[0].plan.commands.len() as nat
    }
}

/// A camera as the renderer sees it.
pub struct RenderCamera {
    pub state: CameraHandle,
    pub resolution: CameraResolution,
    pub extent: [u32; 2],
    /// Level zero of both occlusion pyramids.
    pub hiz_mip0: [u32; 2],
    /// The worlds that this camera composites, in draw order.
    pub draws: Vec<WorldDraw>,
    /// Draw count baked into every world's scene passes.
    pub slot_count: usize,
    /// The slot that the host writes this frame.
    pub vp_write_slot: usize,
    pub view_proj_staging: [[u32; 16]; 2],
    pub eye_staging: [[u32; 3]; 2],
    pub cull_view_proj_staging: [[u32; 16]; 2],
    /// The cull frustum stays where it was while the camera moves on.
    pub cull_lock: bool,
    pub locked_view_proj: [u32; 16],
    /// The pyramids keep what they hold. One frame behind `cull_lock`, so that
    /// what they hold belongs to the locked frustum.
    pub hiz_frozen: bool,
    pub occlusion_enabled: bool,
}

/// An extent that the pyramid's rounding can take.
pub open spec fn sizable(e: (u32, u32)) -> bool {
    e.0 < u32::MAX && e.1 < u32::MAX
}

/// Counts that a recorded cull can push to its shaders.
pub open spec fn recordable(draws: Seq<WorldDraw>) -> bool {
    forall|i: int|
        0 <= i < draws.len() ==> (#[trigger] draws[i]).cull_range <= u32::MAX && draws[i].slot_count
            <= u32::MAX
}

impl RenderCamera {
    pub open spec fn wf(&self) -> bool {
        &&& self.hiz_mip0[0] == ceil_div(self.extent[0] as nat, 2)
        &&& self.hiz_mip0[1] == ceil_div(self.extent[1] as nat, 2)
        &&& self.vp_write_slot < STAGING_SLOTS
        &&& forall|i: int| 0 <= i < self.draws.len() ==> (#[trigger] self.draws[i]).wf()
    }

    /// The camera with the frustum lock set. The snapshot is taken as it
    /// engages, and not again while it holds.
    pub open spec fn locked(self, locked: bool, live: [u32; 16]) -> RenderCamera {
        RenderCamera {
            cull_lock: locked,
            locked_view_proj: if locked && !self.cull_lock {
                live
            } else {
                self.locked_view_proj
            },
            ..self
        }
    }

    /// The camera with the pyramids' freeze brought into line with the lock.
    pub open spec fn freeze_applied(self) -> RenderCamera {
        RenderCamera { hiz_frozen: self.cull_lock, ..self }
    }

    /// The matrix that the cull goes by.
    pub open spec fn cull_matrix(self, live: [u32; 16]) -> [u32; 16] {
        if self.cull_lock {
            self.locked_view_proj
        } else {
            live
        }
    }

    pub fn new(
        state: CameraHandle,
        resolution: CameraResolution,
        swapchain_extent: [u32; 2],
        worlds: &Vec<WorldSource>,
    ) -> (r: Self)
        requires
            sizable(resolution.resolved(swapchain_extent)),
        ensures
            r.wf(),
            r.state == state,
            r.resolution == resolution,
            (r.extent[0], r.extent[1]) == resolution.resolved(swapchain_extent),
            r.draws.len() == worlds.len(),
            forall|i: int|
                0 <= i < worlds.len() ==> (#[trigger] r.draws[i]).draws(None, worlds[i]),
            r.slot_count == draw_count(worlds@),
            r.vp_write_slot == 0,
            !r.cull_lock,
            r.locked_view_proj@ == Seq::new(16, |i: int| 0u32),
            !r.hiz_frozen,
            r.occlusion_enabled,
    {
        let extent: [u32; 2] = resolution.resolve(swapchain_extent);
        let mut draws: Vec<WorldDraw> = Vec::new();
        let mut i: usize = 0;
        while i < worlds.len()
            invariant
                i <= worlds.len(),
                draws.len() == i,
                forall|k: int| 0 <= k < i ==> (#[trigger] draws[k]).draws(None, worlds[k]),
                forall|k: int| 0 <= k < i ==> (#[trigger] draws[k]).wf(),
            decreases worlds.len() - i,
        {
            draws.push(WorldDraw::new(&worlds[i]));
            i = i + 1;
        }
        let locked_view_proj: [u32; 16] = [0; 16];
        assert(locked_view_proj@ =~= Seq::new(16, |i: int| 0u32));
        RenderCamera {
            state,
            resolution,
            extent,
            hiz_mip0: hiz_mip0_extent(extent),
            draws,
            slot_count: slot_count(worlds),
            vp_write_slot: 0,
            view_proj_staging: [[0; 16], [0; 16]],
            eye_staging: [[0; 3], [0; 3]],
            cull_view_proj_staging: [[0; 16], [0; 16]],
            cull_lock: false,
            locked_view_proj,
            hiz_frozen: false,
            occlusion_enabled: true,
        }
    }

    pub fn new_match_swapchain(
        state: CameraHandle,
        swapchain_extent: [u32; 2],
        worlds: &Vec<WorldSource>,
    ) -> (r: Self)
        requires
            sizable((swapchain_extent[0], swapchain_extent[1])),
        ensures
            r.wf(),
            r.state == state,
            r.resolution is MatchSwapchain,
            (r.extent[0], r.extent[1]) == (swapchain_extent[0], swapchain_extent[1]),
            r.draws.len() == worlds.len(),
            forall|i: int|
                0 <= i < worlds.len() ==> (#[trigger] r.draws[i]).draws(None, worlds[i]),
            r.slot_count == draw_count(worlds@),
            r.vp_write_slot == 0,
            !r.cull_lock,
            r.locked_view_proj@ == Seq::new(16, |i: int| 0u32),
            !r.hiz_frozen,
            r.occlusion_enabled,
    {
        RenderCamera::new(state, CameraResolution::MatchSwapchain, swapchain_extent, worlds)
    }

    /// This is `before`, resized to `e`. Whatever the pyramids held is gone,
    /// so a frozen snapshot falls back to live tracking.
    pub open spec fn resized_from(&self, before: RenderCamera, e: (u32, u32)) -> bool {
        if e == (before.extent[0], before.extent[1]) {
            *self == before
        } else {
            &&& (self.extent[0], self.extent[1]) == e
            &&& !self.hiz_frozen
            &&& *self == (RenderCamera {
                extent: self.extent,
                hiz_mip0: self.hiz_mip0,
                hiz_frozen: false,
                ..before
            })
        }
    }

    /// Re-create every extent-dependent resource at `new_extent`. Not when it
    /// is already that size, which is the steady state.
    fn resize(&mut self, new_extent: [u32; 2]) -> (r: bool)
        requires
            old(self).wf(),
            sizable((new_extent[0], new_extent[1])),
        ensures
            final(self).wf(),
            final(self).resized_from(*old(self), (new_extent[0], new_extent[1])),
            r == ((new_extent[0], new_extent[1]) != (old(self).extent[0], old(self).extent[1])),
    {
        if new_extent[0] == self.extent[0] && new_extent[1] == self.extent[1] {
            return false;
        }
        self.extent = new_extent;
        self.hiz_mip0 = hiz_mip0_extent(new_extent);
        self.hiz_frozen = false;
        true
    }

    /// The swapchain was resized. Whether anything was rebuilt: nothing for a
    /// camera that does not track it.
    pub fn on_swapchain_resize(&mut self, new_swapchain_extent: [u32; 2]) -> (r: bool)
        requires
            old(self).wf(),
            sizable((new_swapchain_extent[0], new_swapchain_extent[1])),
        ensures
            final(self).wf(),
            r == (old(self).resolution is MatchSwapchain && (
                new_swapchain_extent[0],
                new_swapchain_extent[1],
            ) != (old(self).extent[0], old(self).extent[1])),
            !(old(self).resolution is MatchSwapchain) ==> *final(self) == *old(self),
            old(self).resolution is MatchSwapchain ==> final(self).resized_from(
                *old(self),
                (new_swapchain_extent[0], new_swapchain_extent[1]),
            ),
    {
        if !self.resolution.depends_on_swapchain() {
            return false;
        }
        let new_extent: [u32; 2] = self.resolution.resolve(new_swapchain_extent);
        self.resize(new_extent)
    }

    /// Adopt a resolution policy. Whether the frame slots must be rebuilt:
    /// when the extent moved, and when who composites the camera changed.
    pub fn set_resolution(
        &mut self,
        resolution: CameraResolution,
        swapchain_extent: [u32; 2],
    ) -> (r: bool)
        requires
            old(self).wf(),
            sizable(resolution.resolved(swapchain_extent)),
        ensures
            final(self).wf(),
            final(self).resized_from(
                (RenderCamera { resolution, ..*old(self) }),
                resolution.resolved(swapchain_extent),
            ),
            r == (resolution.resolved(swapchain_extent) != (
                old(self).extent[0],
                old(self).extent[1],
            ) || (old(self).resolution is MatchSwapchain) != (resolution is MatchSwapchain)),
    {
        let was: bool = self.resolution.blits_to_swapchain();
        self.resolution = resolution;
        let extent: [u32; 2] = resolution.resolve(swapchain_extent);
        let resized: bool = self.resize(extent);
        resized || was != resolution.blits_to_swapchain()
    }

    /// Rebuild the draws for the current plans and world list. A world that is
    /// new to the list gets fresh buffers, one that is gone is dropped, and
    /// the others keep theirs, grown where they must be. The frame slots must
    /// always be rebuilt after.
    pub fn ensure_current(&mut self, worlds: &Vec<WorldSource>) -> (r: bool)
        requires
            old(self).wf(),
        ensures
            final(self).wf(),
            r,
            final(self).draws.len() == worlds.len(),
            forall|i: int|
                0 <= i < worlds.len() ==> (#[trigger] final(self).draws[i]).draws(
                    predecessor(old(self).draws@, worlds@, i as nat),
                    worlds[i],
                ),
            final(self).slot_count == draw_count(worlds@),
            *final(self) == (RenderCamera {
                draws: final(self).draws,
                slot_count: final(self).slot_count,
                ..*old(self)
            }),
    {
        let ghost before = *self;
        self.slot_count = slot_count(worlds);
        let mut old_draws: Vec<WorldDraw> = Vec::new();
        std::mem::swap(&mut self.draws, &mut old_draws);
        let mut draws: Vec<WorldDraw> = Vec::new();
        let mut i: usize = 0;
        while i < worlds.len()
            invariant
                i <= worlds.len(),
                draws.len() == i,
                old_draws@ == left(before.draws@, worlds@, i as nat),
                forall|k: int| 0 <= k < old_draws.len() ==> (#[trigger] old_draws[k]).wf(),
                forall|k: int| 0 <= k < i ==> (#[trigger] draws[k]).wf(),
                forall|k: int|
                    0 <= k < i ==> (#[trigger] draws[k]).draws(
                        predecessor(before.draws@, worlds@, k as nat),
                        worlds[k],
                    ),
            decreases worlds.len() - i,
        {
            let src: &WorldSource = &worlds[i];
            let k: usize = find_draw(&old_draws, src.id);
            if k < old_draws.len() {
                let ghost l = old_draws@;
                proof {
                    lemma_position(l, src.id, 0);
                    assert(old_draws[k as int].wf());
                }
                let mut draw: WorldDraw = old_draws.swap_remove(k);
                assert forall|m: int| 0 <= m < old_draws.len() implies (
                #[trigger] old_draws[m]).wf() by {
                    if m == k {
                        assert(l[l.len() - 1].wf());
                    } else {
                        assert(l[m].wf());
                    }
                }
                draw.rebuild(src);
                draws.push(draw);
            } else {
                draws.push(WorldDraw::new(src));
            }
            i = i + 1;
        }
        self.draws = draws;
        true
    }

    /// Whether the plans or the world list need a full rebuild, rather than a
    /// rewrite of the templates in place. `force` says that a buffer which the
    /// cull binds was reallocated.
    pub fn needs_structural_rebuild(&self, worlds: &Vec<WorldSource>, force: bool) -> (r: bool)
        ensures
            r == (force || worlds.len() != self.draws.len() || exists|i: int|
                0 <= i < worlds.len() && (self.draws[i].world != worlds[i].id || (
                #[trigger] self.draws[i]).is_outgrown(worlds[i]))),
    {
        if force || worlds.len() != self.draws.len() {
            return true;
        }
        let mut i: usize = 0;
        while i < worlds.len()
            invariant
                i <= worlds.len(),
                worlds.len() == self.draws.len(),
                !force,
                forall|k: int|
                    0 <= k < i ==> self.draws[k].world == worlds[k].id && !(
                    #[trigger] self.draws[k]).is_outgrown(worlds[k]),
            decreases worlds.len() - i,
        {
            if self.draws[i].world != worlds[i].id || self.draws[i].needs_rebuild(&worlds[i]) {
                assert(self.draws[i as int].world != worlds[i as int].id
                    || self.draws[i as int].is_outgrown(worlds[i as int]));
                return true;
            }
            i = i + 1;
        }
        false
    }

    /// Rewrite both passes' templates in place, for the worlds that are still
    /// there. The recorded commands stay valid: they bind the buffers.
    pub fn write_template_bases(&mut self, worlds: &Vec<WorldSource>)
        requires
            old(self).wf(),
            forall|i: int|
                #![trigger old(self).draws[i]]
                0 <= i < old(self).draws.len() ==> match source_of(
                    worlds@,
                    old(self).draws[i].world,
                    0,
                ) {
                    Some(s) => worlds[s].plan.commands.len() <= old(self).draws[i].pass1.slot_capacity
                        && worlds[s].plan.commands.len() <= old(self).draws[i].pass2.slot_capacity,
                    None => true,
                },
        ensures
            final(self).wf(),
            final(self).draws.len() == old(self).draws.len(),
            *final(self) == (RenderCamera { draws: final(self).draws, ..*old(self) }),
            forall|i: int|
                #![trigger final(self).draws[i]]
                0 <= i < old(self).draws.len() ==> rewritten(
                    old(self).draws[i],
                    final(self).draws[i],
                    worlds@,
                ),
    {
        let ghost before = *self;
        let mut i: usize = 0;
        let n: usize = self.draws.len();
        while i < n
            invariant
                i <= n,
                n == self.draws.len(),
                n == before.draws.len(),
                self.wf(),
                before.wf(),
                *self == (RenderCamera { draws: self.draws, ..before }),
                forall|k: int|
                    #![trigger before.draws[k]]
                    0 <= k < n ==> match source_of(worlds@, before.draws[k].world, 0) {
                        Some(s) => worlds[s].plan.commands.len()
                            <= before.draws[k].pass1.slot_capacity
                            && worlds[s].plan.commands.len() <= before.draws[k].pass2.slot_capacity,
                        None => true,
                    },
                forall|k: int|
                    #![trigger self.draws[k]]
                    0 <= k < i ==> rewritten(before.draws[k], self.draws[k], worlds@),
                forall|k: int|
                    #![trigger self.draws[k]]
                    i <= k < n ==> self.draws[k] == before.draws[k],
            decreases n - i,
        {
            let ghost draws0 = self.draws@;
            match find_source(worlds, self.draws[i].world) {
                Some(s) => {
                    assert(before.draws[i as int].wf());
                    write_indirect_template(
                        &mut self.draws[i].pass1.template,
                        &worlds[s].plan.commands,
                    );
                    write_indirect_template(
                        &mut self.draws[i].pass2.template,
                        &worlds[s].plan.commands,
                    );
                },
                None => {},
            }
            assert forall|k: int| 0 <= k < n && k != i implies #[trigger] self.draws[k]
                == draws0[k] by {}
            assert(self.draws[i as int].wf());
            assert(self.wf()) by {
                assert forall|k: int| 0 <= k < self.draws.len() implies (
                #[trigger] self.draws[k]).wf() by {
                    if k != i {
                        assert(draws0[k].wf());
                    }
                }
            }
            i = i + 1;
        }
    }

    /// Stage this frame's cull matrix: the live one, or the locked snapshot.
    pub fn write_cull_view_proj(&mut self, live_view_proj: [u32; 16])
        requires
            old(self).wf(),
        ensures
            final(self).wf(),
            final(self).cull_view_proj_staging@ == old(self).cull_view_proj_staging@.update(
                old(self).vp_write_slot as int,
                old(self).cull_matrix(live_view_proj),
            ),
            *final(self) == (RenderCamera {
                cull_view_proj_staging: final(self).cull_view_proj_staging,
                ..*old(self)
            }),
    {
        let vp: [u32; 16] = if self.cull_lock { self.locked_view_proj } else { live_view_proj };
        self.cull_view_proj_staging[self.vp_write_slot] = vp;
    }

    /// Stage this frame's camera block.
    pub fn write_view_proj(&mut self, view_proj: [u32; 16], eye: [u32; 3])
        requires
            old(self).wf(),
        ensures
            final(self).wf(),
            final(self).view_proj_staging@ == old(self).view_proj_staging@.update(
                old(self).vp_write_slot as int,
                view_proj,
            ),
            final(self).eye_staging@ == old(self).eye_staging@.update(
                old(self).vp_write_slot as int,
                eye,
            ),
            *final(self) == (RenderCamera {
                view_proj_staging: final(self).view_proj_staging,
                eye_staging: final(self).eye_staging,
                ..*old(self)
            }),
    {
        self.view_proj_staging[self.vp_write_slot] = view_proj;
        self.eye_staging[self.vp_write_slot] = eye;
    }

    /// This frame's grid and gizmo, for the staging slot that the host is
    /// writing. Waits as [`write_view_proj`](Self::write_view_proj) does.
    pub fn write_overlay(
        &self,
        cameras: &Cameras,
        overlays: &PublishedOverlays,
        view_proj: [u32; 16],
        eye: [u32; 3],
    ) -> (r: OverlayWrite)
        requires
            cameras.wf(),
            self.state.0 < cameras.all.len(),
        ensures
            r.shows(
                published(overlays.all@, self.state.0 as int),
                view_proj,
                eye,
                cameras.all[self.state.0 as int].grid,
            ),
    {
        let grid: Option<[u32; 4]> = self.state.grid(cameras);
        crate::overlay::write(overlays, self.state.slot(), view_proj, eye, grid)
    }

    /// Toggle the frustum lock. The snapshot is taken as it engages and not
    /// again while it holds.
    pub fn set_cull_lock(&mut self, locked: bool, live_view_proj: [u32; 16])
        ensures
            *final(self) == old(self).locked(locked, live_view_proj),
    {
        if locked && !self.cull_lock {
            self.locked_view_proj = live_view_proj;
        }
        self.cull_lock = locked;
    }

    pub fn cull_lock(&self) -> (r: bool)
        ensures
            r == self.cull_lock,
    {
        self.cull_lock
    }

    /// Bring the freeze into line with the lock. Once per frame, before that
    /// frame's own [`set_cull_lock`](Self::set_cull_lock), which is what keeps
    /// it one frame behind. Whether the frame slots must be rebuilt.
    pub fn apply_pending_hiz_freeze(&mut self) -> (r: bool)
        ensures
            r == (old(self).hiz_frozen != old(self).cull_lock),
            *final(self) == old(self).freeze_applied(),
    {
        if self.hiz_frozen == self.cull_lock {
            return false;
        }
        self.hiz_frozen = self.cull_lock;
        true
    }

    pub fn hiz_frozen(&self) -> (r: bool)
        ensures
            r == self.hiz_frozen,
    {
        self.hiz_frozen
    }

    /// Toggle occlusion culling. Whether the cull must be recorded again and
    /// the frame slots rebuilt.
    pub fn set_occlusion_enabled(&mut self, enabled: bool) -> (r: bool)
        ensures
            r == (enabled != old(self).occlusion_enabled),
            *final(self) == (RenderCamera { occlusion_enabled: enabled, ..*old(self) }),
    {
        if enabled == self.occlusion_enabled {
            return false;
        }
        self.occlusion_enabled = enabled;
        true
    }

    pub fn occlusion_enabled(&self) -> (r: bool)
        ensures
            r == self.occlusion_enabled,
    {
        self.occlusion_enabled
    }

    /// The host half.
    pub fn state(&self) -> (r: CameraHandle)
        ensures
            r == self.state,
    {
        self.state
    }

    pub fn extent(&self) -> (r: [u32; 2])
        ensures
            r == self.extent,
    {
        self.extent
    }

    pub fn resolution(&self) -> (r: CameraResolution)
        ensures
            r == self.resolution,
    {
        self.resolution
    }

    /// Flip to the other staging slot.
    pub fn advance_staging_slot(&mut self)
        requires
            old(self).wf(),
        ensures
            final(self).wf(),
            *final(self) == (RenderCamera {
                vp_write_slot: ((old(self).vp_write_slot + 1) % 2) as usize,
                ..*old(self)
            }),
    {
        self.vp_write_slot = (self.vp_write_slot + 1) % STAGING_SLOTS;
    }

    /// The first cull pass, for every world at once.
    pub fn record_cull(&self) -> (r: Vec<CullCommand>)
        requires
            recordable(self.draws@),
        ensures
            r@ == cull_plan(self.draws@, self.occlusion_enabled),
            r.len() == 4 * self.draws.len() + 3,
            forall|i: int|
                #![trigger self.draws[i]]
                0 <= i < self.draws.len() ==> {
                    let n = self.draws.len() as int;
                    let cull = r[n + 1 + i];
                    let compact = r[3 * n + 3 + i];
                    &&& r[i] == (CullCommand::Reset { draw: i as usize })
                    &&& cull is Cull
                    &&& cull->Cull_draw == i
                    &&& cull->renderer_capacity == self.draws[i].cull_range
                    &&& cull->occlusion == self.occlusion_enabled
                    &&& self.draws[i].cull_range <= cull->Cull_groups * 64
                    &&& r[2 * n + 2 + i] == (CullCommand::Args { draw: i as usize })
                    &&& compact is Compact
                    &&& compact->Compact_draw == i
                    &&& compact->slots == self.draws[i].slot_count
                    &&& self.draws[i].slot_count <= compact->Compact_groups * 64
                },
            forall|i: int, j: int|
                #![trigger self.draws[i], r[j]]
                0 <= i < self.draws.len() && 0 <= j < r.len() ==> {
                    let n = self.draws.len() as int;
                    &&& r[j] is Compact && r[j]->Compact_draw == i ==> j == 3 * n + 3 + i
                    &&& r[j] is Cull && r[j]->Cull_draw == i ==> j == n + 1 + i
                    &&& r[j] is Args && r[j]->Args_draw == i ==> j == 2 * n + 2 + i
                    &&& r[j] is Reset && r[j]->Reset_draw == i ==> j == i
                },
    {
        let mut plan: Vec<CullCommand> = Vec::new();
        push_resets(&mut plan, self.draws.len());
        plan.push(CullCommand::BindCull);
        let ghost head = plan@;
        let ghost stage = Seq::new(
            self.draws@.len(),
            |i: int|
                CullCommand::Cull {
                    draw: i as usize,
                    renderer_capacity: self.draws@[i].cull_range as u32,
                    occlusion: self.occlusion_enabled,
                    groups: groups(self.draws@[i].cull_range as nat, 64) as u32,
                },
        );
        let mut i: usize = 0;
        assert(plan@ =~= head + stage.take(0));
        while i < self.draws.len()
            invariant
                i <= self.draws.len(),
                recordable(self.draws@),
                plan@ == head + stage.take(i as int),
                stage == Seq::new(
                    self.draws@.len(),
                    |i: int|
                        CullCommand::Cull {
                            draw: i as usize,
                            renderer_capacity: self.draws@[i].cull_range as u32,
                            occlusion: self.occlusion_enabled,
                            groups: groups(self.draws@[i].cull_range as nat, 64) as u32,
                        },
                ),
            decreases self.draws.len() - i,
        {
            assert(self.draws[i as int].cull_range <= u32::MAX);
            let range: u32 = self.draws[i].cull_range as u32;
            plan.push(
                CullCommand::Cull {
                    draw: i,
                    renderer_capacity: range,
                    occlusion: self.occlusion_enabled,
                    groups: group_count(range, CULL_WORKGROUP_SIZE),
                },
            );
            i = i + 1;
            assert(plan@ =~= head + stage.take(i as int));
        }
        assert(stage.take(i as int) =~= stage);
        plan.push(CullCommand::BindArgs);
        let ghost head = plan@;
        let ghost stage = Seq::new(self.draws@.len(), |i: int| CullCommand::Args {
            draw: i as usize,
        });
        let mut i: usize = 0;
        assert(plan@ =~= head + stage.take(0));
        while i < self.draws.len()
            invariant
                i <= self.draws.len(),
                plan@ == head + stage.take(i as int),
                stage == Seq::new(
                    self.draws@.len(),
                    |i: int| CullCommand::Args { draw: i as usize },
                ),
            decreases self.draws.len() - i,
        {
            plan.push(CullCommand::Args { draw: i });
            i = i + 1;
            assert(plan@ =~= head + stage.take(i as int));
        }
        assert(stage.take(i as int) =~= stage);
        plan.push(CullCommand::BindCompact);
        push_compactions(&mut plan, &self.draws);
        assert(plan@ =~= cull_plan(self.draws@, self.occlusion_enabled));
        proof {
            assert forall|i: int|
                #![trigger self.draws[i]]
                0 <= i < self.draws.len() implies {
                let n = self.draws.len() as int;
                let cull = plan[n + 1 + i];
                let compact = plan[3 * n + 3 + i];
                &&& plan[i] == (CullCommand::Reset { draw: i as usize })
                &&& cull is Cull
                &&& cull->Cull_draw == i
                &&& cull->renderer_capacity == self.draws[i].cull_range
                &&& cull->occlusion == self.occlusion_enabled
                &&& self.draws[i].cull_range <= cull->Cull_groups * 64
                &&& plan[2 * n + 2 + i] == (CullCommand::Args { draw: i as usize })
                &&& compact is Compact
                &&& compact->Compact_draw == i
                &&& compact->slots == self.draws[i].slot_count
                &&& self.draws[i].slot_count <= compact->Compact_groups * 64
            } by {
                first_pass_covers_every_world(self.draws@, self.occlusion_enabled, i, 0);
            }
            assert forall|i: int, j: int|
                #![trigger self.draws[i], plan[j]]
                0 <= i < self.draws.len() && 0 <= j < plan.len() implies {
                let n = self.draws.len() as int;
                &&& plan[j] is Compact && plan[j]->Compact_draw == i ==> j == 3 * n + 3 + i
                &&& plan[j] is Cull && plan[j]->Cull_draw == i ==> j == n + 1 + i
                &&& plan[j] is Args && plan[j]->Args_draw == i ==> j == 2 * n + 2 + i
                &&& plan[j] is Reset && plan[j]->Reset_draw == i ==> j == i
            } by {
                first_pass_covers_every_world(self.draws@, self.occlusion_enabled, i, j);
            }
        }
        plan
    }

    /// The second cull pass, for every world at once.
    pub fn record_cull_pass2(&self) -> (r: Vec<CullCommand>)
        requires
            recordable(self.draws@),
        ensures
            r@ == retest_plan(self.draws@),
            r.len() == 3 * self.draws.len() + 2,
            forall|i: int|
                #![trigger self.draws[i]]
                0 <= i < self.draws.len() ==> {
                    let n = self.draws.len() as int;
                    let compact = r[2 * n + 2 + i];
                    &&& r[i] == (CullCommand::Reset { draw: i as usize })
                    &&& r[n + 1 + i] == (CullCommand::Retest { draw: i as usize })
                    &&& compact is Compact
                    &&& compact->Compact_draw == i
                    &&& compact->slots == self.draws[i].slot_count
                    &&& self.draws[i].slot_count <= compact->Compact_groups * 64
                },
            forall|i: int, j: int|
                #![trigger self.draws[i], r[j]]
                0 <= i < self.draws.len() && 0 <= j < r.len() ==> {
                    let n = self.draws.len() as int;
                    &&& r[j] is Compact && r[j]->Compact_draw == i ==> j == 2 * n + 2 + i
                    &&& r[j] is Retest && r[j]->Retest_draw == i ==> j == n + 1 + i
                    &&& r[j] is Reset && r[j]->Reset_draw == i ==> j == i
                },
    {
        let mut plan: Vec<CullCommand> = Vec::new();
        push_resets(&mut plan, self.draws.len());
        plan.push(CullCommand::BindRetest);
        let ghost head = plan@;
        let ghost stage = Seq::new(self.draws@.len(), |i: int| CullCommand::Retest {
            draw: i as usize,
        });
        let mut i: usize = 0;
        assert(plan@ =~= head + stage.take(0));
        while i < self.draws.len()
            invariant
                i <= self.draws.len(),
                plan@ == head + stage.take(i as int),
                stage == Seq::new(
                    self.draws@.len(),
                    |i: int| CullCommand::Retest { draw: i as usize },
                ),
            decreases self.draws.len() - i,
        {
            plan.push(CullCommand::Retest { draw: i });
            i = i + 1;
            assert(plan@ =~= head + stage.take(i as int));
        }
        assert(stage.take(i as int) =~= stage);
        plan.push(CullCommand::BindCompact);
        push_compactions(&mut plan, &self.draws);
        assert(plan@ =~= retest_plan(self.draws@));
        proof {
            assert forall|i: int|
                #![trigger self.draws[i]]
                0 <= i < self.draws.len() implies {
                let n = self.draws.len() as int;
                let compact = plan[2 * n + 2 + i];
                &&& plan[i] == (CullCommand::Reset { draw: i as usize })
                &&& plan[n + 1 + i] == (CullCommand::Retest { draw: i as usize })
                &&& compact is Compact
                &&& compact->Compact_draw == i
                &&& compact->slots == self.draws[i].slot_count
                &&& self.draws[i].slot_count <= compact->Compact_groups * 64
            } by {
                second_pass_covers_every_world(self.draws@, i, 0);
            }
            assert forall|i: int, j: int|
                #![trigger self.draws[i], plan[j]]
                0 <= i < self.draws.len() && 0 <= j < plan.len() implies {
                let n = self.draws.len() as int;
                &&& plan[j] is Compact && plan[j]->Compact_draw == i ==> j == 2 * n + 2 + i
                &&& plan[j] is Retest && plan[j]->Retest_draw == i ==> j == n + 1 + i
                &&& plan[j] is Reset && plan[j]->Reset_draw == i ==> j == i
            } by {
                second_pass_covers_every_world(self.draws@, i, j);
            }
        }
        plan
    }

    /// The largest draw count of a scene pass's one indirect draw; none when
    /// there is nothing to draw.
    pub fn scene_draw(&self) -> (r: Option<u32>)
        requires
            self.slot_count <= u32::MAX,
        ensures
            r == if self.slot_count > 0 {
                Some(self.slot_count as u32)
            } else {
                None
            },
    {
        if self.slot_count > 0 {
            Some(self.slot_count as u32)
        } else {
            None
        }
    }
}

/// `after` is `before` with both templates rewritten for its source, if it has
/// one.
pub open spec fn rewritten(
    before: WorldDraw,
    after: WorldDraw,
    worlds: Seq<WorldSource>,
) -> bool {
    match source_of(worlds, before.world, 0) {
        Some(s) => {
            &&& is_template(after.pass1.template@, worlds[s].plan.commands@)
            &&& is_template(after.pass2.template@, worlds[s].plan.commands@)
            &&& after.pass1.mvp_capacity == before.pass1.mvp_capacity
            &&& after.pass2.mvp_capacity == before.pass2.mvp_capacity
            &&& after.pass1.slot_capacity == before.pass1.slot_capacity
            &&& after.pass2.slot_capacity == before.pass2.slot_capacity
            &&& after == (WorldDraw { pass1: after.pass1, pass2: after.pass2, ..before })
        },
        None => after == before,
    }
}

/// [`draw_count`].
pub fn slot_count(worlds: &Vec<WorldSource>) -> (r: usize)
    ensures
        r == draw_count(worlds@),
{
    if worlds.len() == 0 {
        1
    } else {
        worlds[0].plan.commands.len()
    }
}

proof fn lemma_position(draws: Seq<WorldDraw>, world: WorldId, at: nat)
    requires
        at <= draws.len(),
    ensures
        at <= position(draws, world, at) <= draws.len(),
        position(draws, world, at) < draws.len() ==> draws[position(
            draws,
            world,
            at,
        ) as int].world == world,
        forall|i: int| at <= i < position(draws, world, at) ==> draws[i].world != world,
    decreases draws.len() - at,
{
    if at < draws.len() && draws[at as int].world != world {
        lemma_position(draws, world, at + 1);
    }
}

fn find_draw(draws: &Vec<WorldDraw>, world: WorldId) -> (r: usize)
    ensures
        r == position(draws@, world, 0),
        r <= draws.len(),
{
    let mut i: usize = 0;
    while i < draws.len() && draws[i].world != world
        invariant
            i <= draws.len(),
            position(draws@, world, 0) == position(draws@, world, i as nat),
        decreases draws.len() - i,
    {
        i = i + 1;
    }
    i
}

fn find_source(worlds: &Vec<WorldSource>, world: WorldId) -> (r: Option<usize>)
    ensures
        match (r, source_of(worlds@, world, 0)) {
            (Some(a), Some(b)) => a == b && a < worlds.len() && worlds[a as int].id == world,
            (None, None) => true,
            _ => false,
        },
{
    let mut i: usize = 0;
    while i < worlds.len()
        invariant
            i <= worlds.len(),
            source_of(worlds@, world, 0) == source_of(worlds@, world, i as nat),
        decreases worlds.len() - i,
    {
        if worlds[i].id == world {
            return Some(i);
        }
        i = i + 1;
    }
    None
}

fn push_resets(plan: &mut Vec<CullCommand>, n: usize)
    ensures
        final(plan)@ == old(plan)@ + Seq::new(
            n as nat,
            |i: int| CullCommand::Reset { draw: i as usize },
        ),
{
    let ghost head = plan@;
    let ghost stage = Seq::new(n as nat, |i: int| CullCommand::Reset { draw: i as usize });
    let mut i: usize = 0;
    assert(plan@ =~= head + stage.take(0));
    while i < n
        invariant
            i <= n,
            plan@ == head + stage.take(i as int),
            stage == Seq::new(n as nat, |i: int| CullCommand::Reset { draw: i as usize }),
        decreases n - i,
    {
        plan.push(CullCommand::Reset { draw: i });
        i = i + 1;
        assert(plan@ =~= head + stage.take(i as int));
    }
    assert(stage.take(i as int) =~= stage);
}

fn push_compactions(plan: &mut Vec<CullCommand>, draws: &Vec<WorldDraw>)
    requires
        recordable(draws@),
    ensures
        final(plan)@ == old(plan)@ + compactions(draws@),
{
    let ghost head = plan@;
    let ghost stage = compactions(draws@);
    let mut i: usize = 0;
    assert(plan@ =~= head + stage.take(0));
    while i < draws.len()
        invariant
            i <= draws.len(),
            recordable(draws@),
            plan@ == head + stage.take(i as int),
            stage == compactions(draws@),
        decreases draws.len() - i,
    {
        assert(draws[i as int].slot_count <= u32::MAX);
        let slots: u32 = draws[i].slot_count as u32;
        plan.push(
            CullCommand::Compact { draw: i, slots, groups: group_count(slots, CULL_WORKGROUP_SIZE) },
        );
        i = i + 1;
        assert(plan@ =~= head + stage.take(i as int));
    }
    assert(stage.take(i as int) =~= stage);
}

/// The stage that a command belongs to.
pub open spec fn stage(c: CullCommand) -> int {
    match c {
        CullCommand::Reset { .. } => 0,
        CullCommand::BindCull => 1,
        CullCommand::Cull { .. } => 2,
        CullCommand::BindRetest => 1,
        CullCommand::Retest { .. } => 2,
        CullCommand::BindArgs => 3,
        CullCommand::Args { .. } => 4,
        CullCommand::BindCompact => 5,
        CullCommand::Compact { .. } => 6,
    }
}

/// Both passes are stage-major: no world's stage starts before every world's
/// previous stage is recorded, so a camera pays for the barriers once and not
/// once per world.
pub proof fn culls_are_stage_major(draws: Seq<WorldDraw>, occlusion: bool, i: int, j: int)
    ensures
        0 <= i <= j < cull_plan(draws, occlusion).len() ==> stage(cull_plan(draws, occlusion)[i])
            <= stage(cull_plan(draws, occlusion)[j]),
        0 <= i <= j < retest_plan(draws).len() ==> stage(retest_plan(draws)[i]) <= stage(
            retest_plan(draws)[j],
        ),
        cull_plan(draws, occlusion).len() == 4 * draws.len() + 3,
        retest_plan(draws).len() == 3 * draws.len() + 2,
{
}

/// The lock's snapshot is what the camera saw as it engaged, however far the
/// camera moves on, and the pyramids freeze one frame later and not before.
/// Each frame applies the pending freeze first and toggles the lock after.
pub proof fn lock_freezes_a_frame_late(c: RenderCamera, seen: [u32; 16], later: [u32; 16])
    requires
        !c.cull_lock,
    ensures
        ({
            let engaged = c.freeze_applied().locked(true, seen);
            let next = engaged.freeze_applied();
            let held = next.locked(true, later);
            let released = held.locked(false, later);
            &&& !engaged.hiz_frozen
            &&& engaged.cull_matrix(later) == seen
            &&& next.hiz_frozen
            &&& held.cull_matrix(later) == seen
            &&& released.hiz_frozen
            &&& released.cull_matrix(later) == later
            &&& !released.freeze_applied().hiz_frozen
        }),
{
}

/// Taking a draw out leaves every other one in.
proof fn lemma_without(draws: Seq<WorldDraw>, world: WorldId, j: int)
    requires
        0 <= j < draws.len(),
        draws[j].world != world,
    ensures
        without(draws, world).contains(draws[j]),
{
    lemma_position(draws, world, 0);
    let k = position(draws, world, 0);
    let w = without(draws, world);
    if k < draws.len() {
        if j == draws.len() - 1 {
            assert(w[k as int] == draws[j]);
        } else {
            assert(w[j] == draws[j]);
        }
    } else {
        assert(w[j] == draws[j]);
    }
}

proof fn lemma_left_keeps(
    old: Seq<WorldDraw>,
    worlds: Seq<WorldSource>,
    n: nat,
    j: int,
)
    requires
        n <= worlds.len(),
        0 <= j < old.len(),
        forall|i: int| 0 <= i < n ==> (#[trigger] worlds[i]).id != old[j].world,
    ensures
        left(old, worlds, n).contains(old[j]),
    decreases n,
{
    if n > 0 {
        lemma_left_keeps(old, worlds, (n - 1) as nat, j);
        let l = left(old, worlds, (n - 1) as nat);
        let k = choose|k: int| 0 <= k < l.len() && l[k] == old[j];
        assert(worlds[n - 1].id != old[j].world);
        lemma_without(l, worlds[n - 1].id, k);
    }
}

proof fn lemma_left_from_old(old: Seq<WorldDraw>, worlds: Seq<WorldSource>, n: nat, k: int)
    requires
        0 <= k < left(old, worlds, n).len(),
        n <= worlds.len(),
    ensures
        old.contains(left(old, worlds, n)[k]),
    decreases n,
{
    if n > 0 {
        let l = left(old, worlds, (n - 1) as nat);
        let w = left(old, worlds, n);
        lemma_position(l, worlds[n - 1].id, 0);
        let p = position(l, worlds[n - 1].id, 0);
        if p < l.len() {
            if k == p {
                lemma_left_from_old(old, worlds, (n - 1) as nat, l.len() - 1);
            } else {
                lemma_left_from_old(old, worlds, (n - 1) as nat, k);
            }
        } else {
            lemma_left_from_old(old, worlds, (n - 1) as nat, k);
        }
    }
}

/// A rebuild keeps the buffers of every world that the camera still draws: as
/// long as no world is listed twice, a source takes over exactly the draw that
/// its world had, wherever in the order it stood, and none if it had none.
pub proof fn rebuild_keeps_each_worlds_buffers(
    old: Seq<WorldDraw>,
    worlds: Seq<WorldSource>,
    i: int,
)
    requires
        0 <= i < worlds.len(),
        forall|a: int, b: int| 0 <= a < b < old.len() ==> old[a].world != old[b].world,
        forall|a: int, b: int| 0 <= a < b < worlds.len() ==> worlds[a].id != worlds[b].id,
    ensures
        forall|j: int|
            0 <= j < old.len() && (#[trigger] old[j]).world == worlds[i].id ==> predecessor(
                old,
                worlds,
                i as nat,
            ) == Some(old[j]),
        (forall|j: int| 0 <= j < old.len() ==> (#[trigger] old[j]).world != worlds[i].id)
            ==> predecessor(old, worlds, i as nat) is None,
{
    let l = left(old, worlds, i as nat);
    let id = worlds[i].id;
    lemma_position(l, id, 0);
    let p = position(l, id, 0);
    if p < l.len() {
        lemma_left_from_old(old, worlds, i as nat, p as int);
    }
    assert forall|j: int|
        0 <= j < old.len() && (#[trigger] old[j]).world == id implies predecessor(
        old,
        worlds,
        i as nat,
    ) == Some(old[j]) by {
        lemma_left_keeps(old, worlds, i as nat, j);
        let k = choose|k: int| 0 <= k < l.len() && l[k] == old[j];
        assert(p <= k);
        let m = choose|m: int| 0 <= m < old.len() && old[m] == l[p as int];
        assert(old[m].world == id);
        assert(m == j);
    }
}

/// The first pass tests every world's renderers once: the whole range that the
/// world's cull covers, in enough workgroups and not one too many, and against
/// the pyramid exactly if occlusion culling is on. Every world's counts are
/// reset before, its candidates counted after, and every live command slot of
/// it compacted at the end, once.
pub proof fn first_pass_covers_every_world(
    draws: Seq<WorldDraw>,
    occlusion: bool,
    i: int,
    j: int,
)
    requires
        draws.len() <= usize::MAX,
        0 <= i < draws.len(),
        draws[i].cull_range <= u32::MAX,
        draws[i].slot_count <= u32::MAX,
    ensures
        ({
            let n = draws.len() as int;
            let p = cull_plan(draws, occlusion);
            let reset = p[i];
            let cull = p[n + 1 + i];
            let args = p[2 * n + 2 + i];
            let compact = p[3 * n + 3 + i];
            &&& p.len() == 4 * n + 3
            &&& reset == (CullCommand::Reset { draw: i as usize })
            &&& p[n] is BindCull
            &&& cull is Cull
            &&& cull->Cull_draw == i
            &&& cull->renderer_capacity == draws[i].cull_range
            &&& cull->occlusion == occlusion
            &&& draws[i].cull_range <= cull->Cull_groups * 64
            &&& cull->Cull_groups >= 1
            &&& cull->Cull_groups > 1 ==> (cull->Cull_groups - 1) * 64 < draws[i].cull_range
            &&& p[2 * n + 1] is BindArgs
            &&& args == (CullCommand::Args { draw: i as usize })
            &&& p[3 * n + 2] is BindCompact
            &&& compact is Compact
            &&& compact->Compact_draw == i
            &&& compact->slots == draws[i].slot_count
            &&& draws[i].slot_count <= compact->Compact_groups * 64
            &&& compact->Compact_groups >= 1
            &&& compact->Compact_groups > 1 ==> (compact->Compact_groups - 1) * 64
                < draws[i].slot_count
            &&& 0 <= j < p.len() && p[j] is Compact && p[j]->Compact_draw == i ==> j == 3 * n + 3
                + i
            &&& 0 <= j < p.len() && p[j] is Cull && p[j]->Cull_draw == i ==> j == n + 1 + i
            &&& 0 <= j < p.len() && p[j] is Args && p[j]->Args_draw == i ==> j == 2 * n + 2 + i
            &&& 0 <= j < p.len() && p[j] is Reset && p[j]->Reset_draw == i ==> j == i
            &&& 0 <= j < p.len() ==> !(p[j] is Retest) && !(p[j] is BindRetest)
        }),
{
    let n = draws.len() as int;
    let p = cull_plan(draws, occlusion);
    lemma_groups_fit(draws[i].cull_range as nat);
    lemma_groups_fit(draws[i].slot_count as nat);
    if 0 <= j < p.len() {
        if j < n {
            assert(p[j] == (CullCommand::Reset { draw: j as usize }));
        } else if n < j <= 2 * n {
            assert(p[j] is Cull && p[j]->Cull_draw == (j - n - 1) as usize);
        } else if 2 * n + 1 < j <= 3 * n + 1 {
            assert(p[j] is Args && p[j]->Args_draw == (j - 2 * n - 2) as usize);
        } else if 3 * n + 2 < j {
            assert(p[j] is Compact && p[j]->Compact_draw == (j - 3 * n - 3) as usize);
        }
    }
}

/// The second pass tests every world's candidates once more, and compacts
/// every live command slot of it, once, as the first does.
pub proof fn second_pass_covers_every_world(draws: Seq<WorldDraw>, i: int, j: int)
    requires
        draws.len() <= usize::MAX,
        0 <= i < draws.len(),
        draws[i].slot_count <= u32::MAX,
    ensures
        ({
            let n = draws.len() as int;
            let p = retest_plan(draws);
            let compact = p[2 * n + 2 + i];
            &&& p.len() == 3 * n + 2
            &&& p[i] == (CullCommand::Reset { draw: i as usize })
            &&& p[n] is BindRetest
            &&& p[n + 1 + i] == (CullCommand::Retest { draw: i as usize })
            &&& p[2 * n + 1] is BindCompact
            &&& compact is Compact
            &&& compact->Compact_draw == i
            &&& compact->slots == draws[i].slot_count
            &&& draws[i].slot_count <= compact->Compact_groups * 64
            &&& compact->Compact_groups >= 1
            &&& compact->Compact_groups > 1 ==> (compact->Compact_groups - 1) * 64
                < draws[i].slot_count
            &&& 0 <= j < p.len() && p[j] is Compact && p[j]->Compact_draw == i ==> j == 2 * n + 2
                + i
            &&& 0 <= j < p.len() && p[j] is Retest && p[j]->Retest_draw == i ==> j == n + 1 + i
            &&& 0 <= j < p.len() && p[j] is Reset && p[j]->Reset_draw == i ==> j == i
            &&& 0 <= j < p.len() ==> !(p[j] is Cull) && !(p[j] is BindCull)
        }),
{
    let n = draws.len() as int;
    let p = retest_plan(draws);
    lemma_groups_fit(draws[i].slot_count as nat);
    if 0 <= j < p.len() {
        if j < n {
            assert(p[j] == (CullCommand::Reset { draw: j as usize }));
        } else if n < j <= 2 * n {
            assert(p[j] is Retest && p[j]->Retest_draw == (j - n - 1) as usize);
        } else if 2 * n + 1 < j {
            assert(p[j] is Compact && p[j]->Compact_draw == (j - 2 * n - 2) as usize);
        }
    }
}

proof fn lemma_groups_fit(n: nat)
    requires
        n <= u32::MAX,
    ensures
        groups(n, 64) <= u32::MAX,
        groups(n, 64) >= 1,
        n <= groups(n, 64) * 64,
        groups(n, 64) > 1 ==> (groups(n, 64) - 1) * 64 < n,
{
    lemma_ceil_div(n, 64);
}

/// The bound cameras that are driven are exactly those of live worlds.
pub proof fn driving_is_exact(bound: Seq<Binding>, live: Seq<WorldId>, b: Binding)
    ensures
        alive(bound, live).contains(b) <==> bound.contains(b) && live.contains(b.world),
        alive(bound, live).len() <= bound.len(),
    decreases bound.len(),
{
    if bound.len() > 0 {
        let rest = bound.drop_last();
        driving_is_exact(rest, live, b);
        let a0 = alive(rest, live);
        let a1 = alive(bound, live);
        assert(bound =~= rest.push(bound.last()));
        if bound.contains(b) {
            let i = choose|i: int| 0 <= i < bound.len() && bound[i] == b;
            if i < rest.len() {
                assert(rest[i] == b);
            }
        }
        if rest.contains(b) {
            let i = choose|i: int| 0 <= i < rest.len() && rest[i] == b;
            assert(bound[i] == b);
        }
        if a0.contains(b) {
            let i = choose|i: int| 0 <= i < a0.len() && a0[i] == b;
            assert(a1[i] == b);
        }
        if a1.contains(b) {
            let i = choose|i: int| 0 <= i < a1.len() && a1[i] == b;
            if i < a0.len() {
                assert(a0[i] == b);
            } else {
                assert(bound[bound.len() - 1] == b);
            }
        }
        if b == bound.last() && live.contains(b.world) {
            assert(a1[a0.len() as int] == b);
        }
    }
}

/// A panel answers for its near corner and for everything up to its far edges,
/// which are not its own: on each axis a point before the origin, or at or
/// past the far edge, is outside.
pub proof fn panels_own_their_near_edges(b: PanelBox, p: [u32; 2])
    ensures
        lt(p[0], b.origin[0]) || lt(p[1], b.origin[1]) ==> !shows(Some(b), p),
        le(b.far[0], p[0]) || le(b.far[1], p[1]) ==> !shows(Some(b), p),
        p[0] == b.origin[0] && p[1] == b.origin[1] && lt(b.origin[0], b.far[0]) && lt(
            b.origin[1],
            b.far[1],
        ) ==> shows(Some(b), p),
        lt(b.origin[0], p[0]) && lt(p[0], b.far[0]) && lt(b.origin[1], p[1]) && lt(p[1], b.far[1])
            ==> shows(Some(b), p),
        is_nan(p[0]) || is_nan(p[1]) ==> !shows(Some(b), p),
        shows(None, p),
{
}

/// A panel is open exactly while it is both wide and high.
pub proof fn open_panels_have_area(b: PanelBox)
    ensures
        b.is_open() ==> 0 < b.size[0] <= 0x7f80_0000 && 0 < b.size[1] <= 0x7f80_0000,
        0 < b.size[0] <= 0x7f80_0000 && 0 < b.size[1] <= 0x7f80_0000 ==> b.is_open(),
{
}

/// A camera that matches the swapchain is as large as it is; any other is as
/// large as its own box, and one pixel where that has no size.
pub proof fn resolutions_are_never_empty(e: [u32; 2], swapchain_extent: [u32; 2])
    ensures
        CameraResolution::MatchSwapchain.resolved(swapchain_extent).0 == swapchain_extent[0],
        CameraResolution::MatchSwapchain.resolved(swapchain_extent).1 == swapchain_extent[1],
        e[0] > 0 ==> CameraResolution::Fixed(e).resolved(swapchain_extent).0 == e[0],
        e[1] > 0 ==> CameraResolution::Fixed(e).resolved(swapchain_extent).1 == e[1],
        e[0] == 0 ==> CameraResolution::Fixed(e).resolved(swapchain_extent).0 == 1,
        e[1] == 0 ==> CameraResolution::Fixed(e).resolved(swapchain_extent).1 == 1,
{
}

/// Resizing to another extent takes it over, halves it for the pyramids,
/// rounding up, and lets go of a frozen snapshot. Nothing else of the camera
/// changes, and nothing at all if the extent is the one it has.
pub proof fn resizing_keeps_everything_else(
    before: RenderCamera,
    after: RenderCamera,
    e: (u32, u32),
)
    requires
        before.wf(),
        after.wf(),
        after.resized_from(before, e),
    ensures
        after.extent[0] == e.0 && after.extent[1] == e.1,
        e.0 <= 2 * after.hiz_mip0[0] <= e.0 + 1,
        e.1 <= 2 * after.hiz_mip0[1] <= e.1 + 1,
        e != (before.extent[0], before.extent[1]) ==> !after.hiz_frozen,
        e == (before.extent[0], before.extent[1]) ==> after.hiz_frozen == before.hiz_frozen,
        after.state == before.state,
        after.resolution == before.resolution,
        after.draws == before.draws,
        after.slot_count == before.slot_count,
        after.vp_write_slot == before.vp_write_slot,
        after.view_proj_staging == before.view_proj_staging,
        after.eye_staging == before.eye_staging,
        after.cull_view_proj_staging == before.cull_view_proj_staging,
        after.cull_lock == before.cull_lock,
        after.locked_view_proj == before.locked_view_proj,
        after.occlusion_enabled == before.occlusion_enabled,
{
}

/// The scene passes draw as many commands as any world's plan has.
pub proof fn draw_counts_are_the_plans(worlds: Seq<WorldSource>)
    ensures
        worlds.len() > 0 ==> draw_count(worlds) == worlds[0].plan.commands.len(),
        worlds.len() == 0 ==> draw_count(worlds) == 1,
{
}

/// Rewriting the templates in place gives each world's draw the commands of
/// that world's own plan, in both passes, zeroes what is past them, and leaves
/// every buffer, count and world as it was. A world that is gone keeps all.
pub proof fn rewriting_follows_the_world(
    before: WorldDraw,
    after: WorldDraw,
    worlds: Seq<WorldSource>,
    i: int,
    s: int,
)
    requires
        rewritten(before, after, worlds),
        0 <= i < worlds.len(),
        forall|k: int| 0 <= k < worlds.len() && k != i ==> (#[trigger] worlds[k]).id
            != before.world,
    ensures
        worlds[i].id == before.world && 0 <= s < worlds[i].plan.commands.len()
            ==> after.pass1.template@[s] == worlds[i].plan.commands[s]
            && after.pass2.template@[s] == worlds[i].plan.commands[s],
        worlds[i].id == before.world && worlds[i].plan.commands.len() <= s
            < after.pass1.template.len() ==> after.pass1.template@[s].index_count == 0
            && after.pass1.template@[s].instance_count == 0,
        worlds[i].id == before.world && worlds[i].plan.commands.len() <= s
            < after.pass2.template.len() ==> after.pass2.template@[s].index_count == 0
            && after.pass2.template@[s].instance_count == 0,
        worlds[i].id != before.world ==> after == before,
        after.world == before.world,
        after.slot_count == before.slot_count,
        after.cull_range == before.cull_range,
        after.candidate_capacity == before.candidate_capacity,
        after.pass1.mvp_capacity == before.pass1.mvp_capacity,
        after.pass2.mvp_capacity == before.pass2.mvp_capacity,
        after.pass1.slot_capacity == before.pass1.slot_capacity,
        after.pass2.slot_capacity == before.pass2.slot_capacity,
{
    lemma_source_of(worlds, before.world, 0);
}

proof fn lemma_source_of(worlds: Seq<WorldSource>, world: WorldId, at: nat)
    ensures
        match source_of(worlds, world, at) {
            Some(s) => at <= s < worlds.len() && worlds[s].id == world && forall|k: int|
                at <= k < s ==> (#[trigger] worlds[k]).id != world,
            None => forall|k: int| at <= k < worlds.len() ==> (#[trigger] worlds[k]).id != world,
        },
    decreases worlds.len() - at,
{
    if at < worlds.len() && worlds[at as int].id != world {
        lemma_source_of(worlds, world, at + 1);
    }
}

/// The lock takes the matrix as it engages and keeps it as it is released; the
/// cull goes by it exactly while the lock holds. Neither the lock nor the
/// freeze touches anything else.
pub proof fn locks_touch_only_the_lock(
    c: RenderCamera,
    locked: bool,
    live: [u32; 16],
)
    ensures
        ({
            let n = c.locked(locked, live);
            let f = c.freeze_applied();
            &&& n.cull_lock == locked
            &&& locked && !c.cull_lock ==> n.locked_view_proj == live
            &&& !locked || c.cull_lock ==> n.locked_view_proj == c.locked_view_proj
            &&& n == (RenderCamera {
                cull_lock: n.cull_lock,
                locked_view_proj: n.locked_view_proj,
                ..c
            })
            &&& f.hiz_frozen == c.cull_lock
            &&& f == (RenderCamera { hiz_frozen: f.hiz_frozen, ..c })
            &&& c.cull_lock ==> c.cull_matrix(live) == c.locked_view_proj
            &&& !c.cull_lock ==> c.cull_matrix(live) == live
        }),
{
}

/// Changing one camera leaves every other one, and every binding, as it was.
pub proof fn cameras_change_one_at_a_time(before: Cameras, after: Cameras, slot: int, i: int)
    requires
        changed_only(before, after, slot),
    ensures
        after.all.len() == before.all.len(),
        0 <= i < before.all.len() && i != slot ==> after.all[i] == before.all[i],
        after.bound == before.bound,
{
}

} // verus!
