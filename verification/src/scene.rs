//! Scene components of the renderer: the camera that an entity drives, and the
//! decisions of the orbit controller.

use crate::camera::{unbound, Binding, CameraHandle, Cameras, MAX_CAMERAS};
use crate::draw::WorldId;
use crate::order::{is_nan, key};
use vstd::prelude::*;

verus! {

/// A perspective camera, driven by the entity it is attached to. Parameters
/// are bit patterns.
pub struct CameraComponent {
    pub fov_y_radians: u32,
    pub z_near: u32,
    pub z_far: u32,
    /// Minted as the component is attached.
    pub camera: Option<CameraHandle>,
}

impl CameraComponent {
    /// Sixty degrees, a tenth to ten thousand.
    pub fn new() -> (r: Self)
        ensures
            r == (CameraComponent {
                fov_y_radians: 0x3f86_0a92,
                z_near: 0x3dcc_cccd,
                z_far: 0x461c_4000,
                camera: None,
            }),
    {
        CameraComponent {
            fov_y_radians: 0x3f86_0a92,
            z_near: 0x3dcc_cccd,
            z_far: 0x461c_4000,
            camera: None,
        }
    }

    /// The camera this drives, once it has been attached to something.
    pub fn camera(&self) -> (r: Option<CameraHandle>)
        ensures
            r == self.camera,
    {
        self.camera
    }

    /// Attached to `entity` of `world`: mint a camera that draws the world and
    /// takes its pose from the entity.
    pub fn init(&mut self, cameras: &mut Cameras, world: WorldId, entity: u32)
        requires
            old(cameras).wf(),
            old(cameras).all.len() < MAX_CAMERAS,
        ensures
            final(cameras).wf(),
            final(self).camera == Some(CameraHandle(old(cameras).all.len())),
            *final(self) == (CameraComponent { camera: final(self).camera, ..*old(self) }),
            final(cameras).all.len() == old(cameras).all.len() + 1,
            ({
                let slot = old(cameras).all.len();
                let c = final(cameras).all[slot as int];
                &&& c.worlds@ == seq![world]
                &&& c.rect is None
                &&& c.grid is None
                &&& c.eye@ == seq![0u32, 0u32, 0u32]
                &&& forall|k: int|
                    0 <= k < 16 ==> #[trigger] c.view_proj[k] == if k % 5 == 0 {
                        0x3f80_0000u32
                    } else {
                        0
                    }
                &&& c.proj.fov_y_radians == old(self).fov_y_radians
                &&& c.proj.z_near == old(self).z_near
                &&& c.proj.z_far == old(self).z_far
                &&& c.proj.aspect == 0x3f80_0000
                &&& final(cameras).bound@ == old(cameras).bound@.push(
                    Binding { world, entity, slot },
                )
            }),
            forall|i: int|
                0 <= i < old(cameras).all.len() ==> final(cameras).all[i] == old(cameras).all[i],
    {
        let camera = CameraHandle::new(cameras, world);
        camera.set_projection(cameras, self.fov_y_radians, self.z_near, self.z_far);
        cameras.bind(world, entity, camera);
        self.camera = Some(camera);
    }

    /// Detached: the camera holds its last matrix.
    pub fn deinit(&self, cameras: &mut Cameras, world: WorldId, entity: u32)
        requires
            old(cameras).wf(),
        ensures
            final(cameras).wf(),
            final(cameras).all == old(cameras).all,
            final(cameras).bound@ == unbound(old(cameras).bound@, world, entity),
    {
        cameras.unbind(world, entity);
    }
}

/// What a drag does to the view.
#[derive(Clone, Copy, PartialEq, Eq, Structural, Debug)]
pub enum OrbitMotion {
    Still,
    Orbit,
    Pan,
}

/// What the orbit controller does in a frame.
#[derive(Clone, Copy, PartialEq, Eq, Structural, Debug)]
pub struct OrbitStep {
    pub motion: OrbitMotion,
    pub zoom: bool,
    /// The camera whose matrix to write, if the controller drives one.
    pub drives: Option<CameraHandle>,
}

/// The pointer, as the orbit controller looks at it.
#[derive(Clone, Copy)]
pub struct OrbitPointer {
    pub left_pressed: bool,
    pub right_pressed: bool,
    pub left_down: bool,
    pub right_down: bool,
    /// The scrolling of this frame, as a bit pattern.
    pub scroll: u32,
    /// The interface has taken the pointer.
    pub ui_has_it: bool,
    /// The gizmo has.
    pub gizmo_has_it: bool,
    /// The cursor is over the camera's panel.
    pub over_panel: bool,
}

/// The gesture state of an orbit controller.
pub struct OrbitController {
    /// Whether the button now down was pressed over this camera's panel. A
    /// gesture belongs to where it began, so a drag that leaves the panel keeps
    /// orbiting.
    pub dragging: bool,
    /// The camera whose panel bounds the gestures.
    pub camera: Option<CameraHandle>,
    /// Whether this writes the camera's matrix itself. Beside a
    /// [`CameraComponent`] it must not.
    pub drives: bool,
}

/// Whether the pointer is this camera's: the interface has the first refusal,
/// and a camera shown in one panel must not answer a drag in another.
pub open spec fn is_mine(camera: Option<CameraHandle>, p: OrbitPointer) -> bool {
    !p.ui_has_it && (camera is None || p.over_panel)
}

/// Whether a drag is on, after this frame's presses. Only a press asks the
/// gizmo: the wheel still zooms with the cursor over a handle.
pub open spec fn is_dragging(before: bool, mine: bool, p: OrbitPointer) -> bool {
    if p.left_pressed || p.right_pressed {
        mine && !p.gizmo_has_it
    } else {
        before
    }
}

impl OrbitController {
    pub fn new() -> (r: Self)
        ensures
            r == (OrbitController { dragging: false, camera: None, drives: false }),
    {
        OrbitController { dragging: false, camera: None, drives: false }
    }

    /// One that drives `camera` itself.
    pub fn for_camera(camera: CameraHandle) -> (r: Self)
        ensures
            r == (OrbitController { dragging: false, camera: Some(camera), drives: true }),
    {
        OrbitController { dragging: false, camera: Some(camera), drives: true }
    }

    /// Adopt the camera of a [`CameraComponent`] on the same entity, unless
    /// there is a camera already.
    pub fn adopt(&mut self, beside: Option<CameraHandle>)
        ensures
            *final(self) == (OrbitController {
                camera: if old(self).camera is None {
                    beside
                } else {
                    old(self).camera
                },
                ..*old(self)
            }),
    {
        if self.camera.is_none() {
            self.camera = beside;
        }
    }

    /// What this frame's input does.
    pub fn update(&mut self, p: OrbitPointer) -> (r: OrbitStep)
        ensures
            ({
                let mine = is_mine(old(self).camera, p);
                let dragging = is_dragging(old(self).dragging, mine, p);
                &&& *final(self) == (OrbitController { dragging, ..*old(self) })
                &&& r == (OrbitStep {
                    motion: if !dragging {
                        OrbitMotion::Still
                    } else if p.left_down {
                        OrbitMotion::Orbit
                    } else if p.right_down {
                        OrbitMotion::Pan
                    } else {
                        OrbitMotion::Still
                    },
                    zoom: mine && (is_nan(p.scroll) || key(p.scroll) != 0),
                    drives: if old(self).drives {
                        old(self).camera
                    } else {
                        None
                    },
                })
            }),
    {
        let mine: bool = !p.ui_has_it && (self.camera.is_none() || p.over_panel);
        if p.left_pressed {
            self.dragging = mine && !p.gizmo_has_it;
        }
        if p.right_pressed {
            self.dragging = mine && !p.gizmo_has_it;
        }
        let motion: OrbitMotion = if !self.dragging {
            OrbitMotion::Still
        } else if p.left_down {
            OrbitMotion::Orbit
        } else if p.right_down {
            OrbitMotion::Pan
        } else {
            OrbitMotion::Still
        };
        let still: bool = p.scroll == 0 || p.scroll == 0x8000_0000;
        let drives: Option<CameraHandle> = if self.drives { self.camera } else { None };
        OrbitStep { motion, zoom: mine && !still, drives }
    }
}

/// A press that the interface, the gizmo or another panel has taken never
/// starts a drag.
pub proof fn taken_presses_never_drag(camera: Option<CameraHandle>, before: bool, p: OrbitPointer)
    requires
        p.left_pressed || p.right_pressed,
        p.ui_has_it || p.gizmo_has_it || (camera is Some && !p.over_panel),
    ensures
        !is_dragging(before, is_mine(camera, p), p),
{
}

/// A press over its own panel that nobody else took starts a drag, and the
/// drag lasts until the next press; the pointer is the camera's as long as the
/// interface leaves it alone, over its panel if it has one.
pub proof fn free_presses_drag(camera: Option<CameraHandle>, before: bool, p: OrbitPointer)
    ensures
        p.ui_has_it ==> !is_mine(camera, p),
        !p.ui_has_it && camera is None ==> is_mine(camera, p),
        !p.ui_has_it && camera is Some ==> is_mine(camera, p) == p.over_panel,
        (p.left_pressed || p.right_pressed) && !p.ui_has_it && !p.gizmo_has_it && p.over_panel
            ==> is_dragging(before, is_mine(camera, p), p),
        !p.left_pressed && !p.right_pressed ==> is_dragging(before, is_mine(camera, p), p)
            == before,
{
}

} // verus!
