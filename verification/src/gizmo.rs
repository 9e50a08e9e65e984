//! The gizmo: which handle is under the cursor, which camera a drag belongs
//! to, what a drag does, and the shapes that show it.
//!
//! Driven once per frame, after the pointer has moved and before any component
//! runs, so that whether the gizmo owns the pointer is settled before anyone
//! asks. Distances are bit patterns of single-precision numbers.

use crate::camera::{CameraHandle, MAX_CAMERAS};
use crate::draw::WorldId;
use crate::order::{at_most, le, less, lt, total_key, total_less};
use crate::overlay::VERTEX_CAPACITY;
use vstd::prelude::*;

verus! {

/// What a drag does to the transform under the gizmo.
#[derive(Clone, Copy, PartialEq, Eq, Structural, Debug)]
pub enum GizmoMode {
    Translate,
    Rotate,
    Scale,
}

/// Which handle: one of the three axes, one of the three planes (named by the
/// axis they are normal to), or the uniform centre.
#[derive(Clone, Copy, PartialEq, Eq, Structural, Debug)]
pub enum Handle {
    Axis(usize),
    Plane(usize),
    Uniform,
}

/// How close the cursor has to be to a handle's projection: nine pixels.
pub const PICK_PX: u32 = 0x4110_0000;

/// Where a plane handle starts and ends along its axes, as a share of the
/// gizmo: a quarter and eleven twentieths.
pub const PLANE_NEAR: u32 = 0x3e80_0000;

pub const PLANE_FAR: u32 = 0x3f0c_cccd;

/// Chords per ring.
pub const RING_SEGMENTS: u32 = 32;

/// The entity that a camera's gizmo acts on.
#[derive(Clone, Copy, PartialEq, Eq, Structural, Debug)]
pub struct Target {
    pub world: WorldId,
    pub entity: u32,
}

/// A gesture in flight: where it began, and what it holds.
#[derive(Clone, Copy, PartialEq, Eq, Structural, Debug)]
pub struct Drag {
    pub camera_slot: usize,
    pub handle: Handle,
}

/// The gizmo's state: the target of every camera slot, the mode's number,
/// whether it owns the pointer, and the drag.
pub struct Gizmo {
    pub targets: Vec<Option<Target>>,
    pub mode: u8,
    pub captured: bool,
    pub drag: Option<Drag>,
}

/// The mode that a number stands for.
pub open spec fn mode_of(n: u8) -> GizmoMode {
    if n == 1 {
        GizmoMode::Rotate
    } else if n == 2 {
        GizmoMode::Scale
    } else {
        GizmoMode::Translate
    }
}

impl Gizmo {
    pub open spec fn wf(&self) -> bool {
        &&& self.targets.len() == 0 || self.targets.len() == MAX_CAMERAS
        &&& self.drag is Some ==> self.drag->0.camera_slot < MAX_CAMERAS
    }

    pub fn new() -> (r: Self)
        ensures
            r.wf(),
            r.targets@.len() == 0,
            mode_of(r.mode) == GizmoMode::Translate,
            !r.captured,
            r.drag is None,
    {
        Gizmo { targets: Vec::new(), mode: 0, captured: false, drag: None }
    }

    /// Aim a camera's gizmo at `entity` in `world`, or at nothing.
    pub fn set_target(&mut self, camera: &CameraHandle, world: WorldId, entity: Option<u32>)
        requires
            old(self).wf(),
            camera.0 < MAX_CAMERAS,
        ensures
            final(self).wf(),
            final(self).targets.len() == MAX_CAMERAS,
            final(self).targets[camera.0 as int] == match entity {
                Some(e) => Some(Target { world, entity: e }),
                None => None,
            },
            forall|s: int|
                0 <= s < MAX_CAMERAS && s != camera.0 ==> #[trigger] final(self).targets[s]
                    == if old(self).targets.len() == 0 {
                    None
                } else {
                    old(self).targets[s]
                },
            *final(self) == (Gizmo { targets: final(self).targets, ..*old(self) }),
    {
        let ghost before = *self;
        if self.targets.len() == 0 {
            while self.targets.len() < MAX_CAMERAS
                invariant
                    self.targets.len() <= MAX_CAMERAS,
                    forall|s: int| 0 <= s < self.targets.len() ==> self.targets[s] is None,
                    *self == (Gizmo { targets: self.targets, ..before }),
                decreases MAX_CAMERAS - self.targets.len(),
            {
                self.targets.push(None);
            }
        }
        let target: Option<Target> = match entity {
            Some(e) => Some(Target { world, entity: e }),
            None => None,
        };
        self.targets.set(camera.slot(), target);
    }
}

pub fn mode(gizmo: &Gizmo) -> (r: GizmoMode)
    ensures
        r == mode_of(gizmo.mode),
{
    match gizmo.mode {
        1 => GizmoMode::Rotate,
        2 => GizmoMode::Scale,
        _ => GizmoMode::Translate,
    }
}

pub fn set_mode(gizmo: &mut Gizmo, mode: GizmoMode)
    ensures
        mode_of(final(gizmo).mode) == mode,
        *final(gizmo) == (Gizmo { mode: final(gizmo).mode, ..*old(gizmo) }),
{
    gizmo.mode = match mode {
        GizmoMode::Translate => 0,
        GizmoMode::Rotate => 1,
        GizmoMode::Scale => 2,
    };
}

/// Whether the gizmo owns the pointer: hovering a handle or mid-drag. What
/// keeps grabbing an arrow from also spinning the camera.
pub fn captures_pointer(gizmo: &Gizmo) -> (r: bool)
    ensures
        r == gizmo.captured,
{
    gizmo.captured
}

/// What one frame shows of a camera slot.
#[derive(Clone, Copy)]
pub struct SlotView {
    /// The slot has a camera.
    pub camera: bool,
    /// The target's world and transform still exist.
    pub alive: bool,
    /// The panel has a box.
    pub open: bool,
    /// The camera's matrix can be inverted, so the cursor has a ray.
    pub ray: bool,
    /// The cursor is over the panel.
    pub over: bool,
    /// The handle under the cursor, by [`pick`].
    pub picked: Option<Handle>,
}

/// What to do to the target this frame.
#[derive(Clone, Copy, PartialEq, Eq, Structural, Debug)]
pub enum Gesture {
    Nothing,
    /// Take the anchors of this handle.
    Begin(Handle),
    /// Write the transform, from the anchors taken at the press.
    Follow(Handle),
}

/// What to do for a camera slot this frame.
#[derive(Clone, Copy, PartialEq, Eq, Structural, Debug)]
pub enum SlotAction {
    /// There is no such camera.
    Leave,
    /// Show no gizmo.
    Hide,
    /// Show it, with a handle highlighted.
    Show { hovered: Option<Handle>, gesture: Gesture },
}

/// The pointer this frame.
#[derive(Clone, Copy)]
pub struct Pointer {
    pub left_down: bool,
    pub left_pressed: bool,
    /// The interface has taken it.
    pub ui_has_it: bool,
}

/// The handle that a slot holds or hovers. A drag belongs to the camera it
/// began in, so a second one neither steals it nor answers to it.
pub open spec fn hovered(slot: int, view: SlotView, pointer: Pointer, drag: Option<Drag>) -> Option<
    Handle,
> {
    match drag {
        Some(d) => if d.camera_slot == slot {
            Some(d.handle)
        } else {
            None
        },
        None => if view.ray && !pointer.ui_has_it && view.over {
            view.picked
        } else {
            None
        },
    }
}

/// What happens to a slot, with the drag as the slots before it left it.
pub open spec fn slot_action(
    slot: int,
    target: Option<Target>,
    view: SlotView,
    pointer: Pointer,
    drag: Option<Drag>,
) -> SlotAction {
    if !view.camera {
        SlotAction::Leave
    } else if target is None || !view.alive || !view.open {
        SlotAction::Hide
    } else {
        let h = hovered(slot, view, pointer, drag);
        let gesture = match drag {
            Some(d) => if d.camera_slot == slot && view.ray {
                Gesture::Follow(d.handle)
            } else {
                Gesture::Nothing
            },
            None => if h is Some && pointer.left_pressed {
                Gesture::Begin(h->0)
            } else {
                Gesture::Nothing
            },
        };
        SlotAction::Show { hovered: h, gesture }
    }
}

/// The drag after a slot's action.
pub open spec fn drag_after(slot: int, action: SlotAction, drag: Option<Drag>) -> Option<Drag> {
    match action {
        SlotAction::Show { gesture: Gesture::Begin(h), .. } => Some(
            Drag { camera_slot: slot as usize, handle: h },
        ),
        _ => drag,
    }
}

/// The drag once the first `n` slots have acted.
pub open spec fn drag_at(
    targets: Seq<Option<Target>>,
    views: Seq<SlotView>,
    pointer: Pointer,
    drag: Option<Drag>,
    n: nat,
) -> Option<Drag>
    decreases n,
{
    if n == 0 {
        drag
    } else {
        let before = drag_at(targets, views, pointer, drag, (n - 1) as nat);
        drag_after(
            n - 1,
            slot_action(n - 1, targets[n - 1], views[n - 1], pointer, before),
            before,
        )
    }
}

/// What slot `i` does in a frame.
pub open spec fn action_at(
    targets: Seq<Option<Target>>,
    views: Seq<SlotView>,
    pointer: Pointer,
    drag: Option<Drag>,
    i: nat,
) -> SlotAction {
    slot_action(
        i as int,
        targets[i as int],
        views[i as int],
        pointer,
        drag_at(targets, views, pointer, drag, i),
    )
}

/// The drag that a frame starts with: letting go ends it.
pub open spec fn held(drag: Option<Drag>, pointer: Pointer) -> Option<Drag> {
    if pointer.left_down {
        drag
    } else {
        None
    }
}

/// A slot that shows a highlighted handle.
pub open spec fn highlights(action: SlotAction) -> bool {
    match action {
        SlotAction::Show { hovered, .. } => hovered is Some,
        _ => false,
    }
}

fn act(
    slot: usize,
    target: Option<Target>,
    view: SlotView,
    pointer: Pointer,
    drag: Option<Drag>,
) -> (r: SlotAction)
    ensures
        r == slot_action(slot as int, target, view, pointer, drag),
{
    if !view.camera {
        return SlotAction::Leave;
    }
    if target.is_none() || !view.alive || !view.open {
        return SlotAction::Hide;
    }
    match drag {
        Some(d) => {
            if d.camera_slot != slot {
                return SlotAction::Show { hovered: None, gesture: Gesture::Nothing };
            }
            let gesture: Gesture = if view.ray {
                Gesture::Follow(d.handle)
            } else {
                Gesture::Nothing
            };
            SlotAction::Show { hovered: Some(d.handle), gesture }
        },
        None => {
            let h: Option<Handle> = if view.ray && !pointer.ui_has_it && view.over {
                view.picked
            } else {
                None
            };
            let gesture: Gesture = match h {
                Some(handle) => if pointer.left_pressed {
                    Gesture::Begin(handle)
                } else {
                    Gesture::Nothing
                },
                None => Gesture::Nothing,
            };
            SlotAction::Show { hovered: h, gesture }
        },
    }
}

/// Hit-test and drag every camera's gizmo; one action per slot. Until a target
/// was ever set there is nothing to do and nothing changes.
pub fn update(gizmo: &mut Gizmo, views: &Vec<SlotView>, pointer: Pointer) -> (r: Vec<SlotAction>)
    requires
        old(gizmo).wf(),
        views.len() == MAX_CAMERAS,
    ensures
        final(gizmo).wf(),
        old(gizmo).targets.len() == 0 ==> r.len() == 0 && *final(gizmo) == *old(gizmo),
        old(gizmo).targets.len() > 0 ==> {
            let drag = held(old(gizmo).drag, pointer);
            let targets = old(gizmo).targets@;
            &&& r.len() == targets.len()
            &&& forall|i: int|
                0 <= i < r.len() ==> #[trigger] r[i] == action_at(
                    targets,
                    views@,
                    pointer,
                    drag,
                    i as nat,
                )
            &&& final(gizmo).drag == drag_at(targets, views@, pointer, drag, targets.len())
            &&& final(gizmo).captured == (drag is Some || exists|i: int|
                0 <= i < r.len() && highlights(#[trigger] r[i]))
            &&& final(gizmo).targets == old(gizmo).targets
            &&& final(gizmo).mode == old(gizmo).mode
        },
{
    let mut r: Vec<SlotAction> = Vec::new();
    if gizmo.targets.len() == 0 {
        return r;
    }
    let ghost before = *gizmo;
    let ghost targets = gizmo.targets@;
    let ghost start = held(before.drag, pointer);
    let mut drag: Option<Drag> = if pointer.left_down { gizmo.drag } else { None };
    let mut captured: bool = drag.is_some();
    let mut i: usize = 0;
    while i < gizmo.targets.len()
        invariant
            i <= gizmo.targets.len(),
            *gizmo == before,
            before.wf(),
            targets == before.targets@,
            targets.len() == MAX_CAMERAS,
            views.len() == MAX_CAMERAS,
            r.len() == i,
            drag == drag_at(targets, views@, pointer, start, i as nat),
            drag is Some ==> drag->0.camera_slot < MAX_CAMERAS,
            forall|k: int|
                0 <= k < i ==> #[trigger] r[k] == action_at(
                    targets,
                    views@,
                    pointer,
                    start,
                    k as nat,
                ),
            captured == (start is Some || exists|k: int|
                0 <= k < i && highlights(#[trigger] r[k])),
        decreases gizmo.targets.len() - i,
    {
        let action: SlotAction = act(i, gizmo.targets[i], views[i], pointer, drag);
        let ghost r0 = r@;
        let ghost captured0 = captured;
        match action {
            SlotAction::Show { hovered, gesture } => {
                if hovered.is_some() {
                    captured = true;
                }
                match gesture {
                    Gesture::Begin(h) => {
                        drag = Some(Drag { camera_slot: i, handle: h });
                    },
                    _ => {},
                }
            },
            _ => {},
        }
        r.push(action);
        proof {
            assert(r[i as int] == action);
            assert forall|k: int| 0 <= k < i implies #[trigger] r[k] == r0[k] by {}
            if captured0 && start is None {
                let k = choose|k: int| 0 <= k < i && highlights(#[trigger] r0[k]);
                assert(highlights(r[k]));
            }
            if exists|k: int| 0 <= k < i + 1 && highlights(#[trigger] r[k]) {
                let k = choose|k: int| 0 <= k < i + 1 && highlights(#[trigger] r[k]);
                if k < i {
                    assert(highlights(r0[k]));
                }
            }
        }
        i = i + 1;
    }
    gizmo.drag = drag;
    gizmo.captured = captured;
    r
}

/// How far the cursor is from each part of the gizmo.
#[derive(Clone, Copy)]
pub struct Reach {
    /// From each ring.
    pub rings: [u32; 3],
    /// From the centre, if it is in front of the eye.
    pub center: Option<u32>,
    /// Where the ray meets each plane, in the plane's own axes and the
    /// gizmo's size, if it does.
    pub planes: [Option<[u32; 2]>; 3],
    /// From each axis, if both its ends are in front of the eye.
    pub axes: [Option<u32>; 3],
}

/// A distance that is close enough.
pub open spec fn near(d: Option<u32>) -> bool {
    d is Some && lt(d->0, PICK_PX)
}

/// `i` is the closest of three that are close enough, and of equally close
/// ones the first.
pub open spec fn is_nearest(d: Seq<Option<u32>>, i: int) -> bool {
    &&& 0 <= i < 3
    &&& near(d[i])
    &&& forall|j: int|
        0 <= j < 3 && near(#[trigger] d[j]) ==> total_key(d[i]->0) <= total_key(d[j]->0)
    &&& forall|j: int|
        0 <= j < i && near(#[trigger] d[j]) ==> total_key(d[i]->0) < total_key(d[j]->0)
}

/// Within a plane handle.
pub open spec fn on_plane(hit: Option<[u32; 2]>) -> bool {
    match hit {
        Some(h) => le(PLANE_NEAR, h[0]) && lt(h[0], PLANE_FAR) && le(PLANE_NEAR, h[1]) && lt(
            h[1],
            PLANE_FAR,
        ),
        None => false,
    }
}

/// `r` is the closest axis, or nothing when none is close enough.
pub open spec fn is_nearest_axis(d: Seq<Option<u32>>, r: Option<Handle>) -> bool {
    match r {
        None => forall|j: int| 0 <= j < 3 ==> !near(#[trigger] d[j]),
        Some(Handle::Axis(i)) => is_nearest(d, i as int),
        Some(_) => false,
    }
}

fn close(d: Option<u32>) -> (r: bool)
    ensures
        r == near(d),
{
    match d {
        Some(d) => less(d, PICK_PX),
        None => false,
    }
}

fn nearest_axis(d: &[Option<u32>; 3]) -> (r: Option<Handle>)
    ensures
        is_nearest_axis(d@, r),
{
    let mut best: Option<usize> = None;
    let mut i: usize = 0;
    while i < 3
        invariant
            i <= 3,
            best is None ==> forall|j: int| 0 <= j < i ==> !near(#[trigger] d@[j]),
            best is Some ==> {
                &&& best->0 < i
                &&& near(d@[best->0 as int])
                &&& forall|j: int|
                    0 <= j < i && near(#[trigger] d@[j]) ==> total_key(d@[best->0 as int]->0)
                        <= total_key(d@[j]->0)
                &&& forall|j: int|
                    0 <= j < best->0 && near(#[trigger] d@[j]) ==> total_key(
                        d@[best->0 as int]->0,
                    ) < total_key(d@[j]->0)
            },
        decreases 3 - i,
    {
        if close(d[i]) {
            match best {
                None => {
                    best = Some(i);
                },
                Some(b) => {
                    let a: u32 = match d[i] {
                        Some(x) => x,
                        None => 0,
                    };
                    let c: u32 = match d[b] {
                        Some(x) => x,
                        None => 0,
                    };
                    if total_less(a, c) {
                        best = Some(i);
                    }
                },
            }
        }
        i = i + 1;
    }
    match best {
        Some(b) => Some(Handle::Axis(b)),
        None => None,
    }
}

fn plane_hit(hit: Option<[u32; 2]>) -> (r: bool)
    ensures
        r == on_plane(hit),
{
    match hit {
        Some(h) => at_most(PLANE_NEAR, h[0]) && less(h[0], PLANE_FAR) && at_most(PLANE_NEAR, h[1])
            && less(h[1], PLANE_FAR),
        None => false,
    }
}

/// The handle under the cursor, most specific first: a plane sits between two
/// axes and would otherwise never win.
pub fn pick(mode: GizmoMode, reach: &Reach) -> (r: Option<Handle>)
    ensures
        match mode {
            GizmoMode::Rotate => is_nearest_axis(
                seq![Some(reach.rings[0]), Some(reach.rings[1]), Some(reach.rings[2])],
                r,
            ),
            GizmoMode::Scale => if near(reach.center) {
                r == Some(Handle::Uniform)
            } else {
                is_nearest_axis(reach.axes@, r)
            },
            GizmoMode::Translate => if on_plane(reach.planes[0]) {
                r == Some(Handle::Plane(0))
            } else if on_plane(reach.planes[1]) {
                r == Some(Handle::Plane(1))
            } else if on_plane(reach.planes[2]) {
                r == Some(Handle::Plane(2))
            } else {
                is_nearest_axis(reach.axes@, r)
            },
        },
{
    match mode {
        GizmoMode::Rotate => {
            let rings: [Option<u32>; 3] = [
                Some(reach.rings[0]),
                Some(reach.rings[1]),
                Some(reach.rings[2]),
            ];
            assert(rings@ =~= seq![
                Some(reach.rings[0]),
                Some(reach.rings[1]),
                Some(reach.rings[2]),
            ]);
            nearest_axis(&rings)
        },
        GizmoMode::Scale => {
            if close(reach.center) {
                return Some(Handle::Uniform);
            }
            nearest_axis(&reach.axes)
        },
        GizmoMode::Translate => {
            if plane_hit(reach.planes[0]) {
                return Some(Handle::Plane(0));
            }
            if plane_hit(reach.planes[1]) {
                return Some(Handle::Plane(1));
            }
            if plane_hit(reach.planes[2]) {
                return Some(Handle::Plane(2));
            }
            nearest_axis(&reach.axes)
        },
    }
}

/// What a drag of a handle does.
#[derive(Clone, Copy, PartialEq, Eq, Structural, Debug)]
pub enum Motion {
    MoveAlong(usize),
    MoveIn(usize),
    TurnAround(usize),
    ScaleAlong(usize),
    ScaleAll,
    Nothing,
}

/// What dragging `handle` does in `mode`. A handle of another mode, kept by
/// switching modes mid-drag, does nothing.
pub fn apply(mode: GizmoMode, handle: Handle) -> (r: Motion)
    ensures
        r == match (mode, handle) {
            (GizmoMode::Translate, Handle::Axis(i)) => Motion::MoveAlong(i),
            (GizmoMode::Translate, Handle::Plane(i)) => Motion::MoveIn(i),
            (GizmoMode::Rotate, Handle::Axis(i)) => Motion::TurnAround(i),
            (GizmoMode::Scale, Handle::Axis(i)) => Motion::ScaleAlong(i),
            (GizmoMode::Scale, Handle::Uniform) => Motion::ScaleAll,
            _ => Motion::Nothing,
        },
{
    match (mode, handle) {
        (GizmoMode::Translate, Handle::Axis(i)) => Motion::MoveAlong(i),
        (GizmoMode::Translate, Handle::Plane(i)) => Motion::MoveIn(i),
        (GizmoMode::Rotate, Handle::Axis(i)) => Motion::TurnAround(i),
        (GizmoMode::Scale, Handle::Axis(i)) => Motion::ScaleAlong(i),
        (GizmoMode::Scale, Handle::Uniform) => Motion::ScaleAll,
        _ => Motion::Nothing,
    }
}

/// What is measured at the press.
#[derive(Clone, Copy, PartialEq, Eq, Structural, Debug)]
pub enum Anchor {
    RingAngle(usize),
    AlongAxis(usize),
    PlanePoint(usize),
    ScreenDistance,
}

/// What a press on `handle` anchors on in `mode`.
pub fn anchor(mode: GizmoMode, handle: Handle) -> (r: Anchor)
    ensures
        r == match handle {
            Handle::Axis(i) => if mode == GizmoMode::Rotate {
                Anchor::RingAngle(i)
            } else {
                Anchor::AlongAxis(i)
            },
            Handle::Plane(i) => Anchor::PlanePoint(i),
            Handle::Uniform => Anchor::ScreenDistance,
        },
{
    match handle {
        Handle::Axis(i) => if mode == GizmoMode::Rotate {
            Anchor::RingAngle(i)
        } else {
            Anchor::AlongAxis(i)
        },
        Handle::Plane(i) => Anchor::PlanePoint(i),
        Handle::Uniform => Anchor::ScreenDistance,
    }
}

/// A solid of the gizmo.
#[derive(Clone, Copy, PartialEq, Eq, Structural, Debug)]
pub enum Solid {
    /// A shaft along an axis.
    Tube(usize),
    /// An arrow head on an axis.
    Cone(usize),
    /// A box on an axis.
    EndCube(usize),
    /// A ring around an axis.
    Ring(usize),
    /// A plane handle, normal to an axis.
    Quad(usize),
    /// The box in the middle.
    CenterCube,
}

/// A solid, and whether its handle is the highlighted one.
#[derive(Clone, Copy, PartialEq, Eq, Structural, Debug)]
pub struct Shape {
    pub solid: Solid,
    pub highlight: bool,
}

/// Vertices that a solid takes: six per quad, three per triangle.
pub open spec fn vertices_of(solid: Solid) -> nat {
    match solid {
        Solid::Tube(_) => 24,
        Solid::Cone(_) => 72,
        Solid::EndCube(_) => 36,
        Solid::Ring(_) => (RING_SEGMENTS * 4 * 6) as nat,
        Solid::Quad(_) => 6,
        Solid::CenterCube => 36,
    }
}

/// The gizmo's shapes in a mode, in drawing order.
pub open spec fn shapes(mode: GizmoMode, h: Option<Handle>) -> Seq<Shape> {
    let on = |x: Handle| h == Some(x);
    match mode {
        GizmoMode::Translate => seq![
            Shape { solid: Solid::Tube(0), highlight: on(Handle::Axis(0)) },
            Shape { solid: Solid::Cone(0), highlight: on(Handle::Axis(0)) },
            Shape { solid: Solid::Tube(1), highlight: on(Handle::Axis(1)) },
            Shape { solid: Solid::Cone(1), highlight: on(Handle::Axis(1)) },
            Shape { solid: Solid::Tube(2), highlight: on(Handle::Axis(2)) },
            Shape { solid: Solid::Cone(2), highlight: on(Handle::Axis(2)) },
            Shape { solid: Solid::Quad(0), highlight: on(Handle::Plane(0)) },
            Shape { solid: Solid::Quad(1), highlight: on(Handle::Plane(1)) },
            Shape { solid: Solid::Quad(2), highlight: on(Handle::Plane(2)) },
        ],
        GizmoMode::Scale => seq![
            Shape { solid: Solid::Tube(0), highlight: on(Handle::Axis(0)) },
            Shape { solid: Solid::EndCube(0), highlight: on(Handle::Axis(0)) },
            Shape { solid: Solid::Tube(1), highlight: on(Handle::Axis(1)) },
            Shape { solid: Solid::EndCube(1), highlight: on(Handle::Axis(1)) },
            Shape { solid: Solid::Tube(2), highlight: on(Handle::Axis(2)) },
            Shape { solid: Solid::EndCube(2), highlight: on(Handle::Axis(2)) },
            Shape { solid: Solid::CenterCube, highlight: on(Handle::Uniform) },
        ],
        GizmoMode::Rotate => seq![
            Shape { solid: Solid::Ring(0), highlight: on(Handle::Axis(0)) },
            Shape { solid: Solid::Ring(1), highlight: on(Handle::Axis(1)) },
            Shape { solid: Solid::Ring(2), highlight: on(Handle::Axis(2)) },
        ],
    }
}

fn is_on(h: Option<Handle>, x: Handle) -> (r: bool)
    ensures
        r == (h == Some(x)),
{
    match h {
        Some(y) => y == x,
        None => false,
    }
}

/// The whole gizmo for one mode.
pub fn geometry(mode: GizmoMode, hovered: Option<Handle>) -> (r: Vec<Shape>)
    ensures
        r@ == shapes(mode, hovered),
{
    let mut out: Vec<Shape> = Vec::new();
    let a0: bool = is_on(hovered, Handle::Axis(0));
    let a1: bool = is_on(hovered, Handle::Axis(1));
    let a2: bool = is_on(hovered, Handle::Axis(2));
    match mode {
        GizmoMode::Translate => {
            out.push(Shape { solid: Solid::Tube(0), highlight: a0 });
            out.push(Shape { solid: Solid::Cone(0), highlight: a0 });
            out.push(Shape { solid: Solid::Tube(1), highlight: a1 });
            out.push(Shape { solid: Solid::Cone(1), highlight: a1 });
            out.push(Shape { solid: Solid::Tube(2), highlight: a2 });
            out.push(Shape { solid: Solid::Cone(2), highlight: a2 });
            let p0: bool = is_on(hovered, Handle::Plane(0));
            let p1: bool = is_on(hovered, Handle::Plane(1));
            let p2: bool = is_on(hovered, Handle::Plane(2));
            out.push(Shape { solid: Solid::Quad(0), highlight: p0 });
            out.push(Shape { solid: Solid::Quad(1), highlight: p1 });
            out.push(Shape { solid: Solid::Quad(2), highlight: p2 });
        },
        GizmoMode::Scale => {
            out.push(Shape { solid: Solid::Tube(0), highlight: a0 });
            out.push(Shape { solid: Solid::EndCube(0), highlight: a0 });
            out.push(Shape { solid: Solid::Tube(1), highlight: a1 });
            out.push(Shape { solid: Solid::EndCube(1), highlight: a1 });
            out.push(Shape { solid: Solid::Tube(2), highlight: a2 });
            out.push(Shape { solid: Solid::EndCube(2), highlight: a2 });
            let c: bool = is_on(hovered, Handle::Uniform);
            out.push(Shape { solid: Solid::CenterCube, highlight: c });
        },
        GizmoMode::Rotate => {
            out.push(Shape { solid: Solid::Ring(0), highlight: a0 });
            out.push(Shape { solid: Solid::Ring(1), highlight: a1 });
            out.push(Shape { solid: Solid::Ring(2), highlight: a2 });
        },
    }
    assert(out@ =~= shapes(mode, hovered));
    out
}

/// Vertices of the first `n` shapes.
pub open spec fn vertex_total(s: Seq<Shape>, n: nat) -> nat
    decreases n,
{
    if n == 0 {
        0
    } else {
        vertex_total(s, (n - 1) as nat) + vertices_of(s[n - 1].solid)
    }
}

/// The worst case, three rings, is under a third of what a camera's overlay
/// holds, so no gizmo is ever cut off.
pub proof fn gizmos_fit_the_overlay(mode: GizmoMode, h: Option<Handle>)
    ensures
        3 * vertex_total(shapes(mode, h), shapes(mode, h).len()) < VERTEX_CAPACITY,
{
    reveal_with_fuel(vertex_total, 10);
}

/// The handle that a solid belongs to.
pub open spec fn handle_of(solid: Solid) -> Handle {
    match solid {
        Solid::Tube(i) => Handle::Axis(i),
        Solid::Cone(i) => Handle::Axis(i),
        Solid::EndCube(i) => Handle::Axis(i),
        Solid::Ring(i) => Handle::Axis(i),
        Solid::Quad(i) => Handle::Plane(i),
        Solid::CenterCube => Handle::Uniform,
    }
}

/// A solid is highlighted exactly when its handle is the hovered one.
pub proof fn only_the_hovered_handle_lights_up(mode: GizmoMode, h: Option<Handle>, i: int)
    requires
        0 <= i < shapes(mode, h).len(),
    ensures
        shapes(mode, h)[i].highlight == (h == Some(handle_of(shapes(mode, h)[i].solid))),
{
}

proof fn lemma_drag_stays(
    targets: Seq<Option<Target>>,
    views: Seq<SlotView>,
    pointer: Pointer,
    drag: Drag,
    n: nat,
)
    ensures
        drag_at(targets, views, pointer, Some(drag), n) == Some(drag),
    decreases n,
{
    if n > 0 {
        lemma_drag_stays(targets, views, pointer, drag, (n - 1) as nat);
    }
}

/// A drag belongs to the camera it began in until the button is let go: no
/// other camera takes it over, begins one of its own, or follows it.
pub proof fn drags_stay_where_they_began(
    targets: Seq<Option<Target>>,
    views: Seq<SlotView>,
    pointer: Pointer,
    drag: Drag,
    n: nat,
    i: nat,
)
    ensures
        pointer.left_down ==> drag_at(
            targets,
            views,
            pointer,
            held(Some(drag), pointer),
            n,
        ) == Some(drag),
        pointer.left_down && i != drag.camera_slot ==> match action_at(
            targets,
            views,
            pointer,
            held(Some(drag), pointer),
            i,
        ) {
            SlotAction::Show { hovered, gesture } => hovered is None && gesture == Gesture::Nothing,
            _ => true,
        },
        !pointer.left_down ==> held(Some(drag), pointer) is None,
{
    lemma_drag_stays(targets, views, pointer, drag, n);
    lemma_drag_stays(targets, views, pointer, drag, i);
}

/// What a slot does, case by case. Without a camera it is left alone; without
/// a live target in an open panel it shows nothing. While it holds the drag it
/// lights the dragged handle and follows it as long as the cursor has a ray;
/// while another slot does it only shows. Otherwise it lights what is under
/// the cursor, if the pointer is free and over the panel, and a press on that
/// begins a drag of it.
pub proof fn slots_answer_to_the_pointer(
    slot: int,
    target: Option<Target>,
    view: SlotView,
    pointer: Pointer,
    drag: Option<Drag>,
)
    ensures
        ({
            let a = slot_action(slot, target, view, pointer, drag);
            let free = view.ray && view.over && !pointer.ui_has_it;
            let shown = view.camera && target is Some && view.alive && view.open;
            &&& !view.camera ==> a is Leave
            &&& view.camera && !shown ==> a is Hide
            &&& shown ==> a is Show
            &&& shown && drag is Some && drag->0.camera_slot == slot ==> a->hovered == Some(
                drag->0.handle,
            )
            &&& shown && drag is Some && drag->0.camera_slot == slot && view.ray ==> a->gesture
                == Gesture::Follow(drag->0.handle)
            &&& shown && drag is Some && drag->0.camera_slot == slot && !view.ray
                ==> a->gesture is Nothing
            &&& shown && drag is Some && drag->0.camera_slot != slot ==> a->hovered is None
                && a->gesture is Nothing
            &&& shown && drag is None && free ==> a->hovered == view.picked
            &&& shown && drag is None && !free ==> a->hovered is None
            &&& shown && drag is None && free && view.picked is Some && pointer.left_pressed
                ==> a->gesture == Gesture::Begin(view.picked->0)
            &&& shown && drag is None && (!free || view.picked is None || !pointer.left_pressed)
                ==> a->gesture is Nothing
            &&& highlights(a) <==> a is Show && a->hovered is Some
        }),
{
}

/// A press begins the drag of the slot that it was on, and the slots after it
/// find it begun; where no slot begins one there is none.
pub proof fn a_press_begins_one_drag(
    targets: Seq<Option<Target>>,
    views: Seq<SlotView>,
    pointer: Pointer,
    i: nat,
    n: nat,
    h: Handle,
)
    requires
        i < n,
        i <= usize::MAX,
    ensures
        action_at(targets, views, pointer, None, i) is Show && action_at(
            targets,
            views,
            pointer,
            None,
            i,
        )->gesture == Gesture::Begin(h) ==> drag_at(targets, views, pointer, None, n) == Some(
            Drag { camera_slot: i as usize, handle: h },
        ),
        (forall|k: nat|
            k < n ==> !(#[trigger] action_at(targets, views, pointer, None, k) is Show && action_at(
                targets,
                views,
                pointer,
                None,
                k,
            )->gesture is Begin)) ==> drag_at(targets, views, pointer, None, n) is None,
    decreases n,
{
    let m = (n - 1) as nat;
    if i < m {
        a_press_begins_one_drag(targets, views, pointer, i, m, h);
    } else if m > 0 {
        a_press_begins_one_drag(targets, views, pointer, 0, m, h);
    }
    let a = action_at(targets, views, pointer, None, m);
    assert(drag_at(targets, views, pointer, None, 0) is None);
    if i < m && action_at(targets, views, pointer, None, i) is Show && action_at(
        targets,
        views,
        pointer,
        None,
        i,
    )->gesture == Gesture::Begin(h) {
        assert(!(a is Show && a->gesture is Begin));
    }
}

/// Letting go ends a drag, and nothing else does.
pub proof fn letting_go_ends_the_drag(drag: Option<Drag>, pointer: Pointer)
    ensures
        pointer.left_down ==> held(drag, pointer) == drag,
        !pointer.left_down ==> held(drag, pointer) is None,
{
}

/// Close is under nine pixels, and within a plane handle is from a quarter up
/// to eleven twentieths of the gizmo, on both of its axes.
pub proof fn handles_have_a_reach(d: u32, h: [u32; 2])
    requires
        d <= 0x7f80_0000,
        h[0] <= 0x7f80_0000,
        h[1] <= 0x7f80_0000,
    ensures
        near(Some(d)) <==> d < 0x4110_0000,
        !near(None),
        on_plane(Some(h)) <==> 0x3e80_0000 <= h[0] < 0x3f0c_cccd && 0x3e80_0000 <= h[1]
            < 0x3f0c_cccd,
        !on_plane(None),
{
}

/// Of the handles that are close enough the nearest one is picked, of equally
/// near ones the first, and one is picked whenever any is close enough.
pub proof fn the_nearest_handle_is_picked(d: Seq<Option<u32>>, r: Option<Handle>, j: int)
    requires
        d.len() == 3,
        is_nearest_axis(d, r),
        0 <= j < 3,
    ensures
        r is Some ==> r->0 is Axis && r->0->Axis_0 < 3 && d[r->0->Axis_0 as int] is Some,
        r is Some && d[r->0->Axis_0 as int]->0 <= 0x7f80_0000 ==> d[r->0->Axis_0 as int]->0
            < 0x4110_0000,
        d[j] is Some && d[j]->0 < 0x4110_0000 ==> r is Some,
        r is Some && d[j] is Some && d[j]->0 < 0x4110_0000 && d[r->0->Axis_0 as int]->0
            <= 0x7f80_0000 ==> d[r->0->Axis_0 as int]->0 <= d[j]->0,
        r is Some && d[j] is Some && d[j]->0 < 0x4110_0000 && d[j] == d[r->0->Axis_0 as int]
            ==> r->0->Axis_0 <= j,
{
    assert(d[j] is Some && d[j]->0 < 0x4110_0000 ==> near(d[j]));
}

/// Every mode shows all of its handles, once each and no others: a shaft with
/// its head per axis and a quad per plane to move, a shaft with its box per
/// axis and one in the middle to scale, a ring per axis to turn.
pub proof fn every_handle_is_shown(h: Option<Handle>, a: int)
    requires
        0 <= a < 3,
    ensures
        ({
            let t = shapes(GizmoMode::Translate, h);
            let s = shapes(GizmoMode::Scale, h);
            let r = shapes(GizmoMode::Rotate, h);
            &&& t.len() == 9 && s.len() == 7 && r.len() == 3
            &&& t[2 * a].solid == Solid::Tube(a as usize)
            &&& t[2 * a + 1].solid == Solid::Cone(a as usize)
            &&& t[6 + a].solid == Solid::Quad(a as usize)
            &&& s[2 * a].solid == Solid::Tube(a as usize)
            &&& s[2 * a + 1].solid == Solid::EndCube(a as usize)
            &&& s[6].solid is CenterCube
            &&& r[a].solid == Solid::Ring(a as usize)
            &&& t[2 * a].highlight == (h == Some(Handle::Axis(a as usize)))
            &&& t[2 * a + 1].highlight == (h == Some(Handle::Axis(a as usize)))
            &&& t[6 + a].highlight == (h == Some(Handle::Plane(a as usize)))
            &&& s[2 * a].highlight == (h == Some(Handle::Axis(a as usize)))
            &&& s[2 * a + 1].highlight == (h == Some(Handle::Axis(a as usize)))
            &&& s[6].highlight == (h == Some(Handle::Uniform))
            &&& r[a].highlight == (h == Some(Handle::Axis(a as usize)))
        }),
{
}

/// Every number stands for a mode: two of them turn and scale, the rest move.
pub proof fn numbers_stand_for_modes(n: u8)
    ensures
        mode_of(n) is Rotate <==> n == 1,
        mode_of(n) is Scale <==> n == 2,
        mode_of(n) is Translate <==> n != 1 && n != 2,
{
}

/// Every slot acts on its own target and view, with the drag as the slots
/// before it have left it.
pub proof fn slots_act_in_turn(
    targets: Seq<Option<Target>>,
    views: Seq<SlotView>,
    pointer: Pointer,
    drag: Option<Drag>,
    i: nat,
)
    ensures
        action_at(targets, views, pointer, drag, i) == slot_action(
            i as int,
            targets[i as int],
            views[i as int],
            pointer,
            drag_at(targets, views, pointer, drag, i),
        ),
        drag_at(targets, views, pointer, drag, 0) == drag,
        drag_at(targets, views, pointer, drag, i + 1) == match action_at(
            targets,
            views,
            pointer,
            drag,
            i,
        ) {
            SlotAction::Show { gesture: Gesture::Begin(h), .. } => Some(
                Drag { camera_slot: i as usize, handle: h },
            ),
            _ => drag_at(targets, views, pointer, drag, i),
        },
{
}

} // verus!
