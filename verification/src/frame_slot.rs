//! The primary command buffer of a frame: what is recorded, in which order.
//!
//! A frame's commands are recorded once per swapchain image and replayed, so
//! what changes from frame to frame is only the bytes that they read. The two
//! debug switches and the camera's size policy change which commands there
//! are.

use crate::camera::CameraResolution;
use vstd::prelude::*;

verus! {

/// Timestamp queries per frame. The first is written as the frame starts,
/// every other one as a stage has drained: the scatter block, the first cull,
/// the first draw, the pyramid build, the second cull, the second draw, the
/// overlay with the blit. The layout is fixed: stages that are left out read as nothing.
pub const GPU_TS_COUNT: u32 = 8;

/// A component of the transforms.
#[derive(Clone, Copy, PartialEq, Eq, Structural, Debug)]
pub enum Component {
    Position,
    Rotation,
    Scale,
}

/// One command of a frame.
#[derive(Clone, Copy, PartialEq, Eq, Structural, Debug)]
pub enum FrameCommand {
    /// Reset the timestamp queries.
    ResetQueries,
    /// Write timestamp `query`, as the pipe starts or once it has drained.
    Timestamp { query: u32, top: bool },
    /// Staged transforms and re-parentings into the stable buffers.
    ScatterTransforms,
    /// Streamed renderer records into theirs.
    ScatterSpawns,
    /// Zero a dirty bitmask that the scatter has consumed.
    ClearDirty(Component),
    /// The staged view-projection into its stable buffer.
    PromoteViewProj,
    /// The staged cull matrix into its own.
    PromoteCullViewProj,
    /// Tell the host that the GPU is done reading what they share.
    Signal,
    /// The first cull pass.
    Cull,
    /// Start drawing; cleared first or over what is there, and with the depth
    /// kept for later readers or not.
    BeginDraw { clear: bool, keep_depth: bool },
    /// The scene pass with the first cull's instances, or the second's.
    DrawScene { second: bool },
    EndDraw,
    /// The grid and the gizmo.
    DrawOverlay,
    /// This frame's depth into this frame's pyramid.
    BuildHiz,
    /// The second cull pass.
    CullAgain,
    /// This frame's pyramid and matrix over last frame's.
    UpdateHistory,
    /// The camera's image onto the swapchain's.
    Blit,
}

/// The commands up to the end of the first scene pass.
pub open spec fn first_pass() -> Seq<FrameCommand> {
    seq![
        FrameCommand::ResetQueries,
        FrameCommand::Timestamp { query: 0, top: true },
        FrameCommand::ScatterTransforms,
        FrameCommand::ScatterSpawns,
        FrameCommand::ClearDirty(Component::Position),
        FrameCommand::ClearDirty(Component::Rotation),
        FrameCommand::ClearDirty(Component::Scale),
        FrameCommand::PromoteViewProj,
        FrameCommand::PromoteCullViewProj,
        FrameCommand::Signal,
        FrameCommand::Timestamp { query: 1, top: false },
        FrameCommand::Cull,
        FrameCommand::Timestamp { query: 2, top: false },
        FrameCommand::BeginDraw { clear: true, keep_depth: true },
        FrameCommand::DrawScene { second: false },
        FrameCommand::EndDraw,
        FrameCommand::Timestamp { query: 3, top: false },
    ]
}

/// The commands from the first scene pass to the overlay. Without occlusion
/// culling only the timestamps are left; with the pyramids frozen neither is
/// built nor copied, and the second pass goes by what they hold.
pub open spec fn second_pass(occlusion_enabled: bool, hiz_frozen: bool) -> Seq<FrameCommand> {
    if !occlusion_enabled {
        seq![
            FrameCommand::Timestamp { query: 4, top: false },
            FrameCommand::Timestamp { query: 5, top: false },
            FrameCommand::Timestamp { query: 6, top: false },
        ]
    } else if hiz_frozen {
        seq![
            FrameCommand::Timestamp { query: 4, top: false },
            FrameCommand::CullAgain,
            FrameCommand::Timestamp { query: 5, top: false },
            FrameCommand::BeginDraw { clear: false, keep_depth: true },
            FrameCommand::DrawScene { second: true },
            FrameCommand::EndDraw,
            FrameCommand::Timestamp { query: 6, top: false },
        ]
    } else {
        seq![
            FrameCommand::BuildHiz,
            FrameCommand::Timestamp { query: 4, top: false },
            FrameCommand::CullAgain,
            FrameCommand::UpdateHistory,
            FrameCommand::Timestamp { query: 5, top: false },
            FrameCommand::BeginDraw { clear: false, keep_depth: true },
            FrameCommand::DrawScene { second: true },
            FrameCommand::EndDraw,
            FrameCommand::Timestamp { query: 6, top: false },
        ]
    }
}

/// The commands after the scene: the overlay in a scope of its own, over the
/// scene's depth, and the blit, if the camera can be blitted.
pub open spec fn last_pass(blits: bool) -> Seq<FrameCommand> {
    if blits {
        seq![
            FrameCommand::BeginDraw { clear: false, keep_depth: false },
            FrameCommand::DrawOverlay,
            FrameCommand::EndDraw,
            FrameCommand::Blit,
            FrameCommand::Timestamp { query: 7, top: false },
        ]
    } else {
        seq![
            FrameCommand::BeginDraw { clear: false, keep_depth: false },
            FrameCommand::DrawOverlay,
            FrameCommand::EndDraw,
            FrameCommand::Timestamp { query: 7, top: false },
        ]
    }
}

/// A whole frame.
pub open spec fn frame_commands(
    occlusion_enabled: bool,
    hiz_frozen: bool,
    blits: bool,
) -> Seq<FrameCommand> {
    first_pass() + second_pass(occlusion_enabled, hiz_frozen) + last_pass(blits)
}

fn begin_frame() -> (r: Vec<FrameCommand>)
    ensures
        r@ == first_pass(),
        r.len() == 17,
        r[2] is ScatterTransforms,
        r[3] is ScatterSpawns,
        r[4] == FrameCommand::ClearDirty(Component::Position),
        r[5] == FrameCommand::ClearDirty(Component::Rotation),
        r[6] == FrameCommand::ClearDirty(Component::Scale),
        r[7] is PromoteViewProj,
        r[8] is PromoteCullViewProj,
        r[9] is Signal,
        r[11] is Cull,
        r[14] == (FrameCommand::DrawScene { second: false }),
        forall|i: int, j: int|
            0 <= i < r.len() && 0 <= j < r.len() && (#[trigger] r[i]) is ScatterTransforms && (
            #[trigger] r[j]) is ClearDirty ==> i < j,
{
    let mut c: Vec<FrameCommand> = Vec::new();
    c.push(FrameCommand::ResetQueries);
    c.push(FrameCommand::Timestamp { query: 0, top: true });
    c.push(FrameCommand::ScatterTransforms);
    c.push(FrameCommand::ScatterSpawns);
    c.push(FrameCommand::ClearDirty(Component::Position));
    c.push(FrameCommand::ClearDirty(Component::Rotation));
    c.push(FrameCommand::ClearDirty(Component::Scale));
    c.push(FrameCommand::PromoteViewProj);
    c.push(FrameCommand::PromoteCullViewProj);
    c.push(FrameCommand::Signal);
    c.push(FrameCommand::Timestamp { query: 1, top: false });
    c.push(FrameCommand::Cull);
    c.push(FrameCommand::Timestamp { query: 2, top: false });
    c.push(FrameCommand::BeginDraw { clear: true, keep_depth: true });
    c.push(FrameCommand::DrawScene { second: false });
    c.push(FrameCommand::EndDraw);
    c.push(FrameCommand::Timestamp { query: 3, top: false });
    assert(c@ =~= first_pass());
    c
}

/// The commands of one frame slot's primary buffer, for a camera whose
/// switches and size policy stand as given. Only a camera of the swapchain's
/// own size is blitted; any other is shown by the panel that samples it.
pub fn build_frame_slot(
    occlusion_enabled: bool,
    hiz_frozen: bool,
    resolution: CameraResolution,
) -> (r: Vec<FrameCommand>)
    ensures
        r@ == frame_commands(occlusion_enabled, hiz_frozen, resolution is MatchSwapchain),
        forall|i: int, j: int|
            0 <= i < r.len() && 0 <= j < r.len() ==> {
                let a = #[trigger] r[i];
                let b = #[trigger] r[j];
                &&& a == b && !(a is BeginDraw) && !(a is EndDraw) ==> i == j
                &&& a is ScatterTransforms && b is ClearDirty ==> i < j
                &&& (a is ScatterSpawns || a is ClearDirty || a is PromoteViewProj
                    || a is PromoteCullViewProj || a is Signal) && b is Cull ==> i < j
                &&& a is Cull && b is DrawScene ==> i < j
                &&& a is BuildHiz && b is CullAgain ==> i < j
                &&& a is CullAgain && (b is UpdateHistory || b == (FrameCommand::DrawScene {
                    second: true,
                })) ==> i < j
            },
        r[2] is ScatterTransforms,
        r[3] is ScatterSpawns,
        r[4] == FrameCommand::ClearDirty(Component::Position),
        r[5] == FrameCommand::ClearDirty(Component::Rotation),
        r[6] == FrameCommand::ClearDirty(Component::Scale),
        r[7] is PromoteViewProj,
        r[8] is PromoteCullViewProj,
        r[11] is Cull,
        r[14] == (FrameCommand::DrawScene { second: false }),
        occlusion_enabled ==> r[if hiz_frozen { 18 } else { 19 }] is CullAgain,
        occlusion_enabled ==> r[if hiz_frozen { 21int } else { 23 }] == (FrameCommand::DrawScene {
            second: true,
        }),
        occlusion_enabled && !hiz_frozen ==> r[17] is BuildHiz && r[20] is UpdateHistory,
{
    let mut c: Vec<FrameCommand> = begin_frame();
    if occlusion_enabled {
        if !hiz_frozen {
            c.push(FrameCommand::BuildHiz);
        }
        c.push(FrameCommand::Timestamp { query: 4, top: false });
        c.push(FrameCommand::CullAgain);
        if !hiz_frozen {
            c.push(FrameCommand::UpdateHistory);
        }
        c.push(FrameCommand::Timestamp { query: 5, top: false });
        c.push(FrameCommand::BeginDraw { clear: false, keep_depth: true });
        c.push(FrameCommand::DrawScene { second: true });
        c.push(FrameCommand::EndDraw);
        c.push(FrameCommand::Timestamp { query: 6, top: false });
    } else {
        let mut q: u32 = 4;
        while q <= 6
            invariant
                4 <= q <= 7,
                c@ == first_pass() + Seq::new(
                    (q - 4) as nat,
                    |i: int| FrameCommand::Timestamp { query: (4 + i) as u32, top: false },
                ),
            decreases 7 - q,
        {
            c.push(FrameCommand::Timestamp { query: q, top: false });
            q = q + 1;
            assert(c@ =~= first_pass() + Seq::new(
                (q - 4) as nat,
                |i: int| FrameCommand::Timestamp { query: (4 + i) as u32, top: false },
            ));
        }
    }
    assert(c@ =~= first_pass() + second_pass(occlusion_enabled, hiz_frozen));
    c.push(FrameCommand::BeginDraw { clear: false, keep_depth: false });
    c.push(FrameCommand::DrawOverlay);
    c.push(FrameCommand::EndDraw);
    if resolution.blits_to_swapchain() {
        c.push(FrameCommand::Blit);
    }
    c.push(FrameCommand::Timestamp { query: 7, top: false });
    assert(c@ =~= frame_commands(occlusion_enabled, hiz_frozen, resolution is MatchSwapchain));
    proof {
        let blits = resolution is MatchSwapchain;
        assert forall|i: int, j: int| 0 <= i < c.len() && 0 <= j < c.len() implies {
            let a = #[trigger] c[i];
            let b = #[trigger] c[j];
            &&& a == b && !(a is BeginDraw) && !(a is EndDraw) ==> i == j
            &&& a is ScatterTransforms && b is ClearDirty ==> i < j
            &&& (a is ScatterSpawns || a is ClearDirty || a is PromoteViewProj
                || a is PromoteCullViewProj || a is Signal) && b is Cull ==> i < j
            &&& a is Cull && b is DrawScene ==> i < j
            &&& a is BuildHiz && b is CullAgain ==> i < j
            &&& a is CullAgain && (b is UpdateHistory || b == (FrameCommand::DrawScene {
                second: true,
            })) ==> i < j
        } by {
            frames_run_in_order(occlusion_enabled, hiz_frozen, blits, i, j);
        }
        frames_run_in_order(occlusion_enabled, hiz_frozen, blits, 0, 0);
    }
    c
}

/// The queries that the first `n` commands write, in order.
pub open spec fn queries(c: Seq<FrameCommand>, n: nat) -> Seq<u32>
    decreases n,
{
    if n == 0 {
        Seq::empty()
    } else {
        match c[n - 1] {
            FrameCommand::Timestamp { query, .. } => queries(c, (n - 1) as nat).push(query),
            _ => queries(c, (n - 1) as nat),
        }
    }
}

/// A command that reads what the host writes and the GPU shares.
pub open spec fn reads_shared(c: FrameCommand) -> bool {
    match c {
        FrameCommand::ScatterTransforms => true,
        FrameCommand::ScatterSpawns => true,
        FrameCommand::ClearDirty(_) => true,
        FrameCommand::PromoteViewProj => true,
        FrameCommand::PromoteCullViewProj => true,
        _ => false,
    }
}

/// A command that goes by the pyramids.
pub open spec fn touches_pyramids(c: FrameCommand) -> bool {
    c is BuildHiz || c is UpdateHistory
}

/// A command that is no timestamp adds no query, and a timestamp its own.
proof fn lemma_query(c: Seq<FrameCommand>, n: nat)
    ensures
        queries(c, n + 1) == match c[n as int] {
            FrameCommand::Timestamp { query, .. } => queries(c, n).push(query),
            _ => queries(c, n),
        },
{
}

/// The first pass writes the first four queries.
proof fn lemma_first_queries(c: Seq<FrameCommand>)
    requires
        c.len() >= 17,
        c.take(17) == first_pass(),
    ensures
        queries(c, 17) == seq![0u32, 1u32, 2u32, 3u32],
{
    assert(forall|i: int| 0 <= i < 17 ==> c[i] == #[trigger] first_pass()[i]) by {
        assert forall|i: int| 0 <= i < 17 implies c[i] == #[trigger] first_pass()[i] by {
            assert(c.take(17)[i] == c[i]);
        }
    }
    let f = first_pass();
    assert(queries(c, 0) =~= Seq::empty());
    lemma_query(c, 0);
    assert(c[0] == f[0] && c[1] == f[1]);
    lemma_query(c, 1);
    assert(queries(c, 2) =~= seq![0u32]);
    assert(c[2] == f[2] && c[3] == f[3] && c[4] == f[4] && c[5] == f[5]);
    lemma_query(c, 2);
    lemma_query(c, 3);
    lemma_query(c, 4);
    lemma_query(c, 5);
    assert(c[6] == f[6] && c[7] == f[7] && c[8] == f[8] && c[9] == f[9]);
    lemma_query(c, 6);
    lemma_query(c, 7);
    lemma_query(c, 8);
    lemma_query(c, 9);
    assert(c[10] == f[10] && c[11] == f[11] && c[12] == f[12] && c[13] == f[13]);
    lemma_query(c, 10);
    assert(queries(c, 11) =~= seq![0u32, 1u32]);
    lemma_query(c, 11);
    lemma_query(c, 12);
    assert(queries(c, 13) =~= seq![0u32, 1u32, 2u32]);
    assert(c[14] == f[14] && c[15] == f[15] && c[16] == f[16]);
    lemma_query(c, 13);
    lemma_query(c, 14);
    lemma_query(c, 15);
    lemma_query(c, 16);
    assert(queries(c, 17) =~= seq![0u32, 1u32, 2u32, 3u32]);
}

/// Whatever the switches, a frame writes each of its queries once, in order,
/// so the readback layout never changes.
pub proof fn timestamps_keep_their_layout(occlusion_enabled: bool, hiz_frozen: bool, blits: bool)
    ensures
        queries(
            frame_commands(occlusion_enabled, hiz_frozen, blits),
            frame_commands(occlusion_enabled, hiz_frozen, blits).len(),
        ) == seq![0u32, 1u32, 2u32, 3u32, 4u32, 5u32, 6u32, 7u32],
{
    let c = frame_commands(occlusion_enabled, hiz_frozen, blits);
    let s = second_pass(occlusion_enabled, hiz_frozen);
    let t = last_pass(blits);
    assert(c.take(17) =~= first_pass());
    lemma_first_queries(c);
    assert(forall|i: int| 0 <= i < s.len() ==> c[17 + i] == #[trigger] s[i]);
    lemma_query(c, 17);
    lemma_query(c, 18);
    lemma_query(c, 19);
    assert(s[0] == c[17] && s[1] == c[18] && s[2] == c[19]);
    if occlusion_enabled {
        lemma_query(c, 20);
        lemma_query(c, 21);
        lemma_query(c, 22);
        lemma_query(c, 23);
        assert(s[3] == c[20] && s[4] == c[21] && s[5] == c[22] && s[6] == c[23]);
        if !hiz_frozen {
            lemma_query(c, 24);
            lemma_query(c, 25);
            assert(s[7] == c[24] && s[8] == c[25]);
        }
    }
    let n = 17 + s.len();
    assert(queries(c, n) =~= seq![0u32, 1u32, 2u32, 3u32, 4u32, 5u32, 6u32]);
    assert(forall|i: int| 0 <= i < t.len() ==> c[n + i] == #[trigger] t[i]);
    lemma_query(c, n);
    lemma_query(c, n + 1);
    lemma_query(c, n + 2);
    lemma_query(c, n + 3);
    let at = n as int;
    assert(t[0] == c[at] && t[1] == c[at + 1] && t[2] == c[at + 2] && t[3] == c[at + 3]);
    if blits {
        lemma_query(c, n + 4);
        assert(t[4] == c[at + 4]);
    }
    assert(queries(c, c.len()) =~= seq![0u32, 1u32, 2u32, 3u32, 4u32, 5u32, 6u32, 7u32]);
}

/// The host is woken exactly once, after the last read of what it shares and
/// before the first cull.
pub proof fn signal_follows_every_shared_read(
    occlusion_enabled: bool,
    hiz_frozen: bool,
    blits: bool,
    i: int,
    j: int,
)
    requires
        0 <= i < frame_commands(occlusion_enabled, hiz_frozen, blits).len(),
        0 <= j < frame_commands(occlusion_enabled, hiz_frozen, blits).len(),
        frame_commands(occlusion_enabled, hiz_frozen, blits)[j] is Signal,
    ensures
        reads_shared(frame_commands(occlusion_enabled, hiz_frozen, blits)[i]) ==> i < j,
        frame_commands(occlusion_enabled, hiz_frozen, blits)[i] is Cull ==> j < i,
        frame_commands(occlusion_enabled, hiz_frozen, blits)[i] is Signal ==> i == j,
        frame_commands(occlusion_enabled, hiz_frozen, blits)[9] is Signal,
{
    let c = frame_commands(occlusion_enabled, hiz_frozen, blits);
    assert(c[9] is Signal);
}

/// Frozen pyramids are neither built nor copied, without occlusion culling
/// there is no second pass at all, and only a camera that can be blitted is.
pub proof fn switches_leave_work_out(
    occlusion_enabled: bool,
    hiz_frozen: bool,
    blits: bool,
    i: int,
)
    requires
        0 <= i < frame_commands(occlusion_enabled, hiz_frozen, blits).len(),
    ensures
        ({
            let c = frame_commands(occlusion_enabled, hiz_frozen, blits);
            &&& hiz_frozen || !occlusion_enabled ==> !touches_pyramids(c[i])
            &&& !occlusion_enabled ==> !(c[i] is CullAgain) && c[i] != (FrameCommand::DrawScene {
                second: true,
            })
            &&& occlusion_enabled && !hiz_frozen ==> c[17] is BuildHiz
            &&& c[i] is Blit ==> blits && i == c.len() - 2
            &&& blits ==> c[c.len() - 2] is Blit
        }),
{
}

/// The overlay is drawn once, in a scope of its own that clears nothing, after
/// every scene pass and before the blit; and the scene's depth is kept for it.
pub proof fn overlay_follows_the_scene(
    occlusion_enabled: bool,
    hiz_frozen: bool,
    blits: bool,
    i: int,
)
    requires
        0 <= i < frame_commands(occlusion_enabled, hiz_frozen, blits).len(),
    ensures
        ({
            let c = frame_commands(occlusion_enabled, hiz_frozen, blits);
            let j = 18 + second_pass(occlusion_enabled, hiz_frozen).len() as int;
            &&& 0 < j < c.len() - 1
            &&& c[j] is DrawOverlay
            &&& c[i] is DrawOverlay ==> i == j
            &&& c[j - 1] == (FrameCommand::BeginDraw { clear: false, keep_depth: false })
            &&& c[j + 1] is EndDraw
            &&& c[i] is DrawScene ==> i < j - 1
            &&& c[i] is BeginDraw && i < j - 1 ==> c[i]->keep_depth
            &&& c[i] is Blit ==> i > j + 1
        }),
{
    let c = frame_commands(occlusion_enabled, hiz_frozen, blits);
    let n = 17 + second_pass(occlusion_enabled, hiz_frozen).len() as int;
    let t = last_pass(blits);
    assert(c[n] == t[0] && c[n + 1] == t[1] && c[n + 2] == t[2]);
}

/// A frame does its work in the one order in which it can be done. Dirty bits
/// are cleared once the scatter has read them, each component's once. What the
/// cull reads has arrived before it: the streamed records, both matrices. The
/// second pass culls by the pyramid that was built from the first pass's depth
/// and draws what it found; only after it is the history replaced. Nothing is
/// done twice.
pub proof fn frames_run_in_order(
    occlusion_enabled: bool,
    hiz_frozen: bool,
    blits: bool,
    i: int,
    j: int,
)
    requires
        0 <= i < frame_commands(occlusion_enabled, hiz_frozen, blits).len(),
        0 <= j < frame_commands(occlusion_enabled, hiz_frozen, blits).len(),
    ensures
        ({
            let c = frame_commands(occlusion_enabled, hiz_frozen, blits);
            let a = c[i];
            let b = c[j];
            &&& c[0] is ResetQueries
            &&& c[2] is ScatterTransforms
            &&& c[3] is ScatterSpawns
            &&& c[4] == FrameCommand::ClearDirty(Component::Position)
            &&& c[5] == FrameCommand::ClearDirty(Component::Rotation)
            &&& c[6] == FrameCommand::ClearDirty(Component::Scale)
            &&& c[7] is PromoteViewProj
            &&& c[8] is PromoteCullViewProj
            &&& c[9] is Signal
            &&& c[11] is Cull
            &&& c[14] == (FrameCommand::DrawScene { second: false })
            &&& occlusion_enabled ==> c[if hiz_frozen { 18 } else { 19 }] is CullAgain
            &&& occlusion_enabled ==> c[if hiz_frozen { 21int } else { 23 }] == (
            FrameCommand::DrawScene { second: true })
            &&& occlusion_enabled && !hiz_frozen ==> c[17] is BuildHiz && c[20] is UpdateHistory
            &&& a == b && !(a is BeginDraw) && !(a is EndDraw) ==> i == j
            &&& a is ScatterTransforms && b is ClearDirty ==> i < j
            &&& (a is ScatterTransforms || a is ScatterSpawns || a is ClearDirty
                || a is PromoteViewProj || a is PromoteCullViewProj || a is Signal) && b is Cull
                ==> i < j
            &&& a is Cull && b is DrawScene ==> i < j
            &&& a == (FrameCommand::DrawScene { second: false }) && b is BuildHiz ==> i < j
            &&& a == (FrameCommand::DrawScene { second: false }) && b is CullAgain ==> i < j
            &&& a is BuildHiz && b is CullAgain ==> i < j
            &&& a is CullAgain && b is UpdateHistory ==> i < j
            &&& a is CullAgain && b == (FrameCommand::DrawScene { second: true }) ==> i < j
            &&& a is BuildHiz && b is UpdateHistory ==> i < j
        }),
{
    let c = frame_commands(occlusion_enabled, hiz_frozen, blits);
    let f = first_pass();
    let s = second_pass(occlusion_enabled, hiz_frozen);
    assert(c[0] == f[0] && c[2] == f[2] && c[3] == f[3] && c[4] == f[4] && c[5] == f[5]);
    assert(c[6] == f[6] && c[7] == f[7] && c[8] == f[8] && c[9] == f[9] && c[11] == f[11]);
    assert(c[14] == f[14]);
    if occlusion_enabled {
        assert(c[17] == s[0] && c[18] == s[1] && c[19] == s[2] && c[20] == s[3] && c[21] == s[4]);
        if !hiz_frozen {
            assert(c[23] == s[6]);
        }
    }
}

/// Every drawing command stands alone in a scope that is begun for it and
/// ended after it. Only the scope of the first scene pass clears, and only the
/// overlay's lets go of the depth.
pub proof fn scopes_hold_one_draw(
    occlusion_enabled: bool,
    hiz_frozen: bool,
    blits: bool,
    i: int,
)
    requires
        0 <= i < frame_commands(occlusion_enabled, hiz_frozen, blits).len(),
    ensures
        ({
            let c = frame_commands(occlusion_enabled, hiz_frozen, blits);
            &&& c[i] is DrawScene || c[i] is DrawOverlay ==> 0 < i < c.len() - 1 && c[i
                - 1] is BeginDraw && c[i + 1] is EndDraw
            &&& c[i] is BeginDraw ==> i < c.len() - 2 && (c[i + 1] is DrawScene || c[i
                + 1] is DrawOverlay)
            &&& c[i] is EndDraw ==> i > 1 && (c[i - 1] is DrawScene || c[i - 1] is DrawOverlay)
            &&& c[i] is BeginDraw ==> c[i]->clear == (c[i + 1] == (FrameCommand::DrawScene {
                second: false,
            }))
            &&& c[i] is BeginDraw ==> c[i]->keep_depth == (c[i + 1] is DrawScene)
        }),
{
    let c = frame_commands(occlusion_enabled, hiz_frozen, blits);
    let s = second_pass(occlusion_enabled, hiz_frozen);
    let n = 17 + s.len() as int;
    assert(c[n] == last_pass(blits)[0] && c[n + 1] == last_pass(blits)[1]);
}

/// Every stage is bracketed by the timestamps that its readback goes by: the
/// frame's start from the top of the pipe, every other as it has drained.
pub proof fn timestamps_follow_their_stage(
    occlusion_enabled: bool,
    hiz_frozen: bool,
    blits: bool,
    i: int,
)
    requires
        0 <= i < frame_commands(occlusion_enabled, hiz_frozen, blits).len(),
    ensures
        ({
            let c = frame_commands(occlusion_enabled, hiz_frozen, blits);
            &&& c[1] == (FrameCommand::Timestamp { query: 0, top: true })
            &&& c[i] is Timestamp ==> c[i]->top == (c[i]->query == 0)
            &&& c[i] is Signal ==> c[i + 1] == (FrameCommand::Timestamp { query: 1, top: false })
            &&& c[i] is Cull ==> c[i + 1] == (FrameCommand::Timestamp { query: 2, top: false })
            &&& c[i] == (FrameCommand::DrawScene { second: false }) ==> c[i + 2] == (
            FrameCommand::Timestamp { query: 3, top: false })
            &&& c[i] is BuildHiz ==> c[i + 1] == (FrameCommand::Timestamp { query: 4, top: false })
            &&& c[i] is CullAgain ==> c[i - 1] == (FrameCommand::Timestamp {
                query: 4,
                top: false,
            }) && c[if hiz_frozen { i + 1 } else { i + 2 }] == (FrameCommand::Timestamp {
                query: 5,
                top: false,
            })
            &&& c[i] == (FrameCommand::DrawScene { second: true }) ==> c[i + 2] == (
            FrameCommand::Timestamp { query: 6, top: false })
            &&& c.last() == (FrameCommand::Timestamp { query: 7, top: false })
        }),
{
    let c = frame_commands(occlusion_enabled, hiz_frozen, blits);
    let s = second_pass(occlusion_enabled, hiz_frozen);
    assert(c[1] == first_pass()[1]);
    assert(c.last() == last_pass(blits).last());
}

} // verus!
