//! The swapchain: when it must be recreated, whose turn it is among the
//! acquire semaphores, which fences the host waits for, and what is submitted.
//!
//! Every image has a fence that its submission signals. Acquiring an image
//! waits for that image's fence and resets it; a frame may also wait for the
//! frame just before it, whose fence belongs to another image.

use crate::growth::max_u32;
use vstd::prelude::*;

verus! {

/// How finished images reach the screen.
#[derive(Clone, Copy, PartialEq, Eq, Structural, Debug)]
pub enum PresentMode {
    /// The newest finished image at every refresh.
    Mailbox,
    /// At once, with tearing.
    Immediate,
    /// Every image, in order.
    Fifo,
}

/// The mode to present with, of those that the surface supports: the one with
/// the least latency, the last being always there.
pub fn choose_present_mode(supported: &Vec<PresentMode>) -> (r: PresentMode)
    ensures
        r == if supported@.contains(PresentMode::Mailbox) {
            PresentMode::Mailbox
        } else if supported@.contains(PresentMode::Immediate) {
            PresentMode::Immediate
        } else {
            PresentMode::Fifo
        },
{
    let mut mailbox: bool = false;
    let mut immediate: bool = false;
    let mut i: usize = 0;
    while i < supported.len()
        invariant
            i <= supported.len(),
            mailbox == exists|k: int| 0 <= k < i && supported[k] == PresentMode::Mailbox,
            immediate == exists|k: int| 0 <= k < i && supported[k] == PresentMode::Immediate,
        decreases supported.len() - i,
    {
        let m: PresentMode = supported[i];
        if m == PresentMode::Mailbox {
            mailbox = true;
        }
        if m == PresentMode::Immediate {
            immediate = true;
        }
        i = i + 1;
    }
    proof {
        if mailbox {
            let k = choose|k: int| 0 <= k < i && supported[k] == PresentMode::Mailbox;
            assert(supported@[k] == PresentMode::Mailbox);
        }
        if immediate {
            let k = choose|k: int| 0 <= k < i && supported[k] == PresentMode::Immediate;
            assert(supported@[k] == PresentMode::Immediate);
        }
    }
    if mailbox {
        PresentMode::Mailbox
    } else if immediate {
        PresentMode::Immediate
    } else {
        PresentMode::Fifo
    }
}

/// The images to ask for: as many as the surface needs, and as many as frames
/// may be in flight.
pub fn min_image_count(surface_min: u32, max_frames: u32) -> (r: u32)
    ensures
        r == if surface_min >= max_frames {
            surface_min
        } else {
            max_frames
        },
{
    max_u32(surface_min, max_frames)
}

/// What to do before an image can be acquired.
#[derive(Clone, Copy, PartialEq, Eq, Structural, Debug)]
pub enum AcquireStep {
    /// The window has no area, or the swapchain was just recreated: skip this
    /// frame.
    Skip,
    /// Wait for every fence, recreate the swapchain, and report it through
    /// [`SwapchainRenderer::recreated`].
    Recreate,
    /// Acquire with this semaphore of the pool.
    Acquire { semaphore: usize },
}

/// How an acquire ended.
#[derive(Clone, Copy, PartialEq, Eq, Structural, Debug)]
pub enum AcquireOutcome {
    Acquired { image_index: u32, is_suboptimal: bool },
    OutOfDate,
}

/// How a present ended.
#[derive(Clone, Copy, PartialEq, Eq, Structural, Debug)]
pub enum PresentOutcome {
    Presented { suboptimal: bool },
    OutOfDate,
}

/// An image that is ours for a frame.
#[derive(Clone, Copy, PartialEq, Eq, Structural, Debug)]
pub struct AcquiredFrame {
    /// Also names the image's fence, and its render-finished semaphore.
    pub image_index: u32,
    /// The semaphore that the acquire signals.
    pub image_available: usize,
}

/// A semaphore of a submission.
#[derive(Clone, Copy, PartialEq, Eq, Structural, Debug)]
pub enum Semaphore {
    /// One of the acquire pool.
    ImageAvailable(usize),
    /// An image's render-finished semaphore.
    RenderFinished(u32),
    /// The caller's own.
    Other(u64),
}

/// A batch of a submission: what it waits for, which command buffer it runs,
/// what it signals.
pub struct Batch {
    pub waits: Vec<Semaphore>,
    pub command_buffer: u64,
    pub signals: Vec<Semaphore>,
}

/// A batch that goes ahead of the frame's own.
pub struct PreBatch {
    pub command_buffer: u64,
    pub signals: Vec<Semaphore>,
}

/// The host's side of a swapchain.
pub struct SwapchainRenderer {
    /// Images, and with them fences and render-finished semaphores.
    pub image_count: usize,
    pub present_mode: PresentMode,
    pub needs_recreate: bool,
    /// The swapchain was recreated in this frame, which is therefore skipped.
    pub skips_frame: bool,
    /// The next semaphore of the acquire pool.
    pub next_acquire: usize,
    /// Semaphores in the acquire pool.
    pub max_frames: usize,
    /// The image of the most recent submission.
    pub last_submitted: Option<u32>,
    /// The image whose fence is the previous frame's, if that is another one
    /// than this frame's.
    pub prev_frame_fence: Option<u32>,
}

impl SwapchainRenderer {
    pub open spec fn wf(&self) -> bool {
        &&& self.max_frames >= 1
        &&& self.next_acquire < self.max_frames
        &&& self.last_submitted is Some ==> self.last_submitted->0 < self.image_count
        &&& self.prev_frame_fence is Some ==> self.prev_frame_fence->0 < self.image_count
    }

    pub fn new(image_count: usize, present_mode: PresentMode, max_frames: usize) -> (r: Self)
        requires
            max_frames >= 1,
        ensures
            r.wf(),
            r == (SwapchainRenderer {
                image_count,
                present_mode,
                needs_recreate: false,
                skips_frame: false,
                next_acquire: 0,
                max_frames,
                last_submitted: None,
                prev_frame_fence: None,
            }),
    {
        SwapchainRenderer {
            image_count,
            present_mode,
            needs_recreate: false,
            skips_frame: false,
            next_acquire: 0,
            max_frames,
            last_submitted: None,
            prev_frame_fence: None,
        }
    }

    pub fn image_count(&self) -> (r: usize)
        ensures
            r == self.image_count,
    {
        self.image_count
    }

    /// Adopt a present mode; the swapchain is recreated if it is another one.
    pub fn set_present_mode(&mut self, mode: PresentMode)
        ensures
            *final(self) == (SwapchainRenderer {
                present_mode: mode,
                needs_recreate: old(self).needs_recreate || mode != old(self).present_mode,
                ..*old(self)
            }),
    {
        if self.present_mode != mode {
            self.present_mode = mode;
            self.needs_recreate = true;
        }
    }

    /// The window was resized.
    pub fn resize(&mut self)
        ensures
            *final(self) == (SwapchainRenderer { needs_recreate: true, ..*old(self) }),
    {
        self.needs_recreate = true;
    }

    /// What the frame does next, with the window at `window_extent`.
    pub open spec fn step(&self, window_extent: [u32; 2]) -> AcquireStep {
        if self.skips_frame {
            AcquireStep::Skip
        } else if !self.needs_recreate {
            AcquireStep::Acquire { semaphore: self.next_acquire }
        } else if window_extent[0] == 0 || window_extent[1] == 0 {
            AcquireStep::Skip
        } else {
            AcquireStep::Recreate
        }
    }

    /// The state once that step was decided.
    pub open spec fn stepped(&self, step: AcquireStep) -> SwapchainRenderer {
        SwapchainRenderer {
            skips_frame: false,
            next_acquire: if step is Acquire {
                turn(self.next_acquire as nat, self.max_frames as nat, 1) as usize
            } else {
                self.next_acquire
            },
            ..*self
        }
    }

    /// The state after the swapchain was recreated with so many images.
    pub open spec fn renewed(&self, image_count: usize) -> SwapchainRenderer {
        SwapchainRenderer {
            image_count,
            needs_recreate: false,
            skips_frame: true,
            last_submitted: None,
            prev_frame_fence: None,
            ..*self
        }
    }

    /// What to do next for this frame, with the window at `window_extent`.
    /// A frame in which the swapchain was recreated is skipped. Taking a
    /// semaphore moves the pool on.
    pub fn acquire(&mut self, window_extent: [u32; 2]) -> (r: AcquireStep)
        requires
            old(self).wf(),
        ensures
            final(self).wf(),
            r == old(self).step(window_extent),
            *final(self) == old(self).stepped(r),
    {
        if self.skips_frame {
            self.skips_frame = false;
            return AcquireStep::Skip;
        }
        if self.needs_recreate {
            if window_extent[0] == 0 || window_extent[1] == 0 {
                return AcquireStep::Skip;
            }
            return AcquireStep::Recreate;
        }
        let semaphore: usize = self.next_acquire;
        proof {
            vstd::arithmetic::div_mod::lemma_mod_bound(semaphore + 1, self.max_frames as int);
            reveal_with_fuel(turn, 2);
        }
        self.next_acquire = (semaphore + 1) % self.max_frames;
        AcquireStep::Acquire { semaphore }
    }

    /// The swapchain was recreated, with this many images, after everything in
    /// flight had retired: there is no previous frame left to wait for, and
    /// the frame that found it out of date ends without an image.
    /// Whether the fences and semaphores per image must be rebuilt.
    pub fn recreated(&mut self, image_count: usize) -> (r: bool)
        requires
            old(self).wf(),
        ensures
            final(self).wf(),
            r == (image_count != old(self).image_count),
            *final(self) == old(self).renewed(image_count),
    {
        let rebuild: bool = image_count != self.image_count;
        self.image_count = image_count;
        self.needs_recreate = false;
        self.skips_frame = true;
        self.last_submitted = None;
        self.prev_frame_fence = None;
        rebuild
    }

    /// The acquire with `semaphore` ended. An image is ours once its fence was
    /// waited for and reset; nothing is when the swapchain is out of date. The
    /// previous frame's fence is never the one that was just reset: waiting
    /// for that one again would block for ever.
    pub fn acquired(&mut self, semaphore: usize, outcome: AcquireOutcome) -> (r: Option<
        AcquiredFrame,
    >)
        requires
            old(self).wf(),
            outcome is Acquired ==> outcome->image_index < old(self).image_count,
        ensures
            final(self).wf(),
            match outcome {
                AcquireOutcome::OutOfDate => r is None && *final(self) == (SwapchainRenderer {
                    needs_recreate: true,
                    ..*old(self)
                }),
                AcquireOutcome::Acquired { image_index, is_suboptimal } => {
                    &&& r == Some(AcquiredFrame { image_index, image_available: semaphore })
                    &&& final(self).prev_frame_fence != Some(image_index)
                    &&& *final(self) == (SwapchainRenderer {
                        needs_recreate: old(self).needs_recreate || is_suboptimal,
                        last_submitted: None,
                        prev_frame_fence: if old(self).last_submitted == Some(image_index) {
                            None
                        } else {
                            old(self).last_submitted
                        },
                        ..*old(self)
                    })
                },
            },
    {
        match outcome {
            AcquireOutcome::OutOfDate => {
                self.needs_recreate = true;
                None
            },
            AcquireOutcome::Acquired { image_index, is_suboptimal } => {
                if is_suboptimal {
                    self.needs_recreate = true;
                }
                self.prev_frame_fence = match self.last_submitted {
                    Some(last) => if last != image_index {
                        Some(last)
                    } else {
                        None
                    },
                    None => None,
                };
                self.last_submitted = None;
                Some(AcquiredFrame { image_index, image_available: semaphore })
            },
        }
    }

    /// The image whose fence to wait for so that the frame just before this
    /// one has retired; none when there is no such frame, and none when it
    /// drew into this very image, whose fence was waited for already.
    pub fn wait_previous_frame(&self) -> (r: Option<u32>)
        ensures
            r == self.prev_frame_fence,
    {
        self.prev_frame_fence
    }

    /// The batches of a frame's one submission: the caller's, if there is one,
    /// then the frame's own, which waits for its image and signals that it is
    /// rendered. The image's fence is signaled once both are done.
    pub fn submit(
        &mut self,
        frame: AcquiredFrame,
        pre_batch: Option<PreBatch>,
        command_buffer: u64,
        extra_waits: &Vec<Semaphore>,
        extra_signals: &Vec<Semaphore>,
    ) -> (r: Vec<Batch>)
        requires
            old(self).wf(),
            frame.image_index < old(self).image_count,
        ensures
            final(self).wf(),
            *final(self) == (SwapchainRenderer {
                last_submitted: Some(frame.image_index),
                ..*old(self)
            }),
            r.len() == if pre_batch is Some {
                2int
            } else {
                1
            },
            pre_batch is Some ==> r[0].waits@.len() == 0 && r[0].command_buffer
                == pre_batch->0.command_buffer && r[0].signals == pre_batch->0.signals,
            r@.last().command_buffer == command_buffer,
            r@.last().waits@ == seq![Semaphore::ImageAvailable(frame.image_available)]
                + extra_waits@,
            r@.last().signals@ == seq![Semaphore::RenderFinished(frame.image_index)]
                + extra_signals@,
    {
        let mut batches: Vec<Batch> = Vec::new();
        match pre_batch {
            Some(pre) => {
                batches.push(
                    Batch {
                        waits: Vec::new(),
                        command_buffer: pre.command_buffer,
                        signals: pre.signals,
                    },
                );
            },
            None => {},
        }
        let waits: Vec<Semaphore> = headed(
            Semaphore::ImageAvailable(frame.image_available),
            extra_waits,
        );
        let signals: Vec<Semaphore> = headed(
            Semaphore::RenderFinished(frame.image_index),
            extra_signals,
        );
        batches.push(Batch { waits, command_buffer, signals });
        self.last_submitted = Some(frame.image_index);
        batches
    }

    /// The present ended: the swapchain is recreated before the next frame if
    /// it no longer fits.
    pub fn presented(&mut self, outcomes: &Vec<PresentOutcome>)
        ensures
            *final(self) == (SwapchainRenderer {
                needs_recreate: old(self).needs_recreate || exists|i: int|
                    0 <= i < outcomes.len() && #[trigger] outcomes[i] != (
                    PresentOutcome::Presented { suboptimal: false }),
                ..*old(self)
            }),
    {
        let mut i: usize = 0;
        while i < outcomes.len()
            invariant
                i <= outcomes.len(),
                *self == (SwapchainRenderer {
                    needs_recreate: old(self).needs_recreate || exists|k: int|
                        0 <= k < i && #[trigger] outcomes[k] != (PresentOutcome::Presented {
                            suboptimal: false,
                        }),
                    ..*old(self)
                }),
            decreases outcomes.len() - i,
        {
            match outcomes[i] {
                PresentOutcome::Presented { suboptimal } => {
                    if suboptimal {
                        self.needs_recreate = true;
                    }
                },
                PresentOutcome::OutOfDate => {
                    self.needs_recreate = true;
                },
            }
            i = i + 1;
        }
    }
}

fn headed(first: Semaphore, rest: &Vec<Semaphore>) -> (r: Vec<Semaphore>)
    ensures
        r@ == seq![first] + rest@,
{
    let mut r: Vec<Semaphore> = Vec::new();
    r.push(first);
    let mut i: usize = 0;
    assert(r@ =~= seq![first] + rest@.take(0));
    while i < rest.len()
        invariant
            i <= rest.len(),
            r@ == seq![first] + rest@.take(i as int),
        decreases rest.len() - i,
    {
        r.push(rest[i]);
        i = i + 1;
        assert(r@ =~= seq![first] + rest@.take(i as int));
    }
    assert(rest@.take(i as int) =~= rest@);
    r
}

/// Whose turn it is `k` acquires after `next`'s.
pub open spec fn turn(next: nat, max_frames: nat, k: nat) -> nat
    decreases k,
{
    if k == 0 {
        next
    } else {
        (turn(next, max_frames, (k - 1) as nat) + 1) % max_frames
    }
}

proof fn lemma_turn(next: nat, max_frames: nat, k: nat)
    requires
        next < max_frames,
    ensures
        turn(next, max_frames, k) == (next + k) % max_frames,
    decreases k,
{
    if k == 0 {
        vstd::arithmetic::div_mod::lemma_small_mod(next, max_frames);
    } else {
        lemma_turn(next, max_frames, (k - 1) as nat);
        vstd::arithmetic::div_mod::lemma_add_mod_noop(
            (next + k - 1) as int,
            1,
            max_frames as int,
        );
        vstd::arithmetic::div_mod::lemma_add_mod_noop(
            ((next + k - 1) as nat % max_frames) as int,
            1,
            max_frames as int,
        );
        vstd::arithmetic::div_mod::lemma_mod_twice((next + k - 1) as int, max_frames as int);
    }
}

/// The acquire semaphores are used in turn: after `max_frames` acquires the
/// first one comes round again, and not before.
pub proof fn semaphores_take_turns(next: nat, max_frames: nat, k: nat)
    requires
        next < max_frames,
        0 < k <= max_frames,
    ensures
        turn(next, max_frames, k) == next <==> k == max_frames,
{
    lemma_turn(next, max_frames, k);
    if k == max_frames {
        vstd::arithmetic::div_mod::lemma_mod_add_multiples_vanish(next as int, max_frames as int);
        vstd::arithmetic::div_mod::lemma_small_mod(next, max_frames);
    } else if next + k < max_frames {
        vstd::arithmetic::div_mod::lemma_small_mod(next + k, max_frames);
    } else {
        let rest = (next + k - max_frames) as nat;
        vstd::arithmetic::div_mod::lemma_mod_add_multiples_vanish(rest as int, max_frames as int);
        vstd::arithmetic::div_mod::lemma_small_mod(rest, max_frames);
    }
}

/// A frame that recreates the swapchain ends there: asked again, it is
/// skipped, whatever the window's size. The next frame acquires with the
/// semaphore that was due, and the pool has not moved.
pub proof fn recreating_ends_the_frame(
    s: SwapchainRenderer,
    image_count: usize,
    extent: [u32; 2],
    later: [u32; 2],
)
    requires
        s.wf(),
    ensures
        s.renewed(image_count).step(extent) is Skip,
        s.renewed(image_count).stepped(AcquireStep::Skip).step(later) == (AcquireStep::Acquire {
            semaphore: s.next_acquire,
        }),
        s.renewed(image_count).stepped(AcquireStep::Skip).wf(),
{
}

/// A window without area recreates nothing: frames are skipped, and nothing
/// changes, until it has one.
pub proof fn minimised_windows_wait(s: SwapchainRenderer, extent: [u32; 2])
    requires
        s.wf(),
        s.needs_recreate,
        !s.skips_frame,
        extent[0] == 0 || extent[1] == 0,
    ensures
        s.step(extent) is Skip,
        s.stepped(AcquireStep::Skip) == s,
        forall|e: [u32; 2]| e[0] != 0 && e[1] != 0 ==> #[trigger] s.step(e) is Recreate,
{
}

/// A frame that may go on acquires with the semaphore that is due. One whose
/// swapchain no longer fits recreates it, unless the window has no area; one in
/// which it was recreated is skipped.
pub proof fn frames_acquire_or_recreate(s: SwapchainRenderer, extent: [u32; 2])
    ensures
        s.skips_frame ==> s.step(extent) is Skip,
        !s.skips_frame && !s.needs_recreate ==> s.step(extent) == (AcquireStep::Acquire {
            semaphore: s.next_acquire,
        }),
        !s.skips_frame && s.needs_recreate && extent[0] > 0 && extent[1] > 0 ==> s.step(
            extent,
        ) is Recreate,
        !s.skips_frame && s.needs_recreate && (extent[0] == 0 || extent[1] == 0) ==> s.step(
            extent,
        ) is Skip,
{
}

/// Only an acquire moves the pool on, by one and round again, and a skip is
/// spent on one frame. Nothing else changes.
pub proof fn steps_move_only_the_pool(s: SwapchainRenderer, step: AcquireStep)
    requires
        s.wf(),
    ensures
        ({
            let n = s.stepped(step);
            &&& step is Acquire && s.next_acquire + 1 < s.max_frames ==> n.next_acquire
                == s.next_acquire + 1
            &&& step is Acquire && s.next_acquire + 1 == s.max_frames ==> n.next_acquire == 0
            &&& !(step is Acquire) ==> n.next_acquire == s.next_acquire
            &&& !n.skips_frame
            &&& n.needs_recreate == s.needs_recreate
            &&& n.image_count == s.image_count
            &&& n.present_mode == s.present_mode
            &&& n.max_frames == s.max_frames
            &&& n.last_submitted == s.last_submitted
            &&& n.prev_frame_fence == s.prev_frame_fence
        }),
{
    let next = s.next_acquire as nat;
    let max = s.max_frames as nat;
    reveal_with_fuel(turn, 2);
    if next + 1 < max {
        vstd::arithmetic::div_mod::lemma_small_mod(next + 1, max);
    } else {
        vstd::arithmetic::div_mod::lemma_mod_self_0(max as int);
    }
}

/// A recreated swapchain fits, has its new images, and no frame to wait for;
/// the frame it was recreated in is skipped, and the pool stands where it was.
pub proof fn recreating_starts_over(s: SwapchainRenderer, image_count: usize)
    ensures
        ({
            let n = s.renewed(image_count);
            &&& n.image_count == image_count
            &&& !n.needs_recreate
            &&& n.skips_frame
            &&& n.last_submitted is None
            &&& n.prev_frame_fence is None
            &&& n.next_acquire == s.next_acquire
            &&& n.max_frames == s.max_frames
            &&& n.present_mode == s.present_mode
        }),
{
}

} // verus!
