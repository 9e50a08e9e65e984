//! Frame timings: what every phase of the frames of a window cost, and when
//! the window is printed.

use crate::text::{joined, pad, padded};
use vstd::prelude::*;
use vstd::string::*;

verus! {

/// The clock is sampled only every so many frames; a power of two.
pub const FRAMES_PER_FPS_SAMPLE: u32 = 512;

/// Minimum, maximum, sum and count of one phase over a window.
#[derive(Clone, Copy, PartialEq, Eq, Structural, Debug)]
pub struct PhaseAcc {
    pub min_ns: u64,
    pub max_ns: u64,
    pub sum_ns: u128,
    pub count: u64,
}

/// The sum of samples.
pub open spec fn sum_of(samples: Seq<u64>) -> nat
    decreases samples.len(),
{
    if samples.len() == 0 {
        0
    } else {
        sum_of(samples.drop_last()) + samples.last() as nat
    }
}

impl PhaseAcc {
    /// This summarizes the samples.
    pub open spec fn summarizes(&self, samples: Seq<u64>) -> bool {
        &&& self.count == samples.len()
        &&& self.sum_ns == sum_of(samples)
        &&& samples.len() > 0 ==> samples.contains(self.min_ns) && samples.contains(self.max_ns)
        &&& forall|i: int|
            0 <= i < samples.len() ==> self.min_ns <= #[trigger] samples[i] <= self.max_ns
    }

    /// The sum is that of `count` samples of the nanosecond counter's range.
    pub open spec fn wf(&self) -> bool {
        self.sum_ns <= self.count * 0xffff_ffff_ffff_ffff
    }

    pub open spec fn is_empty(&self) -> bool {
        *self == (PhaseAcc { min_ns: 0, max_ns: 0, sum_ns: 0, count: 0 })
    }

    pub fn new() -> (r: Self)
        ensures
            r.is_empty(),
            r.wf(),
            r.summarizes(Seq::empty()),
    {
        PhaseAcc { min_ns: 0, max_ns: 0, sum_ns: 0, count: 0 }
    }

    pub fn record(&mut self, ns: u64)
        requires
            old(self).wf(),
            old(self).count < u64::MAX,
        ensures
            final(self).wf(),
            final(self).count == old(self).count + 1,
            final(self).sum_ns == old(self).sum_ns + ns,
            final(self).min_ns == if old(self).count == 0 || ns < old(self).min_ns {
                ns
            } else {
                old(self).min_ns
            },
            final(self).max_ns == if old(self).count == 0 || ns > old(self).max_ns {
                ns
            } else {
                old(self).max_ns
            },
            forall|samples: Seq<u64>| #[trigger]
                old(self).summarizes(samples) ==> final(self).summarizes(samples.push(ns)),
    {
        let ghost before = *self;
        if self.count == 0 {
            self.min_ns = ns;
            self.max_ns = ns;
        } else {
            if ns < self.min_ns {
                self.min_ns = ns;
            }
            if ns > self.max_ns {
                self.max_ns = ns;
            }
        }
        assert(self.count * 0xffff_ffff_ffff_ffff <= 0xffff_ffff_ffff_fffe * 0xffff_ffff_ffff_ffff)
            by (nonlinear_arith)
            requires
                self.count <= 0xffff_ffff_ffff_fffe,
        ;
        self.sum_ns = self.sum_ns + ns as u128;
        self.count = self.count + 1;
        assert(self.count * 0xffff_ffff_ffff_ffff == before.count * 0xffff_ffff_ffff_ffff
            + 0xffff_ffff_ffff_ffff) by (nonlinear_arith)
            requires
                self.count == before.count + 1,
        ;
        assert forall|samples: Seq<u64>| #[trigger]
            before.summarizes(samples) implies self.summarizes(samples.push(ns)) by {
            let more = samples.push(ns);
            assert(more.drop_last() =~= samples);
            assert(more[samples.len() as int] == ns);
            if samples.len() > 0 {
                let i = choose|i: int| 0 <= i < samples.len() && samples[i] == before.min_ns;
                assert(more[i] == before.min_ns);
                let j = choose|j: int| 0 <= j < samples.len() && samples[j] == before.max_ns;
                assert(more[j] == before.max_ns);
            }
            assert forall|i: int| 0 <= i < more.len() implies self.min_ns <= #[trigger] more[i]
                <= self.max_ns by {
                if i < samples.len() {
                    assert(more[i] == samples[i]);
                }
            }
        }
    }

    /// The phase's text: a dash if the window has no sample, else the three
    /// figures, which the caller has brought to microseconds with one decimal.
    pub fn fmt_us(&self, min: &str, avg: &str, max: &str) -> (r: String)
        ensures
            self.count == 0 ==> r@ == "—"@,
            self.count > 0 ==> r@ == padded(min@, 6) + "/"@ + padded(avg@, 6) + "/"@ + padded(
                max@,
                6,
            ),
    {
        if self.count == 0 {
            return "—".to_owned();
        }
        let r: String = joined(pad(min, 6), "/");
        let r: String = joined(joined(r, pad(avg, 6).as_str()), "/");
        joined(r, pad(max, 6).as_str())
    }
}

/// What a window's figures are of.
pub struct FrameStats {
    pub frame_count: u32,
    pub acquire: PhaseAcc,
    pub host_wait_compute: PhaseAcc,
    pub host_staging: PhaseAcc,
    pub cpu_staging: PhaseAcc,
    pub cpu_gpu_staging: PhaseAcc,
    pub main_wait: PhaseAcc,
    pub sim_update: PhaseAcc,
    /// Scatter, first cull, first draw, pyramid, second cull, second draw,
    /// blit.
    pub gpu_stages: [PhaseAcc; 7],
    pub gpu_total: PhaseAcc,
}

impl FrameStats {
    pub open spec fn wf(&self) -> bool {
        &&& self.acquire.wf()
        &&& self.host_wait_compute.wf()
        &&& self.host_staging.wf()
        &&& self.cpu_staging.wf()
        &&& self.cpu_gpu_staging.wf()
        &&& self.main_wait.wf()
        &&& self.sim_update.wf()
        &&& forall|i: int| 0 <= i < 7 ==> (#[trigger] self.gpu_stages[i]).wf()
        &&& self.gpu_total.wf()
    }

    /// Nothing recorded yet.
    pub open spec fn is_empty(&self) -> bool {
        &&& self.frame_count == 0
        &&& self.acquire.is_empty()
        &&& self.host_wait_compute.is_empty()
        &&& self.host_staging.is_empty()
        &&& self.cpu_staging.is_empty()
        &&& self.cpu_gpu_staging.is_empty()
        &&& self.main_wait.is_empty()
        &&& self.sim_update.is_empty()
        &&& forall|i: int| 0 <= i < 7 ==> (#[trigger] self.gpu_stages[i]).is_empty()
        &&& self.gpu_total.is_empty()
    }

    pub fn new() -> (r: Self)
        ensures
            r.wf(),
            r.is_empty(),
    {
        let e: PhaseAcc = PhaseAcc::new();
        FrameStats {
            frame_count: 0,
            acquire: e,
            host_wait_compute: e,
            host_staging: e,
            cpu_staging: e,
            cpu_gpu_staging: e,
            main_wait: e,
            sim_update: e,
            gpu_stages: [e, e, e, e, e, e, e],
            gpu_total: e,
        }
    }

    pub fn record_acquire(&mut self, ns: u64)
        requires
            old(self).wf(),
            old(self).acquire.count < u64::MAX,
        ensures
            final(self).wf(),
            recorded(old(self).acquire, final(self).acquire, ns),
            *final(self) == (FrameStats { acquire: final(self).acquire, ..*old(self) }),
    {
        self.acquire.record(ns);
    }

    pub fn record_host_wait_compute(&mut self, ns: u64)
        requires
            old(self).wf(),
            old(self).host_wait_compute.count < u64::MAX,
        ensures
            final(self).wf(),
            recorded(old(self).host_wait_compute, final(self).host_wait_compute, ns),
            *final(self) == (FrameStats {
                host_wait_compute: final(self).host_wait_compute,
                ..*old(self)
            }),
    {
        self.host_wait_compute.record(ns);
    }

    pub fn record_host_staging(&mut self, ns: u64)
        requires
            old(self).wf(),
            old(self).host_staging.count < u64::MAX,
        ensures
            final(self).wf(),
            recorded(old(self).host_staging, final(self).host_staging, ns),
            *final(self) == (FrameStats { host_staging: final(self).host_staging, ..*old(self) }),
    {
        self.host_staging.record(ns);
    }

    /// The harvest's time, as the simulating thread reported it.
    pub fn record_cpu_staging(&mut self, ns: u64)
        requires
            old(self).wf(),
            old(self).cpu_staging.count < u64::MAX,
        ensures
            final(self).wf(),
            recorded(old(self).cpu_staging, final(self).cpu_staging, ns),
            *final(self) == (FrameStats { cpu_staging: final(self).cpu_staging, ..*old(self) }),
    {
        self.cpu_staging.record(ns);
    }

    /// The promotion's time.
    pub fn record_cpu_gpu_staging(&mut self, ns: u64)
        requires
            old(self).wf(),
            old(self).cpu_gpu_staging.count < u64::MAX,
        ensures
            final(self).wf(),
            recorded(old(self).cpu_gpu_staging, final(self).cpu_gpu_staging, ns),
            *final(self) == (FrameStats {
                cpu_gpu_staging: final(self).cpu_gpu_staging,
                ..*old(self)
            }),
    {
        self.cpu_gpu_staging.record(ns);
    }

    pub fn record_main_wait(&mut self, ns: u64)
        requires
            old(self).wf(),
            old(self).main_wait.count < u64::MAX,
        ensures
            final(self).wf(),
            recorded(old(self).main_wait, final(self).main_wait, ns),
            *final(self) == (FrameStats { main_wait: final(self).main_wait, ..*old(self) }),
    {
        self.main_wait.record(ns);
    }

    pub fn record_sim_update(&mut self, ns: u64)
        requires
            old(self).wf(),
            old(self).sim_update.count < u64::MAX,
        ensures
            final(self).wf(),
            recorded(old(self).sim_update, final(self).sim_update, ns),
            *final(self) == (FrameStats { sim_update: final(self).sim_update, ..*old(self) }),
    {
        self.sim_update.record(ns);
    }

    /// Record one frame's GPU times: seven stages, then the whole.
    pub fn record_gpu_timestamps(&mut self, deltas_ns: &[u64; 8])
        requires
            old(self).wf(),
            old(self).gpu_total.count < u64::MAX,
            forall|i: int| 0 <= i < 7 ==> (#[trigger] old(self).gpu_stages[i]).count < u64::MAX,
        ensures
            final(self).wf(),
            forall|i: int|
                0 <= i < 7 ==> recorded(
                    old(self).gpu_stages[i],
                    #[trigger] final(self).gpu_stages[i],
                    deltas_ns[i],
                ),
            recorded(old(self).gpu_total, final(self).gpu_total, deltas_ns[7]),
            *final(self) == (FrameStats {
                gpu_stages: final(self).gpu_stages,
                gpu_total: final(self).gpu_total,
                ..*old(self)
            }),
    {
        let ghost before = *self;
        let mut stages: [PhaseAcc; 7] = self.gpu_stages;
        let mut i: usize = 0;
        while i < 7
            invariant
                i <= 7,
                before.wf(),
                forall|k: int| 0 <= k < 7 ==> (#[trigger] before.gpu_stages[k]).count < u64::MAX,
                forall|k: int| 0 <= k < 7 ==> (#[trigger] stages[k]).wf(),
                forall|k: int| i <= k < 7 ==> #[trigger] stages[k] == before.gpu_stages[k],
                forall|k: int|
                    0 <= k < i ==> recorded(
                        before.gpu_stages[k],
                        #[trigger] stages[k],
                        deltas_ns[k],
                    ),
            decreases 7 - i,
        {
            let mut acc: PhaseAcc = stages[i];
            assert(before.gpu_stages[i as int].count < u64::MAX);
            acc.record(deltas_ns[i]);
            stages[i] = acc;
            i = i + 1;
        }
        self.gpu_stages = stages;
        self.gpu_total.record(deltas_ns[7]);
    }

    /// Another frame can be counted and timed.
    pub open spec fn has_room(&self) -> bool {
        &&& self.frame_count < u32::MAX
        &&& self.host_staging.count < u64::MAX
        &&& self.cpu_gpu_staging.count < u64::MAX
        &&& self.sim_update.count < u64::MAX
        &&& self.cpu_staging.count < u64::MAX
        &&& self.main_wait.count < u64::MAX
    }

    /// Count a frame. The window ends, and its figures come back, on a sampled
    /// frame that is at least a second after the last print; a new one starts.
    pub fn tick(&mut self, elapsed_secs: u64) -> (r: Option<FrameStats>)
        requires
            old(self).wf(),
            old(self).frame_count < u32::MAX,
        ensures
            final(self).wf(),
            (r is Some) == ((old(self).frame_count + 1) % 512 == 0 && elapsed_secs >= 1),
            r is Some ==> final(self).is_empty() && r->0 == (FrameStats {
                frame_count: (old(self).frame_count + 1) as u32,
                ..*old(self)
            }),
            r is None ==> *final(self) == (FrameStats {
                frame_count: (old(self).frame_count + 1) as u32,
                ..*old(self)
            }),
    {
        self.frame_count = self.frame_count + 1;
        let n: u32 = self.frame_count;
        assert(n & 511 == n % 512) by (bit_vector);
        if n & (FRAMES_PER_FPS_SAMPLE - 1) == 0 && elapsed_secs >= 1 {
            let window = FrameStats {
                frame_count: self.frame_count,
                acquire: self.acquire,
                host_wait_compute: self.host_wait_compute,
                host_staging: self.host_staging,
                cpu_staging: self.cpu_staging,
                cpu_gpu_staging: self.cpu_gpu_staging,
                main_wait: self.main_wait,
                sim_update: self.sim_update,
                gpu_stages: self.gpu_stages,
                gpu_total: self.gpu_total,
            };
            *self = FrameStats::new();
            Some(window)
        } else {
            None
        }
    }
}

/// `after` is `before` with `ns` recorded.
pub open spec fn recorded(before: PhaseAcc, after: PhaseAcc, ns: u64) -> bool {
    &&& after.count == before.count + 1
    &&& after.sum_ns == before.sum_ns + ns
    &&& after.min_ns == if before.count == 0 || ns < before.min_ns {
        ns
    } else {
        before.min_ns
    }
    &&& after.max_ns == if before.count == 0 || ns > before.max_ns {
        ns
    } else {
        before.max_ns
    }
}

/// The texts of a window's phases.
pub struct PhaseTexts {
    pub acquire: String,
    pub host_wait_compute: String,
    pub host_staging: String,
    pub cpu_gpu_staging: String,
    pub sim_update: String,
    pub main_wait: String,
    pub cpu_staging: String,
}

/// The line with the frame rate and the host's phases.
pub fn fps_line(fps: &str, ms: &str, p: &PhaseTexts) -> (r: String)
    ensures
        r@ == "FPS: "@ + fps@ + "  ("@ + ms@ + " ms/frame)  | us min/avg/max  acquire "@
            + p.acquire@ + " | host_wait_compute "@ + p.host_wait_compute@ + " | host_staging "@
            + p.host_staging@ + " [cpu_gpu_staging "@ + p.cpu_gpu_staging@ + "] | sim_update "@
            + p.sim_update@ + " | main_wait "@ + p.main_wait@ + " | cpu_staging "@ + p.cpu_staging@,
{
    let l: String = joined("FPS: ".to_owned(), fps);
    let l: String = joined(joined(l, "  ("), ms);
    let l: String = joined(l, " ms/frame)  | us min/avg/max  acquire ");
    let l: String = joined(l, p.acquire.as_str());
    let l: String = joined(l, " | host_wait_compute ");
    let l: String = joined(l, p.host_wait_compute.as_str());
    let l: String = joined(l, " | host_staging ");
    let l: String = joined(l, p.host_staging.as_str());
    let l: String = joined(l, " [cpu_gpu_staging ");
    let l: String = joined(l, p.cpu_gpu_staging.as_str());
    let l: String = joined(l, "] | sim_update ");
    let l: String = joined(l, p.sim_update.as_str());
    let l: String = joined(l, " | main_wait ");
    let l: String = joined(l, p.main_wait.as_str());
    let l: String = joined(l, " | cpu_staging ");
    joined(l, p.cpu_staging.as_str())
}

/// The line with the GPU's stages; `stages` has one text for each, and the
/// whole frame's last.
pub fn gpu_line(stages: &[String; 8]) -> (r: String)
    ensures
        r@ == "  gpu us min/avg/max  scatter "@ + stages[0]@ + " | mvp1 "@ + stages[1]@
            + " | raster1 "@ + stages[2]@ + " | hiz "@ + stages[3]@ + " | mvp2 "@ + stages[4]@
            + " | raster2 "@ + stages[5]@ + " | blit "@ + stages[6]@ + " | total "@ + stages[7]@,
{
    let l: String = joined("  gpu us min/avg/max  scatter ".to_owned(), stages[0].as_str());
    let l: String = joined(joined(l, " | mvp1 "), stages[1].as_str());
    let l: String = joined(joined(l, " | raster1 "), stages[2].as_str());
    let l: String = joined(joined(l, " | hiz "), stages[3].as_str());
    let l: String = joined(joined(l, " | mvp2 "), stages[4].as_str());
    let l: String = joined(joined(l, " | raster2 "), stages[5].as_str());
    let l: String = joined(joined(l, " | blit "), stages[6].as_str());
    joined(joined(l, " | total "), stages[7].as_str())
}

/// The ticks that each stage of a frame took, and the whole frame last. A
/// timestamp that runs backwards counts as no time.
pub fn stage_ticks(ticks: &[u64; 8]) -> (r: [u64; 8])
    ensures
        forall|i: int|
            0 <= i < 7 ==> #[trigger] r[i] == if ticks[i + 1] >= ticks[i] {
                ticks[i + 1] - ticks[i]
            } else {
                0
            },
        r[7] == if ticks[7] >= ticks[0] {
            ticks[7] - ticks[0]
        } else {
            0
        },
{
    [
        ticks[1].saturating_sub(ticks[0]),
        ticks[2].saturating_sub(ticks[1]),
        ticks[3].saturating_sub(ticks[2]),
        ticks[4].saturating_sub(ticks[3]),
        ticks[5].saturating_sub(ticks[4]),
        ticks[6].saturating_sub(ticks[5]),
        ticks[7].saturating_sub(ticks[6]),
        ticks[7].saturating_sub(ticks[0]),
    ]
}

/// The measurements of the last frame, for whoever is not the renderer: the
/// frame time and the smoothed rate as bit patterns, and the extent.
#[derive(Clone, Copy)]
pub struct Published {
    pub dt: u32,
    pub fps: u32,
    pub screen: [u32; 2],
}

impl Published {
    pub fn new() -> (r: Self)
        ensures
            r.dt == 0,
            r.fps == 0,
            r.screen@ == seq![0u32, 0u32],
    {
        let r = Published { dt: 0, fps: 0, screen: [0, 0] };
        assert(r.screen@ =~= seq![0u32, 0u32]);
        r
    }

    /// Publish this frame's measurements. The first rate is taken as it is,
    /// and every later one smoothed, as long as the last is a positive one.
    pub fn publish(&mut self, dt: u32, instant_fps: u32, smoothed_fps: u32, extent: [u32; 2])
        ensures
            final(self).dt == dt,
            final(self).screen == extent,
            final(self).fps == if crate::order::lt(0, old(self).fps) {
                smoothed_fps
            } else {
                instant_fps
            },
    {
        self.dt = dt;
        self.fps = if crate::order::less(0, self.fps) { smoothed_fps } else { instant_fps };
        self.screen = extent;
    }
}

/// Last frame's duration in seconds.
pub fn dt(p: &Published) -> (r: u32)
    ensures
        r == p.dt,
{
    p.dt
}

/// Smoothed frame rate.
pub fn fps(p: &Published) -> (r: u32)
    ensures
        r == p.fps,
{
    p.fps
}

/// The swapchain's extent in pixels.
pub fn screen(p: &Published) -> (r: [u32; 2])
    ensures
        r == p.screen,
{
    p.screen
}

/// A window's figures are those of its frames: samples recorded one after the
/// other are summarized in order of recording.
pub proof fn windows_summarize_their_samples(acc: PhaseAcc, samples: Seq<u64>)
    requires
        acc.summarizes(samples),
        samples.len() > 0,
    ensures
        acc.min_ns <= acc.max_ns,
        acc.min_ns * acc.count <= acc.sum_ns <= acc.max_ns * acc.count,
{
    assert(acc.min_ns <= samples[0] <= acc.max_ns);
    lemma_sum_bounds(samples, acc.min_ns, acc.max_ns);
}

proof fn lemma_sum_bounds(samples: Seq<u64>, lo: u64, hi: u64)
    requires
        forall|i: int| 0 <= i < samples.len() ==> lo <= #[trigger] samples[i] <= hi,
    ensures
        lo * samples.len() <= sum_of(samples) <= hi * samples.len(),
    decreases samples.len(),
{
    if samples.len() > 0 {
        let rest = samples.drop_last();
        assert forall|i: int| 0 <= i < rest.len() implies lo <= #[trigger] rest[i] <= hi by {
            assert(rest[i] == samples[i]);
        }
        lemma_sum_bounds(rest, lo, hi);
        assert(lo <= samples[samples.len() - 1] <= hi);
        assert(lo * samples.len() == lo * rest.len() + lo && hi * samples.len() == hi * rest.len()
            + hi) by (nonlinear_arith)
            requires
                samples.len() == rest.len() + 1,
        ;
    }
}

/// A sample that is recorded is one more, adds its time, and moves the bounds
/// no further than to itself; the first one is both bounds.
pub proof fn recording_adds_one_sample(before: PhaseAcc, after: PhaseAcc, ns: u64)
    requires
        recorded(before, after, ns),
    ensures
        after.count == before.count + 1,
        after.sum_ns == before.sum_ns + ns,
        after.min_ns <= ns <= after.max_ns,
        before.count == 0 ==> after.min_ns == ns && after.max_ns == ns,
        before.count > 0 ==> after.min_ns <= before.min_ns && after.max_ns >= before.max_ns,
        before.count > 0 ==> after.min_ns == ns || after.min_ns == before.min_ns,
        before.count > 0 ==> after.max_ns == ns || after.max_ns == before.max_ns,
{
}

/// The sum of samples is each of them once.
pub proof fn samples_add_up(samples: Seq<u64>, ns: u64)
    ensures
        sum_of(Seq::<u64>::empty()) == 0,
        sum_of(samples.push(ns)) == sum_of(samples) + ns,
{
    assert(samples.push(ns).drop_last() =~= samples);
}

/// A new window has no frame and no sample in it, of any phase.
pub proof fn new_windows_are_empty(s: FrameStats, i: int)
    requires
        s.is_empty(),
        0 <= i < 7,
    ensures
        s.frame_count == 0,
        s.acquire.count == 0 && s.acquire.sum_ns == 0,
        s.acquire.min_ns == 0 && s.acquire.max_ns == 0,
        s.host_wait_compute.count == 0 && s.host_wait_compute.sum_ns == 0,
        s.host_staging.count == 0 && s.host_staging.sum_ns == 0,
        s.cpu_staging.count == 0 && s.cpu_staging.sum_ns == 0,
        s.cpu_gpu_staging.count == 0 && s.cpu_gpu_staging.sum_ns == 0,
        s.main_wait.count == 0 && s.main_wait.sum_ns == 0,
        s.sim_update.count == 0 && s.sim_update.sum_ns == 0,
        s.gpu_stages[i].count == 0 && s.gpu_stages[i].sum_ns == 0,
        s.gpu_total.count == 0 && s.gpu_total.sum_ns == 0,
{
}

} // verus!
