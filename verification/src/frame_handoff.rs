//! CPU-hosted transform staging and the handoff between the thread that
//! simulates and the thread that renders.
//!
//! The simulating thread harvests the transforms that changed this frame into
//! a plain heap buffer, [`CpuTrsStaging`]; the rendering thread promotes the
//! marked ones into the GPU-visible staging, [`GpuStaging`], and gives the
//! buffer back. There is a single buffer, so the two sides strictly alternate:
//! [`FrameHandoff`] holds the generation counters that say whose turn it is.
//!
//! Transform values are carried as bit patterns: three words for a position
//! or a scale, two words (packed halves) for a rotation.

use crate::dirty::{
    copied, copy_word, dirty_word_count, lemma_copied_adjacent, lemma_zero_word, marked, word_count,
};
use crate::growth::{grow_usize, grown, lemma_ceil_div, max_usize, min_usize};
use vstd::prelude::*;

verus! {

/// The bit pattern of the number one.
pub const ONE_BITS: u32 = 0x3f80_0000;

/// Packs a `[width, height]` extent as `(width << 32) | height`.
pub open spec fn packed_extent(extent: [u32; 2]) -> int {
    extent[0] * 0x1_0000_0000 + extent[1]
}

pub fn pack_extent(extent: [u32; 2]) -> (r: u64)
    ensures
        r == packed_extent(extent),
{
    let w: u64 = extent[0] as u64;
    let h: u64 = extent[1] as u64;
    assert(w <= 0xffff_ffff && h <= 0xffff_ffff ==> ((w << 32) | h) == w * 0x1_0000_0000 + h)
        by (bit_vector);
    (w << 32) | h
}

pub fn unpack_extent(packed: u64) -> (r: [u32; 2])
    ensures
        packed_extent(r) == packed,
{
    assert((packed >> 32) <= 0xffff_ffff) by (bit_vector);
    assert(packed == (packed >> 32) * 0x1_0000_0000 + (packed & 0xffff_ffff)) by (bit_vector);
    assert((packed & 0xffff_ffff) <= 0xffff_ffff) by (bit_vector);
    [(packed >> 32) as u32, (packed & 0xffff_ffff) as u32]
}

/// An extent survives the trip through its packed form.
pub proof fn extent_round_trips(a: [u32; 2], b: [u32; 2])
    ensures
        packed_extent(a) == packed_extent(b) <==> a == b,
        0 <= packed_extent(a) <= u64::MAX,
{
    if packed_extent(a) == packed_extent(b) {
        assert(a[0] == b[0] && a[1] == b[1]);
        assert(a@ =~= b@);
        assert(a == b) by {
            vstd::array::axiom_array_ext_equal(a, b);
        }
    }
}

/// The first and the last dirty word of a component this frame. `max_word < 0`
/// means that the component is untouched, and `min_word` is meaningless then.
#[derive(Clone, Copy, PartialEq, Eq, Structural, Debug)]
pub struct WordSpan {
    pub min_word: i64,
    pub max_word: i64,
}

/// The span of a component that nothing touched.
pub open spec fn untouched() -> WordSpan {
    WordSpan { min_word: i64::MAX, max_word: -1i64 }
}

/// Whether some word of `[from, to)` is dirty.
pub open spec fn any_dirty(words: Seq<u32>, from: int, to: int) -> bool {
    exists|w: int| from <= w < to && #[trigger] words[w] != 0
}

/// `s` is the span of the dirty words among `words[from..to]`.
pub open spec fn spans(s: WordSpan, words: Seq<u32>, from: int, to: int) -> bool {
    if any_dirty(words, from, to) {
        &&& from <= s.min_word <= s.max_word < to
        &&& words[s.min_word as int] != 0
        &&& words[s.max_word as int] != 0
        &&& forall|w: int|
            from <= w < to && #[trigger] words[w] != 0 ==> s.min_word <= w <= s.max_word
    } else {
        s == untouched()
    }
}

impl WordSpan {
    /// The span of the words of both: `fetch_min` of the one end and
    /// `fetch_max` of the other.
    fn merge(self, later: WordSpan) -> (r: WordSpan)
        ensures
            forall|words: Seq<u32>, from: int, mid: int, to: int|
                from <= mid <= to && #[trigger] spans(self, words, from, mid) && #[trigger] spans(
                    later,
                    words,
                    mid,
                    to,
                ) && to <= i64::MAX && 0 <= from ==> spans(r, words, from, to),
    {
        let r = if later.max_word < 0 {
            self
        } else {
            WordSpan {
                min_word: if self.min_word <= later.min_word {
                    self.min_word
                } else {
                    later.min_word
                },
                max_word: if self.max_word >= later.max_word {
                    self.max_word
                } else {
                    later.max_word
                },
            }
        };
        assert forall|words: Seq<u32>, from: int, mid: int, to: int|
            from <= mid <= to && #[trigger] spans(self, words, from, mid) && #[trigger] spans(
                later,
                words,
                mid,
                to,
            ) && to <= i64::MAX && 0 <= from implies spans(r, words, from, to) by {
            if any_dirty(words, from, mid) {
                assert(words[self.min_word as int] != 0);
            }
            if any_dirty(words, mid, to) {
                assert(words[later.min_word as int] != 0);
                assert(words[later.max_word as int] != 0);
            }
            if any_dirty(words, from, to) {
                let w = choose|w: int| from <= w < to && #[trigger] words[w] != 0;
                assert(w < mid || w >= mid);
            }
        }
        r
    }

    /// Extends the span of `words[from..w]` by word `w`.
    fn touch(self, w: usize) -> (r: WordSpan)
        requires
            w <= i64::MAX,
        ensures
            forall|words: Seq<u32>, from: int|
                0 <= from <= w && #[trigger] spans(self, words, from, w as int) && words[w as int]
                    != 0 ==> spans(r, words, from, w + 1),
    {
        let r = WordSpan {
            min_word: if self.min_word == i64::MAX { w as i64 } else { self.min_word },
            max_word: w as i64,
        };
        assert forall|words: Seq<u32>, from: int|
            0 <= from <= w && #[trigger] spans(self, words, from, w as int) && words[w as int]
                != 0 implies spans(r, words, from, w + 1) by {
            assert(any_dirty(words, from, w + 1));
        }
        r
    }
}

/// A clean word leaves the span as it is.
proof fn lemma_span_clean(s: WordSpan, words: Seq<u32>, from: int, w: int)
    requires
        from <= w,
        spans(s, words, from, w),
        words[w] == 0,
    ensures
        spans(s, words, from, w + 1),
{
    if any_dirty(words, from, w + 1) {
        let k = choose|k: int| from <= k < w + 1 && #[trigger] words[k] != 0;
        assert(from <= k < w);
    }
    if any_dirty(words, from, w) {
        let k = choose|k: int| from <= k < w && #[trigger] words[k] != 0;
        assert(from <= k < w + 1);
    }
}

/// What a scene's transform hierarchy offers the harvest: per component the
/// words of its dirty bitmask, and the flat values of `entity_count` entities.
pub struct TrsSource {
    pub position_words: Vec<u32>,
    pub rotation_words: Vec<u32>,
    pub scale_words: Vec<u32>,
    pub positions: Vec<u32>,
    pub rotations: Vec<u32>,
    pub scales: Vec<u32>,
    pub entity_count: usize,
}

impl TrsSource {
    pub open spec fn wf(&self) -> bool {
        &&& self.rotation_words.len() == self.position_words.len()
        &&& self.scale_words.len() == self.position_words.len()
        &&& self.positions.len() == 3 * self.entity_count
        &&& self.rotations.len() == 2 * self.entity_count
        &&& self.scales.len() == 3 * self.entity_count
    }

    /// The words of the bitmask that a buffer of `capacity` slots can take.
    pub open spec fn words_taken(&self, capacity: nat) -> int {
        if self.position_words.len() <= word_count(capacity) {
            self.position_words.len() as int
        } else {
            word_count(capacity) as int
        }
    }

    /// The entities that a buffer of `capacity` slots can take.
    pub open spec fn entities_taken(&self, capacity: nat) -> int {
        if self.entity_count <= capacity {
            self.entity_count as int
        } else {
            capacity as int
        }
    }
}

/// Per-entity-slot transforms staged on the CPU.
pub struct CpuTrsStaging {
    pub positions: Vec<u32>,
    pub rotations: Vec<u32>,
    pub scales: Vec<u32>,
    pub dirty_pos: Vec<u32>,
    pub dirty_rot: Vec<u32>,
    pub dirty_scl: Vec<u32>,
    pub view_proj: [u32; 16],
    /// Position, rotation and scale spans of this frame.
    pub min_max_words: [WordSpan; 3],
    pub capacity: usize,
}

/// `words` with `[from, to)` taken out, as an atomic swap with zero leaves it.
pub open spec fn cleared(words: Seq<u32>, from: int, to: int) -> Seq<u32> {
    Seq::new(words.len(), |w: int| if from <= w < to { 0u32 } else { words[w] })
}

/// `dst` with `[from, to)` taken over from `src`.
pub open spec fn overwritten(dst: Seq<u32>, src: Seq<u32>, from: int, to: int) -> Seq<u32> {
    Seq::new(dst.len(), |w: int| if from <= w < to { src[w] } else { dst[w] })
}

pub open spec fn zeros(v: Seq<u32>) -> bool {
    forall|i: int| 0 <= i < v.len() ==> v[i] == 0
}

impl CpuTrsStaging {
    pub open spec fn wf(&self) -> bool {
        &&& self.capacity >= 1
        &&& self.positions.len() == 3 * self.capacity
        &&& self.rotations.len() == 2 * self.capacity
        &&& self.scales.len() == 3 * self.capacity
        &&& self.dirty_pos.len() == word_count(self.capacity as nat)
        &&& self.dirty_rot.len() == word_count(self.capacity as nat)
        &&& self.dirty_scl.len() == word_count(self.capacity as nat)
    }

    /// A fresh buffer of `capacity` slots: all zero, nothing dirty.
    pub open spec fn fresh(&self, capacity: int) -> bool {
        &&& self.wf()
        &&& self.capacity == capacity
        &&& zeros(self.positions@)
        &&& zeros(self.rotations@)
        &&& zeros(self.scales@)
        &&& zeros(self.dirty_pos@)
        &&& zeros(self.dirty_rot@)
        &&& zeros(self.dirty_scl@)
        &&& zeros(self.view_proj@)
        &&& self.min_max_words@ == seq![untouched(), untouched(), untouched()]
    }

    pub fn new(capacity: usize) -> (r: Self)
        requires
            3 * capacity <= usize::MAX,
        ensures
            r.fresh(if capacity >= 1 { capacity as int } else { 1 }),
    {
        let cap: usize = max_usize(capacity, 1);
        let words: usize = dirty_word_count(cap);
        let none = WordSpan { min_word: i64::MAX, max_word: -1 };
        let r = CpuTrsStaging {
            positions: vec![0u32; 3 * cap],
            rotations: vec![0u32; 2 * cap],
            scales: vec![0u32; 3 * cap],
            dirty_pos: vec![0u32; words],
            dirty_rot: vec![0u32; words],
            dirty_scl: vec![0u32; words],
            view_proj: [0u32; 16],
            min_max_words: [none, none, none],
            capacity: cap,
        };
        assert(r.min_max_words@ =~= seq![untouched(), untouched(), untouched()]);
        r
    }

    /// Grow to at least `needed` slots: geometric, never shrinks, and a grown
    /// buffer starts over empty.
    pub fn ensure_capacity(&mut self, needed: usize)
        requires
            old(self).wf(),
            3 * grown(old(self).capacity as nat, needed as nat, usize::MAX as nat) <= usize::MAX,
        ensures
            needed <= old(self).capacity ==> *final(self) == *old(self),
            needed > old(self).capacity ==> final(self).fresh(
                grown(old(self).capacity as nat, needed as nat, usize::MAX as nat) as int,
            ),
    {
        if needed <= self.capacity {
            return;
        }
        let cap: usize = grow_usize(self.capacity, needed);
        *self = CpuTrsStaging::new(cap);
    }
}

/// One component's part of a harvest of the bitmask words `[from, to)`: the
/// words move from the scene to the staging, clean ones included, and with
/// them the values of the marked entities below `n`.
pub open spec fn component_harvested(
    words: (Seq<u32>, Seq<u32>),
    values: Seq<u32>,
    n: int,
    stride: int,
    dirty: (Seq<u32>, Seq<u32>),
    staged: (Seq<u32>, Seq<u32>),
    from: int,
    to: int,
) -> bool {
    &&& words.1 == cleared(words.0, from, to)
    &&& dirty.1 == overwritten(dirty.0, words.0, from, to)
    &&& staged.1 == copied(words.0, from * 32, to * 32, n, stride, values, staged.0)
}

/// Two adjacent harvests of a component are one.
proof fn lemma_harvest_adjacent(
    words: (Seq<u32>, Seq<u32>, Seq<u32>),
    values: Seq<u32>,
    n: int,
    stride: int,
    dirty: (Seq<u32>, Seq<u32>, Seq<u32>),
    staged: (Seq<u32>, Seq<u32>, Seq<u32>),
    from: int,
    mid: int,
    to: int,
)
    requires
        0 <= from <= mid <= to <= words.0.len(),
        component_harvested(
            (words.0, words.1),
            values,
            n,
            stride,
            (dirty.0, dirty.1),
            (staged.0, staged.1),
            from,
            mid,
        ),
        component_harvested(
            (words.1, words.2),
            values,
            n,
            stride,
            (dirty.1, dirty.2),
            (staged.1, staged.2),
            mid,
            to,
        ),
    ensures
        component_harvested(
            (words.0, words.2),
            values,
            n,
            stride,
            (dirty.0, dirty.2),
            (staged.0, staged.2),
            from,
            to,
        ),
{
    assert(words.2 =~= cleared(words.0, from, to));
    assert(dirty.2 =~= overwritten(dirty.0, words.0, from, to));
    assert(staged.2 =~= copied(words.0, mid * 32, to * 32, n, stride, values, staged.1)) by {
        assert forall|e: int| mid * 32 <= e < to * 32 implies marked(words.1, e) == #[trigger] marked(
            words.0,
            e,
        ) by {
            assert(mid <= e / 32 < to);
        }
    }
    lemma_copied_adjacent(
        words.0,
        from * 32,
        mid * 32,
        to * 32,
        n,
        stride,
        values,
        staged.0,
    );
}

/// Harvesting no word changes nothing.
proof fn lemma_harvest_none(
    words: Seq<u32>,
    values: Seq<u32>,
    n: int,
    stride: int,
    dirty: Seq<u32>,
    staged: Seq<u32>,
    at: int,
)
    ensures
        component_harvested(
            (words, words),
            values,
            n,
            stride,
            (dirty, dirty),
            (staged, staged),
            at,
            at,
        ),
{
    assert(words =~= cleared(words, at, at));
    assert(dirty =~= overwritten(dirty, words, at, at));
    assert(staged =~= copied(words, at * 32, at * 32, n, stride, values, staged));
}

/// Harvests word `w` of one component; tells whether it was dirty.
fn harvest_component_word(
    words: &mut Vec<u32>,
    values: &Vec<u32>,
    dirty: &mut Vec<u32>,
    staged: &mut Vec<u32>,
    w: usize,
    n: usize,
    stride: usize,
) -> (touched: bool)
    requires
        w < old(words).len(),
        w < old(dirty).len(),
        w * 32 + 31 <= usize::MAX,
        stride > 0,
        n * stride <= values.len(),
        n * stride <= old(staged).len(),
    ensures
        component_harvested(
            (old(words)@, final(words)@),
            values@,
            n as int,
            stride as int,
            (old(dirty)@, final(dirty)@),
            (old(staged)@, final(staged)@),
            w as int,
            w + 1,
        ),
        touched == (old(words)@[w as int] != 0),
{
    let ghost words0 = words@;
    let ghost dirty0 = dirty@;
    let ghost staged0 = staged@;
    let d: u32 = words[w];
    if d != 0 {
        copy_word(words, w, n, stride, values, staged);
    } else {
        proof {
            lemma_zero_word(d);
            assert(staged0 =~= copied(
                words0,
                w * 32,
                (w + 1) * 32,
                n as int,
                stride as int,
                values@,
                staged0,
            )) by {
                assert forall|e: int| w * 32 <= e < (w + 1) * 32 implies !#[trigger] marked(
                    words0,
                    e,
                ) by {
                    assert(e / 32 == w);
                }
            }
        }
    }
    words.set(w, 0);
    dirty.set(w, d);
    assert(words@ =~= cleared(words0, w as int, w + 1));
    assert(dirty@ =~= overwritten(dirty0, words0, w as int, w + 1));
    d != 0
}

/// Every component's part of a harvest of the words `[from, to)`.
pub open spec fn words_harvested(
    source0: TrsSource,
    source1: TrsSource,
    staging0: CpuTrsStaging,
    staging1: CpuTrsStaging,
    n: int,
    from: int,
    to: int,
) -> bool {
    &&& component_harvested(
        (source0.position_words@, source1.position_words@),
        source0.positions@,
        n,
        3,
        (staging0.dirty_pos@, staging1.dirty_pos@),
        (staging0.positions@, staging1.positions@),
        from,
        to,
    )
    &&& component_harvested(
        (source0.rotation_words@, source1.rotation_words@),
        source0.rotations@,
        n,
        2,
        (staging0.dirty_rot@, staging1.dirty_rot@),
        (staging0.rotations@, staging1.rotations@),
        from,
        to,
    )
    &&& component_harvested(
        (source0.scale_words@, source1.scale_words@),
        source0.scales@,
        n,
        3,
        (staging0.dirty_scl@, staging1.dirty_scl@),
        (staging0.scales@, staging1.scales@),
        from,
        to,
    )
    &&& source1.positions == source0.positions
    &&& source1.rotations == source0.rotations
    &&& source1.scales == source0.scales
    &&& source1.entity_count == source0.entity_count
    &&& staging1.capacity == staging0.capacity
}

/// The spans of the three components over the words `[from, to)`.
pub open spec fn all_spans(s: [WordSpan; 3], source: TrsSource, from: int, to: int) -> bool {
    &&& spans(s[0], source.position_words@, from, to)
    &&& spans(s[1], source.rotation_words@, from, to)
    &&& spans(s[2], source.scale_words@, from, to)
}

proof fn lemma_words_adjacent(
    so0: TrsSource,
    so1: TrsSource,
    so2: TrsSource,
    st0: CpuTrsStaging,
    st1: CpuTrsStaging,
    st2: CpuTrsStaging,
    n: int,
    from: int,
    mid: int,
    to: int,
)
    requires
        0 <= from <= mid <= to <= so0.position_words.len(),
        so0.wf(),
        words_harvested(so0, so1, st0, st1, n, from, mid),
        words_harvested(so1, so2, st1, st2, n, mid, to),
    ensures
        words_harvested(so0, so2, st0, st2, n, from, to),
{
    lemma_harvest_adjacent(
        (so0.position_words@, so1.position_words@, so2.position_words@),
        so0.positions@,
        n,
        3,
        (st0.dirty_pos@, st1.dirty_pos@, st2.dirty_pos@),
        (st0.positions@, st1.positions@, st2.positions@),
        from,
        mid,
        to,
    );
    lemma_harvest_adjacent(
        (so0.rotation_words@, so1.rotation_words@, so2.rotation_words@),
        so0.rotations@,
        n,
        2,
        (st0.dirty_rot@, st1.dirty_rot@, st2.dirty_rot@),
        (st0.rotations@, st1.rotations@, st2.rotations@),
        from,
        mid,
        to,
    );
    lemma_harvest_adjacent(
        (so0.scale_words@, so1.scale_words@, so2.scale_words@),
        so0.scales@,
        n,
        3,
        (st0.dirty_scl@, st1.dirty_scl@, st2.dirty_scl@),
        (st0.scales@, st1.scales@, st2.scales@),
        from,
        mid,
        to,
    );
}

proof fn lemma_words_none(so: TrsSource, st: CpuTrsStaging, n: int, at: int)
    ensures
        words_harvested(so, so, st, st, n, at, at),
{
    lemma_harvest_none(
        so.position_words@,
        so.positions@,
        n,
        3,
        st.dirty_pos@,
        st.positions@,
        at,
    );
    lemma_harvest_none(
        so.rotation_words@,
        so.rotations@,
        n,
        2,
        st.dirty_rot@,
        st.rotations@,
        at,
    );
    lemma_harvest_none(so.scale_words@, so.scales@, n, 3, st.dirty_scl@, st.scales@, at);
}

/// The harvest of one task: the bitmask words `[from, to)` of all three
/// components, and the span each left.
fn harvest_words(
    staging: &mut CpuTrsStaging,
    source: &mut TrsSource,
    n: usize,
    from: usize,
    to: usize,
) -> (r: [WordSpan; 3])
    requires
        old(source).wf(),
        old(staging).wf(),
        n <= old(source).entity_count,
        n <= old(staging).capacity,
        from <= to <= old(source).position_words.len(),
        to <= old(staging).dirty_pos.len(),
        to * 32 <= usize::MAX,
    ensures
        final(source).wf(),
        final(staging).wf(),
        words_harvested(
            *old(source),
            *final(source),
            *old(staging),
            *final(staging),
            n as int,
            from as int,
            to as int,
        ),
        all_spans(r, *old(source), from as int, to as int),
        final(staging).view_proj == old(staging).view_proj,
{
    let ghost so0 = *source;
    let ghost st0 = *staging;
    let mut pos = WordSpan { min_word: i64::MAX, max_word: -1 };
    let mut rot = WordSpan { min_word: i64::MAX, max_word: -1 };
    let mut scl = WordSpan { min_word: i64::MAX, max_word: -1 };
    let mut w: usize = from;
    proof {
        lemma_words_none(so0, st0, n as int, from as int);
    }
    while w < to
        invariant
            from <= w <= to,
            to * 32 <= usize::MAX,
            so0.wf(),
            st0.wf(),
            source.wf(),
            staging.wf(),
            n <= so0.entity_count,
            n <= st0.capacity,
            to <= so0.position_words.len(),
            to <= st0.dirty_pos.len(),
            words_harvested(so0, *source, st0, *staging, n as int, from as int, w as int),
            spans(pos, so0.position_words@, from as int, w as int),
            spans(rot, so0.rotation_words@, from as int, w as int),
            spans(scl, so0.scale_words@, from as int, w as int),
            staging.view_proj == st0.view_proj,
        decreases to - w,
    {
        let ghost so1 = *source;
        let ghost st1 = *staging;
        let p: bool = harvest_component_word(
            &mut source.position_words,
            &source.positions,
            &mut staging.dirty_pos,
            &mut staging.positions,
            w,
            n,
            3,
        );
        let r: bool = harvest_component_word(
            &mut source.rotation_words,
            &source.rotations,
            &mut staging.dirty_rot,
            &mut staging.rotations,
            w,
            n,
            2,
        );
        let s: bool = harvest_component_word(
            &mut source.scale_words,
            &source.scales,
            &mut staging.dirty_scl,
            &mut staging.scales,
            w,
            n,
            3,
        );
        proof {
            lemma_words_adjacent(
                so0,
                so1,
                *source,
                st0,
                st1,
                *staging,
                n as int,
                from as int,
                w as int,
                w + 1,
            );
            if !p {
                lemma_span_clean(pos, so0.position_words@, from as int, w as int);
            }
            if !r {
                lemma_span_clean(rot, so0.rotation_words@, from as int, w as int);
            }
            if !s {
                lemma_span_clean(scl, so0.scale_words@, from as int, w as int);
            }
        }
        if p {
            pos = pos.touch(w);
        }
        if r {
            rot = rot.touch(w);
        }
        if s {
            scl = scl.touch(w);
        }
        w = w + 1;
    }
    [pos, rot, scl]
}


/// How a harvest splits the bitmask into tasks: contiguous runs of
/// `words_per_task` words, `n_tasks` of them.
#[derive(Clone, Copy)]
pub struct TaskLayout {
    pub words_per_task: usize,
    pub n_tasks: usize,
}

impl TaskLayout {
    /// The tasks cover `words` bitmask words.
    pub open spec fn covers(&self, words: int) -> bool {
        words <= self.n_tasks * self.words_per_task <= usize::MAX
    }
}

/// What a frame's harvest leaves when a scene is attached.
pub open spec fn scene_harvested(
    source0: TrsSource,
    source1: TrsSource,
    staging0: CpuTrsStaging,
    staging1: CpuTrsStaging,
    entity_capacity: nat,
    view_proj: [u32; 16],
) -> bool {
    &&& words_harvested(
        source0,
        source1,
        staging0,
        staging1,
        source0.entities_taken(entity_capacity),
        0,
        source0.words_taken(entity_capacity),
    )
    &&& all_spans(
        staging1.min_max_words,
        source0,
        0,
        source0.words_taken(entity_capacity),
    )
    &&& staging1.view_proj == view_proj
}

/// What a frame's harvest leaves when no scene is attached: the identity in
/// slot zero, marked dirty.
pub open spec fn identity_harvested(
    staging0: CpuTrsStaging,
    staging1: CpuTrsStaging,
    identity_rotation: [u32; 2],
    view_proj: [u32; 16],
) -> bool {
    &&& staging1.positions@ == staging0.positions@.update(0, 0u32).update(1, 0u32).update(2, 0u32)
    &&& staging1.rotations@ == staging0.rotations@.update(0, identity_rotation[0]).update(
        1,
        identity_rotation[1],
    )
    &&& staging1.scales@ == staging0.scales@.update(0, ONE_BITS).update(1, ONE_BITS).update(
        2,
        ONE_BITS,
    )
    &&& staging1.dirty_pos@ == staging0.dirty_pos@.update(0, 1u32)
    &&& staging1.dirty_rot@ == staging0.dirty_rot@.update(0, 1u32)
    &&& staging1.dirty_scl@ == staging0.dirty_scl@.update(0, 1u32)
    &&& staging1.min_max_words@ == seq![
        (WordSpan { min_word: 0, max_word: 0 }),
        (WordSpan { min_word: 0, max_word: 0 }),
        (WordSpan { min_word: 0, max_word: 0 }),
    ]
    &&& staging1.view_proj == view_proj
    &&& staging1.capacity == staging0.capacity
}

/// Harvests this frame's dirty transforms and view-projection into `staging`.
///
/// Every bitmask word that the walk visits is stored, zero ones too: the
/// staging's own bitmask is reused from frame to frame and nothing else clears
/// it, so a skipped zero would re-upload an unchanged entity for ever.
pub fn harvest_trs_into_cpu_staging(
    staging: &mut CpuTrsStaging,
    root: &mut Option<TrsSource>,
    entity_capacity: usize,
    layout: TaskLayout,
    identity_rotation: [u32; 2],
    view_proj: [u32; 16],
)
    requires
        old(staging).wf(),
        entity_capacity <= old(staging).capacity,
        *old(root) is Some ==> (*old(root))->0.wf() && layout.covers(
            (*old(root))->0.words_taken(entity_capacity as nat),
        ),
    ensures
        final(staging).wf(),
        (*final(root) is Some) == (*old(root) is Some),
        *old(root) is Some ==> (*final(root))->0.wf() && scene_harvested(
            (*old(root))->0,
            (*final(root))->0,
            *old(staging),
            *final(staging),
            entity_capacity as nat,
            view_proj,
        ),
        *old(root) is None ==> identity_harvested(
            *old(staging),
            *final(staging),
            identity_rotation,
            view_proj,
        ),
{
    let ghost st0 = *staging;
    staging.view_proj = view_proj;
    match root {
        Some(source) => {
            let dirty_words: usize = dirty_word_count(entity_capacity);
            let hier_words: usize = min_usize(source.position_words.len(), dirty_words);
            let n: usize = min_usize(source.entity_count, entity_capacity);
            proof {
                lemma_word_count_monotone(entity_capacity as nat, st0.capacity as nat);
                lemma_word_bits_fit(st0.capacity);
            }
            let spans3: [WordSpan; 3] = harvest_tasks(staging, source, n, hier_words, layout);
            staging.min_max_words = spans3;
        },
        None => {
            let none = WordSpan { min_word: 0, max_word: 0 };
            staging.positions.set(0, 0);
            staging.positions.set(1, 0);
            staging.positions.set(2, 0);
            staging.rotations.set(0, identity_rotation[0]);
            staging.rotations.set(1, identity_rotation[1]);
            staging.scales.set(0, ONE_BITS);
            staging.scales.set(1, ONE_BITS);
            staging.scales.set(2, ONE_BITS);
            proof {
                lemma_ceil_div(st0.capacity as nat, 32);
            }
            staging.dirty_pos.set(0, 1);
            staging.dirty_rot.set(0, 1);
            staging.dirty_scl.set(0, 1);
            staging.min_max_words = [none, none, none];
            assert(staging.min_max_words@ =~= seq![none, none, none]);
        },
    }
}

proof fn lemma_word_count_monotone(a: nat, b: nat)
    requires
        a <= b,
    ensures
        word_count(a) <= word_count(b),
{
    lemma_ceil_div(a, 32);
    lemma_ceil_div(b, 32);
}

/// The slots of a bitmask over a machine-sized capacity have indices that a
/// machine word holds, up to the last one's own thirty-two.
proof fn lemma_word_bits_fit(capacity: usize)
    requires
        3 * capacity <= usize::MAX,
    ensures
        word_count(capacity as nat) * 32 <= usize::MAX,
        word_count(capacity as nat) <= i64::MAX,
{
    lemma_ceil_div(capacity as nat, 32);
}

/// Runs the tasks of a layout one after the other and folds their spans, as
/// concurrent workers fold them with atomic minima and maxima.
fn harvest_tasks(
    staging: &mut CpuTrsStaging,
    source: &mut TrsSource,
    n: usize,
    hier_words: usize,
    layout: TaskLayout,
) -> (r: [WordSpan; 3])
    requires
        old(source).wf(),
        old(staging).wf(),
        n <= old(source).entity_count,
        n <= old(staging).capacity,
        hier_words <= old(source).position_words.len(),
        hier_words <= old(staging).dirty_pos.len(),
        hier_words * 32 <= usize::MAX,
        hier_words <= i64::MAX,
        layout.covers(hier_words as int),
    ensures
        final(source).wf(),
        final(staging).wf(),
        words_harvested(
            *old(source),
            *final(source),
            *old(staging),
            *final(staging),
            n as int,
            0,
            hier_words as int,
        ),
        all_spans(r, *old(source), 0, hier_words as int),
        final(staging).view_proj == old(staging).view_proj,
{
    let ghost so0 = *source;
    let ghost st0 = *staging;
    let mut pos = WordSpan { min_word: i64::MAX, max_word: -1 };
    let mut rot = WordSpan { min_word: i64::MAX, max_word: -1 };
    let mut scl = WordSpan { min_word: i64::MAX, max_word: -1 };
    let mut task: usize = 0;
    let ghost mut done: int = 0;
    proof {
        lemma_words_none(so0, st0, n as int, 0);
    }
    while task < layout.n_tasks
        invariant
            task <= layout.n_tasks,
            so0.wf(),
            st0.wf(),
            source.wf(),
            staging.wf(),
            n <= so0.entity_count,
            n <= st0.capacity,
            hier_words <= so0.position_words.len(),
            hier_words <= st0.dirty_pos.len(),
            hier_words * 32 <= usize::MAX,
            hier_words <= i64::MAX,
            layout.covers(hier_words as int),
            done == if task * layout.words_per_task <= hier_words {
                task * layout.words_per_task
            } else {
                hier_words as int
            },
            words_harvested(so0, *source, st0, *staging, n as int, 0, done),
            spans(pos, so0.position_words@, 0, done),
            spans(rot, so0.rotation_words@, 0, done),
            spans(scl, so0.scale_words@, 0, done),
            staging.view_proj == st0.view_proj,
        decreases layout.n_tasks - task,
    {
        proof {
            assert(task * layout.words_per_task + layout.words_per_task <= layout.n_tasks
                * layout.words_per_task && (task + 1) * layout.words_per_task == task
                * layout.words_per_task + layout.words_per_task && task * layout.words_per_task
                >= 0) by (nonlinear_arith)
                requires
                    task + 1 <= layout.n_tasks,
                    layout.words_per_task >= 0,
            ;
        }
        let word_base: usize = task * layout.words_per_task;
        let word_end: usize = min_usize(word_base + layout.words_per_task, hier_words);
        if word_base < word_end {
            let ghost so1 = *source;
            let ghost st1 = *staging;
            let local: [WordSpan; 3] = harvest_words(staging, source, n, word_base, word_end);
            proof {
                lemma_words_adjacent(
                    so0,
                    so1,
                    *source,
                    st0,
                    st1,
                    *staging,
                    n as int,
                    0,
                    done,
                    word_end as int,
                );
                lemma_span_of_cleared(
                    local[0],
                    so0.position_words@,
                    so1.position_words@,
                    word_base as int,
                    word_end as int,
                );
                lemma_span_of_cleared(
                    local[1],
                    so0.rotation_words@,
                    so1.rotation_words@,
                    word_base as int,
                    word_end as int,
                );
                lemma_span_of_cleared(
                    local[2],
                    so0.scale_words@,
                    so1.scale_words@,
                    word_base as int,
                    word_end as int,
                );
            }
            pos = pos.merge(local[0]);
            rot = rot.merge(local[1]);
            scl = scl.merge(local[2]);
            proof {
                done = word_end as int;
            }
        }
        task = task + 1;
    }
    [pos, rot, scl]
}

/// Spans only look at the words they cover.
proof fn lemma_span_of_cleared(s: WordSpan, a: Seq<u32>, b: Seq<u32>, from: int, to: int)
    requires
        spans(s, b, from, to),
        forall|w: int| from <= w < to ==> a[w] == b[w],
    ensures
        spans(s, a, from, to),
{
    if any_dirty(a, from, to) {
        let w = choose|w: int| from <= w < to && #[trigger] a[w] != 0;
        assert(b[w] != 0);
    }
    if any_dirty(b, from, to) {
        let w = choose|w: int| from <= w < to && #[trigger] b[w] != 0;
        assert(a[w] != 0);
    }
}


/// The GPU-visible staging of one world, as the host sees it mapped.
pub struct GpuStaging {
    pub positions: Vec<u32>,
    pub rotations: Vec<u32>,
    pub scales: Vec<u32>,
    pub dirty_pos: Vec<u32>,
    pub dirty_rot: Vec<u32>,
    pub dirty_scl: Vec<u32>,
    pub view_proj: [u32; 16],
}

impl GpuStaging {
    /// The mapped buffers reach at least as far as `staging`'s.
    pub open spec fn holds(&self, staging: CpuTrsStaging) -> bool {
        &&& self.positions.len() >= staging.positions.len()
        &&& self.rotations.len() >= staging.rotations.len()
        &&& self.scales.len() >= staging.scales.len()
        &&& self.dirty_pos.len() >= staging.dirty_pos.len()
        &&& self.dirty_rot.len() >= staging.dirty_rot.len()
        &&& self.dirty_scl.len() >= staging.dirty_scl.len()
    }
}

/// A span that a bitmask of `words` words can have.
pub open spec fn span_within(s: WordSpan, words: int) -> bool {
    s.max_word < 0 || 0 <= s.min_word <= s.max_word < words
}

/// `gpu` with the dirty words of the span taken over from `cpu`. Clean words
/// are skipped: the GPU's own clear has left them zero.
pub open spec fn promoted_words(s: WordSpan, cpu: Seq<u32>, gpu: Seq<u32>) -> Seq<u32> {
    if s.max_word < 0 {
        gpu
    } else {
        Seq::new(
            gpu.len(),
            |w: int|
                if s.min_word <= w <= s.max_word && cpu[w] != 0 {
                    cpu[w]
                } else {
                    gpu[w]
                },
        )
    }
}

/// `gpu` with the values of the entities marked within the span taken over
/// from `cpu`.
pub open spec fn promoted_values(
    s: WordSpan,
    words: Seq<u32>,
    limit: int,
    stride: int,
    cpu: Seq<u32>,
    gpu: Seq<u32>,
) -> Seq<u32> {
    if s.max_word < 0 {
        gpu
    } else {
        copied(words, s.min_word * 32, (s.max_word + 1) * 32, limit, stride, cpu, gpu)
    }
}

/// Promotes one component: copies only the entities that `cpu_dirty` marks
/// within `span`, and the dirty words that mark them. Untouched entities keep
/// the value that already sits in their GPU slot.
pub fn copy_dirty_component(
    span: WordSpan,
    cpu_dirty: &Vec<u32>,
    cpu_values: &Vec<u32>,
    gpu_dirty: &mut Vec<u32>,
    gpu_values: &mut Vec<u32>,
    stride: usize,
    entity_capacity: usize,
)
    requires
        span_within(span, cpu_dirty.len() as int),
        cpu_dirty.len() * 32 <= usize::MAX,
        cpu_dirty.len() <= old(gpu_dirty).len(),
        stride > 0,
        entity_capacity * stride <= cpu_values.len(),
        entity_capacity * stride <= old(gpu_values).len(),
    ensures
        final(gpu_dirty)@ == promoted_words(span, cpu_dirty@, old(gpu_dirty)@),
        final(gpu_values)@ == promoted_values(
            span,
            cpu_dirty@,
            entity_capacity as int,
            stride as int,
            cpu_values@,
            old(gpu_values)@,
        ),
{
    if span.max_word < 0 {
        return;
    }
    let ghost dirty0 = gpu_dirty@;
    let ghost values0 = gpu_values@;
    let first: usize = span.min_word as usize;
    let last: usize = span.max_word as usize;
    let mut w: usize = first;
    proof {
        assert(values0 =~= copied(
            cpu_dirty@,
            first * 32,
            first * 32,
            entity_capacity as int,
            stride as int,
            cpu_values@,
            values0,
        ));
    }
    while w <= last
        invariant
            first <= w <= last + 1,
            first == span.min_word,
            last == span.max_word,
            last < cpu_dirty.len(),
            cpu_dirty.len() * 32 <= usize::MAX,
            cpu_dirty.len() <= dirty0.len(),
            stride > 0,
            entity_capacity * stride <= cpu_values.len(),
            entity_capacity * stride <= values0.len(),
            gpu_values.len() == values0.len(),
            gpu_dirty.len() == dirty0.len(),
            gpu_values@ == copied(
                cpu_dirty@,
                first * 32,
                w * 32,
                entity_capacity as int,
                stride as int,
                cpu_values@,
                values0,
            ),
            forall|k: int|
                0 <= k < dirty0.len() ==> #[trigger] gpu_dirty[k] == if first <= k < w
                    && cpu_dirty[k] != 0 {
                    cpu_dirty[k]
                } else {
                    dirty0[k]
                },
        decreases last + 1 - w,
    {
        let word: u32 = cpu_dirty[w];
        if word != 0 {
            gpu_dirty.set(w, word);
            copy_word(cpu_dirty, w, entity_capacity, stride, cpu_values, gpu_values);
            proof {
                lemma_copied_adjacent(
                    cpu_dirty@,
                    first * 32,
                    w * 32,
                    (w + 1) * 32,
                    entity_capacity as int,
                    stride as int,
                    cpu_values@,
                    values0,
                );
            }
        } else {
            proof {
                lemma_zero_word(word);
                assert forall|e: int| w * 32 <= e < (w + 1) * 32 implies !#[trigger] marked(
                    cpu_dirty@,
                    e,
                ) by {
                    assert(e / 32 == w);
                }
                assert(gpu_values@ =~= copied(
                    cpu_dirty@,
                    first * 32,
                    (w + 1) * 32,
                    entity_capacity as int,
                    stride as int,
                    cpu_values@,
                    values0,
                ));
            }
        }
        w = w + 1;
    }
    assert(gpu_dirty@ =~= promoted_words(span, cpu_dirty@, dirty0));
}

/// What promoting `staging` leaves in the GPU-visible staging.
pub open spec fn promoted(staging: CpuTrsStaging, gpu0: GpuStaging, gpu1: GpuStaging) -> bool {
    &&& gpu1.positions@ == promoted_values(
        staging.min_max_words[0],
        staging.dirty_pos@,
        staging.capacity as int,
        3,
        staging.positions@,
        gpu0.positions@,
    )
    &&& gpu1.rotations@ == promoted_values(
        staging.min_max_words[1],
        staging.dirty_rot@,
        staging.capacity as int,
        2,
        staging.rotations@,
        gpu0.rotations@,
    )
    &&& gpu1.scales@ == promoted_values(
        staging.min_max_words[2],
        staging.dirty_scl@,
        staging.capacity as int,
        3,
        staging.scales@,
        gpu0.scales@,
    )
    &&& gpu1.dirty_pos@ == promoted_words(
        staging.min_max_words[0],
        staging.dirty_pos@,
        gpu0.dirty_pos@,
    )
    &&& gpu1.dirty_rot@ == promoted_words(
        staging.min_max_words[1],
        staging.dirty_rot@,
        gpu0.dirty_rot@,
    )
    &&& gpu1.dirty_scl@ == promoted_words(
        staging.min_max_words[2],
        staging.dirty_scl@,
        gpu0.dirty_scl@,
    )
    &&& gpu1.view_proj == staging.view_proj
}

impl CpuTrsStaging {
    /// The spans lie within the buffer's own bitmask, as every harvest
    /// leaves them.
    pub open spec fn spans_within(&self) -> bool {
        &&& span_within(self.min_max_words[0], self.dirty_pos.len() as int)
        &&& span_within(self.min_max_words[1], self.dirty_rot.len() as int)
        &&& span_within(self.min_max_words[2], self.dirty_scl.len() as int)
    }
}

/// Promotes the dirty entities of `staging` into the GPU-visible staging; the
/// view-projection always goes along.
pub fn copy_cpu_staging_into_gpu(staging: &CpuTrsStaging, gpu: &mut GpuStaging)
    requires
        staging.wf(),
        staging.spans_within(),
        old(gpu).holds(*staging),
    ensures
        promoted(*staging, *old(gpu), *final(gpu)),
        final(gpu).holds(*staging),
{
    proof {
        lemma_word_bits_fit(staging.capacity);
    }
    copy_dirty_component(
        staging.min_max_words[0],
        &staging.dirty_pos,
        &staging.positions,
        &mut gpu.dirty_pos,
        &mut gpu.positions,
        3,
        staging.capacity,
    );
    copy_dirty_component(
        staging.min_max_words[1],
        &staging.dirty_rot,
        &staging.rotations,
        &mut gpu.dirty_rot,
        &mut gpu.rotations,
        2,
        staging.capacity,
    );
    copy_dirty_component(
        staging.min_max_words[2],
        &staging.dirty_scl,
        &staging.scales,
        &mut gpu.dirty_scl,
        &mut gpu.scales,
        3,
        staging.capacity,
    );
    gpu.view_proj = staging.view_proj;
}

/// How a waiting thread passes the time before it looks again.
#[derive(Clone, Copy, PartialEq, Eq, Structural, Debug)]
pub enum Backoff {
    /// Spin: the other side is expected within a few reads.
    Spin,
    /// Yield the time slice.
    Yield,
    /// Sleep a hundred microseconds.
    Sleep,
}

/// Looks before a waiting thread starts to yield.
pub const SPIN_LOOKS: u32 = 64;

/// Looks before a waiting thread starts to sleep.
pub const YIELD_LOOKS: u32 = 2000;

/// The backoff after the `looks`th unsuccessful look, counted from one.
pub fn backoff(looks: u32) -> (r: Backoff)
    ensures
        r == if looks < 64 {
            Backoff::Spin
        } else if looks < 2000 {
            Backoff::Yield
        } else {
            Backoff::Sleep
        },
{
    if looks < SPIN_LOOKS {
        Backoff::Spin
    } else if looks < YIELD_LOOKS {
        Backoff::Yield
    } else {
        Backoff::Sleep
    }
}

/// Single-buffer producer/consumer handoff between the simulating thread
/// (writer) and the rendering thread (reader).
pub struct FrameHandoff {
    pub staging: CpuTrsStaging,
    /// Bumped by the writer once a frame's snapshot is complete.
    pub ready_gen: u64,
    /// Set by the reader to the generation it is done with.
    pub consumed_gen: u64,
    /// The GPU's entity capacity, as the reader last published it.
    pub entity_capacity: usize,
    /// The swapchain's extent, packed.
    pub extent: u64,
}

impl FrameHandoff {
    pub open spec fn wf(&self) -> bool {
        &&& self.staging.wf()
        &&& self.staging.spans_within()
    }

    /// Whose turn it is: the buffer is the writer's exactly while nothing
    /// published is still unread.
    pub open spec fn free(&self) -> bool {
        self.ready_gen == self.consumed_gen
    }

    pub fn new(initial_capacity: usize, initial_extent: [u32; 2]) -> (r: Self)
        requires
            3 * initial_capacity <= usize::MAX,
        ensures
            r.wf(),
            r.free(),
            r.staging.fresh(if initial_capacity >= 1 { initial_capacity as int } else { 1 }),
            r.ready_gen == 0,
            r.consumed_gen == 0,
            r.entity_capacity == r.staging.capacity,
            r.extent == packed_extent(initial_extent),
    {
        let cap: usize = max_usize(initial_capacity, 1);
        FrameHandoff {
            staging: CpuTrsStaging::new(cap),
            ready_gen: 0,
            consumed_gen: 0,
            entity_capacity: cap,
            extent: pack_extent(initial_extent),
        }
    }

    /// The GPU entity capacity as of the reader's most recent growth.
    pub fn published_entity_capacity(&self) -> (r: usize)
        ensures
            r == self.entity_capacity,
    {
        self.entity_capacity
    }

    pub fn publish_entity_capacity(&mut self, cap: usize)
        ensures
            *final(self) == (FrameHandoff { entity_capacity: cap, ..*old(self) }),
    {
        self.entity_capacity = cap;
    }

    /// The swapchain extent that this frame's aspect ratio goes by.
    pub fn published_extent(&self) -> (r: [u32; 2])
        ensures
            packed_extent(r) == self.extent,
    {
        unpack_extent(self.extent)
    }

    pub fn publish_extent(&mut self, extent: [u32; 2])
        ensures
            final(self).extent == packed_extent(extent),
            *final(self) == (FrameHandoff { extent: final(self).extent, ..*old(self) }),
    {
        self.extent = pack_extent(extent);
    }

    /// Whether the reader is done with the previous snapshot: what the writer
    /// polls before it touches the buffer. True at the very first look.
    pub fn buffer_free(&self) -> (r: bool)
        ensures
            r == self.free(),
    {
        self.consumed_gen == self.ready_gen
    }

    fn publish_ready(&mut self) -> (r: u64)
        ensures
            r == if old(self).ready_gen == u64::MAX { 0 } else { old(self).ready_gen + 1 },
            *final(self) == (FrameHandoff { ready_gen: r, ..*old(self) }),
    {
        let next: u64 = self.ready_gen.wrapping_add(1);
        self.ready_gen = next;
        next
    }

    fn mark_consumed(&mut self, ready_gen: u64)
        ensures
            *final(self) == (FrameHandoff { consumed_gen: ready_gen, ..*old(self) }),
    {
        self.consumed_gen = ready_gen;
    }

    /// Grows the buffer to `entity_capacity`, harvests this frame into it and
    /// hands it over. The result is the generation to stamp on the frame's job.
    pub fn write_frame(
        &mut self,
        entity_capacity: usize,
        root: &mut Option<TrsSource>,
        layout: TaskLayout,
        identity_rotation: [u32; 2],
        view_proj: [u32; 16],
    ) -> (ready_gen: u64)
        requires
            old(self).wf(),
            old(self).free(),
            3 * grown(
                old(self).staging.capacity as nat,
                entity_capacity as nat,
                usize::MAX as nat,
            ) <= usize::MAX,
            *old(root) is Some ==> (*old(root))->0.wf() && layout.covers(
                (*old(root))->0.words_taken(entity_capacity as nat),
            ),
        ensures
            final(self).wf(),
            !final(self).free(),
            final(self).ready_gen == ready_gen,
            ready_gen == if old(self).ready_gen == u64::MAX { 0 } else { old(self).ready_gen + 1 },
            final(self).consumed_gen == old(self).consumed_gen,
            final(self).entity_capacity == old(self).entity_capacity,
            final(self).extent == old(self).extent,
            final(self).staging.capacity == grown(
                old(self).staging.capacity as nat,
                entity_capacity as nat,
                usize::MAX as nat,
            ),
            (*final(root) is Some) == (*old(root) is Some),
            exists|grown_staging: CpuTrsStaging|
                {
                    &&& #[trigger] grown_staging.wf()
                    &&& entity_capacity <= old(self).staging.capacity ==> grown_staging == old(
                        self,
                    ).staging
                    &&& entity_capacity > old(self).staging.capacity ==> grown_staging.fresh(
                        final(self).staging.capacity as int,
                    )
                    &&& *old(root) is Some ==> (*final(root))->0.wf() && scene_harvested(
                        (*old(root))->0,
                        (*final(root))->0,
                        grown_staging,
                        final(self).staging,
                        entity_capacity as nat,
                        view_proj,
                    )
                    &&& *old(root) is None ==> identity_harvested(
                        grown_staging,
                        final(self).staging,
                        identity_rotation,
                        view_proj,
                    )
                },
    {
        self.staging.ensure_capacity(entity_capacity);
        let ghost grown_staging = self.staging;
        proof {
            lemma_word_count_monotone(entity_capacity as nat, grown_staging.capacity as nat);
            lemma_ceil_div(grown_staging.capacity as nat, 32);
        }
        harvest_trs_into_cpu_staging(
            &mut self.staging,
            root,
            entity_capacity,
            layout,
            identity_rotation,
            view_proj,
        );
        assert(grown_staging.wf());
        self.publish_ready()
    }

    /// Promotes the snapshot into the GPU-visible staging and gives the buffer
    /// back. The result is the snapshot's three spans, which size the
    /// word-compaction prepass. Call once per job, with the job's generation.
    pub fn consume(&mut self, ready_gen: u64, gpu: &mut GpuStaging) -> (spans3: [WordSpan; 3])
        requires
            old(self).wf(),
            old(gpu).holds(old(self).staging),
        ensures
            final(self).wf(),
            final(self).free() <==> old(self).ready_gen == ready_gen,
            *final(self) == (FrameHandoff { consumed_gen: ready_gen, ..*old(self) }),
            promoted(old(self).staging, *old(gpu), *final(gpu)),
            final(gpu).holds(final(self).staging),
            spans3 == old(self).staging.min_max_words,
    {
        copy_cpu_staging_into_gpu(&self.staging, gpu);
        let spans3: [WordSpan; 3] = self.staging.min_max_words;
        self.mark_consumed(ready_gen);
        spans3
    }
}


/// What one component's words and values look like on the GPU after a harvest
/// of the words `[0, taken)` and the promotion that follows it: exactly the
/// entities that the scene had marked moved. Those below `n` carry the scene's
/// value, a marked slot past them whatever the staging held for it, and every
/// other slot is untouched.
pub open spec fn component_uploaded(
    words: Seq<u32>,
    values: Seq<u32>,
    n: int,
    taken: int,
    stride: int,
    staged: Seq<u32>,
    gpu_words: (Seq<u32>, Seq<u32>),
    gpu_values: (Seq<u32>, Seq<u32>),
) -> bool {
    &&& gpu_words.1.len() == gpu_words.0.len()
    &&& gpu_values.1.len() == gpu_values.0.len()
    &&& forall|w: int|
        0 <= w < gpu_words.0.len() ==> #[trigger] gpu_words.1[w] == if w < taken && words[w] != 0 {
            words[w]
        } else {
            gpu_words.0[w]
        }
    &&& forall|j: int|
        0 <= j < staged.len() ==> #[trigger] gpu_values.1[j] == if j / stride < taken * 32
            && marked(words, j / stride) {
            if j / stride < n {
                values[j]
            } else {
                staged[j]
            }
        } else {
            gpu_values.0[j]
        }
}

proof fn lemma_component_uploaded(
    words: (Seq<u32>, Seq<u32>),
    values: Seq<u32>,
    n: int,
    taken: int,
    stride: int,
    capacity: int,
    dirty: (Seq<u32>, Seq<u32>),
    staged: (Seq<u32>, Seq<u32>),
    s: WordSpan,
    gpu_words: Seq<u32>,
    gpu_values: Seq<u32>,
)
    requires
        0 <= taken <= words.0.len(),
        taken <= dirty.0.len() <= gpu_words.len(),
        stride > 0,
        staged.0.len() == capacity * stride,
        staged.0.len() <= gpu_values.len(),
        component_harvested(words, values, n, stride, dirty, staged, 0, taken),
        spans(s, words.0, 0, taken),
    ensures
        component_uploaded(
            words.0,
            values,
            n,
            taken,
            stride,
            staged.0,
            (gpu_words, promoted_words(s, dirty.1, gpu_words)),
            (gpu_values, promoted_values(s, dirty.1, capacity, stride, staged.1, gpu_values)),
        ),
{
    let after_words = promoted_words(s, dirty.1, gpu_words);
    let after_values = promoted_values(s, dirty.1, capacity, stride, staged.1, gpu_values);
    assert forall|w: int| 0 <= w < gpu_words.len() implies #[trigger] after_words[w] == if w < taken
        && words.0[w] != 0 {
        words.0[w]
    } else {
        gpu_words[w]
    } by {
        if w < taken && words.0[w] != 0 {
            assert(any_dirty(words.0, 0, taken));
        } else if any_dirty(words.0, 0, taken) && w < taken {
            assert(dirty.1[w] == words.0[w]);
        }
    }
    assert forall|j: int| 0 <= j < staged.0.len() implies #[trigger] after_values[j] == if j / stride
        < taken * 32 && marked(words.0, j / stride) {
        if j / stride < n {
            values[j]
        } else {
            staged.0[j]
        }
    } else {
        gpu_values[j]
    } by {
        let e = j / stride;
        vstd::arithmetic::div_mod::lemma_div_pos_is_pos(j, stride);
        assert(e < capacity) by {
            vstd::arithmetic::div_mod::lemma_fundamental_div_mod(j, stride);
            assert(e < capacity) by (nonlinear_arith)
                requires
                    j == stride * e + j % stride,
                    j % stride >= 0,
                    j < capacity * stride,
                    stride > 0,
            ;
        }
        if e < taken * 32 {
            assert(e / 32 < taken);
            assert(dirty.1[e / 32] == words.0[e / 32]);
            assert(marked(dirty.1, e) == marked(words.0, e));
            if marked(words.0, e) {
                lemma_zero_word(words.0[e / 32]);
                assert(words.0[e / 32] != 0);
                assert(any_dirty(words.0, 0, taken));
                assert(s.min_word <= e / 32 <= s.max_word);
            }
        } else if any_dirty(words.0, 0, taken) {
            assert(e / 32 >= taken);
        }
    }
}

/// A frame's harvest and the promotion that consumes it upload exactly the
/// entities that the scene marked: each component of each marked entity
/// arrives, nothing else on the GPU moves, and the scene's marks are gone.
pub proof fn frame_reaches_the_gpu(
    source0: TrsSource,
    source1: TrsSource,
    staging0: CpuTrsStaging,
    staging1: CpuTrsStaging,
    gpu0: GpuStaging,
    gpu1: GpuStaging,
    entity_capacity: nat,
    view_proj: [u32; 16],
)
    requires
        source0.wf(),
        staging0.wf(),
        staging1.wf(),
        entity_capacity <= staging0.capacity,
        scene_harvested(source0, source1, staging0, staging1, entity_capacity, view_proj),
        gpu0.holds(staging1),
        promoted(staging1, gpu0, gpu1),
    ensures
        component_uploaded(
            source0.position_words@,
            source0.positions@,
            source0.entities_taken(entity_capacity),
            source0.words_taken(entity_capacity),
            3,
            staging0.positions@,
            (gpu0.dirty_pos@, gpu1.dirty_pos@),
            (gpu0.positions@, gpu1.positions@),
        ),
        component_uploaded(
            source0.rotation_words@,
            source0.rotations@,
            source0.entities_taken(entity_capacity),
            source0.words_taken(entity_capacity),
            2,
            staging0.rotations@,
            (gpu0.dirty_rot@, gpu1.dirty_rot@),
            (gpu0.rotations@, gpu1.rotations@),
        ),
        component_uploaded(
            source0.scale_words@,
            source0.scales@,
            source0.entities_taken(entity_capacity),
            source0.words_taken(entity_capacity),
            3,
            staging0.scales@,
            (gpu0.dirty_scl@, gpu1.dirty_scl@),
            (gpu0.scales@, gpu1.scales@),
        ),
        gpu1.view_proj == view_proj,
        forall|w: int|
            0 <= w < source0.words_taken(entity_capacity) ==> source1.position_words[w] == 0
                && source1.rotation_words[w] == 0 && source1.scale_words[w] == 0,
{
    let n = source0.entities_taken(entity_capacity);
    let taken = source0.words_taken(entity_capacity);
    lemma_word_count_monotone(entity_capacity, staging0.capacity as nat);
    lemma_component_uploaded(
        (source0.position_words@, source1.position_words@),
        source0.positions@,
        n,
        taken,
        3,
        staging0.capacity as int,
        (staging0.dirty_pos@, staging1.dirty_pos@),
        (staging0.positions@, staging1.positions@),
        staging1.min_max_words[0],
        gpu0.dirty_pos@,
        gpu0.positions@,
    );
    lemma_component_uploaded(
        (source0.rotation_words@, source1.rotation_words@),
        source0.rotations@,
        n,
        taken,
        2,
        staging0.capacity as int,
        (staging0.dirty_rot@, staging1.dirty_rot@),
        (staging0.rotations@, staging1.rotations@),
        staging1.min_max_words[1],
        gpu0.dirty_rot@,
        gpu0.rotations@,
    );
    lemma_component_uploaded(
        (source0.scale_words@, source1.scale_words@),
        source0.scales@,
        n,
        taken,
        3,
        staging0.capacity as int,
        (staging0.dirty_scl@, staging1.dirty_scl@),
        (staging0.scales@, staging1.scales@),
        staging1.min_max_words[2],
        gpu0.dirty_scl@,
        gpu0.scales@,
    );
}

/// No dirty bit is sticky: harvesting a scene in which nothing is marked
/// leaves three untouched spans, and promoting that moves nothing but the
/// view-projection.
pub proof fn quiet_frame_uploads_nothing(
    source0: TrsSource,
    source1: TrsSource,
    staging0: CpuTrsStaging,
    staging1: CpuTrsStaging,
    gpu0: GpuStaging,
    gpu1: GpuStaging,
    entity_capacity: nat,
    view_proj: [u32; 16],
)
    requires
        source0.wf(),
        scene_harvested(source0, source1, staging0, staging1, entity_capacity, view_proj),
        promoted(staging1, gpu0, gpu1),
        zeros(source0.position_words@),
        zeros(source0.rotation_words@),
        zeros(source0.scale_words@),
    ensures
        staging1.min_max_words@ == seq![untouched(), untouched(), untouched()],
        gpu1.positions@ == gpu0.positions@,
        gpu1.rotations@ == gpu0.rotations@,
        gpu1.scales@ == gpu0.scales@,
        gpu1.dirty_pos@ == gpu0.dirty_pos@,
        gpu1.dirty_rot@ == gpu0.dirty_rot@,
        gpu1.dirty_scl@ == gpu0.dirty_scl@,
        gpu1.view_proj == view_proj,
{
    assert(staging1.min_max_words@ =~= seq![untouched(), untouched(), untouched()]);
}

/// A harvest takes over every marked entity that the scene has and the buffer
/// reaches, the last one too: each word of a component that the bitmask marks
/// is the scene's, and each word of one that it does not is as it was.
pub proof fn marked_entities_are_staged(
    source0: TrsSource,
    source1: TrsSource,
    staging0: CpuTrsStaging,
    staging1: CpuTrsStaging,
    entity_capacity: nat,
    view_proj: [u32; 16],
    e: int,
    k: int,
)
    requires
        source0.wf(),
        staging0.wf(),
        entity_capacity <= staging0.capacity,
        scene_harvested(source0, source1, staging0, staging1, entity_capacity, view_proj),
        0 <= e < source0.entity_count,
        e < entity_capacity,
        e / 32 < source0.position_words.len(),
    ensures
        0 <= k < 3 ==> staging1.positions@[3 * e + k] == if (source0.position_words@[e / 32] >> ((
        e % 32) as u32)) & 1u32 == 1u32 {
            source0.positions@[3 * e + k]
        } else {
            staging0.positions@[3 * e + k]
        },
        0 <= k < 2 ==> staging1.rotations@[2 * e + k] == if (source0.rotation_words@[e / 32] >> ((
        e % 32) as u32)) & 1u32 == 1u32 {
            source0.rotations@[2 * e + k]
        } else {
            staging0.rotations@[2 * e + k]
        },
        0 <= k < 3 ==> staging1.scales@[3 * e + k] == if (source0.scale_words@[e / 32] >> ((
        e % 32) as u32)) & 1u32 == 1u32 {
            source0.scales@[3 * e + k]
        } else {
            staging0.scales@[3 * e + k]
        },
        staging1.view_proj == view_proj,
{
    lemma_ceil_div(entity_capacity, 32);
    assert(e / 32 < word_count(entity_capacity));
    assert((3 * e + k) / 3 == e || !(0 <= k < 3));
    assert((2 * e + k) / 2 == e || !(0 <= k < 2));
    assert(3 * e + 3 <= staging0.positions.len());
    assert(2 * e + 2 <= staging0.rotations.len());
}

/// A harvest moves every bitmask word that the buffer reaches from the scene
/// to the staging, clean ones too, and leaves the others where they are. Every
/// dirty word it moved lies within the component's span.
pub proof fn dirty_words_move_to_the_staging(
    source0: TrsSource,
    source1: TrsSource,
    staging0: CpuTrsStaging,
    staging1: CpuTrsStaging,
    entity_capacity: nat,
    view_proj: [u32; 16],
    w: int,
)
    requires
        source0.wf(),
        staging0.wf(),
        entity_capacity <= staging0.capacity,
        scene_harvested(source0, source1, staging0, staging1, entity_capacity, view_proj),
        0 <= w < source0.position_words.len(),
    ensures
        w == 0 || w * 32 < entity_capacity ==> {
            &&& staging1.dirty_pos@[w] == source0.position_words@[w]
            &&& source1.position_words@[w] == 0
            &&& source0.position_words@[w] != 0 ==> staging1.min_max_words[0].min_word <= w
                <= staging1.min_max_words[0].max_word
            &&& staging1.dirty_rot@[w] == source0.rotation_words@[w]
            &&& source1.rotation_words@[w] == 0
            &&& source0.rotation_words@[w] != 0 ==> staging1.min_max_words[1].min_word <= w
                <= staging1.min_max_words[1].max_word
            &&& staging1.dirty_scl@[w] == source0.scale_words@[w]
            &&& source1.scale_words@[w] == 0
            &&& source0.scale_words@[w] != 0 ==> staging1.min_max_words[2].min_word <= w
                <= staging1.min_max_words[2].max_word
        },
        w > 0 && w * 32 >= entity_capacity ==> {
            &&& source1.position_words@[w] == source0.position_words@[w]
            &&& w < staging0.dirty_pos.len() ==> staging1.dirty_pos@[w] == staging0.dirty_pos@[w]
            &&& source1.rotation_words@[w] == source0.rotation_words@[w]
            &&& w < staging0.dirty_rot.len() ==> staging1.dirty_rot@[w] == staging0.dirty_rot@[w]
            &&& source1.scale_words@[w] == source0.scale_words@[w]
            &&& w < staging0.dirty_scl.len() ==> staging1.dirty_scl@[w] == staging0.dirty_scl@[w]
        },
{
    lemma_ceil_div(entity_capacity, 32);
    lemma_ceil_div(staging0.capacity as nat, 32);
    lemma_word_count_monotone(entity_capacity, staging0.capacity as nat);
    if source0.position_words@[w] != 0 && w < source0.words_taken(entity_capacity) {
        assert(any_dirty(source0.position_words@, 0, source0.words_taken(entity_capacity)));
    }
    if source0.rotation_words@[w] != 0 && w < source0.words_taken(entity_capacity) {
        assert(any_dirty(source0.rotation_words@, 0, source0.words_taken(entity_capacity)));
    }
    if source0.scale_words@[w] != 0 && w < source0.words_taken(entity_capacity) {
        assert(any_dirty(source0.scale_words@, 0, source0.words_taken(entity_capacity)));
    }
}

/// What the scene marked is on the GPU after the promotion: each word of each
/// component of every marked entity is the scene's, each word of an unmarked
/// one is what the GPU had, and the dirty words that the scatter goes by are
/// the scene's where they are dirty.
pub proof fn marked_entities_reach_the_gpu(
    source0: TrsSource,
    source1: TrsSource,
    staging0: CpuTrsStaging,
    staging1: CpuTrsStaging,
    gpu0: GpuStaging,
    gpu1: GpuStaging,
    entity_capacity: nat,
    view_proj: [u32; 16],
    e: int,
    k: int,
)
    requires
        source0.wf(),
        staging0.wf(),
        staging1.wf(),
        entity_capacity <= staging0.capacity,
        scene_harvested(source0, source1, staging0, staging1, entity_capacity, view_proj),
        gpu0.holds(staging1),
        promoted(staging1, gpu0, gpu1),
        0 <= e < source0.entity_count,
        e < entity_capacity,
        e / 32 < source0.position_words.len(),
    ensures
        0 <= k < 3 ==> gpu1.positions@[3 * e + k] == if (source0.position_words@[e / 32] >> ((e
            % 32) as u32)) & 1u32 == 1u32 {
            source0.positions@[3 * e + k]
        } else {
            gpu0.positions@[3 * e + k]
        },
        source0.position_words@[e / 32] != 0 ==> gpu1.dirty_pos@[e / 32]
            == source0.position_words@[e / 32],
        source0.position_words@[e / 32] == 0 ==> gpu1.dirty_pos@[e / 32]
            == gpu0.dirty_pos@[e / 32],
        0 <= k < 2 ==> gpu1.rotations@[2 * e + k] == if (source0.rotation_words@[e / 32] >> ((e
            % 32) as u32)) & 1u32 == 1u32 {
            source0.rotations@[2 * e + k]
        } else {
            gpu0.rotations@[2 * e + k]
        },
        source0.rotation_words@[e / 32] != 0 ==> gpu1.dirty_rot@[e / 32]
            == source0.rotation_words@[e / 32],
        source0.rotation_words@[e / 32] == 0 ==> gpu1.dirty_rot@[e / 32]
            == gpu0.dirty_rot@[e / 32],
        0 <= k < 3 ==> gpu1.scales@[3 * e + k] == if (source0.scale_words@[e / 32] >> ((e
            % 32) as u32)) & 1u32 == 1u32 {
            source0.scales@[3 * e + k]
        } else {
            gpu0.scales@[3 * e + k]
        },
        source0.scale_words@[e / 32] != 0 ==> gpu1.dirty_scl@[e / 32]
            == source0.scale_words@[e / 32],
        source0.scale_words@[e / 32] == 0 ==> gpu1.dirty_scl@[e / 32]
            == gpu0.dirty_scl@[e / 32],
        gpu1.view_proj == view_proj,
{
    frame_reaches_the_gpu(
        source0,
        source1,
        staging0,
        staging1,
        gpu0,
        gpu1,
        entity_capacity,
        view_proj,
    );
    lemma_ceil_div(entity_capacity, 32);
    lemma_ceil_div(staging0.capacity as nat, 32);
    lemma_word_count_monotone(entity_capacity, staging0.capacity as nat);
    assert(e / 32 < word_count(entity_capacity));
    assert((3 * e + k) / 3 == e || !(0 <= k < 3));
    assert((2 * e + k) / 2 == e || !(0 <= k < 2));
    assert(3 * e + 3 <= staging0.positions.len());
    assert(2 * e + 2 <= staging0.rotations.len());
}

/// Without a scene the first slot draws an identity: at the origin, turned as
/// given, at full size. It is marked, so that the promotion uploads it, and no
/// other slot's words move.
pub proof fn a_missing_scene_stages_one_identity(
    staging0: CpuTrsStaging,
    staging1: CpuTrsStaging,
    gpu0: GpuStaging,
    gpu1: GpuStaging,
    identity_rotation: [u32; 2],
    view_proj: [u32; 16],
    j: int,
)
    requires
        staging0.wf(),
        staging1.wf(),
        identity_harvested(staging0, staging1, identity_rotation, view_proj),
        gpu0.holds(staging1),
        promoted(staging1, gpu0, gpu1),
    ensures
        0 <= j < 3 ==> gpu1.positions@[j] == 0 && gpu1.scales@[j] == 0x3f80_0000u32,
        0 <= j < 2 ==> gpu1.rotations@[j] == identity_rotation[j],
        3 <= j < staging0.positions.len() ==> staging1.positions@[j] == staging0.positions@[j]
            && staging1.scales@[j] == staging0.scales@[j],
        2 <= j < staging0.rotations.len() ==> staging1.rotations@[j] == staging0.rotations@[j],
        gpu1.dirty_pos@[0] == 1 && gpu1.dirty_rot@[0] == 1 && gpu1.dirty_scl@[0] == 1,
        0 <= j < 3 ==> staging1.min_max_words[j].min_word == 0
            && staging1.min_max_words[j].max_word == 0,
        1 <= j < staging0.dirty_pos.len() ==> staging1.dirty_pos@[j] == staging0.dirty_pos@[j]
            && staging1.dirty_rot@[j] == staging0.dirty_rot@[j] && staging1.dirty_scl@[j]
            == staging0.dirty_scl@[j],
        staging1.capacity == staging0.capacity,
        gpu1.view_proj == view_proj,
{
    lemma_ceil_div(staging0.capacity as nat, 32);
    assert((1u32 >> 0u32) & 1u32 == 1u32) by (bit_vector);
    assert(marked(staging1.dirty_pos@, 0));
    assert(marked(staging1.dirty_rot@, 0));
    assert(marked(staging1.dirty_scl@, 0));
    assert(0 <= j < 3 ==> j / 3 == 0);
    assert(0 <= j < 2 ==> j / 2 == 0);
    let spans3 = staging1.min_max_words@;
    assert(spans3[0] == staging1.min_max_words[0]);
    assert(spans3[1] == staging1.min_max_words[1]);
    assert(spans3[2] == staging1.min_max_words[2]);
}

/// Nothing is staged past the scene's entities or past the buffer's reach: the
/// words of every other slot are as they were.
pub proof fn nothing_past_the_scene_is_staged(
    source0: TrsSource,
    source1: TrsSource,
    staging0: CpuTrsStaging,
    staging1: CpuTrsStaging,
    entity_capacity: nat,
    view_proj: [u32; 16],
    e: int,
    k: int,
)
    requires
        source0.wf(),
        staging0.wf(),
        scene_harvested(source0, source1, staging0, staging1, entity_capacity, view_proj),
        0 <= e < staging0.capacity,
        e >= source0.entity_count || e >= entity_capacity,
    ensures
        0 <= k < 3 ==> staging1.positions@[3 * e + k] == staging0.positions@[3 * e + k],
        0 <= k < 2 ==> staging1.rotations@[2 * e + k] == staging0.rotations@[2 * e + k],
        0 <= k < 3 ==> staging1.scales@[3 * e + k] == staging0.scales@[3 * e + k],
        staging1.positions.len() == staging0.positions.len(),
        staging1.rotations.len() == staging0.rotations.len(),
        staging1.scales.len() == staging0.scales.len(),
        staging1.capacity == staging0.capacity,
        source1.positions == source0.positions,
        source1.rotations == source0.rotations,
        source1.scales == source0.scales,
        source1.entity_count == source0.entity_count,
{
    assert((3 * e + k) / 3 == e || !(0 <= k < 3));
    assert((2 * e + k) / 2 == e || !(0 <= k < 2));
}

/// A component's span starts and ends at a dirty word, and there is one exactly
/// if any word of the component is dirty.
pub proof fn spans_are_tight(
    source0: TrsSource,
    source1: TrsSource,
    staging0: CpuTrsStaging,
    staging1: CpuTrsStaging,
    entity_capacity: nat,
    view_proj: [u32; 16],
)
    requires
        source0.wf(),
        scene_harvested(source0, source1, staging0, staging1, entity_capacity, view_proj),
    ensures
        staging1.min_max_words[0].max_word >= 0 ==> source0.position_words@[
            staging1.min_max_words[0].min_word as int
        ] != 0 && source0.position_words@[staging1.min_max_words[0].max_word as int] != 0,
        staging1.min_max_words[1].max_word >= 0 ==> source0.rotation_words@[
            staging1.min_max_words[1].min_word as int
        ] != 0 && source0.rotation_words@[staging1.min_max_words[1].max_word as int] != 0,
        staging1.min_max_words[2].max_word >= 0 ==> source0.scale_words@[
            staging1.min_max_words[2].min_word as int
        ] != 0 && source0.scale_words@[staging1.min_max_words[2].max_word as int] != 0,
        staging1.min_max_words[0].max_word < source0.position_words.len(),
        staging1.min_max_words[1].max_word < source0.position_words.len(),
        staging1.min_max_words[2].max_word < source0.position_words.len(),
{
}

/// A fresh buffer has every slot, all of it zero, nothing dirty and no span.
pub proof fn fresh_buffers_hold_nothing(s: CpuTrsStaging, capacity: int, i: int)
    requires
        s.fresh(capacity),
    ensures
        s.capacity == capacity,
        s.positions.len() == 3 * capacity,
        s.rotations.len() == 2 * capacity,
        s.scales.len() == 3 * capacity,
        32 * s.dirty_pos.len() >= capacity,
        s.dirty_rot.len() == s.dirty_pos.len() && s.dirty_scl.len() == s.dirty_pos.len(),
        0 <= i < s.positions.len() ==> s.positions[i] == 0 && s.scales[i] == 0,
        0 <= i < s.rotations.len() ==> s.rotations[i] == 0,
        0 <= i < s.dirty_pos.len() ==> s.dirty_pos[i] == 0 && s.dirty_rot[i] == 0 && s.dirty_scl[i]
            == 0,
        0 <= i < 3 ==> s.min_max_words[i].max_word < 0,
{
    lemma_ceil_div(capacity as nat, 32);
    if 0 <= i < 3 {
        assert(s.min_max_words@[i] == untouched());
    }
    if 0 <= i < s.positions.len() {
        assert(s.positions@[i] == 0 && s.scales@[i] == 0);
    }
    if 0 <= i < s.rotations.len() {
        assert(s.rotations@[i] == 0);
    }
    if 0 <= i < s.dirty_pos.len() {
        assert(s.dirty_pos@[i] == 0 && s.dirty_rot@[i] == 0 && s.dirty_scl@[i] == 0);
    }
}

/// The width is the high half of a packed extent, and the height the low one.
pub proof fn widths_are_packed_high(e: [u32; 2])
    ensures
        packed_extent(e) / 0x1_0000_0000 == e[0],
        packed_extent(e) % 0x1_0000_0000 == e[1],
{
}

/// The buffer is the writer's exactly while all that was published is consumed.
pub proof fn consumed_buffers_are_free(h: FrameHandoff)
    ensures
        h.free() <==> h.ready_gen == h.consumed_gen,
{
}

} // verus!
