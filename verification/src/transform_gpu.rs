//! The GPU's transform state of one world: how large its buffers are, the
//! stream of re-parentings, and the counter by which the host knows that the
//! GPU is done reading what the host shares with it.


use crate::dirty::{dirty_word_count, word_count};
use crate::gpu_renderers::{stream_len, SCATTER_WORKGROUP_SIZE};
use crate::growth::{group_count, grow_usize, groups, grown, max_usize};
use crate::text::{
    chars, find, first_word, hexadecimal, joined, lemma_find, lines, lines_of, parse, parsed,
    show_hex, split_at_first, split_once, starts_with, text, views, word,
};
use vstd::prelude::*;
use vstd::string::*;

verus! {

/// Initial pair capacity of the parent-update staging.
pub const INITIAL_PARENT_UPDATE_CAPACITY: usize = 1024;

/// `words` holds the pairs as its live ones.
pub open spec fn streams2(words: Seq<u32>, pairs: Seq<[u32; 2]>) -> bool {
    &&& words.len() >= 2 + 2 * pairs.len()
    &&& words[0] == pairs.len()
    &&& forall|i: int|
        #![trigger pairs[i]]
        0 <= i < pairs.len() ==> words[2 + 2 * i] == pairs[i][0] && words[3 + 2 * i] == pairs[i][1]
}

/// The element counts of a world's host-visible staging.
#[derive(Clone, Copy, PartialEq, Eq, Structural, Debug)]
pub struct StagingLayout {
    /// Slots of positions, rotations and scales each.
    pub slots: usize,
    /// Words of each of the three dirty bitmasks, zeroed by the host first.
    pub dirty_words: usize,
    /// View-projection matrices.
    pub view_projs: usize,
}

/// The dispatches of the recorded scatter: the three components over every
/// slot, then the parent stream over its whole capacity.
#[derive(Clone, Copy, PartialEq, Eq, Structural, Debug)]
pub struct ScatterPlan {
    /// Workgroups of each component's dispatch.
    pub component_groups: u32,
    /// The entity count that the component shaders stop at.
    pub entity_count: u32,
    /// Workgroups of the parent stream's dispatch.
    pub parent_groups: u32,
}

/// A buffer to reallocate: its new capacity, and the leading records to copy.
#[derive(Clone, Copy, PartialEq, Eq, Structural, Debug)]
pub struct Regrow {
    pub new_cap: usize,
    pub keep: usize,
}

/// World-scoped GPU transform state.
pub struct WorldTransformGpu {
    /// Slots of every per-entity buffer.
    pub entity_capacity: usize,
    /// Pairs that the parent-update staging has room for.
    pub parent_update_capacity: usize,
    /// The parent-update staging: count, pad, pairs.
    pub staging_parent_updates: Vec<u32>,
    /// The value that the next frame's signal brings the GPU's counter to.
    pub next_signal_expected: u32,
}

/// Whether a wrapping counter that reads `v` has reached `target`.
pub open spec fn reached(v: u32, target: u32) -> bool {
    (v - target) % 0x1_0000_0000 < 0x7fff_ffff
}

impl WorldTransformGpu {
    pub open spec fn wf(&self) -> bool {
        &&& self.entity_capacity >= 1
        &&& self.entity_capacity <= u32::MAX
        &&& self.parent_update_capacity >= 1
        &&& self.parent_update_capacity <= u32::MAX
        &&& self.staging_parent_updates.len() == stream_len(self.parent_update_capacity as nat, 2)
    }

    /// Buffers for `entity_capacity` slots, every one a root, and an empty
    /// parent stream. The counter starts at zero, so the first wait is for
    /// what is already there.
    pub fn new(entity_capacity: usize) -> (r: Self)
        requires
            entity_capacity <= u32::MAX,
        ensures
            r.wf(),
            r.entity_capacity == if entity_capacity >= 1 {
                entity_capacity
            } else {
                1
            },
            r.parent_update_capacity == INITIAL_PARENT_UPDATE_CAPACITY,
            streams2(r.staging_parent_updates@, Seq::empty()),
            r.next_signal_expected == 1,
    {
        WorldTransformGpu {
            entity_capacity: max_usize(entity_capacity, 1),
            parent_update_capacity: INITIAL_PARENT_UPDATE_CAPACITY,
            staging_parent_updates: vec![0u32; 2 + 2 * INITIAL_PARENT_UPDATE_CAPACITY],
            next_signal_expected: 1,
        }
    }

    /// Ensure that every per-entity buffer has at least `needed` slots:
    /// geometric, never shrinks. The result is what to reallocate, and how
    /// many parent records the new buffer keeps; transforms are uploaded anew.
    pub fn ensure_capacity(&mut self, needed: usize) -> (r: Option<Regrow>)
        requires
            old(self).wf(),
            grown(old(self).entity_capacity as nat, needed as nat, usize::MAX as nat) <= u32::MAX,
        ensures
            final(self).wf(),
            final(self).entity_capacity == grown(
                old(self).entity_capacity as nat,
                needed as nat,
                usize::MAX as nat,
            ),
            r == if needed <= old(self).entity_capacity {
                None
            } else {
                Some(
                    Regrow {
                        new_cap: final(self).entity_capacity,
                        keep: old(self).entity_capacity,
                    },
                )
            },
            *final(self) == (WorldTransformGpu {
                entity_capacity: final(self).entity_capacity,
                ..*old(self)
            }),
    {
        if needed <= self.entity_capacity {
            return None;
        }
        let keep: usize = self.entity_capacity;
        let new_cap: usize = grow_usize(keep, needed);
        self.entity_capacity = new_cap;
        Some(Regrow { new_cap, keep })
    }

    /// Make room for `needed` pairs this frame. Whether the staging was
    /// reallocated, in which case it starts over empty and what captured it
    /// must be rebuilt.
    pub fn ensure_parent_update_capacity(&mut self, needed: usize) -> (r: bool)
        requires
            old(self).wf(),
            grown(
                old(self).parent_update_capacity as nat,
                needed as nat,
                usize::MAX as nat,
            ) <= u32::MAX,
            stream_len(
                grown(old(self).parent_update_capacity as nat, needed as nat, usize::MAX as nat),
                2,
            ) <= usize::MAX,
        ensures
            final(self).wf(),
            r == (needed > old(self).parent_update_capacity),
            !r ==> *final(self) == *old(self),
            r ==> streams2(final(self).staging_parent_updates@, Seq::empty())
                && final(self).parent_update_capacity == grown(
                old(self).parent_update_capacity as nat,
                needed as nat,
                usize::MAX as nat,
            ),
            final(self).entity_capacity == old(self).entity_capacity,
            final(self).next_signal_expected == old(self).next_signal_expected,
    {
        if needed <= self.parent_update_capacity {
            return false;
        }
        let new_cap: usize = grow_usize(self.parent_update_capacity, needed);
        self.staging_parent_updates = vec![0u32; 2 + 2 * new_cap];
        self.parent_update_capacity = new_cap;
        true
    }

    /// Write this frame's pairs, and how many there are. Every frame: a count
    /// of zero retires the pairs of the frame before.
    pub fn write_parent_updates(&mut self, updates: &Vec<[u32; 2]>)
        requires
            old(self).wf(),
            updates.len() <= old(self).parent_update_capacity,
        ensures
            final(self).wf(),
            streams2(final(self).staging_parent_updates@, updates@),
            forall|w: int|
                w == 1 || 2 + 2 * updates.len() <= w < final(self).staging_parent_updates.len()
                    ==> final(self).staging_parent_updates[w] == old(
                    self,
                ).staging_parent_updates[w],
            *final(self) == (WorldTransformGpu {
                staging_parent_updates: final(self).staging_parent_updates,
                ..*old(self)
            }),
    {
        let ghost before = *self;
        self.staging_parent_updates.set(0, updates.len() as u32);
        let mut i: usize = 0;
        while i < updates.len()
            invariant
                self.wf(),
                i <= updates.len() <= self.parent_update_capacity,
                *self == (WorldTransformGpu {
                    staging_parent_updates: self.staging_parent_updates,
                    ..before
                }),
                self.staging_parent_updates.len() == before.staging_parent_updates.len(),
                self.staging_parent_updates[0] == updates.len(),
                forall|k: int|
                    #![trigger updates[k]]
                    0 <= k < i ==> self.staging_parent_updates[2 + 2 * k] == updates[k][0]
                        && self.staging_parent_updates[3 + 2 * k] == updates[k][1],
                forall|w: int|
                    w == 1 || 2 + 2 * i <= w < self.staging_parent_updates.len()
                        ==> self.staging_parent_updates[w] == before.staging_parent_updates[w],
            decreases updates.len() - i,
        {
            let pair: [u32; 2] = updates[i];
            self.staging_parent_updates.set(2 + 2 * i, pair[0]);
            self.staging_parent_updates.set(3 + 2 * i, pair[1]);
            i = i + 1;
        }
    }

    /// Whether the GPU, whose counter reads `gpu_signal`, is done reading what
    /// the host shares with it for the previous frame. Wraparound is fine.
    pub fn compute_done(&self, gpu_signal: u32) -> (r: bool)
        ensures
            r == reached(gpu_signal, self.next_signal_expected.wrapping_sub(1)),
    {
        let target: u32 = self.next_signal_expected.wrapping_sub(1);
        gpu_signal.wrapping_sub(target) < 0x7fff_ffff
    }

    /// Reserve the value that the next frame's signal brings the counter to.
    /// Call after the frame is submitted.
    pub fn inc_signal_expected(&mut self)
        ensures
            *final(self) == (WorldTransformGpu {
                next_signal_expected: old(self).next_signal_expected.wrapping_add(1),
                ..*old(self)
            }),
    {
        self.next_signal_expected = self.next_signal_expected.wrapping_add(1);
    }

    pub fn entity_capacity(&self) -> (r: usize)
        ensures
            r == self.entity_capacity,
    {
        self.entity_capacity
    }

    /// How large the staging buffers are.
    pub fn staging_layout(&self) -> (r: StagingLayout)
        ensures
            r == (StagingLayout {
                slots: self.entity_capacity,
                dirty_words: word_count(self.entity_capacity as nat) as usize,
                view_projs: 1,
            }),
            r.dirty_words * 32 >= r.slots,
    {
        StagingLayout {
            slots: self.entity_capacity,
            dirty_words: dirty_word_count(self.entity_capacity),
            view_projs: 1,
        }
    }

    /// The dispatches of the recorded scatter.
    pub fn scatter_plan(&self) -> (r: ScatterPlan)
        requires
            self.wf(),
        ensures
            r == (ScatterPlan {
                component_groups: groups(self.entity_capacity as nat, 64) as u32,
                entity_count: self.entity_capacity as u32,
                parent_groups: groups(self.parent_update_capacity as nat, 64) as u32,
            }),
            r.component_groups * 64 >= self.entity_capacity,
            r.parent_groups * 64 >= self.parent_update_capacity,
    {
        ScatterPlan {
            component_groups: group_count(self.entity_capacity as u32, SCATTER_WORKGROUP_SIZE),
            entity_count: self.entity_capacity as u32,
            parent_groups: group_count(
                self.parent_update_capacity as u32,
                SCATTER_WORKGROUP_SIZE,
            ),
        }
    }
}

/// The host never runs ahead of the GPU: after a submission the wait holds
/// until the counter has moved, it ends once it has, and before the first
/// submission it ends at once.
pub proof fn waits_until_the_gpu_signals(w: WorldTransformGpu, submitted: WorldTransformGpu)
    requires
        submitted.next_signal_expected == w.next_signal_expected.wrapping_add(1),
    ensures
        reached(w.next_signal_expected, submitted.next_signal_expected.wrapping_sub(1)),
        !reached(
            w.next_signal_expected.wrapping_sub(1),
            submitted.next_signal_expected.wrapping_sub(1),
        ),
        w.next_signal_expected == 1 ==> reached(0, w.next_signal_expected.wrapping_sub(1)),
{
}

/// The range of addresses that a line of the process's memory map covers.
pub open spec fn map_range(line: Seq<char>) -> Option<(nat, nat)> {
    match split_at_first(line, ' ') {
        Some(p) => match split_at_first(p.0, '-') {
            Some(q) => match (
                parsed(q.0, 16, usize::MAX as nat),
                parsed(q.1, 16, usize::MAX as nat),
            ) {
                (Some(lo), Some(hi)) => Some((lo, hi)),
                _ => None,
            },
            None => None,
        },
        None => None,
    }
}

/// Whether a line of the memory map covers `addr`.
pub open spec fn maps(line: Seq<char>, addr: nat) -> bool {
    match map_range(line) {
        Some(r) => r.0 <= addr < r.1,
        None => false,
    }
}

/// Whether a line of the node map is of the area that `map_line` describes:
/// its address is the one that `map_line` starts with.
pub open spec fn maps_node(line: Seq<char>, map_line: Seq<char>) -> bool {
    match parsed(first_word(line), 16, usize::MAX as nat) {
        Some(base) => (hexadecimal(base) + "-"@).is_prefix_of(map_line),
        None => false,
    }
}

/// The first of `ls`, from `at` on, that covers `addr`.
pub open spec fn first_map(ls: Seq<Seq<char>>, addr: nat, at: nat) -> Option<Seq<char>>
    decreases ls.len() - at,
{
    if at >= ls.len() {
        None
    } else if maps(ls[at as int], addr) {
        Some(ls[at as int])
    } else {
        first_map(ls, addr, at + 1)
    }
}

/// The first of `ls`, from `at` on, that is of `map_line`'s area.
pub open spec fn first_node(ls: Seq<Seq<char>>, map_line: Seq<char>, at: nat) -> Option<Seq<char>>
    decreases ls.len() - at,
{
    if at >= ls.len() {
        None
    } else if maps_node(ls[at as int], map_line) {
        Some(ls[at as int])
    } else {
        first_node(ls, map_line, at + 1)
    }
}

fn covers(line: &Vec<char>, addr: usize) -> (r: bool)
    ensures
        r == maps(line@, addr as nat),
{
    let range: Vec<char> = match split_once(line, ' ') {
        Some(p) => p.0,
        None => {
            return false;
        },
    };
    match split_once(&range, '-') {
        Some(q) => {
            let lo: Option<u64> = parse(&q.0, 16, usize::MAX as u64);
            let hi: Option<u64> = parse(&q.1, 16, usize::MAX as u64);
            match (lo, hi) {
                (Some(lo), Some(hi)) => lo <= addr as u64 && (addr as u64) < hi,
                _ => false,
            }
        },
        None => false,
    }
}

/// The line of the process's memory map that `addr` lies in, or a note that
/// there is none.
pub fn map_line(content: &str, addr: usize) -> (r: String)
    ensures
        r@ == match first_map(lines_of(content@), addr as nat, 0) {
            Some(l) => l,
            None => "(no /proc/self/maps line found)"@,
        },
{
    let ls: Vec<Vec<char>> = lines(&chars(content));
    let ghost lv = lines_of(content@);
    assert(views(ls@).len() == ls.len());
    let mut i: usize = 0;
    while i < ls.len()
        invariant
            i <= ls.len(),
            views(ls@) == lv,
            ls.len() == lv.len(),
            lv == lines_of(content@),
            first_map(lv, addr as nat, 0) == first_map(lv, addr as nat, i as nat),
        decreases ls.len() - i,
    {
        assert(lv[i as int] == ls[i as int]@);
        if covers(&ls[i], addr) {
            return text(&ls[i]);
        }
        i = i + 1;
    }
    "(no /proc/self/maps line found)".to_owned()
}

/// The line of the process's node map for the area of `map_line`, or a note
/// that there is none.
pub fn numa_line(content: &str, map_line: &str) -> (r: String)
    ensures
        r@ == match first_node(lines_of(content@), map_line@, 0) {
            Some(l) => l,
            None => "(no /proc/self/numa_maps line found)"@,
        },
{
    let area: Vec<char> = chars(map_line);
    let ls: Vec<Vec<char>> = lines(&chars(content));
    let ghost lv = lines_of(content@);
    assert(views(ls@).len() == ls.len());
    let mut i: usize = 0;
    while i < ls.len()
        invariant
            i <= ls.len(),
            views(ls@) == lv,
            ls.len() == lv.len(),
            lv == lines_of(content@),
            area@ == map_line@,
            first_node(lv, map_line@, 0) == first_node(lv, map_line@, i as nat),
        decreases ls.len() - i,
    {
        assert(lv[i as int] == ls[i as int]@);
        match parse(&word(&ls[i]), 16, usize::MAX as u64) {
            Some(base) => {
                let prefix: String = joined(show_hex(base), "-");
                if starts_with(&area, &chars(prefix.as_str())) {
                    return text(&ls[i]);
                }
            },
            None => {},
        }
        i = i + 1;
    }
    "(no /proc/self/numa_maps line found)".to_owned()
}

/// A stream is its count, a pad, and the pairs one behind the other, the slot
/// before its new parent.
pub proof fn pairs_lie_end_to_end(words: Seq<u32>, pairs: Seq<[u32; 2]>, i: int)
    requires
        streams2(words, pairs),
        0 <= i < pairs.len(),
    ensures
        words[0] == pairs.len(),
        words[2 + 2 * i] == pairs[i][0],
        words[2 + 2 * i + 1] == pairs[i][1],
        2 + 2 * pairs.len() <= words.len(),
{
}

/// A counter has reached a target that it stands at or is ahead of by less than
/// half its range, however often it has wrapped, and no other.
pub proof fn counters_are_ahead_by_less_than_half(target: u32, ahead: u32)
    ensures
        reached(target.wrapping_add(ahead), target) <==> ahead < 0x7fff_ffff,
{
}

/// A line of the memory map covers the addresses from the first of its two
/// numbers up to the second, in hexadecimal; a line without both covers none.
pub proof fn map_lines_cover_their_range(
    lo: Seq<char>,
    hi: Seq<char>,
    rest: Seq<char>,
    addr: nat,
)
    requires
        !lo.contains('-') && !lo.contains(' ') && !hi.contains(' '),
    ensures
        ({
            let line = lo + seq!['-'] + hi + seq![' '] + rest;
            let a = parsed(lo, 16, usize::MAX as nat);
            let b = parsed(hi, 16, usize::MAX as nat);
            &&& a is Some && b is Some ==> (maps(line, addr) <==> a->0 <= addr < b->0)
            &&& a is None || b is None ==> !maps(line, addr)
        }),
        !maps(lo, addr),
        !maps(hi, addr),
{
    let range = lo + seq!['-'] + hi;
    let line = lo + seq!['-'] + hi + seq![' '] + rest;
    assert(line =~= range + seq![' '] + rest);
    assert(!range.contains(' ')) by {
        if range.contains(' ') {
            let i = choose|i: int| 0 <= i < range.len() && range[i] == ' ';
            if i < lo.len() {
                assert(lo[i] == ' ');
            } else if i > lo.len() {
                assert(hi[i - lo.len() - 1] == ' ');
            }
        }
    }
    lemma_split(range, ' ', rest);
    lemma_split(lo, '-', hi);
    lemma_split(lo, ' ', rest);
    lemma_split(hi, ' ', rest);
}

proof fn lemma_split(a: Seq<char>, c: char, rest: Seq<char>)
    requires
        !a.contains(c),
    ensures
        split_at_first(a + seq![c] + rest, c) == Some((a, rest)),
        split_at_first(a, c) is None,
{
    let s = a + seq![c] + rest;
    lemma_find(s, c, 0);
    lemma_find(a, c, 0);
    let i = find(s, c, 0) as int;
    assert(s[a.len() as int] == c);
    if i < a.len() {
        assert(a[i] == c);
    }
    assert(s.take(i) =~= a);
    assert(s.skip(i + 1) =~= rest);
    if find(a, c, 0) < a.len() {
        assert(a[find(a, c, 0) as int] == c);
    }
}

/// A line of the node map is of the area whose line starts with its address.
pub proof fn node_lines_start_with_their_address(line: Seq<char>, map_line: Seq<char>)
    ensures
        ({
            let base = parsed(first_word(line), 16, usize::MAX as nat);
            &&& base is None ==> !maps_node(line, map_line)
            &&& base is Some ==> (maps_node(line, map_line) <==> (hexadecimal(base->0)
                + "-"@).is_prefix_of(map_line))
        }),
{
}

/// The first line that covers an address is the one found, and likewise of an
/// area; none only if none does.
pub proof fn the_first_line_is_found(
    ls: Seq<Seq<char>>,
    addr: nat,
    map_line: Seq<char>,
    i: int,
)
    requires
        0 <= i < ls.len(),
        forall|k: int| 0 <= k < i ==> !maps(#[trigger] ls[k], addr),
        forall|k: int| 0 <= k < i ==> !maps_node(#[trigger] ls[k], map_line),
    ensures
        maps(ls[i], addr) ==> first_map(ls, addr, 0) == Some(ls[i]),
        i == ls.len() - 1 && !maps(ls[i], addr) ==> first_map(ls, addr, 0) is None,
        maps_node(ls[i], map_line) ==> first_node(ls, map_line, 0) == Some(ls[i]),
        i == ls.len() - 1 && !maps_node(ls[i], map_line) ==> first_node(ls, map_line, 0) is None,
{
    lemma_first_line(ls, addr, map_line, 0, i);
}

proof fn lemma_first_line(
    ls: Seq<Seq<char>>,
    addr: nat,
    map_line: Seq<char>,
    at: nat,
    i: int,
)
    requires
        at <= i < ls.len(),
        forall|k: int| at <= k < i ==> !maps(#[trigger] ls[k], addr),
        forall|k: int| at <= k < i ==> !maps_node(#[trigger] ls[k], map_line),
    ensures
        maps(ls[i], addr) ==> first_map(ls, addr, at) == Some(ls[i]),
        i == ls.len() - 1 && !maps(ls[i], addr) ==> first_map(ls, addr, at) is None,
        maps_node(ls[i], map_line) ==> first_node(ls, map_line, at) == Some(ls[i]),
        i == ls.len() - 1 && !maps_node(ls[i], map_line) ==> first_node(ls, map_line, at) is None,
    decreases ls.len() - at,
{
    if at < i {
        lemma_first_line(ls, addr, map_line, at + 1, i);
    } else if i == ls.len() - 1 {
        assert(first_map(ls, addr, at + 1) is None);
        assert(first_node(ls, map_line, at + 1) is None);
    }
}

} // verus!
