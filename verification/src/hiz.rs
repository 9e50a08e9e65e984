//! The Hi-Z occlusion pyramid: its level sizes, and the dispatches that build
//! it from a depth buffer.
//!
//! Level zero is half the depth buffer's resolution, rounded up; every further
//! level halves the one before it, rounded down, until one texel is left. The
//! build reduces the depth buffer into level zero, then two levels at a time,
//! then the one level that is left over when the rest is odd.

use crate::growth::{ceil_div, group_count, groups, lemma_ceil_div, max_u32};
use vstd::arithmetic::power2::{lemma_pow2_pos, lemma_pow2_unfold, pow2};
use vstd::prelude::*;

verus! {

/// Workgroup size, on both axes, of the reduction shaders.
pub const HIZ_WORKGROUP_SIZE: u32 = 8;

/// One dimension of pyramid level `level` under a mip-0 dimension of `dim`:
/// `max(1, dim >> level)`, the size a GPU gives a mip level.
pub open spec fn level_dim(dim: nat, level: nat) -> nat {
    if dim / pow2(level) >= 1 { dim / pow2(level) } else { 1 }
}

/// The extent of pyramid level `level`.
pub open spec fn level_extent(mip0: [u32; 2], level: nat) -> (nat, nat) {
    (level_dim(mip0[0] as nat, level), level_dim(mip0[1] as nat, level))
}

/// `count` is the number of levels from `mip0` down to, and including, the
/// first that is a single texel.
pub open spec fn is_mip_count(mip0: [u32; 2], count: nat) -> bool {
    &&& count >= 1
    &&& level_extent(mip0, (count - 1) as nat) == (1nat, 1nat)
    &&& forall|l: nat| l + 1 < count ==> #[trigger] level_extent(mip0, l) != (1nat, 1nat)
}

proof fn lemma_level_step(dim: nat, level: nat)
    ensures
        level_dim(dim, level + 1) == if level_dim(dim, level) / 2 >= 1 {
            level_dim(dim, level) / 2
        } else {
            1
        },
        level_dim(dim, 0) == if dim >= 1 { dim } else { 1 },
{
    lemma_pow2_pos(level);
    lemma_pow2_unfold(level + 1);
    assert(pow2(0) == 1) by {
        vstd::arithmetic::power2::lemma2_to64();
    }
    assert(dim as int / 1 == dim);
    vstd::arithmetic::div_mod::lemma_div_denominator(dim as int, pow2(level) as int, 2);
    assert(pow2(level) * 2 == 2 * pow2(level));
}

/// Hi-Z mip-0 extent: half the depth buffer's resolution, rounded up.
pub fn hiz_mip0_extent(depth_extent: [u32; 2]) -> (r: [u32; 2])
    requires
        depth_extent[0] < u32::MAX,
        depth_extent[1] < u32::MAX,
    ensures
        r[0] == ceil_div(depth_extent[0] as nat, 2),
        r[1] == ceil_div(depth_extent[1] as nat, 2),
        depth_extent[0] <= 2 * r[0] <= depth_extent[0] + 1,
        depth_extent[1] <= 2 * r[1] <= depth_extent[1] + 1,
{
    [(depth_extent[0] + 1) / 2, (depth_extent[1] + 1) / 2]
}

/// Number of mip levels from `mip0_extent` down to (and including) 1x1, with
/// the floor halving that an image's own mip chain has.
pub fn hiz_mip_count(mip0_extent: [u32; 2]) -> (count: u32)
    ensures
        is_mip_count(mip0_extent, count as nat),
        count <= 32,
{
    let mut w: u32 = max_u32(mip0_extent[0], 1);
    let mut h: u32 = max_u32(mip0_extent[1], 1);
    let mut count: u32 = 1;
    let ghost mut left: nat = 31;
    proof {
        lemma_level_step(mip0_extent[0] as nat, 0);
        lemma_level_step(mip0_extent[1] as nat, 0);
        vstd::arithmetic::power2::lemma2_to64();
    }
    while w > 1 || h > 1
        invariant
            w >= 1,
            h >= 1,
            count >= 1,
            count + left == 32,
            w < pow2(left + 1),
            h < pow2(left + 1),
            level_extent(mip0_extent, (count - 1) as nat) == (w as nat, h as nat),
            forall|l: nat|
                l + 1 < count ==> #[trigger] level_extent(mip0_extent, l) != (1nat, 1nat),
        decreases left,
    {
        proof {
            assert(left > 0) by {
                if left == 0 {
                    vstd::arithmetic::power2::lemma2_to64();
                }
            }
            lemma_level_step(mip0_extent[0] as nat, (count - 1) as nat);
            lemma_level_step(mip0_extent[1] as nat, (count - 1) as nat);
            lemma_pow2_unfold(left + 1);
            lemma_pow2_pos(left);
            lemma_pow2_unfold(left);
        }
        w = max_u32(w / 2, 1);
        h = max_u32(h / 2, 1);
        count = count + 1;
        proof {
            left = (left - 1) as nat;
            lemma_pow2_pos(left);
        }
    }
    count
}

/// Extent of pyramid level `level`, given the mip-0 extent.
pub fn hiz_level_extent(mip0_extent: [u32; 2], level: u32) -> (r: [u32; 2])
    ensures
        (r[0] as nat, r[1] as nat) == level_extent(mip0_extent, level as nat),
{
    let mut w: u32 = max_u32(mip0_extent[0], 1);
    let mut h: u32 = max_u32(mip0_extent[1], 1);
    let mut l: u32 = 0;
    proof {
        lemma_level_step(mip0_extent[0] as nat, 0);
        lemma_level_step(mip0_extent[1] as nat, 0);
    }
    while l < level
        invariant
            l <= level,
            w >= 1,
            h >= 1,
            level_extent(mip0_extent, l as nat) == (w as nat, h as nat),
        decreases level - l,
    {
        proof {
            lemma_level_step(mip0_extent[0] as nat, l as nat);
            lemma_level_step(mip0_extent[1] as nat, l as nat);
        }
        w = max_u32(w / 2, 1);
        h = max_u32(h / 2, 1);
        l = l + 1;
    }
    [w, h]
}

/// Workgroups, per axis, that cover an extent.
pub fn dispatch_groups_2d(extent: [u32; 2]) -> (r: [u32; 2])
    ensures
        r[0] == groups(extent[0] as nat, 8),
        r[1] == groups(extent[1] as nat, 8),
        extent[0] <= 8 * r[0],
        extent[1] <= 8 * r[1],
        r[0] > 1 ==> 8 * (r[0] - 1) < extent[0],
        r[1] > 1 ==> 8 * (r[1] - 1) < extent[1],
{
    [group_count(extent[0], HIZ_WORKGROUP_SIZE), group_count(extent[1], HIZ_WORKGROUP_SIZE)]
}

/// One dispatch of the pyramid build.
#[derive(Clone, Copy, PartialEq, Eq, Structural, Debug)]
pub enum HizDispatch {
    /// The depth attachment into level zero.
    Depth { gx: u32, gy: u32 },
    /// Level `first - 1` into levels `first` and `first + 1`, fused.
    Pair { first: u32, gx: u32, gy: u32 },
    /// Level `level - 1` into level `level`: the one that could not be paired.
    Trailing { level: u32, gx: u32, gy: u32 },
}

impl HizDispatch {
    /// The first level this dispatch writes; it is sized for that level.
    pub open spec fn first_level(&self) -> nat {
        match *self {
            HizDispatch::Depth { .. } => 0,
            HizDispatch::Pair { first, .. } => first as nat,
            HizDispatch::Trailing { level, .. } => level as nat,
        }
    }

    /// How many levels this dispatch writes.
    pub open spec fn levels(&self) -> nat {
        match *self {
            HizDispatch::Pair { .. } => 2,
            _ => 1,
        }
    }

    pub open spec fn group_counts(&self) -> (nat, nat) {
        match *self {
            HizDispatch::Depth { gx, gy } => (gx as nat, gy as nat),
            HizDispatch::Pair { first, gx, gy } => (gx as nat, gy as nat),
            HizDispatch::Trailing { level, gx, gy } => (gx as nat, gy as nat),
        }
    }

    /// The dispatch is sized to its first level's extent.
    pub open spec fn sized_for(&self, mip0: [u32; 2]) -> bool {
        let e = level_extent(mip0, self.first_level());
        self.group_counts() == (groups(e.0, 8), groups(e.1, 8))
    }
}

/// The build of a pyramid of `count` levels: level zero, then the levels from
/// one on in pairs, then the odd one out.
pub open spec fn is_hiz_build(plan: Seq<HizDispatch>, mip0: [u32; 2], count: nat) -> bool {
    let pairs = ((count - 1) / 2) as nat;
    let odd = (count - 1) % 2 == 1;
    &&& plan.len() == 1 + pairs + if odd { 1nat } else { 0 }
    &&& plan[0] is Depth
    &&& forall|i: int|
        1 <= i <= pairs ==> #[trigger] plan[i] is Pair && plan[i].first_level() == 2 * i - 1
    &&& odd ==> plan[1 + pairs as int] is Trailing && plan[1 + pairs as int].first_level() == count
        - 1
    &&& forall|i: int| 0 <= i < plan.len() ==> (#[trigger] plan[i]).sized_for(mip0)
}

/// The dispatches that build the pyramid under `mip0_extent`.
pub fn hiz_build_plan(mip0_extent: [u32; 2]) -> (plan: Vec<HizDispatch>)
    ensures
        exists|count: nat|
            is_mip_count(mip0_extent, count) && #[trigger] is_hiz_build(plan@, mip0_extent, count),
{
    let count: u32 = hiz_mip_count(mip0_extent);
    let mut plan: Vec<HizDispatch> = Vec::new();
    let g: [u32; 2] = dispatch_groups_2d(mip0_extent);
    plan.push(HizDispatch::Depth { gx: g[0], gy: g[1] });
    proof {
        lemma_level_step(mip0_extent[0] as nat, 0);
        lemma_level_step(mip0_extent[1] as nat, 0);
    }
    let remaining: u32 = count - 1;
    let pair_count: u32 = remaining / 2;
    let mut i: u32 = 0;
    while i < pair_count
        invariant
            i <= pair_count,
            remaining == count - 1,
            pair_count == remaining / 2,
            plan.len() == 1 + i,
            plan[0] is Depth,
            forall|k: int|
                1 <= k <= i ==> #[trigger] plan[k] is Pair && plan[k].first_level() == 2 * k - 1,
            forall|k: int| 0 <= k < plan.len() ==> (#[trigger] plan[k]).sized_for(mip0_extent),
        decreases pair_count - i,
    {
        let first: u32 = 1 + 2 * i;
        let e: [u32; 2] = hiz_level_extent(mip0_extent, first);
        let g: [u32; 2] = dispatch_groups_2d(e);
        plan.push(HizDispatch::Pair { first, gx: g[0], gy: g[1] });
        i = i + 1;
    }
    if remaining % 2 == 1 {
        let last: u32 = 1 + 2 * pair_count;
        let e: [u32; 2] = hiz_level_extent(mip0_extent, last);
        let g: [u32; 2] = dispatch_groups_2d(e);
        plan.push(HizDispatch::Trailing { level: last, gx: g[0], gy: g[1] });
    }
    assert(is_hiz_build(plan@, mip0_extent, count as nat));
    plan
}

/// One mip level's region of the end-of-frame copy of this frame's pyramid
/// over last frame's.
#[derive(Clone, Copy, PartialEq, Eq, Debug)]
pub struct HizCopyRegion {
    pub level: u32,
    pub extent: [u32; 2],
}

/// The regions of the pyramid's history copy: every level, whole.
pub fn history_regions(mip0_extent: [u32; 2], mip_count: u32) -> (r: Vec<HizCopyRegion>)
    ensures
        r.len() == mip_count,
        forall|i: int|
            0 <= i < r.len() ==> (#[trigger] r[i]).level == i && (
                r[i].extent[0] as nat,
                r[i].extent[1] as nat,
            ) == level_extent(mip0_extent, i as nat),
{
    let mut r: Vec<HizCopyRegion> = Vec::new();
    let mut level: u32 = 0;
    while level < mip_count
        invariant
            level <= mip_count,
            r.len() == level,
            forall|i: int|
                0 <= i < r.len() ==> (#[trigger] r[i]).level == i && (
                    r[i].extent[0] as nat,
                    r[i].extent[1] as nat,
                ) == level_extent(mip0_extent, i as nat),
        decreases mip_count - level,
    {
        let extent: [u32; 2] = hiz_level_extent(mip0_extent, level);
        r.push(HizCopyRegion { level, extent });
        level = level + 1;
    }
    r
}

/// The number of levels that the first `k` dispatches of a plan write.
pub open spec fn levels_written(plan: Seq<HizDispatch>, k: nat) -> nat
    decreases k,
{
    if k == 0 {
        0
    } else {
        levels_written(plan, (k - 1) as nat) + plan[k - 1].levels()
    }
}

proof fn lemma_levels_written(plan: Seq<HizDispatch>, mip0: [u32; 2], count: nat, k: nat)
    requires
        count >= 1,
        is_hiz_build(plan, mip0, count),
        k <= plan.len(),
    ensures
        levels_written(plan, k) == if k == 0 {
            0
        } else if k <= 1 + (count - 1) / 2 {
            2 * k - 1
        } else {
            count as int
        },
    decreases k,
{
    if k > 0 {
        lemma_levels_written(plan, mip0, count, (k - 1) as nat);
        if k >= 2 && k <= 1 + (count - 1) / 2 {
            assert(plan[k - 1] is Pair);
        }
    }
}

/// The build writes every level of the pyramid exactly once and in order: each
/// dispatch starts at the level after the last one written, so what it reads
/// is complete, and together they write `count` levels.
pub proof fn hiz_build_writes_each_level_once(
    plan: Seq<HizDispatch>,
    mip0: [u32; 2],
    count: nat,
)
    requires
        is_mip_count(mip0, count),
        is_hiz_build(plan, mip0, count),
    ensures
        levels_written(plan, plan.len()) == count,
        forall|k: int|
            0 <= k < plan.len() ==> (#[trigger] plan[k]).first_level() == levels_written(
                plan,
                k as nat,
            ),
{
    lemma_levels_written(plan, mip0, count, plan.len());
    assert forall|k: int| 0 <= k < plan.len() implies (#[trigger] plan[k]).first_level()
        == levels_written(plan, k as nat) by {
        lemma_levels_written(plan, mip0, count, k as nat);
    }
}

/// An extent has one mip count.
pub proof fn mip_count_is_unique(mip0: [u32; 2], a: nat, b: nat)
    requires
        is_mip_count(mip0, a),
        is_mip_count(mip0, b),
    ensures
        a == b,
{
    if a < b {
        assert(level_extent(mip0, (a - 1) as nat) != (1nat, 1nat));
    } else if b < a {
        assert(level_extent(mip0, (b - 1) as nat) != (1nat, 1nat));
    }
}

/// Level zero is the extent itself, and every further level half of the one
/// before it, rounded down, but never less than one texel.
pub proof fn levels_halve(dim: nat, level: nat)
    ensures
        dim >= 1 ==> level_dim(dim, 0) == dim,
        level_dim(0, 0) == 1,
        level_dim(dim, level) >= 1,
        level_dim(dim, level) > 1 ==> 2 * level_dim(dim, level + 1) <= level_dim(dim, level) <= 2
            * level_dim(dim, level + 1) + 1,
        level_dim(dim, level) == 1 ==> level_dim(dim, level + 1) == 1,
{
    lemma_level_step(dim, level);
    lemma_level_step(0, level);
}

/// A pyramid ends at the first level that is one texel, on both axes.
pub proof fn pyramids_end_at_one_texel(mip0: [u32; 2], count: nat, level: nat)
    requires
        is_mip_count(mip0, count),
    ensures
        level_dim(mip0[0] as nat, (count - 1) as nat) == 1,
        level_dim(mip0[1] as nat, (count - 1) as nat) == 1,
        level + 1 < count ==> level_dim(mip0[0] as nat, level) > 1 || level_dim(
            mip0[1] as nat,
            level,
        ) > 1,
{
    levels_halve(mip0[0] as nat, level);
    levels_halve(mip0[1] as nat, level);
    assert(level + 1 < count ==> level_extent(mip0, level) != (1nat, 1nat));
}

/// Every dispatch of a build covers the level that it writes first, texel by
/// texel, along both axes, with not a workgroup too many.
pub proof fn builds_cover_every_level(
    plan: Seq<HizDispatch>,
    mip0: [u32; 2],
    count: nat,
    k: int,
)
    requires
        count >= 1,
        is_hiz_build(plan, mip0, count),
        0 <= k < plan.len(),
    ensures
        ({
            let (gx, gy, level): (nat, nat, nat) = match plan[k] {
                HizDispatch::Depth { gx, gy } => (gx as nat, gy as nat, 0),
                HizDispatch::Pair { first, gx, gy } => (gx as nat, gy as nat, first as nat),
                HizDispatch::Trailing { level, gx, gy } => (gx as nat, gy as nat, level as nat),
            };
            let w = level_dim(mip0[0] as nat, level);
            let h = level_dim(mip0[1] as nat, level);
            &&& w <= 8 * gx && h <= 8 * gy
            &&& 8 * (gx - 1) < w && 8 * (gy - 1) < h
            &&& k == 0 <==> plan[k] is Depth
            &&& plan[k] is Pair ==> level == 2 * k - 1 && level + 1 < count
            &&& plan[k] is Trailing ==> level == count - 1 && k == plan.len() - 1
            &&& plan.len() == 1 + count / 2
            &&& plan[k] is Pair ==> plan[k].levels() == 2
            &&& !(plan[k] is Pair) ==> plan[k].levels() == 1
        }),
{
    assert(plan[k].sized_for(mip0));
    let level = plan[k].first_level();
    lemma_ceil_div(level_dim(mip0[0] as nat, level), 8);
    lemma_ceil_div(level_dim(mip0[1] as nat, level), 8);
    levels_halve(mip0[0] as nat, level);
    levels_halve(mip0[1] as nat, level);
}

} // verus!
