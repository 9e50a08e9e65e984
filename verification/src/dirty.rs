//! Packed dirty bitmasks: one bit per entity slot, thirty-two slots to a word.
//!
//! A transform component (position, rotation, scale) travels from the scene to
//! the GPU as a flat array of words, `stride` words per entity, next to a
//! bitmask of the entities that changed. Everything here is about that pair.

use crate::growth::{ceil_div, div_ceil_usize, lemma_ceil_div, max_usize};
use vstd::prelude::*;

verus! {

/// Bit `i` of `w`, counted from the least significant.
pub open spec fn bit(w: u32, i: int) -> bool {
    (w >> (i as u32)) & 1u32 == 1u32
}

/// Whether the bitmask `words` marks entity `e`. Entities past the last word
/// are unmarked.
pub open spec fn marked(words: Seq<u32>, e: int) -> bool {
    0 <= e && e / 32 < words.len() && bit(words[e / 32], e % 32)
}

/// The number of words a bitmask over `capacity` slots has; never none.
pub open spec fn word_count(capacity: nat) -> nat {
    if capacity == 0 { 1 } else { ceil_div(capacity, 32) }
}

/// `dst` after the values of every entity of `[from, to)` that is below
/// `limit` and marked in `words` were copied over from `src`.
pub open spec fn copied(
    words: Seq<u32>,
    from: int,
    to: int,
    limit: int,
    stride: int,
    src: Seq<u32>,
    dst: Seq<u32>,
) -> Seq<u32> {
    Seq::new(
        dst.len(),
        |j: int|
            if from <= j / stride < to && j / stride < limit && marked(words, j / stride) {
                src[j]
            } else {
                dst[j]
            },
    )
}

/// Number of `u32` words needed to bitmask `entity_capacity` slots.
pub fn dirty_word_count(entity_capacity: usize) -> (r: usize)
    ensures
        r == word_count(entity_capacity as nat),
        r >= 1,
        r <= usize::MAX / 32 + 1,
        entity_capacity <= 32 * r,
        entity_capacity > 0 ==> 32 * (r - 1) < entity_capacity,
{
    proof {
        lemma_ceil_div(entity_capacity as nat, 32);
    }
    max_usize(div_ceil_usize(entity_capacity, 32), 1)
}

/// Clearing the lowest set bit leaves every other bit as it was.
proof fn lemma_clear_lowest(w: u32, b: u32)
    requires
        w != 0,
        b == vstd::std_specs::bits::u32_trailing_zeros(w),
    ensures
        b < 32,
        bit(w, b as int),
        forall|i: int| 0 <= i < b ==> !bit(w, i),
        forall|i: int| 0 <= i < 32 && i != b ==> bit(w & ((w - 1) as u32), i) == #[trigger] bit(w, i),
        !bit(w & ((w - 1) as u32), b as int),
        w & ((w - 1) as u32) < w,
{
    vstd::std_specs::bits::axiom_u32_trailing_zeros(w);
    assert forall|i: int| 0 <= i < b implies !bit(w, i) by {
        let j = i as u32;
        assert((w >> j) & 1u32 == 0u32);
    }
    assert(b < 32 && w << ((32 - b) as u32) == 0 && (w >> b) & 1u32 == 1u32 ==> ((w & ((w - 1) as u32)) >> b)
        & 1u32 == 0u32 && w & ((w - 1) as u32) < w) by (bit_vector);
    assert forall|i: int| 0 <= i < 32 && i != b implies bit(w & ((w - 1) as u32), i) == #[trigger] bit(
        w,
        i,
    ) by {
        let j = i as u32;
        assert(j < 32 && b < 32 && j != b && w << ((32 - b) as u32) == 0 && (w >> b) & 1u32 == 1u32 ==> (((
        w & ((w - 1) as u32)) >> j) & 1u32 == 1u32) == ((w >> j) & 1u32 == 1u32)) by (bit_vector);
    }
}

/// A word is zero exactly when no bit of it is set.
pub proof fn lemma_zero_word(w: u32)
    ensures
        w == 0 <==> forall|i: int| 0 <= i < 32 ==> !#[trigger] bit(w, i),
{
    if w == 0 {
        assert forall|i: int| 0 <= i < 32 implies !#[trigger] bit(w, i) by {
            let j = i as u32;
            assert((0u32 >> j) & 1u32 == 0u32) by (bit_vector);
        }
    } else {
        lemma_clear_lowest(w, vstd::std_specs::bits::u32_trailing_zeros(w));
    }
}

/// The absolute indices of the entities that one word of a packed dirty
/// bitmask marks, lowest first. `word_idx` is the word's position in the
/// bitmask; tail bits at or past `entity_count` are skipped.
pub fn walk_bits(bits: u32, word_idx: usize, entity_count: usize) -> (r: Vec<usize>)
    requires
        word_idx * 32 + 31 <= usize::MAX,
    ensures
        forall|i: int, j: int| 0 <= i < j < r.len() ==> r[i] < r[j],
        forall|e: usize|
            r@.contains(e) <==> (word_idx * 32 <= e < word_idx * 32 + 32 && e < entity_count && bit(
                bits,
                e - word_idx * 32,
            )),
{
    let base: usize = word_idx * 32;
    let mut left: u32 = bits;
    let mut out: Vec<usize> = Vec::new();
    let ghost mut seen: int = 0;
    proof {
        lemma_zero_word(bits);
    }
    while left != 0
        invariant_except_break
            forall|i: int| seen <= i < 32 ==> bit(left, i) == bit(bits, i),
            forall|i: int| 0 <= i < seen ==> !#[trigger] bit(left, i),
        invariant
            0 <= seen <= 32,
            base == word_idx * 32,
            word_idx * 32 + 31 <= usize::MAX,
            forall|i: int, j: int| 0 <= i < j < out.len() ==> out[i] < out[j],
            forall|i: int|
                0 <= i < out.len() ==> base <= #[trigger] out[i] < base + seen && out[i]
                    < entity_count && bit(bits, out[i] - base),
            forall|e: usize|
                base <= e < base + seen && e < entity_count && bit(bits, e - base)
                    ==> #[trigger] out@.contains(e),
        ensures
            forall|i: int|
                seen <= i < 32 && #[trigger] bit(bits, i) ==> base + i >= entity_count,
        decreases left,
    {
        let b: u32 = left.trailing_zeros();
        let ghost before = left;
        let ghost out0 = out@;
        proof {
            lemma_clear_lowest(left, b);
            assert(b >= seen);
        }
        left = left & (left - 1);
        let i: usize = base + b as usize;
        if i >= entity_count {
            proof {
                assert forall|k: int| seen <= k < 32 && #[trigger] bit(bits, k) implies base + k
                    >= entity_count by {
                    assert(bit(before, k));
                    assert(k >= b);
                }
            }
            break;
        }
        out.push(i);
        proof {
            assert forall|e: usize|
                base <= e < base + (b + 1) && e < entity_count && bit(
                    bits,
                    e - base,
                ) implies #[trigger] out@.contains(e) by {
                if e == i {
                    assert(out@[out0.len() as int] == e);
                } else if e < base + seen {
                    assert(out0.contains(e));
                    let k = choose|k: int| 0 <= k < out0.len() && out0[k] == e;
                    assert(out@[k] == e);
                } else {
                    assert(bit(before, e - base));
                    assert(false);
                }
            }
            assert forall|k: int| 0 <= k < b + 1 implies !#[trigger] bit(left, k) by {
                if k < b {
                    assert(!bit(before, k));
                }
            }
            seen = b + 1;
        }
    }
    proof {
        assert forall|e: usize|
            out@.contains(e) <==> (word_idx * 32 <= e < word_idx * 32 + 32 && e < entity_count
                && bit(bits, e - word_idx * 32)) by {
            if out@.contains(e) {
                let k = choose|k: int| 0 <= k < out@.len() && out@[k] == e;
                assert(base <= out[k] < base + seen);
            }
            if word_idx * 32 <= e < word_idx * 32 + 32 && e < entity_count && bit(
                bits,
                e - word_idx * 32,
            ) {
                if e >= base + seen {
                    assert(bit(bits, e - base));
                    assert(base + (e - base) >= entity_count);
                }
            }
        }
    }
    out
}


/// A flat index belongs to the entity its quotient by the stride names.
proof fn lemma_flat_index(stride: int, e: int, j: int)
    requires
        stride > 0,
        0 <= e,
        0 <= j,
    ensures
        e * stride <= j < e * stride + stride <==> j / stride == e,
{
    vstd::arithmetic::div_mod::lemma_fundamental_div_mod(j, stride);
    let q = j / stride;
    assert(stride * q == q * stride) by (nonlinear_arith);
    if e * stride <= j < e * stride + stride {
        vstd::arithmetic::div_mod::lemma_fundamental_div_mod_converse(
            j,
            stride,
            e,
            j - e * stride,
        );
    }
}

/// Copies the values of the entities that word `word_idx` of `words` marks
/// from `src` to `dst`, `stride` words each, leaving everything else alone.
/// Entities at or past `limit` are skipped.
pub fn copy_word(
    words: &Vec<u32>,
    word_idx: usize,
    limit: usize,
    stride: usize,
    src: &Vec<u32>,
    dst: &mut Vec<u32>,
)
    requires
        word_idx < words.len(),
        word_idx * 32 + 31 <= usize::MAX,
        stride > 0,
        limit * stride <= src.len(),
        limit * stride <= old(dst).len(),
    ensures
        final(dst)@ == copied(
            words@,
            word_idx * 32,
            word_idx * 32 + 32,
            limit as int,
            stride as int,
            src@,
            old(dst)@,
        ),
{
    let ghost dst0 = dst@;
    let entities: Vec<usize> = walk_bits(words[word_idx], word_idx, limit);
    let mut n: usize = 0;
    let ghost lo = word_idx * 32;
    while n < entities.len()
        invariant
            n <= entities.len(),
            lo == word_idx * 32,
            word_idx < words.len(),
            stride > 0,
            limit * stride <= src.len(),
            limit * stride <= dst0.len(),
            dst.len() == dst0.len(),
            forall|i: int, j: int| 0 <= i < j < entities.len() ==> entities[i] < entities[j],
            forall|e: usize|
                entities@.contains(e) <==> (word_idx * 32 <= e < word_idx * 32 + 32 && e < limit
                    && bit(words[word_idx as int], e - word_idx * 32)),
            forall|j: int|
                0 <= j < dst0.len() ==> #[trigger] dst[j] == if exists|k: int|
                    0 <= k < n && #[trigger] entities[k] == j / stride as int {
                    src[j]
                } else {
                    dst0[j]
                },
        decreases entities.len() - n,
    {
        let e: usize = entities[n];
        proof {
            assert(entities@.contains(e));
            assert(e * stride + stride <= limit * stride) by (nonlinear_arith)
                requires
                    e + 1 <= limit,
                    stride > 0,
            ;
        }
        let base: usize = e * stride;
        let ghost before = dst@;
        let mut k: usize = 0;
        while k < stride
            invariant
                k <= stride,
                stride > 0,
                base == e * stride,
                base + stride <= limit * stride,
                limit * stride <= src.len(),
                limit * stride <= before.len(),
                dst.len() == before.len(),
                forall|j: int|
                    0 <= j < before.len() ==> #[trigger] dst[j] == if base <= j < base + k {
                        src[j]
                    } else {
                        before[j]
                    },
            decreases stride - k,
        {
            dst.set(base + k, src[base + k]);
            k = k + 1;
        }
        proof {
            assert forall|j: int| 0 <= j < dst0.len() implies #[trigger] dst[j] == if exists|k: int|
                0 <= k < n + 1 && #[trigger] entities[k] == j / stride as int {
                src[j]
            } else {
                dst0[j]
            } by {
                lemma_flat_index(stride as int, e as int, j);
                if base <= j < base + stride {
                    assert(entities[n as int] == j / stride as int);
                } else if exists|k: int| 0 <= k < n && #[trigger] entities[k] == j / stride as int {
                    let k = choose|k: int| 0 <= k < n && #[trigger] entities[k] == j / stride as int;
                    assert(0 <= k < n + 1);
                    assert(before[j] == src[j]);
                } else {
                    assert(before[j] == dst0[j]);
                }
            }
        }
        n = n + 1;
    }
    proof {
        assert forall|j: int| 0 <= j < dst0.len() implies #[trigger] dst[j] == copied(
            words@,
            lo,
            lo + 32,
            limit as int,
            stride as int,
            src@,
            dst0,
        )[j] by {
            let e = j / stride as int;
            vstd::arithmetic::div_mod::lemma_div_pos_is_pos(j, stride as int);
            if exists|k: int| 0 <= k < n && #[trigger] entities[k] == e {
                let k = choose|k: int| 0 <= k < n && #[trigger] entities[k] == e;
                assert(entities@.contains(entities[k]));
                assert(e / 32 == word_idx);
            } else if lo <= e < lo + 32 && e < limit && marked(words@, e) {
                assert(e / 32 == word_idx);
                assert(entities@.contains(e as usize));
                let k = choose|k: int| 0 <= k < entities@.len() && entities@[k] == e as usize;
                assert(entities[k] == e);
            }
        }
        assert(dst@ =~= copied(words@, lo, lo + 32, limit as int, stride as int, src@, dst0));
    }
}

/// Copying a range of entities in two adjacent parts is copying it at once.
pub proof fn lemma_copied_adjacent(
    words: Seq<u32>,
    from: int,
    mid: int,
    to: int,
    limit: int,
    stride: int,
    src: Seq<u32>,
    dst: Seq<u32>,
)
    requires
        from <= mid <= to,
    ensures
        copied(
            words,
            mid,
            to,
            limit,
            stride,
            src,
            copied(words, from, mid, limit, stride, src, dst),
        ) == copied(words, from, to, limit, stride, src, dst),
{
    assert(copied(
        words,
        mid,
        to,
        limit,
        stride,
        src,
        copied(words, from, mid, limit, stride, src, dst),
    ) =~= copied(words, from, to, limit, stride, src, dst));
}

/// An entity is marked by one bit: thirty-two entities share a word, the first
/// of them in its lowest bit.
pub proof fn entities_have_a_bit_each(words: Seq<u32>, e: int)
    requires
        0 <= e,
    ensures
        marked(words, e) <==> e / 32 < words.len() && (words[e / 32] >> ((e % 32) as u32)) & 1u32
            == 1u32,
{
}

/// A bitmask has room for every slot, not a word more than that takes, and
/// never none.
pub proof fn bitmasks_have_room(capacity: nat)
    ensures
        capacity <= 32 * word_count(capacity),
        capacity > 0 ==> 32 * (word_count(capacity) - 1) < capacity,
        word_count(capacity) >= 1,
        word_count(0) == 1,
{
    lemma_ceil_div(capacity, 32);
}

/// Copying takes over every word of every marked entity of the range that is
/// below the limit, and leaves every other word as it was.
pub proof fn marked_values_are_copied(
    words: Seq<u32>,
    from: int,
    to: int,
    limit: int,
    stride: int,
    src: Seq<u32>,
    dst: Seq<u32>,
    e: int,
    k: int,
)
    requires
        stride > 0,
        0 <= e,
        0 <= k < stride,
        e * stride + k < dst.len(),
    ensures
        ({
            let now = copied(words, from, to, limit, stride, src, dst);
            let j = e * stride + k;
            let moves = from <= e < to && e < limit && e / 32 < words.len() && (words[e / 32] >> ((e
                % 32) as u32)) & 1u32 == 1u32;
            &&& now.len() == dst.len()
            &&& moves ==> now[j] == src[j]
            &&& !moves ==> now[j] == dst[j]
        }),
{
    assert(0 <= e * stride) by (nonlinear_arith)
        requires
            0 <= e,
            stride > 0,
    ;
    lemma_flat_index(stride, e, e * stride + k);
}

} // verus!
