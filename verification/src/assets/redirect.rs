//! Redirect flips: changes of the id-to-slot map that wait until the slot they
//! point at is resident.

use vstd::prelude::*;

verus! {

/// "From now on, `id` resolves to `slot`."
#[derive(Clone, Copy, PartialEq, Eq, Structural, Debug)]
pub struct Flip {
    pub id: u32,
    pub slot: u32,
}

/// The flips whose slot lies below the watermark, in order.
pub open spec fn resident(flips: Seq<Flip>, watermark: int) -> Seq<Flip>
    decreases flips.len(),
{
    if flips.len() == 0 {
        Seq::empty()
    } else {
        let before = resident(flips.drop_last(), watermark);
        if flips.last().slot < watermark {
            before.push(flips.last())
        } else {
            before
        }
    }
}

/// The flips whose slot does not, in order.
pub open spec fn deferred(flips: Seq<Flip>, watermark: int) -> Seq<Flip>
    decreases flips.len(),
{
    if flips.len() == 0 {
        Seq::empty()
    } else {
        let before = deferred(flips.drop_last(), watermark);
        if flips.last().slot < watermark {
            before
        } else {
            before.push(flips.last())
        }
    }
}

/// The map after the flips, applied one after the other: of two flips of one
/// id the later one stands.
pub open spec fn flipped(redirect: Seq<u32>, flips: Seq<Flip>) -> Seq<u32>
    decreases flips.len(),
{
    if flips.len() == 0 {
        redirect
    } else {
        flipped(redirect, flips.drop_last()).update(flips.last().id as int, flips.last().slot)
    }
}

/// Every flip is of an id below `ids`.
pub open spec fn ids_below(flips: Seq<Flip>, ids: int) -> bool {
    forall|i: int| 0 <= i < flips.len() ==> (#[trigger] flips[i]).id < ids
}

/// What an id resolves to: its entry, or the placeholder past the end, as the
/// zero-filled buffer reads.
pub open spec fn resolved(redirect: Seq<u32>, id: int) -> u32 {
    if 0 <= id < redirect.len() {
        redirect[id]
    } else {
        0
    }
}

/// Every id resolves to the placeholder or to a slot below the watermark.
pub open spec fn all_resident(redirect: Seq<u32>, watermark: int) -> bool {
    forall|i: int|
        0 <= i < redirect.len() ==> #[trigger] redirect[i] == 0 || redirect[i] < watermark
}

/// `redirect` extended with placeholders to `ids` ids; never shortened.
pub open spec fn extended(redirect: Seq<u32>, ids: int) -> Seq<u32> {
    if ids <= redirect.len() {
        redirect
    } else {
        redirect + Seq::new((ids - redirect.len()) as nat, |i: int| 0u32)
    }
}

/// Splits pending flips at the watermark, keeping their order on both sides.
pub fn split_flips(pending: &Vec<Flip>, watermark: u32) -> (r: (Vec<Flip>, Vec<Flip>))
    ensures
        r.0@ == resident(pending@, watermark as int),
        r.1@ == deferred(pending@, watermark as int),
{
    let mut now: Vec<Flip> = Vec::new();
    let mut later: Vec<Flip> = Vec::new();
    let mut i: usize = 0;
    while i < pending.len()
        invariant
            i <= pending.len(),
            now@ == resident(pending@.take(i as int), watermark as int),
            later@ == deferred(pending@.take(i as int), watermark as int),
        decreases pending.len() - i,
    {
        let f: Flip = pending[i];
        assert(pending@.take(i + 1).drop_last() =~= pending@.take(i as int));
        if f.slot < watermark {
            now.push(f);
        } else {
            later.push(f);
        }
        i = i + 1;
    }
    assert(pending@.take(i as int) =~= pending@);
    (now, later)
}

/// Applies flips to a mirror of the redirect buffer.
pub fn apply_flips(redirect: &mut Vec<u32>, flips: &Vec<Flip>)
    requires
        ids_below(flips@, old(redirect).len() as int),
    ensures
        final(redirect)@ == flipped(old(redirect)@, flips@),
        final(redirect).len() == old(redirect).len(),
{
    let ghost before = redirect@;
    let mut i: usize = 0;
    while i < flips.len()
        invariant
            i <= flips.len(),
            redirect.len() == before.len(),
            ids_below(flips@, before.len() as int),
            redirect@ == flipped(before, flips@.take(i as int)),
        decreases flips.len() - i,
    {
        let f: Flip = flips[i];
        assert(flips@.take(i + 1).drop_last() =~= flips@.take(i as int));
        redirect.set(f.id as usize, f.slot);
        i = i + 1;
    }
    assert(flips@.take(i as int) =~= flips@);
}

/// Extends a mirror of the redirect buffer with placeholders.
pub fn extend_redirect(redirect: &mut Vec<u32>, ids: u32)
    ensures
        final(redirect)@ == extended(old(redirect)@, ids as int),
{
    let ghost before = redirect@;
    while redirect.len() < ids as usize
        invariant
            redirect.len() <= ids || redirect@ == before,
            redirect.len() >= before.len(),
            redirect@ == extended(before, redirect.len() as int),
        decreases ids - redirect.len(),
    {
        redirect.push(0);
        assert(redirect@ =~= extended(before, redirect.len() as int));
    }
    assert(redirect@ =~= extended(before, ids as int));
}

/// Appends one list of flips to another.
pub fn append_flips(pending: &mut Vec<Flip>, more: &Vec<Flip>)
    ensures
        final(pending)@ == old(pending)@ + more@,
{
    let ghost before = pending@;
    let mut i: usize = 0;
    assert(pending@ =~= before + more@.take(0));
    while i < more.len()
        invariant
            i <= more.len(),
            pending@ == before + more@.take(i as int),
        decreases more.len() - i,
    {
        pending.push(more[i]);
        i = i + 1;
        assert(pending@ =~= before + more@.take(i as int));
    }
    assert(more@.take(i as int) =~= more@);
}

/// Each side of a split only has flips of its own kind.
pub proof fn lemma_split(flips: Seq<Flip>, watermark: int)
    ensures
        forall|i: int|
            0 <= i < resident(flips, watermark).len() ==> (#[trigger] resident(
                flips,
                watermark,
            )[i]).slot < watermark,
        forall|i: int|
            0 <= i < deferred(flips, watermark).len() ==> (#[trigger] deferred(
                flips,
                watermark,
            )[i]).slot >= watermark,
    decreases flips.len(),
{
    if flips.len() > 0 {
        let rest = flips.drop_last();
        lemma_split(rest, watermark);
        assert forall|i: int| 0 <= i < resident(flips, watermark).len() implies (
        #[trigger] resident(flips, watermark)[i]).slot < watermark by {
            if i < resident(rest, watermark).len() {
                assert(resident(flips, watermark)[i] == resident(rest, watermark)[i]);
            }
        }
        assert forall|i: int| 0 <= i < deferred(flips, watermark).len() implies (
        #[trigger] deferred(flips, watermark)[i]).slot >= watermark by {
            if i < deferred(rest, watermark).len() {
                assert(deferred(flips, watermark)[i] == deferred(rest, watermark)[i]);
            }
        }
    }
}

/// Flips to resident slots leave every id resident, and the map's length.
pub proof fn lemma_flipped(redirect: Seq<u32>, flips: Seq<Flip>, watermark: int)
    requires
        ids_below(flips, redirect.len() as int),
        all_resident(redirect, watermark),
        forall|i: int| 0 <= i < flips.len() ==> (#[trigger] flips[i]).slot < watermark,
    ensures
        flipped(redirect, flips).len() == redirect.len(),
        all_resident(flipped(redirect, flips), watermark),
    decreases flips.len(),
{
    if flips.len() > 0 {
        let rest = flips.drop_last();
        assert forall|i: int| 0 <= i < rest.len() implies (#[trigger] rest[i]).slot < watermark
            && rest[i].id < redirect.len() by {
            assert(flips[i].slot < watermark && flips[i].id < redirect.len());
        }
        lemma_flipped(redirect, rest, watermark);
        assert(flips[flips.len() - 1].slot < watermark);
    }
}

/// Nothing is lost: a flip is applied or deferred, never both, never neither.
pub proof fn flips_are_applied_or_deferred(flips: Seq<Flip>, watermark: int)
    ensures
        resident(flips, watermark).len() + deferred(flips, watermark).len() == flips.len(),
        forall|f: Flip|
            #![trigger flips.contains(f)]
            #![trigger resident(flips, watermark).contains(f)]
            #![trigger deferred(flips, watermark).contains(f)]
            flips.contains(f) <==> resident(flips, watermark).contains(f) || deferred(
                flips,
                watermark,
            ).contains(f),
    decreases flips.len(),
{
    if flips.len() > 0 {
        let rest = flips.drop_last();
        let last = flips.last();
        flips_are_applied_or_deferred(rest, watermark);
        let r0 = resident(rest, watermark);
        let d0 = deferred(rest, watermark);
        let r1 = resident(flips, watermark);
        let d1 = deferred(flips, watermark);
        assert forall|f: Flip|
            #![trigger flips.contains(f)]
            #![trigger r1.contains(f)]
            #![trigger d1.contains(f)]
            flips.contains(f) <==> r1.contains(f) || d1.contains(f) by {
            assert(flips == rest.push(last));
            if flips.contains(f) {
                if f == last {
                    if last.slot < watermark {
                        assert(r1[r0.len() as int] == f);
                    } else {
                        assert(d1[d0.len() as int] == f);
                    }
                } else {
                    let i = choose|i: int| 0 <= i < flips.len() && flips[i] == f;
                    assert(rest[i] == f);
                    assert(rest.contains(f));
                    if r0.contains(f) {
                        let k = choose|k: int| 0 <= k < r0.len() && r0[k] == f;
                        assert(r1[k] == f);
                    } else {
                        let k = choose|k: int| 0 <= k < d0.len() && d0[k] == f;
                        assert(d1[k] == f);
                    }
                }
            }
            if r1.contains(f) {
                let k = choose|k: int| 0 <= k < r1.len() && r1[k] == f;
                if k < r0.len() {
                    assert(r0[k] == f);
                    assert(r0.contains(f));
                    let i = choose|i: int| 0 <= i < rest.len() && rest[i] == f;
                    assert(flips[i] == f);
                } else {
                    assert(flips[flips.len() - 1] == f);
                }
            }
            if d1.contains(f) {
                let k = choose|k: int| 0 <= k < d1.len() && d1[k] == f;
                if k < d0.len() {
                    assert(d0[k] == f);
                    assert(d0.contains(f));
                    assert(rest.contains(f));
                    let i = choose|i: int| 0 <= i < rest.len() && rest[i] == f;
                    assert(flips[i] == f);
                } else {
                    assert(flips[flips.len() - 1] == f);
                }
            }
        }
    }
}

/// A flip lands exactly if its slot lies below the watermark and waits exactly
/// if it does not, one by one and in the order in which they came.
pub proof fn flips_split_by_their_slot(a: Seq<Flip>, b: Seq<Flip>, f: Flip, watermark: int)
    ensures
        f.slot < watermark ==> resident(seq![f], watermark) == seq![f] && deferred(
            seq![f],
            watermark,
        ) == Seq::<Flip>::empty(),
        f.slot >= watermark ==> resident(seq![f], watermark) == Seq::<Flip>::empty() && deferred(
            seq![f],
            watermark,
        ) == seq![f],
        resident(a + b, watermark) == resident(a, watermark) + resident(b, watermark),
        deferred(a + b, watermark) == deferred(a, watermark) + deferred(b, watermark),
        resident(Seq::<Flip>::empty(), watermark).len() == 0,
        deferred(Seq::<Flip>::empty(), watermark).len() == 0,
    decreases b.len(),
{
    let none = Seq::<Flip>::empty();
    assert(seq![f].drop_last() =~= none);
    assert(resident(none, watermark) =~= none && deferred(none, watermark) =~= none);
    assert(none.push(f) =~= seq![f]);
    if b.len() == 0 {
        assert(a + b =~= a);
        assert(resident(a, watermark) + none =~= resident(a, watermark));
        assert(deferred(a, watermark) + none =~= deferred(a, watermark));
        assert(b =~= none);
    } else {
        flips_split_by_their_slot(a, b.drop_last(), f, watermark);
        assert((a + b).drop_last() =~= a + b.drop_last());
        assert((a + b).last() == b.last());
        assert(resident(a + b, watermark) =~= resident(a, watermark) + resident(b, watermark));
        assert(deferred(a + b, watermark) =~= deferred(a, watermark) + deferred(b, watermark));
    }
}

/// Of the flips of one id the last one stands, and an id that no flip is of
/// keeps its slot.
pub proof fn the_last_flip_stands(redirect: Seq<u32>, flips: Seq<Flip>, i: int, id: int)
    requires
        ids_below(flips, redirect.len() as int),
        0 <= id < redirect.len(),
    ensures
        flipped(redirect, flips).len() == redirect.len(),
        0 <= i < flips.len() && flips[i].id == id && (forall|k: int|
            i < k < flips.len() ==> (#[trigger] flips[k]).id != id) ==> flipped(
            redirect,
            flips,
        )[id] == flips[i].slot,
        (forall|k: int| 0 <= k < flips.len() ==> (#[trigger] flips[k]).id != id) ==> flipped(
            redirect,
            flips,
        )[id] == redirect[id],
    decreases flips.len(),
{
    if flips.len() > 0 {
        let rest = flips.drop_last();
        assert forall|k: int| 0 <= k < rest.len() implies (#[trigger] rest[k]).id
            < redirect.len() by {
            assert(flips[k].id < redirect.len());
        }
        the_last_flip_stands(redirect, rest, i, id);
        assert(flips[flips.len() - 1].id < redirect.len());
        assert(forall|k: int| 0 <= k < rest.len() ==> #[trigger] rest[k] == flips[k]);
    }
}

/// Room for more ids changes what no id resolves to: those that were known
/// keep their slot, and the new ones are placeholders.
pub proof fn new_ids_are_placeholders(redirect: Seq<u32>, ids: int, id: int)
    ensures
        extended(redirect, ids).len() >= ids,
        extended(redirect, ids).len() == redirect.len() || extended(redirect, ids).len() == ids,
        extended(redirect, ids).len() >= redirect.len(),
        0 <= id < redirect.len() ==> extended(redirect, ids)[id] == redirect[id],
        redirect.len() <= id < ids ==> extended(redirect, ids)[id] == 0,
        0 <= id < redirect.len() ==> resolved(redirect, id) == redirect[id],
        id >= redirect.len() ==> resolved(redirect, id) == 0,
        resolved(extended(redirect, ids), id) == resolved(redirect, id),
{
}

} // verus!
