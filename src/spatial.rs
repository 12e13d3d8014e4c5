//! The position bookkeeping of a spatial index over a column: which positions
//! enter the tree, and the masks that queries return over all positions.
//!
//! The rectangles and the geometric tests themselves are floating-point work
//! that stays outside this library; here are the decisions around them.
use vstd::prelude::*;

use crate::array::H3Array;
use crate::index::H3IndexArrayValue;

verus! {

/// The positions below `n` of `column` that are present and have a bounding
/// rectangle, in increasing order.
pub open spec fn indexable(column: Seq<Option<u64>>, has_rect: Seq<bool>, n: int) -> Seq<usize>
    decreases n,
{
    if n <= 0 {
        Seq::empty()
    } else {
        indexable(column, has_rect, n - 1) + if column[n - 1] is Some && has_rect[n - 1] {
            seq![(n - 1) as usize]
        } else {
            Seq::empty()
        }
    }
}

/// Every element of `s` is below `bound`, and each is larger than the one
/// before.
pub open spec fn increasing_below(s: Seq<usize>, bound: int) -> bool {
    &&& forall|j: int| 0 <= j < s.len() ==> #[trigger] s[j] < bound
    &&& forall|a: int, b: int| 0 <= a < b < s.len() ==> #[trigger] s[a] < #[trigger] s[b]
}

/// The positions of `column` that a spatial index holds: each present
/// position whose index has a bounding rectangle (`has_rect`, one flag per
/// position). Null positions, and those without a rectangle, never match a
/// query.
pub fn indexable_positions<V: H3IndexArrayValue>(column: &H3Array<V>, has_rect: &Vec<bool>) -> (r:
    Vec<usize>)
    requires
        has_rect@.len() == column@.len(),
    ensures
        r@ == indexable(column@, has_rect@, column@.len() as int),
        increasing_below(r@, column@.len() as int),
{
    let n = column.len();
    let mut out: Vec<usize> = Vec::new();
    let mut i: usize = 0;
    while i < n
        invariant
            n == column@.len(),
            has_rect@.len() == n,
            i <= n,
            out@ == indexable(column@, has_rect@, i as int),
            increasing_below(out@, i as int),
        decreases n - i,
    {
        let present = column.raw_value(i).is_some();
        if present && has_rect[i] {
            out.push(i);
        }
        i = i + 1;
    }
    out
}

/// A mask of `size` positions, none set.
pub fn negative_mask(size: usize) -> (r: Vec<bool>)
    ensures
        r@ == Seq::new(size as nat, |i: int| false),
{
    let mut r: Vec<bool> = Vec::with_capacity(size);
    let mut i: usize = 0;
    while i < size
        invariant
            i <= size,
            r@ == Seq::new(i as nat, |j: int| false),
        decreases size - i,
    {
        r.push(false);
        i = i + 1;
        assert(r@ =~= Seq::new(i as nat, |j: int| false));
    }
    r
}

/// The candidates whose position is not set in `mask` yet, in order: those
/// still to be tested.
pub open spec fn unset_in(mask: Seq<bool>, candidates: Seq<usize>) -> Seq<usize>
    decreases candidates.len(),
{
    if candidates.len() == 0 {
        Seq::empty()
    } else {
        unset_in(mask, candidates.drop_last()) + if mask[candidates.last() as int] {
            Seq::empty()
        } else {
            seq![candidates.last()]
        }
    }
}

/// The candidates of a query that the mask does not hold yet; a position
/// already set is not tested again.
pub fn untested(mask: &Vec<bool>, candidates: &Vec<usize>) -> (r: Vec<usize>)
    requires
        forall|j: int| 0 <= j < candidates@.len() ==> #[trigger] candidates@[j] < mask@.len(),
    ensures
        r@ == unset_in(mask@, candidates@),
{
    let mut out: Vec<usize> = Vec::new();
    let mut t: usize = 0;
    while t < candidates.len()
        invariant
            t <= candidates@.len(),
            forall|j: int| 0 <= j < candidates@.len() ==> #[trigger] candidates@[j] < mask@.len(),
            out@ == unset_in(mask@, candidates@.take(t as int)),
        decreases candidates@.len() - t,
    {
        assert(candidates@.take(t + 1).drop_last() =~= candidates@.take(t as int));
        let c = candidates[t];
        if !mask[c] {
            out.push(c);
        }
        t = t + 1;
    }
    assert(candidates@.take(candidates@.len() as int) =~= candidates@);
    out
}

/// Whether position `i` is among `hits`.
pub open spec fn is_hit(hits: Seq<usize>, i: int) -> bool {
    exists|j: int| 0 <= j < hits.len() && #[trigger] hits[j] as int == i
}

/// Sets the mask at every position of `hits`. Positions already set stay
/// set, so a mask only grows.
pub fn mark(mask: &mut Vec<bool>, hits: &Vec<usize>)
    requires
        forall|j: int| 0 <= j < hits@.len() ==> #[trigger] hits@[j] < old(mask)@.len(),
    ensures
        final(mask)@ == marked(old(mask)@, hits@),
{
    let ghost before = mask@;
    let mut t: usize = 0;
    while t < hits.len()
        invariant
            t <= hits@.len(),
            mask@.len() == before.len(),
            forall|j: int| 0 <= j < hits@.len() ==> #[trigger] hits@[j] < before.len(),
            forall|i: int|
                0 <= i < before.len() ==> #[trigger] mask@[i] == (before[i] || is_hit(
                    hits@.take(t as int),
                    i,
                )),
        decreases hits@.len() - t,
    {
        let h = hits[t];
        let ghost prev = mask@;
        mask.set(h, true);
        t = t + 1;
        assert forall|i: int| 0 <= i < before.len() implies #[trigger] mask@[i] == (before[i]
            || is_hit(hits@.take(t as int), i)) by {
            let now = hits@.take(t as int);
            let earlier = hits@.take(t - 1);
            if is_hit(earlier, i) {
                let w = choose|w: int| 0 <= w < earlier.len() && #[trigger] earlier[w] as int == i;
                assert(now[w] == earlier[w]);
            }
            if i == h as int {
                assert(now[t - 1] == h);
            }
            if is_hit(now, i) && i != h as int {
                let w = choose|w: int| 0 <= w < now.len() && #[trigger] now[w] as int == i;
                assert(w < t - 1);
                assert(earlier[w] == now[w]);
            }
            assert(mask@[i] == if i == h as int { true } else { prev[i] });
        }
    }
    assert(hits@.take(hits@.len() as int) =~= hits@);
    assert(mask@ =~= marked(before, hits@));
}

/// `mask` with every position of `hits` set.
pub open spec fn marked(mask: Seq<bool>, hits: Seq<usize>) -> Seq<bool> {
    Seq::new(mask.len(), |i: int| mask[i] || is_hit(hits, i))
}

/// Marking the same hits twice sets what marking them once sets, and marking
/// more hits never sets fewer positions.
pub proof fn lemma_marking_idempotent_and_monotonic(mask: Seq<bool>, hits: Seq<usize>, more: Seq<usize>)
    requires
        forall|i: int| #[trigger] is_hit(hits, i) ==> is_hit(more, i),
    ensures
        marked(marked(mask, hits), hits) == marked(mask, hits),
        forall|i: int| 0 <= i < mask.len() && #[trigger] marked(mask, hits)[i] ==> marked(mask, more)[i],
{
    assert(marked(marked(mask, hits), hits) =~= marked(mask, hits));
}

} // verus!
