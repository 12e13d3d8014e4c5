//! Moving a column of cells to another resolution: coarser cells expand to
//! their children, finer cells collapse to their ancestor.
use vstd::prelude::*;

use crate::array::H3Array;
use crate::grid_math::{
    ancestor_bits, cell_children, cell_parent, cell_resolution, children_of, is_cell,
    lemma_ancestor_resolution, resolution_bits, MAX_RESOLUTION,
};
use crate::index::Cell;
use crate::list::present_all;

verus! {

/// A column of cells.
pub type CellIndexArray = H3Array<Cell>;

/// The cells at resolution `res` that stand for the cell `raw`: its children
/// where `res` is finer, the cell itself where it is the same, its ancestor
/// where `res` is coarser.
pub open spec fn expand(raw: u64, res: u8) -> Seq<u64> {
    if resolution_bits(raw) < res as u64 {
        children_of(raw, res)
    } else if resolution_bits(raw) == res as u64 {
        seq![raw]
    } else {
        seq![ancestor_bits(raw, res as u64)]
    }
}

/// The expansions of the present entries of `s`, one after the other; null
/// entries give nothing.
pub open spec fn expand_all(s: Seq<Option<u64>>, res: u8) -> Seq<u64>
    decreases s.len(),
{
    if s.len() == 0 {
        Seq::empty()
    } else {
        expand_all(s.drop_last(), res) + match s.last() {
            Some(raw) => expand(raw, res),
            None => Seq::empty(),
        }
    }
}

/// Each present entry of `s`, repeated once for every cell of its expansion.
pub open spec fn sources_all(s: Seq<Option<u64>>, res: u8) -> Seq<u64>
    decreases s.len(),
{
    if s.len() == 0 {
        Seq::empty()
    } else {
        sources_all(s.drop_last(), res) + match s.last() {
            Some(raw) => Seq::new(expand(raw, res).len(), |j: int| raw),
            None => Seq::empty(),
        }
    }
}

/// `after` is at resolution `res` and is what `before` becomes there: its
/// ancestor where `before` is finer, `before` itself where it is at `res`,
/// a descendant of it where `before` is coarser.
pub open spec fn related_at(before: u64, after: u64, res: u8) -> bool {
    &&& resolution_bits(after) == res as u64
    &&& if resolution_bits(before) > res as u64 {
        after == ancestor_bits(before, res as u64)
    } else if resolution_bits(before) == res as u64 {
        after == before
    } else {
        ancestor_bits(after, resolution_bits(before)) == before
    }
}

/// Cells before a change of resolution, and the cells they became.
pub struct ChangedResolutionPair<T> {
    /// values before the resolution change
    pub before: T,
    /// values after the resolution change
    pub after: T,
}

/// Appends the expansion of the cell `raw` at resolution `res` to `out`, and
/// returns how many cells were appended.
fn extend_with_cell(out: &mut Vec<u64>, raw: u64, res: u8) -> (added: usize)
    requires
        is_cell(raw),
        res <= MAX_RESOLUTION,
    ensures
        final(out)@ == old(out)@ + expand(raw, res),
        added == expand(raw, res).len(),
        forall|j: int|
            0 <= j < expand(raw, res).len() ==> is_cell(#[trigger] expand(raw, res)[j])
                && related_at(raw, expand(raw, res)[j], res),
{
    let current = cell_resolution(raw);
    if current < res {
        let children = cell_children(raw, res);
        let mut i: usize = 0;
        while i < children.len()
            invariant
                i <= children@.len(),
                out@ == old(out)@ + children@.subrange(0, i as int),
            decreases children@.len() - i,
        {
            out.push(children[i]);
            i = i + 1;
            assert(out@ =~= old(out)@ + children@.subrange(0, i as int));
        }
        assert(children@.subrange(0, children@.len() as int) =~= children@);
        children.len()
    } else if current == res {
        out.push(raw);
        assert(out@ =~= old(out)@ + seq![raw]);
        1
    } else {
        let parent = cell_parent(raw, res);
        proof {
            lemma_ancestor_resolution(raw, res as u64);
        }
        out.push(parent);
        assert(out@ =~= old(out)@ + seq![parent]);
        1
    }
}

impl H3Array<Cell> {
    /// Every present cell moved to resolution `res`: expanded to all its
    /// children where `res` is finer, kept where it is the same, replaced by
    /// its ancestor where it is coarser. Null positions are dropped, so the
    /// result has no null and generally another length.
    pub fn change_resolution(&self, res: u8) -> (r: CellIndexArray)
        requires
            res <= MAX_RESOLUTION,
        ensures
            r@ == present_all(expand_all(self@, res)),
            forall|j: int|
                0 <= j < r@.len() ==> (#[trigger] r@[j]) is Some && is_cell(r@[j]->0)
                    && resolution_bits(r@[j]->0) == res as u64,
    {
        let mut out: Vec<u64> = Vec::new();
        let n = self.len();
        let mut i: usize = 0;
        while i < n
            invariant
                n == self@.len(),
                i <= n,
                res <= MAX_RESOLUTION,
                out@ == expand_all(self@.take(i as int), res),
                forall|j: int| 0 <= j < out@.len() ==> is_cell(#[trigger] out@[j]),
                forall|j: int| 0 <= j < out@.len() ==> resolution_bits(#[trigger] out@[j]) == res as u64,
            decreases n - i,
        {
            assert(self@.take(i + 1).drop_last() =~= self@.take(i as int));
            match self.raw_value(i) {
                Some(raw) => {
                    let ghost before = out@;
                    extend_with_cell(&mut out, raw, res);
                    assert forall|j: int| 0 <= j < out@.len() implies is_cell(#[trigger] out@[j])
                        && resolution_bits(out@[j]) == res as u64 by {
                        if j >= before.len() {
                            assert(out@[j] == expand(raw, res)[j - before.len()]);
                        }
                    }
                },
                None => {},
            }
            i = i + 1;
        }
        assert(self@.take(n as int) =~= self@);
        let r = H3Array::<Cell>::from_all_valid(out);
        r
    }

    /// As `change_resolution`, together with a `before` column that holds,
    /// at each position, the input cell that the `after` cell there came
    /// from. Both have the same length.
    pub fn change_resolution_paired(&self, res: u8) -> (r: ChangedResolutionPair<CellIndexArray>)
        requires
            res <= MAX_RESOLUTION,
        ensures
            r.after@ == present_all(expand_all(self@, res)),
            r.before@ == present_all(sources_all(self@, res)),
            r.before@.len() == r.after@.len(),
            forall|j: int|
                0 <= j < r.after@.len() ==> {
                    &&& #[trigger] r.before@[j] is Some
                    &&& r.after@[j] is Some
                    &&& is_cell(r.before@[j]->0)
                    &&& is_cell(r.after@[j]->0)
                    &&& related_at(r.before@[j]->0, r.after@[j]->0, res)
                },
    {
        let mut before: Vec<u64> = Vec::new();
        let mut after: Vec<u64> = Vec::new();
        let n = self.len();
        let mut i: usize = 0;
        while i < n
            invariant
                n == self@.len(),
                i <= n,
                res <= MAX_RESOLUTION,
                after@ == expand_all(self@.take(i as int), res),
                before@ == sources_all(self@.take(i as int), res),
                before@.len() == after@.len(),
                forall|j: int| 0 <= j < after@.len() ==> is_cell(#[trigger] after@[j]),
                forall|j: int| 0 <= j < before@.len() ==> is_cell(#[trigger] before@[j]),
                forall|j: int|
                    0 <= j < after@.len() ==> related_at(#[trigger] before@[j], after@[j], res),
            decreases n - i,
        {
            assert(self@.take(i + 1).drop_last() =~= self@.take(i as int));
            match self.raw_value(i) {
                Some(raw) => {
                    let ghost before0 = before@;
                    let ghost after0 = after@;
                    let added = extend_with_cell(&mut after, raw, res);
                    let mut k: usize = 0;
                    while k < added
                        invariant
                            k <= added,
                            added == expand(raw, res).len(),
                            before@ == before0 + Seq::new(k as nat, |j: int| raw),
                        decreases added - k,
                    {
                        before.push(raw);
                        k = k + 1;
                        assert(before@ =~= before0 + Seq::new(k as nat, |j: int| raw));
                    }
                    assert forall|j: int| 0 <= j < after@.len() implies is_cell(#[trigger] after@[j])
                        && is_cell(before@[j]) && related_at(before@[j], after@[j], res) by {
                        if j >= after0.len() {
                            assert(after@[j] == expand(raw, res)[j - after0.len()]);
                            assert(before@[j] == raw);
                        } else {
                            assert(after@[j] == after0[j]);
                            assert(before@[j] == before0[j]);
                        }
                    }
                    assert forall|j: int| 0 <= j < before@.len() implies is_cell(#[trigger] before@[j]) by {
                        assert(is_cell(after@[j]) && is_cell(before@[j]));
                    }
                    assert forall|j: int| 0 <= j < after@.len() implies related_at(#[trigger] before@[j], after@[j], res) by {
                        assert(is_cell(after@[j]) && related_at(before@[j], after@[j], res));
                    }
                },
                None => {},
            }
            i = i + 1;
        }
        assert(self@.take(n as int) =~= self@);
        ChangedResolutionPair {
            before: H3Array::<Cell>::from_all_valid(before),
            after: H3Array::<Cell>::from_all_valid(after),
        }
    }
}

} // verus!
