//! Per-position reads of a column: resolutions, parents and children of
//! cells, the cells of edges and vertexes.
use vstd::prelude::*;

use crate::array::H3Array;
use crate::change_resolution::CellIndexArray;
use crate::grid_math::{
    ancestor_bits, cell_children, cell_parent, cell_resolution, children_of, destination_of,
    edge_destination, edge_origin, is_cell, owning_cell_bits, resolution_bits, vertex_owner,
    MAX_RESOLUTION,
};
use crate::index::{Cell, DirectedEdge, Vertex};
use crate::list::{present_all, H3ListArray, H3ListArrayBuilder};

verus! {

/// The parent at resolution `res` of each present cell of `s`; null where the
/// position is null or `res` is finer than the cell.
pub open spec fn parents_view(s: Seq<Option<u64>>, res: u8) -> Seq<Option<u64>> {
    s.map_values(
        |e: Option<u64>|
            match e {
                Some(raw) => if res as u64 <= resolution_bits(raw) {
                    Some(ancestor_bits(raw, res as u64))
                } else {
                    None
                },
                None => None,
            },
    )
}

/// Each present entry of `s` mapped by `f`; null stays null.
pub open spec fn map_present(s: Seq<Option<u64>>, f: spec_fn(u64) -> u64) -> Seq<Option<u64>> {
    s.map_values(
        |e: Option<u64>|
            match e {
                Some(raw) => Some(f(raw)),
                None => None,
            },
    )
}

/// Every cell of `cells` is a valid cell at resolution `res` whose ancestor
/// at the resolution of `raw` is `raw`.
pub open spec fn descendants_at(cells: Seq<u64>, raw: u64, res: u8) -> bool {
    forall|j: int|
        0 <= j < cells.len() ==> {
            &&& is_cell(#[trigger] cells[j])
            &&& resolution_bits(cells[j]) == res as u64
            &&& ancestor_bits(cells[j], resolution_bits(raw)) == raw
        }
}

impl H3Array<Cell> {
    /// The resolution of each present cell; null stays null.
    pub fn resolution(&self) -> (r: Vec<Option<u8>>)
        ensures
            r@.len() == self@.len(),
            forall|i: int|
                0 <= i < self@.len() ==> match #[trigger] self@[i] {
                    Some(raw) => r@[i] is Some && r@[i]->0 as u64 == resolution_bits(raw),
                    None => r@[i] is None,
                },
    {
        let n = self.len();
        let mut out: Vec<Option<u8>> = Vec::with_capacity(n);
        let mut i: usize = 0;
        while i < n
            invariant
                n == self@.len(),
                i <= n,
                out@.len() == i,
                forall|j: int|
                    0 <= j < i ==> match #[trigger] self@[j] {
                        Some(raw) => out@[j] is Some && out@[j]->0 as u64 == resolution_bits(raw),
                        None => out@[j] is None,
                    },
            decreases n - i,
        {
            match self.raw_value(i) {
                Some(raw) => out.push(Some(cell_resolution(raw))),
                None => out.push(None),
            }
            i = i + 1;
        }
        out
    }

    /// The parent at resolution `res` of each present cell; null where the
    /// position is null or `res` is finer than the cell.
    pub fn parent(&self, res: u8) -> (r: CellIndexArray)
        requires
            res <= MAX_RESOLUTION,
        ensures
            r@ == parents_view(self@, res),
    {
        let n = self.len();
        let mut out: Vec<Option<u64>> = Vec::with_capacity(n);
        let mut i: usize = 0;
        while i < n
            invariant
                n == self@.len(),
                i <= n,
                out@ == parents_view(self@.take(i as int), res),
                forall|j: int| 0 <= j < i && (#[trigger] out@[j]) is Some ==> is_cell(out@[j]->0),
            decreases n - i,
        {
            match self.raw_value(i) {
                Some(raw) => {
                    let current = cell_resolution(raw);
                    if res <= current {
                        out.push(Some(cell_parent(raw, res)));
                    } else {
                        out.push(None);
                    }
                },
                None => out.push(None),
            }
            i = i + 1;
            assert(out@ =~= parents_view(self@.take(i as int), res));
        }
        assert(self@.take(n as int) =~= self@);
        H3Array::<Cell>::from_valid_options(out)
    }

    /// The children at resolution `res` of each present cell, as a ragged
    /// list; a null position gives a null list, and a resolution coarser
    /// than the cell an empty one.
    pub fn children(&self, res: u8) -> (r: H3ListArray<Cell>)
        requires
            res <= MAX_RESOLUTION,
        ensures
            r@ == self@.map_values(
                |e: Option<u64>|
                    match e {
                        Some(raw) => Some(present_all(children_of(raw, res))),
                        None => None,
                    },
            ),
            forall|i: int|
                0 <= i < self@.len() && (#[trigger] self@[i]) is Some ==> descendants_at(
                    children_of(self@[i]->0, res),
                    self@[i]->0,
                    res,
                ),
    {
        let mut builder = H3ListArrayBuilder::<Cell>::new();
        let n = self.len();
        let mut i: usize = 0;
        while i < n
            invariant
                n == self@.len(),
                i <= n,
                res <= MAX_RESOLUTION,
                builder.wf(),
                builder@ == self@.take(i as int).map_values(
                    |e: Option<u64>|
                        match e {
                            Some(raw) => Some(present_all(children_of(raw, res))),
                            None => None,
                        },
                ),
                forall|j: int|
                    0 <= j < i && (#[trigger] self@[j]) is Some ==> descendants_at(
                        children_of(self@[j]->0, res),
                        self@[j]->0,
                        res,
                    ),
            decreases n - i,
        {
            match self.raw_value(i) {
                Some(raw) => {
                    let children = cell_children(raw, res);
                    builder.push_valid_u64s(&children);
                },
                None => builder.push_invalid(),
            }
            i = i + 1;
            assert(builder@ =~= self@.take(i as int).map_values(
                |e: Option<u64>|
                    match e {
                        Some(raw) => Some(present_all(children_of(raw, res))),
                        None => None,
                    },
            ));
        }
        assert(self@.take(n as int) =~= self@);
        builder.build()
    }
}

impl H3Array<DirectedEdge> {
    /// The origin cell of each present edge; null stays null.
    pub fn origin(&self) -> (r: CellIndexArray)
        ensures
            r@ == map_present(self@, |raw: u64| owning_cell_bits(raw)),
    {
        let n = self.len();
        let mut out: Vec<Option<u64>> = Vec::with_capacity(n);
        let mut i: usize = 0;
        while i < n
            invariant
                n == self@.len(),
                i <= n,
                out@ == map_present(self@.take(i as int), |raw: u64| owning_cell_bits(raw)),
                forall|j: int| 0 <= j < i && (#[trigger] out@[j]) is Some ==> is_cell(out@[j]->0),
            decreases n - i,
        {
            match self.raw_value(i) {
                Some(raw) => out.push(Some(edge_origin(raw))),
                None => out.push(None),
            }
            i = i + 1;
            assert(out@ =~= map_present(self@.take(i as int), |raw: u64| owning_cell_bits(raw)));
        }
        assert(self@.take(n as int) =~= self@);
        H3Array::<Cell>::from_valid_options(out)
    }

    /// The destination cell of each present edge; null stays null.
    pub fn destination(&self) -> (r: CellIndexArray)
        ensures
            r@ == map_present(self@, |raw: u64| destination_of(raw)),
    {
        let n = self.len();
        let mut out: Vec<Option<u64>> = Vec::with_capacity(n);
        let mut i: usize = 0;
        while i < n
            invariant
                n == self@.len(),
                i <= n,
                out@ == map_present(self@.take(i as int), |raw: u64| destination_of(raw)),
                forall|j: int| 0 <= j < i && (#[trigger] out@[j]) is Some ==> is_cell(out@[j]->0),
            decreases n - i,
        {
            match self.raw_value(i) {
                Some(raw) => out.push(Some(edge_destination(raw))),
                None => out.push(None),
            }
            i = i + 1;
            assert(out@ =~= map_present(self@.take(i as int), |raw: u64| destination_of(raw)));
        }
        assert(self@.take(n as int) =~= self@);
        H3Array::<Cell>::from_valid_options(out)
    }
}

impl H3Array<Vertex> {
    /// The cell that owns each present vertex; null stays null.
    pub fn owner(&self) -> (r: CellIndexArray)
        ensures
            r@ == map_present(self@, |raw: u64| owning_cell_bits(raw)),
    {
        let n = self.len();
        let mut out: Vec<Option<u64>> = Vec::with_capacity(n);
        let mut i: usize = 0;
        while i < n
            invariant
                n == self@.len(),
                i <= n,
                out@ == map_present(self@.take(i as int), |raw: u64| owning_cell_bits(raw)),
                forall|j: int| 0 <= j < i && (#[trigger] out@[j]) is Some ==> is_cell(out@[j]->0),
            decreases n - i,
        {
            match self.raw_value(i) {
                Some(raw) => out.push(Some(vertex_owner(raw))),
                None => out.push(None),
            }
            i = i + 1;
            assert(out@ =~= map_present(self@.take(i as int), |raw: u64| owning_cell_bits(raw)));
        }
        assert(self@.take(n as int) =~= self@);
        H3Array::<Cell>::from_valid_options(out)
    }
}

} // verus!
