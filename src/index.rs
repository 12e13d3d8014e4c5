//! The three kinds of grid index, as value types over their 64-bit encoding.
use vstd::prelude::*;

use crate::grid_math::{cell_is_valid, edge_is_valid, is_cell, is_edge, is_vertex, vertex_is_valid};

verus! {

/// A kind of grid index that a column can hold.
///
/// A value of such a type is always a structurally valid index of its kind.
/// It is obtained from raw bits only through validation, or through
/// `transmute_from_u64` on bits that were validated before.
pub trait H3IndexArrayValue: Sized + Copy {
    /// Whether `raw` decodes to a valid index of this kind.
    spec fn valid_raw(raw: u64) -> bool;

    /// The 64-bit encoding of the index.
    spec fn raw(&self) -> u64;

    /// Validates `raw` as an index of this kind.
    fn try_from_u64(raw: u64) -> (r: Option<Self>)
        ensures
            r is Some <==> Self::valid_raw(raw),
            r is Some ==> r->0.raw() == raw,
    ;

    /// Reinterprets bits that are already known to be valid, without
    /// validating them again.
    fn transmute_from_u64(raw: u64) -> (r: Self)
        requires
            Self::valid_raw(raw),
        ensures
            r.raw() == raw,
    ;

    /// The 64-bit encoding of the index; it is always valid.
    fn to_u64(&self) -> (r: u64)
        ensures
            r == self.raw(),
            Self::valid_raw(r),
    ;
}

/// A cell (hexagon or pentagon) of the grid at one resolution.
#[derive(Clone, Copy, Debug, PartialEq, Eq, Hash, Structural)]
pub struct Cell {
    raw: u64,
}

impl Cell {
    #[verifier::type_invariant]
    spec fn inv(self) -> bool {
        is_cell(self.raw)
    }
}

impl H3IndexArrayValue for Cell {
    open spec fn valid_raw(raw: u64) -> bool {
        is_cell(raw)
    }

    closed spec fn raw(&self) -> u64 {
        self.raw
    }

    fn try_from_u64(raw: u64) -> (r: Option<Self>) {
        if cell_is_valid(raw) {
            Some(Cell { raw })
        } else {
            None
        }
    }

    fn transmute_from_u64(raw: u64) -> (r: Self) {
        Cell { raw }
    }

    fn to_u64(&self) -> (r: u64) {
        proof {
            use_type_invariant(self);
        }
        self.raw
    }
}

/// A directed edge between two neighbouring cells.
#[derive(Clone, Copy, Debug, PartialEq, Eq, Hash, Structural)]
pub struct DirectedEdge {
    raw: u64,
}

impl DirectedEdge {
    #[verifier::type_invariant]
    spec fn inv(self) -> bool {
        is_edge(self.raw)
    }
}

impl H3IndexArrayValue for DirectedEdge {
    open spec fn valid_raw(raw: u64) -> bool {
        is_edge(raw)
    }

    closed spec fn raw(&self) -> u64 {
        self.raw
    }

    fn try_from_u64(raw: u64) -> (r: Option<Self>) {
        if edge_is_valid(raw) {
            Some(DirectedEdge { raw })
        } else {
            None
        }
    }

    fn transmute_from_u64(raw: u64) -> (r: Self) {
        DirectedEdge { raw }
    }

    fn to_u64(&self) -> (r: u64) {
        proof {
            use_type_invariant(self);
        }
        self.raw
    }
}

/// A vertex of the grid, shared by the cells that meet there.
#[derive(Clone, Copy, Debug, PartialEq, Eq, Hash, Structural)]
pub struct Vertex {
    raw: u64,
}

impl Vertex {
    #[verifier::type_invariant]
    spec fn inv(self) -> bool {
        is_vertex(self.raw)
    }
}

impl H3IndexArrayValue for Vertex {
    open spec fn valid_raw(raw: u64) -> bool {
        is_vertex(raw)
    }

    closed spec fn raw(&self) -> u64 {
        self.raw
    }

    fn try_from_u64(raw: u64) -> (r: Option<Self>) {
        if vertex_is_valid(raw) {
            Some(Vertex { raw })
        } else {
            None
        }
    }

    fn transmute_from_u64(raw: u64) -> (r: Self) {
        Vertex { raw }
    }

    fn to_u64(&self) -> (r: u64) {
        proof {
            use_type_invariant(self);
        }
        self.raw
    }
}

} // verus!
