//! Columnar containers of hexagonal grid indexes (cells, directed edges and
//! vertexes), ragged lists of them, and bulk grid algorithms over them.
use vstd::prelude::*;

pub mod array;
pub mod change_resolution;
pub mod error;
pub mod grid;
pub mod grid_math;
pub mod hierarchy;
pub mod index;
pub mod list;
pub mod spatial;

pub use array::{FromIteratorWithValidity, FromWithValidity, H3Array};
pub use change_resolution::{CellIndexArray, ChangedResolutionPair};
pub use error::Error;
pub use grid::{GridDiskAggregateK, GridDiskDistances, KAggregationMethod};
pub use index::{Cell, DirectedEdge, H3IndexArrayValue, Vertex};
pub use list::{H3ListArray, H3ListArrayBuilder};

verus! {

/// Whether `c` is an ASCII whitespace character: space, tab, line feed,
/// form feed or carriage return.
pub fn is_whitespace(c: char) -> (r: bool)
    ensures
        r == (c == ' ' || c == '\t' || c == '\n' || c == '\x0C' || c == '\r'),
{
    c == ' ' || c == '\t' || c == '\n' || c == '\x0C' || c == '\r'
}

} // verus!
