//! The errors of the library.
use vstd::prelude::*;

verus! {

/// What went wrong when building a column or a ragged list.
#[derive(Clone, Copy, Debug, PartialEq, Eq, Structural)]
pub enum Error {
    /// The value at `position` does not decode to a valid index of the
    /// expected kind.
    InvalidIndex { position: usize, value: u64 },
    /// Ragged-list offsets that do not start at zero, decrease, or do not end
    /// at the number of values.
    InvalidOffsets,
}

} // verus!
