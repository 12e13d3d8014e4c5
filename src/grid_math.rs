//! The hexagonal grid mathematics, as provided by the `h3o` crate.
//!
//! Each function here makes one call into `h3o` on raw 64-bit index values
//! and states what that call returns. The library's own logic works on the
//! raw values and on the spec functions below.
use vstd::prelude::*;

use h3o::{CellIndex, DirectedEdgeIndex, Resolution, VertexIndex};

verus! {

/// The finest resolution of the grid; resolutions run from 0 to this value.
pub const MAX_RESOLUTION: u8 = 15;

/// Whether `raw` decodes to a structurally valid cell index
/// (what `h3o::CellIndex::try_from` accepts).
pub uninterp spec fn is_cell(raw: u64) -> bool;

/// Whether `raw` decodes to a structurally valid directed edge index
/// (what `h3o::DirectedEdgeIndex::try_from` accepts).
pub uninterp spec fn is_edge(raw: u64) -> bool;

/// Whether `raw` decodes to a structurally valid vertex index
/// (what `h3o::VertexIndex::try_from` accepts).
pub uninterp spec fn is_vertex(raw: u64) -> bool;

/// The cells within grid distance `k` of the cell `raw`, in the order in
/// which `h3o::CellIndex::grid_disk` produces them.
pub uninterp spec fn disk_of(raw: u64, k: u32) -> Seq<u64>;

/// The cells within grid distance `k` of the cell `raw`, each with its grid
/// distance, in the order of `h3o::CellIndex::grid_disk_distances`.
pub uninterp spec fn disk_distances_of(raw: u64, k: u32) -> Seq<(u64, u32)>;

/// The children of the cell `raw` at resolution `res`, in the order of
/// `h3o::CellIndex::children`.
pub uninterp spec fn children_of(raw: u64, res: u8) -> Seq<u64>;

/// The destination cell of the directed edge `raw`
/// (what `h3o::DirectedEdgeIndex::destination` returns).
pub uninterp spec fn destination_of(raw: u64) -> u64;

/// The cell part of an edge or vertex index: the mode field (bits 59 to 62)
/// set to the cell mode 1 and the edge or vertex field (bits 56 to 58)
/// cleared.
pub open spec fn owning_cell_bits(raw: u64) -> u64 {
    ((raw & !(15u64 << 59u64)) | (1u64 << 59u64)) & !(7u64 << 56u64)
}

/// The resolution field of an index: bits 52 to 55.
pub open spec fn resolution_bits(raw: u64) -> u64 {
    (raw >> 52u64) & 15u64
}

/// The bits of the ancestor at resolution `res` of the cell `raw`: the
/// resolution field set to `res` and every direction digit finer than `res`
/// set to the unused pattern `0b111`.
pub open spec fn ancestor_bits(raw: u64, res: u64) -> u64 {
    ((raw & !(15u64 << 52u64)) | (res << 52u64)) | ((((1u64 << (3 * (15 - res)) as u64)
        - 1) as u64))
}

/// The ancestor bits carry the resolution they were asked for.
pub proof fn lemma_ancestor_resolution(raw: u64, res: u64)
    requires
        res <= 15,
    ensures
        resolution_bits(ancestor_bits(raw, res)) == res,
{
    let s: u64 = (3 * (15 - res)) as u64;
    assert(s <= 45);
    assert((((((raw & !(15u64 << 52u64)) | (res << 52u64)) | (((1u64 << s) - 1) as u64))
        >> 52u64) & 15u64) == res) by (bit_vector)
        requires
            res <= 15,
            s <= 45,
    ;
}

/// Relies on `h3o::CellIndex::try_from(u64)`: `Ok` exactly for valid cells.
#[verifier::external_body]
pub(crate) fn cell_is_valid(raw: u64) -> (r: bool)
    ensures
        r == is_cell(raw),
{
    CellIndex::try_from(raw).is_ok()
}

/// Relies on `h3o::DirectedEdgeIndex::try_from(u64)`: `Ok` exactly for valid
/// directed edges.
#[verifier::external_body]
pub(crate) fn edge_is_valid(raw: u64) -> (r: bool)
    ensures
        r == is_edge(raw),
{
    DirectedEdgeIndex::try_from(raw).is_ok()
}

/// Relies on `h3o::VertexIndex::try_from(u64)`: `Ok` exactly for valid
/// vertexes.
#[verifier::external_body]
pub(crate) fn vertex_is_valid(raw: u64) -> (r: bool)
    ensures
        r == is_vertex(raw),
{
    VertexIndex::try_from(raw).is_ok()
}

/// Relies on `h3o::CellIndex::resolution`, which reads the resolution field.
#[verifier::external_body]
pub(crate) fn cell_resolution(raw: u64) -> (r: u8)
    requires
        is_cell(raw),
    ensures
        r as u64 == resolution_bits(raw),
        r <= MAX_RESOLUTION,
{
    u8::from(CellIndex::try_from(raw).expect("validated cell").resolution())
}

/// Relies on `h3o::CellIndex::parent`: for a resolution no finer than the
/// cell's own it sets the resolution field and marks the finer digits unused.
#[verifier::external_body]
pub(crate) fn cell_parent(raw: u64, res: u8) -> (r: u64)
    requires
        is_cell(raw),
        res as u64 <= resolution_bits(raw),
    ensures
        r == ancestor_bits(raw, res as u64),
        is_cell(r),
{
    let cell = CellIndex::try_from(raw).expect("validated cell");
    let res = Resolution::try_from(res).expect("resolution in range");
    u64::from(cell.parent(res).expect("coarser resolution"))
}

/// Relies on `h3o::CellIndex::children`: valid cells at resolution `res`
/// that descend from the cell; none where `res` is coarser than the cell.
#[verifier::external_body]
pub(crate) fn cell_children(raw: u64, res: u8) -> (r: Vec<u64>)
    requires
        is_cell(raw),
        res <= MAX_RESOLUTION,
    ensures
        r@ == children_of(raw, res),
        (res as u64) < resolution_bits(raw) ==> r@.len() == 0,
        forall|j: int|
            0 <= j < r@.len() ==> {
                &&& is_cell(#[trigger] r@[j])
                &&& resolution_bits(r@[j]) == res as u64
                &&& ancestor_bits(r@[j], resolution_bits(raw)) == raw
            },
{
    let cell = CellIndex::try_from(raw).expect("validated cell");
    let res = Resolution::try_from(res).expect("resolution in range");
    cell.children(res).map(u64::from).collect()
}

/// Relies on `h3o::CellIndex::grid_disk`: valid cells within distance `k`;
/// for `k == 0` the cell alone.
#[verifier::external_body]
pub(crate) fn cell_grid_disk(raw: u64, k: u32) -> (r: Vec<u64>)
    requires
        is_cell(raw),
    ensures
        r@ == disk_of(raw, k),
        k == 0 ==> r@ == seq![raw],
        forall|j: int| 0 <= j < r@.len() ==> is_cell(#[trigger] r@[j]),
{
    let cell = CellIndex::try_from(raw).expect("validated cell");
    cell.grid_disk::<Vec<_>>(k).into_iter().map(u64::from).collect()
}

/// Relies on `h3o::CellIndex::grid_disk_distances`: valid cells with their
/// distance, each at most `k`; for `k == 0` the cell alone at distance 0.
#[verifier::external_body]
pub(crate) fn cell_grid_disk_distances(raw: u64, k: u32) -> (r: Vec<(u64, u32)>)
    requires
        is_cell(raw),
    ensures
        r@ == disk_distances_of(raw, k),
        k == 0 ==> r@ == seq![(raw, 0u32)],
        forall|j: int|
            0 <= j < r@.len() ==> is_cell((#[trigger] r@[j]).0) && r@[j].1 <= k,
{
    let cell = CellIndex::try_from(raw).expect("validated cell");
    cell.grid_disk_distances::<Vec<_>>(k).into_iter().map(|(c, d)| (u64::from(c), d)).collect()
}

/// Relies on `h3o::DirectedEdgeIndex::origin`, which sets the cell mode and
/// clears the edge field.
#[verifier::external_body]
pub(crate) fn edge_origin(raw: u64) -> (r: u64)
    requires
        is_edge(raw),
    ensures
        r == owning_cell_bits(raw),
        is_cell(r),
{
    u64::from(DirectedEdgeIndex::try_from(raw).expect("validated edge").origin())
}

/// Relies on `h3o::DirectedEdgeIndex::destination`: the neighbouring cell the
/// edge points to.
#[verifier::external_body]
pub(crate) fn edge_destination(raw: u64) -> (r: u64)
    requires
        is_edge(raw),
    ensures
        r == destination_of(raw),
        is_cell(r),
{
    u64::from(DirectedEdgeIndex::try_from(raw).expect("validated edge").destination())
}

/// Relies on `h3o::VertexIndex::owner`, which sets the cell mode and clears
/// the vertex field.
#[verifier::external_body]
pub(crate) fn vertex_owner(raw: u64) -> (r: u64)
    requires
        is_vertex(raw),
    ensures
        r == owning_cell_bits(raw),
        is_cell(r),
{
    u64::from(VertexIndex::try_from(raw).expect("validated vertex").owner())
}

} // verus!
