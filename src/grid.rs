//! Grid neighbourhoods over a column of cells: disks, rings with distances,
//! and disks aggregated over all cells of a column.
use vstd::prelude::*;

use std::collections::HashMap;

use crate::array::H3Array;
use crate::change_resolution::CellIndexArray;
use crate::grid_math::{cell_grid_disk, cell_grid_disk_distances, disk_distances_of, disk_of, is_cell};
use crate::index::Cell;
use crate::list::{present_all, H3ListArray, H3ListArrayBuilder};

verus! {

broadcast use vstd::std_specs::hash::group_hash_axioms;

/// How the distances of one cell reached from several cells are combined.
#[derive(Clone, Copy, Debug, PartialEq, Eq, Structural)]
pub enum KAggregationMethod {
    Min,
    Max,
}

/// Per input position, the cells of a disk, and their distances in a list of
/// the same shape.
pub struct GridDiskDistances {
    pub cells: H3ListArray<Cell>,
    pub distances: Vec<Option<Vec<u32>>>,
}

/// Cells with one aggregated distance each; no cell appears twice.
pub struct GridDiskAggregateK {
    pub cells: CellIndexArray,
    pub distances: Vec<u32>,
}

/// The pairs of `s` whose distance is at least `k_min`, in order.
pub open spec fn at_least(s: Seq<(u64, u32)>, k_min: u32) -> Seq<(u64, u32)>
    decreases s.len(),
{
    if s.len() == 0 {
        Seq::empty()
    } else {
        at_least(s.drop_last(), k_min) + if s.last().1 >= k_min {
            seq![s.last()]
        } else {
            Seq::empty()
        }
    }
}

/// The cells of a sequence of (cell, distance) pairs.
pub open spec fn cells_of(s: Seq<(u64, u32)>) -> Seq<u64> {
    s.map_values(|p: (u64, u32)| p.0)
}

/// The distances of a sequence of (cell, distance) pairs.
pub open spec fn distances_of(s: Seq<(u64, u32)>) -> Seq<u32> {
    s.map_values(|p: (u64, u32)| p.1)
}

/// The disk of radius `k` around each present cell of `s`; null stays null.
pub open spec fn disks_view(s: Seq<Option<u64>>, k: u32) -> Seq<Option<Seq<Option<u64>>>> {
    s.map_values(
        |e: Option<u64>|
            match e {
                Some(raw) => Some(present_all(disk_of(raw, k))),
                None => None,
            },
    )
}

/// The ring pairs, from `k_min` to `k_max`, around each present cell of `s`.
pub open spec fn rings_view(s: Seq<Option<u64>>, k_min: u32, k_max: u32) -> Seq<
    Option<Seq<(u64, u32)>>,
> {
    s.map_values(
        |e: Option<u64>|
            match e {
                Some(raw) => Some(at_least(disk_distances_of(raw, k_max), k_min)),
                None => None,
            },
    )
}

impl H3Array<Cell> {
    /// For each present cell, all cells within grid distance `k` of it, the
    /// cell included; a null position gives a null list.
    pub fn grid_disk(&self, k: u32) -> (r: H3ListArray<Cell>)
        ensures
            r@ == disks_view(self@, k),
            k == 0 ==> forall|i: int|
                0 <= i < self@.len() && (#[trigger] self@[i]) is Some ==> r@[i] == Some(
                    seq![self@[i]],
                ),
    {
        let mut builder = H3ListArrayBuilder::<Cell>::new();
        let n = self.len();
        let mut i: usize = 0;
        while i < n
            invariant
                n == self@.len(),
                i <= n,
                builder.wf(),
                builder@ == disks_view(self@.take(i as int), k),
                k == 0 ==> forall|j: int|
                    0 <= j < i && (#[trigger] self@[j]) is Some ==> builder@[j] == Some(
                        seq![self@[j]],
                    ),
            decreases n - i,
        {
            match self.raw_value(i) {
                Some(raw) => {
                    let disk = cell_grid_disk(raw, k);
                    builder.push_valid_u64s(&disk);
                    if k == 0 {
                        assert(present_all(disk@) =~= seq![self@[i as int]]);
                    }
                },
                None => {
                    builder.push_invalid();
                },
            }
            i = i + 1;
            assert(builder@ =~= disks_view(self@.take(i as int), k));
        }
        assert(self@.take(n as int) =~= self@);
        builder.build()
    }

    /// For each present cell, the cells within grid distance `k` of it with
    /// their distances; a null position gives null lists.
    pub fn grid_disk_distances(&self, k: u32) -> (r: GridDiskDistances)
        ensures
            distances_match(&r, rings_view(self@, 0, k)),
            distances_within(&r, 0, k),
    {
        self.grid_ring_distances(0, k)
    }

    /// For each present cell, the cells at grid distance `k_min` to `k_max`
    /// from it with their distances; a null position gives null lists.
    pub fn grid_ring_distances(&self, k_min: u32, k_max: u32) -> (r: GridDiskDistances)
        ensures
            distances_match(&r, rings_view(self@, k_min, k_max)),
            distances_within(&r, k_min, k_max),
    {
        let mut builder = H3ListArrayBuilder::<Cell>::new();
        let mut distances: Vec<Option<Vec<u32>>> = Vec::new();
        let n = self.len();
        let mut i: usize = 0;
        while i < n
            invariant
                n == self@.len(),
                i <= n,
                builder.wf(),
                builder@.len() == i,
                distances@.len() == i,
                forall|j: int|
                    0 <= j < i ==> pair_matches(
                        #[trigger] builder@[j],
                        distances@[j],
                        rings_view(self@, k_min, k_max)[j],
                    ),
                forall|j: int, t: int|
                    0 <= j < i && (#[trigger] distances@[j]) is Some && 0 <= t < distances@[j]->0@.len()
                        ==> k_min <= #[trigger] distances@[j]->0@[t] <= k_max,
            decreases n - i,
        {
            match self.raw_value(i) {
                Some(raw) => {
                    let disk = cell_grid_disk_distances(raw, k_max);
                    let mut cells: Vec<u64> = Vec::new();
                    let mut dists: Vec<u32> = Vec::new();
                    let mut t: usize = 0;
                    while t < disk.len()
                        invariant
                            t <= disk@.len(),
                            disk@ == disk_distances_of(raw, k_max),
                            forall|j: int| 0 <= j < disk@.len() ==> is_cell((#[trigger] disk@[j]).0),
                            forall|j: int| 0 <= j < disk@.len() ==> (#[trigger] disk@[j]).1 <= k_max,
                            forall|j: int| 0 <= j < dists@.len() ==> k_min <= #[trigger] dists@[j] <= k_max,
                            cells@ == cells_of(at_least(disk@.take(t as int), k_min)),
                            dists@ == distances_of(at_least(disk@.take(t as int), k_min)),
                            forall|j: int| 0 <= j < cells@.len() ==> is_cell(#[trigger] cells@[j]),
                        decreases disk@.len() - t,
                    {
                        let (c, d) = disk[t];
                        assert(disk@.take(t + 1).drop_last() =~= disk@.take(t as int));
                        if d >= k_min {
                            cells.push(c);
                            dists.push(d);
                        }
                        t = t + 1;
                        assert(cells@ =~= cells_of(at_least(disk@.take(t as int), k_min)));
                        assert(dists@ =~= distances_of(at_least(disk@.take(t as int), k_min)));
                    }
                    assert(disk@.take(disk@.len() as int) =~= disk@);
                    let ghost before = builder@;
                    builder.push_valid_u64s(&cells);
                    distances.push(Some(dists));
                    assert(builder@[i as int] == Some(present_all(cells@)));
                    assert(present_all(cells@) =~= present_all(cells_of(rings_view(self@, k_min, k_max)[i as int]->0)));
                    assert forall|j: int| 0 <= j < i implies #[trigger] builder@[j] == before[j] by {}
                },
                None => {
                    let ghost before = builder@;
                    builder.push_invalid();
                    distances.push(None);
                    assert forall|j: int| 0 <= j < i implies #[trigger] builder@[j] == before[j] by {}
                },
            }
            i = i + 1;
        }
        GridDiskDistances { cells: builder.build(), distances }
    }
}

/// One outer position of a distances result against the ring pairs it is
/// meant to hold.
pub open spec fn pair_matches(
    cells: Option<Seq<Option<u64>>>,
    distances: Option<Vec<u32>>,
    want: Option<Seq<(u64, u32)>>,
) -> bool {
    match want {
        Some(pairs) => {
            &&& cells == Some(present_all(cells_of(pairs)))
            &&& distances is Some
            &&& distances->0@ == distances_of(pairs)
        },
        None => cells is None && distances is None,
    }
}

/// Every distance of a distances result lies between `k_min` and `k_max`.
pub open spec fn distances_within(r: &GridDiskDistances, k_min: u32, k_max: u32) -> bool {
    forall|i: int, t: int|
        0 <= i < r.distances@.len() && (#[trigger] r.distances@[i]) is Some && 0 <= t
            < r.distances@[i]->0@.len() ==> k_min <= #[trigger] r.distances@[i]->0@[t] <= k_max
}

/// A distances result holds, position by position, the pairs of `want`.
pub open spec fn distances_match(r: &GridDiskDistances, want: Seq<Option<Seq<(u64, u32)>>>) -> bool {
    &&& r.cells@.len() == want.len()
    &&& r.distances@.len() == want.len()
    &&& forall|i: int|
        0 <= i < want.len() ==> pair_matches(#[trigger] r.cells@[i], r.distances@[i], want[i])
}

/// `a` and `b` combined by `method`: the smaller or the larger.
pub open spec fn combine(method: KAggregationMethod, a: u32, b: u32) -> u32 {
    match method {
        KAggregationMethod::Min => if a <= b {
            a
        } else {
            b
        },
        KAggregationMethod::Max => if a >= b {
            a
        } else {
            b
        },
    }
}

/// The distance of each cell of `pairs`, its distances combined by `method`.
pub open spec fn aggregate(pairs: Seq<(u64, u32)>, method: KAggregationMethod) -> Map<u64, u32>
    decreases pairs.len(),
{
    if pairs.len() == 0 {
        Map::empty()
    } else {
        let m = aggregate(pairs.drop_last(), method);
        let p = pairs.last();
        if m.contains_key(p.0) {
            m.insert(p.0, combine(method, m[p.0], p.1))
        } else {
            m.insert(p.0, p.1)
        }
    }
}

/// The (cell, distance) pairs of the disks of radius `k` around the present
/// cells of `s`, one disk after the other.
pub open spec fn all_disk_pairs(s: Seq<Option<u64>>, k: u32) -> Seq<(u64, u32)>
    decreases s.len(),
{
    if s.len() == 0 {
        Seq::empty()
    } else {
        all_disk_pairs(s.drop_last(), k) + match s.last() {
            Some(raw) => disk_distances_of(raw, k),
            None => Seq::empty(),
        }
    }
}

/// Every pair's cell is aggregated, to a distance no larger than the pair's
/// under `Min`, and no smaller under `Max`.
pub proof fn lemma_aggregate_bound(pairs: Seq<(u64, u32)>, method: KAggregationMethod, j: int)
    requires
        0 <= j < pairs.len(),
    ensures
        aggregate(pairs, method).contains_key(pairs[j].0),
        method == KAggregationMethod::Min ==> aggregate(pairs, method)[pairs[j].0] <= pairs[j].1,
        method == KAggregationMethod::Max ==> aggregate(pairs, method)[pairs[j].0] >= pairs[j].1,
    decreases pairs.len(),
{
    let last = pairs.len() - 1;
    if j < last {
        lemma_aggregate_bound(pairs.drop_last(), method, j);
        assert(pairs.drop_last()[j] == pairs[j]);
    }
}

/// An aggregated distance is the distance of some pair of that cell.
pub proof fn lemma_aggregate_attained(pairs: Seq<(u64, u32)>, method: KAggregationMethod, c: u64)
    requires
        aggregate(pairs, method).contains_key(c),
    ensures
        exists|j: int|
            0 <= j < pairs.len() && (#[trigger] pairs[j]).0 == c && pairs[j].1 == aggregate(
                pairs,
                method,
            )[c],
    decreases pairs.len(),
{
    let m = aggregate(pairs.drop_last(), method);
    let p = pairs.last();
    let last = pairs.len() - 1;
    if p.0 == c {
        if m.contains_key(c) && combine(method, m[c], p.1) != p.1 {
            lemma_aggregate_attained(pairs.drop_last(), method, c);
            let j = choose|j: int|
                0 <= j < pairs.drop_last().len() && (#[trigger] pairs.drop_last()[j]).0 == c
                    && pairs.drop_last()[j].1 == m[c];
            assert(pairs[j] == pairs.drop_last()[j]);
        } else {
            assert(pairs[last] == p);
        }
    } else {
        lemma_aggregate_attained(pairs.drop_last(), method, c);
        let j = choose|j: int|
            0 <= j < pairs.drop_last().len() && (#[trigger] pairs.drop_last()[j]).0 == c
                && pairs.drop_last()[j].1 == m[c];
        assert(pairs[j] == pairs.drop_last()[j]);
    }
}

/// Whether an aggregation result holds exactly the cells of `agg`, each once,
/// with its aggregated distance.
pub open spec fn aggregate_matches(cells: Seq<Option<u64>>, distances: Seq<u32>, agg: Map<u64, u32>) -> bool {
    &&& cells.len() == distances.len()
    &&& forall|j: int| 0 <= j < cells.len() ==> (#[trigger] cells[j]) is Some
    &&& forall|j1: int, j2: int|
        0 <= j1 < cells.len() && 0 <= j2 < cells.len() && j1 != j2 ==> #[trigger] cells[j1]
            != #[trigger] cells[j2]
    &&& forall|j: int|
        0 <= j < cells.len() ==> agg.contains_key(#[trigger] cells[j]->0) && agg[cells[j]->0]
            == distances[j]
    &&& forall|c: u64| #[trigger] agg.contains_key(c) ==> exists|j: int| 0 <= j < cells.len() && cells[j] == Some(c)
}

impl H3Array<Cell> {
    /// The cells within grid distance `k` of any present cell, each once,
    /// with the smallest (`Min`) or largest (`Max`) of its distances from
    /// those cells. The order of the result is not specified.
    pub fn grid_disk_aggregate_k(&self, k: u32, method: KAggregationMethod) -> (r: GridDiskAggregateK)
        ensures
            aggregate_matches(r.cells@, r.distances@, aggregate(all_disk_pairs(self@, k), method)),
    {
        let mut index: HashMap<u64, usize> = HashMap::new();
        let mut cells: Vec<u64> = Vec::new();
        let mut dists: Vec<u32> = Vec::new();
        let n = self.len();
        let mut i: usize = 0;
        while i < n
            invariant
                n == self@.len(),
                i <= n,
                index_matches(index@, cells@, dists@, aggregate(all_disk_pairs(self@.take(i as int), k), method)),
                forall|j: int| 0 <= j < cells@.len() ==> is_cell(#[trigger] cells@[j]),
            decreases n - i,
        {
            assert(self@.take(i + 1).drop_last() =~= self@.take(i as int));
            match self.raw_value(i) {
                Some(raw) => {
                    let disk = cell_grid_disk_distances(raw, k);
                    let ghost done = all_disk_pairs(self@.take(i as int), k);
                    let mut t: usize = 0;
                    while t < disk.len()
                        invariant
                            t <= disk@.len(),
                            forall|j: int| 0 <= j < disk@.len() ==> is_cell((#[trigger] disk@[j]).0),
                            index_matches(index@, cells@, dists@, aggregate(done + disk@.take(t as int), method)),
                            forall|j: int| 0 <= j < cells@.len() ==> is_cell(#[trigger] cells@[j]),
                        decreases disk@.len() - t,
                    {
                        let (c, d) = disk[t];
                        assert((done + disk@.take(t + 1)).drop_last() =~= done + disk@.take(t as int));
                        let ghost m = aggregate(done + disk@.take(t as int), method);
                        match index.get(&c) {
                            Some(pos) => {
                                let pos = *pos;
                                let cur = dists[pos];
                                let v = match method {
                                    KAggregationMethod::Min => if cur <= d {
                                        cur
                                    } else {
                                        d
                                    },
                                    KAggregationMethod::Max => if cur >= d {
                                        cur
                                    } else {
                                        d
                                    },
                                };
                                dists.set(pos, v);
                                assert(index_matches(index@, cells@, dists@, m.insert(c, combine(method, m[c], d))));
                            },
                            None => {
                                let pos = cells.len();
                                index.insert(c, pos);
                                cells.push(c);
                                dists.push(d);
                                assert(index_matches(index@, cells@, dists@, m.insert(c, d)));
                            },
                        }
                        t = t + 1;
                    }
                    assert(disk@.take(disk@.len() as int) =~= disk@);
                },
                None => {
                    assert(all_disk_pairs(self@.take(i + 1), k) =~= all_disk_pairs(self@.take(i as int), k));
                },
            }
            i = i + 1;
        }
        assert(self@.take(n as int) =~= self@);
        let ghost agg = aggregate(all_disk_pairs(self@, k), method);
        let r = GridDiskAggregateK { cells: H3Array::<Cell>::from_all_valid(cells), distances: dists };
        proof {
            assert forall|j1: int, j2: int|
                0 <= j1 < r.cells@.len() && 0 <= j2 < r.cells@.len() && j1 != j2 implies #[trigger] r.cells@[j1]
                    != #[trigger] r.cells@[j2] by {
                assert(index@[cells@[j1]] == j1 && index@[cells@[j2]] == j2);
            }
            assert forall|c: u64| #[trigger] agg.contains_key(c) implies exists|j: int|
                0 <= j < r.cells@.len() && r.cells@[j] == Some(c) by {
                assert(index@.contains_key(c));
                let j = index@[c] as int;
                assert(cells@[j] == c);
                assert(r.cells@[j] == Some(cells@[j]));
            }
        }
        r
    }
}

/// The lookup table of an aggregation in progress: it maps each output cell
/// to its position, and the outputs hold `agg`.
pub open spec fn index_matches(
    index: Map<u64, usize>,
    cells: Seq<u64>,
    dists: Seq<u32>,
    agg: Map<u64, u32>,
) -> bool {
    &&& cells.len() == dists.len()
    &&& forall|c: u64| #[trigger] index.contains_key(c) <==> agg.contains_key(c)
    &&& forall|c: u64|
        #[trigger] index.contains_key(c) ==> index[c] < cells.len() && cells[index[c] as int] == c
            && dists[index[c] as int] == agg[c]
    &&& forall|j: int|
        0 <= j < cells.len() ==> index.contains_key(#[trigger] cells[j]) && index[cells[j]] == j
}

} // verus!
