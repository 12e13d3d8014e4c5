use std::collections::HashSet;

use h3arrow::spatial::{indexable_positions, mark, negative_mask, untested};
use h3arrow::{CellIndexArray, KAggregationMethod};
use h3o::{CellIndex, LatLng, Resolution};

fn cell_res5() -> u64 {
    u64::from(LatLng::new(23.4, 12.4).unwrap().to_cell(Resolution::Five))
}

fn cell_res9() -> u64 {
    u64::from(LatLng::new(12.3, 0.5).unwrap().to_cell(Resolution::Nine))
}

fn with_null() -> CellIndexArray {
    CellIndexArray::from_raw_tolerant(vec![Some(cell_res5()), None, Some(cell_res9())])
}

#[test]
fn change_resolution() {
    let arr = with_null();
    let arr_res_six = arr.change_resolution(6);
    assert_eq!(arr_res_six.len(), 7 + 1);
    // no invalid values
    for i in 0..arr_res_six.len() {
        assert!(arr_res_six.raw_value(i).is_some());
    }
    let parent = CellIndex::try_from(cell_res9()).unwrap().parent(Resolution::Six).unwrap();
    assert_eq!(arr_res_six.raw_value(7), Some(u64::from(parent)));
}

#[test]
fn change_resolution_paired() {
    let arr = with_null();
    let arr_res_six = arr.change_resolution_paired(6);
    assert_eq!(arr_res_six.after.len(), 7 + 1);
    assert_eq!(arr_res_six.before.len(), arr_res_six.after.len());
    let distinct: HashSet<u64> = (0..arr_res_six.before.len())
        .filter_map(|i| arr_res_six.before.raw_value(i))
        .collect();
    assert_eq!(distinct.len(), 2);
}

#[test]
fn change_resolution_pairs_are_ancestors_or_descendants() {
    let pair = with_null().change_resolution_paired(6);
    for j in 0..pair.after.len() {
        let before = CellIndex::try_from(pair.before.raw_value(j).unwrap()).unwrap();
        let after = CellIndex::try_from(pair.after.raw_value(j).unwrap()).unwrap();
        assert_eq!(after.resolution(), Resolution::Six);
        if before.resolution() > Resolution::Six {
            assert_eq!(before.parent(Resolution::Six), Some(after));
        } else {
            assert_eq!(after.parent(before.resolution()), Some(before));
        }
    }
}

#[test]
fn change_resolution_same_resolution_passes_through() {
    let arr = with_null();
    let same = arr.change_resolution(5);
    assert_eq!(same.len(), 2);
    assert_eq!(same.raw_value(0), Some(cell_res5()));
}

#[test]
fn grid_disk_zero_is_the_cell() {
    let disks = with_null().grid_disk(0);
    assert_eq!(disks.len(), 3);
    let first = disks.get(0).unwrap();
    assert_eq!(first.len(), 1);
    assert_eq!(first.raw_value(0), Some(cell_res5()));
    assert!(disks.get(1).is_none());
    assert_eq!(disks.get(2).unwrap().raw_value(0), Some(cell_res9()));
}

#[test]
fn grid_disk_one_has_seven_cells() {
    let disks = with_null().grid_disk(1);
    assert_eq!(disks.get(0).unwrap().len(), 7);
    assert!(disks.get(1).is_none());
    let expected: HashSet<u64> = CellIndex::try_from(cell_res9())
        .unwrap()
        .grid_disk::<Vec<_>>(1)
        .into_iter()
        .map(u64::from)
        .collect();
    let got = disks.get(2).unwrap();
    let got: HashSet<u64> = (0..got.len()).filter_map(|i| got.raw_value(i)).collect();
    assert_eq!(got, expected);
}

#[test]
fn grid_disk_distances_and_rings() {
    let arr = with_null();
    let disk = arr.grid_disk_distances(2);
    assert_eq!(disk.cells.len(), 3);
    assert_eq!(disk.distances.len(), 3);
    let cells = disk.cells.get(0).unwrap();
    let dists = disk.distances[0].as_ref().unwrap();
    assert_eq!(cells.len(), 19);
    assert_eq!(dists.len(), 19);
    assert_eq!(dists.iter().filter(|d| **d == 0).count(), 1);
    assert_eq!(dists.iter().filter(|d| **d == 2).count(), 12);
    assert!(disk.cells.get(1).is_none());
    assert!(disk.distances[1].is_none());

    let ring = arr.grid_ring_distances(1, 2);
    let cells = ring.cells.get(0).unwrap();
    let dists = ring.distances[0].as_ref().unwrap();
    assert_eq!(cells.len(), 18);
    assert!(dists.iter().all(|d| *d >= 1 && *d <= 2));
    for i in 0..cells.len() {
        assert_ne!(cells.raw_value(i), Some(cell_res5()));
    }
}

#[test]
fn grid_disk_aggregate_min_and_max() {
    let origin = CellIndex::try_from(cell_res9()).unwrap();
    let around: Vec<(CellIndex, u32)> = origin.grid_disk_distances::<Vec<_>>(5);
    let at3 = around.iter().find(|(_, d)| *d == 3).unwrap().0;
    let at5 = around.iter().find(|(_, d)| *d == 5).unwrap().0;
    let seeds = CellIndexArray::from_raw(vec![u64::from(at3), u64::from(at5)]).unwrap();

    for (method, expected) in [(KAggregationMethod::Min, 3u32), (KAggregationMethod::Max, 5u32)] {
        let agg = seeds.grid_disk_aggregate_k(5, method);
        assert_eq!(agg.cells.len(), agg.distances.len());
        let mut seen = HashSet::new();
        let mut found = None;
        for i in 0..agg.cells.len() {
            let c = agg.cells.raw_value(i).unwrap();
            assert!(seen.insert(c), "duplicate cell in aggregation");
            if c == u64::from(origin) {
                found = Some(agg.distances[i]);
            }
        }
        assert_eq!(found, Some(expected));
    }
}

#[test]
fn grid_disk_aggregate_of_empty_column() {
    let empty = CellIndexArray::from_raw(vec![]).unwrap();
    let agg = empty.grid_disk_aggregate_k(3, KAggregationMethod::Min);
    assert!(agg.cells.is_empty());
    assert!(agg.distances.is_empty());
}

#[test]
fn cell_create_empty_index() {
    let arr = CellIndexArray::from_raw(Vec::<u64>::new()).unwrap();
    let positions = indexable_positions(&arr, &vec![]);
    assert!(positions.is_empty());
    let mut mask = negative_mask(arr.len());
    assert!(mask.is_empty());
    assert!(untested(&mask, &positions).is_empty());
    mark(&mut mask, &positions);
    assert!(mask.is_empty());
}

#[test]
fn spatial_positions_and_masks() {
    let arr = CellIndexArray::from_raw_tolerant(vec![Some(cell_res5()), None, Some(cell_res9()), Some(cell_res5())]);
    let positions = indexable_positions(&arr, &vec![true, true, false, true]);
    assert_eq!(positions, vec![0, 3]);

    let mut mask = negative_mask(4);
    assert_eq!(mask, vec![false; 4]);
    mark(&mut mask, &vec![3]);
    assert_eq!(mask, vec![false, false, false, true]);
    assert_eq!(untested(&mask, &vec![0, 3]), vec![0]);
    mark(&mut mask, &vec![0, 3]);
    assert_eq!(mask, vec![true, false, false, true]);
}

#[test]
fn marking_is_idempotent_and_monotonic() {
    let mut once = negative_mask(5);
    mark(&mut once, &vec![1, 4]);
    let mut twice = once.clone();
    mark(&mut twice, &vec![1, 4]);
    assert_eq!(once, twice);

    let mut more = negative_mask(5);
    mark(&mut more, &vec![0, 1, 4]);
    for i in 0..5 {
        assert!(!once[i] || more[i]);
    }
    assert_eq!(more, vec![true, true, false, false, true]);
}

#[test]
fn change_resolution_outputs_are_at_target() {
    let out = with_null().change_resolution(7);
    assert!(out.len() > 2);
    for j in 0..out.len() {
        let cell = CellIndex::try_from(out.raw_value(j).unwrap()).unwrap();
        assert_eq!(cell.resolution(), Resolution::Seven);
    }
}
