use h3arrow::{CellIndexArray, Cell, Error, H3IndexArrayValue, H3ListArray, H3ListArrayBuilder};
use h3o::{CellIndex, LatLng, Resolution};

fn cell_res5() -> u64 {
    u64::from(LatLng::new(23.4, 12.4).unwrap().to_cell(Resolution::Five))
}

fn cell_res9() -> u64 {
    u64::from(LatLng::new(12.3, 0.5).unwrap().to_cell(Resolution::Nine))
}

fn check_children(arr: &CellIndexArray) {
    let children = arr.children(6);
    assert_eq!(children.len(), 2);
    let cellarray = children.iter_arrays().into_iter().next().flatten().unwrap();
    assert_eq!(cellarray.len(), 7);
    let parents = cellarray.parent(5);
    for i in 0..cellarray.len() {
        assert_eq!(arr.raw_value(0), parents.raw_value(i));
        let child = CellIndex::try_from(cellarray.raw_value(i).unwrap()).unwrap();
        assert_eq!(child.parent(Resolution::Five).map(u64::from), arr.raw_value(0));
    }
}

#[test]
fn hierarchy_children() {
    let arr = CellIndexArray::from_raw(vec![cell_res5(), cell_res9()]).unwrap();
    check_children(&arr);
}

#[test]
fn cell_children() {
    let arr = CellIndexArray::from_raw(vec![cell_res5(), cell_res9()]).unwrap();
    check_children(&arr);
    // a coarser target gives an empty, present list
    let children = arr.children(6);
    assert_eq!(children.get(1).map(|a| a.len()), Some(0));
}

#[test]
fn empty_list_is_not_null() {
    let cell = Cell::try_from_u64(cell_res5()).unwrap();
    let mut builder = H3ListArrayBuilder::<Cell>::new();
    builder.push_valid(vec![]);
    builder.push_invalid();
    builder.push_valid(vec![cell, cell]);
    let list = builder.build();
    assert_eq!(list.len(), 3);
    let first = list.get(0);
    assert!(first.is_some());
    assert_eq!(first.unwrap().len(), 0);
    assert!(list.get(1).is_none());
    assert_eq!(list.get(2).unwrap().len(), 2);

    let again = list.iter_arrays();
    assert_eq!(again.len(), 3);
    assert!(again[1].is_none());
    assert_eq!(again[0].as_ref().map(|a| a.len()), Some(0));

    let flat = list.into_flattened();
    assert_eq!(flat.len(), 2);
    assert_eq!(flat.raw_value(0), Some(cell_res5()));
}

#[test]
fn construct_from_grid_disks() {
    let cell = CellIndex::try_from(cell_res5()).unwrap();
    let mut builder = H3ListArrayBuilder::<Cell>::new();
    builder.push_valid_u64s(&cell.grid_disk::<Vec<_>>(1).into_iter().map(u64::from).collect());
    builder.push_invalid();
    builder.push_valid_u64s(&cell.grid_disk::<Vec<_>>(2).into_iter().map(u64::from).collect());
    let list = builder.build();
    assert_eq!(list.len(), 3);
    assert_eq!(list.get(0).unwrap().len(), 7);
    assert!(list.get(1).is_none());
    assert_eq!(list.get(2).unwrap().len(), 19);
    assert_eq!(list.into_flattened().len(), 26);
}

#[test]
fn try_new_checks_offsets() {
    let values = CellIndexArray::from_raw(vec![cell_res5(), cell_res9()]).unwrap();
    let ok = H3ListArray::try_new(vec![0, 1, 1, 2], values.sliced(0, 2), Some(vec![true, false, true]));
    let ok = ok.unwrap();
    assert_eq!(ok.len(), 3);
    assert!(ok.get(1).is_none());
    assert_eq!(ok.get(2).unwrap().raw_value(0), Some(cell_res9()));

    let all = H3ListArray::try_new(vec![0, 2], values.sliced(0, 2), None).unwrap();
    assert_eq!(all.get(0).unwrap().len(), 2);

    let decreasing = H3ListArray::try_new(vec![0, 2, 1, 2], values.sliced(0, 2), None);
    assert!(matches!(decreasing, Err(Error::InvalidOffsets)));
    let null_not_empty = H3ListArray::try_new(vec![0, 1, 2], values.sliced(0, 2), Some(vec![true, false]));
    assert!(matches!(null_not_empty, Err(Error::InvalidOffsets)));
    let wrong_end = H3ListArray::try_new(vec![0, 1], values.sliced(0, 2), None);
    assert!(matches!(wrong_end, Err(Error::InvalidOffsets)));
    let no_offsets = H3ListArray::try_new(vec![], values.sliced(0, 2), None);
    assert!(matches!(no_offsets, Err(Error::InvalidOffsets)));
    let wrong_flags = H3ListArray::try_new(vec![0, 2], values, Some(vec![true, true]));
    assert!(matches!(wrong_flags, Err(Error::InvalidOffsets)));
}
