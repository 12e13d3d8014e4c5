use h3arrow::{CellIndexArray, Cell, Error, FromIteratorWithValidity, FromWithValidity, H3IndexArrayValue};
use h3o::{CellIndex, LatLng, Resolution};

fn cell_res5() -> u64 {
    u64::from(LatLng::new(23.4, 12.4).unwrap().to_cell(Resolution::Five))
}

fn cell_res9() -> u64 {
    u64::from(LatLng::new(12.3, 0.5).unwrap().to_cell(Resolution::Nine))
}

#[test]
fn construct_invalid_fails() {
    let res = CellIndexArray::from_raw(vec![cell_res5(), 0]);
    assert!(res.is_err());
}

#[test]
fn construct_invalid_names_first_offender() {
    let res = CellIndexArray::from_raw(vec![cell_res5(), 7, 0]);
    match res {
        Err(Error::InvalidIndex { position, value }) => {
            assert_eq!(position, 1);
            assert_eq!(value, 7);
        }
        _ => panic!("expected an invalid index error"),
    }
}

#[test]
fn known_cells_match_their_encoding() {
    assert_eq!(cell_res5(), 0x855968a3fffffff);
    assert_eq!(cell_res9(), 0x89599da10d3ffff);
}

#[test]
fn single_value_round_trip() {
    let raw = cell_res5();
    let arr = CellIndexArray::from_raw(vec![raw]).unwrap();
    assert_eq!(arr.len(), 1);
    let cell = arr.get(0).unwrap();
    assert_eq!(cell.to_u64(), raw);
    assert_eq!(arr.raw_value(0), Some(raw));

    assert!(CellIndexArray::from_raw(vec![0x89283080ddbffff]).is_ok());
    assert!(CellIndexArray::from_raw(vec![u64::MAX]).is_err());
    assert!(Cell::try_from_u64(u64::MAX).is_none());
}

#[test]
fn tolerant_build_turns_invalid_into_null() {
    let arr = CellIndexArray::from_raw_tolerant(vec![Some(cell_res5()), None, Some(0), Some(cell_res9())]);
    assert_eq!(arr.len(), 4);
    assert_eq!(arr.raw_value(0), Some(cell_res5()));
    assert_eq!(arr.raw_value(1), None);
    assert_eq!(arr.raw_value(2), None);
    assert_eq!(arr.raw_value(3), Some(cell_res9()));
    assert!(arr.get(2).is_none());

    let arr2 = CellIndexArray::from_with_validity(vec![0x89283080ddbffff_u64, 1]);
    assert_eq!(arr2.raw_value(0), Some(0x89283080ddbffff));
    assert_eq!(arr2.raw_value(1), None);

    let arr3 = CellIndexArray::from_iter_with_validity(vec![Some(0x89283080ddbffff_u64), None]);
    assert_eq!(arr3.len(), 2);
    assert_eq!(arr3.raw_value(1), None);
}

#[test]
fn from_indexes_and_options() {
    let a = Cell::try_from_u64(cell_res5()).unwrap();
    let b = Cell::try_from_u64(cell_res9()).unwrap();
    let arr = CellIndexArray::from_indexes(vec![a, b]);
    assert_eq!(arr.len(), 2);
    assert_eq!(arr.get(1), Some(b));

    let arr = CellIndexArray::from_options(vec![None, Some(a)]);
    assert_eq!(arr.get(0), None);
    assert_eq!(arr.get(1), Some(a));
}

#[test]
fn slice_keeps_the_window() {
    let mut arr = CellIndexArray::from_raw_tolerant(vec![Some(cell_res5()), None, Some(cell_res9())]);
    arr.slice(1, 2);
    assert_eq!(arr.len(), 2);
    assert_eq!(arr.raw_value(0), None);
    assert_eq!(arr.raw_value(1), Some(cell_res9()));

    let empty = arr.sliced(2, 0);
    assert!(empty.is_empty());
}

#[test]
fn resolution() {
    let arr = CellIndexArray::from_raw(vec![cell_res5(), cell_res9()]).unwrap();
    let r_values = arr.resolution();
    assert_eq!(r_values.len(), arr.len());
    assert_eq!(r_values, vec![Some(u8::from(Resolution::Five)), Some(u8::from(Resolution::Nine))]);
}

#[test]
fn parent_of_finer_cell_and_null_for_coarser() {
    let arr = CellIndexArray::from_raw_tolerant(vec![Some(cell_res5()), None, Some(cell_res9())]);
    let parents = arr.parent(7);
    let expected = CellIndex::try_from(cell_res9()).unwrap().parent(Resolution::Seven).unwrap();
    assert_eq!(parents.raw_value(0), None);
    assert_eq!(parents.raw_value(1), None);
    assert_eq!(parents.raw_value(2), Some(u64::from(expected)));
    assert_ne!(parents.raw_value(2), Some(cell_res9()));
}

#[test]
fn whitespace_is_ascii_whitespace() {
    for c in [' ', '\t', '\n', '\x0C', '\r'] {
        assert!(h3arrow::is_whitespace(c));
    }
    for c in ['a', '0', ',', '\u{a0}', '\x0B'] {
        assert!(!h3arrow::is_whitespace(c));
    }
}

#[test]
fn edge_and_vertex_cells() {
    let cell = CellIndex::try_from(cell_res9()).unwrap();
    let edges: Vec<u64> = cell.edges().map(u64::from).collect();
    let edge_arr = h3arrow::H3Array::<h3arrow::DirectedEdge>::from_raw(edges.clone()).unwrap();
    let origins = edge_arr.origin();
    let destinations = edge_arr.destination();
    for (i, edge) in cell.edges().enumerate() {
        assert_eq!(origins.raw_value(i), Some(cell_res9()));
        assert_eq!(destinations.raw_value(i), Some(u64::from(edge.destination())));
        assert_ne!(destinations.raw_value(i), Some(edges[i]));
    }

    let vertexes: Vec<u64> = cell.vertexes().map(u64::from).collect();
    let vertex_arr = h3arrow::H3Array::<h3arrow::Vertex>::from_raw(vertexes.clone()).unwrap();
    let owners = vertex_arr.owner();
    for (i, vertex) in cell.vertexes().enumerate() {
        assert_eq!(owners.raw_value(i), Some(u64::from(vertex.owner())));
    }
    assert!(h3arrow::H3Array::<h3arrow::Vertex>::from_raw(vec![cell_res9()]).is_err());
    assert!(h3arrow::H3Array::<h3arrow::DirectedEdge>::from_raw(vec![cell_res9()]).is_err());
}

#[test]
fn map_values_applies_to_present_positions() {
    let arr = CellIndexArray::from_raw_tolerant(vec![Some(cell_res5()), None, Some(cell_res9())]);
    let keep_fine = arr.map_values(|c: Cell| {
        let resolution = CellIndex::try_from(c.to_u64()).unwrap().resolution();
        if resolution > Resolution::Six {
            Some(c)
        } else {
            None
        }
    });
    assert_eq!(keep_fine.len(), 3);
    assert_eq!(keep_fine.raw_value(0), None);
    assert_eq!(keep_fine.raw_value(1), None);
    assert_eq!(keep_fine.raw_value(2), Some(cell_res9()));

    let copy = arr.clone();
    assert_eq!(copy.len(), 3);
    assert_eq!(copy.raw_value(0), Some(cell_res5()));
}

#[test]
fn tolerant_traits_keep_length_and_null_invalid() {
    let raws = vec![cell_res5(), 0, cell_res9(), u64::MAX];
    let a = <CellIndexArray as FromIteratorWithValidity<u64>>::from_iter_with_validity(raws.clone());
    let b = <CellIndexArray as FromWithValidity<Vec<u64>>>::from_with_validity(raws);
    for arr in [a, b] {
        assert_eq!(arr.len(), 4);
        assert_eq!(arr.raw_value(0), Some(cell_res5()));
        assert_eq!(arr.raw_value(1), None);
        assert_eq!(arr.raw_value(2), Some(cell_res9()));
        assert_eq!(arr.raw_value(3), None);
    }
    let c = <CellIndexArray as FromWithValidity<Vec<Option<u64>>>>::from_with_validity(vec![None, Some(cell_res9()), Some(3)]);
    assert_eq!(c.len(), 3);
    assert_eq!(c.raw_value(0), None);
    assert_eq!(c.raw_value(1), Some(cell_res9()));
    assert_eq!(c.raw_value(2), None);
}
