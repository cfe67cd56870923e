use organum::grid::{Grid, GridView};

#[test]
fn filled_grid_has_shape_and_rows() {
    let g = Grid::filled(3, 2, 0.0f32);
    assert_eq!(g.rows(), 3);
    assert_eq!(g.cols(), 2);
    assert_eq!(g.as_slice(), &[0.0; 6]);
    let g = Grid::from_vec(2, 3, vec![1, 2, 3, 4, 5, 6]);
    assert_eq!(g.row(0), &[1, 2, 3]);
    assert_eq!(g.row(1), &[4, 5, 6]);
    assert_eq!(g.into_vec(), vec![1, 2, 3, 4, 5, 6]);
}

#[test]
fn resize_keeps_leading_cells_and_pads() {
    let mut g = Grid::from_vec(2, 2, vec![1, 2, 3, 4]);
    g.resize(3, 2, 9);
    assert_eq!((g.rows(), g.cols()), (3, 2));
    assert_eq!(g.as_slice(), &[1, 2, 3, 4, 9, 9]);
    g.resize(1, 3, 0);
    assert_eq!(g.as_slice(), &[1, 2, 3]);
    g.fill(7);
    assert_eq!(g.as_slice(), &[7, 7, 7]);
    g.resize(0, 5, 1);
    assert!(g.as_slice().is_empty());
}

#[test]
fn views_borrow_rows() {
    let cells = [1.5f32, 2.5, 3.5, 4.5];
    let v = GridView::new(&cells, 2, 2);
    assert_eq!((v.rows(), v.cols()), (2, 2));
    assert_eq!(v.row(1), &[3.5, 4.5]);
    assert_eq!(v.as_slice(), &cells);
    let empty: [u8; 0] = [];
    let e = GridView::new(&empty, 0, 7);
    assert_eq!(e.rows(), 0);
}
