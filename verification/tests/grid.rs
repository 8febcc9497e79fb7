use ripples::Grid;

#[test]
fn new_grid_is_flat() {
    let grid = Grid::new(4, 3, 7u32);
    assert_eq!(grid.width(), 4);
    assert_eq!(grid.height(), 3);
    assert_eq!(grid.as_slice(), &[7u32; 12][..]);
    for y in 0..3 {
        for x in 0..4 {
            assert_eq!(grid.get(x, y), 7);
        }
    }
}

#[test]
fn empty_grid_has_no_cells() {
    let grid = Grid::new(0, 9, 1.5f64);
    assert_eq!(grid.width(), 0);
    assert_eq!(grid.height(), 9);
    assert!(grid.as_slice().is_empty());
}

#[test]
fn set_overwrites_one_cell() {
    let mut grid = Grid::new(4, 3, 0.0f64);
    grid.set(2, 1, 5.0);
    grid.set(2, 1, 9.0);
    for y in 0..3 {
        for x in 0..4 {
            let expected = if (x, y) == (2, 1) { 9.0 } else { 0.0 };
            assert_eq!(grid.get(x, y), expected);
        }
    }
}

#[test]
fn cells_lie_row_after_row() {
    let mut grid = Grid::new(3, 2, 0u32);
    for y in 0..2 {
        for x in 0..3 {
            grid.set(x, y, (10 * y + x) as u32);
        }
    }
    assert_eq!(grid.as_slice(), &[0, 1, 2, 10, 11, 12][..]);
}
