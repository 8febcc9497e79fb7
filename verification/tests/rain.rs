use ripples::random_interior_cell;

#[test]
fn drops_fall_on_the_interior() {
    let mut rng = rand::thread_rng();
    for _ in 0..2000 {
        let (x, y) = random_interior_cell(&mut rng, 640, 480);
        assert!(1 <= x && x < 639);
        assert!(1 <= y && y < 479);
    }
}

#[test]
fn smallest_grid_has_one_place_for_a_drop() {
    let mut rng = rand::thread_rng();
    for _ in 0..100 {
        assert_eq!(random_interior_cell(&mut rng, 3, 3), (1, 1));
    }
}

#[test]
fn drops_do_not_all_fall_on_one_cell() {
    let mut rng = rand::thread_rng();
    let first = random_interior_cell(&mut rng, 640, 480);
    let mut columns = vec![false; 640];
    let mut rows = vec![false; 480];
    let mut moved = false;
    for _ in 0..2000 {
        let (x, y) = random_interior_cell(&mut rng, 640, 480);
        columns[x] = true;
        rows[y] = true;
        moved = moved || (x, y) != first;
    }
    assert!(moved);
    assert!(columns.iter().filter(|&&c| c).count() > 100);
    assert!(rows.iter().filter(|&&r| r).count() > 100);
    assert!(!columns[0] && !columns[639] && !rows[0] && !rows[479]);
}

#[test]
fn narrow_grid_draws_its_only_column() {
    let mut rng = rand::thread_rng();
    let mut rows = vec![false; 6];
    for _ in 0..500 {
        let (x, y) = random_interior_cell(&mut rng, 3, 6);
        assert_eq!(x, 1);
        assert!(1 <= y && y < 5);
        rows[y] = true;
    }
    assert_eq!(rows, vec![false, true, true, true, true, false]);
}
