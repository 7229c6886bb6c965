use flashdark::spatial_map::SpatialMap;

fn sorted(mut v: Vec<usize>) -> Vec<usize> {
    v.sort();
    v
}

#[test]
fn new_map_finds_nothing() {
    let map = SpatialMap::new();
    assert!(map.lookup(-10, -10, 10, 10).is_empty());
}

#[test]
fn lookup_finds_ids_in_the_rectangle_only() {
    let mut map = SpatialMap::new();
    map.insert(1, (0, 0));
    map.insert(2, (1, 1));
    map.insert(3, (5, 5));
    map.insert(4, (-1, 0));
    assert_eq!(sorted(map.lookup(0, 0, 2, 2)), vec![1, 2]);
    assert_eq!(sorted(map.lookup(-1, -1, 6, 6)), vec![1, 2, 3, 4]);
    // The rectangle is half open: its upper bounds are left out.
    assert_eq!(sorted(map.lookup(0, 0, 1, 1)), vec![1]);
    assert!(map.lookup(2, 2, 5, 5).is_empty());
}

#[test]
fn lookup_comes_cell_by_cell_in_column_order() {
    let mut map = SpatialMap::new();
    map.insert(7, (1, 0));
    map.insert(8, (0, 1));
    map.insert(9, (0, 0));
    assert_eq!(map.lookup(0, 0, 2, 2), vec![9, 8, 7]);
}

#[test]
fn insert_moves_an_id_that_was_already_there() {
    let mut map = SpatialMap::new();
    map.insert(1, (0, 0));
    map.insert(1, (3, 3));
    assert!(map.lookup(0, 0, 1, 1).is_empty());
    assert_eq!(map.lookup(3, 3, 4, 4), vec![1]);
}

#[test]
fn remove_tells_whether_the_id_was_there() {
    let mut map = SpatialMap::new();
    map.insert(5, (2, -3));
    assert!(map.remove(5));
    assert!(!map.remove(5));
    assert!(!map.remove(6));
    assert!(map.lookup(-10, -10, 10, 10).is_empty());
}

#[test]
fn extreme_cells_are_kept_apart() {
    let mut map = SpatialMap::new();
    map.insert(1, (i32::MIN, i32::MAX));
    map.insert(2, (i32::MAX, i32::MIN));
    map.insert(3, (-1, -1));
    assert_eq!(map.lookup(i32::MIN, i32::MAX - 1, i32::MIN + 1, i32::MAX), Vec::<usize>::new());
    assert_eq!(map.lookup(i32::MAX - 1, i32::MIN, i32::MAX, i32::MIN + 1), Vec::<usize>::new());
    assert_eq!(map.lookup(-1, -1, 0, 0), vec![3]);
}
