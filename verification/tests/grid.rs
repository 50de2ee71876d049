use salva::grid::{HGrid, Payload};
use salva::math::Vect;

fn payload(model: usize, particle: usize, boundary: bool) -> Payload {
    Payload { model, particle, boundary }
}

#[test]
fn insert_buckets_by_cell() {
    let mut grid = HGrid::new(10);
    // two points in the same cell, one in another
    grid.insert(&Vect::new(1, 1), payload(0, 0, false));
    grid.insert(&Vect::new(9, 9), payload(0, 1, false));
    grid.insert(&Vect::new(15, 1), payload(0, 2, false));
    assert_eq!(grid.cells().len(), 2);
    let k = grid.find_cell(0, 0).unwrap();
    let parts = &grid.cells()[k].parts;
    // insertion order is kept inside a cell
    assert_eq!(parts.len(), 2);
    assert_eq!(parts[0].particle, 0);
    assert_eq!(parts[1].particle, 1);
    let k2 = grid.find_cell(1, 0).unwrap();
    assert_eq!(grid.cells()[k2].parts.len(), 1);
    assert!(grid.find_cell(2, 2).is_none());
}

#[test]
fn negative_coordinates_use_floor_cells() {
    let mut grid = HGrid::new(10);
    // -1 lies in cell -1, not cell 0: bucketing floors toward minus infinity
    grid.insert(&Vect::new(-1, -1), payload(0, 0, false));
    assert!(grid.find_cell(0, 0).is_none());
    assert!(grid.find_cell(-1, -1).is_some());
}

#[test]
fn neighbor_candidates_cover_adjacent_cells() {
    let mut grid = HGrid::new(10);
    grid.insert(&Vect::new(5, 5), payload(0, 0, false));   // cell (0, 0)
    grid.insert(&Vect::new(15, 5), payload(0, 1, false));  // cell (1, 0)
    grid.insert(&Vect::new(-5, 5), payload(0, 2, false));  // cell (-1, 0)
    grid.insert(&Vect::new(25, 5), payload(0, 3, false));  // cell (2, 0): too far
    let cands = grid.neighbor_candidates(0, 0);
    let ids: Vec<usize> = cands.iter().map(|p| p.particle).collect();
    assert!(ids.contains(&0));
    assert!(ids.contains(&1));
    assert!(ids.contains(&2));
    assert!(!ids.contains(&3));
    // slot order is fixed: the cell at (-1, 0) comes before (0, 0), which
    // comes before (1, 0)
    assert_eq!(ids, vec![2, 0, 1]);
}
