use game_of_life::{Cell, Universe};

const A: Cell = Cell::Alive;
const D: Cell = Cell::Dead;

#[test]
fn seven_by_one_alternates() {
    let universe = Universe::new(7, 1);
    assert_eq!(universe.cells(), &[A, D, A, D, A, D, A]);
}

#[test]
fn multiples_of_seven_are_alive() {
    let universe = Universe::new(22, 1);
    let cells = universe.cells();
    assert_eq!(cells[7], A);
    assert_eq!(cells[14], A);
    assert_eq!(cells[21], A);
    assert_eq!(cells[5], D);
    assert_eq!(cells[9], D);
    assert_eq!(cells[19], D);
}

#[test]
fn seeding_follows_the_flat_index_across_rows() {
    let universe = Universe::new(4, 3);
    assert_eq!(universe.cells(), &[A, D, A, D, A, D, A, A, A, D, A, D]);
}

#[test]
fn new_keeps_the_dimensions() {
    let universe = Universe::new(4, 3);
    assert_eq!(universe.width(), 4);
    assert_eq!(universe.height(), 3);
}

#[test]
fn same_dimensions_give_the_same_grid() {
    let first = Universe::new(9, 6);
    let second = Universe::new(9, 6);
    assert_eq!(first.cells(), second.cells());
    assert_eq!(first.width(), second.width());
    assert_eq!(first.height(), second.height());
    assert_eq!(first.render(), second.render());
}

#[test]
fn new_holds_one_cell_per_position() {
    for (width, height) in [(1, 1), (2, 3), (7, 1), (1, 7), (16, 16), (64, 48)] {
        let universe = Universe::new(width, height);
        assert_eq!(universe.cells().len(), (width * height) as usize);
    }
}

#[test]
fn size_is_kept_over_generations() {
    for (width, height) in [(1, 1), (2, 3), (3, 2), (5, 5), (8, 4), (4, 8)] {
        let mut universe = Universe::new(width, height);
        for _ in 0..10 {
            universe.tick();
            assert_eq!(universe.width(), width);
            assert_eq!(universe.height(), height);
            assert_eq!(universe.cells().len(), (width * height) as usize);
        }
    }
}

#[test]
fn zero_width_gives_an_empty_grid() {
    let mut universe = Universe::new(0, 5);
    assert_eq!(universe.width(), 0);
    assert_eq!(universe.height(), 5);
    assert!(universe.cells().is_empty());
    universe.tick();
    assert!(universe.cells().is_empty());
}

#[test]
fn zero_height_gives_an_empty_grid() {
    let mut universe = Universe::new(5, 0);
    assert_eq!(universe.width(), 5);
    assert_eq!(universe.height(), 0);
    assert!(universe.cells().is_empty());
    universe.tick();
    assert!(universe.cells().is_empty());
}

#[test]
fn zero_by_zero_gives_an_empty_grid() {
    let mut universe = Universe::new(0, 0);
    assert!(universe.cells().is_empty());
    universe.tick();
    assert!(universe.cells().is_empty());
    assert_eq!(universe.render(), "");
}

#[test]
fn from_cells_keeps_what_it_is_given() {
    let universe = Universe::from_cells(3, 2, vec![A, D, D, D, A, A]).unwrap();
    assert_eq!(universe.width(), 3);
    assert_eq!(universe.height(), 2);
    assert_eq!(universe.cells(), &[A, D, D, D, A, A]);
}

#[test]
fn from_cells_refuses_too_few_cells() {
    assert!(Universe::from_cells(3, 2, vec![A, D, D, D, A]).is_none());
}

#[test]
fn from_cells_refuses_too_many_cells() {
    assert!(Universe::from_cells(3, 2, vec![A, D, D, D, A, A, D]).is_none());
}

#[test]
fn from_cells_refuses_cells_for_an_empty_grid() {
    assert!(Universe::from_cells(0, 2, vec![A]).is_none());
    assert!(Universe::from_cells(0, 2, Vec::new()).is_some());
}

#[test]
fn from_cells_refuses_dimensions_beyond_the_index_range() {
    assert!(Universe::from_cells(65536, 65536, Vec::new()).is_none());
    assert!(Universe::from_cells(u32::MAX, u32::MAX, Vec::new()).is_none());
}
