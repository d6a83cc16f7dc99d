use life::grid::{CellState, DimensionError, Grid};

#[test]
fn new_grid_size() {
    let grid = Grid::new((31, 42)).unwrap();

    assert_eq!(grid.width(), 31);
    assert_eq!(grid.height(), 42);
}

#[test]
fn new_grid_min_size() {
    let grid = Grid::new((3, 3)).unwrap();

    assert_eq!(grid.width(), 3);
    assert_eq!(grid.height(), 3);
}

#[test]
#[should_panic]
fn new_grid_min_width() {
    Grid::new((2, 3)).unwrap();
}

#[test]
#[should_panic]
fn new_grid_min_height() {
    Grid::new((3, 2)).unwrap();
}

#[test]
fn new_grid_small_sides_give_dimension_error() {
    for width in 0..6usize {
        for height in 0..6usize {
            let result = Grid::new((width, height));
            if width <= 2 || height <= 2 {
                assert_eq!(result, Err(DimensionError { width, height }));
            } else {
                assert!(result.is_ok());
            }
        }
    }
}

#[test]
fn new_grid_is_all_dead() {
    let grid = Grid::new((5, 4)).unwrap();
    for y in 0..4 {
        for x in 0..5 {
            assert_eq!(grid.get_cell((x, y)), CellState::Dead);
        }
    }
}

#[test]
fn get_cell_in_bounds() {
    let grid = Grid::new((4, 3)).unwrap();

    assert_eq!(grid.get_cell((0, 0)), CellState::Dead);
    assert_eq!(grid.get_cell((1, 0)), CellState::Dead);
    assert_eq!(grid.get_cell((2, 0)), CellState::Dead);
    assert_eq!(grid.get_cell((3, 0)), CellState::Dead);
    assert_eq!(grid.get_cell((0, 1)), CellState::Dead);
    assert_eq!(grid.get_cell((1, 1)), CellState::Dead);
    assert_eq!(grid.get_cell((2, 1)), CellState::Dead);
    assert_eq!(grid.get_cell((3, 1)), CellState::Dead);
    assert_eq!(grid.get_cell((0, 2)), CellState::Dead);
    assert_eq!(grid.get_cell((1, 2)), CellState::Dead);
    assert_eq!(grid.get_cell((2, 2)), CellState::Dead);
    assert_eq!(grid.get_cell((3, 2)), CellState::Dead);
}

#[test]
fn set_cell_in_bounds() {
    let mut grid = Grid::new((3, 4)).unwrap();

    grid.set_cell((1, 2), CellState::Alive);

    assert_eq!(grid.get_cell((1, 2)), CellState::Alive);
    assert_eq!(grid.get_cell((2, 1)), CellState::Dead);
}

#[test]
fn get_cell_wrapped_negative_x() {
    let mut grid = Grid::new((3, 3)).unwrap();
    grid.set_cell((2, 0), CellState::Alive);

    assert_eq!(grid.get_cell_wrapped((-1, 0)), CellState::Alive);
    assert_eq!(grid.get_cell_wrapped((-4, 0)), CellState::Alive);
}

#[test]
fn get_cell_wrapped_positive_x() {
    let mut grid = Grid::new((3, 3)).unwrap();
    grid.set_cell((2, 0), CellState::Alive);

    assert_eq!(grid.get_cell_wrapped((5, 0)), CellState::Alive);
    assert_eq!(grid.get_cell_wrapped((8, 0)), CellState::Alive);
}

#[test]
fn get_cell_wrapped_corner() {
    let mut grid = Grid::new((4, 4)).unwrap();
    grid.set_cell((0, 0), CellState::Alive);

    // (-1, -1) and (3, 3) are the same cell on a 4 by 4 torus: the corner
    // opposite the live one, so both read it as dead.
    assert_eq!(grid.get_cell_wrapped((-1, -1)), grid.get_cell_wrapped((3, 3)));
    assert_eq!(grid.get_cell_wrapped((-1, -1)), CellState::Dead);
    assert_eq!(grid.get_cell_wrapped((4, 4)), CellState::Alive);
    assert_eq!(grid.get_cell_wrapped((-4, 0)), CellState::Alive);
}

#[test]
fn get_cell_wrapped_whole_turns() {
    let mut grid = Grid::new((5, 3)).unwrap();
    grid.set_cell((1, 2), CellState::Alive);
    grid.set_cell((4, 0), CellState::Alive);
    for y in 0..3i32 {
        for x in 0..5i32 {
            for k in -3..4i32 {
                let cell = grid.get_cell_wrapped((x, y));
                assert_eq!(grid.get_cell_wrapped((x + k * 5, y)), cell);
                assert_eq!(grid.get_cell_wrapped((x, y + k * 3)), cell);
            }
        }
    }
    assert_eq!(grid.get_cell_wrapped((i32::MIN, 0)), grid.get_cell_wrapped((2, 0)));
    assert_eq!(grid.get_cell_wrapped((i32::MAX, -1)), grid.get_cell_wrapped((2, 2)));
}

#[test]
fn set_cell_leaves_other_cells() {
    let mut grid = Grid::new((3, 3)).unwrap();
    grid.set_cell((2, 2), CellState::Alive);
    grid.set_cell((2, 2), CellState::Dead);
    grid.set_cell((0, 1), CellState::Alive);
    for y in 0..3 {
        for x in 0..3 {
            let expected = if (x, y) == (0, 1) { CellState::Alive } else { CellState::Dead };
            assert_eq!(grid.get_cell((x, y)), expected);
        }
    }
}

#[test]
fn duplicate_is_equal() {
    let mut grid = Grid::new((3, 5)).unwrap();
    grid.set_cell((1, 4), CellState::Alive);
    let copy = grid.duplicate();
    assert_eq!(copy, grid);
}
