use crate::grid::{lemma_index_in_range, lemma_index_split, CellState, Grid, GridView};
use vstd::arithmetic::div_mod::lemma_fundamental_div_mod_converse;
use vstd::prelude::*;

verus! {

/// One for a live cell, zero for a dead one.
pub open spec fn alive_count(c: CellState) -> nat {
    if c == CellState::Alive {
        1
    } else {
        0
    }
}

/// The live cells among the eight wrapped neighbours of `(x, y)`, each
/// neighbour counted by its coordinates, so that on a small torus one cell may
/// be counted twice.
pub open spec fn neighbor_count(g: GridView, x: int, y: int) -> nat {
    alive_count(g.wrapped_at(x - 1, y - 1)) + alive_count(g.wrapped_at(x, y - 1))
        + alive_count(g.wrapped_at(x + 1, y - 1)) + alive_count(g.wrapped_at(x - 1, y))
        + alive_count(g.wrapped_at(x + 1, y)) + alive_count(g.wrapped_at(x - 1, y + 1))
        + alive_count(g.wrapped_at(x, y + 1)) + alive_count(g.wrapped_at(x + 1, y + 1))
}

/// The rule: birth on three neighbours, survival on two or three, death otherwise.
pub open spec fn next_state(current: CellState, neighbors: nat) -> CellState {
    match current {
        CellState::Dead => if neighbors == 3 {
            CellState::Alive
        } else {
            CellState::Dead
        },
        CellState::Alive => if neighbors == 2 || neighbors == 3 {
            CellState::Alive
        } else {
            CellState::Dead
        },
    }
}

/// The next state of the cell at row-major index `i`.
pub open spec fn next_cell(g: GridView, i: int) -> CellState {
    next_state(
        g.cells[i],
        neighbor_count(g, i % (g.width as int), i / (g.width as int)),
    )
}

/// Coordinates small enough to step one past either edge in `i32`.
pub open spec fn fits_i32(g: GridView) -> bool {
    g.width < i32::MAX && g.height < i32::MAX
}

/// The position that a row-major index stands for.
proof fn lemma_index_position(width: int, height: int, x: int, y: int)
    requires
        0 <= x < width,
        0 <= y < height,
    ensures
        (x + y * width) % width == x,
        (x + y * width) / width == y,
{
    lemma_fundamental_div_mod_converse(x + y * width, width, y, x);
}

fn alive_at(grid: &Grid, x: i32, y: i32) -> (r: usize)
    requires
        grid.wf(),
    ensures
        r == alive_count(grid@.wrapped_at(x as int, y as int)),
{
    match grid.get_cell_wrapped((x, y)) {
        CellState::Alive => 1,
        CellState::Dead => 0,
    }
}

/// Counts the live cells among the eight wrapped neighbours of `pos`.
pub fn count_neighbors(grid: &Grid, pos: (usize, usize)) -> (r: usize)
    requires
        grid.wf(),
        fits_i32(grid@),
        grid@.in_bounds(pos.0 as int, pos.1 as int),
    ensures
        r == neighbor_count(grid@, pos.0 as int, pos.1 as int),
        r <= 8,
{
    let x = pos.0 as i32;
    let y = pos.1 as i32;
    alive_at(grid, x - 1, y - 1) + alive_at(grid, x, y - 1) + alive_at(grid, x + 1, y - 1)
        + alive_at(grid, x - 1, y) + alive_at(grid, x + 1, y) + alive_at(grid, x - 1, y + 1)
        + alive_at(grid, x, y + 1) + alive_at(grid, x + 1, y + 1)
}

/// The next generation: a new grid of the same size in which each cell follows
/// the rule from its own state and its neighbours in `grid`.
pub fn generate_next(grid: &Grid) -> (r: Grid)
    requires
        grid.wf(),
        fits_i32(grid@),
    ensures
        r.wf(),
        r@.width == grid@.width,
        r@.height == grid@.height,
        forall|x: int, y: int|
            grid@.in_bounds(x, y) ==> #[trigger] r@.at(x, y) == next_state(
                grid@.at(x, y),
                neighbor_count(grid@, x, y),
            ),
{
    let width = grid.width();
    let height = grid.height();
    let mut next = Grid::new((width, height)).unwrap();
    let n: usize = width * height;
    let mut i: usize = 0;
    while i < n
        invariant
            n == width * height,
            width == grid@.width,
            height == grid@.height,
            grid.wf(),
            fits_i32(grid@),
            next.wf(),
            next@.width == width,
            next@.height == height,
            i <= n,
            forall|j: int| 0 <= j < i ==> next@.cells[j] == next_cell(grid@, j),
        decreases n - i,
    {
        proof {
            lemma_index_split(width as int, height as int, i as int);
        }
        let x = i % width;
        let y = i / width;
        let neighbors = count_neighbors(grid, (x, y));
        let state = match grid.get_cell((x, y)) {
            CellState::Dead => if neighbors == 3 {
                CellState::Alive
            } else {
                CellState::Dead
            },
            CellState::Alive => if neighbors == 2 || neighbors == 3 {
                CellState::Alive
            } else {
                CellState::Dead
            },
        };
        next.set_cell((x, y), state);
        i = i + 1;
    }
    proof {
        assert forall|x: int, y: int| grid@.in_bounds(x, y) implies #[trigger] next@.at(x, y)
            == next_state(grid@.at(x, y), neighbor_count(grid@, x, y)) by {
            lemma_index_in_range(width as int, height as int, x, y);
            lemma_index_position(width as int, height as int, x, y);
            assert(next@.cells[x + y * width] == next_cell(grid@, x + y * width));
        }
    }
    next
}

/// A grid with no live cell gives every position a neighbour count of zero.
pub proof fn lemma_empty_grid_has_no_neighbors(g: GridView, x: int, y: int)
    requires
        g.wf(),
        forall|i: int| 0 <= i < g.cells.len() ==> g.cells[i] == CellState::Dead,
    ensures
        neighbor_count(g, x, y) == 0,
{
    let w = g.width as int;
    let h = g.height as int;
    assert forall|a: int, b: int| #[trigger] g.wrapped_at(a, b) == CellState::Dead by {
        lemma_index_in_range(w, h, a % w, b % h);
    }
}

} // verus!
