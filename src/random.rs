use crate::grid::{lemma_index_split, CellState, Grid};
use rand::Rng;
use vstd::prelude::*;

verus! {

/// Relies on rand::Rng::gen_ratio, drawn from the thread-local generator: it
/// panics when `denominator` is zero or below `numerator`, never gives `true`
/// for a zero numerator, and always gives `true` when both are equal.
#[verifier::external_body]
fn draw_ratio(numerator: u32, denominator: u32) -> (r: bool)
    requires
        0 < denominator,
        numerator <= denominator,
    ensures
        numerator == 0 ==> !r,
        numerator == denominator ==> r,
{
    rand::thread_rng().gen_ratio(numerator, denominator)
}

/// A `width` by `height` grid in which each cell is drawn alive with
/// probability `alive_numerator / alive_denominator`, independently.
pub fn build_random_grid(
    width: usize,
    height: usize,
    alive_numerator: u32,
    alive_denominator: u32,
) -> (r: Grid)
    requires
        width > 2,
        height > 2,
        width * height <= usize::MAX,
        0 < alive_denominator,
        alive_numerator <= alive_denominator,
    ensures
        r.wf(),
        r@.width == width,
        r@.height == height,
        alive_numerator == 0 ==> forall|i: int|
            0 <= i < r@.cells.len() ==> r@.cells[i] == CellState::Dead,
        alive_numerator == alive_denominator ==> forall|i: int|
            0 <= i < r@.cells.len() ==> r@.cells[i] == CellState::Alive,
{
    let mut grid = Grid::new((width, height)).unwrap();
    let n: usize = width * height;
    let mut i: usize = 0;
    while i < n
        invariant
            n == width * height,
            width > 2,
            0 < alive_denominator,
            alive_numerator <= alive_denominator,
            grid.wf(),
            grid@.width == width,
            grid@.height == height,
            i <= n,
            alive_numerator == 0 ==> forall|j: int|
                0 <= j < n ==> grid@.cells[j] == CellState::Dead,
            alive_numerator == alive_denominator ==> forall|j: int|
                0 <= j < i ==> grid@.cells[j] == CellState::Alive,
        decreases n - i,
    {
        proof {
            lemma_index_split(width as int, height as int, i as int);
        }
        if draw_ratio(alive_numerator, alive_denominator) {
            grid.set_cell((i % width, i / width), CellState::Alive);
        }
        i = i + 1;
    }
    grid
}

} // verus!
