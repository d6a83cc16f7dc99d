use crate::grid::Grid;
use vstd::prelude::*;

verus! {

/// The current generation, held by the simulation loop and read by others.
/// Readers take a copy; the loop swaps in a whole new grid.
#[derive(Debug)]
pub struct State {
    grid: Grid,
}

impl View for State {
    type V = crate::grid::GridView;

    closed spec fn view(&self) -> crate::grid::GridView {
        self.grid@
    }
}

impl State {
    /// The state holds a well-formed grid.
    pub closed spec fn wf(&self) -> bool {
        self.grid.wf()
    }

    pub fn new(grid: Grid) -> (r: State)
        requires
            grid.wf(),
        ensures
            r.wf(),
            r@ == grid@,
    {
        State { grid }
    }

    /// The current generation, in place.
    pub fn grid(&self) -> (r: &Grid)
        requires
            self.wf(),
        ensures
            r.wf(),
            r@ == self@,
    {
        &self.grid
    }

    /// A copy of the current generation, whole.
    pub fn snapshot(&self) -> (r: Grid)
        requires
            self.wf(),
        ensures
            r.wf(),
            r@ == self@,
    {
        self.grid.duplicate()
    }

    /// Makes `grid` the current generation.
    pub fn replace(&mut self, grid: Grid)
        requires
            grid.wf(),
        ensures
            final(self).wf(),
            final(self)@ == grid@,
    {
        self.grid = grid;
    }
}

} // verus!
