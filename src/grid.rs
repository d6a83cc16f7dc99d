use vstd::arithmetic::div_mod::{
    lemma_fundamental_div_mod, lemma_fundamental_div_mod_converse, lemma_mod_multiples_vanish,
};
use vstd::prelude::*;

verus! {

/// The state of one cell.
#[derive(Debug, PartialEq, Eq, Clone, Copy, Structural)]
pub enum CellState {
    Dead,
    Alive,
}

/// A grid was asked for with a side shorter than three cells.
#[derive(Debug, PartialEq, Eq, Clone, Copy, Structural)]
pub struct DimensionError {
    pub width: usize,
    pub height: usize,
}

/// The mathematical content of a grid: its sides and its cells, row by row.
pub struct GridView {
    pub width: nat,
    pub height: nat,
    pub cells: Seq<CellState>,
}

impl GridView {
    /// Sides of at least three cells, and one cell per position.
    pub open spec fn wf(self) -> bool {
        &&& self.width > 2
        &&& self.height > 2
        &&& self.cells.len() == self.width * self.height
    }

    pub open spec fn in_bounds(self, x: int, y: int) -> bool {
        0 <= x < self.width && 0 <= y < self.height
    }

    /// The cell at column `x` of row `y`.
    pub open spec fn at(self, x: int, y: int) -> CellState {
        self.cells[x + y * self.width]
    }

    /// The cell that any pair of coordinates reaches on the torus.
    pub open spec fn wrapped_at(self, x: int, y: int) -> CellState {
        self.at(x % (self.width as int), y % (self.height as int))
    }
}

/// A fixed-size grid of cells, stored row by row.
#[derive(Debug, Eq, Clone)]
pub struct Grid {
    width: usize,
    height: usize,
    cells: Vec<CellState>,
}

impl View for Grid {
    type V = GridView;

    closed spec fn view(&self) -> GridView {
        GridView { width: self.width as nat, height: self.height as nat, cells: self.cells@ }
    }
}

/// Two grids are equal when their sides and all their cells are.
impl PartialEq for Grid {
    fn eq(&self, other: &Grid) -> (r: bool) {
        if self.width != other.width || self.height != other.height || self.cells.len()
            != other.cells.len() {
            return false;
        }
        let mut i: usize = 0;
        while i < self.cells.len()
            invariant
                self.cells@.len() == other.cells@.len(),
                i <= self.cells@.len(),
                forall|j: int| 0 <= j < i ==> self.cells@[j] == other.cells@[j],
            decreases self.cells@.len() - i,
        {
            if self.cells[i] != other.cells[i] {
                return false;
            }
            i = i + 1;
        }
        assert(self.cells@ == other.cells@);
        true
    }
}

impl vstd::std_specs::cmp::PartialEqSpecImpl for Grid {
    open spec fn obeys_eq_spec() -> bool {
        true
    }

    open spec fn eq_spec(&self, other: &Grid) -> bool {
        self@ == other@
    }
}

/// A row-major index of an in-bounds position stays below the cell count.
pub proof fn lemma_index_in_range(width: int, height: int, x: int, y: int)
    requires
        0 <= x < width,
        0 <= y < height,
    ensures
        0 <= x + y * width < width * height,
{
    assert(0 <= y * width <= (height - 1) * width) by (nonlinear_arith)
        requires
            0 <= y < height,
            0 <= x < width,
    ;
    assert((height - 1) * width + width == width * height) by (nonlinear_arith);
}

/// A row-major index splits into a column and a row of the grid.
pub proof fn lemma_index_split(width: int, height: int, i: int)
    requires
        width > 0,
        0 <= i < width * height,
    ensures
        i == i % width + (i / width) * width,
        0 <= i % width < width,
        0 <= i / width < height,
{
    lemma_fundamental_div_mod(i, width);
    assert(i == i % width + (i / width) * width) by (nonlinear_arith)
        requires
            i == width * (i / width) + (i % width),
    ;
    assert(i / width < height) by (nonlinear_arith)
        requires
            i == i % width + (i / width) * width,
            0 <= i % width,
            i < width * height,
            width > 0,
    ;
    assert(0 <= i / width) by (nonlinear_arith)
        requires
            i == i % width + (i / width) * width,
            i % width < width,
            0 <= i,
            width > 0,
    ;
}

/// Floored remainder of a signed coordinate by a positive side.
fn wrap_coordinate(v: i32, m: usize) -> (r: usize)
    requires
        m > 0,
    ensures
        r as int == v as int % m as int,
        r < m,
{
    if v >= 0 {
        (v as usize) % m
    } else {
        let n: usize = (-(v as i64)) as usize;
        let a: usize = n % m;
        let ghost q = n as int / m as int;
        proof {
            lemma_fundamental_div_mod(n as int, m as int);
        }
        if a == 0 {
            proof {
                assert(v as int == (-q) * m + 0) by (nonlinear_arith)
                    requires
                        n as int == m * q + a,
                        a == 0,
                        v as int == -(n as int),
                ;
                lemma_fundamental_div_mod_converse(v as int, m as int, -q, 0);
            }
            0
        } else {
            proof {
                assert(v as int == (-q - 1) * m + (m - a)) by (nonlinear_arith)
                    requires
                        n as int == m * q + a,
                        v as int == -(n as int),
                ;
                lemma_fundamental_div_mod_converse(v as int, m as int, -q - 1, (m - a) as int);
            }
            m - a
        }
    }
}

impl Grid {
    /// The grid is well formed (see `GridView::wf`) and its cells can be indexed.
    pub open spec fn wf(&self) -> bool {
        &&& self@.wf()
        &&& self@.width * self@.height <= usize::MAX
    }

    /// A grid of `width` by `height` dead cells; sides under three are refused.
    pub fn new(size: (usize, usize)) -> (r: Result<Grid, DimensionError>)
        requires
            size.0 > 2 && size.1 > 2 ==> size.0 * size.1 <= usize::MAX,
        ensures
            size.0 > 2 && size.1 > 2 ==> r is Ok,
            r is Ok ==> ({
                let g = r->Ok_0;
                &&& g.wf()
                &&& g@.width == size.0
                &&& g@.height == size.1
                &&& forall|i: int| 0 <= i < g@.cells.len() ==> g@.cells[i] == CellState::Dead
            }),
            r is Err ==> (size.0 <= 2 || size.1 <= 2) && r->Err_0 == (DimensionError {
                width: size.0,
                height: size.1,
            }),
    {
        let (width, height) = size;
        if width <= 2 || height <= 2 {
            return Err(DimensionError { width, height });
        }
        let cells = vec![CellState::Dead; width * height];
        Ok(Grid { width, height, cells })
    }

    /// A copy of the grid, cell for cell.
    pub fn duplicate(&self) -> (r: Grid)
        requires
            self.wf(),
        ensures
            r.wf(),
            r@ == self@,
    {
        let cells = self.cells.clone();
        assert(cells@ == self.cells@);
        Grid { width: self.width, height: self.height, cells }
    }

    pub fn width(&self) -> (r: usize)
        ensures
            r == self@.width,
    {
        self.width
    }

    pub fn height(&self) -> (r: usize)
        ensures
            r == self@.height,
    {
        self.height
    }

    /// The cell at an in-bounds position `(x, y)`.
    pub fn get_cell(&self, pos: (usize, usize)) -> (r: CellState)
        requires
            self.wf(),
            self@.in_bounds(pos.0 as int, pos.1 as int),
        ensures
            r == self@.at(pos.0 as int, pos.1 as int),
    {
        let (x, y) = pos;
        proof {
            lemma_index_in_range(self.width as int, self.height as int, x as int, y as int);
        }
        self.cells[x + y * self.width]
    }

    /// The cell that signed coordinates reach once both are wrapped round the torus.
    pub fn get_cell_wrapped(&self, pos: (i32, i32)) -> (r: CellState)
        requires
            self.wf(),
        ensures
            r == self@.wrapped_at(pos.0 as int, pos.1 as int),
    {
        let (x, y) = pos;
        let wx = wrap_coordinate(x, self.width);
        let wy = wrap_coordinate(y, self.height);
        proof {
            lemma_index_in_range(self.width as int, self.height as int, wx as int, wy as int);
        }
        self.cells[wx + wy * self.width]
    }

    /// Overwrites the cell at an in-bounds position, and no other.
    pub fn set_cell(&mut self, pos: (usize, usize), cell_state: CellState)
        requires
            old(self).wf(),
            old(self)@.in_bounds(pos.0 as int, pos.1 as int),
        ensures
            final(self).wf(),
            final(self)@.width == old(self)@.width,
            final(self)@.height == old(self)@.height,
            final(self)@.cells == old(self)@.cells.update(
                pos.0 + pos.1 * old(self)@.width,
                cell_state,
            ),
    {
        let (x, y) = pos;
        proof {
            lemma_index_in_range(self.width as int, self.height as int, x as int, y as int);
        }
        let i = x + y * self.width;
        self.cells.set(i, cell_state);
    }
}

} // verus!

verus! {

/// Wrapped access does not change when a coordinate moves by a whole number
/// of turns round the torus, on either axis.
pub proof fn lemma_wrapped_periodic(g: GridView, x: int, y: int, k: int)
    requires
        g.wf(),
    ensures
        g.wrapped_at(x + k * g.width, y) == g.wrapped_at(x, y),
        g.wrapped_at(x, y + k * g.height) == g.wrapped_at(x, y),
{
    let w = g.width as int;
    let h = g.height as int;
    assert(x + k * w == w * k + x) by (nonlinear_arith);
    assert(y + k * h == h * k + y) by (nonlinear_arith);
    lemma_mod_multiples_vanish(k, x, w);
    lemma_mod_multiples_vanish(k, y, h);
}

} // verus!
