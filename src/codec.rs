use crate::grid::{lemma_index_split, CellState, DimensionError, Grid, GridView};
use vstd::prelude::*;

verus! {

/// A grid as plain values: its sides, and its cells as rows of booleans
/// (`true` for a live cell), rows by increasing `y`, columns by increasing `x`.
#[derive(Debug, PartialEq, Eq, Clone)]
pub struct GridRecord {
    pub width: usize,
    pub height: usize,
    pub cells: Vec<Vec<bool>>,
}

/// Why a record could not be read as a grid.
#[derive(Debug, PartialEq, Eq, Clone, Copy, Structural)]
pub enum DecodeError {
    /// A side shorter than three cells.
    Dimension(DimensionError),
    /// Fewer rows than the height, a row shorter than the width, or more
    /// cells than can be counted.
    MalformedRecord,
}

impl GridRecord {
    /// The rows of the record as sequences.
    pub open spec fn rows(&self) -> Seq<Seq<bool>> {
        self.cells@.map_values(|row: Vec<bool>| row@)
    }
}

/// The rows that stand for a grid.
pub open spec fn encoding(g: GridView) -> Seq<Seq<bool>> {
    Seq::new(g.height, |y: int| Seq::new(g.width, |x: int| g.at(x, y) == CellState::Alive))
}

/// The rows hold a cell for every position of a `width` by `height` grid.
pub open spec fn covers(width: nat, height: nat, rows: Seq<Seq<bool>>) -> bool {
    &&& rows.len() >= height
    &&& forall|y: int| 0 <= y < height ==> #[trigger] rows[y].len() >= width
}

/// The cell state that a boolean stands for.
pub open spec fn state_of(b: bool) -> CellState {
    if b {
        CellState::Alive
    } else {
        CellState::Dead
    }
}

/// The grid that rows describe; cells past the width or height are not read.
pub open spec fn decoding(width: nat, height: nat, rows: Seq<Seq<bool>>) -> GridView {
    GridView {
        width,
        height,
        cells: Seq::new(
            width * height,
            |i: int| state_of(rows[i / (width as int)][i % (width as int)]),
        ),
    }
}

/// The record of a grid.
pub fn encode(grid: &Grid) -> (r: GridRecord)
    requires
        grid.wf(),
    ensures
        r.width == grid@.width,
        r.height == grid@.height,
        r.rows() == encoding(grid@),
{
    let width = grid.width();
    let height = grid.height();
    let mut cells: Vec<Vec<bool>> = Vec::new();
    let mut y: usize = 0;
    while y < height
        invariant
            grid.wf(),
            width == grid@.width,
            height == grid@.height,
            y <= height,
            cells@.len() == y,
            forall|j: int| 0 <= j < y ==> #[trigger] cells@[j]@ == encoding(grid@)[j],
        decreases height - y,
    {
        let mut row: Vec<bool> = Vec::new();
        let mut x: usize = 0;
        while x < width
            invariant
                grid.wf(),
                width == grid@.width,
                height == grid@.height,
                y < height,
                x <= width,
                row@.len() == x,
                forall|i: int| 0 <= i < x ==> row@[i] == (grid@.at(i, y as int) == CellState::Alive),
            decreases width - x,
        {
            row.push(grid.get_cell((x, y)) == CellState::Alive);
            x = x + 1;
        }
        assert(row@ == encoding(grid@)[y as int]);
        cells.push(row);
        y = y + 1;
    }
    let r = GridRecord { width, height, cells };
    assert(r.rows() == encoding(grid@));
    r
}

/// The grid that a record describes. Sides under three give `Dimension`;
/// missing rows or cells give `MalformedRecord`.
pub fn decode(record: &GridRecord) -> (r: Result<Grid, DecodeError>)
    ensures
        r is Ok <==> {
            &&& record.width > 2
            &&& record.height > 2
            &&& covers(record.width as nat, record.height as nat, record.rows())
            &&& record.width * record.height <= usize::MAX
        },
        r is Ok ==> r->Ok_0.wf() && r->Ok_0@ == decoding(
            record.width as nat,
            record.height as nat,
            record.rows(),
        ),
        r == Err::<Grid, DecodeError>(DecodeError::Dimension(DimensionError {
            width: record.width,
            height: record.height,
        })) <==> (record.width <= 2 || record.height <= 2),
        r is Err && record.width > 2 && record.height > 2 ==> r == Err::<
            Grid,
            DecodeError,
        >(DecodeError::MalformedRecord),
{
    let width = record.width;
    let height = record.height;
    if width <= 2 || height <= 2 {
        return Err(DecodeError::Dimension(DimensionError { width, height }));
    }
    if record.cells.len() < height {
        return Err(DecodeError::MalformedRecord);
    }
    let mut y: usize = 0;
    while y < height
        invariant
            height <= record.cells@.len(),
            height == record.height,
            width == record.width,
            width > 2,
            height > 2,
            y <= height,
            forall|j: int| 0 <= j < y ==> #[trigger] record.rows()[j].len() >= width,
        decreases height - y,
    {
        assert(record.rows()[y as int] == record.cells@[y as int]@);
        if record.cells[y].len() < width {
            return Err(DecodeError::MalformedRecord);
        }
        y = y + 1;
    }
    let n: usize = match width.checked_mul(height) {
        Some(n) => n,
        None => {
            return Err(DecodeError::MalformedRecord);
        },
    };
    let mut grid = match Grid::new((width, height)) {
        Ok(g) => g,
        Err(e) => {
            return Err(DecodeError::Dimension(e));
        },
    };
    let ghost target = decoding(width as nat, height as nat, record.rows());
    let mut i: usize = 0;
    while i < n
        invariant
            n == width * height,
            width == record.width,
            height == record.height,
            width > 2,
            covers(width as nat, height as nat, record.rows()),
            target == decoding(width as nat, height as nat, record.rows()),
            grid.wf(),
            grid@.width == width,
            grid@.height == height,
            i <= n,
            forall|j: int| 0 <= j < i ==> grid@.cells[j] == target.cells[j],
        decreases n - i,
    {
        proof {
            lemma_index_split(width as int, height as int, i as int);
        }
        let x = i % width;
        let y = i / width;
        assert(record.rows()[y as int] == record.cells@[y as int]@);
        let b = record.cells[y][x];
        let state = if b {
            CellState::Alive
        } else {
            CellState::Dead
        };
        grid.set_cell((x, y), state);
        i = i + 1;
    }
    assert(grid@.cells == target.cells);
    Ok(grid)
}

/// Decoding the record of a grid gives that grid back.
pub proof fn lemma_round_trip(g: Grid)
    requires
        g.wf(),
    ensures
        covers(g@.width, g@.height, encoding(g@)),
        decoding(g@.width, g@.height, encoding(g@)) == g@,
{
    let v = g@;
    let w = v.width as int;
    let h = v.height as int;
    let d = decoding(v.width, v.height, encoding(v));
    assert forall|i: int| 0 <= i < w * h implies d.cells[i] == v.cells[i] by {
        lemma_index_split(w, h, i);
    }
    assert(d.cells == v.cells);
}

} // verus!
