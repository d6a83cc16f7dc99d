use crate::grid::{CellState, Grid, GridView};
use vstd::prelude::*;

verus! {

/// The character drawn for a cell: `o` for a live one, a space for a dead one.
pub open spec fn cell_symbol(c: CellState) -> char {
    if c == CellState::Alive {
        'o'
    } else {
        ' '
    }
}

/// Row `y` of the grid, one character per cell.
pub open spec fn line_text(g: GridView, y: int) -> Seq<char> {
    Seq::new(g.width, |x: int| cell_symbol(g.at(x, y)))
}

/// `n` dashes.
pub open spec fn dashes(n: nat) -> Seq<char> {
    Seq::new(n, |i: int| '-')
}

/// The grid drawn in a frame: a top border `/--…--\`, each row between two
/// bars, and a bottom border `\--…--/`.
pub open spec fn frame_text(g: GridView) -> Seq<Seq<char>> {
    seq![seq!['/'] + dashes(g.width) + seq!['\\']]
        + Seq::new(g.height, |y: int| seq!['|'] + line_text(g, y) + seq!['|'])
        + seq![seq!['\\'] + dashes(g.width) + seq!['/']]
}

/// The text of the cell at an in-bounds position.
pub fn cell_char(grid: &Grid, pos: (usize, usize)) -> (r: &'static str)
    requires
        grid.wf(),
        grid@.in_bounds(pos.0 as int, pos.1 as int),
    ensures
        r@ == seq![cell_symbol(grid@.at(pos.0 as int, pos.1 as int))],
{
    proof {
        reveal_strlit(" ");
        reveal_strlit("o");
    }
    match grid.get_cell(pos) {
        CellState::Dead => " ",
        CellState::Alive => "o",
    }
}

/// Row `y` of the grid as text.
pub fn line_chars(grid: &Grid, y: usize) -> (r: String)
    requires
        grid.wf(),
        y < grid@.height,
    ensures
        r@ == line_text(grid@, y as int),
{
    let width = grid.width();
    let mut line = String::new();
    let mut x: usize = 0;
    while x < width
        invariant
            grid.wf(),
            width == grid@.width,
            y < grid@.height,
            x <= width,
            line@ == line_text(grid@, y as int).subrange(0, x as int),
        decreases width - x,
    {
        let c = cell_char(grid, (x, y));
        line.append(c);
        assert(line_text(grid@, y as int).subrange(0, x + 1) == line_text(grid@, y as int).subrange(
            0,
            x as int,
        ).push(cell_symbol(grid@.at(x as int, y as int))));
        x = x + 1;
    }
    assert(line_text(grid@, y as int).subrange(0, width as int) == line_text(grid@, y as int));
    line
}

/// A border line: `left`, `width` dashes, `right`.
fn border(width: usize, left: &str, right: &str) -> (r: String)
    ensures
        r@ == left@ + dashes(width as nat) + right@,
{
    let mut line = String::from_str(left);
    let mut i: usize = 0;
    while i < width
        invariant
            i <= width,
            line@ == left@ + dashes(i as nat),
        decreases width - i,
    {
        proof {
            reveal_strlit("-");
        }
        line.append("-");
        assert(dashes((i + 1) as nat) == dashes(i as nat).push('-'));
        i = i + 1;
    }
    line.append(right);
    line
}

/// The lines that draw the grid in its frame.
pub fn frame_lines(grid: &Grid) -> (r: Vec<String>)
    requires
        grid.wf(),
    ensures
        r@.map_values(|s: String| s@) == frame_text(grid@),
{
    proof {
        reveal_strlit("/");
        reveal_strlit("\\");
        reveal_strlit("|");
    }
    let width = grid.width();
    let height = grid.height();
    let mut lines: Vec<String> = Vec::new();
    lines.push(border(width, "/", "\\"));
    let mut y: usize = 0;
    while y < height
        invariant
            grid.wf(),
            width == grid@.width,
            height == grid@.height,
            y <= height,
            lines@.len() == y + 1,
            lines@[0]@ == seq!['/'] + dashes(grid@.width) + seq!['\\'],
            forall|j: int|
                0 <= j < y ==> #[trigger] lines@[j + 1]@ == seq!['|'] + line_text(grid@, j) + seq![
                    '|',
                ],
        decreases height - y,
    {
        proof {
            reveal_strlit("|");
        }
        let mut line = String::from_str("|");
        line.append(&line_chars(grid, y));
        line.append("|");
        lines.push(line);
        assert(lines@[y + 1]@ == seq!['|'] + line_text(grid@, y as int) + seq!['|']);
        y = y + 1;
    }
    lines.push(border(width, "\\", "/"));
    let ghost text = frame_text(grid@);
    assert forall|i: int| 0 <= i < lines@.len() implies #[trigger] lines@[i]@ == text[i] by {
        if 1 <= i <= height {
            assert(lines@[(i - 1) + 1]@ == seq!['|'] + line_text(grid@, i - 1) + seq!['|']);
        }
    }
    assert(lines@.map_values(|s: String| s@) =~= text);
    lines
}

} // verus!
