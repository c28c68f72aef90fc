use vstd::arithmetic::div_mod::lemma_fundamental_div_mod_converse;
use vstd::prelude::*;

verus! {

/// A heading on the board. Rows grow downwards.
#[derive(Clone, Copy, Debug, PartialEq, Eq, Structural)]
pub enum Direction {
    Up,
    Right,
    Down,
    Left,
}

impl Direction {
    /// The heading that points the other way.
    pub open spec fn reversed(self) -> Direction {
        match self {
            Direction::Up => Direction::Down,
            Direction::Right => Direction::Left,
            Direction::Down => Direction::Up,
            Direction::Left => Direction::Right,
        }
    }

    pub fn opposite(self) -> (r: Direction)
        ensures
            r == self.reversed(),
    {
        match self {
            Direction::Up => Direction::Down,
            Direction::Right => Direction::Left,
            Direction::Down => Direction::Up,
            Direction::Left => Direction::Right,
        }
    }
}

/// Row of a flat cell index on a board `width` cells wide.
pub open spec fn row_of(width: int, idx: int) -> int {
    idx / width
}

/// Column of a flat cell index on a board `width` cells wide.
pub open spec fn col_of(width: int, idx: int) -> int {
    idx % width
}

/// The cell one move away from `idx` in direction `d`, wrapping around
/// the edges of a `width` by `width` board.
pub open spec fn next_cell(width: int, idx: int, d: Direction) -> int {
    let row = row_of(width, idx);
    let col = col_of(width, idx);
    match d {
        Direction::Right => row * width + (col + 1) % width,
        Direction::Left => row * width + (col + width - 1) % width,
        Direction::Up => ((row + width - 1) % width) * width + col,
        Direction::Down => ((row + 1) % width) * width + col,
    }
}

/// Splitting `row * width + col` back into its row and column.
pub proof fn lemma_row_col(width: int, row: int, col: int)
    requires
        width > 0,
        0 <= col < width,
    ensures
        row_of(width, row * width + col) == row,
        col_of(width, row * width + col) == col,
{
    lemma_fundamental_div_mod_converse(row * width + col, width, row, col);
}

/// A cell of the board has its row and column on the board, and is
/// rebuilt from them.
pub proof fn lemma_cell_parts(width: int, idx: int)
    requires
        width > 0,
        0 <= idx < width * width,
    ensures
        0 <= row_of(width, idx) < width,
        0 <= col_of(width, idx) < width,
        idx == row_of(width, idx) * width + col_of(width, idx),
{
    let row = idx / width;
    let col = idx % width;
    assert(idx == width * (idx / width) + idx % width) by (nonlinear_arith)
        requires
            width > 0,
    ;
    assert(0 <= col < width) by (nonlinear_arith)
        requires
            width > 0,
            col == idx % width,
    ;
    assert(0 <= row < width) by (nonlinear_arith)
        requires
            width > 0,
            0 <= idx < width * width,
            idx == width * row + col,
            0 <= col < width,
    ;
    assert(idx == row * width + col) by (nonlinear_arith)
        requires
            idx == width * row + col,
    ;
}

/// Stepping one position forward and then back again on a ring of
/// `width` positions.
proof fn lemma_ring_back(width: int, p: int)
    requires
        width > 0,
        0 <= p < width,
    ensures
        0 <= (p + 1) % width < width,
        0 <= (p + width - 1) % width < width,
        ((p + 1) % width + width - 1) % width == p,
        ((p + width - 1) % width + 1) % width == p,
{
    if p + 1 < width {
        lemma_fundamental_div_mod_converse(p + 1, width, 0, p + 1);
        lemma_fundamental_div_mod_converse(p + 1 + width - 1, width, 1, p);
    } else {
        lemma_fundamental_div_mod_converse(p + 1, width, 1, 0);
        lemma_fundamental_div_mod_converse(width - 1, width, 0, width - 1);
    }
    if p >= 1 {
        lemma_fundamental_div_mod_converse(p + width - 1, width, 1, p - 1);
        lemma_fundamental_div_mod_converse(p, width, 0, p);
    } else {
        lemma_fundamental_div_mod_converse(p + width - 1, width, 0, width - 1);
        lemma_fundamental_div_mod_converse(width, width, 1, 0);
    }
}

/// A move from a cell of the board lands on a cell of the board.
pub proof fn lemma_next_cell_on_board(width: int, idx: int, d: Direction)
    requires
        width > 0,
        0 <= idx < width * width,
    ensures
        0 <= next_cell(width, idx, d) < width * width,
{
    lemma_cell_parts(width, idx);
    let row = row_of(width, idx);
    let col = col_of(width, idx);
    lemma_ring_back(width, row);
    lemma_ring_back(width, col);
    let r2 = match d {
        Direction::Up => (row + width - 1) % width,
        Direction::Down => (row + 1) % width,
        _ => row,
    };
    let c2 = match d {
        Direction::Right => (col + 1) % width,
        Direction::Left => (col + width - 1) % width,
        _ => col,
    };
    assert(next_cell(width, idx, d) == r2 * width + c2);
    assert(0 <= r2 * width + c2 < width * width) by (nonlinear_arith)
        requires
            width > 0,
            0 <= r2 < width,
            0 <= c2 < width,
    ;
}

/// Moving from any cell in some direction and then in the opposite
/// direction comes back to the cell where the walk started: the board
/// wraps around at every edge.
pub proof fn lemma_move_and_back(width: int, idx: int, d: Direction)
    requires
        width > 0,
        0 <= idx < width * width,
    ensures
        next_cell(width, next_cell(width, idx, d), d.reversed()) == idx,
{
    lemma_cell_parts(width, idx);
    let row = row_of(width, idx);
    let col = col_of(width, idx);
    lemma_ring_back(width, row);
    lemma_ring_back(width, col);
    match d {
        Direction::Right => lemma_row_col(width, row, (col + 1) % width),
        Direction::Left => lemma_row_col(width, row, (col + width - 1) % width),
        Direction::Up => lemma_row_col(width, (row + width - 1) % width, col),
        Direction::Down => lemma_row_col(width, (row + 1) % width, col),
    }
}

} // verus!
