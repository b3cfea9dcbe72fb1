//! The board and the mapping from axial coordinates to board cells.

use vstd::prelude::*;

verus! {

/// `v` clamped into `0 ..= n - 1`. A board without cells (`n == 0`) clamps to 0.
pub open spec fn clamp_to_board(v: int, n: int) -> int {
    if v < 0 || n <= 0 {
        0
    } else if v >= n {
        n - 1
    } else {
        v
    }
}

/// The column of axial `x` on a board of size `n`: the center column is `n / 2`
/// and columns grow with `x`.
pub open spec fn spec_col(x: int, n: int) -> int {
    clamp_to_board(x + n / 2, n)
}

/// The row of axial `y` on a board of size `n`: the center row is `n / 2` and
/// rows grow as `y` falls, so that north is up.
pub open spec fn spec_row(y: int, n: int) -> int {
    clamp_to_board(n / 2 - y, n)
}

/// The `(row, column)` cell of an axial coordinate on a board of size `n`.
pub open spec fn spec_index(coord: (i32, i32), n: usize) -> (int, int) {
    (spec_row(coord.1 as int, n as int), spec_col(coord.0 as int, n as int))
}

/// Whether both parts of `coord` lie in `-n / 2 .. n / 2`.
pub open spec fn in_range(coord: (i32, i32), n: usize) -> bool {
    &&& -(n as int / 2) <= coord.0 < n as int / 2
    &&& -(n as int / 2) <= coord.1 < n as int / 2
}

/// Whether `low` and `high` are the one pair of in-range coordinates that the
/// clamp folds together: on a board of even size the row of `y == -n / 2` lies
/// one past the last row and is clamped onto the row of `y == -n / 2 + 1`.
pub open spec fn folded_on_last_row(low: (i32, i32), high: (i32, i32), n: usize) -> bool {
    &&& n as int % 2 == 0
    &&& low.0 == high.0
    &&& low.1 == -(n as int / 2)
    &&& high.1 == -(n as int / 2) + 1
}

/// Every coordinate, in range or not, maps to a cell of a board that has cells.
pub proof fn lemma_index_in_bounds(coord: (i32, i32), n: usize)
    requires
        n > 0,
    ensures
        0 <= spec_index(coord, n).0 < n,
        0 <= spec_index(coord, n).1 < n,
{
}

/// Increasing `x` never decreases the column.
pub proof fn lemma_col_monotonic(a: (i32, i32), b: (i32, i32), n: usize)
    requires
        a.0 <= b.0,
    ensures
        spec_index(a, n).1 <= spec_index(b, n).1,
{
}

/// Increasing `y` never increases the row.
pub proof fn lemma_row_antitonic(a: (i32, i32), b: (i32, i32), n: usize)
    requires
        a.1 <= b.1,
    ensures
        spec_index(a, n).0 >= spec_index(b, n).0,
{
}

/// Two in-range coordinates that map to one cell are equal, unless they are the
/// pair that the clamp folds onto the last row of an even-sized board.
pub proof fn lemma_index_unique(a: (i32, i32), b: (i32, i32), n: usize)
    requires
        in_range(a, n),
        in_range(b, n),
        !folded_on_last_row(a, b, n),
        !folded_on_last_row(b, a, n),
        spec_index(a, n) == spec_index(b, n),
    ensures
        a == b,
{
}

/// The pair left out of `lemma_index_unique` does share a cell.
pub proof fn lemma_folded_pair_shares_cell(a: (i32, i32), b: (i32, i32), n: usize)
    requires
        folded_on_last_row(a, b, n),
    ensures
        spec_index(a, n) == spec_index(b, n),
{
}

/// The origin maps to the center cell of a board that has cells.
pub proof fn lemma_origin_is_center(n: usize)
    requires
        n > 0,
    ensures
        spec_index((0, 0), n) == (n as int / 2, n as int / 2),
{
}

/// `center + delta` clamped into `0 ..= n - 1`, for `center == n / 2`.
fn clamp_offset(center: usize, delta: i64, n: usize) -> (r: usize)
    requires
        center == n / 2,
        -0x8000_0000 <= delta <= 0x8000_0000,
    ensures
        r == clamp_to_board(center + delta, n as int),
{
    if n == 0 {
        return 0;
    }
    if delta < 0 {
        let back: usize = (-delta) as usize;
        if back > center {
            0
        } else {
            center - back
        }
    } else {
        let forth: usize = delta as usize;
        if forth >= n - center {
            n - 1
        } else {
            center + forth
        }
    }
}

/// Maps an origin-centered axial coordinate `(x, y)` to the `(row, column)` of a
/// square board of size `n`. Coordinates off the board are clamped to the nearest
/// edge or corner; on a board without cells the result is `(0, 0)`.
pub fn pos_to_matrix_index(coord: (i32, i32), n: usize) -> (cell: (usize, usize))
    ensures
        (cell.0 as int, cell.1 as int) == spec_index(coord, n),
        n > 0 ==> cell.0 < n && cell.1 < n,
{
    let center: usize = n / 2;
    let j: usize = clamp_offset(center, coord.0 as i64, n);
    let i: usize = clamp_offset(center, -(coord.1 as i64), n);
    (i, j)
}

/// The square board. A cell is empty or holds the number of a placed tile: its
/// place in the list of tiles that the board was assembled from.
#[derive(Debug, PartialEq, Eq)]
pub struct Board {
    cells: Vec<Vec<Option<usize>>>,
}

impl Board {
    /// The board is square: it has as many rows as each row has cells.
    pub closed spec fn wf(self) -> bool {
        forall|row: int|
            0 <= row < self.cells@.len() ==> (#[trigger] self.cells@[row])@.len()
                == self.cells@.len()
    }

    /// The number of rows, which is the number of columns.
    pub closed spec fn spec_size(self) -> nat {
        self.cells@.len()
    }

    /// What the cell in row `row` and column `col` holds; `None` for an empty
    /// cell and for a place off the board.
    pub closed spec fn spec_cell(self, row: int, col: int) -> Option<usize> {
        if 0 <= row < self.cells@.len() && 0 <= col < self.cells@[row]@.len() {
            self.cells@[row]@[col]
        } else {
            None
        }
    }

    /// A board of `n` rows and `n` columns of empty cells.
    pub(crate) fn empty(n: usize) -> (board: Board)
        ensures
            board.wf(),
            board.spec_size() == n,
            forall|row: int, col: int| board.spec_cell(row, col) is None,
    {
        let mut cells: Vec<Vec<Option<usize>>> = Vec::new();
        let mut row: usize = 0;
        while row < n
            invariant
                row <= n,
                cells@.len() == row,
                forall|r: int| 0 <= r < row ==> (#[trigger] cells@[r])@.len() == n,
                forall|r: int, c: int|
                    0 <= r < row && 0 <= c < n ==> (#[trigger] cells@[r]@[c]) is None,
            decreases n - row,
        {
            let mut line: Vec<Option<usize>> = Vec::new();
            let mut col: usize = 0;
            while col < n
                invariant
                    col <= n,
                    line@.len() == col,
                    forall|c: int| 0 <= c < col ==> (#[trigger] line@[c]) is None,
                decreases n - col,
            {
                line.push(None);
                col += 1;
            }
            cells.push(line);
            row += 1;
        }
        Board { cells }
    }

    /// Puts tile `tile` into the cell in row `row` and column `col`.
    pub(crate) fn set(&mut self, row: usize, col: usize, tile: usize)
        requires
            old(self).wf(),
            row < old(self).spec_size(),
            col < old(self).spec_size(),
        ensures
            final(self).wf(),
            final(self).spec_size() == old(self).spec_size(),
            final(self).spec_cell(row as int, col as int) == Some(tile),
            forall|r: int, c: int|
                r != row || c != col ==> final(self).spec_cell(r, c) == old(self).spec_cell(r, c),
    {
        self.cells[row][col] = Some(tile);
    }

    /// The number of rows, which is the number of columns.
    pub fn size(&self) -> (n: usize)
        ensures
            n == self.spec_size(),
    {
        self.cells.len()
    }

    /// What the cell in row `row` and column `col` holds: the number of the tile
    /// placed there, or `None` for an empty cell and for a place off the board.
    pub fn get(&self, row: usize, col: usize) -> (tile: Option<usize>)
        ensures
            tile == self.spec_cell(row as int, col as int),
    {
        if row < self.cells.len() && col < self.cells[row].len() {
            self.cells[row][col]
        } else {
            None
        }
    }
}

} // verus!
