use vstd::prelude::*;

use crate::cell::CellState;
use crate::grid::SimulationState;

verus! {

/// 1 when the condition holds, 0 otherwise; used to sum neighbor tests.
pub open spec fn ind(b: bool) -> int {
    if b {
        1
    } else {
        0
    }
}

/// Whether `row`, `column` lies on a board of dimension `n`.
pub open spec fn on_board(n: int, row: int, column: int) -> bool {
    0 <= row < n && 0 <= column < n
}

/// The cell at `row`, `column` exists on the board and holds `target`.
pub open spec fn neighbor_matches(
    g: Seq<Seq<CellState>>,
    row: int,
    column: int,
    target: CellState,
) -> bool {
    on_board(g.len() as int, row, column) && g[row][column] == target
}

/// How many of the eight Moore neighbors of `row`, `column` hold
/// `target`. Neighbors that fall off the board are never counted.
pub open spec fn spec_count_cells(
    g: Seq<Seq<CellState>>,
    row: int,
    column: int,
    target: CellState,
) -> int {
    ind(neighbor_matches(g, row - 1, column, target)) + ind(
        neighbor_matches(g, row - 1, column - 1, target),
    ) + ind(neighbor_matches(g, row - 1, column + 1, target)) + ind(
        neighbor_matches(g, row + 1, column, target),
    ) + ind(neighbor_matches(g, row + 1, column - 1, target)) + ind(
        neighbor_matches(g, row + 1, column + 1, target),
    ) + ind(neighbor_matches(g, row, column - 1, target)) + ind(
        neighbor_matches(g, row, column + 1, target),
    )
}

/// How many of the eight Moore offsets around `row`, `column` fall off a
/// board of dimension `n`.
pub open spec fn spec_off_grid_count(n: int, row: int, column: int) -> int {
    ind(!on_board(n, row - 1, column)) + ind(!on_board(n, row - 1, column - 1)) + ind(
        !on_board(n, row - 1, column + 1),
    ) + ind(!on_board(n, row + 1, column)) + ind(!on_board(n, row + 1, column - 1)) + ind(
        !on_board(n, row + 1, column + 1),
    ) + ind(!on_board(n, row, column - 1)) + ind(!on_board(n, row, column + 1))
}

/// `row`, `column` and `r`, `c` are distinct cells at Chebyshev distance
/// one: `r`, `c` is one of the eight Moore offsets of `row`, `column`.
pub open spec fn is_moore_neighbor(row: int, column: int, r: int, c: int) -> bool {
    &&& row - 1 <= r <= row + 1
    &&& column - 1 <= c <= column + 1
    &&& !(r == row && c == column)
}

/// The result of looking a cell up by optional coordinates: the cell's
/// state when both coordinates are given and on the board, absent
/// otherwise.
pub open spec fn spec_cell_lookup(
    g: Seq<Seq<CellState>>,
    row: Option<usize>,
    column: Option<usize>,
) -> Option<CellState> {
    match (row, column) {
        (Some(r), Some(c)) => if on_board(g.len() as int, r as int, c as int) {
            Some(g[r as int][c as int])
        } else {
            None
        },
        _ => None,
    }
}

/// Gets the state of the cell at the given coords while performing
/// bounds checks on row and column; an absent or off-board coordinate
/// yields no cell.
pub fn get_cell_with_bounds_check(
    state: &SimulationState,
    row: Option<usize>,
    column: Option<usize>,
) -> (r: Option<CellState>)
    requires
        state.wf(),
    ensures
        r == spec_cell_lookup(state@, row, column),
{
    let r = match row {
        Some(r) => r,
        None => {
            return None;
        },
    };
    let c = match column {
        Some(c) => c,
        None => {
            return None;
        },
    };
    let n = state.dimension();
    if r < n && c < n {
        Some(state.get(r, c))
    } else {
        None
    }
}

/// Computes the count of cells holding `target` among the up-to-eight
/// Moore neighbors of the given cell; off-board neighbors contribute
/// nothing.
#[verifier::rlimit(60)]
pub fn count_cells(state: &SimulationState, row: usize, column: usize, target: CellState) -> (r:
    u8)
    requires
        state.wf(),
        row < state@.len(),
        column < state@.len(),
    ensures
        r as int == spec_count_cells(state@, row as int, column as int, target),
        r <= 8,
{
    let ghost g = state@;
    let ghost ro = row as int;
    let ghost co = column as int;
    let n = state.dimension();
    let mut count: u8 = 0;

    // up
    if row > 0 && state.get(row - 1, column) == target {
        count = count + 1;
    }
    assert(count as int == ind(neighbor_matches(g, ro - 1, co, target)));
    // up left
    if row > 0 && column > 0 && state.get(row - 1, column - 1) == target {
        count = count + 1;
    }
    assert(count as int == ind(neighbor_matches(g, ro - 1, co, target)) + ind(
        neighbor_matches(g, ro - 1, co - 1, target),
    ));
    // up right
    if row > 0 && column < n - 1 && state.get(row - 1, column + 1) == target {
        count = count + 1;
    }
    assert(count as int == ind(neighbor_matches(g, ro - 1, co, target)) + ind(
        neighbor_matches(g, ro - 1, co - 1, target),
    ) + ind(neighbor_matches(g, ro - 1, co + 1, target)));
    // down
    if row < n - 1 && state.get(row + 1, column) == target {
        count = count + 1;
    }
    assert(count as int == ind(neighbor_matches(g, ro - 1, co, target)) + ind(
        neighbor_matches(g, ro - 1, co - 1, target),
    ) + ind(neighbor_matches(g, ro - 1, co + 1, target)) + ind(
        neighbor_matches(g, ro + 1, co, target),
    ));
    // down left
    if row < n - 1 && column > 0 && state.get(row + 1, column - 1) == target {
        count = count + 1;
    }
    assert(count as int == ind(neighbor_matches(g, ro - 1, co, target)) + ind(
        neighbor_matches(g, ro - 1, co - 1, target),
    ) + ind(neighbor_matches(g, ro - 1, co + 1, target)) + ind(
        neighbor_matches(g, ro + 1, co, target),
    ) + ind(neighbor_matches(g, ro + 1, co - 1, target)));
    // down right
    if row < n - 1 && column < n - 1 && state.get(row + 1, column + 1) == target {
        count = count + 1;
    }
    assert(count as int == ind(neighbor_matches(g, ro - 1, co, target)) + ind(
        neighbor_matches(g, ro - 1, co - 1, target),
    ) + ind(neighbor_matches(g, ro - 1, co + 1, target)) + ind(
        neighbor_matches(g, ro + 1, co, target),
    ) + ind(neighbor_matches(g, ro + 1, co - 1, target)) + ind(
        neighbor_matches(g, ro + 1, co + 1, target),
    ));
    // left
    if column > 0 && state.get(row, column - 1) == target {
        count = count + 1;
    }
    assert(count as int == ind(neighbor_matches(g, ro - 1, co, target)) + ind(
        neighbor_matches(g, ro - 1, co - 1, target),
    ) + ind(neighbor_matches(g, ro - 1, co + 1, target)) + ind(
        neighbor_matches(g, ro + 1, co, target),
    ) + ind(neighbor_matches(g, ro + 1, co - 1, target)) + ind(
        neighbor_matches(g, ro + 1, co + 1, target),
    ) + ind(neighbor_matches(g, ro, co - 1, target)));
    // right
    if column < n - 1 && state.get(row, column + 1) == target {
        count = count + 1;
    }
    assert(count as int == spec_count_cells(g, ro, co, target));

    count
}

/// On a board where every on-board Moore neighbor of the cell holds
/// `target`, the neighbor count is eight minus the number of offsets
/// that fall off the board.
pub proof fn lemma_count_cells_full(
    g: Seq<Seq<CellState>>,
    row: int,
    column: int,
    target: CellState,
)
    requires
        on_board(g.len() as int, row, column),
        forall|r: int, c: int|
            #[trigger] is_moore_neighbor(row, column, r, c) && on_board(g.len() as int, r, c)
                ==> g[r][c] == target,
    ensures
        spec_count_cells(g, row, column, target) == 8 - spec_off_grid_count(
            g.len() as int,
            row,
            column,
        ),
{
    assert(is_moore_neighbor(row, column, row - 1, column));
    assert(is_moore_neighbor(row, column, row - 1, column - 1));
    assert(is_moore_neighbor(row, column, row - 1, column + 1));
    assert(is_moore_neighbor(row, column, row + 1, column));
    assert(is_moore_neighbor(row, column, row + 1, column - 1));
    assert(is_moore_neighbor(row, column, row + 1, column + 1));
    assert(is_moore_neighbor(row, column, row, column - 1));
    assert(is_moore_neighbor(row, column, row, column + 1));
}

/// On a board where no cell holds `target`, the neighbor count of any
/// cell is zero.
pub proof fn lemma_count_cells_none(
    g: Seq<Seq<CellState>>,
    row: int,
    column: int,
    target: CellState,
)
    requires
        forall|r: int, c: int|
            #[trigger] is_moore_neighbor(row, column, r, c) && on_board(g.len() as int, r, c)
                ==> g[r][c] != target,
    ensures
        spec_count_cells(g, row, column, target) == 0,
{
    assert(is_moore_neighbor(row, column, row - 1, column));
    assert(is_moore_neighbor(row, column, row - 1, column - 1));
    assert(is_moore_neighbor(row, column, row - 1, column + 1));
    assert(is_moore_neighbor(row, column, row + 1, column));
    assert(is_moore_neighbor(row, column, row + 1, column - 1));
    assert(is_moore_neighbor(row, column, row + 1, column + 1));
    assert(is_moore_neighbor(row, column, row, column - 1));
    assert(is_moore_neighbor(row, column, row, column + 1));
}

} // verus!
