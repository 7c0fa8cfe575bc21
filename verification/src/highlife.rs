use vstd::prelude::*;

use crate::cell::CellState;
use crate::grid::SimulationState;
use crate::util::count_cells;
use crate::util::spec_count_cells;

verus! {

/// The next state of a cell under HighLife: Conway's rule, except that
/// six live neighbors also make the cell live.
pub open spec fn spec_highlife_next(g: Seq<Seq<CellState>>, row: int, column: int) -> CellState {
    let live = spec_count_cells(g, row, column, CellState::Alive);
    if live == 3 || live == 6 {
        CellState::Alive
    } else if live < 2 || live > 3 {
        CellState::Dead
    } else {
        g[row][column]
    }
}

/// The HighLife variation of the Game of Life.
pub fn get_highlife_next_cell_state(state: &SimulationState, row: usize, column: usize) -> (r:
    CellState)
    requires
        state.wf(),
        row < state@.len(),
        column < state@.len(),
    ensures
        r == spec_highlife_next(state@, row as int, column as int),
{
    let live_cell_count = count_cells(state, row, column, CellState::Alive);

    // birth on three as in Conway, and also on six
    if live_cell_count == 3 || live_cell_count == 6 {
        return CellState::Alive;
    }

    // underpopulated or overpopulated
    if live_cell_count < 2 || live_cell_count > 3 {
        return CellState::Dead;
    }

    // unchanged otherwise
    state.get(row, column)
}

/// A cell with exactly six live neighbors is live one step later,
/// whatever it held before.
pub proof fn lemma_highlife_birth_on_six(g: Seq<Seq<CellState>>, row: int, column: int)
    requires
        spec_count_cells(g, row, column, CellState::Alive) == 6,
    ensures
        spec_highlife_next(g, row, column) == CellState::Alive,
{
}

/// A cell with exactly four live neighbors is dead one step later,
/// whatever it held before.
pub proof fn lemma_highlife_death_on_four(g: Seq<Seq<CellState>>, row: int, column: int)
    requires
        spec_count_cells(g, row, column, CellState::Alive) == 4,
    ensures
        spec_highlife_next(g, row, column) == CellState::Dead,
{
}

} // verus!
