use vstd::prelude::*;

use crate::cell::spec_cell_code;
use crate::cell::CellState;
use crate::grid::SimulationState;
use crate::util::get_cell_with_bounds_check;
use crate::util::spec_cell_lookup;

verus! {

/// The one-byte feature a cell lookup contributes: the cell's code, or
/// zero when the coordinates name no cell.
pub open spec fn spec_cell_to_u8(
    g: Seq<Seq<CellState>>,
    row: Option<usize>,
    column: Option<usize>,
) -> u8 {
    match spec_cell_lookup(g, row, column) {
        Some(c) => spec_cell_code(c),
        None => 0,
    }
}

/// The feature vector the parity model reads for a cell: the codes of
/// its left, right, upper and lower neighbors and of the cell itself.
pub open spec fn spec_features(g: Seq<Seq<CellState>>, row: usize, column: usize) -> Seq<u8> {
    seq![
        spec_cell_to_u8(g, Some(row), if column > 0 { Some((column - 1) as usize) } else { None }),
        spec_cell_to_u8(
            g,
            Some(row),
            if column < usize::MAX { Some((column + 1) as usize) } else { None },
        ),
        spec_cell_to_u8(g, if row > 0 { Some((row - 1) as usize) } else { None }, Some(column)),
        spec_cell_to_u8(
            g,
            if row < usize::MAX { Some((row + 1) as usize) } else { None },
            Some(column),
        ),
        spec_cell_to_u8(g, Some(row), Some(column)),
    ]
}

/// What the parity model predicts from a feature vector: alive on an
/// even feature sum, dead on an odd one.
pub open spec fn spec_predict(features: Seq<u8>) -> CellState {
    if spec_feature_sum(features) % 2 == 0 {
        CellState::Alive
    } else {
        CellState::Dead
    }
}

/// The sum of a feature vector.
pub open spec fn spec_feature_sum(features: Seq<u8>) -> int
    decreases features.len(),
{
    if features.len() == 0 {
        0
    } else {
        spec_feature_sum(features.drop_last()) + features.last()
    }
}

/// The code of the cell at the given optional coordinates, or zero for
/// an absent or off-board coordinate.
pub fn cell_to_u8(state: &SimulationState, row: Option<usize>, column: Option<usize>) -> (r: u8)
    requires
        state.wf(),
    ensures
        r == spec_cell_to_u8(state@, row, column),
{
    let maybe_state: Option<CellState> = get_cell_with_bounds_check(state, row, column);

    match maybe_state {
        Some(cell_state) => cell_state.code(),
        None => 0,
    }
}

/// The five feature bytes the parity model reads around a cell.
fn state_to_model_vec(state: &SimulationState, row: usize, column: usize) -> (r: [u8; 5])
    requires
        state.wf(),
    ensures
        r@ == spec_features(state@, row, column),
{
    let left = cell_to_u8(state, Some(row), column.checked_sub(1));
    let right = cell_to_u8(state, Some(row), column.checked_add(1));
    let up = cell_to_u8(state, row.checked_sub(1), Some(column));
    let down = cell_to_u8(state, row.checked_add(1), Some(column));

    let center = cell_to_u8(state, Some(row), Some(column));

    let r = [left, right, up, down, center];
    proof {
        assert(r@ =~= spec_features(state@, row, column));
    }
    r
}

/// The parity model's prediction from a feature vector.
fn predict(features: [u8; 5]) -> (r: CellState)
    ensures
        r == spec_predict(features@),
{
    let sum: u32 = features[0] as u32 + features[1] as u32 + features[2] as u32 + features[3] as u32
        + features[4] as u32;
    proof {
        assert(features@ =~= seq![features@[0], features@[1], features@[2], features@[3], features@[4]]);
        assert(spec_feature_sum(features@) == features@[0] + features@[1] + features@[2]
            + features@[3] + features@[4]) by {
            reveal_with_fuel(spec_feature_sum, 6);
        }
    }
    if sum % 2 == 0 {
        CellState::Alive
    } else {
        CellState::Dead
    }
}

/// The toy per-cell model for the tree mode: predicts the next cell
/// state from the parity of the feature bytes around the cell.
pub fn predict_tree_next_cell_state(state: &SimulationState, row: usize, column: usize) -> (r:
    CellState)
    requires
        state.wf(),
    ensures
        r == spec_predict(spec_features(state@, row, column)),
{
    let encoded = state_to_model_vec(state, row, column);

    predict(encoded)
}

} // verus!
