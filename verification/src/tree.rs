use vstd::prelude::*;

use crate::cell::CellState;
use crate::grid::SimulationState;
use crate::trainer::lemma_best_action_legal;
use crate::trainer::lemma_trunk_stays_on_board;
use crate::trainer::spec_apply_action_board;
use crate::trainer::spec_best_action;
use crate::trainer::spec_descriptor;
use crate::trainer::AgentAction;
use crate::trainer::QEntry;
use crate::trainer::QModel;

verus! {

/// The tree agent's runtime state: its position on the board and the
/// action it took on the previous step (none at the start, or after a
/// step on which no action was preferred).
#[derive(Clone, Copy, Debug, PartialEq, Eq)]
pub struct AgentState {
    pub row: usize,
    pub column: usize,
    pub prev_move: Option<AgentAction>,
}

/// The agent's defined start state on a board of dimension `n`: the
/// bottom-center cell, with no previous action.
pub open spec fn spec_initial_agent(n: usize) -> AgentState {
    AgentState { row: (n - 1) as usize, column: n / 2, prev_move: None }
}

/// The exec copy of the defined start state.
pub fn initial_agent(n: usize) -> (r: AgentState)
    requires
        n >= 1,
    ensures
        r == spec_initial_agent(n),
{
    AgentState { row: n - 1, column: n / 2, prev_move: None }
}

/// The agent after a step that chose `chosen`: the trunk action moves
/// the agent one row up, and every step records the choice as the
/// previous move.
pub open spec fn spec_agent_after(agent: AgentState, chosen: Option<AgentAction>) -> AgentState {
    match chosen {
        Some(AgentAction::ToTrunk) => AgentState {
            row: (agent.row - 1) as usize,
            column: agent.column,
            prev_move: Some(AgentAction::ToTrunk),
        },
        Some(a) => AgentState { row: agent.row, column: agent.column, prev_move: Some(a) },
        None => AgentState { row: agent.row, column: agent.column, prev_move: None },
    }
}

/// What one whole tree step yields from the current board `g` and the
/// agent: the policy's choice at the agent's descriptor, applied to the
/// board, together with the updated agent.
pub open spec fn spec_tree_step(
    entries: Seq<QEntry>,
    g: Seq<Seq<CellState>>,
    agent: AgentState,
) -> (Seq<Seq<CellState>>, AgentState) {
    let chosen = spec_best_action(
        entries,
        g.len() as int,
        spec_descriptor(g, agent.row, agent.column),
    );
    let board = match chosen {
        Some(a) => spec_apply_action_board(g, agent.row as int, agent.column as int, a),
        None => g,
    };
    (board, spec_agent_after(agent, chosen))
}

/// Grow in a tree-like pattern: every cell but the one the agent is on
/// is left for the caller's copy pass; at the agent's cell the policy
/// is consulted and the chosen action is applied to the buffer and to
/// the agent.
pub fn get_tree_next_cell_state(
    state: &SimulationState,
    buffer: &mut SimulationState,
    row: usize,
    column: usize,
    model: &QModel,
    agent: &mut AgentState,
)
    requires
        state.wf(),
        state@.len() >= 2,
        old(buffer).wf(),
        old(buffer)@.len() == state@.len(),
        row < state@.len(),
        column < state@.len(),
        old(agent).row < state@.len(),
        old(agent).column < state@.len(),
    ensures
        final(buffer).wf(),
        final(buffer)@.len() == state@.len(),
        final(agent).column == old(agent).column,
        final(agent).row < state@.len(),
        (row != old(agent).row || column != old(agent).column) ==> {
            &&& final(buffer)@ == old(buffer)@
            &&& *final(agent) == *old(agent)
        },
        (row == old(agent).row && column == old(agent).column) ==> ({
            let chosen = spec_best_action(
                model@,
                state@.len() as int,
                spec_descriptor(state@, old(agent).row, old(agent).column),
            );
            &&& final(buffer)@ == (match chosen {
                Some(a) => spec_apply_action_board(
                    old(buffer)@,
                    old(agent).row as int,
                    old(agent).column as int,
                    a,
                ),
                None => old(buffer)@,
            })
            &&& *final(agent) == spec_agent_after(*old(agent), chosen)
        }),
{
    // ignore all cells besides the one the agent is on at the moment
    if row != agent.row || column != agent.column {
        return;
    }

    // for the cell the agent is on, consult the policy and apply its
    // choice to the buffer and to the agent
    let n = state.dimension();
    let action = model.get_next_action(state, agent.row, agent.column, agent.prev_move);

    proof {
        lemma_best_action_legal(
            model@,
            n as int,
            spec_descriptor(state@, agent.row, agent.column),
        );
        lemma_trunk_stays_on_board(
            n as int,
            spec_descriptor(state@, agent.row, agent.column),
        );
    }

    if let Some(action) = action {
        match action {
            AgentAction::ToTrunk => {
                buffer.set(agent.row, agent.column, CellState::Dying);
                agent.row = agent.row - 1;
            },
            AgentAction::SproutLeaves => {
                let ghost buf0 = buffer@;
                if agent.column > 0 {
                    buffer.set(agent.row, agent.column - 1, CellState::Alive);
                }
                if agent.column < n - 1 {
                    buffer.set(agent.row, agent.column + 1, CellState::Alive);
                }
                buffer.set(agent.row, agent.column, CellState::Alive);
                proof {
                    assert(buffer@ =~~= spec_apply_action_board(
                        buf0,
                        agent.row as int,
                        agent.column as int,
                        AgentAction::SproutLeaves,
                    ));
                }
            },
            AgentAction::DoNothing => {
                // no-op
            },
        }
        agent.prev_move = Some(action);
    } else {
        agent.prev_move = None;
    }
}

/// From any on-board position on a board with at least two rows, one
/// tree step keeps the agent on the board: it never moves above row
/// zero and never changes (hence never leaves) its column.
pub proof fn lemma_tree_agent_stays_on_board(
    entries: Seq<QEntry>,
    g: Seq<Seq<CellState>>,
    agent: AgentState,
)
    requires
        g.len() >= 2,
        agent.row < g.len(),
        agent.column < g.len(),
    ensures
        spec_tree_step(entries, g, agent).1.row < g.len(),
        spec_tree_step(entries, g, agent).1.column == agent.column,
        agent.row == 0 ==> spec_tree_step(entries, g, agent).1.row == 0,
{
    let d = spec_descriptor(g, agent.row, agent.column);
    lemma_best_action_legal(entries, g.len() as int, d);
    lemma_trunk_stays_on_board(g.len() as int, d);
}

} // verus!
