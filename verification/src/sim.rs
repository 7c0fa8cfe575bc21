use vstd::prelude::*;

use crate::brain::get_brain_next_cell_state;
use crate::brain::lemma_brain_alive_starts_dying;
use crate::brain::lemma_brain_dying_dies;
use crate::brain::spec_brain_next;
use crate::cell::CellState;
use crate::cell::SimulationMode;
use crate::conway::get_conway_next_cell_state;
use crate::conway::spec_conway_next;
use crate::grid::spec_board_count;
use crate::grid::SimulationState;
use crate::highlife::get_highlife_next_cell_state;
use crate::highlife::spec_highlife_next;
use crate::rng::cell_marked;
use crate::rng::spec_cell_marked;
use crate::seeds::get_seeds_next_cell_state;
use crate::seeds::spec_seeds_next;
use crate::trainer::QModel;
use crate::tree::get_tree_next_cell_state;
use crate::tree::initial_agent;
use crate::tree::spec_initial_agent;
use crate::tree::spec_tree_step;
use crate::tree::AgentState;

verus! {

/// The next state of the cell at `row`, `column` under `mode`'s
/// per-cell rule. The tree mode changes only the agent's cell, which
/// the stepper handles separately, so its per-cell rule is a copy.
pub open spec fn spec_next_cell(
    mode: SimulationMode,
    g: Seq<Seq<CellState>>,
    row: int,
    column: int,
) -> CellState {
    match mode {
        SimulationMode::ConwaysLife => spec_conway_next(g, row, column),
        SimulationMode::BriansBrain => spec_brain_next(g, row, column),
        SimulationMode::HighLife => spec_highlife_next(g, row, column),
        SimulationMode::Seeds => spec_seeds_next(g, row, column),
        SimulationMode::Tree => g[row][column],
    }
}

/// The whole board one step later under `mode`'s per-cell rule.
pub open spec fn spec_next_grid(mode: SimulationMode, g: Seq<Seq<CellState>>) -> Seq<
    Seq<CellState>,
> {
    Seq::new(g.len(), |i: int| Seq::new(g.len(), |j: int| spec_next_cell(mode, g, i, j)))
}

/// Per-cell dispatch over the fixed, closed set of rules.
pub fn get_next_cell_state(
    state: &SimulationState,
    row: usize,
    column: usize,
    mode: SimulationMode,
) -> (r: CellState)
    requires
        state.wf(),
        row < state@.len(),
        column < state@.len(),
    ensures
        r == spec_next_cell(mode, state@, row as int, column as int),
{
    match mode {
        SimulationMode::ConwaysLife => get_conway_next_cell_state(state, row, column),
        SimulationMode::BriansBrain => get_brain_next_cell_state(state, row, column),
        SimulationMode::HighLife => get_highlife_next_cell_state(state, row, column),
        SimulationMode::Seeds => get_seeds_next_cell_state(state, row, column),
        SimulationMode::Tree => state.get(row, column),
    }
}

/// Given the starting simulation state, update each cell of the buffer
/// under the selected rule. Under the tree mode the buffer becomes a
/// copy of the state with the agent's one chosen action applied, and
/// the agent is updated; the other modes leave the agent alone.
pub fn get_next_state(
    state: &SimulationState,
    buffer: &mut SimulationState,
    mode: SimulationMode,
    model: &QModel,
    agent: &mut AgentState,
)
    requires
        state.wf(),
        old(buffer)@.len() == state@.len(),
        mode == SimulationMode::Tree ==> {
            &&& state@.len() >= 2
            &&& old(buffer).wf()
            &&& old(agent).row < state@.len()
            &&& old(agent).column < state@.len()
        },
    ensures
        final(buffer).wf(),
        final(buffer)@.len() == state@.len(),
        mode != SimulationMode::Tree ==> {
            &&& final(buffer)@ == spec_next_grid(mode, state@)
            &&& *final(agent) == *old(agent)
        },
        mode == SimulationMode::Tree ==> {
            &&& final(buffer)@ == spec_tree_step(model@, state@, *old(agent)).0
            &&& *final(agent) == spec_tree_step(model@, state@, *old(agent)).1
            &&& final(agent).row < state@.len()
            &&& final(agent).column < state@.len()
        },
{
    let n = state.dimension();
    match mode {
        SimulationMode::Tree => {
            buffer.copy_from(state);
            let r = agent.row;
            let c = agent.column;
            get_tree_next_cell_state(state, buffer, r, c, model, agent);
        },
        _ => {
            let mut i: usize = 0;
            while i < n
                invariant
                    state.wf(),
                    n == state@.len(),
                    i <= n,
                    buffer@.len() == n,
                    forall|k: int|
                        0 <= k < i ==> (#[trigger] buffer@[k]) == Seq::new(
                            n as nat,
                            |j: int| spec_next_cell(mode, state@, k, j),
                        ),
                decreases n - i,
            {
                let mut row_vec: Vec<CellState> = Vec::new();
                let mut j: usize = 0;
                while j < n
                    invariant
                        state.wf(),
                        n == state@.len(),
                        i < n,
                        j <= n,
                        row_vec@.len() == j,
                        forall|k: int|
                            0 <= k < j ==> #[trigger] row_vec@[k] == spec_next_cell(
                                mode,
                                state@,
                                i as int,
                                k,
                            ),
                    decreases n - j,
                {
                    row_vec.push(get_next_cell_state(state, i, j, mode));
                    j = j + 1;
                }
                proof {
                    assert(row_vec@ =~= Seq::new(
                        n as nat,
                        |j: int| spec_next_cell(mode, state@, i as int, j),
                    ));
                }
                buffer.set_row(i, row_vec);
                i = i + 1;
            }
            proof {
                assert(buffer@ =~~= spec_next_grid(mode, state@));
            }
        },
    }
}

/// The all-dead board of dimension `n`.
pub open spec fn spec_clean_grid(n: nat) -> Seq<Seq<CellState>> {
    Seq::new(n, |i: int| Seq::new(n, |j: int| CellState::Dead))
}

/// A randomized board of dimension `n`: each cell alive exactly on a
/// one-in-`one_in` deterministic draw from `seed`, dead otherwise.
pub open spec fn spec_randomized_grid(n: nat, seed: u64, one_in: u64) -> Seq<Seq<CellState>> {
    Seq::new(
        n,
        |i: int|
            Seq::new(
                n,
                |j: int|
                    if spec_cell_marked(seed, one_in, i as u64, j as u64) {
                        CellState::Alive
                    } else {
                        CellState::Dead
                    },
            ),
    )
}

/// A fresh pair of state and buffer boards of equal dimension, every
/// cell dead.
pub fn get_clean_state(n: usize) -> (r: (SimulationState, SimulationState))
    requires
        n * n <= usize::MAX,
    ensures
        r.0@ == spec_clean_grid(n as nat),
        r.1@ == spec_clean_grid(n as nat),
        r.0.wf(),
        r.1.wf(),
{
    let state = SimulationState::new_filled(n, CellState::Dead);
    let buffer = SimulationState::new_filled(n, CellState::Dead);
    proof {
        assert(state@ =~~= spec_clean_grid(n as nat));
        assert(buffer@ =~~= spec_clean_grid(n as nat));
    }
    (state, buffer)
}

/// Clear both boards to all-dead and put the agent back at its defined
/// start.
pub fn reset_sim_state(
    state: &mut SimulationState,
    buffer: &mut SimulationState,
    agent: &mut AgentState,
)
    requires
        old(state).wf(),
        old(state)@.len() >= 1,
    ensures
        final(state)@ == spec_clean_grid(old(state)@.len()),
        final(buffer)@ == spec_clean_grid(old(state)@.len()),
        final(state).wf(),
        final(buffer).wf(),
        *final(agent) == spec_initial_agent(old(state)@.len() as usize),
{
    let n = state.dimension();
    let (s, b) = get_clean_state(n);
    *state = s;
    *buffer = b;
    *agent = initial_agent(n);
}

/// Clear the boards and the agent, then mark cells of the state alive
/// on a deterministic one-in-`one_in` draw per cell from the caller's
/// seed.
pub fn randomize_sim_state(
    state: &mut SimulationState,
    buffer: &mut SimulationState,
    agent: &mut AgentState,
    seed: u64,
    one_in: u64,
)
    requires
        old(state).wf(),
        old(state)@.len() >= 1,
        one_in >= 1,
    ensures
        final(state)@ == spec_randomized_grid(old(state)@.len(), seed, one_in),
        final(state).wf(),
        final(buffer)@ == spec_clean_grid(old(state)@.len()),
        final(buffer).wf(),
        *final(agent) == spec_initial_agent(old(state)@.len() as usize),
{
    reset_sim_state(state, buffer, agent);
    let n = state.dimension();
    let mut i: usize = 0;
    while i < n
        invariant
            n == state@.len(),
            i <= n,
            state@.len() * state@.len() <= usize::MAX,
            one_in >= 1,
            forall|k: int|
                i <= k < n ==> (#[trigger] state@[k]) == Seq::new(
                    n as nat,
                    |j: int| CellState::Dead,
                ),
            forall|k: int|
                0 <= k < i ==> (#[trigger] state@[k]) == Seq::new(
                    n as nat,
                    |j: int|
                        if spec_cell_marked(seed, one_in, k as u64, j as u64) {
                            CellState::Alive
                        } else {
                            CellState::Dead
                        },
                ),
        decreases n - i,
    {
        let mut row_vec: Vec<CellState> = Vec::new();
        let mut j: usize = 0;
        while j < n
            invariant
                j <= n,
                one_in >= 1,
                row_vec@.len() == j,
                forall|k: int|
                    0 <= k < j ==> #[trigger] row_vec@[k] == (if spec_cell_marked(
                        seed,
                        one_in,
                        i as u64,
                        k as u64,
                    ) {
                        CellState::Alive
                    } else {
                        CellState::Dead
                    }),
            decreases n - j,
        {
            if cell_marked(seed, one_in, i as u64, j as u64) {
                row_vec.push(CellState::Alive);
            } else {
                row_vec.push(CellState::Dead);
            }
            j = j + 1;
        }
        proof {
            assert(row_vec@ =~= Seq::new(
                n as nat,
                |k: int|
                    if spec_cell_marked(seed, one_in, i as u64, k as u64) {
                        CellState::Alive
                    } else {
                        CellState::Dead
                    },
            ));
        }
        state.set_row(i, row_vec);
        i = i + 1;
    }
    proof {
        assert(state@ =~~= spec_randomized_grid(n as nat, seed, one_in));
    }
}

/// Switch the active rule: clear and re-randomize the boards, reset the
/// agent, and record the new mode.
pub fn select_sim_mode(
    state: &mut SimulationState,
    buffer: &mut SimulationState,
    agent: &mut AgentState,
    old_mode: &mut SimulationMode,
    new_mode: SimulationMode,
    seed: u64,
    one_in: u64,
)
    requires
        old(state).wf(),
        old(state)@.len() >= 1,
        one_in >= 1,
    ensures
        final(state)@ == spec_randomized_grid(old(state)@.len(), seed, one_in),
        final(state).wf(),
        final(buffer)@ == spec_clean_grid(old(state)@.len()),
        final(buffer).wf(),
        *final(agent) == spec_initial_agent(old(state)@.len() as usize),
        *final(old_mode) == new_mode,
{
    randomize_sim_state(state, buffer, agent, seed, one_in);
    *old_mode = new_mode;
}

/// One whole simulation step: fill the buffer from the current state
/// under `mode`, commit the buffer to the state, and report how many
/// cells are then alive. The buffer is fully populated before it
/// replaces the state, so no rule ever reads a partially updated board.
pub fn step(
    state: &mut SimulationState,
    buffer: &mut SimulationState,
    mode: SimulationMode,
    model: &QModel,
    agent: &mut AgentState,
) -> (live: usize)
    requires
        old(state).wf(),
        old(buffer)@.len() == old(state)@.len(),
        mode == SimulationMode::Tree ==> {
            &&& old(state)@.len() >= 2
            &&& old(buffer).wf()
            &&& old(agent).row < old(state)@.len()
            &&& old(agent).column < old(state)@.len()
        },
    ensures
        final(state).wf(),
        final(buffer)@ == final(state)@,
        mode != SimulationMode::Tree ==> {
            &&& final(state)@ == spec_next_grid(mode, old(state)@)
            &&& *final(agent) == *old(agent)
        },
        mode == SimulationMode::Tree ==> {
            &&& final(state)@ == spec_tree_step(model@, old(state)@, *old(agent)).0
            &&& *final(agent) == spec_tree_step(model@, old(state)@, *old(agent)).1
            &&& final(agent).row < final(state)@.len()
            &&& final(agent).column < final(state)@.len()
        },
        live as int == spec_board_count(final(state)@, CellState::Alive),
{
    get_next_state(state, buffer, mode, model, agent);
    state.copy_from(buffer);
    state.count_matching(CellState::Alive)
}

/// `s.push(x)` holds `y` exactly when `s` holds `y` or `y` is `x`.
proof fn lemma_push_contains(s: Seq<(usize, usize)>, x: (usize, usize), y: (usize, usize))
    ensures
        s.push(x).contains(y) <==> (s.contains(y) || y == x),
{
    if s.contains(y) {
        let l = choose|l: int| 0 <= l < s.len() && s[l] == y;
        assert(s.push(x)[l] == y);
    }
    assert(s.push(x)[s.len() as int] == x);
    if s.push(x).contains(y) {
        let l = choose|l: int| 0 <= l < s.push(x).len() && s.push(x)[l] == y;
        if l < s.len() {
            assert(s[l] == y);
        }
    }
}

/// Mark every listed coordinate's cell alive; coordinates off the board
/// are ignored. Used to translate a pointer interaction into a small
/// cluster of activated cells.
pub fn set_cell_alive_batch(state: &mut SimulationState, coordinates: &Vec<(usize, usize)>)
    requires
        old(state).wf(),
    ensures
        final(state).wf(),
        final(state)@.len() == old(state)@.len(),
        forall|i: int, j: int|
            0 <= i < old(state)@.len() && 0 <= j < old(state)@.len()
                ==> #[trigger] final(state)@[i][j] == (if coordinates@.contains(
                (i as usize, j as usize),
            ) {
                CellState::Alive
            } else {
                old(state)@[i][j]
            }),
{
    let n = state.dimension();
    let mut k: usize = 0;
    while k < coordinates.len()
        invariant
            state.wf(),
            n == state@.len(),
            n == old(state)@.len(),
            k <= coordinates@.len(),
            forall|i: int, j: int|
                0 <= i < n && 0 <= j < n ==> #[trigger] state@[i][j] == (if coordinates@.take(
                    k as int,
                ).contains((i as usize, j as usize)) {
                    CellState::Alive
                } else {
                    old(state)@[i][j]
                }),
        decreases coordinates@.len() - k,
    {
        let (r, c) = coordinates[k];
        let ghost prev = state@;
        if r < n && c < n {
            state.set(r, c, CellState::Alive);
        }
        proof {
            assert(coordinates@.take(k as int + 1) =~= coordinates@.take(k as int).push(
                coordinates@[k as int],
            ));
            assert forall|i: int, j: int| 0 <= i < n && 0 <= j < n implies #[trigger] state@[i][j]
                == (if coordinates@.take(k as int + 1).contains((i as usize, j as usize)) {
                CellState::Alive
            } else {
                old(state)@[i][j]
            }) by {
                lemma_push_contains(
                    coordinates@.take(k as int),
                    coordinates@[k as int],
                    (i as usize, j as usize),
                );
                if r < n && c < n {
                    assert(state@ == prev.update(
                        r as int,
                        prev[r as int].update(c as int, CellState::Alive),
                    ));
                }
            }
        }
        k = k + 1;
    }
    proof {
        assert(coordinates@.take(coordinates@.len() as int) =~= coordinates@);
    }
}

/// Under Brian's Brain, a firing cell is dying after one whole-board
/// step and dead after two, whatever its neighbors do.
pub proof fn lemma_brain_two_steps(g: Seq<Seq<CellState>>, row: int, column: int)
    requires
        0 <= row < g.len(),
        0 <= column < g.len(),
        g[row][column] == CellState::Alive,
    ensures
        spec_next_grid(SimulationMode::BriansBrain, g)[row][column] == CellState::Dying,
        spec_next_grid(
            SimulationMode::BriansBrain,
            spec_next_grid(SimulationMode::BriansBrain, g),
        )[row][column] == CellState::Dead,
{
    let g1 = spec_next_grid(SimulationMode::BriansBrain, g);
    assert(g1[row][column] == spec_brain_next(g, row, column));
    lemma_brain_alive_starts_dying(g, row, column);
    let g2 = spec_next_grid(SimulationMode::BriansBrain, g1);
    assert(g2[row][column] == spec_brain_next(g1, row, column));
    lemma_brain_dying_dies(g1, row, column);
}

/// Under Seeds, every live cell is dead after exactly one whole-board
/// step, whatever its neighbors hold.
pub proof fn lemma_seeds_step_kills(g: Seq<Seq<CellState>>, row: int, column: int)
    requires
        0 <= row < g.len(),
        0 <= column < g.len(),
        g[row][column] == CellState::Alive,
    ensures
        spec_next_grid(SimulationMode::Seeds, g)[row][column] == CellState::Dead,
{
    crate::seeds::lemma_seeds_alive_dies(g, row, column);
}

/// Two consecutive resets yield the same clean board and the same
/// initial agent state both times: the second reset starts from the
/// first's clean board, whose dimension is unchanged, and rebuilds
/// exactly the same result.
pub proof fn lemma_reset_idempotent(
    g1: Seq<Seq<CellState>>,
    a1: AgentState,
    g2: Seq<Seq<CellState>>,
    a2: AgentState,
    n: usize,
)
    requires
        g1 == spec_clean_grid(n as nat),
        a1 == spec_initial_agent(n),
        g2 == spec_clean_grid(g1.len()),
        a2 == spec_initial_agent(g1.len() as usize),
    ensures
        g2 == g1,
        a2 == a1,
{
}

/// With the same dimension, seed and probability, randomizing marks the
/// same set of cells every time: the randomized board is a pure
/// function of those three values, and a cell is alive on it exactly
/// when its deterministic draw hits.
pub proof fn lemma_randomize_deterministic(
    n: nat,
    seed: u64,
    one_in: u64,
    g1: Seq<Seq<CellState>>,
    g2: Seq<Seq<CellState>>,
)
    requires
        g1 == spec_randomized_grid(n, seed, one_in),
        g2 == spec_randomized_grid(n, seed, one_in),
    ensures
        g1 == g2,
        forall|i: int, j: int|
            0 <= i < n && 0 <= j < n ==> ((#[trigger] g1[i][j]) == CellState::Alive
                <==> spec_cell_marked(seed, one_in, i as u64, j as u64)),
{
}

} // verus!
