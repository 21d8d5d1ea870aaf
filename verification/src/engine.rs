//! The engine: the grid together with the run state and the pending-step marker.
//!
//! A host drives it from its own loop. It translates input into `set_cell`,
//! `request_step` and `toggle_pause`, reports each period of its timer with `tick`, and
//! calls `step` once per pass; a pass without a pending request leaves the grid alone.

use vstd::prelude::*;
use crate::coord::{Bounds, Coord};
use crate::grid::Cells;
use crate::rule::{alive_at, next_generation, Grid};

verus! {

/// Whether the simulation advances on its own.
#[derive(Clone, Copy, Debug, PartialEq, Eq, Structural, Hash)]
pub enum GameState {
    /// Frozen: only a manual request advances the grid.
    Pause,
    /// Running: every timer period requests a step.
    Play,
}

impl GameState {
    /// The other run state.
    pub open spec fn flipped(self) -> GameState {
        match self {
            GameState::Pause => GameState::Play,
            GameState::Play => GameState::Pause,
        }
    }

    /// The other run state.
    pub fn toggled(self) -> (other: GameState)
        ensures
            other == self.flipped(),
    {
        match self {
            GameState::Pause => GameState::Play,
            GameState::Play => GameState::Pause,
        }
    }
}

impl Default for GameState {
    /// A simulation starts paused.
    fn default() -> (state: GameState)
        ensures
            state == GameState::Pause,
    {
        GameState::Pause
    }
}

/// The engine as the contracts speak of it.
pub struct EngineState {
    /// The tracked coordinates and their states.
    pub grid: Grid,
    /// Whether the simulation advances on its own.
    pub state: GameState,
    /// Whether a step has been requested and not yet applied.
    pub pending: bool,
}

impl EngineState {
    /// A paused engine without a pending step whose grid tracks exactly the coordinates
    /// inside `bounds`, all of them dead.
    pub open spec fn initial(bounds: Bounds) -> EngineState {
        EngineState {
            grid: Map::new(|c: Coord| bounds.contains(c), |c: Coord| false),
            state: GameState::Pause,
            pending: false,
        }
    }

    /// The engine after the cell at `c` was set to `alive`.
    pub open spec fn set_cell(self, c: Coord, alive: bool) -> EngineState {
        EngineState { grid: self.grid.insert(c, alive), ..self }
    }

    /// The engine after the cells of `writes` were set, first to last.
    pub open spec fn set_cells(self, writes: Seq<(Coord, bool)>) -> EngineState
        decreases writes.len(),
    {
        if writes.len() == 0 {
            self
        } else {
            self.set_cells(writes.drop_last()).set_cell(writes.last().0, writes.last().1)
        }
    }

    /// The engine after the run state was flipped.
    pub open spec fn toggle_pause(self) -> EngineState {
        EngineState { state: self.state.flipped(), ..self }
    }

    /// The engine after a step was requested. A request that meets a pending one merges
    /// with it.
    pub open spec fn request_step(self) -> EngineState {
        EngineState { pending: true, ..self }
    }

    /// The engine after `n` step requests in a row.
    pub open spec fn request_steps(self, n: nat) -> EngineState
        decreases n,
    {
        if n == 0 {
            self
        } else {
            self.request_steps((n - 1) as nat).request_step()
        }
    }

    /// The engine after one period of the host's timer: a step is requested while the
    /// simulation plays, and nothing happens while it is paused.
    pub open spec fn tick(self) -> EngineState {
        if self.state == GameState::Play {
            self.request_step()
        } else {
            self
        }
    }

    /// The engine after a call of `step`: with a pending request the grid advances by one
    /// generation and the request is consumed; without one nothing changes.
    pub open spec fn step(self) -> EngineState {
        if self.pending {
            EngineState { grid: next_generation(self.grid), pending: false, ..self }
        } else {
            self
        }
    }
}

/// The automaton: it owns the grid, applies the rule on demand and keeps the run state.
pub struct AutomatonEngine {
    cells: Cells,
    state: GameState,
    pending: bool,
}

impl View for AutomatonEngine {
    type V = EngineState;

    closed spec fn view(&self) -> EngineState {
        EngineState { grid: self.cells@, state: self.state, pending: self.pending }
    }
}

impl AutomatonEngine {
    /// Creates a paused engine whose grid tracks every coordinate inside `bounds` as dead.
    pub fn initialize(bounds: Bounds) -> (engine: AutomatonEngine)
        ensures
            engine@ == EngineState::initial(bounds),
    {
        AutomatonEngine {
            cells: Cells::dead_within(bounds),
            state: GameState::Pause,
            pending: false,
        }
    }

    /// Sets the cell at `(x, y)`, whether or not the grid tracked it before.
    pub fn set_cell(&mut self, x: i32, y: i32, alive: bool)
        ensures
            final(self)@ == old(self)@.set_cell((x as int, y as int), alive),
    {
        self.cells.set_cell(x, y, alive);
    }

    /// Whether the cell at `(x, y)` is alive. A coordinate without an entry is dead.
    pub fn is_alive(&self, x: i32, y: i32) -> (alive: bool)
        ensures
            alive == alive_at(self@.grid, (x as int, y as int)),
    {
        self.cells.is_alive(x, y)
    }

    /// Flips the run state between paused and playing.
    pub fn toggle_pause(&mut self)
        ensures
            final(self)@ == old(self)@.toggle_pause(),
    {
        self.state = self.state.toggled();
    }

    /// Marks a step as pending. Requests made before the next `step` count as one.
    pub fn request_step(&mut self)
        ensures
            final(self)@ == old(self)@.request_step(),
    {
        self.pending = true;
    }

    /// Reports one period of the host's timer: requests a step while playing.
    pub fn tick(&mut self)
        ensures
            final(self)@ == old(self)@.tick(),
    {
        match self.state {
            GameState::Play => {
                self.pending = true;
            },
            GameState::Pause => {},
        }
    }

    /// Applies one generation if a step is pending and consumes the request; does nothing
    /// otherwise.
    pub fn step(&mut self)
        ensures
            final(self)@ == old(self)@.step(),
    {
        if self.pending {
            self.cells.advance();
            self.pending = false;
        }
    }

    /// The current run state.
    pub fn run_state(&self) -> (state: GameState)
        ensures
            state == self@.state,
    {
        self.state
    }

    /// Whether a requested step has not been applied yet.
    pub fn step_pending(&self) -> (pending: bool)
        ensures
            pending == self@.pending,
    {
        self.pending
    }

    /// The grid, for a host that walks the tracked cells.
    pub fn cells(&self) -> (cells: &Cells)
        ensures
            cells@ == self@.grid,
    {
        &self.cells
    }
}

/// A coordinate that the grid does not track is dead.
pub proof fn lemma_absent_is_dead(g: Grid, c: Coord)
    requires
        !g.contains_key(c),
    ensures
        !alive_at(g, c),
{
}

/// In a fresh engine, a coordinate that no later write names is dead, inside the initial
/// bounds or outside them.
pub proof fn lemma_unset_is_dead(bounds: Bounds, writes: Seq<(Coord, bool)>, c: Coord)
    requires
        forall|i: int| 0 <= i < writes.len() ==> (#[trigger] writes[i]).0 != c,
    ensures
        !alive_at(EngineState::initial(bounds).set_cells(writes).grid, c),
    decreases writes.len(),
{
    if writes.len() > 0 {
        let earlier = writes.drop_last();
        assert forall|i: int| 0 <= i < earlier.len() implies (#[trigger] earlier[i]).0 != c by {
            assert(earlier[i] == writes[i]);
        }
        lemma_unset_is_dead(bounds, earlier, c);
        assert(writes.last() == writes[writes.len() - 1]);
    }
}

/// A cell that was set alive is alive, whatever the engine held before.
pub proof fn lemma_set_alive_then_alive(s: EngineState, c: Coord)
    ensures
        alive_at(s.set_cell(c, true).grid, c),
{
}

/// A cell reads back the state it was last set to, and setting it leaves every other
/// coordinate as it was.
pub proof fn lemma_set_cell_reads_back(s: EngineState, c: Coord, alive: bool, other: Coord)
    ensures
        alive_at(s.set_cell(c, alive).grid, c) == alive,
        other != c ==> alive_at(s.set_cell(c, alive).grid, other) == alive_at(s.grid, other),
{
}

/// A second `step` without a request in between changes nothing: one request advances
/// the grid by at most one generation.
pub proof fn lemma_step_idempotent(s: EngineState)
    ensures
        s.step().step() == s.step(),
        !s.step().pending,
        s.request_step().step().step().grid == next_generation(s.grid),
{
}

/// Any number of requests before a `step` advance the grid by exactly one generation.
pub proof fn lemma_requests_coalesce(s: EngineState, n: nat)
    requires
        n >= 1,
    ensures
        s.request_steps(n) == s.request_step(),
        s.request_steps(n).step().grid == next_generation(s.grid),
        !s.request_steps(n).step().pending,
    decreases n,
{
    if n > 1 {
        lemma_requests_coalesce(s, (n - 1) as nat);
    } else {
        assert(s.request_steps(0) == s);
    }
}

/// A timer period advances a playing simulation by one generation at the next `step` and
/// leaves a paused one without a pending request untouched.
pub proof fn lemma_tick_follows_run_state(s: EngineState)
    ensures
        s.state == GameState::Play ==> s.tick().step().grid == next_generation(s.grid),
        s.state == GameState::Pause && !s.pending ==> s.tick().step() == s,
{
}

} // verus!
