use vstd::prelude::*;
use crate::control::{RunMode, Signal, mode_after};
use crate::editor::{apply_edits, edited};
use crate::engine::{generation_after, next_generation, step};
use crate::grid::{Grid, GridView, checkerboard_state};

verus! {

/// What a simulation holds: its grid, its mode, the side of a cell in world
/// units, and the edits waiting for the next tick.
pub ghost struct SimulationView {
    pub grid: GridView,
    pub mode: RunMode,
    pub cell_size: nat,
    pub draw: Option<(i64, i64)>,
    pub erase: Option<(i64, i64)>,
}

impl SimulationView {
    pub open spec fn wf(self) -> bool {
        &&& self.grid.wf()
        &&& self.cell_size > 0
        &&& self.cell_size <= u32::MAX
    }
}

/// The state after `signal` is delivered: only the mode changes.
pub open spec fn after_signal(v: SimulationView, signal: Signal) -> SimulationView {
    SimulationView { mode: mode_after(v.mode, signal), ..v }
}

/// The state after a draw edit at `(px, py)` is submitted: recorded while
/// paused, ignored while running.
pub open spec fn after_draw(v: SimulationView, px: i64, py: i64) -> SimulationView {
    if v.mode == RunMode::Paused {
        SimulationView { draw: Some((px, py)), ..v }
    } else {
        v
    }
}

/// The state after an erase edit at `(px, py)` is submitted: recorded while
/// paused, ignored while running.
pub open spec fn after_erase(v: SimulationView, px: i64, py: i64) -> SimulationView {
    if v.mode == RunMode::Paused {
        SimulationView { erase: Some((px, py)), ..v }
    } else {
        v
    }
}

/// One tick: pending edits are applied while paused and dropped in any case;
/// then, while running, the grid moves on one generation.
pub open spec fn after_tick(v: SimulationView) -> SimulationView {
    let g = edited(v.grid, v.cell_size as int, v.mode, v.draw, v.erase);
    SimulationView {
        grid: if v.mode == RunMode::Running {
            next_generation(g)
        } else {
            g
        },
        draw: None,
        erase: None,
        ..v
    }
}

/// The state after `k` ticks with nothing delivered in between.
pub open spec fn after_ticks(v: SimulationView, k: nat) -> SimulationView
    decreases k,
{
    if k == 0 {
        v
    } else {
        after_tick(after_ticks(v, (k - 1) as nat))
    }
}

/// The simulation context: one grid, one mode flag and the pending edits,
/// driven one tick at a time.
pub struct Simulation {
    grid: Grid,
    mode: RunMode,
    cell_size: u32,
    draw: Option<(i64, i64)>,
    erase: Option<(i64, i64)>,
}

impl View for Simulation {
    type V = SimulationView;

    closed spec fn view(&self) -> SimulationView {
        SimulationView {
            grid: self.grid@,
            mode: self.mode,
            cell_size: self.cell_size as nat,
            draw: self.draw,
            erase: self.erase,
        }
    }
}

impl Simulation {
    /// A paused simulation on a `width` by `height` checkerboard, with no
    /// pending edits.
    pub fn new(width: usize, height: usize, cell_size: u32) -> (r: Simulation)
        requires
            width * height <= usize::MAX,
            cell_size > 0,
        ensures
            r@.wf(),
            r@.grid.width == width,
            r@.grid.height == height,
            forall|x: int, y: int|
                0 <= x < width && 0 <= y < height ==> #[trigger] r@.grid.cells[x + y * width]
                    == checkerboard_state(x, y),
            r@.mode == RunMode::Paused,
            r@.cell_size == cell_size,
            r@.draw.is_none(),
            r@.erase.is_none(),
    {
        Simulation {
            grid: Grid::checkerboard(width, height),
            mode: RunMode::initial(),
            cell_size,
            draw: None,
            erase: None,
        }
    }

    /// A paused simulation on a given grid, with no pending edits.
    pub fn with_grid(grid: Grid, cell_size: u32) -> (r: Simulation)
        requires
            grid@.wf(),
            cell_size > 0,
        ensures
            r@.wf(),
            r@.grid == grid@,
            r@.mode == RunMode::Paused,
            r@.cell_size == cell_size,
            r@.draw.is_none(),
            r@.erase.is_none(),
    {
        Simulation { grid, mode: RunMode::initial(), cell_size, draw: None, erase: None }
    }

    pub fn grid(&self) -> (r: &Grid)
        ensures
            r@ == self@.grid,
    {
        &self.grid
    }

    pub fn mode(&self) -> (r: RunMode)
        ensures
            r == self@.mode,
    {
        self.mode
    }

    pub fn cell_size(&self) -> (r: u32)
        ensures
            r == self@.cell_size,
    {
        self.cell_size
    }

    /// Delivers a start or stop signal.
    pub fn signal(&mut self, signal: Signal)
        ensures
            final(self)@ == after_signal(old(self)@, signal),
    {
        self.mode = self.mode.after(signal);
    }

    /// Submits a draw edit at a world position; it is ignored while running.
    pub fn submit_draw(&mut self, px: i64, py: i64)
        ensures
            final(self)@ == after_draw(old(self)@, px, py),
    {
        if !self.mode.is_running() {
            self.draw = Some((px, py));
        }
    }

    /// Submits an erase edit at a world position; it is ignored while running.
    pub fn submit_erase(&mut self, px: i64, py: i64)
        ensures
            final(self)@ == after_erase(old(self)@, px, py),
    {
        if !self.mode.is_running() {
            self.erase = Some((px, py));
        }
    }

    /// Runs one tick: takes the pending edits and applies them while paused,
    /// then steps the grid one generation while running.
    pub fn tick(&mut self)
        requires
            old(self)@.wf(),
        ensures
            final(self)@ == after_tick(old(self)@),
            final(self)@.wf(),
    {
        let draw = self.draw.take();
        let erase = self.erase.take();
        apply_edits(&mut self.grid, self.mode, draw, erase, self.cell_size);
        if self.mode.is_running() {
            step(&mut self.grid);
        }
    }
}

/// Ticks that run with nothing delivered in between produce the successive
/// generations of the grid they started from, and nothing else: the outcome
/// is a function of that grid alone.
pub proof fn running_ticks_are_generations(v: SimulationView, k: nat)
    requires
        v.mode == RunMode::Running,
    ensures
        after_ticks(v, k).grid == generation_after(v.grid, k),
        after_ticks(v, k).mode == RunMode::Running,
    decreases k,
{
    if k > 0 {
        running_ticks_are_generations(v, (k - 1) as nat);
    }
}

/// An edit submitted while running is not recorded, and edits still pending
/// when a running tick comes are dropped without touching the grid, so that
/// nothing replays once the simulation is paused again.
pub proof fn edits_while_running_are_dropped(v: SimulationView, px: i64, py: i64)
    requires
        v.mode == RunMode::Running,
    ensures
        after_draw(v, px, py) == v,
        after_erase(v, px, py) == v,
        after_tick(v).grid == next_generation(v.grid),
        after_tick(after_signal(after_tick(v), Signal::Stop)).grid == after_tick(v).grid,
{
}

/// Delivering the same signal twice in a row gives the state that delivering
/// it once does.
pub proof fn repeated_signal_is_idempotent(v: SimulationView, signal: Signal)
    ensures
        after_signal(after_signal(v, signal), signal) == after_signal(v, signal),
{
}

} // verus!
