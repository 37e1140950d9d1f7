use vstd::prelude::*;
use crate::control::RunMode;
use crate::grid::{CellState, Grid, GridView};
use crate::mapper::cell_at;

verus! {

/// `g` with the cell under `pos` set to `state`; unchanged when there is no
/// position or it lies off the grid.
pub open spec fn paint(g: GridView, s: int, pos: Option<(i64, i64)>, state: CellState) -> GridView {
    match pos {
        Some(p) => match cell_at(g, s, p.0 as int, p.1 as int) {
            Some(i) => GridView { width: g.width, height: g.height, cells: g.cells.update(i, state) },
            None => g,
        },
        None => g,
    }
}

/// The grid after one frame's edits: while paused the draw edit makes its
/// cell alive, then the erase edit empties its cell; while running neither
/// has any effect.
pub open spec fn edited(
    g: GridView,
    s: int,
    mode: RunMode,
    draw: Option<(i64, i64)>,
    erase: Option<(i64, i64)>,
) -> GridView {
    if mode == RunMode::Running {
        g
    } else {
        paint(paint(g, s, draw, CellState::Alive), s, erase, CellState::Empty)
    }
}

/// Sets the cell under `pos`, if any, to `state`.
fn paint_at(grid: &mut Grid, pos: Option<(i64, i64)>, state: CellState, cell_size: u32)
    requires
        old(grid)@.wf(),
        cell_size > 0,
    ensures
        final(grid)@ == paint(old(grid)@, cell_size as int, pos, state),
        final(grid)@.wf(),
{
    if let Some(p) = pos {
        if let Some(i) = grid.world_to_cell(p.0, p.1, cell_size) {
            grid.set(i, state);
            proof {
                assert(grid@.cells =~= paint(old(grid)@, cell_size as int, pos, state).cells);
            }
        }
    }
}

/// Applies one frame's pending edits. While `mode` is `Running` the grid is
/// left as it is; the caller drops the edits either way.
pub fn apply_edits(
    grid: &mut Grid,
    mode: RunMode,
    draw: Option<(i64, i64)>,
    erase: Option<(i64, i64)>,
    cell_size: u32,
)
    requires
        old(grid)@.wf(),
        cell_size > 0,
    ensures
        final(grid)@ == edited(old(grid)@, cell_size as int, mode, draw, erase),
        final(grid)@.wf(),
{
    if !mode.is_running() {
        paint_at(grid, draw, CellState::Alive, cell_size);
        paint_at(grid, erase, CellState::Empty, cell_size);
    }
}

} // verus!
