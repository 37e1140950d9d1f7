use vstd::prelude::*;
use crate::grid::{CellState, Grid, GridView, col_of, row_of, lemma_coords_of, lemma_index_of};

verus! {

pub open spec fn b2i(b: bool) -> int {
    if b {
        1
    } else {
        0
    }
}

/// How many of the up to eight cells around `(x, y)` are alive in `g`.
/// Positions off the grid count as empty: nothing wraps around.
pub open spec fn live_neighbors(g: GridView, x: int, y: int) -> int {
    b2i(g.alive_at(x - 1, y - 1)) + b2i(g.alive_at(x, y - 1)) + b2i(g.alive_at(x + 1, y - 1))
        + b2i(g.alive_at(x - 1, y)) + b2i(g.alive_at(x + 1, y))
        + b2i(g.alive_at(x - 1, y + 1)) + b2i(g.alive_at(x, y + 1)) + b2i(g.alive_at(x + 1, y + 1))
}

/// The rule: three live neighbors make a cell alive, two keep it as it was,
/// any other count leaves it empty.
pub open spec fn next_state(current: CellState, n: int) -> CellState {
    if n == 3 {
        CellState::Alive
    } else if n == 2 {
        current
    } else {
        CellState::Empty
    }
}

/// The generation that follows `g`, every cell judged against `g` alone.
pub open spec fn next_generation(g: GridView) -> GridView {
    GridView {
        width: g.width,
        height: g.height,
        cells: Seq::new(
            g.cells.len(),
            |i: int|
                next_state(
                    g.cells[i],
                    live_neighbors(g, col_of(i, g.width as int), row_of(i, g.width as int)),
                ),
        ),
    }
}

/// `g` after `k` generations.
pub open spec fn generation_after(g: GridView, k: nat) -> GridView
    decreases k,
{
    if k == 0 {
        g
    } else {
        next_generation(generation_after(g, (k - 1) as nat))
    }
}

/// The corner cell `(0, 0)` counts only its three neighbors on the grid,
/// never cells from the far column or row.
pub proof fn corner_counts_in_bounds_only(g: GridView)
    requires
        g.wf(),
    ensures
        live_neighbors(g, 0, 0) == b2i(g.alive_at(1, 0)) + b2i(g.alive_at(0, 1)) + b2i(
            g.alive_at(1, 1),
        ),
        live_neighbors(g, 0, 0) <= 3,
{
}

/// Snapshot `snap` holds the liveness of every cell of `g`.
pub open spec fn is_snapshot_of(snap: Seq<bool>, g: GridView) -> bool {
    &&& snap.len() == g.cells.len()
    &&& forall|i: int| 0 <= i < snap.len() ==> snap[i] == (g.cells[i] == CellState::Alive)
}

/// Copies the liveness of every cell into a buffer of its own.
pub fn snapshot(grid: &Grid) -> (r: Vec<bool>)
    requires
        grid@.wf(),
    ensures
        is_snapshot_of(r@, grid@),
{
    let n = grid.len();
    let mut snap: Vec<bool> = Vec::with_capacity(n);
    while snap.len() < n
        invariant
            n == grid@.len(),
            snap.len() <= n,
            forall|i: int| 0 <= i < snap.len() ==> snap@[i] == (grid@.cells[i] == CellState::Alive),
        decreases n - snap.len(),
    {
        let i = snap.len();
        let alive = match grid.get(i) {
            CellState::Alive => true,
            CellState::Empty => false,
        };
        snap.push(alive);
    }
    snap
}

/// Whether `(x, y)` is on the grid and alive in the snapshot.
fn alive_in(snap: &Vec<bool>, w: usize, h: usize, x: usize, y: usize, Ghost(g): Ghost<GridView>) -> (r: bool)
    requires
        g.wf(),
        g.width == w,
        g.height == h,
        is_snapshot_of(snap@, g),
    ensures
        r == g.alive_at(x as int, y as int),
{
    if x < w && y < h {
        proof {
            lemma_index_of(x as int, y as int, w as int, h as int);
        }
        snap[x + y * w]
    } else {
        false
    }
}

/// The number of live cells around `(x, y)` in the snapshot.
fn count_live_neighbors(
    snap: &Vec<bool>,
    w: usize,
    h: usize,
    x: usize,
    y: usize,
    Ghost(g): Ghost<GridView>,
) -> (r: u8)
    requires
        g.wf(),
        g.width == w,
        g.height == h,
        x < w,
        y < h,
        is_snapshot_of(snap@, g),
    ensures
        r == live_neighbors(g, x as int, y as int),
{
    let mut n: u8 = 0;
    if y > 0 {
        if x > 0 && alive_in(snap, w, h, x - 1, y - 1, Ghost(g)) {
            n = n + 1;
        }
        if alive_in(snap, w, h, x, y - 1, Ghost(g)) {
            n = n + 1;
        }
        if alive_in(snap, w, h, x + 1, y - 1, Ghost(g)) {
            n = n + 1;
        }
    }
    if x > 0 && alive_in(snap, w, h, x - 1, y, Ghost(g)) {
        n = n + 1;
    }
    if alive_in(snap, w, h, x + 1, y, Ghost(g)) {
        n = n + 1;
    }
    if x > 0 && alive_in(snap, w, h, x - 1, y + 1, Ghost(g)) {
        n = n + 1;
    }
    if alive_in(snap, w, h, x, y + 1, Ghost(g)) {
        n = n + 1;
    }
    if alive_in(snap, w, h, x + 1, y + 1, Ghost(g)) {
        n = n + 1;
    }
    n
}

/// Replaces the grid by its next generation. Every count is taken from a
/// snapshot made before the first write, so no cell is judged against a
/// value already rewritten in the same pass.
pub fn step(grid: &mut Grid)
    requires
        old(grid)@.wf(),
    ensures
        final(grid)@ == next_generation(old(grid)@),
        final(grid)@.wf(),
{
    let ghost g0 = grid@;
    let snap = snapshot(grid);
    let w = grid.width();
    let h = grid.height();
    let n = grid.len();
    let mut i: usize = 0;
    while i < n
        invariant
            n == g0.len(),
            n == w * h,
            g0.wf(),
            w == g0.width,
            h == g0.height,
            is_snapshot_of(snap@, g0),
            i <= n,
            grid@.width == g0.width,
            grid@.height == g0.height,
            grid@.cells.len() == n,
            forall|j: int| 0 <= j < i ==> grid@.cells[j] == #[trigger] next_generation(g0).cells[j],
            forall|j: int| i <= j < n ==> grid@.cells[j] == g0.cells[j],
        decreases n - i,
    {
        proof {
            lemma_coords_of(i as int, w as int, h as int);
        }
        let x = i % w;
        let y = i / w;
        let count = count_live_neighbors(&snap, w, h, x, y, Ghost(g0));
        if count < 2 || count > 3 {
            if let CellState::Alive = grid.get(i) {
                grid.set(i, CellState::Empty);
            }
        }
        if count == 3 {
            grid.set(i, CellState::Alive);
        }
        i = i + 1;
    }
    proof {
        assert(grid@.cells =~= next_generation(g0).cells);
    }
}

} // verus!
