use vstd::prelude::*;

verus! {

/// The state of one cell.
#[derive(Clone, Copy, Debug, PartialEq, Eq, Structural)]
pub enum CellState {
    Alive,
    Empty,
}

/// The mathematical content of a grid: its dimensions and its cells in
/// row-major order (`i = x + y * width`).
pub ghost struct GridView {
    pub width: nat,
    pub height: nat,
    pub cells: Seq<CellState>,
}

impl GridView {
    /// Exactly `width * height` cells, an amount that fits in `usize`.
    pub open spec fn wf(self) -> bool {
        &&& self.cells.len() == self.width * self.height
        &&& self.width * self.height <= usize::MAX
    }

    pub open spec fn len(self) -> nat {
        self.cells.len()
    }

    pub open spec fn alive(self, i: int) -> bool {
        self.cells[i] == CellState::Alive
    }

    /// Whether `(x, y)` lies on the grid and its cell is alive; anything off
    /// the grid counts as empty.
    pub open spec fn alive_at(self, x: int, y: int) -> bool {
        &&& 0 <= x < self.width
        &&& 0 <= y < self.height
        &&& self.cells[x + y * self.width] == CellState::Alive
    }
}

/// Column of index `i` on a grid `w` cells wide.
pub open spec fn col_of(i: int, w: int) -> int {
    i % w
}

/// Row of index `i` on a grid `w` cells wide.
pub open spec fn row_of(i: int, w: int) -> int {
    i / w
}

/// Whether `j` is one of the up to eight cells around `i`: a different cell
/// of the grid at Chebyshev distance one, without wrapping at the edges.
pub open spec fn is_neighbor(g: GridView, i: int, j: int) -> bool {
    let w = g.width as int;
    &&& 0 <= j < g.len()
    &&& j != i
    &&& -1 <= col_of(j, w) - col_of(i, w) <= 1
    &&& -1 <= row_of(j, w) - row_of(i, w) <= 1
}

/// Position of neighbor `j` of `i` in the 3 by 3 block around `i`, counted
/// row by row from the lower left (`4` is `i` itself).
pub open spec fn offset_id(i: int, j: int, w: int) -> int {
    (row_of(j, w) - row_of(i, w) + 1) * 3 + (col_of(j, w) - col_of(i, w) + 1)
}

/// The initial pattern: a cell is alive exactly when `x + y` is odd.
pub open spec fn checkerboard_state(x: int, y: int) -> CellState {
    if (x + y) % 2 == 1 {
        CellState::Alive
    } else {
        CellState::Empty
    }
}

/// A fixed-size grid of cells.
pub struct Grid {
    width: usize,
    height: usize,
    cells: Vec<CellState>,
}

impl View for Grid {
    type V = GridView;

    closed spec fn view(&self) -> GridView {
        GridView { width: self.width as nat, height: self.height as nat, cells: self.cells@ }
    }
}

/// Index `x + y * w` of a cell inside a `w` by `h` grid stays below `w * h`,
/// and its column and row are `x` and `y`.
pub proof fn lemma_index_of(x: int, y: int, w: int, h: int)
    requires
        0 <= x < w,
        0 <= y < h,
    ensures
        0 <= x + y * w < w * h,
        col_of(x + y * w, w) == x,
        row_of(x + y * w, w) == y,
{
    assert(0 <= x + y * w < w * h) by (nonlinear_arith)
        requires
            0 <= x < w,
            0 <= y < h,
    ;
    vstd::arithmetic::div_mod::lemma_fundamental_div_mod_converse(x + y * w, w, y, x);
}

/// An index below `w * h` has a column below `w`, a row below `h`, and is
/// rebuilt from them.
pub proof fn lemma_coords_of(i: int, w: int, h: int)
    requires
        0 <= i < w * h,
        w > 0,
    ensures
        0 <= col_of(i, w) < w,
        0 <= row_of(i, w) < h,
        i == col_of(i, w) + row_of(i, w) * w,
{
    vstd::arithmetic::div_mod::lemma_fundamental_div_mod(i, w);
    let q = i / w;
    assert(i == w * q + i % w);
    assert(q < h) by (nonlinear_arith)
        requires
            0 <= i < w * h,
            w > 0,
            i == w * q + i % w,
            0 <= i % w,
    ;
    assert(q >= 0) by (nonlinear_arith)
        requires
            i >= 0,
            w > 0,
            i % w < w,
            i == w * q + i % w,
    ;
    assert(w * q == q * w) by (nonlinear_arith);
}

impl Grid {
    /// A grid whose cells are all `Empty`.
    pub fn empty(width: usize, height: usize) -> (r: Grid)
        requires
            width * height <= usize::MAX,
        ensures
            r@.wf(),
            r@.width == width,
            r@.height == height,
            forall|i: int| 0 <= i < r@.len() ==> r@.cells[i] == CellState::Empty,
    {
        let n: usize = width * height;
        let mut cells: Vec<CellState> = Vec::with_capacity(n);
        while cells.len() < n
            invariant
                cells.len() <= n,
                forall|i: int| 0 <= i < cells.len() ==> cells@[i] == CellState::Empty,
            decreases n - cells.len(),
        {
            cells.push(CellState::Empty);
        }
        Grid { width, height, cells }
    }

    /// The initial grid: the cell at `(x, y)` is alive exactly when `x + y`
    /// is odd.
    pub fn checkerboard(width: usize, height: usize) -> (r: Grid)
        requires
            width * height <= usize::MAX,
        ensures
            r@.wf(),
            r@.width == width,
            r@.height == height,
            forall|x: int, y: int|
                0 <= x < width && 0 <= y < height ==> #[trigger] r@.cells[x + y * width]
                    == checkerboard_state(x, y),
    {
        let n: usize = width * height;
        let mut cells: Vec<CellState> = Vec::with_capacity(n);
        while cells.len() < n
            invariant
                n == width * height,
                cells.len() <= n,
                forall|i: int|
                    0 <= i < cells.len() ==> #[trigger] cells@[i] == checkerboard_state(
                        col_of(i, width as int),
                        row_of(i, width as int),
                    ),
            decreases n - cells.len(),
        {
            let i = cells.len();
            proof {
                assert(width > 0) by (nonlinear_arith)
                    requires
                        i < width * height,
                ;
                lemma_coords_of(i as int, width as int, height as int);
            }
            let x = i % width;
            let y = i / width;
            let state = if (x % 2 == 1) != (y % 2 == 1) {
                CellState::Alive
            } else {
                CellState::Empty
            };
            cells.push(state);
        }
        proof {
            assert forall|x: int, y: int|
                0 <= x < width && 0 <= y < height implies #[trigger] cells@[x + y * width]
                    == checkerboard_state(x, y) by {
                lemma_index_of(x, y, width as int, height as int);
            }
        }
        Grid { width, height, cells }
    }

    /// The cells around `i`: each neighbor exactly once, no others. Cells on
    /// an edge or in a corner have fewer than eight.
    pub fn neighbors(&self, i: usize) -> (r: Vec<usize>)
        requires
            self@.wf(),
            i < self@.len(),
        ensures
            r@.no_duplicates(),
            r.len() <= 8,
            forall|k: int| 0 <= k < r.len() ==> is_neighbor(self@, i as int, #[trigger] r@[k] as int),
            forall|j: int| is_neighbor(self@, i as int, j) ==> r@.contains(j as usize),
    {
        let ghost g = self@;
        let w = self.width;
        let h = self.height;
        proof {
            assert(w > 0) by (nonlinear_arith)
                requires
                    i < w * h,
            ;
            lemma_coords_of(i as int, w as int, h as int);
        }
        let x = i % w;
        let y = i / w;
        let mut out: Vec<usize> = Vec::new();
        let mut k: usize = 0;
        while k < 9
            invariant
                g == self@,
                g.wf(),
                w == g.width,
                h == g.height,
                w > 0,
                i < g.len(),
                x == col_of(i as int, w as int),
                y == row_of(i as int, w as int),
                i == x + y * w,
                x < w,
                y < h,
                k <= 9,
                out.len() <= k,
                out.len() + (if k > 4 { 1int } else { 0int }) <= k,
                out@.no_duplicates(),
                forall|m: int|
                    0 <= m < out.len() ==> is_neighbor(g, i as int, #[trigger] out@[m] as int)
                        && offset_id(i as int, out@[m] as int, w as int) < k,
                forall|j: int|
                    is_neighbor(g, i as int, j) && offset_id(i as int, j, w as int) < k
                        ==> out@.contains(j as usize),
            decreases 9 - k,
        {
            let dx = k % 3;
            let dy = k / 3;
            proof {
                vstd::arithmetic::div_mod::lemma_fundamental_div_mod_converse(
                    k as int,
                    3,
                    dy as int,
                    dx as int,
                );
            }
            if k != 4 && (dx >= 1 || x >= 1) && (dx <= 1 || x + 1 < w) && (dy >= 1 || y >= 1) && (
            dy <= 1 || y + 1 < h) {
                let nx = x + dx - 1;
                let ny = y + dy - 1;
                proof {
                    lemma_index_of(nx as int, ny as int, w as int, h as int);
                    lemma_index_of(x as int, y as int, w as int, h as int);
                }
                let j = nx + ny * w;
                proof {
                    assert(offset_id(i as int, j as int, w as int) == k);
                    assert(is_neighbor(g, i as int, j as int));
                    assert forall|m: int| 0 <= m < out.len() implies out@[m] != j by {}
                }
                let ghost prev = out@;
                out.push(j);
                proof {
                    assert forall|jj: int|
                        is_neighbor(g, i as int, jj) && offset_id(i as int, jj, w as int) < k + 1
                            implies out@.contains(jj as usize) by {
                        if offset_id(i as int, jj, w as int) == k {
                            lemma_coords_of(jj, w as int, h as int);
                            assert(out@[out.len() - 1] == jj);
                        } else {
                            assert(prev.contains(jj as usize));
                            let m = choose|m: int| 0 <= m < prev.len() && #[trigger] prev[m] == jj as usize;
                            assert(out@[m] == prev[m]);
                        }
                    }
                }
            } else {
                proof {
                    assert forall|jj: int|
                        is_neighbor(g, i as int, jj) && offset_id(i as int, jj, w as int) < k + 1
                            implies out@.contains(jj as usize) by {
                        if offset_id(i as int, jj, w as int) == k {
                            lemma_coords_of(jj, w as int, h as int);
                            let a = col_of(jj, w as int) - x + 1;
                            let b = row_of(jj, w as int) - y + 1;
                            vstd::arithmetic::div_mod::lemma_fundamental_div_mod_converse(
                                k as int,
                                3,
                                b,
                                a,
                            );
                            assert(false);
                        }
                    }
                }
            }
            k = k + 1;
        }
        out
    }

    pub fn width(&self) -> (r: usize)
        ensures
            r == self@.width,
    {
        self.width
    }

    pub fn height(&self) -> (r: usize)
        ensures
            r == self@.height,
    {
        self.height
    }

    /// Number of cells.
    pub fn len(&self) -> (r: usize)
        requires
            self@.wf(),
        ensures
            r == self@.len(),
            r == self@.width * self@.height,
    {
        self.cells.len()
    }

    pub fn get(&self, i: usize) -> (r: CellState)
        requires
            i < self@.len(),
        ensures
            r == self@.cells[i as int],
    {
        self.cells[i]
    }

    /// Writes one cell and nothing else.
    pub fn set(&mut self, i: usize, state: CellState)
        requires
            i < old(self)@.len(),
        ensures
            final(self)@.width == old(self)@.width,
            final(self)@.height == old(self)@.height,
            final(self)@.cells == old(self)@.cells.update(i as int, state),
    {
        self.cells.set(i, state);
    }
}

} // verus!
