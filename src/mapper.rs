use vstd::prelude::*;
use crate::grid::{Grid, GridView, col_of, row_of, lemma_coords_of, lemma_index_of};

verus! {

/// Whether coordinate `p` falls in the half-open span of side `s` centred on
/// `c * s`: `c * s - s / 2 <= p < c * s + s / 2`, doubled to stay in integers.
pub open spec fn in_span(p: int, c: int, s: int) -> bool {
    2 * c * s - s <= 2 * p < 2 * c * s + s
}

/// Whether cell `i` of `g`, drawn as a square of side `s`, contains `(px, py)`.
pub open spec fn cell_contains(g: GridView, s: int, i: int, px: int, py: int) -> bool {
    &&& 0 <= i < g.len()
    &&& in_span(px, col_of(i, g.width as int), s)
    &&& in_span(py, row_of(i, g.width as int), s)
}

/// The cell that contains `(px, py)`, if any does.
pub open spec fn cell_at(g: GridView, s: int, px: int, py: int) -> Option<int> {
    if exists|i: int| cell_contains(g, s, i, px, py) {
        Some(choose|i: int| cell_contains(g, s, i, px, py))
    } else {
        None
    }
}

/// The centre of cell `i` in world units.
pub open spec fn cell_center(g: GridView, s: int, i: int) -> (int, int) {
    (col_of(i, g.width as int) * s, row_of(i, g.width as int) * s)
}

pub open spec fn as_index(r: Option<usize>) -> Option<int> {
    match r {
        Some(i) => Some(i as int),
        None => None,
    }
}

/// Spans of one side never overlap: a coordinate lies in at most one.
pub proof fn lemma_span_unique(p: int, c1: int, c2: int, s: int)
    requires
        s > 0,
        in_span(p, c1, s),
        in_span(p, c2, s),
    ensures
        c1 == c2,
{
    if c1 < c2 {
        assert(2 * c2 * s >= 2 * c1 * s + 2 * s) by (nonlinear_arith)
            requires
                c1 + 1 <= c2,
                s > 0,
        ;
    } else if c2 < c1 {
        assert(2 * c1 * s >= 2 * c2 * s + 2 * s) by (nonlinear_arith)
            requires
                c2 + 1 <= c1,
                s > 0,
        ;
    }
}

/// At most one cell contains a given position.
pub proof fn lemma_cell_unique(g: GridView, s: int, i: int, j: int, px: int, py: int)
    requires
        g.wf(),
        s > 0,
        cell_contains(g, s, i, px, py),
        cell_contains(g, s, j, px, py),
    ensures
        i == j,
{
    let w = g.width as int;
    let h = g.height as int;
    assert(g.len() == w * h);
    assert(w > 0) by (nonlinear_arith)
        requires
            0 <= i,
            i < w * h,
            w >= 0,
            h >= 0,
    ;
    lemma_span_unique(px, col_of(i, w), col_of(j, w), s);
    lemma_span_unique(py, row_of(i, w), row_of(j, w), s);
    lemma_coords_of(i, w, h);
    lemma_coords_of(j, w, h);
}

/// A cell that contains the position is the one `cell_at` names.
pub proof fn lemma_cell_at(g: GridView, s: int, i: int, px: int, py: int)
    requires
        g.wf(),
        s > 0,
        cell_contains(g, s, i, px, py),
    ensures
        cell_at(g, s, px, py) == Some(i),
{
    let j = choose|j: int| cell_contains(g, s, j, px, py);
    lemma_cell_unique(g, s, i, j, px, py);
}

/// The span index that holds `p` when the spans have side `s`, or `None` when
/// `p` lies below span zero. Works on `n = 2 * p + s`.
fn span_of(p: i64, s: u32) -> (r: Option<u128>)
    requires
        s > 0,
    ensures
        match r {
            Some(c) => in_span(p as int, c as int, s as int),
            None => forall|c: int| c >= 0 ==> !in_span(p as int, c, s as int),
        },
{
    let n: i128 = 2 * (p as i128) + (s as i128);
    if n < 0 {
        proof {
            assert forall|c: int| c >= 0 implies !in_span(p as int, c, s as int) by {
                assert(c * s >= 0) by (nonlinear_arith)
                    requires
                        c >= 0,
                        s > 0,
                ;
            }
        }
        None
    } else {
        let d: u128 = 2 * (s as u128);
        let c: u128 = (n as u128) / d;
        proof {
            let ni = n as int;
            let di = d as int;
            let ci = c as int;
            vstd::arithmetic::div_mod::lemma_fundamental_div_mod(ni, di);
            vstd::arithmetic::div_mod::lemma_mod_bound(ni, di);
            assert(di * ci <= ni < di * ci + di);
            assert(in_span(p as int, ci, s as int)) by (nonlinear_arith)
                requires
                    di * ci <= ni < di * ci + di,
                    di == 2 * s,
                    ni == 2 * p + s,
            ;
        }
        Some(c)
    }
}

impl Grid {
    /// The index of the cell whose square of side `cell_size` contains
    /// `(px, py)`, or `None` when the position is off the grid. Each square
    /// includes its lower edges and excludes its upper ones.
    pub fn world_to_cell(&self, px: i64, py: i64, cell_size: u32) -> (r: Option<usize>)
        requires
            self@.wf(),
            cell_size > 0,
        ensures
            as_index(r) == cell_at(self@, cell_size as int, px as int, py as int),
    {
        let ghost g = self@;
        let ghost s = cell_size as int;
        let w = self.width();
        let h = self.height();
        let cx = span_of(px, cell_size);
        let cy = span_of(py, cell_size);
        match (cx, cy) {
            (Some(x), Some(y)) => {
                if x < w as u128 && y < h as u128 {
                    let x = x as usize;
                    let y = y as usize;
                    proof {
                        lemma_index_of(x as int, y as int, w as int, h as int);
                        lemma_cell_at(g, s, x + y * w, px as int, py as int);
                    }
                    Some(x + y * w)
                } else {
                    proof {
                        if exists|i: int| cell_contains(g, s, i, px as int, py as int) {
                            let i = choose|i: int| cell_contains(g, s, i, px as int, py as int);
                            lemma_coords_of(i, w as int, h as int);
                            lemma_span_unique(px as int, x as int, col_of(i, w as int), s);
                            lemma_span_unique(py as int, y as int, row_of(i, w as int), s);
                        }
                    }
                    None
                }
            },
            _ => {
                proof {
                    if exists|i: int| cell_contains(g, s, i, px as int, py as int) {
                        let i = choose|i: int| cell_contains(g, s, i, px as int, py as int);
                        assert(w > 0) by (nonlinear_arith)
                            requires
                                0 <= i < w * h,
                                h >= 0,
                        ;
                        lemma_coords_of(i, w as int, h as int);
                    }
                }
                None
            },
        }
    }

    /// The world-space centre of cell `i`: `(x * cell_size, y * cell_size)`.
    pub fn cell_to_world(&self, i: usize, cell_size: u32) -> (r: (i64, i64))
        requires
            self@.wf(),
            i < self@.len(),
            self@.width * cell_size <= i64::MAX,
            self@.height * cell_size <= i64::MAX,
        ensures
            r.0 == cell_center(self@, cell_size as int, i as int).0,
            r.1 == cell_center(self@, cell_size as int, i as int).1,
    {
        let w = self.width();
        let h = self.height();
        proof {
            lemma_coords_of(i as int, w as int, h as int);
        }
        let x = i % w;
        let y = i / w;
        proof {
            assert(x * cell_size <= w * cell_size) by (nonlinear_arith)
                requires
                    x < w,
            ;
            assert(y * cell_size <= h * cell_size) by (nonlinear_arith)
                requires
                    y < h,
            ;
        }
        let wx: i128 = (x as i128) * (cell_size as i128);
        let wy: i128 = (y as i128) * (cell_size as i128);
        (wx as i64, wy as i64)
    }
}

/// Mapping the centre of any cell back to the grid gives that cell again.
pub proof fn center_maps_to_its_cell(g: GridView, s: int, i: int)
    requires
        g.wf(),
        s > 0,
        0 <= i < g.len(),
    ensures
        cell_at(g, s, cell_center(g, s, i).0, cell_center(g, s, i).1) == Some(i),
{
    let c = cell_center(g, s, i);
    let x = col_of(i, g.width as int);
    let y = row_of(i, g.width as int);
    assert(in_span(x * s, x, s)) by (nonlinear_arith)
        requires
            s > 0,
    ;
    assert(in_span(y * s, y, s)) by (nonlinear_arith)
        requires
            s > 0,
    ;
    lemma_cell_at(g, s, i, c.0, c.1);
}

/// With an even cell size, the point on the lower corner of a cell maps to
/// that cell, and a point on its upper edge maps to the next cell along that
/// axis, or to no cell past the last one: the squares leave neither gaps nor
/// overlaps.
pub proof fn edges_are_half_open(g: GridView, s: int, x: int, y: int)
    requires
        g.wf(),
        s > 0,
        s % 2 == 0,
        0 <= x < g.width,
        0 <= y < g.height,
    ensures
        cell_at(g, s, x * s - s / 2, y * s - s / 2) == Some(x + y * g.width),
        cell_at(g, s, x * s + s / 2, y * s) == (if x + 1 < g.width {
            Some(x + 1 + y * g.width)
        } else {
            None
        }),
        cell_at(g, s, x * s, y * s + s / 2) == (if y + 1 < g.height {
            Some(x + (y + 1) * g.width)
        } else {
            None
        }),
{
    let w = g.width as int;
    let h = g.height as int;
    let t = s / 2;
    assert(s == 2 * t);
    lemma_index_of(x, y, w, h);
    assert(in_span(x * s - t, x, s) && in_span(y * s - t, y, s)) by (nonlinear_arith)
        requires
            s == 2 * t,
            t > 0,
    ;
    lemma_cell_at(g, s, x + y * w, x * s - t, y * s - t);
    assert(in_span(x * s + t, x + 1, s) && in_span(y * s + t, y + 1, s)) by (nonlinear_arith)
        requires
            s == 2 * t,
            t > 0,
    ;
    assert(in_span(x * s, x, s) && in_span(y * s, y, s)) by (nonlinear_arith)
        requires
            s == 2 * t,
            t > 0,
    ;
    if x + 1 < w {
        lemma_index_of(x + 1, y, w, h);
        lemma_cell_at(g, s, x + 1 + y * w, x * s + t, y * s);
    } else if exists|i: int| #[trigger] cell_contains(g, s, i, x * s + t, y * s) {
        let i = choose|i: int| #[trigger] cell_contains(g, s, i, x * s + t, y * s);
        lemma_coords_of(i, w, h);
        lemma_span_unique(x * s + t, x + 1, col_of(i, w), s);
    }
    if y + 1 < h {
        lemma_index_of(x, y + 1, w, h);
        lemma_cell_at(g, s, x + (y + 1) * w, x * s, y * s + t);
    } else if exists|i: int| #[trigger] cell_contains(g, s, i, x * s, y * s + t) {
        let i = choose|i: int| #[trigger] cell_contains(g, s, i, x * s, y * s + t);
        lemma_coords_of(i, w, h);
        lemma_span_unique(y * s + t, y + 1, row_of(i, w), s);
    }
}

} // verus!
