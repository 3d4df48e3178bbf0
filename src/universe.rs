use vstd::arithmetic::div_mod::{
    lemma_add_mod_noop_right, lemma_fundamental_div_mod_converse, lemma_mod_bound,
};
use vstd::prelude::*;

use crate::area::Area;
use crate::cell::Cell;
use crate::shapes::HandleError;

verus! {

/// The mathematical value of a grid: its area, its cells in row-major order
/// and its display name.
pub struct Grid {
    pub area: Area,
    pub cells: Seq<Cell>,
    pub name: Seq<char>,
}

/// Number of live cells in `cells`.
pub open spec fn count_alive(cells: Seq<Cell>) -> nat
    decreases cells.len(),
{
    if cells.len() == 0 {
        0
    } else {
        count_alive(cells.drop_last()) + cells.last().weight()
    }
}

/// The generation rule: a live cell survives with two or three live
/// neighbours, a dead cell comes alive with exactly three.
pub open spec fn rule(cell: Cell, neighbours: nat) -> Cell {
    match cell {
        Cell::Alive => if neighbours == 2 || neighbours == 3 {
            Cell::Alive
        } else {
            Cell::Dead
        },
        Cell::Dead => if neighbours == 3 {
            Cell::Alive
        } else {
            Cell::Dead
        },
    }
}

impl Grid {
    pub open spec fn width(self) -> int {
        self.area.width as int
    }

    pub open spec fn height(self) -> int {
        self.area.height as int
    }

    /// One cell for each position of the area.
    pub open spec fn wf(self) -> bool {
        self.cells.len() == self.area.size()
    }

    pub open spec fn in_bounds(self, row: int, col: int) -> bool {
        0 <= row < self.height() && 0 <= col < self.width()
    }

    /// The cell at `(row, col)`, stored at `row * width + col`.
    pub open spec fn at(self, row: int, col: int) -> Cell {
        self.cells[row * self.width() + col]
    }

    /// Weight of the cell at `(row, col)` taken modulo the area: the grid
    /// wraps around at its edges.
    pub open spec fn wrapped(self, row: int, col: int) -> nat {
        self.at(row % self.height(), col % self.width()).weight()
    }

    /// Number of live cells among the eight toroidal neighbours of
    /// `(row, col)`.
    pub open spec fn neighbours(self, row: int, col: int) -> nat {
        self.wrapped(row - 1, col - 1) + self.wrapped(row - 1, col) + self.wrapped(row - 1, col + 1)
            + self.wrapped(row, col - 1) + self.wrapped(row, col + 1) + self.wrapped(row + 1, col - 1)
            + self.wrapped(row + 1, col) + self.wrapped(row + 1, col + 1)
    }

    /// The next generation: every cell follows `rule`, all computed from
    /// this generation.
    pub open spec fn next(self) -> Grid {
        Grid {
            area: self.area,
            cells: Seq::new(
                self.cells.len(),
                |k: int|
                    rule(self.cells[k], self.neighbours(k / self.width(), k % self.width())),
            ),
            name: self.name,
        }
    }

    pub open spec fn alive_count(self) -> nat {
        count_alive(self.cells)
    }
}

/// Row where a pattern `inner` high starts when centred in `outer` rows.
pub open spec fn centre_start(outer: u16, inner: u16) -> int {
    (outer - inner) / 2
}

/// The cell at `(row, col)` of `area` once `pat` is centred in it: the
/// pattern's cell inside the centred rectangle, a dead cell elsewhere.
pub open spec fn centred_cell(area: Area, pat: Grid, row: int, col: int) -> Cell {
    let sr = centre_start(area.height, pat.area.height);
    let sc = centre_start(area.width, pat.area.width);
    if sr <= row < sr + pat.height() && sc <= col < sc + pat.width() {
        pat.at(row - sr, col - sc)
    } else {
        Cell::Dead
    }
}

/// An all-dead grid of `area`, named after `pat`, with `pat` copied into
/// its centre.
pub open spec fn centred(area: Area, pat: Grid) -> Grid {
    Grid {
        area,
        cells: Seq::new(
            area.size(),
            |k: int| centred_cell(area, pat, k / (area.width as int), k % (area.width as int)),
        ),
        name: pat.name,
    }
}

/// Number of pattern cells that come before `(row, col)` in row-major
/// order when the pattern's rectangle starts at `(sr, sc)`.
spec fn consumed(sr: int, sc: int, ph: int, pw: int, row: int, col: int) -> int {
    if row < sr {
        0
    } else if row >= sr + ph {
        ph * pw
    } else if col < sc {
        (row - sr) * pw
    } else if col >= sc + pw {
        (row - sr) * pw + pw
    } else {
        (row - sr) * pw + (col - sc)
    }
}

/// Nothing of the pattern comes before the first position.
proof fn lemma_consumed_start(sr: int, sc: int, ph: int, pw: int)
    requires
        0 <= sr,
        0 <= sc,
        0 <= ph,
        0 <= pw,
    ensures
        consumed(sr, sc, ph, pw, 0, 0) == 0,
{
    assert(0 * pw == 0);
    assert(ph == 0 ==> ph * pw == 0);
}

/// Finishing a row of the target leaves as much of the pattern consumed as
/// starting the next one.
proof fn lemma_consumed_next_row(sr: int, sc: int, ph: int, pw: int, row: int, w: int)
    requires
        0 <= sr,
        0 <= sc,
        0 <= ph,
        0 <= pw,
        0 <= row,
        sc + pw <= w,
    ensures
        consumed(sr, sc, ph, pw, row + 1, 0) == consumed(sr, sc, ph, pw, row, w),
{
    assert((row + 1 - sr) * pw == (row - sr) * pw + pw) by (nonlinear_arith);
    assert(ph * pw == (ph - 1) * pw + pw) by (nonlinear_arith);
    assert(0 * pw == 0);
}

/// At the end, the whole pattern has been consumed.
proof fn lemma_consumed_end(sr: int, sc: int, ph: int, pw: int, h: int)
    requires
        0 <= sr,
        0 <= sc,
        0 <= ph,
        0 <= pw,
        sr + ph <= h,
    ensures
        consumed(sr, sc, ph, pw, h, 0) == ph * pw,
{
    if h < sr + ph {
    } else if ph == 0 {
        assert(ph * pw == 0);
    }
}

/// Counting live cells splits over a prefix and the cell after it.
proof fn lemma_count_take(s: Seq<Cell>, j: int)
    requires
        0 <= j < s.len(),
    ensures
        count_alive(s.take(j + 1)) == count_alive(s.take(j)) + s[j].weight(),
{
    assert(s.take(j + 1).drop_last() =~= s.take(j));
}

/// `v` is `g` moved by `(dr, dc)` around the torus: the cell at `(r, c)` of
/// `g` sits at `((r + dr) mod height, (c + dc) mod width)` of `v`.
pub open spec fn is_shift(g: Grid, v: Grid, dr: int, dc: int) -> bool {
    &&& v.area == g.area
    &&& forall|r: int, c: int|
        g.in_bounds(r, c) ==> #[trigger] v.at((r + dr) % g.height(), (c + dc) % g.width())
            == g.at(r, c)
}

/// Moving `x` by `d` and then by `a` lands where moving by `a` and then by
/// `d` does, modulo `n`.
proof fn lemma_shift_mod(x: int, a: int, d: int, n: int)
    requires
        n > 0,
    ensures
        ((x + d) % n + a) % n == ((x + a) % n + d) % n,
        0 <= (x + a) % n < n,
{
    lemma_add_mod_noop_right(a, x + d, n);
    lemma_add_mod_noop_right(d, x + a, n);
    assert(a + (x + d) == d + (x + a));
    lemma_mod_bound(x + a, n);
}

/// The neighbour count does not change when the whole grid moves around the
/// torus: the cell that `(row, col)` moved to has as many live neighbours
/// in the moved grid as `(row, col)` had in the first.
pub proof fn neighbours_shift_invariant(g: Grid, v: Grid, dr: int, dc: int, row: int, col: int)
    requires
        g.wf(),
        v.wf(),
        is_shift(g, v, dr, dc),
        g.in_bounds(row, col),
    ensures
        v.neighbours((row + dr) % g.height(), (col + dc) % g.width()) == g.neighbours(row, col),
{
    let (h, w) = (g.height(), g.width());
    let (rr, cc) = ((row + dr) % h, (col + dc) % w);
    lemma_shift_one(g, v, dr, dc, row, col, -1, -1);
    lemma_shift_one(g, v, dr, dc, row, col, -1, 0);
    lemma_shift_one(g, v, dr, dc, row, col, -1, 1);
    lemma_shift_one(g, v, dr, dc, row, col, 0, -1);
    lemma_shift_one(g, v, dr, dc, row, col, 0, 1);
    lemma_shift_one(g, v, dr, dc, row, col, 1, -1);
    lemma_shift_one(g, v, dr, dc, row, col, 1, 0);
    lemma_shift_one(g, v, dr, dc, row, col, 1, 1);
}

/// One neighbour of the moved cell matches the neighbour of the first.
proof fn lemma_shift_one(g: Grid, v: Grid, dr: int, dc: int, row: int, col: int, a: int, b: int)
    requires
        is_shift(g, v, dr, dc),
        g.in_bounds(row, col),
    ensures
        v.wrapped((row + dr) % g.height() + a, (col + dc) % g.width() + b) == g.wrapped(
            row + a,
            col + b,
        ),
{
    let (h, w) = (g.height(), g.width());
    lemma_shift_mod(row, a, dr, h);
    lemma_shift_mod(col, b, dc, w);
    assert(v.at(((row + a) % h + dr) % h, ((col + b) % w + dc) % w) == g.at(
        (row + a) % h,
        (col + b) % w,
    ));
}

/// Position `(row, col)` of a grid `width` cells wide is stored at
/// `row * width + col`, and nothing else is stored there.
pub proof fn lemma_index(row: int, col: int, width: int)
    requires
        0 <= col < width,
    ensures
        (row * width + col) / width == row,
        (row * width + col) % width == col,
{
    lemma_fundamental_div_mod_converse(row * width + col, width, row, col);
}

/// Positions of an area lie inside its row-major storage.
pub proof fn lemma_index_bound(row: int, col: int, width: int, height: int)
    requires
        0 <= row < height,
        0 <= col < width,
    ensures
        0 <= row * width + col < width * height,
{
    assert(0 <= row * width + col < width * height) by (nonlinear_arith)
        requires
            0 <= row < height,
            0 <= col < width,
    ;
}

/// Each stored cell sits at the position that its index names.
pub proof fn lemma_position(k: int, width: int, height: int)
    requires
        0 <= k < width * height,
        0 < width,
    ensures
        0 <= k / width < height,
        0 <= k % width < width,
        (k / width) * width + k % width == k,
{
    assert(0 <= k / width < height && 0 <= k % width < width && (k / width) * width + k % width
        == k) by (nonlinear_arith)
        requires
            0 <= k < width * height,
            0 < width,
    ;
}

/// Reading the next generation at a position gives the rule applied there.
pub proof fn lemma_next_at(g: Grid, row: int, col: int)
    requires
        g.wf(),
        g.in_bounds(row, col),
    ensures
        g.next().at(row, col) == rule(g.at(row, col), g.neighbours(row, col)),
{
    lemma_index(row, col, g.width());
    lemma_index_bound(row, col, g.width(), g.height());
}

/// The `Universe` in which the game plays: an area and its cells in
/// row-major order, with a display name.
#[derive(Debug, Clone, PartialEq, Eq)]
pub struct Universe {
    pub area: Area,
    pub cells: Vec<Cell>,
    pub name: String,
}

impl View for Universe {
    type V = Grid;

    open spec fn view(&self) -> Grid {
        Grid { area: self.area, cells: self.cells@, name: self.name@ }
    }
}

/// A vector of `n` copies of `cell`.
pub fn repeat_cell(cell: Cell, n: usize) -> (r: Vec<Cell>)
    ensures
        r@ == Seq::new(n as nat, |_k: int| cell),
{
    let mut r: Vec<Cell> = Vec::with_capacity(n);
    let mut i: usize = 0;
    while i < n
        invariant
            i <= n,
            r@ == Seq::new(i as nat, |_k: int| cell),
        decreases n - i,
    {
        r.push(cell);
        i += 1;
        assert(r@ =~= Seq::new(i as nat, |_k: int| cell));
    }
    r
}

/// The cell that the generation rule gives a cell in state `cell` with
/// `neighbours` live neighbours.
fn next_state(cell: Cell, neighbours: u8) -> (r: Cell)
    ensures
        r == rule(cell, neighbours as nat),
{
    match (cell, neighbours) {
        (Cell::Alive, 2) | (Cell::Alive, 3) => Cell::Alive,
        (Cell::Alive, _) => Cell::Dead,
        (Cell::Dead, 3) => Cell::Alive,
        (Cell::Dead, _) => Cell::Dead,
    }
}

/// Number of live cells in `cells`.
pub fn count_alive_cells(cells: &Vec<Cell>) -> (r: usize)
    ensures
        r == count_alive(cells@),
{
    let mut r: usize = 0;
    let mut i: usize = 0;
    while i < cells.len()
        invariant
            i <= cells@.len(),
            r <= i,
            r == count_alive(cells@.take(i as int)),
        decreases cells@.len() - i,
    {
        proof {
            lemma_count_take(cells@, i as int);
        }
        if cells[i].is_alive() {
            r += 1;
        }
        i += 1;
    }
    assert(cells@.take(i as int) =~= cells@);
    r
}

impl Universe {
    pub open spec fn wf(&self) -> bool {
        self@.wf()
    }

    pub fn new(area: Area, cells: Vec<Cell>, name: &str) -> (r: Universe)
        requires
            cells@.len() == area.size(),
        ensures
            r@ == (Grid { area, cells: cells@, name: name@ }),
            r.wf(),
    {
        Universe { area, cells, name: name.to_owned() }
    }

    /// A copy of the grid that shares nothing with it.
    pub fn duplicate(&self) -> (r: Universe)
        ensures
            r@ == self@,
    {
        let n = self.cells.len();
        let mut cells: Vec<Cell> = Vec::with_capacity(n);
        let mut i: usize = 0;
        while i < n
            invariant
                n == self.cells@.len(),
                i <= n,
                cells@ == self.cells@.take(i as int),
            decreases n - i,
        {
            cells.push(self.cells[i]);
            i += 1;
            assert(cells@ =~= self.cells@.take(i as int));
        }
        assert(cells@ =~= self.cells@);
        Universe { area: self.area, cells, name: self.name.clone() }
    }

    pub fn with_name(self, name: &str) -> (r: Universe)
        ensures
            r@ == (Grid { name: name@, ..self@ }),
    {
        Universe { name: name.to_owned(), ..self }
    }

    pub fn name(&self) -> (r: String)
        ensures
            r@ == self.name@,
    {
        self.name.clone()
    }

    pub fn width(&self) -> (r: u16)
        ensures
            r == self.area.width,
    {
        self.area.width
    }

    pub fn height(&self) -> (r: u16)
        ensures
            r == self.area.height,
    {
        self.area.height
    }

    /// Storage index of `(row, col)`, which must lie inside the area.
    fn get_idx(&self, row: usize, col: usize) -> (r: usize)
        requires
            self.wf(),
            row < self.area.height,
            col < self.area.width,
        ensures
            r == row * self.area.width + col,
            r < self.cells@.len(),
    {
        // the vector's length bounds the index arithmetic below
        let _len = self.cells.len();
        proof {
            lemma_index_bound(row as int, col as int, self@.width(), self@.height());
            assert(0 <= row * self.area.width <= row * self.area.width + col) by (nonlinear_arith);
        }
        row * (self.area.width as usize) + col
    }

    /// Storage index of `(row, col)`, or `None` outside the area.
    fn get_idx_res(&self, row: usize, col: usize) -> (r: Option<usize>)
        requires
            self.wf(),
        ensures
            match r {
                Some(i) => self@.in_bounds(row as int, col as int) && i == row * self.area.width
                    + col && i < self.cells@.len(),
                None => !self@.in_bounds(row as int, col as int),
            },
    {
        if row < self.area.height as usize && col < self.area.width as usize {
            Some(self.get_idx(row, col))
        } else {
            None
        }
    }

    /// The cell at `(row, col)`, or `None` where the position lies outside
    /// the area.
    pub fn get(&self, idx: (usize, usize)) -> (r: Option<&Cell>)
        requires
            self.wf(),
        ensures
            match r {
                Some(c) => self@.in_bounds(idx.0 as int, idx.1 as int) && *c == self@.at(
                    idx.0 as int,
                    idx.1 as int,
                ),
                None => !self@.in_bounds(idx.0 as int, idx.1 as int),
            },
    {
        match self.get_idx_res(idx.0, idx.1) {
            Some(i) => Some(&self.cells[i]),
            None => None,
        }
    }

    /// Sets the cell at `(row, col)`, which must lie inside the area.
    pub fn set(&mut self, row: usize, col: usize, cell: Cell)
        requires
            old(self).wf(),
            row < old(self).area.height,
            col < old(self).area.width,
        ensures
            final(self)@ == (Grid {
                cells: old(self)@.cells.update(row * old(self).area.width + col, cell),
                ..old(self)@
            }),
            final(self).wf(),
    {
        let i = self.get_idx(row, col);
        self.cells.set(i, cell);
    }

    /// Number of live cells among the eight neighbours of `(row, col)`,
    /// wrapping around the edges of the area.
    pub fn live_neighbour_count(&self, row: u16, col: u16) -> (r: u8)
        requires
            self.wf(),
            row < self.area.height,
            col < self.area.width,
        ensures
            r == self@.neighbours(row as int, col as int),
    {
        let h = self.area.height;
        let w = self.area.width;
        let up = if row == 0 {
            h - 1
        } else {
            row - 1
        };
        let down = if row + 1 == h {
            0
        } else {
            row + 1
        };
        let left = if col == 0 {
            w - 1
        } else {
            col - 1
        };
        let right = if col + 1 == w {
            0
        } else {
            col + 1
        };
        proof {
            let (hi, wi, ri, ci) = (h as int, w as int, row as int, col as int);
            if ri == 0 {
                lemma_fundamental_div_mod_converse(ri - 1, hi, -1, hi - 1);
            } else {
                lemma_fundamental_div_mod_converse(ri - 1, hi, 0, ri - 1);
            }
            if ri + 1 == hi {
                lemma_fundamental_div_mod_converse(ri + 1, hi, 1, 0);
            } else {
                lemma_fundamental_div_mod_converse(ri + 1, hi, 0, ri + 1);
            }
            lemma_fundamental_div_mod_converse(ri, hi, 0, ri);
            if ci == 0 {
                lemma_fundamental_div_mod_converse(ci - 1, wi, -1, wi - 1);
            } else {
                lemma_fundamental_div_mod_converse(ci - 1, wi, 0, ci - 1);
            }
            if ci + 1 == wi {
                lemma_fundamental_div_mod_converse(ci + 1, wi, 1, 0);
            } else {
                lemma_fundamental_div_mod_converse(ci + 1, wi, 0, ci + 1);
            }
            lemma_fundamental_div_mod_converse(ci, wi, 0, ci);
        }
        self.weight_at(up, left) + self.weight_at(up, col) + self.weight_at(up, right)
            + self.weight_at(row, left) + self.weight_at(row, right) + self.weight_at(down, left)
            + self.weight_at(down, col) + self.weight_at(down, right)
    }

    /// Replaces the grid with its next generation, every cell computed
    /// from the current one.
    pub fn tick(&mut self)
        requires
            old(self).wf(),
        ensures
            final(self)@ == old(self)@.next(),
            final(self).wf(),
    {
        let h = self.area.height;
        let w = self.area.width;
        let ghost g = self@;
        let mut next: Vec<Cell> = Vec::with_capacity(self.cells.len());
        let mut row: u16 = 0;
        while row < h
            invariant
                self@ == g,
                g.wf(),
                h == g.area.height,
                w == g.area.width,
                row <= h,
                next@.len() == row * w,
                forall|k: int| 0 <= k < next@.len() ==> next@[k] == g.next().cells[k],
            decreases h - row,
        {
            let mut col: u16 = 0;
            while col < w
                invariant
                    self@ == g,
                    g.wf(),
                    h == g.area.height,
                    w == g.area.width,
                    row < h,
                    col <= w,
                    next@.len() == row * w + col,
                    forall|k: int| 0 <= k < next@.len() ==> next@[k] == g.next().cells[k],
                decreases w - col,
            {
                let i = self.get_idx(row as usize, col as usize);
                let n = self.live_neighbour_count(row, col);
                let cell = next_state(self.cells[i], n);
                proof {
                    lemma_index(row as int, col as int, w as int);
                }
                next.push(cell);
                col += 1;
            }
            assert(row * w + w == (row + 1) * w) by (nonlinear_arith);
            row += 1;
        }
        assert(h * w == w * h) by (nonlinear_arith);
        assert(next@ =~= g.next().cells);
        self.cells = next;
    }

    /// A grid of `area`, all dead but for `figur` copied into its centre,
    /// and named after `figur`. Fails with `TooBig` where `area` is
    /// narrower or lower than `figur`. The population of the result is
    /// counted again and compared with the pattern's as a guard against a
    /// faulty copy (`Other`).
    pub fn from_figur(area: Area, figur: Universe) -> (r: Result<Universe, HandleError>)
        requires
            figur.wf(),
        ensures
            match r {
                Ok(u) => area.contains(figur.area) && u@ == centred(area, figur@) && u.wf()
                    && u@.alive_count() == figur@.alive_count(),
                Err(e) => !area.contains(figur.area) && e == HandleError::TooBig,
            },
    {
        let figur_alive = count_alive_cells(&figur.cells);
        if area.width < figur.area.width || area.height < figur.area.height {
            return Err(HandleError::TooBig);
        }
        let ghost pat = figur@;
        // the pattern's length bounds the count of copied cells
        let _plen = figur.cells.len();
        let h = area.height;
        let w = area.width;
        let ph = figur.area.height;
        let pw = figur.area.width;
        let sr = (h - ph) / 2;
        let sc = (w - pw) / 2;
        let ghost target = centred(area, pat);
        proof {
            lemma_consumed_start(sr as int, sc as int, ph as int, pw as int);
            assert(area.size() == h * w) by (nonlinear_arith)
                requires
                    area.size() == (w as nat) * (h as nat),
            ;
        }
        let mut cells: Vec<Cell> = Vec::with_capacity(area.len());
        let mut j: usize = 0;
        let mut row: u16 = 0;
        while row < h
            invariant
                figur@ == pat,
                pat.wf(),
                pat.cells.len() <= usize::MAX,
                target == centred(area, pat),
                h == area.height,
                w == area.width,
                ph == pat.area.height,
                pw == pat.area.width,
                sr == centre_start(h, ph),
                sc == centre_start(w, pw),
                row <= h,
                j == consumed(sr as int, sc as int, ph as int, pw as int, row as int, 0),
                cells@.len() == row * w,
                target.cells.len() == h * w,
                forall|k: int| 0 <= k < cells@.len() ==> cells@[k] == target.cells[k],
                count_alive(cells@) == count_alive(pat.cells.take(j as int)),
            decreases h - row,
        {
            let mut col: u16 = 0;
            while col < w
                invariant
                    figur@ == pat,
                    pat.wf(),
                    pat.cells.len() <= usize::MAX,
                    target == centred(area, pat),
                    h == area.height,
                    w == area.width,
                    ph == pat.area.height,
                    pw == pat.area.width,
                    sr == centre_start(h, ph),
                    sc == centre_start(w, pw),
                    row < h,
                    col <= w,
                    j == consumed(sr as int, sc as int, ph as int, pw as int, row as int, col as int),
                    cells@.len() == row * w + col,
                    target.cells.len() == h * w,
                    forall|k: int| 0 <= k < cells@.len() ==> cells@[k] == target.cells[k],
                    count_alive(cells@) == count_alive(pat.cells.take(j as int)),
                decreases w - col,
            {
                proof {
                    lemma_index(row as int, col as int, w as int);
                    lemma_index_bound(row as int, col as int, w as int, h as int);
                }
                let ghost before = cells@;
                if sr <= row && row < sr + ph && sc <= col && col < sc + pw {
                    proof {
                        lemma_index_bound(
                            (row - sr) as int,
                            (col - sc) as int,
                            pw as int,
                            ph as int,
                        );
                        lemma_count_take(pat.cells, j as int);
                    }
                    cells.push(figur.cells[j]);
                    j += 1;
                } else {
                    cells.push(Cell::Dead);
                }
                assert(cells@.drop_last() =~= before);
                col += 1;
            }
            proof {
                assert(row * w + w == (row + 1) * w) by (nonlinear_arith);
                lemma_consumed_next_row(sr as int, sc as int, ph as int, pw as int, row as int, w as int);
            }
            row += 1;
        }
        proof {
            lemma_consumed_end(sr as int, sc as int, ph as int, pw as int, h as int);
            assert(cells@ =~= target.cells);
            assert(ph * pw == pat.cells.len()) by (nonlinear_arith)
                requires
                    pat.cells.len() == (pw as nat) * (ph as nat),
            ;
            assert(pat.cells.take(j as int) =~= pat.cells);
        }
        let univ = Universe { area, cells, name: figur.name };
        if figur_alive == count_alive_cells(&univ.cells) {
            Ok(univ)
        } else {
            Err(HandleError::Other)
        }
    }

    /// One for a live cell at `(row, col)`, zero for a dead one.
    fn weight_at(&self, row: u16, col: u16) -> (r: u8)
        requires
            self.wf(),
            row < self.area.height,
            col < self.area.width,
        ensures
            r == self@.at(row as int, col as int).weight(),
    {
        let i = self.get_idx(row as usize, col as usize);
        if self.cells[i].is_alive() {
            1
        } else {
            0
        }
    }
}

} // verus!
