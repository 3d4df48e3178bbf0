use vstd::arithmetic::div_mod::lemma_fundamental_div_mod_converse;
use vstd::prelude::*;

use crate::cell::Cell;
use crate::universe::{lemma_index, lemma_index_bound, lemma_position, rule, Grid};

verus! {

/// The row (or column) before `x` on a torus of `n`.
pub open spec fn wrap_dec(x: int, n: int) -> int {
    if x == 0 {
        n - 1
    } else {
        x - 1
    }
}

/// The row (or column) after `x` on a torus of `n`.
pub open spec fn wrap_inc(x: int, n: int) -> int {
    if x + 1 == n {
        0
    } else {
        x + 1
    }
}

/// One for a position that `alive` holds, zero otherwise.
pub open spec fn hit(alive: spec_fn(int, int) -> bool, r: int, c: int) -> nat {
    if alive(r, c) {
        1
    } else {
        0
    }
}

/// Number of the eight toroidal neighbours of `(r, c)`, on an area `h`
/// high and `w` wide, that `alive` holds.
pub open spec fn count_in(alive: spec_fn(int, int) -> bool, h: int, w: int, r: int, c: int) -> nat {
    let (u, d, l, rt) = (wrap_dec(r, h), wrap_inc(r, h), wrap_dec(c, w), wrap_inc(c, w));
    hit(alive, u, l) + hit(alive, u, c) + hit(alive, u, rt) + hit(alive, r, l) + hit(alive, r, rt)
        + hit(alive, d, l) + hit(alive, d, c) + hit(alive, d, rt)
}

/// Whether the live cells of `g` are exactly the positions that `alive`
/// holds.
pub open spec fn holds(g: Grid, alive: spec_fn(int, int) -> bool) -> bool {
    forall|r: int, c: int| g.in_bounds(r, c) ==> #[trigger] g.at(r, c) == Cell::of_bool(alive(r, c))
}

/// Whether one generation takes the live set `alive` to `after` on an area
/// `h` high and `w` wide.
pub open spec fn steps_to(
    alive: spec_fn(int, int) -> bool,
    after: spec_fn(int, int) -> bool,
    h: int,
    w: int,
) -> bool {
    forall|r: int, c: int|
        0 <= r < h && 0 <= c < w ==> #[trigger] rule(
            Cell::of_bool(alive(r, c)),
            count_in(alive, h, w, r, c),
        ) == Cell::of_bool(after(r, c))
}

proof fn lemma_wrap(x: int, n: int)
    requires
        0 <= x < n,
    ensures
        (x - 1) % n == wrap_dec(x, n),
        (x + 1) % n == wrap_inc(x, n),
        x % n == x,
{
    if x == 0 {
        lemma_fundamental_div_mod_converse(x - 1, n, -1, n - 1);
    } else {
        lemma_fundamental_div_mod_converse(x - 1, n, 0, x - 1);
    }
    if x + 1 == n {
        lemma_fundamental_div_mod_converse(x + 1, n, 1, 0);
    } else {
        lemma_fundamental_div_mod_converse(x + 1, n, 0, x + 1);
    }
    lemma_fundamental_div_mod_converse(x, n, 0, x);
}

/// Where one generation takes `alive` to `after`, a grid whose live cells
/// are `alive` has `after` as its next generation's live cells.
proof fn lemma_step(g: Grid, alive: spec_fn(int, int) -> bool, after: spec_fn(int, int) -> bool)
    requires
        g.wf(),
        holds(g, alive),
        steps_to(alive, after, g.height(), g.width()),
    ensures
        g.next().wf(),
        holds(g.next(), after),
{
    let (h, w) = (g.height(), g.width());
    assert forall|r: int, c: int| g.in_bounds(r, c) implies #[trigger] g.next().at(r, c)
        == Cell::of_bool(after(r, c)) by {
        lemma_index(r, c, w);
        lemma_index_bound(r, c, w, h);
        lemma_wrap(r, h);
        lemma_wrap(c, w);
        assert(g.neighbours(r, c) == count_in(alive, h, w, r, c));
        assert(g.next().at(r, c) == rule(g.at(r, c), g.neighbours(r, c)));
    }
}

/// Two grids of one area with the same live positions are the same grid.
proof fn lemma_same_cells(g: Grid, v: Grid, alive: spec_fn(int, int) -> bool)
    requires
        g.wf(),
        v.wf(),
        g.area == v.area,
        g.name == v.name,
        holds(g, alive),
        holds(v, alive),
    ensures
        g == v,
{
    let (h, w) = (g.height(), g.width());
    assert forall|k: int| 0 <= k < g.cells.len() implies g.cells[k] == v.cells[k] by {
        assert(g.cells.len() == w * h);
        lemma_position(k, w, h);
        let (r, c) = (k / w, k % w);
        assert(g.at(r, c) == v.at(r, c));
    }
    assert(g.cells =~= v.cells);
}

/// The 2x2 block with its top left cell at `(r0, c0)`.
pub open spec fn block(r0: int, c0: int) -> spec_fn(int, int) -> bool {
    |r: int, c: int| r0 <= r <= r0 + 1 && c0 <= c <= c0 + 1
}

/// The three cells of a row from `(r0, c0)` rightwards.
pub open spec fn blinker_row(r0: int, c0: int) -> spec_fn(int, int) -> bool {
    |r: int, c: int| r == r0 && c0 <= c <= c0 + 2
}

/// The three cells of column `c0 + 1` in row `r0` and the rows above and
/// below it, wrapping around an area `h` rows high.
pub open spec fn blinker_column(r0: int, c0: int, h: int) -> spec_fn(int, int) -> bool {
    |r: int, c: int| (r == wrap_dec(r0, h) || r == r0 || r == wrap_inc(r0, h)) && c == c0 + 1
}

/// A 2x2 block alone in a grid of at least 4x4 cells is a still life: the
/// next generation is the same grid.
pub proof fn block_is_still_life(g: Grid, r0: int, c0: int)
    requires
        g.wf(),
        g.height() >= 4,
        g.width() >= 4,
        0 <= r0 && r0 + 1 < g.height(),
        0 <= c0 && c0 + 1 < g.width(),
        holds(g, block(r0, c0)),
    ensures
        g.next() == g,
{
    let (h, w) = (g.height(), g.width());
    assert forall|r: int, c: int| 0 <= r < h && 0 <= c < w implies #[trigger] rule(
        Cell::of_bool(block(r0, c0)(r, c)),
        count_in(block(r0, c0), h, w, r, c),
    ) == Cell::of_bool(block(r0, c0)(r, c)) by {}
    lemma_step(g, block(r0, c0), block(r0, c0));
    lemma_same_cells(g.next(), g, block(r0, c0));
}

/// A row of three live cells alone in a grid of at least 5x5 cells is an
/// oscillator of period two: one generation turns it into a column of
/// three through its middle cell (wrapping at the top and bottom edges),
/// and the next gives the grid back.
pub proof fn blinker_has_period_two(g: Grid, r0: int, c0: int)
    requires
        g.wf(),
        g.height() >= 5,
        g.width() >= 5,
        0 <= r0 < g.height(),
        0 <= c0 && c0 + 2 < g.width(),
        holds(g, blinker_row(r0, c0)),
    ensures
        holds(g.next(), blinker_column(r0, c0, g.height())),
        g.next().next() == g,
        g.next() != g,
{
    let (h, w) = (g.height(), g.width());
    let col = blinker_column(r0, c0, h);
    assert forall|r: int, c: int| 0 <= r < h && 0 <= c < w implies #[trigger] rule(
        Cell::of_bool(blinker_row(r0, c0)(r, c)),
        count_in(blinker_row(r0, c0), h, w, r, c),
    ) == Cell::of_bool(col(r, c)) by {}
    assert forall|r: int, c: int| 0 <= r < h && 0 <= c < w implies #[trigger] rule(
        Cell::of_bool(col(r, c)),
        count_in(col, h, w, r, c),
    ) == Cell::of_bool(blinker_row(r0, c0)(r, c)) by {}
    lemma_step(g, blinker_row(r0, c0), col);
    lemma_step(g.next(), col, blinker_row(r0, c0));
    lemma_same_cells(g.next().next(), g, blinker_row(r0, c0));
    assert(g.next().at(wrap_dec(r0, h), c0 + 1) != g.at(wrap_dec(r0, h), c0 + 1));
}

} // verus!
