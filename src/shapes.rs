use vstd::prelude::*;

use crate::area::Area;
use crate::cell::Cell;
use crate::pattern::{parse_text, parsed_as};
use crate::universe::{centred, lemma_index, lemma_index_bound, repeat_cell, Grid, Universe};

verus! {

/// Why a grid could not be produced.
#[derive(Debug, Clone, Copy, PartialEq, Eq, Structural)]
pub enum HandleError {
    /// A catalog index beyond the last entry.
    OutOfRange,
    /// A pattern larger than the area it should be placed in.
    TooBig,
    /// A character of pattern text that names no cell state.
    ParseError(char),
    /// A placed grid whose population differs from its pattern's.
    Other,
}


/// Number of entries in the catalog: the built-in patterns, then the
/// procedural fills.
pub const N: usize = 10;

/// Number of built-in patterns, the first entries of the catalog.
pub const N_FIXED: usize = 6;

/// Number of procedural fills, the last entries of the catalog.
pub const N_SPECIAL: usize = 4;

pub const COPPERHEAD: &'static str = "\
!Name: Copperhead
.....O.OO...
....O......O
...OO...O..O
OO.O.....OO.
OO.O.....OO.
...OO...O..O
....O......O
.....O.OO...";

pub const GOSPER_GLIDER_GUN: &'static str = "\
!Name: Gosper glider gun
!Author: Bill Gosper
!The first known gun and the first known finite pattern with unbounded growth.
!www.conwaylife.com/wiki/index.php?title=Gosper_glider_gun
........................O
......................O.O
............OO......OO............OO
...........O...O....OO............OO
OO........O.....O...OO
OO........O...O.OO....O.O
..........O.....O.......O
...........O...O
............OO
";

/// 3x3
pub const GLIDER: &'static str = "\
!Name: Glider
..O
O.O
.OO";

/// The glider is also known as the featherweight spaceship.
pub const FEATHERWEIGTH_SPACESHIP: &'static str = GLIDER;

/// 8x4
pub const RABBITS: &'static str = "\
!Name: Rabbits
O.....O.
..O...O.
..O..O.O
.O.O....";

/// 3x5
pub const BONK_TIE: &'static str = "\
!Name: Bonk tie
OO
OO
..O
..O
..O";

/// 7x3
pub const ACORN: &'static str = "\
!Name: Acorn
.O
...O
OO..OOO";

/// Text of the built-in pattern `i`.
pub open spec fn builtin_text(i: int) -> Seq<char> {
    if i == 0 {
        GLIDER@
    } else if i == 1 {
        GOSPER_GLIDER_GUN@
    } else if i == 2 {
        COPPERHEAD@
    } else if i == 3 {
        RABBITS@
    } else if i == 4 {
        BONK_TIE@
    } else {
        ACORN@
    }
}

fn builtin(i: usize) -> (r: &'static str)
    requires
        i < N_FIXED,
    ensures
        r@ == builtin_text(i as int),
{
    if i == 0 {
        GLIDER
    } else if i == 1 {
        GOSPER_GLIDER_GUN
    } else if i == 2 {
        COPPERHEAD
    } else if i == 3 {
        RABBITS
    } else if i == 4 {
        BONK_TIE
    } else {
        ACORN
    }
}

/// The grids of the first `n` built-in patterns, in order, leaving out any
/// whose text does not parse.
pub open spec fn parsed_builtins(n: int) -> Seq<Grid>
    decreases n,
{
    if n <= 0 {
        Seq::empty()
    } else {
        match parse_text(builtin_text(n - 1)) {
            Ok(g) => parsed_builtins(n - 1).push(g),
            Err(_) => parsed_builtins(n - 1),
        }
    }
}

/// A grid of `area` whose cell at storage index `k` is `f(k)`, named `name`.
pub open spec fn filled(area: Area, f: spec_fn(int) -> Cell, name: Seq<char>) -> Grid {
    Grid { area, cells: Seq::new(area.size(), f), name }
}

/// Stripes: a cell is alive where its storage index is even or a
/// multiple of seven.
pub open spec fn stripe_cell(k: int) -> Cell {
    if k % 2 == 0 || k % 7 == 0 {
        Cell::Alive
    } else {
        Cell::Dead
    }
}

/// The frame of `area`: a ring of live cells one cell in from the edge,
/// nothing where the area is under three cells wide or high.
pub open spec fn frame_cell(area: Area, row: int, col: int) -> Cell {
    let h = area.height as int;
    let w = area.width as int;
    if h >= 3 && w >= 3 && 1 <= row <= h - 2 && 1 <= col <= w - 2 && (row == 1 || row == h - 2
        || col == 1 || col == w - 2) {
        Cell::Alive
    } else {
        Cell::Dead
    }
}

/// The frame of `area` as a grid.
pub open spec fn frame_grid(area: Area) -> Grid {
    filled(
        area,
        |k: int| frame_cell(area, k / (area.width as int), k % (area.width as int)),
        "frame"@,
    )
}

/// The frame of an area under three cells wide or high is all dead.
pub proof fn small_frame_is_dead(area: Area)
    requires
        area.width < 3 || area.height < 3,
    ensures
        frame_grid(area).wf(),
        forall|k: int|
            0 <= k < frame_grid(area).cells.len() ==> #[trigger] frame_grid(area).cells[k]
                == Cell::Dead,
{
}

/// Relies on fastrand::bool: a value drawn from the thread's generator, of
/// which nothing is known.
pub assume_specification[ fastrand::bool ]() -> bool;

/// A grid of `area` with every cell dead.
pub fn empty(area: Area) -> (r: Universe)
    ensures
        r@ == filled(area, |_k: int| Cell::Dead, "empty"@),
        r.wf(),
{
    Universe::new(area, repeat_cell(Cell::Dead, area.len()), "empty")
}

/// A grid of `area` with every cell alive.
pub fn full(area: Area) -> (r: Universe)
    ensures
        r@ == filled(area, |_k: int| Cell::Alive, "full"@),
        r.wf(),
{
    Universe::new(area, repeat_cell(Cell::Alive, area.len()), "full")
}

/// A grid of `area` named `random` whose cell at storage index `k` is
/// alive exactly where `bits[k]` holds.
pub fn random_fill(area: Area, bits: &Vec<bool>) -> (r: Universe)
    requires
        bits@.len() == area.size(),
    ensures
        r@ == filled(area, |k: int| Cell::of_bool(bits@[k]), "random"@),
        r.wf(),
{
    let n = bits.len();
    let mut cells: Vec<Cell> = Vec::with_capacity(n);
    let mut i: usize = 0;
    while i < n
        invariant
            n == bits@.len(),
            i <= n,
            cells@ == Seq::new(i as nat, |k: int| Cell::of_bool(bits@[k])),
        decreases n - i,
    {
        if bits[i] {
            cells.push(Cell::Alive);
        } else {
            cells.push(Cell::Dead);
        }
        i += 1;
        assert(cells@ =~= Seq::new(i as nat, |k: int| Cell::of_bool(bits@[k])));
    }
    Universe::new(area, cells, "random")
}

/// A grid of `area` with each cell drawn at random.
pub fn rand(area: Area) -> (r: Universe)
    ensures
        r.area == area,
        r.name@ == "random"@,
        r.wf(),
{
    let n = area.len();
    let mut bits: Vec<bool> = Vec::with_capacity(n);
    let mut i: usize = 0;
    while i < n
        invariant
            i <= n,
            bits@.len() == i,
        decreases n - i,
    {
        bits.push(fastrand::bool());
        i += 1;
    }
    random_fill(area, &bits)
}

/// A grid of `area` in stripes: a cell is alive where its storage index is
/// even or a multiple of seven.
pub fn stripes(area: Area) -> (r: Universe)
    ensures
        r@ == filled(area, |k: int| stripe_cell(k), "stripes"@),
        r.wf(),
{
    let n = area.len();
    let mut cells: Vec<Cell> = Vec::with_capacity(n);
    let mut i: usize = 0;
    while i < n
        invariant
            i <= n,
            cells@ == Seq::new(i as nat, |k: int| stripe_cell(k)),
        decreases n - i,
    {
        if i % 2 == 0 || i % 7 == 0 {
            cells.push(Cell::Alive);
        } else {
            cells.push(Cell::Dead);
        }
        i += 1;
        assert(cells@ =~= Seq::new(i as nat, |k: int| stripe_cell(k)));
    }
    Universe::new(area, cells, "stripes")
}

/// A grid of `area` holding a rectangular ring of live cells one cell in
/// from the edge. An area under three cells wide or high gives an all-dead
/// grid.
pub fn frame(area: Area) -> (r: Universe)
    ensures
        r@ == frame_grid(area),
        r.wf(),
{
    let h = area.height;
    let w = area.width;
    let ghost target = frame_grid(area).cells;
    let mut cells: Vec<Cell> = Vec::with_capacity(area.len());
    proof {
        assert(area.size() == h * w) by (nonlinear_arith)
            requires
                area.size() == (w as nat) * (h as nat),
        ;
    }
    let mut row: u16 = 0;
    while row < h
        invariant
            h == area.height,
            w == area.width,
            target == frame_grid(area).cells,
            target.len() == h * w,
            row <= h,
            cells@.len() == row * w,
            forall|k: int| 0 <= k < cells@.len() ==> cells@[k] == target[k],
        decreases h - row,
    {
        let mut col: u16 = 0;
        while col < w
            invariant
                h == area.height,
                w == area.width,
                target == frame_grid(area).cells,
                target.len() == h * w,
                row < h,
                col <= w,
                cells@.len() == row * w + col,
                forall|k: int| 0 <= k < cells@.len() ==> cells@[k] == target[k],
            decreases w - col,
        {
            proof {
                lemma_index(row as int, col as int, w as int);
                lemma_index_bound(row as int, col as int, w as int, h as int);
            }
            let ring = h >= 3 && w >= 3 && 1 <= row && row <= h - 2 && 1 <= col && col <= w - 2
                && (row == 1 || row == h - 2 || col == 1 || col == w - 2);
            if ring {
                cells.push(Cell::Alive);
            } else {
                cells.push(Cell::Dead);
            }
            col += 1;
        }
        assert(row * w + w == (row + 1) * w) by (nonlinear_arith);
        row += 1;
    }
    assert(cells@ =~= target);
    Universe::new(area, cells, "frame")
}

/// The procedural fill `i` of the catalog for `area`: full, frame,
/// random, stripes.
pub fn get_special(i: usize, area: Area) -> (r: Universe)
    requires
        i < N_SPECIAL,
    ensures
        r.wf(),
        r.area == area,
        i == 0 ==> r@ == filled(area, |_k: int| Cell::Alive, "full"@),
        i == 1 ==> r@ == frame_grid(area),
        i == 2 ==> r.name@ == "random"@,
        i == 3 ==> r@ == filled(area, |k: int| stripe_cell(k), "stripes"@),
{
    if i == 0 {
        full(area)
    } else if i == 1 {
        frame(area)
    } else if i == 2 {
        rand(area)
    } else {
        stripes(area)
    }
}

/// The built-in patterns, parsed, in catalog order.
pub fn all() -> (r: Vec<Universe>)
    ensures
        r@.len() == parsed_builtins(N_FIXED as int).len(),
        forall|t: int|
            0 <= t < r@.len() ==> #[trigger] r@[t]@ == parsed_builtins(N_FIXED as int)[t]
                && r@[t].wf(),
{
    let mut r: Vec<Universe> = Vec::new();
    let mut i: usize = 0;
    while i < N_FIXED
        invariant
            i <= N_FIXED,
            r@.len() == parsed_builtins(i as int).len(),
            forall|t: int|
                0 <= t < r@.len() ==> #[trigger] r@[t]@ == parsed_builtins(i as int)[t]
                    && r@[t].wf(),
        decreases N_FIXED - i,
    {
        match Universe::from_str(builtin(i)) {
            Ok(u) => r.push(u),
            Err(_) => {},
        }
        i += 1;
    }
    r
}

/// Number of entries in the catalog.
pub fn count() -> (r: usize)
    ensures
        r == N,
{
    N
}

/// Entry `i` of the catalog for `area`: a built-in pattern centred in
/// `area`, or a procedural fill of it. Fails with `OutOfRange` past the
/// last entry, with `TooBig` where the pattern does not fit `area`.
pub fn get(area: Area, i: usize) -> (r: Result<Universe, HandleError>)
    ensures
        i >= N <==> r == Err::<Universe, HandleError>(HandleError::OutOfRange),
        i < N_FIXED ==> match parse_text(builtin_text(i as int)) {
            Err(e) => r == Err::<Universe, HandleError>(e),
            Ok(g) => if area.contains(g.area) {
                (r matches Ok(u) && u@ == centred(area, g) && u.wf())
            } else {
                r == Err::<Universe, HandleError>(HandleError::TooBig)
            },
        },
        N_FIXED <= i < N ==> (r matches Ok(u) && u.wf() && u.area == area),
        i == N_FIXED ==> (r matches Ok(u) && u@ == filled(area, |_k: int| Cell::Alive, "full"@)),
        i == N_FIXED + 1 ==> (r matches Ok(u) && u@ == frame_grid(area)),
        i == N_FIXED + 2 ==> (r matches Ok(u) && u.name@ == "random"@),
        i == N_FIXED + 3 ==> (r matches Ok(u) && u@ == filled(
            area,
            |k: int| stripe_cell(k),
            "stripes"@,
        )),
{
    if i >= N {
        return Err(HandleError::OutOfRange);
    }
    if i < N_FIXED {
        match Universe::from_str(builtin(i)) {
            Ok(figur) => Universe::from_figur(area, figur),
            Err(e) => Err(e),
        }
    } else {
        Ok(get_special(i - N_FIXED, area))
    }
}

/// The copperhead spaceship, 12x8, in `#`/`_` rows.
pub fn copperhead() -> (r: Vec<String>)
    ensures
        r@.len() == 8,
        r@[0]@ == "_____#_##___"@,
        r@[1]@ == "____#______#"@,
        r@[2]@ == "___##___#__#"@,
        r@[3]@ == "##_#_____##_"@,
        r@[4]@ == "##_#_____##_"@,
        r@[5]@ == "___##___#__#"@,
        r@[6]@ == "____#______#"@,
        r@[7]@ == "_____#_##___"@,
{
    let mut r: Vec<String> = Vec::new();
    r.push("_____#_##___".to_owned());
    r.push("____#______#".to_owned());
    r.push("___##___#__#".to_owned());
    r.push("##_#_____##_".to_owned());
    r.push("##_#_____##_".to_owned());
    r.push("___##___#__#".to_owned());
    r.push("____#______#".to_owned());
    r.push("_____#_##___".to_owned());
    r
}

/// The Gosper glider gun, 36x9, in `#`/`_` rows.
pub fn gosper_glider_gun() -> (r: Vec<String>)
    ensures
        r@.len() == 9,
        r@[0]@ == "________________________#___________"@,
        r@[1]@ == "______________________#_#___________"@,
        r@[2]@ == "____________##______##____________##"@,
        r@[3]@ == "___________#___#____##____________##"@,
        r@[4]@ == "##________#_____#___##______________"@,
        r@[5]@ == "##________#___#_##____#_#___________"@,
        r@[6]@ == "__________#_____#_______#___________"@,
        r@[7]@ == "___________#___#____________________"@,
        r@[8]@ == "____________##______________________"@,
{
    let mut r: Vec<String> = Vec::new();
    r.push("________________________#___________".to_owned());
    r.push("______________________#_#___________".to_owned());
    r.push("____________##______##____________##".to_owned());
    r.push("___________#___#____##____________##".to_owned());
    r.push("##________#_____#___##______________".to_owned());
    r.push("##________#___#_##____#_#___________".to_owned());
    r.push("__________#_____#_______#___________".to_owned());
    r.push("___________#___#____________________".to_owned());
    r.push("____________##______________________".to_owned());
    r
}

/// The glider (featherweight spaceship), 3x3, in `#`/`_` rows.
pub fn featherweigth_spaceship() -> (r: Vec<String>)
    ensures
        r@.len() == 3,
        r@[0]@ == "__#"@,
        r@[1]@ == "#_#"@,
        r@[2]@ == "_##"@,
{
    let mut r: Vec<String> = Vec::new();
    r.push("__#".to_owned());
    r.push("#_#".to_owned());
    r.push("_##".to_owned());
    r
}

/// The rabbits methuselah, 8x4, in `#`/`_` rows.
pub fn rabbits() -> (r: Vec<String>)
    ensures
        r@.len() == 4,
        r@[0]@ == "#_____#_"@,
        r@[1]@ == "__#___#_"@,
        r@[2]@ == "__#__#_#"@,
        r@[3]@ == "_#_#____"@,
{
    let mut r: Vec<String> = Vec::new();
    r.push("#_____#_".to_owned());
    r.push("__#___#_".to_owned());
    r.push("__#__#_#".to_owned());
    r.push("_#_#____".to_owned());
    r
}

/// The bonk tie, 3x5, in `#`/`_` rows.
pub fn bonk_tie() -> (r: Vec<String>)
    ensures
        r@.len() == 5,
        r@[0]@ == "##_"@,
        r@[1]@ == "##_"@,
        r@[2]@ == "__#"@,
        r@[3]@ == "__#"@,
        r@[4]@ == "__#"@,
{
    let mut r: Vec<String> = Vec::new();
    r.push("##_".to_owned());
    r.push("##_".to_owned());
    r.push("__#".to_owned());
    r.push("__#".to_owned());
    r.push("__#".to_owned());
    r
}

/// The acorn methuselah, 7x3, in `#`/`_` rows.
pub fn acorn() -> (r: Vec<String>)
    ensures
        r@.len() == 3,
        r@[0]@ == "_#_____"@,
        r@[1]@ == "___#___"@,
        r@[2]@ == "##__###"@,
{
    let mut r: Vec<String> = Vec::new();
    r.push("_#_____".to_owned());
    r.push("___#___".to_owned());
    r.push("##__###".to_owned());
    r
}

} // verus!
