use vstd::prelude::*;

use crate::area::Area;
use crate::cell::Cell;
use crate::shapes::{
    all, frame_grid, get_special, filled, parsed_builtins, stripe_cell, HandleError, N_FIXED,
    N_SPECIAL,
};
use crate::universe::{centred, Grid, Universe};

verus! {

/// Default interval between two generations, in nanoseconds.
pub const DEF_DUR: u64 = 400_000_000;

/// Whether the simulation runs, and at what interval (in nanoseconds).
#[derive(Debug, Clone, Copy, PartialEq, Eq, Structural)]
pub enum Playback {
    /// Generations follow each other at the interval.
    Running(u64),
    /// No generation follows; the interval is kept to resume with.
    Paused(u64),
}

/// Pausing a running simulation keeps its interval; resuming a paused one
/// restores it.
pub open spec fn toggled(p: Playback) -> Playback {
    match p {
        Playback::Running(t) => Playback::Paused(t),
        Playback::Paused(t) => Playback::Running(t),
    }
}

/// The divisor of a speed step: a half for a big step, a fifth otherwise.
pub open spec fn step_divisor(big: bool) -> u64 {
    if big {
        2
    } else {
        5
    }
}

/// The interval after speeding up from `t`: shortened by a step, and the
/// default interval where that would leave nothing.
pub open spec fn faster_interval(t: u64, big: bool) -> u64 {
    let n = t - t / step_divisor(big);
    if n == 0 {
        DEF_DUR
    } else {
        n as u64
    }
}

/// The interval after slowing down from `t`: lengthened by a step, and
/// the default interval where that overflows or leaves nothing.
pub open spec fn slower_interval(t: u64, big: bool) -> u64 {
    let n = t + t / step_divisor(big);
    if n == 0 || n > u64::MAX {
        DEF_DUR
    } else {
        n as u64
    }
}

/// The catalog index after `i` in a catalog of `n` entries.
pub open spec fn next_index(i: int, n: int) -> int {
    if i + 1 >= n {
        0
    } else {
        i + 1
    }
}

/// The catalog index before `i` in a catalog of `n` entries.
pub open spec fn prev_index(i: int, n: int) -> int {
    if i > 0 {
        i - 1
    } else {
        n - 1
    }
}

/// The procedural fill `j` for `area`, where it does not depend on chance.
pub open spec fn special_grid(j: int, area: Area) -> Grid {
    if j == 0 {
        filled(area, |_k: int| Cell::Alive, "full"@)
    } else if j == 1 {
        frame_grid(area)
    } else {
        filled(area, |k: int| stripe_cell(k), "stripes"@)
    }
}

/// The grid of the entry that `v` points at, placed in `v`'s area: a
/// pattern of the catalog centred in it, or a procedural fill of it.
pub open spec fn placed_entry(v: AppView, g: Grid) -> bool {
    if v.index < v.available.len() {
        g == centred(v.area, v.available[v.index])
    } else if v.index - v.available.len() == 2 {
        g.area == v.area && g.name == "random"@ && g.wf()
    } else {
        g == centred(v.area, special_grid(v.index - v.available.len(), v.area))
    }
}

/// The grid of the entry that `v` points at, as the catalog holds it.
pub open spec fn entry_grid(v: AppView, g: Grid) -> bool {
    if v.index < v.available.len() {
        g == v.available[v.index]
    } else if v.index - v.available.len() == 2 {
        g.area == v.area && g.name == "random"@ && g.wf()
    } else {
        g == special_grid(v.index - v.available.len(), v.area)
    }
}

/// Whether the entry that `v` points at fits `v`'s area. Procedural fills
/// are made to measure.
pub open spec fn entry_fits(v: AppView) -> bool {
    v.index < v.available.len() ==> v.area.contains(v.available[v.index].area)
}

/// What regenerating the grid of `before` gives: where the entry fits, the
/// same state with the entry placed as the grid; else `TooBig`, with the
/// state left as it was.
pub open spec fn restart_post(before: AppView, after: AppView, r: Result<(), HandleError>) -> bool {
    &&& (r is Ok <==> entry_fits(before))
    &&& r is Ok ==> placed_entry(before, after.universe) && after == (AppView {
        universe: after.universe,
        ..before
    })
    &&& r is Err ==> r == Err::<(), HandleError>(HandleError::TooBig) && after == before
}

/// The state of a controller as it is first made: the built-in patterns,
/// an empty grid of no size, the first entry, running at the default
/// interval, in an area of no size.
pub open spec fn default_view() -> AppView {
    AppView {
        available: parsed_builtins(N_FIXED as int),
        universe: Grid {
            area: Area { width: 0, height: 0 },
            cells: Seq::empty(),
            name: Seq::empty(),
        },
        index: 0,
        playback: Playback::Running(DEF_DUR),
        area: Area { width: 0, height: 0 },
    }
}

/// The playback after a speed change by `f`: only a running simulation
/// changes speed.
pub open spec fn rescaled(p: Playback, faster: bool, big: bool) -> Playback {
    match p {
        Playback::Running(t) => Playback::Running(
            if faster {
                faster_interval(t, big)
            } else {
                slower_interval(t, big)
            },
        ),
        Playback::Paused(t) => Playback::Paused(t),
    }
}

/// At most `n` of the first `n` built-in patterns parse.
proof fn lemma_parsed_builtins_len(n: int)
    ensures
        parsed_builtins(n).len() <= if n < 0 {
            0
        } else {
            n
        },
    decreases n,
{
    if n > 0 {
        lemma_parsed_builtins_len(n - 1);
    }
}

/// Pausing and resuming, in either order, restores the playback and its
/// interval exactly.
pub proof fn play_pause_round_trip(p: Playback)
    ensures
        toggled(toggled(p)) == p,
{
}

/// Moving to the next catalog entry and then to the previous one, or the
/// other way round, returns to the starting index.
pub proof fn next_prev_round_trip(i: int, n: int)
    requires
        0 <= i < n,
    ensures
        prev_index(next_index(i, n), n) == i,
        next_index(prev_index(i, n), n) == i,
        0 <= next_index(i, n) < n,
        0 <= prev_index(i, n) < n,
{
}

/// The mathematical value of the controller.
pub struct AppView {
    /// The patterns of the catalog, before the procedural fills.
    pub available: Seq<Grid>,
    /// The grid being simulated.
    pub universe: Grid,
    /// The catalog index of the current entry.
    pub index: int,
    pub playback: Playback,
    /// The display area that entries are placed in.
    pub area: Area,
}

impl AppView {
    /// Number of catalog entries.
    pub open spec fn len(self) -> int {
        self.available.len() + N_SPECIAL
    }
}

/// The playback controller: the grid being simulated, the catalog of
/// patterns it was taken from, the position in that catalog, the display
/// area and the playback state.
pub struct App {
    available_universes: Vec<Universe>,
    universe: Universe,
    i: usize,
    playback: Playback,
    area: Area,
}

impl View for App {
    type V = AppView;

    closed spec fn view(&self) -> AppView {
        AppView {
            available: self.available_universes@.map_values(|u: Universe| u@),
            universe: self.universe@,
            index: self.i as int,
            playback: self.playback,
            area: self.area,
        }
    }
}

impl App {
    /// Every pattern and the current grid hold one cell per position, and
    /// the index names a catalog entry.
    pub closed spec fn wf(&self) -> bool {
        &&& self.available_universes@.len() + N_SPECIAL <= usize::MAX
        &&& self.i < self.available_universes@.len() + N_SPECIAL
        &&& forall|t: int|
            0 <= t < self.available_universes@.len() ==> (#[trigger] self.available_universes@[t]).wf()
        &&& self.universe.wf()
    }

    /// The entry at the current index, as the catalog holds it: a pattern,
    /// or a procedural fill of the display area.
    pub fn get(&self) -> (r: Universe)
        requires
            self.wf(),
        ensures
            entry_grid(self@, r@),
            r.wf(),
    {
        let true_len = self.available_universes.len();
        if self.i < true_len {
            self.available_universes[self.i].duplicate()
        } else {
            get_special(self.i - true_len, self.area)
        }
    }

    /// Regenerates the grid: the current entry placed in the display area.
    /// Where it does not fit, fails with `TooBig` and keeps the grid.
    pub fn restart(&mut self) -> (r: Result<(), HandleError>)
        requires
            old(self).wf(),
        ensures
            final(self).wf(),
            restart_post(old(self)@, final(self)@, r),
    {
        let figur = self.get();
        match Universe::from_figur(self.area, figur) {
            Ok(u) => {
                self.universe = u;
                proof {
                    assert(self@.available =~= old(self)@.available);
                }
                Ok(())
            },
            Err(e) => Err(e),
        }
    }

    /// Advances the grid by one generation, unless paused.
    pub fn tick(&mut self)
        requires
            old(self).wf(),
        ensures
            final(self).wf(),
            final(self)@ == (AppView {
                universe: if old(self)@.playback is Paused {
                    old(self)@.universe
                } else {
                    old(self)@.universe.next()
                },
                ..old(self)@
            }),
    {
        if !self.paused() {
            self.universe.tick();
        }
        proof {
            assert(self@.available =~= old(self)@.available);
        }
    }

    /// Pauses a running simulation, keeping its interval, or resumes a
    /// paused one at the interval it had.
    pub fn play_pause(&mut self)
        requires
            old(self).wf(),
        ensures
            final(self).wf(),
            final(self)@ == (AppView { playback: toggled(old(self)@.playback), ..old(self)@ }),
    {
        self.playback = match self.playback {
            Playback::Running(t) => Playback::Paused(t),
            Playback::Paused(t) => Playback::Running(t),
        };
        proof {
            assert(self@.available =~= old(self)@.available);
        }
    }

    /// Shortens the interval by a fifth, or by a half for a big step; only
    /// while running.
    pub fn faster(&mut self, big: bool)
        requires
            old(self).wf(),
        ensures
            final(self).wf(),
            final(self)@ == (AppView {
                playback: rescaled(old(self)@.playback, true, big),
                ..old(self)@
            }),
    {
        if let Playback::Running(t) = self.playback {
            let div: u64 = if big {
                2
            } else {
                5
            };
            let n = t - t / div;
            self.playback = Playback::Running(
                if n == 0 {
                    DEF_DUR
                } else {
                    n
                },
            );
        }
        proof {
            assert(self@.available =~= old(self)@.available);
        }
    }

    /// Lengthens the interval by a fifth, or by a half for a big step; only
    /// while running. Falls back to the default interval on overflow.
    pub fn slower(&mut self, big: bool)
        requires
            old(self).wf(),
        ensures
            final(self).wf(),
            final(self)@ == (AppView {
                playback: rescaled(old(self)@.playback, false, big),
                ..old(self)@
            }),
    {
        if let Playback::Running(t) = self.playback {
            let div: u64 = if big {
                2
            } else {
                5
            };
            let n = match t.checked_add(t / div) {
                Some(n) => if n == 0 {
                    DEF_DUR
                } else {
                    n
                },
                None => DEF_DUR,
            };
            self.playback = Playback::Running(n);
        }
        proof {
            assert(self@.available =~= old(self)@.available);
        }
    }

    /// Moves to the next catalog entry, wrapping to the first after the
    /// last, and regenerates the grid. Where the entry does not fit the
    /// display area, the index moves all the same, the previous grid stays
    /// and `TooBig` is returned.
    pub fn next(&mut self) -> (r: Result<(), HandleError>)
        requires
            old(self).wf(),
        ensures
            final(self).wf(),
            restart_post(
                AppView { index: next_index(old(self)@.index, old(self)@.len()), ..old(self)@ },
                final(self)@,
                r,
            ),
    {
        if self.i + 1 >= self.len() {
            self.i = 0;
        } else {
            self.i += 1;
        }
        proof {
            assert(self@.available =~= old(self)@.available);
        }
        self.restart()
    }

    /// Moves to the previous catalog entry, wrapping to the last before the
    /// first, and regenerates the grid, as `next` does.
    pub fn prev(&mut self) -> (r: Result<(), HandleError>)
        requires
            old(self).wf(),
        ensures
            final(self).wf(),
            restart_post(
                AppView { index: prev_index(old(self)@.index, old(self)@.len()), ..old(self)@ },
                final(self)@,
                r,
            ),
    {
        if self.i > 0 {
            self.i -= 1;
        } else {
            self.i = self.len() - 1;
        }
        proof {
            assert(self@.available =~= old(self)@.available);
        }
        self.restart()
    }

    /// Takes a new display area and regenerates the grid for it.
    pub fn resize(&mut self, area: Area) -> (r: Result<(), HandleError>)
        requires
            old(self).wf(),
        ensures
            final(self).wf(),
            restart_post(AppView { area, ..old(self)@ }, final(self)@, r),
    {
        self.area = area;
        proof {
            assert(self@.available =~= old(self)@.available);
        }
        self.restart()
    }

    /// Returns the controller to the state it is first made in.
    pub fn reset(&mut self)
        ensures
            final(self).wf(),
            final(self)@ == default_view(),
    {
        *self = App::default();
    }

    /// A controller over `available_universes`, at the first of them,
    /// showing it as it is, in `area`, running at `poll_t` nanoseconds.
    pub fn new(area: Area, available_universes: Vec<Universe>, poll_t: u64) -> (r: App)
        requires
            available_universes@.len() > 0,
            available_universes@.len() + N_SPECIAL <= usize::MAX,
            forall|t: int|
                0 <= t < available_universes@.len() ==> (#[trigger] available_universes@[t]).wf(),
        ensures
            r.wf(),
            r@ == (AppView {
                available: available_universes@.map_values(|u: Universe| u@),
                universe: available_universes@[0]@,
                index: 0,
                playback: Playback::Running(poll_t),
                area,
            }),
    {
        let universe = available_universes[0].duplicate();
        App { area, universe, i: 0, playback: Playback::Running(poll_t), available_universes }
    }

    /// Makes the catalog `universes` followed by the built-in patterns.
    /// The index is kept, and must name an entry of the new catalog.
    pub fn with_universes(self, universes: Vec<Universe>) -> (r: App)
        requires
            self.wf(),
            universes@.len() + N_FIXED + N_SPECIAL <= usize::MAX,
            self@.index < universes@.len() + parsed_builtins(N_FIXED as int).len() + N_SPECIAL,
            forall|t: int| 0 <= t < universes@.len() ==> (#[trigger] universes@[t]).wf(),
        ensures
            r.wf(),
            r@ == (AppView {
                available: universes@.map_values(|u: Universe| u@) + parsed_builtins(
                    N_FIXED as int,
                ),
                ..self@
            }),
    {
        let mut list = universes;
        let mut builtins = all();
        let ghost b = builtins@;
        proof {
            lemma_parsed_builtins_len(N_FIXED as int);
        }
        list.append(&mut builtins);
        let r = App { available_universes: list, ..self };
        proof {
            assert(r@.available =~= universes@.map_values(|u: Universe| u@) + parsed_builtins(
                N_FIXED as int,
            ));
            assert forall|t: int| 0 <= t < r.available_universes@.len() implies (
            #[trigger] r.available_universes@[t]).wf() by {
                if t >= universes@.len() {
                    assert(r.available_universes@[t] == b[t - universes@.len()]);
                }
            }
        }
        r
    }

    /// Whether the simulation is paused.
    pub fn paused(&self) -> (r: bool)
        ensures
            r == (self@.playback is Paused),
    {
        match self.playback {
            Playback::Paused(_) => true,
            Playback::Running(_) => false,
        }
    }

    /// Nanoseconds until the next generation; none while paused.
    pub fn poll_t(&self) -> (r: Option<u64>)
        ensures
            r == match self@.playback {
                Playback::Running(t) => Some(t),
                Playback::Paused(_) => None::<u64>,
            },
    {
        match self.playback {
            Playback::Running(t) => Some(t),
            Playback::Paused(_) => None,
        }
    }

    /// Number of catalog entries: the patterns, then the procedural fills.
    pub fn len(&self) -> (r: usize)
        requires
            self.wf(),
        ensures
            r == self@.len(),
    {
        self.available_universes.len() + N_SPECIAL
    }

    pub fn is_empty(&self) -> (r: bool)
        requires
            self.wf(),
        ensures
            r == (self@.len() == 0),
    {
        self.len() == 0
    }

    /// The grid being simulated.
    pub fn universe(&self) -> (r: &Universe)
        requires
            self.wf(),
        ensures
            r@ == self@.universe,
            r.wf(),
    {
        &self.universe
    }

    /// The catalog index of the current entry.
    pub fn index(&self) -> (r: usize)
        requires
            self.wf(),
        ensures
            r == self@.index,
            r < self@.len(),
    {
        self.i
    }

    /// The display area.
    pub fn area(&self) -> (r: Area)
        ensures
            r == self@.area,
    {
        self.area
    }

    /// The patterns of the catalog, before the procedural fills.
    pub fn available_universes(&self) -> (r: &Vec<Universe>)
        ensures
            r@.map_values(|u: Universe| u@) == self@.available,
    {
        &self.available_universes
    }
}

impl Default for App {
    fn default() -> (r: App)
        ensures
            r.wf(),
            r@ == default_view(),
    {
        let available_universes = all();
        let universe = Universe { area: Area::default(), cells: Vec::new(), name: String::new() };
        let r = App {
            area: Area::default(),
            universe,
            i: 0,
            playback: Playback::Running(DEF_DUR),
            available_universes,
        };
        proof {
            lemma_parsed_builtins_len(N_FIXED as int);
            assert(r@.available =~= parsed_builtins(N_FIXED as int));
            assert(r@.universe.cells =~= Seq::<Cell>::empty());
            assert(r@.universe.name =~= Seq::<char>::empty());
        }
        r
    }
}

} // verus!
