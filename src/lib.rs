//! Conway's Game of Life on a toroidal grid: the cell rule, a pattern
//! parser, centred placement of patterns, a catalog of starting shapes and
//! the playback controller that drives a simulation.

/// Width and height of a grid.
pub mod area;
/// The state of one cell.
pub mod cell;
/// Still lifes and oscillators under the generation rule.
pub mod oscillators;
/// The text notation of patterns.
pub mod pattern;
/// The playback controller.
pub mod playback;
/// Built-in patterns, procedural fills and the pattern catalog.
pub mod shapes;
/// Grids and the generation rule.
pub mod universe;

pub use area::Area;
pub use cell::Cell;
pub use playback::App;
pub use shapes::HandleError;
pub use universe::Universe;
