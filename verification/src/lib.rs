//! A tile-grid game engine: a fixed-size board of cells, each holding up to
//! two depth-ordered occupants, that resolves player input and periodic timer
//! ticks into movements, animations, and a win condition, and emits a
//! deduplicated batch of redraw instructions.
//!
//! The engine is pure: display and asset access are collaborators that an
//! embedding program drives from the draw commands the engine returns.
use vstd::prelude::*;

pub mod actions;
pub mod events;
pub mod grid;
pub mod items;
pub mod laws;
pub mod level;
pub mod spell_state;
pub mod start_menu;
pub mod state_machine;
pub mod tiles;

verus! {

/// Board width in cells.
pub const MAX_X: usize = 15;

/// Board height in cells.
pub const MAX_Y: usize = 10;

/// Depth layers per cell: background (0) and foreground (1).
pub const LAYERS: usize = 2;

} // verus!
