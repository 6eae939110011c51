//! Rules engine for a falling-block puzzle game.
//!
//! The crate owns the playfield grid, piece geometry, collision testing,
//! piece locking, full-row detection and clearing, scoring, the fall timer,
//! and the per-tick round controller.  Rendering, input devices and timing
//! sources live outside and talk to this crate through plain values.

use vstd::prelude::*;

pub mod field;
pub mod fit;
pub mod game;
pub mod piece;
mod random;
pub mod shapes;

pub use field::GameField;
pub use fit::does_piece_fit;
pub use game::Game;
pub use game::GameState;
pub use game::GameTimer;
pub use game::Score;
pub use game::TickInput;
pub use piece::CurrentPiece;
pub use shapes::rotate;

verus! {

/// Default playfield width, including the two border columns.
pub const FIELD_WIDTH: usize = 12;

/// Default playfield height, including the bottom border row.
pub const FIELD_HEIGHT: usize = 18;

} // verus!
