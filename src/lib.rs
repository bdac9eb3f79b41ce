//! A snake game on a fixed square grid: the rules of movement, growth,
//! collision and steering, stated and proved over a mathematical view of the
//! game. Drawing, timing and input handling are left to the caller.
pub mod app;
pub mod laws;
pub mod util;

pub use app::{App, Pos};
pub use util::{Cell, Color, Direction, GameState};
