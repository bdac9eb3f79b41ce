//! Cells, directions, game states and colours.
use vstd::prelude::*;

verus! {

/// An RGBA colour with one byte per channel.
#[derive(Clone, Copy, Debug, PartialEq, Eq, Structural)]
pub struct Color {
    red: u8,
    green: u8,
    blue: u8,
    alpha: u8,
}

/// What one position of the grid shows.
#[derive(Clone, Copy, Debug, PartialEq, Eq, Structural)]
pub enum Cell {
    Empty,
    Food,
    Head,
    Tail,
}

/// Whether the game still runs; `Over` lasts until the game is reset.
#[derive(Clone, Copy, Debug, PartialEq, Eq, Structural)]
pub enum GameState {
    Over,
    Playing,
}

/// The way the snake moves; `Still` keeps it in place.
#[derive(Clone, Copy, Debug, PartialEq, Eq, Structural)]
pub enum Direction {
    Up,
    Down,
    Left,
    Right,
    Still,
}

impl Color {
    pub closed spec fn channels(self) -> (u8, u8, u8, u8) {
        (self.red, self.green, self.blue, self.alpha)
    }

    pub fn new(red: u8, green: u8, blue: u8, alpha: u8) -> (c: Color)
        ensures
            c.channels() == (red, green, blue, alpha),
    {
        Color { red, green, blue, alpha }
    }

    /// An opaque colour.
    pub fn new_rgb(red: u8, green: u8, blue: u8) -> (c: Color)
        ensures
            c.channels() == (red, green, blue, 255u8),
    {
        Color { red, green, blue, alpha: 255 }
    }

    /// The four channels: red, green, blue, alpha.
    pub fn bytes(&self) -> (r: (u8, u8, u8, u8))
        ensures
            r == self.channels(),
    {
        (self.red, self.green, self.blue, self.alpha)
    }
}

impl Cell {
    /// The colour a cell is drawn in: empty blue, food red, head green,
    /// tail yellow.
    pub open spec fn color_spec(self) -> (u8, u8, u8, u8) {
        match self {
            Cell::Empty => (0, 0, 255, 255),
            Cell::Food => (255, 0, 0, 255),
            Cell::Head => (0, 255, 0, 255),
            Cell::Tail => (255, 255, 0, 255),
        }
    }

    pub fn color(&self) -> (c: Color)
        ensures
            c.channels() == self.color_spec(),
    {
        match self {
            Cell::Empty => Color::blue(),
            Cell::Food => Color::red(),
            Cell::Head => Color::green(),
            Cell::Tail => Color::yellow(),
        }
    }
}

impl Color {
    pub fn red() -> (c: Color)
        ensures
            c.channels() == (255u8, 0u8, 0u8, 255u8),
    {
        Color::new_rgb(255, 0, 0)
    }

    pub fn green() -> (c: Color)
        ensures
            c.channels() == (0u8, 255u8, 0u8, 255u8),
    {
        Color::new_rgb(0, 255, 0)
    }

    pub fn blue() -> (c: Color)
        ensures
            c.channels() == (0u8, 0u8, 255u8, 255u8),
    {
        Color::new_rgb(0, 0, 255)
    }

    pub fn black() -> (c: Color)
        ensures
            c.channels() == (0u8, 0u8, 0u8, 255u8),
    {
        Color::new_rgb(0, 0, 0)
    }

    pub fn white() -> (c: Color)
        ensures
            c.channels() == (255u8, 255u8, 255u8, 255u8),
    {
        Color::new_rgb(255, 255, 255)
    }

    pub fn yellow() -> (c: Color)
        ensures
            c.channels() == (255u8, 255u8, 0u8, 255u8),
    {
        Color::new_rgb(255, 255, 0)
    }

    pub fn pink() -> (c: Color)
        ensures
            c.channels() == (255u8, 192u8, 203u8, 255u8),
    {
        Color::new_rgb(255, 192, 203)
    }
}

} // verus!
