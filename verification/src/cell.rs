//! The small enumerations the engine is built from.

use vstd::prelude::*;

verus! {

/// What occupies one position of the board.
#[derive(Debug, Clone, Copy, PartialEq, Eq, Structural)]
pub enum Cell {
    Empty,
    Snake,
    Apple,
}

impl Default for Cell {
    fn default() -> (cell: Self)
        ensures
            cell == Cell::Empty,
    {
        Cell::Empty
    }
}

impl Cell {
    /// The character a cell is drawn with.
    pub open spec fn glyph_spec(self) -> char {
        match self {
            Cell::Empty => '\u{2591}',
            Cell::Snake => 's',
            Cell::Apple => 'a',
        }
    }

    /// The text this cell is drawn with: its one character.
    pub fn glyph(self) -> (text: &'static str)
        ensures
            text@ == seq![self.glyph_spec()],
    {
        proof {
            reveal_strlit("\u{2591}");
            reveal_strlit("s");
            reveal_strlit("a");
        }
        let text = match self {
            Cell::Empty => "\u{2591}",
            Cell::Snake => "s",
            Cell::Apple => "a",
        };
        assert(text@ =~= seq![self.glyph_spec()]);
        text
    }
}

/// One of the four ways the head can step.
#[derive(Debug, Clone, Copy, PartialEq, Eq, Structural)]
pub enum Direction {
    Up,
    Down,
    Left,
    Right,
}

/// Why a move ended the game.
#[derive(Debug, Clone, Copy, PartialEq, Eq, Structural)]
pub enum SnakeLost {
    RanIntoWall,
    RanIntoSnake,
}

} // verus!
