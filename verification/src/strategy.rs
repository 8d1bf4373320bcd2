//! Strategies: ways of deciding the next move from the state of the game.

use vstd::prelude::*;
use rand::Rng;
use std::fmt::Debug;
use crate::cell::Direction;
use crate::game::Game;
use crate::state::GameView;

verus! {

/// What a strategy wants done next.
#[derive(Debug, Clone, Copy, PartialEq, Eq, Structural)]
pub enum Action {
    Move(Direction),
    GiveUp,
}

/// A way of playing: given the game, the next thing to do.
pub trait SnakeStrategy {
    fn decide_move<R: Rng + Debug>(&mut self, game: &Game<R>) -> Action;
}

/// A key of the keyboard, as far as the game tells keys apart.
#[derive(Debug, Clone, Copy, PartialEq, Eq, Structural)]
pub enum Key {
    Up,
    Down,
    Left,
    Right,
    Esc,
    Other,
}

/// What a key press asks for: an arrow key asks for a move in its
/// direction, escape gives up, and any other key asks for nothing.
pub open spec fn key_action(key: Key) -> Option<Action> {
    match key {
        Key::Up => Some(Action::Move(Direction::Up)),
        Key::Down => Some(Action::Move(Direction::Down)),
        Key::Right => Some(Action::Move(Direction::Right)),
        Key::Left => Some(Action::Move(Direction::Left)),
        Key::Esc => Some(Action::GiveUp),
        Key::Other => None,
    }
}

/// What a key press asks for, or `None` for a key the game ignores.
pub fn action_for_key(key: Key) -> (action: Option<Action>)
    ensures
        action == key_action(key),
{
    match key {
        Key::Up => Some(Action::Move(Direction::Up)),
        Key::Down => Some(Action::Move(Direction::Down)),
        Key::Right => Some(Action::Move(Direction::Right)),
        Key::Left => Some(Action::Move(Direction::Left)),
        Key::Esc => Some(Action::GiveUp),
        Key::Other => None,
    }
}

/// A strategy by fixed rules: it mostly circles the board along its edges,
/// and cuts across towards the apple where the apple is close.
#[derive(Debug, Clone, Copy)]
pub struct Rotate {}

impl GameView {
    /// Whether the head is in the lower half of the board.
    pub open spec fn head_in_lower_half(self) -> bool {
        self.head().1 < self.board.height / 2
    }

    /// Whether the apple is in the same half of the board, lower or upper,
    /// as the head.
    pub open spec fn apple_in_same_half(self) -> bool {
        (self.apple.1 < self.board.height / 2) == self.head_in_lower_half()
    }

    /// The direction the rules prefer, before it is known whether that
    /// move is permitted.
    ///
    /// In the first column the snake goes up, and right from the top row.
    /// In the column whose `x` is the height less one it goes down, and
    /// left from the bottom row. In the other columns it goes left on the
    /// bottom row and right on the top row; in between it goes down in an
    /// odd column and left in an even one while in the lower half, and up
    /// in an even column and right in an odd one while in the upper half.
    ///
    /// It turns towards the apple instead where the apple is in the same
    /// half as the head and in the head's column or the next one behind:
    /// up in an even column, on the bottom row or elsewhere in the lower
    /// half, and down in an odd column, on the top row or elsewhere in the
    /// upper half. On the bottom and top rows the apple must then be off
    /// the head's row, elsewhere it must lie ahead of the head.
    pub open spec fn rotate_direction(self) -> Direction {
        let head = self.head();
        let dx = self.apple.0 - head.0;
        let dy = self.apple.1 - head.1;
        let upward = head.0 % 2 == 0;
        let lower = self.head_in_lower_half();
        let near = self.apple_in_same_half();
        let at_left = head.0 == 0;
        let at_right = head.0 == self.board.height - 1;
        let at_bottom = head.1 == 0;
        let at_top = head.1 == self.board.height - 1;
        if at_left {
            if at_top {
                Direction::Right
            } else {
                Direction::Up
            }
        } else if at_right {
            if at_bottom {
                Direction::Left
            } else {
                Direction::Down
            }
        } else if at_bottom {
            if near && upward && (dx == 0 || dx == -1) && dy != 0 {
                Direction::Up
            } else {
                Direction::Left
            }
        } else if at_top {
            if near && !upward && (dx == 0 || dx == 1) && dy != 0 {
                Direction::Down
            } else {
                Direction::Right
            }
        } else if lower {
            if !upward {
                Direction::Down
            } else if near && (dx == 0 || dx == -1) && dy > 0 {
                Direction::Up
            } else {
                Direction::Left
            }
        } else {
            if upward {
                Direction::Up
            } else if near && (dx == 0 || dx == 1) && dy < 0 {
                Direction::Down
            } else {
                Direction::Right
            }
        }
    }

    /// The move the rules make: in the direction they prefer where that
    /// move is permitted, and otherwise up from the lower half and down
    /// from the upper half.
    pub open spec fn rotate_action(self) -> Action {
        let preferred = self.rotate_direction();
        if self.verdict(preferred) is Ok {
            Action::Move(preferred)
        } else if self.head_in_lower_half() {
            Action::Move(Direction::Up)
        } else {
            Action::Move(Direction::Down)
        }
    }
}

impl SnakeStrategy for Rotate {
    fn decide_move<R: Rng + Debug>(&mut self, game: &Game<R>) -> (action: Action)
        ensures
            action == game@.rotate_action(),
    {
        let (s_head_x, s_head_y) = game.snake_head();
        let (apple_x, apple_y) = game.apple_position();
        let height = game.board().height();
        proof {
            let w = game@.board.width;
            let h = game@.board.height;
            assert(w < usize::MAX) by (nonlinear_arith)
                requires
                    w * h <= usize::MAX,
                    h >= 5,
            ;
        }

        let in_lower_half = s_head_y < height / 2;
        let in_upward_col = s_head_x % 2 == 0;
        let apple_in_same_half = (apple_y < height / 2) == in_lower_half;
        let apple_here_or_left = apple_x == s_head_x || apple_x + 1 == s_head_x;
        let apple_here_or_right = apple_x == s_head_x || apple_x == s_head_x + 1;

        let at_left = s_head_x == 0;
        let at_right = s_head_x == height - 1;
        let at_bottom = s_head_y == 0;
        let at_top = s_head_y == height - 1;

        let direction = if at_left && at_top {
            Direction::Right
        } else if at_left {
            Direction::Up
        } else if at_right && at_bottom {
            Direction::Left
        } else if at_right {
            Direction::Down
        } else if at_bottom {
            if apple_in_same_half && in_upward_col && apple_here_or_left && apple_y != s_head_y {
                Direction::Up
            } else {
                Direction::Left
            }
        } else if at_top {
            if apple_in_same_half && !in_upward_col && apple_here_or_right && apple_y != s_head_y {
                Direction::Down
            } else {
                Direction::Right
            }
        } else if in_lower_half && in_upward_col {
            if apple_x + 1 == s_head_x && apple_y == s_head_y {
                Direction::Left
            } else if apple_in_same_half && apple_here_or_left && apple_y > s_head_y {
                Direction::Up
            } else {
                Direction::Left
            }
        } else if in_lower_half {
            Direction::Down
        } else if !in_upward_col {
            if apple_x == s_head_x + 1 && apple_y == s_head_y {
                Direction::Right
            } else if apple_in_same_half && apple_here_or_right && apple_y < s_head_y {
                Direction::Down
            } else {
                Direction::Right
            }
        } else {
            Direction::Up
        };

        if game.check_if_move_safe(direction).is_ok() {
            Action::Move(direction)
        } else if in_lower_half {
            Action::Move(Direction::Up)
        } else {
            Action::Move(Direction::Down)
        }
    }
}

} // verus!
