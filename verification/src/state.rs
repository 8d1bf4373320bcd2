//! The game as a mathematical value, and the rule of one tick stated on it.

use vstd::prelude::*;
use crate::board::{adjacent, Grid};
use crate::cell::{Cell, Direction, SnakeLost};
use crate::text::decimal;

verus! {

/// What a game is: the grid, the snake from head to tail, where the apple
/// was last placed, and how many moves were made.
pub struct GameView {
    pub board: Grid,
    pub snake: Seq<(usize, usize)>,
    pub apple: (usize, usize),
    pub moves: nat,
}

/// The middle of a side of the given length, the lower of the two middles
/// where the length is even.
pub open spec fn centre(dimension: nat) -> nat {
    ((dimension + 1) / 2 - 1) as nat
}

/// The snake a game starts with on a grid of the given size: three
/// segments, the head at the centre and the others straight below it.
pub open spec fn initial_snake(width: nat, height: nat) -> Seq<(usize, usize)> {
    let x = centre(width) as usize;
    let y = centre(height);
    seq![(x, y as usize), (x, (y - 1) as usize), (x, (y - 2) as usize)]
}

/// The grid a game starts with before its apple is placed.
pub open spec fn initial_board(width: nat, height: nat) -> Grid {
    let snake = initial_snake(width, height);
    Grid::blank(width, height).put(snake[0], Cell::Snake).put(snake[1], Cell::Snake).put(
        snake[2],
        Cell::Snake,
    )
}

impl GameView {
    /// The game as it starts on a grid of the given size with its first
    /// apple at `apple`.
    pub open spec fn initial(width: nat, height: nat, apple: (usize, usize)) -> GameView {
        GameView {
            board: initial_board(width, height).put(apple, Cell::Apple),
            snake: initial_snake(width, height),
            apple,
            moves: 0,
        }
    }

    /// The grid is at least five by five, the snake has at least three
    /// segments, and the snake and the apple's position lie on the grid.
    pub open spec fn on_board(self) -> bool {
        &&& self.board.wf()
        &&& self.board.width >= 5
        &&& self.board.height >= 5
        &&& self.snake.len() >= 3
        &&& forall|i: int| 0 <= i < self.snake.len() ==> self.board.contains(#[trigger] self.snake[i])
        &&& self.board.contains(self.apple)
    }

    /// Each segment of the snake lies next to the one behind it.
    pub open spec fn linked(self) -> bool {
        forall|i: int|
            0 <= i < self.snake.len() - 1 ==> adjacent(#[trigger] self.snake[i], self.snake[i + 1])
    }

    /// The snake lies on every cell of the grid.
    pub open spec fn covered(self) -> bool {
        forall|pos: (usize, usize)|
            self.board.contains(pos) ==> #[trigger] self.board.at(pos) == Cell::Snake
    }

    /// What holds of every game, whatever was played. The snake and the
    /// apple's position lie on the grid; the cells marked as snake are
    /// those under the snake; no two segments share a cell, and each lies
    /// next to the one behind it. While the game is not won, the one cell
    /// marked as apple is at the apple's position; once it is won, the snake
    /// lies on every cell.
    pub open spec fn wf(self) -> bool {
        &&& self.on_board()
        &&& self.snake_matches_board()
        &&& self.snake.no_duplicates()
        &&& self.linked()
        &&& (self.apple_matches_board() || self.covered())
    }

    /// The cells marked as snake are exactly those the snake lies on.
    pub open spec fn snake_matches_board(self) -> bool {
        forall|pos: (usize, usize)|
            self.board.contains(pos) ==> (#[trigger] self.board.at(pos) == Cell::Snake
                <==> self.snake.contains(pos))
    }

    /// The one cell marked as apple is the one at the recorded position.
    pub open spec fn apple_matches_board(self) -> bool {
        forall|pos: (usize, usize)|
            self.board.contains(pos) ==> (#[trigger] self.board.at(pos) == Cell::Apple <==> pos
                == self.apple)
    }

    /// No cell is marked as apple.
    pub open spec fn no_apple_on_board(self) -> bool {
        forall|pos: (usize, usize)|
            self.board.contains(pos) ==> #[trigger] self.board.at(pos) != Cell::Apple
    }

    /// The grid and the lists agree, as they do while a game is not won: a
    /// cell is snake exactly where the snake lies, apple exactly at the
    /// apple's position, and no two segments share a cell.
    pub open spec fn consistent(self) -> bool {
        &&& self.snake_matches_board()
        &&& self.apple_matches_board()
        &&& self.snake.no_duplicates()
    }

    /// The head of the snake.
    pub open spec fn head(self) -> (usize, usize) {
        self.snake[0]
    }

    /// The last segment of the snake.
    pub open spec fn tail(self) -> (usize, usize) {
        self.snake[self.snake.len() - 1]
    }

    /// Where a move in `direction` would put the head, or `None` where the
    /// wall is in the way.
    pub open spec fn target(self, direction: Direction) -> Option<(usize, usize)> {
        self.board.neighbour(self.head(), direction)
    }

    /// Whether a move in `direction` may be made, and why not: into the
    /// wall, or onto a cell marked as snake other than the one the tail is
    /// on.
    pub open spec fn verdict(self, direction: Direction) -> Result<(), SnakeLost> {
        match self.target(direction) {
            None => Err(SnakeLost::RanIntoWall),
            Some(target) => if self.board.at(target) == Cell::Snake && target != self.tail() {
                Err(SnakeLost::RanIntoSnake)
            } else {
                Ok(())
            },
        }
    }

    /// Whether a move in `direction` puts the head on the apple.
    pub open spec fn eats(self, direction: Direction) -> bool {
        match self.target(direction) {
            None => false,
            Some(target) => self.board.at(target) == Cell::Apple,
        }
    }

    /// The game after a permitted move in `direction`, before any new apple
    /// is placed. The head steps onto the target and every other segment
    /// takes the place of the one before it. Where the target held the
    /// apple the old tail stays as a new last segment; otherwise the old
    /// tail's cell is marked empty before the head's cell is marked snake,
    /// so that a head that follows the tail finds its cell marked.
    pub open spec fn shifted(self, direction: Direction) -> GameView
        recommends
            self.verdict(direction) is Ok,
    {
        let target = self.target(direction)->Some_0;
        let body = seq![target] + self.snake.drop_last();
        if self.eats(direction) {
            GameView {
                board: self.board.put(target, Cell::Snake),
                snake: body.push(self.tail()),
                moves: self.moves + 1,
                ..self
            }
        } else {
            GameView {
                board: self.board.put(self.tail(), Cell::Empty).put(target, Cell::Snake),
                snake: body,
                moves: self.moves + 1,
                ..self
            }
        }
    }

    /// The game as text for a terminal: a line with the number of moves
    /// and the apple's position, then the board.
    pub open spec fn text(self) -> Seq<char> {
        "Move Count: "@ + decimal(self.moves) + "  Apple position: ("@ + decimal(
            self.apple.0 as nat,
        ) + ", "@ + decimal(self.apple.1 as nat) + ")\n"@ + self.board.text()
    }

    /// The game with a new apple at `pos`.
    pub open spec fn with_apple(self, pos: (usize, usize)) -> GameView {
        GameView { board: self.board.put(pos, Cell::Apple), apple: pos, ..self }
    }

    /// Whether `after` and `won` are a possible result of a permitted move
    /// in `direction`. Without an apple eaten the result is the shifted
    /// game. With one eaten and no empty cell left the game is won and the
    /// shifted game is returned as it is; with an empty cell left the new
    /// apple lies on one of them.
    pub open spec fn moved(self, direction: Direction, after: GameView, won: bool) -> bool
        recommends
            self.verdict(direction) is Ok,
    {
        let next = self.shifted(direction);
        if !self.eats(direction) {
            !won && after == next
        } else if next.board.full() {
            won && after == next
        } else {
            !won && next.board.is_free(after.apple) && after == next.with_apple(after.apple)
        }
    }
}

} // verus!
