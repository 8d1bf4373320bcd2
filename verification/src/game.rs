//! The game: a board, a snake, an apple and a random source, advanced one
//! move at a time.

use vstd::prelude::*;
use rand::Rng;
use rand::rngs::ThreadRng;
use std::fmt::Debug;
use crate::board::{lemma_blank, lemma_free_indices, lemma_put, Board, Grid};
use crate::cell::{Cell, Direction, SnakeLost};
use crate::laws::{lemma_initial_game, lemma_move_keeps_consistency, lemma_snake_fits};
use crate::random::{choose_one, thread_rng};
use crate::state::{initial_board, initial_snake, GameView};
use crate::text::append_decimal;

verus! {

/// A game of Snake.
///
/// Whatever was played, the board and the lists agree: the cells marked as
/// snake are those under the snake, no two segments share a cell, each
/// segment lies next to the one behind it, and the one cell marked as apple
/// is at the apple's position, until the game is won and the snake lies on
/// every cell.
#[derive(Debug)]
pub struct Game<R> {
    board: Board,
    /// The cells the snake lies on, from head to tail.
    snake: Vec<(usize, usize)>,
    apple_position: (usize, usize),
    move_count: u32,
    rng: R,
}

/// The answer of the apple placement when no cell is empty.
#[derive(Debug, Clone, Copy)]
struct NoSpaceLeft;

impl<R> View for Game<R> {
    type V = GameView;

    closed spec fn view(&self) -> GameView {
        GameView {
            board: self.board@,
            snake: self.snake@,
            apple: self.apple_position,
            moves: self.move_count as nat,
        }
    }
}

impl<R> Game<R> {
    #[verifier::type_invariant]
    pub(crate) open spec fn inv(self) -> bool {
        self@.wf()
    }

    /// The random source the game draws its apples from.
    pub closed spec fn source(self) -> R {
        self.rng
    }
}

impl<R: Clone> Clone for Game<R> {
    /// A second game in the same position, with a copy of the random
    /// source.
    fn clone(&self) -> (copy: Self)
        ensures
            copy@ == self@,
            cloned(self.source(), copy.source()),
    {
        proof {
            use_type_invariant(self);
        }
        let mut snake: Vec<(usize, usize)> = Vec::with_capacity(self.snake.len());
        let mut i: usize = 0;
        while i < self.snake.len()
            invariant
                i <= self.snake@.len(),
                snake@ == self.snake@.subrange(0, i as int),
            decreases self.snake@.len() - i,
        {
            snake.push(self.snake[i]);
            i += 1;
            assert(snake@ =~= self.snake@.subrange(0, i as int));
        }
        assert(snake@ =~= self.snake@);
        Game {
            board: self.board.clone(),
            snake,
            apple_position: self.apple_position,
            move_count: self.move_count,
            rng: self.rng.clone(),
        }
    }
}

impl Game<ThreadRng> {
    /// Starts a game on a board of `width` by `height` cells, with the
    /// random source of the current thread.
    #[must_use]
    pub fn new(width: usize, height: usize) -> (game: Self)
        requires
            width >= 5,
            height >= 5,
            width * height <= usize::MAX,
        ensures
            game@ == GameView::initial(width as nat, height as nat, game@.apple),
            initial_board(width as nat, height as nat).is_free(game@.apple),
            game@.wf(),
            game@.consistent(),
    {
        let rng = thread_rng();
        Self::new_with_rng(width, height, rng)
    }
}

impl<R> Game<R> {
    /// The board.
    pub fn board(&self) -> (board: &Board)
        ensures
            board@ == self@.board,
            self@.wf(),
    {
        proof {
            use_type_invariant(self);
        }
        &self.board
    }

    /// The cells the snake lies on, from head to tail.
    pub fn snake(&self) -> (snake: &Vec<(usize, usize)>)
        ensures
            snake@ == self@.snake,
            snake@.no_duplicates(),
            self@.linked(),
            self@.wf(),
    {
        proof {
            use_type_invariant(self);
        }
        &self.snake
    }

    /// Where the apple was last placed.
    pub fn apple_position(&self) -> (apple: (usize, usize))
        ensures
            apple == self@.apple,
            self@.wf(),
    {
        proof {
            use_type_invariant(self);
        }
        self.apple_position
    }

    /// The number of segments of the snake.
    pub fn snake_len(&self) -> (len: usize)
        ensures
            len == self@.snake.len(),
            3 <= len <= self@.board.width * self@.board.height,
            self@.wf(),
    {
        proof {
            use_type_invariant(self);
            lemma_snake_fits(self@);
        }
        self.snake.len()
    }

    /// The cell the head is on.
    pub fn snake_head(&self) -> (head: (usize, usize))
        ensures
            head == self@.head(),
            self@.wf(),
    {
        proof {
            use_type_invariant(self);
        }
        self.snake[0]
    }

    /// The game as text for a terminal: a line with the number of moves
    /// and the apple's position, then the board.
    pub fn dump(&self) -> (text: String)
        ensures
            text@ == self@.text(),
    {
        let mut out = String::new();
        out.append("Move Count: ");
        append_decimal(&mut out, self.move_count as u64);
        out.append("  Apple position: (");
        append_decimal(&mut out, self.apple_position.0 as u64);
        out.append(", ");
        append_decimal(&mut out, self.apple_position.1 as u64);
        out.append(")\n");
        let board = self.board.render();
        out.append(board.as_str());
        assert(out@ =~= self@.text());
        out
    }

    /// The number of moves made so far.
    pub fn move_count(&self) -> (moves: u32)
        ensures
            moves == self@.moves,
            self@.wf(),
    {
        proof {
            use_type_invariant(self);
        }
        self.move_count
    }
}

impl<R: Rng + Debug> Game<R> {
    /// Starts a game on a board of `width` by `height` cells: the snake has
    /// three segments, its head at the centre of the board and the others
    /// straight below, and the apple lies on a cell that `rng` picked among
    /// the empty ones.
    pub fn new_with_rng(width: usize, height: usize, rng: R) -> (game: Self)
        requires
            width >= 5,
            height >= 5,
            width * height <= usize::MAX,
        ensures
            game@ == GameView::initial(width as nat, height as nat, game@.apple),
            initial_board(width as nat, height as nat).is_free(game@.apple),
            game@.wf(),
            game@.consistent(),
    {
        let mut rng = rng;
        let mut board = Board::new(width, height);
        assert(width < usize::MAX && height < usize::MAX) by (nonlinear_arith)
            requires
                width >= 5,
                height >= 5,
                width * height <= usize::MAX,
        ;
        let snake = Self::initial_snake((width, height));
        board.set(snake[0], Cell::Snake);
        board.set(snake[1], Cell::Snake);
        board.set(snake[2], Cell::Snake);
        proof {
            let blank = Grid::blank(width as nat, height as nat);
            let first = blank.put(snake@[0], Cell::Snake);
            let second = first.put(snake@[1], Cell::Snake);
            lemma_blank(width as nat, height as nat);
            lemma_put(blank, snake@[0], Cell::Snake);
            lemma_put(first, snake@[1], Cell::Snake);
            lemma_put(second, snake@[2], Cell::Snake);
            assert(board@.is_free((0, 0)));
        }
        let apple_position = Self::new_apple_pos(&board, &mut rng).unwrap();
        board.set(apple_position, Cell::Apple);
        proof {
            lemma_initial_game(width as nat, height as nat, apple_position);
        }
        Game { board, snake, apple_position, move_count: 0, rng }
    }

    /// Moves the snake one step in `direction`, for a caller that knows the
    /// move to be permitted. Says whether the game is won.
    pub fn move_snake(self, direction: Direction) -> (moved: (Self, bool))
        requires
            self@.verdict(direction) is Ok,
            self@.moves < u32::MAX,
        ensures
            self@.wf(),
            self@.moved(direction, moved.0@, moved.1),
            !self@.eats(direction) ==> moved.0.source() == self.source(),
            moved.0@.wf(),
            !moved.1 && self@.consistent() ==> moved.0@.consistent(),
            moved.1 ==> moved.0@.covered(),
    {
        self.try_move_snake(direction).unwrap()
    }

    /// Says whether a move in `direction` would lose the game, and how,
    /// without making it.
    pub fn check_if_move_safe(&self, direction: Direction) -> (safe: Result<(), SnakeLost>)
        ensures
            safe == self@.verdict(direction),
            self@.wf(),
    {
        proof {
            use_type_invariant(self);
        }
        let old_head = self.snake[0];
        match self.board.neighbour(old_head, direction) {
            None => Err(SnakeLost::RanIntoWall),
            Some(new_head) => {
                let old_tail = self.snake[self.snake.len() - 1];
                let onto_tail = new_head.0 == old_tail.0 && new_head.1 == old_tail.1;
                if self.board.get(new_head) == Cell::Snake && !onto_tail {
                    Err(SnakeLost::RanIntoSnake)
                } else {
                    Ok(())
                }
            },
        }
    }

    /// Tries to move the snake one step in `direction`.
    ///
    /// A move into the wall, or onto a cell marked as snake that the tail
    /// is not on, loses the game: the game comes back as it was, with the
    /// reason. Any other move is made. If it ate the apple the snake grows
    /// by its old tail and a new apple is placed on an empty cell; with no
    /// empty cell left the game is won, which the flag says. If it ate
    /// none, the tail leaves its cell and the random source is left alone.
    ///
    /// Only a move that is made is counted, so only such a move needs room
    /// in the counter.
    pub fn try_move_snake(self, direction: Direction) -> (moved: Result<
        (Self, bool),
        (Self, SnakeLost),
    >)
        requires
            self@.verdict(direction) is Ok ==> self@.moves < u32::MAX,
        ensures
            self@.wf(),
            match moved {
                Ok((game, won)) => {
                    &&& self@.verdict(direction) is Ok
                    &&& self@.moved(direction, game@, won)
                    &&& !self@.eats(direction) ==> game.source() == self.source()
                    &&& game@.wf()
                    &&& !won && self@.consistent() ==> game@.consistent()
                    &&& won ==> game@.covered()
                },
                Err((game, reason)) => {
                    &&& self@.verdict(direction) == Err::<(), SnakeLost>(reason)
                    &&& game == self
                },
            },
    {
        proof {
            use_type_invariant(&self);
        }
        if let Err(reason) = self.check_if_move_safe(direction) {
            return Err((self, reason));
        }
        let ghost before = self@;
        let Game { mut board, mut snake, mut apple_position, move_count, mut rng } = self;
        let old_head = snake[0];
        let new_head = board.neighbour(old_head, direction).unwrap();
        let old_tail = snake[snake.len() - 1];

        // Shift the body: the new head in front, the last segment dropped.
        snake.pop();
        snake.insert(0, new_head);
        assert(snake@ =~= seq![new_head] + before.snake.drop_last());

        let before_head = board.get(new_head);
        let mut game_won = false;
        if before_head == Cell::Apple {
            board.set(new_head, Cell::Snake);
            snake.push(old_tail);
            match Self::new_apple_pos(&board, &mut rng) {
                Ok(apple_pos) => {
                    board.set(apple_pos, Cell::Apple);
                    apple_position = apple_pos;
                },
                Err(_) => {
                    game_won = true;
                },
            }
        } else {
            // The tail leaves its cell before the head is marked, so that a
            // head that follows the tail finds its cell marked.
            board.set(old_tail, Cell::Empty);
            board.set(new_head, Cell::Snake);
        }
        proof {
            let after = GameView {
                board: board@,
                snake: snake@,
                apple: apple_position,
                moves: (move_count + 1) as nat,
            };
            lemma_move_keeps_consistency(before, direction, after, game_won);
        }
        Ok((Game { board, snake, apple_position, move_count: move_count + 1, rng }, game_won))
    }

    fn initial_snake(board_size: (usize, usize)) -> (snake: Vec<(usize, usize)>)
        requires
            5 <= board_size.0 < usize::MAX,
            5 <= board_size.1 < usize::MAX,
        ensures
            snake@ == initial_snake(board_size.0 as nat, board_size.1 as nat),
    {
        let center_x: usize = ((board_size.0 + 1) / 2) - 1;
        let center_y: usize = ((board_size.1 + 1) / 2) - 1;
        let snake = vec![(center_x, center_y), (center_x, center_y - 1), (center_x, center_y - 2)];
        assert(snake@ =~= initial_snake(board_size.0 as nat, board_size.1 as nat));
        snake
    }

    fn new_apple_pos(board: &Board, rng: &mut R) -> (found: Result<(usize, usize), NoSpaceLeft>)
        ensures
            found is Ok <==> !board@.full(),
            found is Ok ==> board@.is_free(found->Ok_0),
    {
        let empty_spaces = board.empty_cells();
        match choose_one(&empty_spaces, rng) {
            None => Err(NoSpaceLeft),
            Some(apple_pos) => {
                proof {
                    lemma_free_indices(board@, apple_pos);
                }
                Ok(board.position(apple_pos))
            },
        }
    }
}

} // verus!
