//! What holds of every game: facts about the starting position and about
//! the move rule, proved from their definitions.

use vstd::prelude::*;
use vstd::set_lib::{lemma_int_range, lemma_len_subset, set_int_range};
use crate::board::{
    adjacent, lemma_blank, lemma_neighbour, lemma_offset_in_range, lemma_position_in_range,
    lemma_put, Grid,
};
use crate::cell::{Cell, Direction, SnakeLost};
use crate::state::{initial_board, initial_snake, GameView};

verus! {

/// A sequence without repeats, with an element in front that is not among
/// them, is a sequence without repeats, and holds that element and the
/// others.
pub proof fn lemma_prepend_distinct<A>(first: A, rest: Seq<A>)
    requires
        rest.no_duplicates(),
        !rest.contains(first),
    ensures
        (seq![first] + rest).no_duplicates(),
        forall|a: A| #[trigger] (seq![first] + rest).contains(a) <==> a == first || rest.contains(a),
{
    let all = seq![first] + rest;
    assert forall|i: int, j: int| 0 <= i < all.len() && 0 <= j < all.len() && i != j implies all[i]
        != all[j] by {
        if i > 0 {
            assert(all[i] == rest[i - 1]);
        }
        if j > 0 {
            assert(all[j] == rest[j - 1]);
        }
    }
    assert forall|a: A| #[trigger] all.contains(a) <==> a == first || rest.contains(a) by {
        if all.contains(a) {
            let i = choose|i: int| 0 <= i < all.len() && all[i] == a;
            if i > 0 {
                assert(rest[i - 1] == a);
            }
        }
        if a == first {
            assert(all[0] == a);
        }
        if rest.contains(a) {
            let i = choose|i: int| 0 <= i < rest.len() && rest[i] == a;
            assert(all[i + 1] == a);
        }
    }
}

/// A sequence without repeats that loses its last element is a sequence
/// without repeats, and holds what it held but the last.
pub proof fn lemma_drop_last_distinct<A>(all: Seq<A>)
    requires
        all.no_duplicates(),
        all.len() > 0,
    ensures
        all.drop_last().no_duplicates(),
        forall|a: A| #[trigger]
            all.drop_last().contains(a) <==> all.contains(a) && a != all[all.len() - 1],
{
    let rest = all.drop_last();
    assert forall|a: A| #[trigger] rest.contains(a) <==> all.contains(a) && a != all[all.len()
        - 1] by {
        if rest.contains(a) {
            let i = choose|i: int| 0 <= i < rest.len() && rest[i] == a;
            assert(all[i] == a);
        }
        if all.contains(a) && a != all[all.len() - 1] {
            let i = choose|i: int| 0 <= i < all.len() && all[i] == a;
            assert(rest[i] == a);
        }
    }
}

/// The places in the cell sequence of the cells in `cells`.
pub open spec fn offsets(grid: Grid, cells: Seq<(usize, usize)>) -> Seq<int> {
    cells.map_values(|pos: (usize, usize)| grid.offset(pos))
}

/// Cells on the grid, no two the same, have places in the cell sequence
/// of which no two are the same.
pub proof fn lemma_offsets_distinct(grid: Grid, cells: Seq<(usize, usize)>)
    requires
        grid.wf(),
        cells.no_duplicates(),
        forall|i: int| 0 <= i < cells.len() ==> grid.contains(#[trigger] cells[i]),
    ensures
        offsets(grid, cells).no_duplicates(),
        offsets(grid, cells).len() == cells.len(),
        forall|i: int|
            0 <= i < cells.len() ==> 0 <= #[trigger] offsets(grid, cells)[i] < grid.cells.len(),
{
    let places = offsets(grid, cells);
    assert forall|i: int| 0 <= i < cells.len() implies 0 <= #[trigger] places[i]
        < grid.cells.len() by {
        lemma_offset_in_range(grid, cells[i]);
    }
    assert forall|i: int, j: int|
        0 <= i < places.len() && 0 <= j < places.len() && i != j implies places[i]
        != places[j] by {
        lemma_offset_in_range(grid, cells[i]);
        lemma_offset_in_range(grid, cells[j]);
    }
}

/// A game starts with a snake of three segments in a column, all on the
/// board and no two on the same cell, with the cells under the snake marked
/// as snake, the cell at the apple's position marked as apple, and every
/// other cell empty.
pub proof fn lemma_initial_game(width: nat, height: nat, apple: (usize, usize))
    requires
        width >= 5,
        height >= 5,
        width * height <= usize::MAX,
        initial_board(width, height).is_free(apple),
    ensures
        GameView::initial(width, height, apple).wf(),
        GameView::initial(width, height, apple).consistent(),
        GameView::initial(width, height, apple).snake.len() == 3,
        GameView::initial(width, height, apple).moves == 0,
        forall|pos: (usize, usize)|
            #![trigger GameView::initial(width, height, apple).board.at(pos)]
            GameView::initial(width, height, apple).board.contains(pos) && pos != apple
                && !GameView::initial(width, height, apple).snake.contains(pos)
                ==> GameView::initial(width, height, apple).board.at(pos) == Cell::Empty,
{
    let game = GameView::initial(width, height, apple);
    let snake = initial_snake(width, height);
    let blank = Grid::blank(width, height);
    let first = blank.put(snake[0], Cell::Snake);
    let second = first.put(snake[1], Cell::Snake);
    let third = second.put(snake[2], Cell::Snake);
    assert(width <= usize::MAX && height <= usize::MAX) by (nonlinear_arith)
        requires
            width >= 5,
            height >= 5,
            width * height <= usize::MAX,
    ;
    lemma_blank(width, height);
    lemma_put(blank, snake[0], Cell::Snake);
    lemma_put(first, snake[1], Cell::Snake);
    lemma_put(second, snake[2], Cell::Snake);
    lemma_put(third, apple, Cell::Apple);
    assert forall|pos: (usize, usize)| game.board.contains(pos) implies (#[trigger] game.board.at(
        pos,
    ) == Cell::Snake <==> game.snake.contains(pos)) by {
        if pos == snake[0] || pos == snake[1] || pos == snake[2] {
            let i = if pos == snake[0] {
                0int
            } else if pos == snake[1] {
                1int
            } else {
                2int
            };
            assert(game.snake[i] == pos);
        }
    }
}

/// What one permitted move does to a game, before any new apple is placed.
///
/// The head is on the target, the board keeps its size, and one move more
/// is counted. The cells marked as snake are again those under the snake,
/// no two segments share a cell, and each lies next to the one behind it.
/// A move that eats nothing leaves the snake as long as it was and the
/// apple where it was. A move that eats makes the snake one segment
/// longer, with the old snake behind the new head, and leaves no cell
/// marked as apple; wherever the new apple is placed among the empty
/// cells, the game is well formed again.
pub proof fn lemma_shifted(game: GameView, direction: Direction)
    requires
        game.wf(),
        game.verdict(direction) is Ok,
    ensures
        game.shifted(direction).on_board(),
        game.shifted(direction).snake_matches_board(),
        game.shifted(direction).snake.no_duplicates(),
        game.shifted(direction).linked(),
        game.shifted(direction).board.width == game.board.width,
        game.shifted(direction).board.height == game.board.height,
        game.shifted(direction).moves == game.moves + 1,
        game.shifted(direction).head() == game.target(direction)->Some_0,
        !game.eats(direction) ==> game.shifted(direction).wf(),
        !game.eats(direction) ==> game.shifted(direction).snake.len() == game.snake.len(),
        !game.eats(direction) ==> game.shifted(direction).apple == game.apple,
        !game.eats(direction) && game.apple_matches_board() ==> game.shifted(
            direction,
        ).apple_matches_board(),
        !game.eats(direction) && game.covered() ==> game.shifted(direction).covered(),
        game.eats(direction) ==> game.apple_matches_board(),
        game.eats(direction) ==> game.target(direction) == Some(game.apple),
        game.eats(direction) ==> game.shifted(direction).snake == seq![game.apple] + game.snake,
        game.eats(direction) ==> game.shifted(direction).no_apple_on_board(),
        game.eats(direction) && game.shifted(direction).board.full() ==> game.shifted(
            direction,
        ).covered() && game.shifted(direction).wf(),
        game.eats(direction) ==> forall|pos: (usize, usize)|
            #![trigger game.shifted(direction).with_apple(pos)]
            game.shifted(direction).board.is_free(pos) ==> game.shifted(direction).with_apple(
                pos,
            ).wf() && game.shifted(direction).with_apple(pos).consistent(),
{
    let target = game.target(direction)->Some_0;
    let tail = game.tail();
    let next = game.shifted(direction);
    let cleared = game.board.put(tail, Cell::Empty);
    assert(game.board.contains(game.snake[0]));
    assert(game.board.contains(tail));
    assert(game.snake.contains(tail));
    assert(game.board.at(tail) == Cell::Snake);
    lemma_neighbour(game.board, game.snake[0], direction);
    lemma_put(game.board, target, Cell::Snake);
    lemma_put(game.board, tail, Cell::Empty);
    lemma_put(cleared, target, Cell::Snake);
    if game.eats(direction) {
        assert(!game.covered());
        assert(target == game.apple);
        assert(!game.snake.contains(target));
        assert(next.snake =~= seq![target] + game.snake);
        lemma_prepend_distinct(target, game.snake);
    } else {
        lemma_drop_last_distinct(game.snake);
        lemma_prepend_distinct(target, game.snake.drop_last());
    }
    assert forall|i: int| 0 <= i < next.snake.len() implies next.board.contains(
        #[trigger] next.snake[i],
    ) by {
        if i > 0 {
            assert(next.snake[i] == game.snake[i - 1]);
        }
    }
    assert forall|i: int| 0 <= i < next.snake.len() - 1 implies adjacent(
        #[trigger] next.snake[i],
        next.snake[i + 1],
    ) by {
        if i > 0 {
            assert(adjacent(game.snake[i - 1], game.snake[i]));
        }
    }
    assert forall|pos: (usize, usize)| next.board.contains(pos) implies (#[trigger] next.board.at(
        pos,
    ) == Cell::Snake <==> next.snake.contains(pos)) by {
        assert(game.board.at(pos) == Cell::Snake <==> game.snake.contains(pos));
    }
    if game.eats(direction) {
        assert forall|pos: (usize, usize)| next.board.contains(pos) implies #[trigger] next.board.at(
            pos,
        ) != Cell::Apple by {
            assert(game.board.at(pos) == Cell::Apple <==> pos == game.apple);
        }
        if next.board.full() {
            assert forall|pos: (usize, usize)| next.board.contains(pos) implies (
            #[trigger] next.board.at(pos)) == Cell::Snake by {
                assert(next.board.at(pos) != Cell::Empty);
                assert(next.board.at(pos) != Cell::Apple);
            }
        }
        assert forall|pos: (usize, usize)|
            #![trigger next.with_apple(pos)]
            next.board.is_free(pos) implies next.with_apple(pos).wf() && next.with_apple(
            pos,
        ).consistent() by {
            let placed = next.with_apple(pos);
            lemma_put(next.board, pos, Cell::Apple);
            assert forall|i: int| 0 <= i < placed.snake.len() implies placed.board.contains(
                #[trigger] placed.snake[i],
            ) by {
                assert(next.board.contains(next.snake[i]));
            }
            assert forall|other: (usize, usize)| placed.board.contains(other) implies (
            #[trigger] placed.board.at(other) == Cell::Snake <==> placed.snake.contains(other)) by {
                assert(next.board.at(other) == Cell::Snake <==> next.snake.contains(other));
            }
            assert forall|other: (usize, usize)| placed.board.contains(other) implies (
            #[trigger] placed.board.at(other) == Cell::Apple <==> other == placed.apple) by {
                assert(next.board.at(other) != Cell::Apple);
            }
        }
    } else if game.apple_matches_board() {
        assert(game.board.at(game.apple) == Cell::Apple);
        assert forall|pos: (usize, usize)| next.board.contains(pos) implies (#[trigger] next.board.at(
            pos,
        ) == Cell::Apple <==> pos == next.apple) by {
            assert(game.board.at(pos) == Cell::Apple <==> pos == game.apple);
        }
    } else {
        assert(target == tail);
        assert forall|pos: (usize, usize)| next.board.contains(pos) implies (#[trigger] next.board.at(
            pos,
        )) == Cell::Snake by {
            assert(game.board.at(pos) == Cell::Snake);
        }
    }
}

/// After any permitted move the game is well formed again: the cells
/// marked as snake are those under the snake, no two segments share a
/// cell, and each lies next to the one behind it. Unless the move won the
/// game, the one cell marked as apple is at the apple's position if it was
/// so before. In a game that is won no cell is marked as apple, and the
/// snake lies on every cell and is as long as the board has cells.
pub proof fn lemma_move_keeps_consistency(
    game: GameView,
    direction: Direction,
    after: GameView,
    won: bool,
)
    requires
        game.wf(),
        game.verdict(direction) is Ok,
        game.moved(direction, after, won),
    ensures
        after.wf(),
        after.board.width == game.board.width,
        after.board.height == game.board.height,
        !won && game.consistent() ==> after.consistent(),
        won ==> after.no_apple_on_board(),
        won ==> after.covered(),
        won ==> after.snake.len() == after.board.width * after.board.height,
{
    let next = game.shifted(direction);
    lemma_shifted(game, direction);
    if game.eats(direction) {
        if won {
            lemma_snake_covers(after);
        } else {
            assert(next.with_apple(after.apple).wf());
            lemma_put(next.board, after.apple, Cell::Apple);
        }
    }
}

/// A move off the board is refused as running into the wall: up from the
/// top row, down from the bottom row, right from the last column and left
/// from the first. No other move is refused for that reason.
pub proof fn lemma_wall_blocks(game: GameView, direction: Direction)
    requires
        game.wf(),
    ensures
        game.verdict(direction) == Err::<(), SnakeLost>(SnakeLost::RanIntoWall) <==> match direction {
            Direction::Up => game.head().1 + 1 == game.board.height,
            Direction::Down => game.head().1 == 0,
            Direction::Right => game.head().0 + 1 == game.board.width,
            Direction::Left => game.head().0 == 0,
        },
{
}

/// A move onto any segment of the snake but its last is refused as running
/// into the snake.
pub proof fn lemma_body_blocks(game: GameView, direction: Direction, segment: int)
    requires
        game.wf(),
        0 <= segment < game.snake.len() - 1,
        game.target(direction) == Some(game.snake[segment]),
    ensures
        game.verdict(direction) == Err::<(), SnakeLost>(SnakeLost::RanIntoSnake),
{
    let target = game.snake[segment];
    assert(game.board.contains(target));
    assert(game.snake.contains(target));
    assert(game.board.at(target) == Cell::Snake);
}

/// A move onto the cell of the tail is permitted, and eats no apple. It
/// leaves the board as it was and the snake as long as it was, with the
/// head where the tail was, and the board and the lists agree as before.
pub proof fn lemma_tail_chase(game: GameView, direction: Direction)
    requires
        game.wf(),
        game.target(direction) == Some(game.tail()),
    ensures
        game.verdict(direction) is Ok,
        !game.eats(direction),
        game.moved(direction, game.shifted(direction), false),
        game.shifted(direction).board == game.board,
        game.shifted(direction).snake == seq![game.tail()] + game.snake.drop_last(),
        game.shifted(direction).apple == game.apple,
        game.shifted(direction).moves == game.moves + 1,
        game.shifted(direction).wf(),
        game.consistent() ==> game.shifted(direction).consistent(),
{
    let tail = game.tail();
    let next = game.shifted(direction);
    assert(game.board.contains(tail));
    assert(game.snake.contains(tail));
    assert(game.board.at(tail) == Cell::Snake);
    lemma_shifted(game, direction);
    lemma_offset_in_range(game.board, tail);
    assert(next.board.cells =~= game.board.cells);
}

/// Eating the apple is always permitted. It makes the snake longer by
/// exactly one segment, the old snake behind the new head, and counts as
/// one move. The game is won exactly when no cell is empty after the head
/// has moved; otherwise the new apple lies on a cell that was empty then,
/// and that cell is marked as apple.
pub proof fn lemma_eating_outcome(
    game: GameView,
    direction: Direction,
    after: GameView,
    won: bool,
)
    requires
        game.wf(),
        game.eats(direction),
        game.moved(direction, after, won),
    ensures
        game.verdict(direction) is Ok,
        after.snake == seq![game.target(direction)->Some_0] + game.snake,
        after.snake.len() == game.snake.len() + 1,
        after.moves == game.moves + 1,
        won <==> game.shifted(direction).board.full(),
        !won ==> game.shifted(direction).board.is_free(after.apple) && after.board.at(after.apple)
            == Cell::Apple,
{
    lemma_shifted(game, direction);
    if !won {
        lemma_put(game.shifted(direction).board, after.apple, Cell::Apple);
    }
}

/// A move that eats no apple leaves the snake as long as it was, counts as
/// one move, never wins the game, and leaves the apple's position as it
/// was.
pub proof fn lemma_plain_outcome(
    game: GameView,
    direction: Direction,
    after: GameView,
    won: bool,
)
    requires
        game.wf(),
        game.verdict(direction) is Ok,
        !game.eats(direction),
        game.moved(direction, after, won),
    ensures
        !won,
        after.snake.len() == game.snake.len(),
        after.moves == game.moves + 1,
        after.apple == game.apple,
{
}

/// The snake of a game has at most as many segments as the board has
/// cells.
pub proof fn lemma_snake_fits(game: GameView)
    requires
        game.wf(),
    ensures
        game.snake.len() <= game.board.width * game.board.height,
{
    let places = offsets(game.board, game.snake);
    let all = set_int_range(0, game.board.cells.len() as int);
    lemma_offsets_distinct(game.board, game.snake);
    assert forall|place: int| places.to_set().contains(place) implies all.contains(place) by {
        let i = choose|i: int| 0 <= i < places.len() && places[i] == place;
        assert(0 <= places[i] < game.board.cells.len());
    }
    places.unique_seq_to_set();
    lemma_int_range(0, game.board.cells.len() as int);
    lemma_len_subset(places.to_set(), all);
}

/// A snake that lies on every cell of the board has exactly as many
/// segments as the board has cells.
pub proof fn lemma_snake_covers(game: GameView)
    requires
        game.wf(),
        game.covered(),
    ensures
        game.snake.len() == game.board.width * game.board.height,
{
    let places = offsets(game.board, game.snake);
    let all = set_int_range(0, game.board.cells.len() as int);
    lemma_offsets_distinct(game.board, game.snake);
    assert forall|place: int| places.to_set().contains(place) <==> all.contains(place) by {
        if places.to_set().contains(place) {
            let i = choose|i: int| 0 <= i < places.len() && places[i] == place;
            assert(0 <= places[i] < game.board.cells.len());
        }
        if all.contains(place) {
            lemma_position_in_range(game.board, place);
            let pos = (
                game.board.position(place).0 as usize,
                game.board.position(place).1 as usize,
            );
            assert(game.board.contains(pos));
            assert(game.board.at(pos) == Cell::Snake);
            let i = choose|i: int| 0 <= i < game.snake.len() && game.snake[i] == pos;
            assert(places[i] == place);
        }
    }
    assert(places.to_set() =~= all);
    places.unique_seq_to_set();
    lemma_int_range(0, game.board.cells.len() as int);
}

/// Chance enters the start of a game only through where the first apple
/// lands: two games as they start on boards of one size, with the apple at
/// the same position, are the same game.
pub proof fn lemma_start_determined_by_apple(
    width: nat,
    height: nat,
    first: GameView,
    second: GameView,
)
    requires
        first == GameView::initial(width, height, first.apple),
        second == GameView::initial(width, height, second.apple),
        first.apple == second.apple,
    ensures
        first == second,
{
}

/// Chance enters a move only through where the new apple lands: two
/// results of the same move that agree on the apple's position are the
/// same game, and agree on whether the game is won.
pub proof fn lemma_move_determined_by_apple(
    game: GameView,
    direction: Direction,
    first: GameView,
    first_won: bool,
    second: GameView,
    second_won: bool,
)
    requires
        game.moved(direction, first, first_won),
        game.moved(direction, second, second_won),
        first.apple == second.apple,
    ensures
        first == second,
        first_won == second_won,
{
}

} // verus!
