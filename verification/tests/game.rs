use rand::rngs::mock::StepRng;
use rand::rngs::StdRng;
use rand::SeedableRng;
use snake::{Board, Cell, Direction, Game, SnakeLost};

/// A generator that always picks the first of the candidates.
fn first_pick() -> StepRng {
    StepRng::new(0, 0)
}

fn direction_of(letter: char) -> Direction {
    match letter {
        'U' => Direction::Up,
        'D' => Direction::Down,
        'L' => Direction::Left,
        'R' => Direction::Right,
        _ => unreachable!(),
    }
}

/// Makes the moves spelled by `path`, none of which may lose or win.
fn walk<R: rand::Rng + std::fmt::Debug>(mut game: Game<R>, path: &str) -> Game<R> {
    for letter in path.chars() {
        let (next, won) = game.try_move_snake(direction_of(letter)).unwrap();
        assert!(!won);
        game = next;
    }
    game
}

fn cells_of(board: &Board, wanted: Cell) -> Vec<(usize, usize)> {
    let mut found = Vec::new();
    for y in 0..board.height() {
        for x in 0..board.width() {
            if board.get((x, y)) == wanted {
                found.push((x, y));
            }
        }
    }
    found
}

/// The board marks as snake exactly the cells of the snake, as apple
/// exactly the apple's cell, and no two segments share a cell.
fn assert_consistent<R: rand::Rng + std::fmt::Debug>(game: &Game<R>) {
    let mut snake = game.snake().clone();
    snake.sort_by_key(|&(x, y)| (y, x));
    let before = snake.len();
    snake.dedup();
    assert_eq!(snake.len(), before);
    assert_eq!(cells_of(game.board(), Cell::Snake), snake);
    assert_eq!(cells_of(game.board(), Cell::Apple), vec![game.apple_position()]);
}

/// The next step along a closed tour of a board of even width: up the even
/// columns and down the odd ones above the bottom row, and back to the
/// left along the bottom row.
fn tour(width: usize, height: usize, head: (usize, usize)) -> Direction {
    let (x, y) = head;
    if y == 0 {
        if x > 0 { Direction::Left } else { Direction::Up }
    } else if x % 2 == 0 {
        if y < height - 1 { Direction::Up } else { Direction::Right }
    } else if x == width - 1 || y > 1 {
        Direction::Down
    } else {
        Direction::Right
    }
}

#[test]
fn new_game_on_smallest_board() {
    let game = Game::new_with_rng(5, 5, first_pick());
    assert_eq!(game.snake(), &vec![(2, 2), (2, 1), (2, 0)]);
    assert_eq!(game.snake_len(), 3);
    assert_eq!(game.snake_head(), (2, 2));
    assert_eq!(game.move_count(), 0);
    assert_eq!(game.apple_position(), (0, 0));
    assert_eq!(game.board().size(), (5, 5));
    assert_consistent(&game);
}

#[test]
fn centre_of_even_and_odd_boards() {
    let game = Game::new_with_rng(6, 6, first_pick());
    assert_eq!(game.snake(), &vec![(2, 2), (2, 1), (2, 0)]);
    let game = Game::new_with_rng(8, 7, first_pick());
    assert_eq!(game.snake(), &vec![(3, 3), (3, 2), (3, 1)]);
    let game = Game::new_with_rng(9, 12, first_pick());
    assert_eq!(game.snake(), &vec![(4, 5), (4, 4), (4, 3)]);
}

#[test]
fn new_game_has_one_apple_and_three_snake_cells() {
    for (width, height) in [(5, 5), (5, 9), (6, 6), (12, 5), (7, 10)] {
        for seed in 0..20 {
            let game = Game::new_with_rng(width, height, StdRng::seed_from_u64(seed));
            assert_eq!(game.snake_len(), 3);
            assert_eq!(game.board().size(), (width, height));
            assert_eq!(cells_of(game.board(), Cell::Snake).len(), 3);
            assert_eq!(cells_of(game.board(), Cell::Apple).len(), 1);
            assert_eq!(cells_of(game.board(), Cell::Empty).len(), width * height - 4);
            assert!(!game.snake().contains(&game.apple_position()));
            assert_consistent(&game);
        }
    }
}

#[test]
fn new_game_with_thread_generator() {
    let game = Game::new(6, 8);
    assert_eq!(game.snake(), &vec![(2, 3), (2, 2), (2, 1)]);
    assert_eq!(game.move_count(), 0);
    assert_consistent(&game);
    let (game, won) = game.try_move_snake(Direction::Up).unwrap();
    assert!(!won);
    assert_eq!(game.snake_head(), (2, 4));
}

#[test]
fn first_apple_is_drawn_from_the_empty_cells() {
    let mut seen = Vec::new();
    for seed in 0..200 {
        let game = Game::new_with_rng(5, 5, StdRng::seed_from_u64(seed));
        let apple = game.apple_position();
        assert!(apple.0 < 5 && apple.1 < 5);
        assert!(![(2, 2), (2, 1), (2, 0)].contains(&apple));
        if !seen.contains(&apple) {
            seen.push(apple);
        }
    }
    assert!(seen.len() > 1);
}

#[test]
fn moving_down_at_the_start_runs_into_the_snake() {
    let game = Game::new_with_rng(5, 5, first_pick());
    assert_eq!(game.snake(), &vec![(2, 2), (2, 1), (2, 0)]);
    assert_eq!(game.check_if_move_safe(Direction::Down), Err(SnakeLost::RanIntoSnake));
    let (game, reason) = game.try_move_snake(Direction::Down).unwrap_err();
    assert_eq!(reason, SnakeLost::RanIntoSnake);
    assert_eq!(game.snake(), &vec![(2, 2), (2, 1), (2, 0)]);
    assert_eq!(game.move_count(), 0);
}

#[test]
fn plain_move_shifts_the_snake() {
    let game = Game::new_with_rng(5, 5, first_pick());
    let (game, won) = game.try_move_snake(Direction::Up).unwrap();
    assert!(!won);
    assert_eq!(game.snake(), &vec![(2, 3), (2, 2), (2, 1)]);
    assert_eq!(game.board().get((2, 0)), Cell::Empty);
    assert_eq!(game.board().get((2, 3)), Cell::Snake);
    assert_eq!(game.apple_position(), (0, 0));
    assert_eq!(game.move_count(), 1);
    assert_consistent(&game);
    let (game, _) = game.try_move_snake(Direction::Right).unwrap();
    assert_eq!(game.snake(), &vec![(3, 3), (2, 3), (2, 2)]);
    let (game, _) = game.try_move_snake(Direction::Down).unwrap();
    assert_eq!(game.snake(), &vec![(3, 2), (3, 3), (2, 3)]);
    let (game, _) = game.try_move_snake(Direction::Left).unwrap();
    assert_eq!(game.snake(), &vec![(2, 2), (3, 2), (3, 3)]);
    assert_eq!(game.move_count(), 4);
    assert_consistent(&game);
}

#[test]
fn wall_is_hit_on_every_side() {
    for (path, last, head) in [
        ("UU", Direction::Up, (2, 4)),
        ("LL", Direction::Left, (0, 2)),
        ("RR", Direction::Right, (4, 2)),
        ("RDD", Direction::Down, (3, 0)),
    ] {
        let game = walk(Game::new_with_rng(5, 5, first_pick()), path);
        assert_eq!(game.snake_head(), head);
        assert_eq!(game.check_if_move_safe(last), Err(SnakeLost::RanIntoWall));
        let (_, reason) = game.try_move_snake(last).unwrap_err();
        assert_eq!(reason, SnakeLost::RanIntoWall);
    }
}

#[test]
fn lost_move_returns_the_game_unchanged() {
    let game = walk(Game::new_with_rng(5, 5, StdRng::seed_from_u64(11)), "UU");
    let snake = game.snake().clone();
    let apple = game.apple_position();
    let cells = game.board().vec().clone();
    let text = game.dump();
    let (game, reason) = game.try_move_snake(Direction::Up).unwrap_err();
    assert_eq!(reason, SnakeLost::RanIntoWall);
    assert_eq!(game.snake(), &snake);
    assert_eq!(game.apple_position(), apple);
    assert_eq!(game.board().vec(), &cells);
    assert_eq!(game.move_count(), 2);
    assert_eq!(game.dump(), text);
    let (game, reason) = game.try_move_snake(Direction::Down).unwrap_err();
    assert_eq!(reason, SnakeLost::RanIntoSnake);
    assert_eq!(game.snake(), &snake);
    assert_eq!(game.board().vec(), &cells);
    assert_eq!(game.move_count(), 2);
}

#[test]
fn lost_move_leaves_the_random_source_alone() {
    let reference = walk(Game::new_with_rng(6, 6, StdRng::seed_from_u64(5)), "LLDD");
    let game = Game::new_with_rng(6, 6, StdRng::seed_from_u64(5));
    let (game, _) = game.try_move_snake(Direction::Down).unwrap_err();
    let game = walk(game, "LL");
    let (game, _) = game.try_move_snake(Direction::Left).unwrap_err();
    let game = walk(game, "DD");
    assert_eq!(game.snake(), reference.snake());
    assert_eq!(game.apple_position(), reference.apple_position());
    assert_eq!(game.board().vec(), reference.board().vec());
}

#[test]
fn body_blocks_the_head() {
    // Eat two apples, then turn back into the body.
    let game = walk(Game::new_with_rng(5, 5, first_pick()), "LLDD");
    assert_eq!(game.snake_len(), 4);
    let game = walk(game, "R");
    assert_eq!(game.snake(), &vec![(1, 0), (0, 0), (0, 1), (0, 2), (1, 2)]);
    let game = walk(game, "U");
    assert_eq!(game.check_if_move_safe(Direction::Left), Err(SnakeLost::RanIntoSnake));
    assert_eq!(game.check_if_move_safe(Direction::Down), Err(SnakeLost::RanIntoSnake));
    assert_eq!(game.check_if_move_safe(Direction::Up), Ok(()));
    let (game, reason) = game.try_move_snake(Direction::Left).unwrap_err();
    assert_eq!(reason, SnakeLost::RanIntoSnake);
    assert_eq!(game.snake_len(), 5);
}

#[test]
fn eating_grows_the_snake_by_the_old_tail() {
    let game = walk(Game::new_with_rng(5, 5, first_pick()), "LLD");
    assert_eq!(game.snake(), &vec![(0, 1), (0, 2), (1, 2)]);
    assert_eq!(game.apple_position(), (0, 0));
    let (game, won) = game.try_move_snake(Direction::Down).unwrap();
    assert!(!won);
    assert_eq!(game.snake(), &vec![(0, 0), (0, 1), (0, 2), (1, 2)]);
    assert_eq!(game.snake_len(), 4);
    assert_eq!(game.move_count(), 4);
    assert_eq!(game.apple_position(), (1, 0));
    assert_eq!(game.board().get((1, 0)), Cell::Apple);
    assert_eq!(game.board().get((0, 0)), Cell::Snake);
    assert_consistent(&game);
}

#[test]
fn new_apple_lands_on_an_empty_cell() {
    for seed in 0..50 {
        let game = walk(Game::new_with_rng(6, 6, StdRng::seed_from_u64(seed)), "U");
        let mut game = game;
        let mut eaten = 0;
        for _ in 0..200 {
            let before = game.snake_len();
            let moves = game.move_count();
            let direction = tour(6, 6, game.snake_head());
            let (next, won) = game.try_move_snake(direction).unwrap();
            assert!(!won);
            assert_eq!(next.move_count(), moves + 1);
            if next.snake_len() == before + 1 {
                eaten += 1;
                assert!(!next.snake().contains(&next.apple_position()));
            } else {
                assert_eq!(next.snake_len(), before);
            }
            assert_consistent(&next);
            game = next;
            if game.snake_len() > 20 {
                break;
            }
        }
        assert!(eaten > 0);
    }
}

#[test]
fn moving_onto_the_tail_is_allowed() {
    let game = walk(Game::new_with_rng(5, 5, first_pick()), "LLDRDL");
    assert_eq!(game.snake(), &vec![(0, 0), (1, 0), (1, 1), (0, 1)]);
    assert_eq!(game.apple_position(), (2, 0));
    let cells = game.board().vec().clone();
    assert_eq!(game.check_if_move_safe(Direction::Up), Ok(()));
    let (game, won) = game.try_move_snake(Direction::Up).unwrap();
    assert!(!won);
    assert_eq!(game.snake(), &vec![(0, 1), (0, 0), (1, 0), (1, 1)]);
    assert_eq!(game.snake_len(), 4);
    assert_eq!(game.move_count(), 7);
    assert_eq!(game.apple_position(), (2, 0));
    assert_eq!(game.board().get((2, 0)), Cell::Apple);
    assert_eq!(game.board().get((0, 1)), Cell::Snake);
    assert_eq!(cells_of(game.board(), Cell::Snake), vec![(0, 0), (1, 0), (0, 1), (1, 1)]);
    assert_eq!(cells_of(game.board(), Cell::Empty).len(), 20);
    assert_eq!(game.board().vec(), &cells);
    assert_consistent(&game);
}

#[test]
fn snake_can_circle_after_its_tail() {
    let mut game = walk(Game::new_with_rng(5, 5, first_pick()), "LLDRDL");
    let cells = game.board().vec().clone();
    for letter in "URDLURDL".chars() {
        let (next, won) = game.try_move_snake(direction_of(letter)).unwrap();
        assert!(!won);
        assert_eq!(next.snake_len(), 4);
        assert_eq!(next.board().vec(), &cells);
        assert_consistent(&next);
        game = next;
    }
    assert_eq!(game.snake(), &vec![(0, 0), (1, 0), (1, 1), (0, 1)]);
    assert_eq!(game.move_count(), 14);
}

#[test]
fn stepping_back_after_following_the_tail_loses() {
    let game = walk(Game::new_with_rng(5, 5, first_pick()), "LLDRDLUR");
    assert_eq!(game.snake(), &vec![(1, 1), (0, 1), (0, 0), (1, 0)]);
    assert_eq!(game.check_if_move_safe(Direction::Left), Err(SnakeLost::RanIntoSnake));
    let (game, reason) = game.try_move_snake(Direction::Left).unwrap_err();
    assert_eq!(reason, SnakeLost::RanIntoSnake);
    assert_eq!(game.snake(), &vec![(1, 1), (0, 1), (0, 0), (1, 0)]);
    assert_consistent(&game);
}

#[test]
fn segments_are_distinct_and_linked_along_a_game() {
    let mut game = Game::new_with_rng(6, 6, StdRng::seed_from_u64(21));
    for _ in 0..400 {
        let direction = tour(6, 6, game.snake_head());
        let (next, won) = game.try_move_snake(direction).unwrap();
        game = next;
        let snake = game.snake();
        assert!(game.snake_len() >= 3 && game.snake_len() <= 36);
        assert_eq!(snake[0], game.snake_head());
        for pair in snake.windows(2) {
            let dx = pair[0].0.abs_diff(pair[1].0);
            let dy = pair[0].1.abs_diff(pair[1].1);
            assert_eq!(dx + dy, 1);
        }
        for (i, segment) in snake.iter().enumerate() {
            assert!(segment.0 < 6 && segment.1 < 6);
            assert!(!snake[..i].contains(segment));
        }
        if won {
            break;
        }
    }
}

#[test]
fn move_snake_makes_a_safe_move() {
    let game = Game::new_with_rng(5, 5, first_pick());
    let (game, won) = game.move_snake(Direction::Left);
    assert!(!won);
    assert_eq!(game.snake(), &vec![(1, 2), (2, 2), (2, 1)]);
    let (game, won) = game.move_snake(Direction::Left);
    assert!(!won);
    assert_eq!(game.snake_head(), (0, 2));
    assert_eq!(game.move_count(), 2);
}

#[test]
fn safety_probe_agrees_with_the_move() {
    let mut game = Game::new_with_rng(6, 6, StdRng::seed_from_u64(3));
    let turns = "UULLDDRRUULDRULD";
    for letter in turns.chars() {
        let direction = direction_of(letter);
        let probe = game.check_if_move_safe(direction);
        game = match game.try_move_snake(direction) {
            Ok((next, _)) => {
                assert_eq!(probe, Ok(()));
                assert_consistent(&next);
                next
            }
            Err((same, reason)) => {
                assert_eq!(probe, Err(reason));
                same
            }
        };
    }
}

#[test]
fn same_seed_gives_the_same_apples() {
    for seed in [0, 1, 42, 2024] {
        let mut first = Game::new_with_rng(6, 6, StdRng::seed_from_u64(seed));
        let mut second = Game::new_with_rng(6, 6, StdRng::seed_from_u64(seed));
        let mut apples = vec![first.apple_position()];
        assert_eq!(first.apple_position(), second.apple_position());
        for _ in 0..300 {
            let direction = tour(6, 6, first.snake_head());
            let (next_first, won_first) = first.try_move_snake(direction).unwrap();
            let (next_second, won_second) = second.try_move_snake(direction).unwrap();
            assert_eq!(won_first, won_second);
            assert_eq!(next_first.apple_position(), next_second.apple_position());
            assert_eq!(next_first.snake(), next_second.snake());
            assert_eq!(next_first.board().vec(), next_second.board().vec());
            if *apples.last().unwrap() != next_first.apple_position() {
                apples.push(next_first.apple_position());
            }
            first = next_first;
            second = next_second;
            if won_first {
                break;
            }
        }
        assert!(apples.len() > 3);
    }
}

#[test]
fn clone_plays_on_like_its_source() {
    let game = walk(Game::new_with_rng(6, 6, StdRng::seed_from_u64(9)), "UL");
    let copy = game.clone();
    assert_eq!(copy.snake(), game.snake());
    assert_eq!(copy.apple_position(), game.apple_position());
    assert_eq!(copy.board().vec(), game.board().vec());
    assert_eq!(copy.move_count(), 2);
    let mut game = game;
    let mut copy = copy;
    for _ in 0..150 {
        let direction = tour(6, 6, game.snake_head());
        game = game.try_move_snake(direction).unwrap().0;
        copy = copy.try_move_snake(direction).unwrap().0;
        assert_eq!(copy.apple_position(), game.apple_position());
    }
    assert_eq!(copy.snake(), game.snake());
}

#[test]
fn filling_the_board_wins_the_game() {
    let mut game = Game::new_with_rng(6, 6, first_pick());
    let mut moves = 0;
    let won = loop {
        let direction = tour(6, 6, game.snake_head());
        let (next, won) = game.try_move_snake(direction).unwrap();
        game = next;
        moves += 1;
        if won || moves > 5000 {
            break won;
        }
        assert_consistent(&game);
    };
    assert!(won);
    assert_eq!(moves, 244);
    assert_eq!(game.move_count(), 244);
    assert_eq!(game.snake_len(), 36);
    assert_eq!(cells_of(game.board(), Cell::Apple), vec![]);
    assert_eq!(cells_of(game.board(), Cell::Empty), vec![]);
    assert_eq!(cells_of(game.board(), Cell::Snake).len(), 36);
}

#[test]
fn filling_the_board_wins_with_a_seeded_generator() {
    for seed in [1, 7] {
        let mut game = Game::new_with_rng(6, 6, StdRng::seed_from_u64(seed));
        let mut moves = 0;
        let won = loop {
            let before = game.snake_len();
            let direction = tour(6, 6, game.snake_head());
            let (next, won) = game.try_move_snake(direction).unwrap();
            game = next;
            moves += 1;
            if won {
                assert_eq!(before, 35);
            }
            if won || moves > 5000 {
                break won;
            }
        };
        assert!(won);
        assert_eq!(game.snake_len(), 36);
        assert_eq!(cells_of(game.board(), Cell::Apple), vec![]);
        assert_eq!(cells_of(game.board(), Cell::Empty), vec![]);
    }
}

#[test]
fn dump_shows_moves_apple_and_board() {
    let game = Game::new_with_rng(5, 5, first_pick());
    let blank = "\u{2591} \u{2591} \u{2591} \u{2591} \u{2591} ";
    let middle = "\u{2591} \u{2591} s \u{2591} \u{2591} ";
    let bottom = "a \u{2591} s \u{2591} \u{2591} ";
    let expected = format!(
        "Move Count: 0  Apple position: (0, 0)\n\n{}\n{}\n{}\n{}\n{}\n",
        blank, blank, middle, middle, bottom
    );
    assert_eq!(game.dump(), expected);
}

#[test]
fn dump_follows_the_game() {
    let mut game = Game::new_with_rng(12, 11, StdRng::seed_from_u64(4));
    for letter in "UUUULLLLDDRRDD".chars() {
        game = game.try_move_snake(direction_of(letter)).unwrap().0;
        let expected = format!(
            "Move Count: {}  Apple position: {:?}\n{}",
            game.move_count(),
            game.apple_position(),
            game.board().render()
        );
        assert_eq!(game.dump(), expected);
    }
    assert_eq!(game.move_count(), 14);
    assert!(game.dump().starts_with("Move Count: 14  Apple position: ("));
}
