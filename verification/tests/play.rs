use rand::rngs::mock::StepRng;
use snake::{Action, Cell, Direction, Ending, Game, SnakeLost, Turn};

fn fresh(width: usize, height: usize) -> Game<StepRng> {
    Game::new_with_rng(width, height, StepRng::new(0, 0))
}

fn still_playing(turn: Turn<StepRng>) -> Game<StepRng> {
    match turn {
        Turn::Playing(game) => game,
        Turn::Over(_, ending) => panic!("the match ended: {:?}", ending),
    }
}

#[test]
fn giving_up_ends_the_match() {
    match fresh(5, 5).take_turn(Action::GiveUp) {
        Turn::Over(game, ending) => {
            assert_eq!(ending, Ending::GaveUp);
            assert_eq!(game.snake(), &vec![(2, 2), (2, 1), (2, 0)]);
            assert_eq!(game.move_count(), 0);
        }
        Turn::Playing(_) => panic!("the match went on"),
    }
}

#[test]
fn permitted_move_keeps_the_match_going() {
    let game = still_playing(fresh(5, 5).take_turn(Action::Move(Direction::Right)));
    assert_eq!(game.snake(), &vec![(3, 2), (2, 2), (2, 1)]);
    assert_eq!(game.move_count(), 1);
}

#[test]
fn losing_move_ends_the_match_with_the_reason() {
    match fresh(5, 5).take_turn(Action::Move(Direction::Down)) {
        Turn::Over(game, ending) => {
            assert_eq!(ending, Ending::Lost(SnakeLost::RanIntoSnake));
            assert_eq!(game.snake(), &vec![(2, 2), (2, 1), (2, 0)]);
            assert_eq!(game.move_count(), 0);
        }
        Turn::Playing(_) => panic!("the match went on"),
    }
    let game = still_playing(fresh(5, 5).take_turn(Action::Move(Direction::Up)));
    let game = still_playing(game.take_turn(Action::Move(Direction::Up)));
    match game.take_turn(Action::Move(Direction::Up)) {
        Turn::Over(game, ending) => {
            assert_eq!(ending, Ending::Lost(SnakeLost::RanIntoWall));
            assert_eq!(game.snake_head(), (2, 4));
            assert_eq!(game.move_count(), 2);
        }
        Turn::Playing(_) => panic!("the match went on"),
    }
}

#[test]
fn winning_move_ends_the_match() {
    let mut game = fresh(6, 6);
    let mut turns = 0;
    let last = loop {
        let (x, y) = game.snake_head();
        let direction = if y == 0 {
            if x > 0 { Direction::Left } else { Direction::Up }
        } else if x % 2 == 0 {
            if y < 5 { Direction::Up } else { Direction::Right }
        } else if x == 5 || y > 1 {
            Direction::Down
        } else {
            Direction::Right
        };
        turns += 1;
        assert!(turns <= 244);
        match game.take_turn(Action::Move(direction)) {
            Turn::Playing(next) => game = next,
            Turn::Over(last, ending) => {
                assert_eq!(ending, Ending::Won);
                break last;
            }
        }
    };
    assert_eq!(turns, 244);
    assert_eq!(last.snake_len(), 36);
    assert!(last.board().vec().iter().all(|cell| *cell == Cell::Snake));
}
