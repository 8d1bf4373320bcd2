use rand::rngs::mock::StepRng;
use snake::strategy::{action_for_key, Key};
use snake::{Action, Direction, Ending, Game, Rotate, SnakeStrategy, Turn};

fn letter_of(direction: Direction) -> char {
    match direction {
        Direction::Up => 'U',
        Direction::Down => 'D',
        Direction::Left => 'L',
        Direction::Right => 'R',
    }
}

/// Lets the rules play until the match ends or `limit` moves are made, and
/// spells the moves they chose.
fn sweep(width: usize, height: usize, limit: usize) -> (String, Option<Ending>) {
    let mut game = Game::new_with_rng(width, height, StepRng::new(0, 0));
    let mut strategy = Rotate {};
    let mut moves = String::new();
    for _ in 0..limit {
        let action = strategy.decide_move(&game);
        match action {
            Action::Move(direction) => moves.push(letter_of(direction)),
            Action::GiveUp => unreachable!(),
        }
        game = match game.take_turn(action) {
            Turn::Playing(next) => next,
            Turn::Over(_, ending) => return (moves, Some(ending)),
        };
    }
    (moves, None)
}

#[test]
fn arrow_keys_ask_for_moves() {
    assert_eq!(action_for_key(Key::Up), Some(Action::Move(Direction::Up)));
    assert_eq!(action_for_key(Key::Down), Some(Action::Move(Direction::Down)));
    assert_eq!(action_for_key(Key::Left), Some(Action::Move(Direction::Left)));
    assert_eq!(action_for_key(Key::Right), Some(Action::Move(Direction::Right)));
}

#[test]
fn escape_gives_up_and_other_keys_are_ignored() {
    assert_eq!(action_for_key(Key::Esc), Some(Action::GiveUp));
    assert_eq!(action_for_key(Key::Other), None);
}

#[test]
fn sweep_first_move_heads_for_the_next_column() {
    let game = Game::new_with_rng(6, 6, StepRng::new(0, 0));
    let mut strategy = Rotate {};
    assert_eq!(strategy.decide_move(&game), Action::Move(Direction::Left));
    let game = Game::new_with_rng(7, 9, StepRng::new(0, 0));
    assert_eq!(strategy.decide_move(&game), Action::Move(Direction::Right));
    let game = Game::new_with_rng(5, 5, StepRng::new(0, 0));
    assert_eq!(strategy.decide_move(&game), Action::Move(Direction::Up));
}

#[test]
fn sweep_on_a_six_by_six_board() {
    let (moves, end) = sweep(6, 6, 400);
    let expected = "LDDLUUUUURRRRRDDDDDLLLLLUUUUURRRRRDDDDDLLLULDLUUUUURRRRRDDDDDLULDLLLUUUUU\
                    RRRRRDDDDDLLLULDLUUUUURRRRRDDDDDLULDLLLUUUUURRRRRDDDDDLLLULDLUUUUURRRRRDD\
                    DDDLULDLUULDDLUUUUURRRRRDDDDDLUULDDLUULDDLUUUUURDDRUURDDRUURDDDD";
    assert_eq!(moves, expected);
    assert_eq!(moves.len(), 210);
    assert_eq!(end, Some(Ending::Won));
}

#[test]
fn sweep_on_a_five_by_five_board() {
    let (moves, end) = sweep(5, 5, 60);
    let expected = "UURRDDDDLLLLUUUURRRRDDDDLLLLUUUURRRRDDDDLLULDLUUUURRRRDDDDLL";
    assert_eq!(moves, expected);
    assert_eq!(end, None);
}

#[test]
fn sweep_on_a_board_wider_than_high() {
    let (moves, end) = sweep(8, 6, 40);
    assert_eq!(moves, "URUURDDDDDLLLLLUUUUURRRRRDDDDDLLLLLUUUUU");
    assert_eq!(end, None);
}

#[test]
fn sweep_on_a_board_higher_than_wide() {
    let (moves, end) = sweep(7, 9, 50);
    assert_eq!(moves, "RUUUURRDDDDDLDDDLLLLLUUUUUUUURRRRRRDDDDDLDDDLLLLLU");
    assert_eq!(end, None);
}
