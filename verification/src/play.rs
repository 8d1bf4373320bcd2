//! One turn of a match: what a driver does with the action a strategy chose.

use vstd::prelude::*;
use rand::Rng;
use std::fmt::Debug;
use crate::cell::SnakeLost;
use crate::game::Game;
use crate::state::GameView;
use crate::strategy::Action;

verus! {

/// How a match ended.
#[derive(Debug, Clone, Copy, PartialEq, Eq, Structural)]
pub enum Ending {
    /// The snake ate the last apple that fits on the board.
    Won,
    /// A move lost the game.
    Lost(SnakeLost),
    /// The player gave up.
    GaveUp,
}

/// What became of a game after one turn.
#[derive(Debug)]
pub enum Turn<R> {
    /// The match goes on with this game.
    Playing(Game<R>),
    /// The match is over; the game is as it was last.
    Over(Game<R>, Ending),
}

impl GameView {
    /// Whether `after` and `ending` are a possible result of a turn with
    /// `action`; `ending` is `None` while the match goes on.
    ///
    /// Giving up and a losing move end the match and leave the game as it
    /// was. A permitted move is made; the match is over when that move won
    /// the game.
    pub open spec fn turned(self, action: Action, after: GameView, ending: Option<Ending>) -> bool {
        match action {
            Action::GiveUp => after == self && ending == Some(Ending::GaveUp),
            Action::Move(direction) => match self.verdict(direction) {
                Err(reason) => after == self && ending == Some(Ending::Lost(reason)),
                Ok(_) => self.moved(direction, after, ending == Some(Ending::Won)) && (ending
                    is None || ending == Some(Ending::Won)),
            },
        }
    }
}

impl<R> Turn<R> {
    /// The game after the turn.
    pub open spec fn game(self) -> Game<R> {
        match self {
            Turn::Playing(game) => game,
            Turn::Over(game, _) => game,
        }
    }

    /// How the match ended, or `None` while it goes on.
    pub open spec fn ending(self) -> Option<Ending> {
        match self {
            Turn::Playing(_) => None,
            Turn::Over(_, ending) => Some(ending),
        }
    }
}

impl<R: Rng + Debug> Game<R> {
    /// Carries out what a strategy decided: makes the move, or ends the
    /// match where the strategy gave up, the move lost, or the move won.
    pub fn take_turn(self, action: Action) -> (turn: Turn<R>)
        requires
            match action {
                Action::Move(direction) => self@.verdict(direction) is Ok ==> self@.moves
                    < u32::MAX,
                Action::GiveUp => true,
            },
        ensures
            self@.wf(),
            self@.turned(action, turn.game()@, turn.ending()),
            turn.ending() is Some && turn.ending() != Some(Ending::Won) ==> turn.game() == self,
            turn.game()@.wf(),
            turn.ending() is None && self@.consistent() ==> turn.game()@.consistent(),
            turn.ending() == Some(Ending::Won) ==> turn.game()@.covered(),
    {
        proof {
            use_type_invariant(&self);
        }
        match action {
            Action::GiveUp => Turn::Over(self, Ending::GaveUp),
            Action::Move(direction) => match self.try_move_snake(direction) {
                Ok((game, true)) => Turn::Over(game, Ending::Won),
                Ok((game, false)) => Turn::Playing(game),
                Err((game, reason)) => Turn::Over(game, Ending::Lost(reason)),
            },
        }
    }
}

} // verus!
