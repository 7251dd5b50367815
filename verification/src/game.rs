//! The outcome of a game.
use vstd::prelude::*;
use crate::types::Color;

verus! {

/// How a game stands: won by one side, drawn, or still being played.
#[derive(Clone, Copy, PartialEq, Eq, Debug, Hash, Structural)]
pub enum GameResult {
    Win(Color),
    Draw,
    InProgress,
}

impl GameResult {
    pub fn is_win(&self) -> (r: bool)
        ensures
            r == (*self is Win),
    {
        match self {
            GameResult::Win(_) => true,
            _ => false,
        }
    }

    pub fn is_draw(&self) -> (r: bool)
        ensures
            r == (*self is Draw),
    {
        match self {
            GameResult::Draw => true,
            _ => false,
        }
    }

    pub fn is_in_progress(&self) -> (r: bool)
        ensures
            r == (*self is InProgress),
    {
        match self {
            GameResult::InProgress => true,
            _ => false,
        }
    }

    /// The side that won, if the game was won.
    pub fn winner(&self) -> (r: Option<Color>)
        ensures
            r == match *self {
                GameResult::Win(c) => Some(c),
                _ => None,
            },
    {
        match self {
            GameResult::Win(c) => Some(*c),
            _ => None,
        }
    }
}

} // verus!
