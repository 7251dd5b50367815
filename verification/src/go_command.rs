//! The ways a search can be told how long to go on.
use vstd::prelude::*;
use crate::timer::Duration;

verus! {

/// How a search is limited: a fixed time, a depth, not at all, pondering, or by the clocks of
/// both sides with their increments and, perhaps, the moves left to the next time control.
#[derive(Clone, Copy, Debug, PartialEq, Eq, Structural)]
pub enum GoCommand {
    MoveTime(Duration),
    Depth(i8),
    Infinite,
    Ponder,
    Timed { wtime: Duration, btime: Duration, winc: Duration, binc: Duration, moves_to_go: Option<u16> },
}

impl GoCommand {
    /// A search of `millis` milliseconds.
    pub fn from_millis(millis: u64) -> (r: GoCommand)
        ensures
            r == GoCommand::MoveTime(Duration { nanos: (millis * 1_000_000) as u128 }),
    {
        GoCommand::MoveTime(Duration::from_millis(millis))
    }
}

/// The search a self-play game makes for each move: three seconds.
pub fn default_selfplay_command() -> (r: GoCommand)
    ensures
        r == GoCommand::MoveTime(Duration { nanos: 3_000_000_000 }),
{
    GoCommand::from_millis(3000)
}

} // verus!
