//! Keeping time during a search: spans of time, the clock a search started on, and the
//! decisions of when to stop.
use vstd::prelude::*;
use std::sync::Arc;
use std::sync::atomic::AtomicBool;
use std::time::Instant;
use crate::board::Board;
use crate::go_command::GoCommand;
use crate::types::Color;

verus! {

/// The longest span of time, in nanoseconds: `u64::MAX` seconds and 999999999 nanoseconds.
pub const MAX_NANOS: u128 = 18_446_744_073_709_551_615_999_999_999u128;

/// The score from which a side counts as winning.
pub const WINNING_SCORE_THRESHOLD: i16 = 1500;

/// A span of time, counted in nanoseconds, no longer than `MAX_NANOS`.
#[derive(Clone, Copy, Debug, PartialEq, Eq, Structural)]
pub struct Duration {
    pub nanos: u128,
}

impl Duration {
    pub open spec fn wf(self) -> bool {
        self.nanos <= MAX_NANOS
    }

    pub fn zero() -> (r: Duration)
        ensures
            r.nanos == 0,
    {
        Duration { nanos: 0 }
    }

    /// The longest span, which stands for no limit.
    pub fn max_value() -> (r: Duration)
        ensures
            r.nanos == MAX_NANOS,
    {
        Duration { nanos: MAX_NANOS }
    }

    pub fn from_secs(secs: u64) -> (r: Duration)
        ensures
            r.nanos == secs * 1_000_000_000,
            r.wf(),
    {
        assert(secs * 1_000_000_000 <= MAX_NANOS) by (nonlinear_arith)
            requires
                secs <= u64::MAX,
        ;
        Duration { nanos: secs as u128 * 1_000_000_000 }
    }

    pub fn from_millis(millis: u64) -> (r: Duration)
        ensures
            r.nanos == millis * 1_000_000,
            r.wf(),
    {
        assert(millis * 1_000_000 <= MAX_NANOS) by (nonlinear_arith)
            requires
                millis <= u64::MAX,
        ;
        Duration { nanos: millis as u128 * 1_000_000 }
    }

    pub fn as_nanos(&self) -> (r: u128)
        ensures
            r == self.nanos,
    {
        self.nanos
    }

    /// `self - other`, or `None` when `other` is the longer.
    pub fn checked_sub(self, other: Duration) -> (r: Option<Duration>)
        ensures
            match r {
                Some(d) => other.nanos <= self.nanos && d.nanos == self.nanos - other.nanos,
                None => other.nanos > self.nanos,
            },
    {
        if other.nanos <= self.nanos {
            Some(Duration { nanos: self.nanos - other.nanos })
        } else {
            None
        }
    }

    /// `self - other`, or nothing when `other` is the longer.
    pub fn saturating_sub(self, other: Duration) -> (r: Duration)
        ensures
            r.nanos == sat_sub(self.nanos as int, other.nanos as int),
    {
        match self.checked_sub(other) {
            Some(d) => d,
            None => Duration::zero(),
        }
    }

    /// The sum of two spans, which must not be longer than the longest span.
    pub fn plus(self, other: Duration) -> (r: Duration)
        requires
            self.nanos + other.nanos <= MAX_NANOS,
        ensures
            r.nanos == self.nanos + other.nanos,
    {
        Duration { nanos: self.nanos + other.nanos }
    }

    /// The span divided by `divisor`, rounded down to the nanosecond.
    pub fn div_by(self, divisor: u32) -> (r: Duration)
        requires
            divisor > 0,
        ensures
            r.nanos == (self.nanos as int) / (divisor as int),
    {
        Duration { nanos: self.nanos / (divisor as u128) }
    }

    /// The longer of two spans.
    pub fn longer(self, other: Duration) -> (r: Duration)
        ensures
            r.nanos == if self.nanos >= other.nanos { self.nanos } else { other.nanos },
    {
        if self.nanos >= other.nanos { self } else { other }
    }

    /// The shorter of two spans.
    pub fn shorter(self, other: Duration) -> (r: Duration)
        ensures
            r.nanos == if self.nanos <= other.nanos { self.nanos } else { other.nanos },
    {
        if self.nanos <= other.nanos { self } else { other }
    }
}

/// `a - b`, or zero when `b` is the larger.
pub open spec fn sat_sub(a: int, b: int) -> int {
    if a >= b { a - b } else { 0 }
}

pub open spec fn max_int(a: int, b: int) -> int {
    if a >= b { a } else { b }
}

pub open spec fn min_int(a: int, b: int) -> int {
    if a <= b { a } else { b }
}

/// How many moves a timed search spreads the clock over when none is given: twenty less half
/// the full move number, at least five.
pub open spec fn default_divider(fullmove_number: int) -> int {
    max_int(sat_sub(20, fullmove_number / 2), 5)
}

/// The sum the time of a timed search starts from, in nanoseconds: the own time less the
/// opponent's lead, spread over `divider` moves, plus the increment less a second, plus a
/// quarter of the own lead beyond ten seconds.
pub open spec fn timed_base_nanos(self_time: int, self_inc: int, opponent_time: int, divider: int) -> int {
    sat_sub(self_time, sat_sub(opponent_time, self_time)) / divider + sat_sub(self_inc, 1_000_000_000)
        + sat_sub(sat_sub(self_time, opponent_time), 10_000_000_000) / 4
}

/// The time a timed search is allowed, in nanoseconds: the base sum, at least the shorter of
/// half the own time and three seconds, at most half a second per full move, and at least
/// a tenth of a second.
pub open spec fn timed_search_nanos(
    self_time: int,
    self_inc: int,
    opponent_time: int,
    divider: int,
    fullmove_number: int,
) -> int {
    let base = timed_base_nanos(self_time, self_inc, opponent_time, divider);
    let lower = min_int(self_time / 2, 3_000_000_000);
    let upper = fullmove_number * 1_000_000_000 / 2;
    max_int(min_int(max_int(base, lower), upper), 100_000_000)
}

/// `a - b`, or zero when `b` is the larger.
fn sat_sub_exec(a: u128, b: u128) -> (r: u128)
    ensures
        r == sat_sub(a as int, b as int),
{
    if a >= b {
        a - b
    } else {
        0
    }
}

/// Can the search command `command` be followed on `board` (see `time_command_ok`)?
pub fn time_command_fits(command: GoCommand, board: &Board) -> (r: bool)
    ensures
        r == time_command_ok(command, board.current().position.turn_, board.current().position.fullmove_number as int),
{
    match command {
        GoCommand::MoveTime(_) => true,
        GoCommand::Timed { wtime, btime, winc, binc, moves_to_go } => {
            if wtime.nanos > MAX_NANOS || btime.nanos > MAX_NANOS || winc.nanos > MAX_NANOS || binc.nanos > MAX_NANOS {
                return false;
            }
            let divider: u128 = match moves_to_go {
                Some(n) => {
                    if n == 0 {
                        return false;
                    }
                    n as u128
                },
                None => {
                    let half = (board.get_mini_board().get_fullmove_number() / 2) as u128;
                    let d = sat_sub_exec(20, half);
                    if d < 5 {
                        5
                    } else {
                        d
                    }
                },
            };
            let (own, inc, opp) = match board.get_mini_board().turn() {
                Color::White => (wtime.nanos, winc.nanos, btime.nanos),
                Color::Black => (btime.nanos, binc.nanos, wtime.nanos),
            };
            let spread = sat_sub_exec(own, sat_sub_exec(opp, own)) / divider;
            let extra = sat_sub_exec(inc, 1_000_000_000);
            let bonus = sat_sub_exec(sat_sub_exec(own, opp), 10_000_000_000) / 4;
            spread + extra + bonus <= MAX_NANOS
        },
        _ => false,
    }
}

#[verifier::external_type_specification]
#[verifier::external_body]
pub struct ExInstant(Instant);

/// `Instant` is `Copy`, so its `clone` gives back the same moment.
pub assume_specification[ <Instant as Clone>::clone ](instant: &Instant) -> (r: Instant)
    ensures
        r == *instant,
;

/// Calls `Instant::now`: the current moment of the monotonic clock. Nothing is claimed of it.
#[verifier::external_body]
fn instant_now() -> (r: Instant) {
    Instant::now()
}

/// Calls `Instant::elapsed` and `Duration::as_nanos` on the result: the time since `start`,
/// which can be no longer than the longest `Duration`. Nothing else is claimed of it.
#[verifier::external_body]
fn elapsed_since(start: &Instant) -> (r: Duration)
    ensures
        r.wf(),
{
    Duration { nanos: start.elapsed().as_nanos() }
}

/// Has the search used up its time: a limit is set, and the time elapsed plus the overhead
/// kept for making the move reaches it?
pub open spec fn time_up_spec(elapsed: Duration, overhead: Duration, max_time: Duration) -> bool {
    max_time.nanos != MAX_NANOS && elapsed.nanos + overhead.nanos >= max_time.nanos
}

/// Has the search used up its time, after `elapsed` (see `time_up_spec`)?
pub fn time_up(elapsed: Duration, overhead: Duration, max_time: Duration) -> (r: bool)
    requires
        elapsed.wf(),
        overhead.wf(),
    ensures
        r == time_up_spec(elapsed, overhead, max_time),
{
    max_time.nanos != MAX_NANOS && elapsed.nanos + overhead.nanos >= max_time.nanos
}

/// The own time, own increment and opponent's time of a timed search, seen from `turn`.
pub open spec fn clocks_of(turn: Color, wtime: Duration, btime: Duration, winc: Duration, binc: Duration) -> (int, int, int) {
    if turn == Color::White {
        (wtime.nanos as int, winc.nanos as int, btime.nanos as int)
    } else {
        (btime.nanos as int, binc.nanos as int, wtime.nanos as int)
    }
}

/// The number of moves a timed search spreads the clock over: the moves to go when given,
/// else `default_divider`.
pub open spec fn divider_of(moves_to_go: Option<u16>, fullmove_number: int) -> int {
    match moves_to_go {
        Some(n) => n as int,
        None => default_divider(fullmove_number),
    }
}

/// What `parse_time_based_command` makes of the clock `t` for `command` on `board`: a move
/// time becomes the time allowed; a timed search allows `timed_search_nanos` of the clocks
/// seen from the side to move; the limit is lifted from a found-up stop either way.
pub open spec fn time_set_by(t: Timer, board: Board, command: GoCommand, after: Timer) -> bool {
    match command {
        GoCommand::MoveTime(d) => after == (Timer { max_time: d, stop_search: false, ..t }),
        GoCommand::Timed { wtime, btime, winc, binc, moves_to_go } => {
            let fullmove = board.current().position.fullmove_number as int;
            let (own, inc, opp) = clocks_of(board.current().position.turn_, wtime, btime, winc, binc);
            after == (Timer {
                max_time: Duration {
                    nanos: timed_search_nanos(own, inc, opp, divider_of(moves_to_go, fullmove), fullmove) as u128,
                },
                stop_search: false,
                ..t
            })
        },
        _ => true,
    }
}

/// A timed search is timed from the clock of the side to move: its own time and increment
/// against the other side's time. With White to move that is `wtime` and `winc` against
/// `btime`; with Black to move, `btime` and `binc` against `wtime`.
pub proof fn law_timed_search_uses_mover_clock(
    t: Timer,
    board: Board,
    wtime: Duration,
    btime: Duration,
    winc: Duration,
    binc: Duration,
    moves_to_go: Option<u16>,
    after: Timer,
)
    requires
        time_set_by(t, board, GoCommand::Timed { wtime, btime, winc, binc, moves_to_go }, after),
    ensures
        ({
            let fullmove = board.current().position.fullmove_number as int;
            let divider = divider_of(moves_to_go, fullmove);
            &&& board.current().position.turn_ == Color::White ==> after.max_time.nanos == timed_search_nanos(
                wtime.nanos as int,
                winc.nanos as int,
                btime.nanos as int,
                divider,
                fullmove,
            ) as u128
            &&& board.current().position.turn_ == Color::Black ==> after.max_time.nanos == timed_search_nanos(
                btime.nanos as int,
                binc.nanos as int,
                wtime.nanos as int,
                divider,
                fullmove,
            ) as u128
        }),
        after.stop_search == false,
{
}

/// A timed search command fits exactly when its clocks are spans, its moves to go is not
/// zero, and the base sum of the side to move's clock fits a span: `wtime` and `winc` against
/// `btime` with White to move, `btime` and `binc` against `wtime` with Black to move.
pub proof fn law_time_command_ok_uses_mover_clock(
    turn: Color,
    fullmove: int,
    wtime: Duration,
    btime: Duration,
    winc: Duration,
    binc: Duration,
    moves_to_go: Option<u16>,
)
    ensures
        ({
            let ok = time_command_ok(GoCommand::Timed { wtime, btime, winc, binc, moves_to_go }, turn, fullmove);
            let spans = wtime.wf() && btime.wf() && winc.wf() && binc.wf() && moves_to_go != Some(0u16);
            let divider = divider_of(moves_to_go, fullmove);
            &&& turn == Color::White ==> ok == (spans && timed_base_nanos(
                wtime.nanos as int,
                winc.nanos as int,
                btime.nanos as int,
                divider,
            ) <= MAX_NANOS)
            &&& turn == Color::Black ==> ok == (spans && timed_base_nanos(
                btime.nanos as int,
                binc.nanos as int,
                wtime.nanos as int,
                divider,
            ) <= MAX_NANOS)
        }),
{
}

/// A move-time search is allowed exactly the time it names, and any search command clears a
/// stop found earlier.
pub proof fn law_move_time_is_allowed(t: Timer, board: Board, d: Duration, after: Timer)
    requires
        time_set_by(t, board, GoCommand::MoveTime(d), after),
    ensures
        after.max_time == d,
        !after.stop_search,
        after.move_overhead == t.move_overhead,
        after.start_instant == t.start_instant,
{
}

/// The time a timed search is allowed is at least a tenth of a second and at most half a
/// second per full move (or that tenth of a second); when half a second per full move is
/// enough, it is at least the shorter of half the own time and three seconds.
pub proof fn law_timed_search_bounds(self_time: int, self_inc: int, opponent_time: int, divider: int, fullmove: int)
    ensures
        ({
            let n = timed_search_nanos(self_time, self_inc, opponent_time, divider, fullmove);
            let upper = fullmove * 1_000_000_000 / 2;
            let lower = min_int(self_time / 2, 3_000_000_000);
            &&& n >= 100_000_000
            &&& n <= max_int(upper, 100_000_000)
            &&& upper >= lower ==> n >= lower
        }),
{
}

/// Which side's clock is which does not matter beyond whose turn it is: a timed search with
/// one side to move is given the same time as with the other side to move at the same full
/// move number, the white and black clocks and increments swapped.
pub proof fn law_timed_search_color_symmetric(
    t: Timer,
    b1: Board,
    b2: Board,
    wtime: Duration,
    btime: Duration,
    winc: Duration,
    binc: Duration,
    moves_to_go: Option<u16>,
    a1: Timer,
    a2: Timer,
)
    requires
        b2.current().position.turn_ == b1.current().position.turn_.other(),
        b2.current().position.fullmove_number == b1.current().position.fullmove_number,
        time_set_by(t, b1, GoCommand::Timed { wtime, btime, winc, binc, moves_to_go }, a1),
        time_set_by(t, b2, GoCommand::Timed { wtime: btime, btime: wtime, winc: binc, binc: winc, moves_to_go }, a2),
    ensures
        a1.max_time == a2.max_time,
{
    law_timed_search_uses_mover_clock(t, b1, wtime, btime, winc, binc, moves_to_go, a1);
    law_timed_search_uses_mover_clock(t, b2, btime, wtime, binc, winc, moves_to_go, a2);
}

/// A time-based search command can be followed on a board whose side to move is `turn` and
/// full move number is `fullmove_number`: it is a move time, or a timed search whose clocks
/// are spans, whose moves to go is not zero, and whose base sum is not too long a span.
pub open spec fn time_command_ok(command: GoCommand, turn: Color, fullmove_number: int) -> bool {
    match command {
        GoCommand::MoveTime(_) => true,
        GoCommand::Timed { wtime, btime, winc, binc, moves_to_go } => {
            let (own, inc, opp) = clocks_of(turn, wtime, btime, winc, binc);
            &&& wtime.wf() && btime.wf() && winc.wf() && binc.wf()
            &&& moves_to_go != Some(0u16)
            &&& timed_base_nanos(own, inc, opp, divider_of(moves_to_go, fullmove_number)) <= MAX_NANOS
        },
        _ => false,
    }
}

/// What `check_stop` does when the stop flag reads `flag` and the clock, if it is read,
/// shows `elapsed`: a raised flag stops; a dummy clock or a disabled timer does not; a time
/// already found up stops; with no limit the search goes on; else the stop decision is
/// whether the time is up now, and it is kept.
pub open spec fn stop_outcome(t: Timer, enable_timer: bool, flag: bool, elapsed: Duration, r: bool, after: Timer) -> bool {
    if flag {
        r && after == t
    } else if t.is_dummy || !enable_timer {
        !r && after == t
    } else if t.stop_search {
        r && after == t
    } else if t.max_time.nanos == MAX_NANOS {
        !r && after == t
    } else {
        r == time_up_spec(elapsed, t.move_overhead, t.max_time) && after == (Timer { stop_search: r, ..t })
    }
}

/// What `update_max_time` does when the clock, if it is read, shows `elapsed`: with a limit
/// set, a depth of ten or more, a winning score and more than ten seconds elapsed, the
/// search is told to stop; otherwise nothing changes.
pub open spec fn winning_stop_outcome(t: Timer, depth: i8, score: i16, elapsed: Duration, after: Timer) -> bool {
    after == if t.max_time.nanos != MAX_NANOS && depth >= 10 && score >= WINNING_SCORE_THRESHOLD && elapsed.nanos
        > 10_000_000_000 {
        Timer { stop_search: true, ..t }
    } else {
        t
    }
}

/// The clock of one search: when it started, the overhead kept for making the move, the time
/// allowed, whether the time is up, and the flag another thread raises to stop.
#[derive(Clone, Debug)]
pub struct Timer {
    pub start_instant: Instant,
    pub move_overhead: Duration,
    pub max_time: Duration,
    pub stop_search: bool,
    pub stopper: Arc<AtomicBool>,
    pub is_dummy: bool,
}

impl Timer {
    /// A clock started now, with no overhead and no limit.
    pub fn new(stopper: Arc<AtomicBool>) -> (r: Timer)
        ensures
            r.move_overhead.nanos == 0,
            r.max_time.nanos == MAX_NANOS,
            !r.stop_search,
            !r.is_dummy,
            r.stopper == stopper,
    {
        Timer {
            start_instant: instant_now(),
            move_overhead: Duration::zero(),
            max_time: Duration::max_value(),
            stop_search: false,
            stopper,
            is_dummy: false,
        }
    }

    /// A clock that only ever stops on the stop flag.
    pub fn new_dummy(stopper: Arc<AtomicBool>) -> (r: Timer)
        ensures
            r.move_overhead.nanos == 0,
            r.max_time.nanos == MAX_NANOS,
            !r.stop_search,
            r.is_dummy,
            r.stopper == stopper,
    {
        Timer { is_dummy: true, ..Timer::new(stopper) }
    }

    /// Restart the clock and lift the limit.
    pub fn reset_variables(&mut self)
        ensures
            final(self).max_time.nanos == MAX_NANOS,
            !final(self).stop_search,
            final(self).move_overhead == old(self).move_overhead,
            final(self).stopper == old(self).stopper,
            final(self).is_dummy == old(self).is_dummy,
    {
        self.start_instant = instant_now();
        self.max_time = Duration::max_value();
        self.stop_search = false;
    }

    /// Restart the clock.
    pub fn reset_start_time(&mut self)
        ensures
            !final(self).stop_search,
            final(self).max_time == old(self).max_time,
            final(self).move_overhead == old(self).move_overhead,
            final(self).stopper == old(self).stopper,
            final(self).is_dummy == old(self).is_dummy,
    {
        self.start_instant = instant_now();
        self.stop_search = false;
    }

    /// Allow the search `duration`.
    pub fn set_max_time(&mut self, duration: Duration)
        ensures
            *final(self) == (Timer { max_time: duration, stop_search: false, ..*old(self) }),
    {
        self.max_time = duration;
        self.stop_search = false;
    }

    /// Set the time allowed from a search command: the move time itself, or for a timed
    /// search the share of the clock `timed_search_nanos` gives from the side to move's point
    /// of view.
    pub fn parse_time_based_command(&mut self, board: &Board, command: GoCommand)
        requires
            time_command_ok(command, board.current().position.turn_, board.current().position.fullmove_number as int),
        ensures
            time_set_by(*old(self), *board, command, *final(self)),
    {
        match command {
            GoCommand::MoveTime(duration) => self.set_max_time(duration),
            GoCommand::Timed { wtime, btime, winc, binc, moves_to_go } => {
                let mini = board.get_mini_board();
                let turn = mini.turn();
                let fullmove = mini.get_fullmove_number();
                let (own, inc, opp) = match turn {
                    Color::White => (wtime, winc, btime),
                    Color::Black => (btime, binc, wtime),
                };
                let divider: u16 = match moves_to_go {
                    Some(n) => n,
                    None => {
                        let half = fullmove / 2;
                        let d: u16 = if half <= 20 { 20 - half } else { 0 };
                        if d < 5 { 5 } else { d }
                    },
                };
                let new_inc = inc.saturating_sub(Duration::from_secs(1));
                let own_lead = own.saturating_sub(opp);
                let opp_lead = opp.saturating_sub(own);
                let spread = own.saturating_sub(opp_lead).div_by(divider as u32);
                let bonus = own_lead.saturating_sub(Duration::from_secs(10)).div_by(4);
                let search = spread.plus(new_inc).plus(bonus);
                let search = search.longer(own.div_by(2).shorter(Duration::from_secs(3))).shorter(
                    Duration::from_secs(fullmove as u64).div_by(2),
                ).longer(Duration::from_millis(100));
                self.set_max_time(search);
            },
            _ => {},
        }
    }

    /// The moment the clock started.
    pub fn get_clock(&self) -> (r: Instant)
        ensures
            r == self.start_instant,
    {
        self.start_instant
    }

    /// The time since the clock started.
    pub fn time_elapsed(&self) -> (r: Duration)
        ensures
            r.wf(),
    {
        elapsed_since(&self.start_instant)
    }

    pub fn get_move_overhead(&self) -> (r: Duration)
        ensures
            r == self.move_overhead,
    {
        self.move_overhead
    }

    pub fn set_move_overhead(&mut self, duration: Duration)
        ensures
            *final(self) == (Timer { move_overhead: duration, ..*old(self) }),
    {
        self.move_overhead = duration;
    }

    /// The clock with `duration` kept for making the move.
    pub fn with_move_overhead(self, duration: Duration) -> (r: Timer)
        ensures
            r == (Timer { move_overhead: duration, ..self }),
    {
        let mut t = self;
        t.set_move_overhead(duration);
        t
    }

    pub fn max_time(&self) -> (r: Duration)
        ensures
            r == self.max_time,
    {
        self.max_time
    }

    /// Has the time run out? The answer is kept as the stop decision; with no limit it is no.
    pub fn is_time_up(&mut self) -> (r: bool)
        requires
            old(self).move_overhead.wf(),
        ensures
            old(self).max_time.nanos == MAX_NANOS ==> !r && *final(self) == *old(self),
            old(self).max_time.nanos != MAX_NANOS ==> exists|elapsed: Duration| elapsed.wf() && r == time_up_spec(
                elapsed,
                old(self).move_overhead,
                old(self).max_time,
            ),
            old(self).max_time.nanos != MAX_NANOS ==> *final(self) == (Timer { stop_search: r, ..*old(self) }),
    {
        if self.max_time.nanos == MAX_NANOS {
            return false;
        }
        let elapsed = self.time_elapsed();
        self.stop_search = time_up(elapsed, self.move_overhead, self.max_time);
        self.stop_search
    }

    /// Should the search stop: when the stop flag is raised; else, for a real clock with the
    /// timer enabled, when the time was already found up or is up now (see `stop_outcome`).
    pub fn check_stop(&mut self, enable_timer: bool) -> (r: bool)
        requires
            old(self).move_overhead.wf(),
        ensures
            exists|flag: bool, elapsed: Duration| elapsed.wf() && #[trigger] stop_outcome(*old(self), enable_timer, flag, elapsed, r, *final(self)),
    {
        let flag = self.stopper.load(std::sync::atomic::Ordering::Relaxed);
        if flag {
            proof {
                assert(stop_outcome(*old(self), enable_timer, flag, Duration { nanos: 0 }, true, *self));
            }
            return true;
        }
        if self.is_dummy || !enable_timer {
            proof {
                assert(stop_outcome(*old(self), enable_timer, flag, Duration { nanos: 0 }, false, *self));
            }
            return false;
        }
        if self.stop_search {
            proof {
                assert(stop_outcome(*old(self), enable_timer, flag, Duration { nanos: 0 }, true, *self));
            }
            return true;
        }
        let r = self.is_time_up();
        proof {
            if old(self).max_time.nanos == MAX_NANOS {
                assert(stop_outcome(*old(self), enable_timer, flag, Duration { nanos: 0 }, r, *self));
            } else {
                let e = choose|elapsed: Duration| elapsed.wf() && r == time_up_spec(elapsed, old(self).move_overhead, old(self).max_time);
                assert(stop_outcome(*old(self), enable_timer, flag, e, r, *self));
            }
        }
        r
    }

    /// Stop a long search early once it has found a winning score: with a limit set, at
    /// depth ten or more, a score of at least `WINNING_SCORE_THRESHOLD`, and more than ten
    /// seconds spent on the clock (see `winning_stop_outcome`).
    pub fn update_max_time(&mut self, depth: i8, score: i16)
        ensures
            exists|elapsed: Duration| elapsed.wf() && #[trigger] winning_stop_outcome(*old(self), depth, score, elapsed, *final(self)),
    {
        if self.max_time.nanos != MAX_NANOS && depth >= 10 && score >= WINNING_SCORE_THRESHOLD {
            let elapsed = self.time_elapsed();
            if elapsed.nanos > Duration::from_secs(10).nanos {
                self.stop_search = true;
            }
            proof {
                assert(winning_stop_outcome(*old(self), depth, score, elapsed, *self));
            }
        } else {
            proof {
                assert(winning_stop_outcome(*old(self), depth, score, Duration { nanos: 0 }, *self));
            }
        }
    }
}

/// The limits of one search: time, depth, nodes and score, whether it runs until told to
/// stop, and the moves it may search.
#[derive(Clone, Debug)]
pub struct SearchController {
    pub move_overhead: Duration,
    pub max_time: Duration,
    pub max_depth: i8,
    pub max_num_nodes_searched: usize,
    pub max_abs_score_reached: i16,
    pub stop_search_at_every_node: bool,
    pub is_infinite_search_: bool,
    pub moves_to_search: Option<Vec<crate::moves::Move>>,
}

impl SearchController {
    /// No limits, and 200 milliseconds kept for making the move.
    pub fn new() -> (r: SearchController)
        ensures
            r.move_overhead.nanos == 200_000_000,
            r.max_time.nanos == MAX_NANOS,
            r.max_depth == i8::MAX,
            r.max_num_nodes_searched == usize::MAX,
            r.max_abs_score_reached == i16::MAX,
            !r.stop_search_at_every_node,
            !r.is_infinite_search_,
            r.moves_to_search is None,
    {
        SearchController {
            move_overhead: Duration::from_millis(200),
            max_time: Duration::max_value(),
            max_depth: i8::MAX,
            max_num_nodes_searched: usize::MAX,
            max_abs_score_reached: i16::MAX,
            stop_search_at_every_node: false,
            is_infinite_search_: false,
            moves_to_search: None,
        }
    }

    pub fn is_infinite_search(&self) -> (r: bool)
        ensures
            r == self.is_infinite_search_,
    {
        self.is_infinite_search_
    }

    /// Start timing afresh: the stop decision is taken back.
    pub fn reset_start_time(&mut self)
        ensures
            *final(self) == (SearchController { stop_search_at_every_node: false, ..*old(self) }),
    {
        self.stop_search_at_every_node = false;
    }

    /// Allow the search `duration`.
    pub fn set_max_time(&mut self, duration: Duration)
        ensures
            *final(self) == (SearchController { max_time: duration, stop_search_at_every_node: false, ..*old(self) }),
    {
        self.max_time = duration;
        self.stop_search_at_every_node = false;
    }

    pub fn max_time(&self) -> (r: Duration)
        ensures
            r == self.max_time,
    {
        self.max_time
    }

    pub fn get_move_overhead(&self) -> (r: Duration)
        ensures
            r == self.move_overhead,
    {
        self.move_overhead
    }

    pub fn set_move_overhead(&mut self, duration: Duration)
        ensures
            *final(self) == (SearchController { move_overhead: duration, ..*old(self) }),
    {
        self.move_overhead = duration;
    }

    /// Lift every limit.
    pub fn reset_variables(&mut self)
        ensures
            *final(self) == (SearchController {
                max_time: Duration { nanos: MAX_NANOS },
                max_depth: i8::MAX,
                max_num_nodes_searched: usize::MAX,
                max_abs_score_reached: i16::MAX,
                stop_search_at_every_node: false,
                ..*old(self)
            }),
    {
        self.max_time = Duration::max_value();
        self.max_depth = i8::MAX;
        self.max_num_nodes_searched = usize::MAX;
        self.max_abs_score_reached = i16::MAX;
        self.stop_search_at_every_node = false;
    }

    /// Has the time run out after `time_elapsed` (see `time_up_spec`)? The answer is kept as
    /// the stop decision; with no limit it is no.
    pub fn is_time_up(&mut self, time_elapsed: Duration) -> (r: bool)
        requires
            time_elapsed.wf(),
            old(self).move_overhead.wf(),
        ensures
            r == time_up_spec(time_elapsed, old(self).move_overhead, old(self).max_time),
            old(self).max_time.nanos == MAX_NANOS ==> *final(self) == *old(self),
            old(self).max_time.nanos != MAX_NANOS ==> *final(self) == (SearchController { stop_search_at_every_node: r, ..*old(self) }),
    {
        if self.max_time.nanos == MAX_NANOS {
            return false;
        }
        self.stop_search_at_every_node = time_up(time_elapsed, self.move_overhead, self.max_time);
        self.stop_search_at_every_node
    }
}

impl Default for Timer {
    fn default() -> (r: Timer)
        ensures
            r.move_overhead.nanos == 0,
            r.max_time.nanos == MAX_NANOS,
            !r.stop_search,
            !r.is_dummy,
    {
        Timer::new(Arc::new(AtomicBool::new(false)))
    }
}

} // verus!
