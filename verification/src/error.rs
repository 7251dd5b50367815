//! The errors of the library.
use vstd::prelude::*;
use crate::moves::Move;
use crate::position::BoardPosition;

verus! {

/// What went wrong when reading a square, a move or a board.
#[derive(PartialEq, Eq, Clone, Debug, Hash)]
pub enum ChessError {
    InvalidRank,
    InvalidFile,
    InvalidSquare,
    InvalidUciMove,
    InvalidFen { fen: String },
    InvalidBoard,
}

/// What went wrong.
#[derive(Clone, Debug)]
pub enum TimecatError {
    UnknownCommand,
    NoInput,
    NotImplemented,
    EngineNotRunning,
    BadFen { fen: String },
    InvalidDepth { depth: i8 },
    UCIModeUnchanged,
    ConsoleModeUnchanged,
    EmptyStack,
    BestMoveNotFound { fen: String },
    NullMoveInCheck { fen: String },
    WTimeNotMentioned,
    BTimeNotMentioned,
    GameAlreadyOver,
    UnknownDebugCommand { command: String },
    SameSourceAndDestination { move_: Move },
    InvalidPromotion { move_: Move },
    InvalidMoveString { s: String },
    InvalidSquareString { s: String },
    InvalidUciMoveString { s: String },
    InvalidBoardPosition { position: BoardPosition },
    IllegalMove { valid_or_null_move: Option<Move>, board_fen: String },
    FeatureNotEnabled { s: String },
    BadPolyglotFile,
    PolyglotTableParseError,
    CustomError { err_msg: String },
}

} // verus!

verus! {

/// The decimal text of `n`, at least one digit.
pub open spec fn nat_text(n: nat) -> Seq<char>
    decreases n,
{
    if n < 10 {
        seq![(('0' as u32) + n) as char]
    } else {
        nat_text(n / 10).push((('0' as u32) + n % 10) as char)
    }
}

/// The decimal text of `n`, with a minus sign when it is negative.
pub open spec fn int_text(n: int) -> Seq<char> {
    if n < 0 {
        seq!['-'] + nat_text((-n) as nat)
    } else {
        nat_text(n as nat)
    }
}

/// The text of `s` between double quotes.
pub open spec fn quoted(s: Seq<char>) -> Seq<char> {
    seq!['"'] + s + seq!['"']
}

/// The message of an error. An unknown command names the mode the engine is in (UCI when
/// `uci_mode`, console otherwise); a move is written in UCI notation and a null move as
/// `--`; a feature's name stands between double quotes.
pub open spec fn error_text(e: TimecatError, uci_mode: bool) -> Seq<char> {
    match e {
        TimecatError::UnknownCommand => "Unknown "@ + (if uci_mode { "UCI"@ } else { "Console"@ }) + " Command!\nPlease try again!"@,
        TimecatError::NoInput => "No input! Please try again!"@,
        TimecatError::NotImplemented => "Sorry, this command is not implemented yet :("@,
        TimecatError::EngineNotRunning => "Engine is not running! Please try again!"@,
        TimecatError::BadFen { fen } => "Bad FEN string: "@ + fen@ + "! Please try Again!"@,
        TimecatError::InvalidDepth { depth } => "Invalid depth "@ + int_text(depth as int) + "! Please try again!"@,
        TimecatError::UCIModeUnchanged => "Already in UCI Mode! Please try again!"@,
        TimecatError::ConsoleModeUnchanged => "Already in Console Mode! Please try again!"@,
        TimecatError::EmptyStack => "Move Stack is empty, pop not possible! Please try again!"@,
        TimecatError::BestMoveNotFound { fen } => "Best move not found in position "@ + fen@
            + "! Please try again!"@,
        TimecatError::NullMoveInCheck { fen } => "Cannot apply null move in position "@ + fen@
            + ", as king is in check! Please try again!"@,
        TimecatError::WTimeNotMentioned => "You didn't mention wtime! Please try again!"@,
        TimecatError::BTimeNotMentioned => "You didn't mention btime! Please try again!"@,
        TimecatError::GameAlreadyOver => "Game is already over! Please start a game from another position!"@,
        TimecatError::UnknownDebugCommand { command } => "Debug command "@ + command@
            + " is unknown! The possible commands are on or off! Please try again!"@,
        TimecatError::SameSourceAndDestination { move_ } => "The source and destination squares of the move "@
            + crate::uci::move_text(move_) + " cannot be the same!"@,
        TimecatError::InvalidPromotion { move_ } => "Invalid promotion for the move "@ + crate::uci::move_text(move_)
            + "!"@,
        TimecatError::InvalidMoveString { s } => "Got invalid move string "@ + s@ + "! Please try again!"@,
        TimecatError::InvalidSquareString { s } => "Got invalid square string "@ + s@ + "! Please try again!"@,
        TimecatError::InvalidUciMoveString { s } => "Invalid uci move string "@ + s@ + "! Please try again!"@,
        TimecatError::InvalidBoardPosition { position } => "Invalid position generated!"@,
        TimecatError::IllegalMove { valid_or_null_move, board_fen } => "Illegal move "@ + (match valid_or_null_move {
            Some(m) => crate::uci::move_text(m),
            None => "--"@,
        }) + " in position "@ + board_fen@ + "! Please try again!"@,
        TimecatError::FeatureNotEnabled { s } => "The feature "@ + quoted(s@)
            + " is not enabled. Please recompile the chess engine with this feature enabled!"@,
        TimecatError::BadPolyglotFile => "The Polyglot file cannot be parsed properly! Try again with a different Polyglot file!"@,
        TimecatError::PolyglotTableParseError => "The Polyglot Table cannot be parsed properly! Try again with a different Polyglot file!"@,
        TimecatError::CustomError { err_msg } => err_msg@,
    }
}

/// `v` with the characters of `s` after it.
fn append_str(v: &mut Vec<char>, s: &str)
    ensures
        final(v)@ == old(v)@ + s@,
{
    let c = crate::text::str_chars(s);
    append_chars(v, &c);
}

/// `v` with the characters of `c` after it.
fn append_chars(v: &mut Vec<char>, c: &Vec<char>)
    ensures
        final(v)@ == old(v)@ + c@,
{
    let ghost start = v@;
    let mut i: usize = 0;
    while i < c.len()
        invariant
            i <= c.len(),
            v@ == start + c@.subrange(0, i as int),
        decreases c.len() - i,
    {
        v.push(c[i]);
        proof {
            assert(v@ =~= start + c@.subrange(0, i as int + 1));
        }
        i = i + 1;
    }
    proof {
        assert(c@.subrange(0, c@.len() as int) =~= c@);
    }
}

/// The decimal text of a small number.
fn small_int_text(n: i8) -> (r: Vec<char>)
    ensures
        r@ == int_text(n as int),
{
    let mut v: Vec<char> = Vec::new();
    let m: u16 = if n < 0 {
        v.push('-');
        (-(n as i16)) as u16
    } else {
        n as u16
    };
    let ghost start = v@;
    proof {
        reveal_with_fuel(nat_text, 4);
    }
    if m >= 100 {
        v.push(('0' as u8 + (m / 100) as u8) as char);
    }
    if m >= 10 {
        v.push(('0' as u8 + ((m / 10) % 10) as u8) as char);
    }
    v.push(('0' as u8 + (m % 10) as u8) as char);
    proof {
        if m >= 100 {
            assert(nat_text(m as nat) =~= seq![(('0' as u32) + m / 100) as char, (('0' as u32) + (m / 10) % 10) as char,
                (('0' as u32) + m % 10) as char]);
        } else if m >= 10 {
            assert(nat_text(m as nat) =~= seq![(('0' as u32) + m / 10) as char, (('0' as u32) + m % 10) as char]);
        }
        assert(v@ =~= start + nat_text(m as nat));
    }
    v
}

/// `c` between double quotes.
fn quoted_chars(c: &Vec<char>) -> (r: Vec<char>)
    ensures
        r@ == quoted(c@),
{
    let mut v: Vec<char> = Vec::new();
    v.push('"');
    append_chars(&mut v, c);
    v.push('"');
    proof {
        assert(v@ =~= quoted(c@));
    }
    v
}

impl TimecatError {
    /// The message of the error (see `error_text`), for an engine in UCI mode as `uci_mode`
    /// says.
    pub fn message(&self, uci_mode: bool) -> (r: String)
        ensures
            r@ == error_text(*self, uci_mode),
    {
        let mut v: Vec<char> = Vec::new();
        match self {
            TimecatError::UnknownCommand => {
                append_str(&mut v, "Unknown ");
                append_str(&mut v, if uci_mode { "UCI" } else { "Console" });
                append_str(&mut v, " Command!\nPlease try again!");
            },
            TimecatError::NoInput => append_str(&mut v, "No input! Please try again!"),
            TimecatError::NotImplemented => append_str(&mut v, "Sorry, this command is not implemented yet :("),
            TimecatError::EngineNotRunning => append_str(&mut v, "Engine is not running! Please try again!"),
            TimecatError::BadFen { fen } => {
                append_str(&mut v, "Bad FEN string: ");
                append_str(&mut v, fen.as_str());
                append_str(&mut v, "! Please try Again!");
            },
            TimecatError::InvalidDepth { depth } => {
                append_str(&mut v, "Invalid depth ");
                append_chars(&mut v, &small_int_text(*depth));
                append_str(&mut v, "! Please try again!");
            },
            TimecatError::UCIModeUnchanged => append_str(&mut v, "Already in UCI Mode! Please try again!"),
            TimecatError::ConsoleModeUnchanged => append_str(&mut v, "Already in Console Mode! Please try again!"),
            TimecatError::EmptyStack => append_str(&mut v, "Move Stack is empty, pop not possible! Please try again!"),
            TimecatError::BestMoveNotFound { fen } => {
                append_str(&mut v, "Best move not found in position ");
                append_str(&mut v, fen.as_str());
                append_str(&mut v, "! Please try again!");
            },
            TimecatError::NullMoveInCheck { fen } => {
                append_str(&mut v, "Cannot apply null move in position ");
                append_str(&mut v, fen.as_str());
                append_str(&mut v, ", as king is in check! Please try again!");
            },
            TimecatError::WTimeNotMentioned => append_str(&mut v, "You didn't mention wtime! Please try again!"),
            TimecatError::BTimeNotMentioned => append_str(&mut v, "You didn't mention btime! Please try again!"),
            TimecatError::GameAlreadyOver => append_str(
                &mut v,
                "Game is already over! Please start a game from another position!",
            ),
            TimecatError::UnknownDebugCommand { command } => {
                append_str(&mut v, "Debug command ");
                append_str(&mut v, command.as_str());
                append_str(&mut v, " is unknown! The possible commands are on or off! Please try again!");
            },
            TimecatError::SameSourceAndDestination { move_ } => {
                append_str(&mut v, "The source and destination squares of the move ");
                append_str(&mut v, move_.to_string().as_str());
                append_str(&mut v, " cannot be the same!");
            },
            TimecatError::InvalidPromotion { move_ } => {
                append_str(&mut v, "Invalid promotion for the move ");
                append_str(&mut v, move_.to_string().as_str());
                append_str(&mut v, "!");
            },
            TimecatError::InvalidMoveString { s } => {
                append_str(&mut v, "Got invalid move string ");
                append_str(&mut v, s.as_str());
                append_str(&mut v, "! Please try again!");
            },
            TimecatError::InvalidSquareString { s } => {
                append_str(&mut v, "Got invalid square string ");
                append_str(&mut v, s.as_str());
                append_str(&mut v, "! Please try again!");
            },
            TimecatError::InvalidUciMoveString { s } => {
                append_str(&mut v, "Invalid uci move string ");
                append_str(&mut v, s.as_str());
                append_str(&mut v, "! Please try again!");
            },
            TimecatError::InvalidBoardPosition { .. } => append_str(&mut v, "Invalid position generated!"),
            TimecatError::IllegalMove { valid_or_null_move, board_fen } => {
                append_str(&mut v, "Illegal move ");
                match valid_or_null_move {
                    Some(m) => append_str(&mut v, m.to_string().as_str()),
                    None => append_str(&mut v, "--"),
                }
                append_str(&mut v, " in position ");
                append_str(&mut v, board_fen.as_str());
                append_str(&mut v, "! Please try again!");
            },
            TimecatError::FeatureNotEnabled { s } => {
                append_str(&mut v, "The feature ");
                append_chars(&mut v, &quoted_chars(&crate::text::str_chars(s.as_str())));
                append_str(&mut v, " is not enabled. Please recompile the chess engine with this feature enabled!");
            },
            TimecatError::BadPolyglotFile => append_str(
                &mut v,
                "The Polyglot file cannot be parsed properly! Try again with a different Polyglot file!",
            ),
            TimecatError::PolyglotTableParseError => append_str(
                &mut v,
                "The Polyglot Table cannot be parsed properly! Try again with a different Polyglot file!",
            ),
            TimecatError::CustomError { err_msg } => append_str(&mut v, err_msg.as_str()),
        }
        proof {
            assert(v@ =~= error_text(*self, uci_mode));
        }
        crate::text::chars_to_string(&v)
    }
}

} // verus!
