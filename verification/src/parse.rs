//! Reading the commands a user types: the text is tidied, split at `&&` into single
//! commands, and each is read into the commands it asks for, or refused with an error.
use vstd::prelude::*;
use crate::command_text::{
    digits_from, is_ws, join_range, join_words, lower, lower_chars, parse_int, parse_int_chars, same_text,
    split_amp, split_amp_chars, trim, trim_chars, words, words_of, IntErrorKind,
};
use crate::error::TimecatError;
use crate::fen::split_spaces;
use crate::fen_check::{describes_sane, good_fen_fields, is_good_fen, simplify_fen_spec};
use crate::go_command::GoCommand;
use crate::text::{chars_to_string, str_chars};
use crate::timer::Duration;

verus! {

/// A command the user asks for.
#[derive(Clone, Debug)]
pub enum UserCommand {
    TerminateEngine,
    EngineVersion,
    ChangeToUCIMode { verbose: bool },
    ChangeToConsoleMode { verbose: bool },
    SetDebugMode(bool),
    PrintText(String),
    DisplayBoard,
    DisplayBoardEvaluation,
    PrintUCIInfo,
    UCIMode,
    UCINewGame,
    IsReady,
    Stop,
    Help,
    Perft(i8),
    Go(GoCommand),
    PushMoves(String),
    PopMoves(u16),
    SetFen(String),
    SetUCIOption { user_input: String },
    SelfPlay(GoCommand),
}

/// A command, with its texts as character sequences.
pub ghost enum CommandView {
    TerminateEngine,
    EngineVersion,
    ChangeToUCIMode { verbose: bool },
    ChangeToConsoleMode { verbose: bool },
    SetDebugMode(bool),
    PrintText(Seq<char>),
    DisplayBoard,
    DisplayBoardEvaluation,
    PrintUCIInfo,
    UCIMode,
    UCINewGame,
    IsReady,
    Stop,
    Help,
    Perft(i8),
    Go(GoCommand),
    PushMoves(Seq<char>),
    PopMoves(u16),
    SetFen(Seq<char>),
    SetUCIOption { user_input: Seq<char> },
    SelfPlay(GoCommand),
}

impl View for UserCommand {
    type V = CommandView;

    open spec fn view(&self) -> CommandView {
        match self {
            UserCommand::TerminateEngine => CommandView::TerminateEngine,
            UserCommand::EngineVersion => CommandView::EngineVersion,
            UserCommand::ChangeToUCIMode { verbose } => CommandView::ChangeToUCIMode { verbose: *verbose },
            UserCommand::ChangeToConsoleMode { verbose } => CommandView::ChangeToConsoleMode { verbose: *verbose },
            UserCommand::SetDebugMode(b) => CommandView::SetDebugMode(*b),
            UserCommand::PrintText(s) => CommandView::PrintText(s@),
            UserCommand::DisplayBoard => CommandView::DisplayBoard,
            UserCommand::DisplayBoardEvaluation => CommandView::DisplayBoardEvaluation,
            UserCommand::PrintUCIInfo => CommandView::PrintUCIInfo,
            UserCommand::UCIMode => CommandView::UCIMode,
            UserCommand::UCINewGame => CommandView::UCINewGame,
            UserCommand::IsReady => CommandView::IsReady,
            UserCommand::Stop => CommandView::Stop,
            UserCommand::Help => CommandView::Help,
            UserCommand::Perft(d) => CommandView::Perft(*d),
            UserCommand::Go(g) => CommandView::Go(*g),
            UserCommand::PushMoves(s) => CommandView::PushMoves(s@),
            UserCommand::PopMoves(n) => CommandView::PopMoves(*n),
            UserCommand::SetFen(s) => CommandView::SetFen(s@),
            UserCommand::SetUCIOption { user_input } => CommandView::SetUCIOption { user_input: user_input@ },
            UserCommand::SelfPlay(g) => CommandView::SelfPlay(*g),
        }
    }
}

/// Why a command was refused.
pub ghost enum ParseErrorView {
    UnknownCommand,
    NoInput,
    UCIModeUnchanged,
    ConsoleModeUnchanged,
    WTimeNotMentioned,
    BTimeNotMentioned,
    InvalidDepth(i8),
    BadFen(Seq<char>),
    UnknownDebugCommand(Seq<char>),
    FeatureNotEnabled(Seq<char>),
    IntError(IntErrorKind),
}

/// The message of the error for a number that could not be read.
pub open spec fn int_error_text(k: IntErrorKind) -> Seq<char> {
    match k {
        IntErrorKind::Empty => "Failed to parse integer, cannot parse integer from empty string! Please try again!"@,
        IntErrorKind::InvalidDigit => "Failed to parse integer, invalid digit found in string! Please try again!"@,
        IntErrorKind::PosOverflow => "Failed to parse integer, number too large to fit in target type! Please try again!"@,
        IntErrorKind::NegOverflow => "Failed to parse integer, number too small to fit in target type! Please try again!"@,
    }
}

/// `e` is the error `v` describes.
pub open spec fn error_matches(e: TimecatError, v: ParseErrorView) -> bool {
    match v {
        ParseErrorView::UnknownCommand => e is UnknownCommand,
        ParseErrorView::NoInput => e is NoInput,
        ParseErrorView::UCIModeUnchanged => e is UCIModeUnchanged,
        ParseErrorView::ConsoleModeUnchanged => e is ConsoleModeUnchanged,
        ParseErrorView::WTimeNotMentioned => e is WTimeNotMentioned,
        ParseErrorView::BTimeNotMentioned => e is BTimeNotMentioned,
        ParseErrorView::InvalidDepth(d) => e == TimecatError::InvalidDepth { depth: d },
        ParseErrorView::BadFen(f) => e matches TimecatError::BadFen { fen } && fen@ == f,
        ParseErrorView::UnknownDebugCommand(c) => e matches TimecatError::UnknownDebugCommand { command } && command@ == c,
        ParseErrorView::FeatureNotEnabled(s) => e matches TimecatError::FeatureNotEnabled { s: t } && t@ == s,
        ParseErrorView::IntError(k) => e matches TimecatError::CustomError { err_msg } && err_msg@ == int_error_text(k),
    }
}

/// `r` is the outcome `s` describes.
pub open spec fn outcome_matches(r: Result<Vec<UserCommand>, TimecatError>, s: Result<Seq<CommandView>, ParseErrorView>) -> bool {
    match s {
        Ok(vs) => r matches Ok(cs) && cs@.map_values(|c: UserCommand| c@) == vs,
        Err(v) => r matches Err(e) && error_matches(e, v),
    }
}

/// `r` is the search command, or the error, `s` describes.
pub open spec fn go_matches(r: Result<GoCommand, TimecatError>, s: Result<GoCommand, ParseErrorView>) -> bool {
    match s {
        Ok(g) => r == Ok::<GoCommand, TimecatError>(g),
        Err(v) => r matches Err(e) && error_matches(e, v),
    }
}

/// The FEN text of the starting position.
pub open spec fn start_fen() -> Seq<char> {
    "rnbqkbnr/pppppppp/8/8/8/8/PPPPPPPP/RNBQKBNR w KQkq - 0 1"@
}

/// Is `s` good FEN text (see `is_good_fen`)?
pub open spec fn good_fen_text(s: Seq<char>) -> bool {
    good_fen_fields(split_spaces(simplify_fen_spec(s))) && describes_sane(simplify_fen_spec(s))
}

/// The text of a command tidied: white space trimmed from both ends, commas and colons made
/// spaces, and the spaces tidied (see `simplify_fen_spec`).
pub open spec fn sanitize(s: Seq<char>) -> Seq<char> {
    simplify_fen_spec(trim(s).map_values(|c: char| if c == ',' || c == ':' { ' ' } else { c }))
}

/// The word after the first occurrence of `key` among `ws[i..]`, if there is one.
pub open spec fn value_after(ws: Seq<Seq<char>>, key: Seq<char>, i: int) -> Option<Seq<char>>
    decreases ws.len() - i,
{
    if i >= ws.len() {
        None
    } else if ws[i] == key {
        if i + 1 < ws.len() { Some(ws[i + 1]) } else { None }
    } else {
        value_after(ws, key, i + 1)
    }
}

/// A number of milliseconds after `key`, as a span: none when `key` is not followed by a word,
/// an error when that word is not such a number.
pub open spec fn time_after(ws: Seq<Seq<char>>, key: Seq<char>) -> Result<Option<Duration>, ParseErrorView> {
    match value_after(ws, key, 0) {
        None => Ok(None),
        Some(v) => match parse_int(v, 0, u64::MAX as int) {
            Ok(n) => Ok(Some(Duration { nanos: (n * 1_000_000) as u128 })),
            Err(k) => Err(ParseErrorView::IntError(k)),
        },
    }
}

/// How many of the words `perft`, `depth`, `movetime` and `infinite` occur in `ws`.
pub open spec fn go_keyword_count(ws: Seq<Seq<char>>) -> int {
    (if ws.contains("perft"@) { 1int } else { 0 }) + (if ws.contains("depth"@) { 1int } else { 0 }) + (if ws.contains(
        "movetime"@,
    ) { 1int } else { 0 }) + (if ws.contains("infinite"@) { 1int } else { 0 })
}

/// The search command of the words `ws` of a `go` command.
pub open spec fn go_command_spec(ws: Seq<Seq<char>>) -> Result<GoCommand, ParseErrorView> {
    if go_keyword_count(ws) > 1 || ws.len() < 2 {
        Err(ParseErrorView::UnknownCommand)
    } else {
        let second = lower(ws[1]);
        if (second == "depth"@ && ws.len() > 3) || (second == "movetime"@ && ws.len() > 3) || (second == "infinite"@
            && ws.len() > 2) {
            Err(ParseErrorView::UnknownCommand)
        } else if second == "depth"@ {
            if ws.len() < 3 {
                Err(ParseErrorView::UnknownCommand)
            } else {
                match parse_int(ws[2], -128, 127) {
                    Ok(d) => if d < 0 {
                        Err(ParseErrorView::InvalidDepth(d as i8))
                    } else {
                        Ok(GoCommand::Depth(d as i8))
                    },
                    Err(k) => Err(ParseErrorView::IntError(k)),
                }
            }
        } else if second == "movetime"@ {
            if ws.len() < 3 {
                Err(ParseErrorView::UnknownCommand)
            } else {
                match parse_int(ws[2], 0, u64::MAX as int) {
                    Ok(n) => Ok(GoCommand::MoveTime(Duration { nanos: (n * 1_000_000) as u128 })),
                    Err(k) => Err(ParseErrorView::IntError(k)),
                }
            }
        } else if second == "infinite"@ {
            Ok(GoCommand::Infinite)
        } else if second == "ponder"@ {
            Ok(GoCommand::Ponder)
        } else {
            match time_after(ws, "wtime"@) {
                Err(e) => Err(e),
                Ok(None) => Err(ParseErrorView::WTimeNotMentioned),
                Ok(Some(wtime)) => match time_after(ws, "btime"@) {
                    Err(e) => Err(e),
                    Ok(None) => Err(ParseErrorView::BTimeNotMentioned),
                    Ok(Some(btime)) => match time_after(ws, "winc"@) {
                        Err(e) => Err(e),
                        Ok(winc) => match time_after(ws, "binc"@) {
                            Err(e) => Err(e),
                            Ok(binc) => {
                                let winc = match winc { Some(d) => d, None => Duration { nanos: 0 } };
                                let binc = match binc { Some(d) => d, None => Duration { nanos: 0 } };
                                match value_after(ws, "movestogo"@, 0) {
                                    None => Ok(GoCommand::Timed { wtime, btime, winc, binc, moves_to_go: None }),
                                    Some(v) => match parse_int(v, 0, 65535) {
                                        Ok(n) => Ok(GoCommand::Timed { wtime, btime, winc, binc, moves_to_go: Some(n as u16) }),
                                        Err(k) => Err(ParseErrorView::IntError(k)),
                                    },
                                }
                            },
                        },
                    },
                },
            }
        }
    }
}

/// The error for a number that could not be read.
fn int_error(k: IntErrorKind) -> (r: TimecatError)
    ensures
        error_matches(r, ParseErrorView::IntError(k)),
{
    let text = match k {
        IntErrorKind::Empty => "Failed to parse integer, cannot parse integer from empty string! Please try again!",
        IntErrorKind::InvalidDigit => "Failed to parse integer, invalid digit found in string! Please try again!",
        IntErrorKind::PosOverflow => "Failed to parse integer, number too large to fit in target type! Please try again!",
        IntErrorKind::NegOverflow => "Failed to parse integer, number too small to fit in target type! Please try again!",
    };
    TimecatError::CustomError { err_msg: text.to_owned() }
}

/// Does some word of `ws` spell `w`?
fn has_word(ws: &Vec<Vec<char>>, w: &str) -> (r: bool)
    ensures
        r == ws@.map_values(|p: Vec<char>| p@).contains(w@),
{
    let ghost all = ws@.map_values(|p: Vec<char>| p@);
    let mut i: usize = 0;
    while i < ws.len()
        invariant
            i <= ws.len(),
            all == ws@.map_values(|p: Vec<char>| p@),
            forall|k: int| 0 <= k < i ==> all[k] != w@,
        decreases ws.len() - i,
    {
        if same_text(&ws[i], w) {
            assert(all[i as int] == w@);
            return true;
        }
        i = i + 1;
    }
    false
}

/// Where the word after the first `key` among `ws` stands, if there is one (see
/// `value_after`).
fn value_index(ws: &Vec<Vec<char>>, key: &str) -> (r: Option<usize>)
    ensures
        match value_after(ws@.map_values(|p: Vec<char>| p@), key@, 0) {
            None => r is None,
            Some(v) => r matches Some(j) && j < ws.len() && ws@[j as int]@ == v,
        },
{
    let ghost all = ws@.map_values(|p: Vec<char>| p@);
    let mut i: usize = 0;
    while i < ws.len()
        invariant
            i <= ws.len(),
            all == ws@.map_values(|p: Vec<char>| p@),
            value_after(all, key@, 0) == value_after(all, key@, i as int),
        decreases ws.len() - i,
    {
        if same_text(&ws[i], key) {
            if i + 1 < ws.len() {
                return Some(i + 1);
            }
            return None;
        }
        i = i + 1;
    }
    None
}

/// The span of milliseconds after `key` (see `time_after`).
fn time_after_exec(ws: &Vec<Vec<char>>, key: &str) -> (r: Result<Option<Duration>, TimecatError>)
    ensures
        match time_after(ws@.map_values(|p: Vec<char>| p@), key@) {
            Ok(o) => r == Ok::<Option<Duration>, TimecatError>(o),
            Err(v) => r matches Err(e) && error_matches(e, v),
        },
{
    match value_index(ws, key) {
        None => Ok(None),
        Some(j) => match parse_int_chars(&ws[j], 0, 0xffff_ffff_ffff_ffff) {
            Ok(n) => {
                proof {
                    crate::command_text::lemma_parse_int_range(ws@[j as int]@, 0, u64::MAX as int);
                }
                Ok(Some(Duration::from_millis(n as u64)))
            },
            Err(k) => Err(int_error(k)),
        },
    }
}

/// The search command of the words `ws` of a `go` command (see `go_command_spec`).
fn go_command_exec(ws: &Vec<Vec<char>>) -> (r: Result<GoCommand, TimecatError>)
    ensures
        go_matches(r, go_command_spec(ws@.map_values(|p: Vec<char>| p@))),
{
    let ghost all = ws@.map_values(|p: Vec<char>| p@);
    let count = (if has_word(ws, "perft") { 1usize } else { 0 }) + (if has_word(ws, "depth") { 1usize } else { 0 })
        + (if has_word(ws, "movetime") { 1usize } else { 0 }) + (if has_word(ws, "infinite") { 1usize } else { 0 });
    if count > 1 || ws.len() < 2 {
        return Err(TimecatError::UnknownCommand);
    }
    let second = lower_chars(&ws[1]);
    let is_depth = same_text(&second, "depth");
    let is_movetime = same_text(&second, "movetime");
    let is_infinite = same_text(&second, "infinite");
    if (is_depth && ws.len() > 3) || (is_movetime && ws.len() > 3) || (is_infinite && ws.len() > 2) {
        return Err(TimecatError::UnknownCommand);
    }
    if is_depth {
        if ws.len() < 3 {
            return Err(TimecatError::UnknownCommand);
        }
        return match parse_int_chars(&ws[2], -128, 127) {
            Ok(d) => {
                proof {
                    crate::command_text::lemma_parse_int_range(ws@[2]@, -128, 127);
                }
                if d < 0 {
                    Err(TimecatError::InvalidDepth { depth: d as i8 })
                } else {
                    Ok(GoCommand::Depth(d as i8))
                }
            },
            Err(k) => Err(int_error(k)),
        };
    }
    if is_movetime {
        if ws.len() < 3 {
            return Err(TimecatError::UnknownCommand);
        }
        return match parse_int_chars(&ws[2], 0, 0xffff_ffff_ffff_ffff) {
            Ok(n) => {
                proof {
                    crate::command_text::lemma_parse_int_range(ws@[2]@, 0, u64::MAX as int);
                }
                Ok(GoCommand::from_millis(n as u64))
            },
            Err(k) => Err(int_error(k)),
        };
    }
    if is_infinite {
        return Ok(GoCommand::Infinite);
    }
    if same_text(&second, "ponder") {
        return Ok(GoCommand::Ponder);
    }
    let wtime = match time_after_exec(ws, "wtime") {
        Err(e) => return Err(e),
        Ok(None) => return Err(TimecatError::WTimeNotMentioned),
        Ok(Some(d)) => d,
    };
    let btime = match time_after_exec(ws, "btime") {
        Err(e) => return Err(e),
        Ok(None) => return Err(TimecatError::BTimeNotMentioned),
        Ok(Some(d)) => d,
    };
    let winc = match time_after_exec(ws, "winc") {
        Err(e) => return Err(e),
        Ok(None) => Duration::zero(),
        Ok(Some(d)) => d,
    };
    let binc = match time_after_exec(ws, "binc") {
        Err(e) => return Err(e),
        Ok(None) => Duration::zero(),
        Ok(Some(d)) => d,
    };
    match value_index(ws, "movestogo") {
        None => Ok(GoCommand::Timed { wtime, btime, winc, binc, moves_to_go: None }),
        Some(j) => match parse_int_chars(&ws[j], 0, 65535) {
            Ok(n) => {
                proof {
                    crate::command_text::lemma_parse_int_range(ws@[j as int]@, 0, 65535);
                }
                Ok(GoCommand::Timed { wtime, btime, winc, binc, moves_to_go: Some(n as u16) })
            },
            Err(k) => Err(int_error(k)),
        },
    }
}

/// The commands of the words `ws` of a `go` command: a perft to a depth, or a search.
pub open spec fn go_sub_spec(ws: Seq<Seq<char>>) -> Result<Seq<CommandView>, ParseErrorView> {
    if ws.len() < 2 {
        Err(ParseErrorView::UnknownCommand)
    } else if lower(ws[1]) == "perft"@ {
        if ws.len() < 3 {
            Err(ParseErrorView::UnknownCommand)
        } else {
            match parse_int(ws[2], -128, 127) {
                Ok(d) => Ok(seq![CommandView::Perft(d as i8)]),
                Err(k) => Err(ParseErrorView::IntError(k)),
            }
        }
    } else {
        match go_command_spec(ws) {
            Ok(g) => Ok(seq![CommandView::Go(g)]),
            Err(e) => Err(e),
        }
    }
}

/// The commands of the words `ws` of a `set` command: a board from the FEN text after
/// `set board fen` (or `set board startpos`), which must be good, or the starting position
/// when that text is `startpos`; colours are not available.
pub open spec fn set_sub_spec(ws: Seq<Seq<char>>) -> Result<Seq<CommandView>, ParseErrorView> {
    if ws.len() < 2 {
        Err(ParseErrorView::UnknownCommand)
    } else if lower(ws[1]) == "board"@ {
        if ws.len() < 3 {
            Err(ParseErrorView::UnknownCommand)
        } else if lower(ws[2]) == "startpos"@ || lower(ws[2]) == "fen"@ {
            let fen = join_words(ws.subrange(3, ws.len() as int));
            if fen == "startpos"@ {
                Ok(seq![CommandView::SetFen(start_fen())])
            } else if !good_fen_text(fen) {
                Err(ParseErrorView::BadFen(fen))
            } else {
                Ok(seq![CommandView::SetFen(fen)])
            }
        } else {
            Err(ParseErrorView::UnknownCommand)
        }
    } else if lower(ws[1]) == "color"@ {
        Err(ParseErrorView::FeatureNotEnabled("colored"@))
    } else {
        Err(ParseErrorView::UnknownCommand)
    }
}

/// The commands of the words `ws` of a `pop` command: take back the number of moves given,
/// one when none is.
pub open spec fn pop_sub_spec(ws: Seq<Seq<char>>) -> Result<Seq<CommandView>, ParseErrorView> {
    let second = if ws.len() > 1 { ws[1] } else { "1"@ };
    if ws.len() > 2 {
        Err(ParseErrorView::UnknownCommand)
    } else {
        match parse_int(second, 0, 65535) {
            Ok(n) => Ok(seq![CommandView::PopMoves(n as u16)]),
            Err(k) => Err(ParseErrorView::IntError(k)),
        }
    }
}

/// The first position at or after `i` where `ws` holds `key`, or the length of `ws`.
pub open spec fn first_index(ws: Seq<Seq<char>>, key: Seq<char>, i: int) -> int
    decreases ws.len() - i,
{
    if i >= ws.len() {
        ws.len() as int
    } else if ws[i] == key {
        i
    } else {
        first_index(ws, key, i + 1)
    }
}

/// The commands of the words `ws` of a `position` command: the starting position, or the
/// FEN text up to the word `moves`, and then, when moves follow that word, pushing them.
pub open spec fn position_sub_spec(ws: Seq<Seq<char>>) -> Result<Seq<CommandView>, ParseErrorView> {
    if ws.len() == 0 || ws[0] != "position"@ || ws.len() < 2 {
        Err(ParseErrorView::UnknownCommand)
    } else if lower(ws[1]) != "startpos"@ && lower(ws[1]) != "fen"@ {
        Err(ParseErrorView::UnknownCommand)
    } else {
        let board = if lower(ws[1]) == "startpos"@ {
            CommandView::SetFen(start_fen())
        } else {
            CommandView::SetFen(join_words(ws.subrange(2, first_index(ws, "moves"@, 2))))
        };
        let k = first_index(ws, "moves"@, 0);
        let moves = if k < ws.len() { join_words(ws.subrange(k + 1, ws.len() as int)) } else { Seq::empty() };
        if moves.len() > 0 {
            Ok(seq![board, CommandView::PushMoves("push moves "@ + moves)])
        } else {
            Ok(seq![board])
        }
    }
}

/// The commands of the words `ws` of a `selfplay` command: a game against itself with the
/// search the rest of the words give as a `go` command, three seconds a move when nothing
/// follows.
pub open spec fn selfplay_sub_spec(ws: Seq<Seq<char>>) -> Result<Seq<CommandView>, ParseErrorView> {
    if ws.len() > 1 {
        match go_command_spec(ws.update(0, "go"@)) {
            Ok(g) => Ok(seq![CommandView::SelfPlay(g)]),
            Err(e) => Err(e),
        }
    } else {
        Ok(seq![CommandView::SelfPlay(GoCommand::MoveTime(Duration { nanos: 3_000_000_000 }))])
    }
}

/// The commands of the words `ws` of a `debug` command: `on` or `off`.
pub open spec fn debug_sub_spec(ws: Seq<Seq<char>>) -> Result<Seq<CommandView>, ParseErrorView> {
    if ws.len() != 2 {
        Err(ParseErrorView::UnknownCommand)
    } else if lower(ws[1]) == "on"@ {
        Ok(seq![CommandView::SetDebugMode(true)])
    } else if lower(ws[1]) == "off"@ {
        Ok(seq![CommandView::SetDebugMode(false)])
    } else {
        Err(ParseErrorView::UnknownDebugCommand(lower(ws[1])))
    }
}

/// Reading `s` as a single command panics: it is `uci` or `ucinewgame` in some mix of cases
/// other than all lower case.
pub open spec fn single_panics(s: Seq<char>) -> bool {
    (lower(s) == "uci"@ || lower(s) == "ucinewgame"@) && s != "uci"@ && s != "ucinewgame"@
}

/// The commands of the single command `s`, when the engine is in UCI mode as `uci_mode`
/// says (and in console mode otherwise).
pub open spec fn parse_single_spec(s: Seq<char>, uci_mode: bool) -> Result<Seq<CommandView>, ParseErrorView> {
    let l = lower(s);
    if l == "q"@ || l == "quit"@ || l == "quit()"@ || l == "quit(0)"@ || l == "exit"@ || l == "exit()"@ || l
        == "exit(0)"@ {
        Ok(seq![CommandView::TerminateEngine])
    } else if l == "uci"@ || l == "ucinewgame"@ {
        Ok(
            seq![
                CommandView::ChangeToUCIMode { verbose: false },
                if s == "uci"@ { CommandView::UCIMode } else { CommandView::UCINewGame },
            ],
        )
    } else if l == "ucimode"@ {
        if uci_mode {
            Err(ParseErrorView::UCIModeUnchanged)
        } else {
            Ok(seq![CommandView::ChangeToUCIMode { verbose: true }])
        }
    } else if l == "console"@ || l == "consolemode"@ {
        if !uci_mode {
            Err(ParseErrorView::ConsoleModeUnchanged)
        } else {
            Ok(seq![CommandView::ChangeToConsoleMode { verbose: true }])
        }
    } else if l == "isready"@ {
        Ok(seq![CommandView::IsReady])
    } else if l == "d"@ {
        Ok(seq![CommandView::DisplayBoard])
    } else if l == "eval"@ {
        Ok(seq![CommandView::DisplayBoardEvaluation])
    } else if l == "reset board"@ {
        Ok(seq![CommandView::SetFen(start_fen())])
    } else if l == "stop"@ {
        Ok(seq![CommandView::Stop])
    } else if l == "help"@ {
        Ok(seq![CommandView::Help])
    } else {
        let ws = words(s);
        if ws.len() == 0 {
            Err(ParseErrorView::UnknownCommand)
        } else {
            let first = lower(ws[0]);
            if first == "go"@ {
                go_sub_spec(ws)
            } else if first == "set"@ {
                set_sub_spec(ws)
            } else if first == "setoption"@ {
                Ok(seq![CommandView::SetUCIOption { user_input: s }])
            } else if first == "push"@ {
                Ok(seq![CommandView::PushMoves(s)])
            } else if first == "pop"@ {
                pop_sub_spec(ws)
            } else if first == "position"@ {
                position_sub_spec(ws)
            } else if first == "selfplay"@ {
                selfplay_sub_spec(ws)
            } else if first == "debug"@ {
                debug_sub_spec(ws)
            } else {
                Err(ParseErrorView::UnknownCommand)
            }
        }
    }
}

/// The commands of the first `n` single commands `ps`, each trimmed, in order, or the error
/// of the first that is refused.
pub open spec fn parse_pieces(ps: Seq<Seq<char>>, n: int, uci_mode: bool) -> Result<Seq<CommandView>, ParseErrorView>
    decreases n,
{
    if n <= 0 {
        Ok(Seq::empty())
    } else {
        match parse_pieces(ps, n - 1, uci_mode) {
            Err(e) => Err(e),
            Ok(v) => match parse_single_spec(trim(ps[n - 1]), uci_mode) {
                Err(e) => Err(e),
                Ok(w) => Ok(v + w),
            },
        }
    }
}

/// Reading the first `n` single commands `ps` panics: one of them panics after those before
/// it were read.
pub open spec fn pieces_panic(ps: Seq<Seq<char>>, n: int, uci_mode: bool) -> bool
    decreases n,
{
    n > 0 && (pieces_panic(ps, n - 1, uci_mode) || (parse_pieces(ps, n - 1, uci_mode) is Ok && single_panics(
        trim(ps[n - 1]),
    )))
}

/// The commands the text `raw` asks for: on no text at all, an empty line and the end of
/// the engine; on white space alone, no input; otherwise those of the single commands of the
/// tidied text between the occurrences of `&&`.
pub open spec fn parse_command_spec(raw: Seq<char>, uci_mode: bool) -> Result<Seq<CommandView>, ParseErrorView> {
    if raw.len() == 0 {
        Ok(seq![CommandView::PrintText(Seq::empty()), CommandView::TerminateEngine])
    } else if trim(raw).len() == 0 {
        Err(ParseErrorView::NoInput)
    } else {
        let ps = split_amp(sanitize(raw));
        parse_pieces(ps, ps.len() as int, uci_mode)
    }
}

/// Reading the text `raw` panics (see `single_panics`).
pub open spec fn command_panics(raw: Seq<char>, uci_mode: bool) -> bool {
    raw.len() > 0 && trim(raw).len() > 0 && pieces_panic(split_amp(sanitize(raw)), split_amp(sanitize(raw)).len() as int, uci_mode)
}

/// A single command.
fn one(c: UserCommand) -> (r: Result<Vec<UserCommand>, TimecatError>)
    ensures
        r matches Ok(v) && v@.map_values(|x: UserCommand| x@) == seq![c@],
{
    let mut v: Vec<UserCommand> = Vec::new();
    v.push(c);
    proof {
        assert(v@.map_values(|x: UserCommand| x@) =~= seq![c@]);
    }
    Ok(v)
}

/// Two commands, in order.
fn two(a: UserCommand, b: UserCommand) -> (r: Result<Vec<UserCommand>, TimecatError>)
    ensures
        r matches Ok(v) && v@.map_values(|x: UserCommand| x@) == seq![a@, b@],
{
    let mut v: Vec<UserCommand> = Vec::new();
    v.push(a);
    v.push(b);
    proof {
        assert(v@.map_values(|x: UserCommand| x@) =~= seq![a@, b@]);
    }
    Ok(v)
}

/// The FEN text of the starting position.
fn start_fen_string() -> (r: String)
    ensures
        r@ == start_fen(),
{
    "rnbqkbnr/pppppppp/8/8/8/8/PPPPPPPP/RNBQKBNR w KQkq - 0 1".to_owned()
}

/// The characters of `v`, copied.
fn copy_chars(v: &Vec<char>) -> (r: Vec<char>)
    ensures
        r@ == v@,
{
    let mut r: Vec<char> = Vec::new();
    let mut i: usize = 0;
    while i < v.len()
        invariant
            i <= v.len(),
            r@ == v@.subrange(0, i as int),
        decreases v.len() - i,
    {
        r.push(v[i]);
        proof {
            assert(r@ =~= v@.subrange(0, i as int + 1));
        }
        i = i + 1;
    }
    proof {
        assert(v@.subrange(0, v@.len() as int) =~= v@);
    }
    r
}

/// The first position at or after `from` where `ws` holds `key`, or the length of `ws` (see
/// `first_index`).
fn first_index_exec(ws: &Vec<Vec<char>>, key: &str, from: usize) -> (r: usize)
    requires
        from <= ws.len(),
    ensures
        r == first_index(ws@.map_values(|p: Vec<char>| p@), key@, from as int),
        from <= r <= ws.len(),
{
    let ghost all = ws@.map_values(|p: Vec<char>| p@);
    let mut i: usize = from;
    while i < ws.len()
        invariant
            from <= i <= ws.len(),
            all == ws@.map_values(|p: Vec<char>| p@),
            first_index(all, key@, from as int) == first_index(all, key@, i as int),
        decreases ws.len() - i,
    {
        if same_text(&ws[i], key) {
            return i;
        }
        i = i + 1;
    }
    i
}

/// The commands of the words `ws` of a `go` command (see `go_sub_spec`).
fn go_sub(ws: &Vec<Vec<char>>) -> (r: Result<Vec<UserCommand>, TimecatError>)
    ensures
        outcome_matches(r, go_sub_spec(ws@.map_values(|p: Vec<char>| p@))),
{
    if ws.len() < 2 {
        return Err(TimecatError::UnknownCommand);
    }
    let second = lower_chars(&ws[1]);
    if same_text(&second, "perft") {
        if ws.len() < 3 {
            return Err(TimecatError::UnknownCommand);
        }
        return match parse_int_chars(&ws[2], -128, 127) {
            Ok(d) => {
                proof {
                    crate::command_text::lemma_parse_int_range(ws@[2]@, -128, 127);
                }
                one(UserCommand::Perft(d as i8))
            },
            Err(k) => Err(int_error(k)),
        };
    }
    match go_command_exec(ws) {
        Ok(g) => one(UserCommand::Go(g)),
        Err(e) => Err(e),
    }
}

/// The commands of the words `ws` of a `set` command (see `set_sub_spec`).
fn set_sub(ws: &Vec<Vec<char>>) -> (r: Result<Vec<UserCommand>, TimecatError>)
    ensures
        outcome_matches(r, set_sub_spec(ws@.map_values(|p: Vec<char>| p@))),
{
    if ws.len() < 2 {
        return Err(TimecatError::UnknownCommand);
    }
    let second = lower_chars(&ws[1]);
    if same_text(&second, "board") {
        if ws.len() < 3 {
            return Err(TimecatError::UnknownCommand);
        }
        let third = lower_chars(&ws[2]);
        if same_text(&third, "startpos") || same_text(&third, "fen") {
            let fen = join_range(ws, 3, ws.len());
            if same_text(&fen, "startpos") {
                return one(UserCommand::SetFen(start_fen_string()));
            }
            let fen_string = chars_to_string(&fen);
            if !is_good_fen(fen_string.as_str()) {
                return Err(TimecatError::BadFen { fen: fen_string });
            }
            return one(UserCommand::SetFen(fen_string));
        }
        return Err(TimecatError::UnknownCommand);
    }
    if same_text(&second, "color") {
        return Err(TimecatError::FeatureNotEnabled { s: "colored".to_owned() });
    }
    Err(TimecatError::UnknownCommand)
}

/// The commands of the words `ws` of a `pop` command (see `pop_sub_spec`).
fn pop_sub(ws: &Vec<Vec<char>>) -> (r: Result<Vec<UserCommand>, TimecatError>)
    ensures
        outcome_matches(r, pop_sub_spec(ws@.map_values(|p: Vec<char>| p@))),
{
    let one_text = str_chars("1");
    let second: &Vec<char> = if ws.len() > 1 { &ws[1] } else { &one_text };
    if ws.len() > 2 {
        return Err(TimecatError::UnknownCommand);
    }
    match parse_int_chars(second, 0, 65535) {
        Ok(n) => {
            proof {
                crate::command_text::lemma_parse_int_range(second@, 0, 65535);
            }
            one(UserCommand::PopMoves(n as u16))
        },
        Err(k) => Err(int_error(k)),
    }
}

/// The commands of the words `ws` of a `position` command (see `position_sub_spec`).
fn position_sub(ws: &Vec<Vec<char>>) -> (r: Result<Vec<UserCommand>, TimecatError>)
    ensures
        outcome_matches(r, position_sub_spec(ws@.map_values(|p: Vec<char>| p@))),
{
    let ghost all = ws@.map_values(|p: Vec<char>| p@);
    if ws.len() == 0 || !same_text(&ws[0], "position") || ws.len() < 2 {
        return Err(TimecatError::UnknownCommand);
    }
    let second = lower_chars(&ws[1]);
    let is_start = same_text(&second, "startpos");
    let is_fen = same_text(&second, "fen");
    if !is_start && !is_fen {
        return Err(TimecatError::UnknownCommand);
    }
    let board = if is_start {
        UserCommand::SetFen(start_fen_string())
    } else {
        let e = first_index_exec(ws, "moves", 2);
        UserCommand::SetFen(chars_to_string(&join_range(ws, 2, e)))
    };
    let k = first_index_exec(ws, "moves", 0);
    let moves: Vec<char> = if k < ws.len() { join_range(ws, k + 1, ws.len()) } else { Vec::new() };
    if moves.len() > 0 {
        let mut text = str_chars("push moves ");
        let ghost head = text@;
        let mut i: usize = 0;
        while i < moves.len()
            invariant
                i <= moves.len(),
                text@ == head + moves@.subrange(0, i as int),
            decreases moves.len() - i,
        {
            text.push(moves[i]);
            proof {
                assert(text@ =~= head + moves@.subrange(0, i as int + 1));
            }
            i = i + 1;
        }
        proof {
            assert(moves@.subrange(0, moves@.len() as int) =~= moves@);
        }
        two(board, UserCommand::PushMoves(chars_to_string(&text)))
    } else {
        proof {
            assert(k < ws.len() ==> moves@ == join_words(all.subrange(k + 1, all.len() as int)));
        }
        one(board)
    }
}

/// The commands of the words `ws` of a `selfplay` command (see `selfplay_sub_spec`).
fn selfplay_sub(ws: &Vec<Vec<char>>) -> (r: Result<Vec<UserCommand>, TimecatError>)
    ensures
        outcome_matches(r, selfplay_sub_spec(ws@.map_values(|p: Vec<char>| p@))),
{
    let ghost all = ws@.map_values(|p: Vec<char>| p@);
    if ws.len() > 1 {
        let mut cmds: Vec<Vec<char>> = Vec::new();
        cmds.push(str_chars("go"));
        let mut i: usize = 1;
        while i < ws.len()
            invariant
                1 <= i <= ws.len(),
                all == ws@.map_values(|p: Vec<char>| p@),
                cmds@.map_values(|p: Vec<char>| p@) == all.update(0, "go"@).subrange(0, i as int),
            decreases ws.len() - i,
        {
            let ghost before = cmds@;
            let w = copy_chars(&ws[i]);
            let ghost wv = w@;
            cmds.push(w);
            proof {
                assert(wv == all[i as int]);
                assert(cmds@.map_values(|p: Vec<char>| p@) =~= before.map_values(|p: Vec<char>| p@).push(wv));
                assert(cmds@.map_values(|p: Vec<char>| p@) =~= all.update(0, "go"@).subrange(0, i as int + 1));
            }
            i = i + 1;
        }
        proof {
            assert(all.update(0, "go"@).subrange(0, ws.len() as int) =~= all.update(0, "go"@));
        }
        match go_command_exec(&cmds) {
            Ok(g) => one(UserCommand::SelfPlay(g)),
            Err(e) => Err(e),
        }
    } else {
        one(UserCommand::SelfPlay(crate::go_command::default_selfplay_command()))
    }
}

/// The commands of the words `ws` of a `debug` command (see `debug_sub_spec`).
fn debug_sub(ws: &Vec<Vec<char>>) -> (r: Result<Vec<UserCommand>, TimecatError>)
    ensures
        outcome_matches(r, debug_sub_spec(ws@.map_values(|p: Vec<char>| p@))),
{
    if ws.len() != 2 {
        return Err(TimecatError::UnknownCommand);
    }
    let second = lower_chars(&ws[1]);
    if same_text(&second, "on") {
        one(UserCommand::SetDebugMode(true))
    } else if same_text(&second, "off") {
        one(UserCommand::SetDebugMode(false))
    } else {
        Err(TimecatError::UnknownDebugCommand { command: chars_to_string(&second) })
    }
}

/// The commands of the single command `s` (see `parse_single_spec`).
fn parse_single(s: &Vec<char>, uci_mode: bool) -> (r: Result<Vec<UserCommand>, TimecatError>)
    requires
        !single_panics(s@),
    ensures
        outcome_matches(r, parse_single_spec(s@, uci_mode)),
{
    let l = lower_chars(s);
    if same_text(&l, "q") || same_text(&l, "quit") || same_text(&l, "quit()") || same_text(&l, "quit(0)") || same_text(
        &l,
        "exit",
    ) || same_text(&l, "exit()") || same_text(&l, "exit(0)") {
        return one(UserCommand::TerminateEngine);
    }
    if same_text(&l, "uci") || same_text(&l, "ucinewgame") {
        let second = if same_text(s, "uci") { UserCommand::UCIMode } else { UserCommand::UCINewGame };
        return two(UserCommand::ChangeToUCIMode { verbose: false }, second);
    }
    if same_text(&l, "ucimode") {
        if uci_mode {
            return Err(TimecatError::UCIModeUnchanged);
        }
        return one(UserCommand::ChangeToUCIMode { verbose: true });
    }
    if same_text(&l, "console") || same_text(&l, "consolemode") {
        if !uci_mode {
            return Err(TimecatError::ConsoleModeUnchanged);
        }
        return one(UserCommand::ChangeToConsoleMode { verbose: true });
    }
    if same_text(&l, "isready") {
        return one(UserCommand::IsReady);
    }
    if same_text(&l, "d") {
        return one(UserCommand::DisplayBoard);
    }
    if same_text(&l, "eval") {
        return one(UserCommand::DisplayBoardEvaluation);
    }
    if same_text(&l, "reset board") {
        return one(UserCommand::SetFen(start_fen_string()));
    }
    if same_text(&l, "stop") {
        return one(UserCommand::Stop);
    }
    if same_text(&l, "help") {
        return one(UserCommand::Help);
    }
    let ws = words_of(s);
    if ws.len() == 0 {
        return Err(TimecatError::UnknownCommand);
    }
    let first = lower_chars(&ws[0]);
    if same_text(&first, "go") {
        go_sub(&ws)
    } else if same_text(&first, "set") {
        set_sub(&ws)
    } else if same_text(&first, "setoption") {
        one(UserCommand::SetUCIOption { user_input: chars_to_string(s) })
    } else if same_text(&first, "push") {
        one(UserCommand::PushMoves(chars_to_string(s)))
    } else if same_text(&first, "pop") {
        pop_sub(&ws)
    } else if same_text(&first, "position") {
        position_sub(&ws)
    } else if same_text(&first, "selfplay") {
        selfplay_sub(&ws)
    } else if same_text(&first, "debug") {
        debug_sub(&ws)
    } else {
        Err(TimecatError::UnknownCommand)
    }
}

/// Once reading the single commands has failed, it stays failed with the same error.
proof fn lemma_pieces_error_stays(ps: Seq<Seq<char>>, k: int, n: int, uci_mode: bool)
    requires
        0 <= k <= n,
        parse_pieces(ps, k, uci_mode) is Err,
    ensures
        parse_pieces(ps, n, uci_mode) == parse_pieces(ps, k, uci_mode),
    decreases n - k,
{
    if n > k {
        lemma_pieces_error_stays(ps, k, n - 1, uci_mode);
    }
}

/// Reading no more single commands than a reading that does not panic does not panic.
proof fn lemma_no_panic_prefix(ps: Seq<Seq<char>>, k: int, n: int, uci_mode: bool)
    requires
        0 <= k <= n,
        !pieces_panic(ps, n, uci_mode),
    ensures
        !pieces_panic(ps, k, uci_mode),
    decreases n - k,
{
    if n > k {
        lemma_no_panic_prefix(ps, k, n - 1, uci_mode);
    }
}

/// `s` trimmed, with commas and colons made spaces and its spaces tidied (see `sanitize`).
fn sanitize_chars(s: &Vec<char>) -> (r: Vec<char>)
    ensures
        r@ == sanitize(s@),
{
    let t = trim_chars(s);
    let mut u: Vec<char> = Vec::new();
    let mut i: usize = 0;
    while i < t.len()
        invariant
            i <= t.len(),
            u@ == t@.subrange(0, i as int).map_values(|c: char| if c == ',' || c == ':' { ' ' } else { c }),
        decreases t.len() - i,
    {
        let c = t[i];
        u.push(if c == ',' || c == ':' { ' ' } else { c });
        proof {
            assert(u@ =~= t@.subrange(0, i as int + 1).map_values(|c: char| if c == ',' || c == ':' { ' ' } else { c }));
        }
        i = i + 1;
    }
    proof {
        assert(t@.subrange(0, t@.len() as int) =~= t@);
    }
    let text = chars_to_string(&u);
    crate::fen_check::simplify_fen(text.as_str())
}

/// The engine's command reader.
pub struct Parser;

impl Parser {
    /// The text of a command tidied (see `sanitize`).
    pub fn sanitize_string(raw_input: &str) -> (r: String)
        ensures
            r@ == sanitize(raw_input@),
    {
        let chars = str_chars(raw_input);
        chars_to_string(&sanitize_chars(&chars))
    }

    /// The commands the text `raw_input` asks for, when the engine is in UCI mode as
    /// `uci_mode` says (see `parse_command_spec`).
    pub fn parse_command(raw_input: &str, uci_mode: bool) -> (r: Result<Vec<UserCommand>, TimecatError>)
        requires
            !command_panics(raw_input@, uci_mode),
        ensures
            outcome_matches(r, parse_command_spec(raw_input@, uci_mode)),
    {
        let chars = str_chars(raw_input);
        if chars.len() == 0 {
            return two(UserCommand::PrintText(String::new()), UserCommand::TerminateEngine);
        }
        let trimmed = trim_chars(&chars);
        if trimmed.len() == 0 {
            return Err(TimecatError::NoInput);
        }
        let clean = sanitize_chars(&chars);
        let pieces = split_amp_chars(&clean);
        let ghost ps = pieces@.map_values(|p: Vec<char>| p@);
        let mut out: Vec<UserCommand> = Vec::new();
        let mut i: usize = 0;
        proof {
            assert(out@.map_values(|x: UserCommand| x@) =~= Seq::<CommandView>::empty());
        }
        while i < pieces.len()
            invariant
                i <= pieces.len(),
                ps == pieces@.map_values(|p: Vec<char>| p@),
                ps == split_amp(sanitize(raw_input@)),
                raw_input@.len() > 0,
                trim(raw_input@).len() > 0,
                !pieces_panic(ps, ps.len() as int, uci_mode),
                parse_pieces(ps, i as int, uci_mode) == Ok::<Seq<CommandView>, ParseErrorView>(
                    out@.map_values(|x: UserCommand| x@),
                ),
            decreases pieces.len() - i,
        {
            let piece = trim_chars(&pieces[i]);
            proof {
                lemma_no_panic_prefix(ps, i as int + 1, ps.len() as int, uci_mode);
                assert(piece@ == trim(ps[i as int]));
            }
            match parse_single(&piece, uci_mode) {
                Err(e) => {
                    proof {
                        lemma_pieces_error_stays(ps, i as int + 1, ps.len() as int, uci_mode);
                    }
                    return Err(e);
                },
                Ok(cmds) => {
                    let ghost before = out@;
                    let ghost added = cmds@;
                    let mut cmds = cmds;
                    out.append(&mut cmds);
                    proof {
                        assert(out@.map_values(|x: UserCommand| x@) =~= before.map_values(|x: UserCommand| x@)
                            + added.map_values(|x: UserCommand| x@));
                    }
                },
            }
            i = i + 1;
        }
        Ok(out)
    }
}

impl UserCommand {
    /// The help text.
    pub fn generate_help_message() -> (r: String)
        ensures
            r@ == "Sadly, the help message is till now not implemented. But type uci to go into the uci mode and visit the link \"https://backscattering.de/chess/uci/\" to know the necessary commands required to use an uci chess engine."@,
    {
        "Sadly, the help message is till now not implemented. But type uci to go into the uci mode and visit the link \"https://backscattering.de/chess/uci/\" to know the necessary commands required to use an uci chess engine.".to_owned()
    }
}

/// A reading that panicked goes on panicking over more single commands.
proof fn lemma_panic_stays(ps: Seq<Seq<char>>, k: int, n: int, uci_mode: bool)
    requires
        0 <= k <= n,
        pieces_panic(ps, k, uci_mode),
    ensures
        pieces_panic(ps, n, uci_mode),
    decreases n - k,
{
    if n > k {
        lemma_panic_stays(ps, k, n - 1, uci_mode);
    }
}

/// A reading that failed without panicking does not panic over more single commands.
proof fn lemma_error_never_panics(ps: Seq<Seq<char>>, k: int, n: int, uci_mode: bool)
    requires
        0 <= k <= n,
        parse_pieces(ps, k, uci_mode) is Err,
        !pieces_panic(ps, k, uci_mode),
    ensures
        !pieces_panic(ps, n, uci_mode),
    decreases n - k,
{
    if n > k {
        lemma_error_never_panics(ps, k, n - 1, uci_mode);
        lemma_pieces_error_stays(ps, k, n - 1, uci_mode);
    }
}

/// Is `s` `uci` or `ucinewgame` in a mix of cases other than all lower case (see
/// `single_panics`)?
fn single_panics_exec(s: &Vec<char>) -> (r: bool)
    ensures
        r == single_panics(s@),
{
    let l = lower_chars(s);
    (same_text(&l, "uci") || same_text(&l, "ucinewgame")) && !same_text(s, "uci") && !same_text(s, "ucinewgame")
}

impl Parser {
    /// Would reading the text `raw_input` panic (see `command_panics`)?
    pub fn panics_on(raw_input: &str, uci_mode: bool) -> (r: bool)
        ensures
            r == command_panics(raw_input@, uci_mode),
    {
        let chars = str_chars(raw_input);
        if chars.len() == 0 {
            return false;
        }
        let trimmed = trim_chars(&chars);
        if trimmed.len() == 0 {
            return false;
        }
        let clean = sanitize_chars(&chars);
        let pieces = split_amp_chars(&clean);
        let ghost ps = pieces@.map_values(|p: Vec<char>| p@);
        let mut i: usize = 0;
        while i < pieces.len()
            invariant
                i <= pieces.len(),
                ps == pieces@.map_values(|p: Vec<char>| p@),
                ps == split_amp(sanitize(raw_input@)),
                raw_input@.len() > 0,
                trim(raw_input@).len() > 0,
                parse_pieces(ps, i as int, uci_mode) is Ok,
                !pieces_panic(ps, i as int, uci_mode),
            decreases pieces.len() - i,
        {
            let piece = trim_chars(&pieces[i]);
            proof {
                assert(piece@ == trim(ps[i as int]));
            }
            if single_panics_exec(&piece) {
                proof {
                    assert(pieces_panic(ps, i as int + 1, uci_mode));
                    lemma_panic_stays(ps, i as int + 1, ps.len() as int, uci_mode);
                }
                return true;
            }
            match parse_single(&piece, uci_mode) {
                Err(_) => {
                    proof {
                        assert(!pieces_panic(ps, i as int + 1, uci_mode));
                        lemma_error_never_panics(ps, i as int + 1, ps.len() as int, uci_mode);
                    }
                    return false;
                },
                Ok(_) => {},
            }
            i = i + 1;
        }
        false
    }
}

/// The characters of each of `commands`.
fn words_of_strs(commands: &[&str]) -> (r: Vec<Vec<char>>)
    ensures
        r@.map_values(|p: Vec<char>| p@) == commands@.map_values(|t: &str| t@),
{
    let mut r: Vec<Vec<char>> = Vec::new();
    let mut i: usize = 0;
    while i < commands.len()
        invariant
            i <= commands.len(),
            r@.map_values(|p: Vec<char>| p@) == commands@.subrange(0, i as int).map_values(|t: &str| t@),
        decreases commands.len() - i,
    {
        let ghost before = r@;
        let w = str_chars(commands[i]);
        let ghost wv = w@;
        r.push(w);
        proof {
            assert(r@.map_values(|p: Vec<char>| p@) =~= before.map_values(|p: Vec<char>| p@).push(wv));
            assert(r@.map_values(|p: Vec<char>| p@) =~= commands@.subrange(0, i as int + 1).map_values(|t: &str| t@));
        }
        i = i + 1;
    }
    proof {
        assert(commands@.subrange(0, commands@.len() as int) =~= commands@);
    }
    r
}

/// The reader of `go` commands.
pub struct GoAndPerft;

impl GoAndPerft {
    /// The commands of the words `commands` of a `go` command (see `go_sub_spec`).
    pub fn parse_sub_commands(commands: &[&str]) -> (r: Result<Vec<UserCommand>, TimecatError>)
        ensures
            outcome_matches(r, go_sub_spec(commands@.map_values(|t: &str| t@))),
    {
        let ws = words_of_strs(commands);
        go_sub(&ws)
    }
}

/// The reader of `set` commands.
pub struct SetCommand;

impl SetCommand {
    /// The commands of the words `commands` of a `set` command (see `set_sub_spec`).
    pub fn parse_sub_commands(commands: &[&str]) -> (r: Result<Vec<UserCommand>, TimecatError>)
        ensures
            outcome_matches(r, set_sub_spec(commands@.map_values(|t: &str| t@))),
    {
        let ws = words_of_strs(commands);
        set_sub(&ws)
    }
}

/// The reader of `pop` commands.
pub struct Pop;

impl Pop {
    /// The commands of the words `commands` of a `pop` command (see `pop_sub_spec`).
    pub fn parse_sub_commands(commands: &[&str]) -> (r: Result<Vec<UserCommand>, TimecatError>)
        ensures
            outcome_matches(r, pop_sub_spec(commands@.map_values(|t: &str| t@))),
    {
        let ws = words_of_strs(commands);
        pop_sub(&ws)
    }
}

/// A clock of a timed `go` command, read from its word: `Some` of its span when `key` is
/// followed by a number of milliseconds, `None` when `key` is not followed by a word.
pub open spec fn clock_word_reads(ws: Seq<Seq<char>>, key: Seq<char>, d: Option<Duration>) -> bool {
    match value_after(ws, key, 0) {
        None => d is None,
        Some(v) => parse_int(v, 0, u64::MAX as int) matches Ok(n) && d == Some(Duration { nanos: (n * 1_000_000) as u128 }),
    }
}

/// The clocks of a timed `go` command each come from the number after their own word: `wtime`
/// and `btime` give the times, `winc` and `binc` the increments (zero when the word is
/// missing), and `movestogo` the moves to the time control. No clock is taken from another's
/// word.
pub proof fn law_go_clocks_read_from_their_words(ws: Seq<Seq<char>>)
    ensures
        go_command_spec(ws) matches Ok(GoCommand::Timed { wtime, btime, winc, binc, moves_to_go }) ==> {
            &&& clock_word_reads(ws, "wtime"@, Some(wtime))
            &&& clock_word_reads(ws, "btime"@, Some(btime))
            &&& (clock_word_reads(ws, "winc"@, Some(winc)) || (clock_word_reads(ws, "winc"@, None) && winc.nanos == 0))
            &&& (clock_word_reads(ws, "binc"@, Some(binc)) || (clock_word_reads(ws, "binc"@, None) && binc.nanos == 0))
            &&& match value_after(ws, "movestogo"@, 0) {
                None => moves_to_go is None,
                Some(v) => parse_int(v, 0, 65535) matches Ok(n) && moves_to_go == Some(n as u16),
            }
        },
        go_command_spec(ws) matches Ok(GoCommand::Depth(d)) ==> ws.len() == 3 && lower(ws[1]) == "depth"@ && d >= 0
            && parse_int(ws[2], -128, 127) == Ok::<int, IntErrorKind>(d as int),
        go_command_spec(ws) matches Ok(GoCommand::MoveTime(d)) ==> (ws.len() == 3 && lower(ws[1]) == "movetime"@
            && (parse_int(ws[2], 0, u64::MAX as int) matches Ok(n) && d.nanos == n * 1_000_000)),
{
    if ws.len() >= 3 {
        crate::command_text::lemma_parse_int_range(ws[2], -128, 127);
        crate::command_text::lemma_parse_int_range(ws[2], 0, u64::MAX as int);
    }
}

} // verus!
