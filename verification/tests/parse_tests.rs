use timecat::board::Board;
use timecat::error::TimecatError;
use timecat::go_command::GoCommand;
use timecat::parse::{GoAndPerft, Parser, Pop, SetCommand, UserCommand};
use timecat::timer::{Duration, Timer};

const START: &str = "rnbqkbnr/pppppppp/8/8/8/8/PPPPPPPP/RNBQKBNR w KQkq - 0 1";

fn parse(text: &str) -> Result<Vec<UserCommand>, TimecatError> {
    Parser::parse_command(text, false)
}

fn single(text: &str) -> UserCommand {
    let mut commands = parse(text).unwrap();
    assert_eq!(commands.len(), 1);
    commands.pop().unwrap()
}

#[test]
fn quitting_and_empty_input() {
    assert!(matches!(single("quit"), UserCommand::TerminateEngine));
    assert!(matches!(single("EXIT(0)"), UserCommand::TerminateEngine));
    let commands = parse("").unwrap();
    assert_eq!(commands.len(), 2);
    assert!(matches!(&commands[0], UserCommand::PrintText(s) if s.is_empty()));
    assert!(matches!(commands[1], UserCommand::TerminateEngine));
    assert!(matches!(parse("  \t "), Err(TimecatError::NoInput)));
    assert!(matches!(parse("frobnicate"), Err(TimecatError::UnknownCommand)));
}

#[test]
fn modes_and_simple_commands() {
    let commands = parse("uci").unwrap();
    assert!(matches!(commands[0], UserCommand::ChangeToUCIMode { verbose: false }));
    assert!(matches!(commands[1], UserCommand::UCIMode));
    let commands = parse("ucinewgame").unwrap();
    assert!(matches!(commands[1], UserCommand::UCINewGame));
    assert!(matches!(Parser::parse_command("ucimode", true), Err(TimecatError::UCIModeUnchanged)));
    assert!(matches!(single("ucimode"), UserCommand::ChangeToUCIMode { verbose: true }));
    assert!(matches!(parse("console"), Err(TimecatError::ConsoleModeUnchanged)));
    assert!(matches!(
        Parser::parse_command("consolemode", true).unwrap()[0],
        UserCommand::ChangeToConsoleMode { verbose: true }
    ));
    assert!(matches!(single("isready"), UserCommand::IsReady));
    assert!(matches!(single("D"), UserCommand::DisplayBoard));
    assert!(matches!(single("eval"), UserCommand::DisplayBoardEvaluation));
    assert!(matches!(single("stop"), UserCommand::Stop));
    assert!(matches!(single("help"), UserCommand::Help));
    assert!(matches!(single("reset   board"), UserCommand::SetFen(s) if s == START));
    let commands = parse("isready && d").unwrap();
    assert_eq!(commands.len(), 2);
    assert!(matches!(commands[0], UserCommand::IsReady));
    assert!(matches!(commands[1], UserCommand::DisplayBoard));
    assert!(matches!(parse("isready && nonsense"), Err(TimecatError::UnknownCommand)));
}

#[test]
fn go_commands() {
    assert!(matches!(single("go depth 5"), UserCommand::Go(GoCommand::Depth(5))));
    assert!(matches!(parse("go depth -1"), Err(TimecatError::InvalidDepth { depth: -1 })));
    assert!(matches!(
        parse("go depth x"),
        Err(TimecatError::CustomError { err_msg }) if err_msg == "Failed to parse integer, invalid digit found in string! Please try again!"
    ));
    assert!(matches!(
        parse("go depth 300"),
        Err(TimecatError::CustomError { err_msg }) if err_msg == "Failed to parse integer, number too large to fit in target type! Please try again!"
    ));
    assert!(matches!(single("go movetime 1500"), UserCommand::Go(GoCommand::MoveTime(d)) if d.nanos == 1_500_000_000));
    assert!(matches!(single("go infinite"), UserCommand::Go(GoCommand::Infinite)));
    assert!(matches!(single("go ponder"), UserCommand::Go(GoCommand::Ponder)));
    assert!(matches!(single("go perft 3"), UserCommand::Perft(3)));
    assert!(matches!(parse("go depth 5 movetime 3"), Err(TimecatError::UnknownCommand)));
    assert!(matches!(parse("go infinite now"), Err(TimecatError::UnknownCommand)));
    assert!(matches!(parse("go"), Err(TimecatError::UnknownCommand)));
    match single("go wtime 1000 btime 2000 winc 10 movestogo 7") {
        UserCommand::Go(GoCommand::Timed { wtime, btime, winc, binc, moves_to_go }) => {
            assert_eq!(wtime.nanos, 1_000_000_000);
            assert_eq!(btime.nanos, 2_000_000_000);
            assert_eq!(winc.nanos, 10_000_000);
            assert_eq!(binc.nanos, 0);
            assert_eq!(moves_to_go, Some(7));
        }
        _ => panic!("expected a timed search"),
    }
    assert!(matches!(parse("go btime 5"), Err(TimecatError::WTimeNotMentioned)));
    assert!(matches!(parse("go wtime 5"), Err(TimecatError::BTimeNotMentioned)));
    assert!(matches!(
        parse("go wtime + btime 5"),
        Err(TimecatError::CustomError { err_msg }) if err_msg == "Failed to parse integer, invalid digit found in string! Please try again!"
    ));
}

#[test]
fn position_and_board_commands() {
    let commands = parse("position startpos moves e2e4 e7e5").unwrap();
    assert_eq!(commands.len(), 2);
    assert!(matches!(&commands[0], UserCommand::SetFen(s) if s == START));
    assert!(matches!(&commands[1], UserCommand::PushMoves(s) if s == "push moves e2e4 e7e5"));
    let fen = "8/8/8/8/8/8/8/K1k5 w - - 0 1";
    let commands = parse(&format!("position fen {fen}")).unwrap();
    assert_eq!(commands.len(), 1);
    assert!(matches!(&commands[0], UserCommand::SetFen(s) if s == fen));
    assert!(matches!(parse("position nowhere"), Err(TimecatError::UnknownCommand)));
    assert!(matches!(single(&format!("set board fen {START}")), UserCommand::SetFen(s) if s == START));
    assert!(matches!(parse("set board fen 8/8/8 w"), Err(TimecatError::BadFen { fen }) if fen == "8/8/8 w"));
    assert!(matches!(parse("set board startpos"), Err(TimecatError::BadFen { fen }) if fen.is_empty()));
    assert!(matches!(parse("set color on"), Err(TimecatError::FeatureNotEnabled { s }) if s == "colored"));
    assert!(matches!(single("push moves e2e4, e7e5"), UserCommand::PushMoves(s) if s == "push moves e2e4 e7e5"));
    assert!(matches!(single("setoption name Hash value 16"), UserCommand::SetUCIOption { user_input } if user_input == "setoption name Hash value 16"));
}

#[test]
fn pop_debug_and_selfplay_commands() {
    assert!(matches!(single("pop"), UserCommand::PopMoves(1)));
    assert!(matches!(single("pop 3"), UserCommand::PopMoves(3)));
    assert!(matches!(parse("pop 1 2"), Err(TimecatError::UnknownCommand)));
    assert!(matches!(single("debug on"), UserCommand::SetDebugMode(true)));
    assert!(matches!(single("debug OFF"), UserCommand::SetDebugMode(false)));
    assert!(matches!(parse("debug maybe"), Err(TimecatError::UnknownDebugCommand { command }) if command == "maybe"));
    assert!(matches!(single("selfplay"), UserCommand::SelfPlay(GoCommand::MoveTime(d)) if d.nanos == 3_000_000_000));
    assert!(matches!(single("selfplay depth 4"), UserCommand::SelfPlay(GoCommand::Depth(4))));
}

#[test]
fn sanitizing_text() {
    assert_eq!(Parser::sanitize_string("  go,depth:5   now "), "go depth 5 now");
    assert_eq!(Parser::sanitize_string(""), "");
    assert!(UserCommand::generate_help_message().starts_with("Sadly"));
}

#[test]
fn time_from_search_commands() {
    let board = Board::from_fen(START).unwrap();
    let mut timer = Timer::default();
    timer.parse_time_based_command(&board, GoCommand::MoveTime(Duration::from_millis(2000)));
    assert_eq!(timer.max_time().as_nanos(), 2_000_000_000);
    let timed = GoCommand::Timed {
        wtime: Duration::from_millis(60_000),
        btime: Duration::from_millis(60_000),
        winc: Duration::zero(),
        binc: Duration::zero(),
        moves_to_go: None,
    };
    timer.parse_time_based_command(&board, timed);
    assert_eq!(timer.max_time().as_nanos(), 500_000_000);
    let later = Board::from_fen("rnbqkbnr/pppppppp/8/8/8/8/PPPPPPPP/RNBQKBNR w KQkq - 0 40").unwrap();
    let timed = GoCommand::Timed {
        wtime: Duration::from_millis(60_000),
        btime: Duration::from_millis(30_000),
        winc: Duration::from_millis(2_000),
        binc: Duration::zero(),
        moves_to_go: None,
    };
    timer.parse_time_based_command(&later, timed);
    assert_eq!(timer.max_time().as_nanos(), 18_000_000_000);
}

#[test]
fn sub_command_readers() {
    let commands = GoAndPerft::parse_sub_commands(&["go", "depth", "3"]).unwrap();
    assert!(matches!(commands[0], UserCommand::Go(GoCommand::Depth(3))));
    assert!(matches!(GoAndPerft::parse_sub_commands(&["go", "perft"]), Err(TimecatError::UnknownCommand)));
    let commands = Pop::parse_sub_commands(&["pop", "+2"]).unwrap();
    assert!(matches!(commands[0], UserCommand::PopMoves(2)));
    assert!(matches!(
        Pop::parse_sub_commands(&["pop", "-2"]),
        Err(TimecatError::CustomError { err_msg }) if err_msg == "Failed to parse integer, invalid digit found in string! Please try again!"
    ));
    assert!(matches!(
        Pop::parse_sub_commands(&["pop", ""]),
        Err(TimecatError::CustomError { err_msg }) if err_msg == "Failed to parse integer, cannot parse integer from empty string! Please try again!"
    ));
    let commands = SetCommand::parse_sub_commands(&["set", "board", "fen", "startpos"]).unwrap();
    assert!(matches!(&commands[0], UserCommand::SetFen(s) if s == START));
    assert!(matches!(SetCommand::parse_sub_commands(&["set", "nothing"]), Err(TimecatError::UnknownCommand)));
}
