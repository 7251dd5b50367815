use timecat::board::{Board, RepetitionTable};
use timecat::error::TimecatError;
use timecat::game::GameResult;
use timecat::moves::Move;
use timecat::piece::PieceType;
use timecat::types::{Color, Square};

const START: &str = "rnbqkbnr/pppppppp/8/8/8/8/PPPPPPPP/RNBQKBNR w KQkq - 0 1";

fn mv(from: Square, to: Square) -> Option<Move> {
    Some(Move::new(from, to, None))
}

#[test]
fn repetition_table_counts() {
    let mut t = RepetitionTable::new();
    assert_eq!(t.get_repetition(7), 0);
    t.insert(7);
    t.insert(9);
    t.insert(7);
    assert_eq!(t.get_repetition(7), 2);
    assert_eq!(t.get_repetition(9), 1);
    t.remove(7);
    assert_eq!(t.get_repetition(7), 1);
    t.remove(8);
    assert_eq!(t.get_repetition(9), 1);
    t.clear();
    assert_eq!(t.get_repetition(9), 0);
}

#[test]
fn push_then_pop_restores_the_game() {
    let mut board = Board::from_fen(START).unwrap();
    let start_fen = board.get_mini_board().get_fen();
    let start_hash = board.get_mini_board().get_hash();
    assert!(board.push(mv(Square::E2, Square::E4)).is_ok());
    assert_eq!(board.get_ply(), 1);
    assert_eq!(board.get_mini_board().get_fen(), "rnbqkbnr/pppppppp/8/8/4P3/8/PPPP1PPP/RNBQKBNR b KQkq - 0 1");
    assert_eq!(board.get_last_stack_move(), Some(mv(Square::E2, Square::E4)));
    assert_eq!(board.pop(), mv(Square::E2, Square::E4));
    assert_eq!(board.get_ply(), 0);
    assert!(board.has_empty_stack());
    assert_eq!(board.get_mini_board().get_fen(), start_fen);
    assert_eq!(board.get_mini_board().get_hash(), start_hash);
    assert_eq!(board.get_num_repetitions(), 1);
}

#[test]
fn knight_shuffle_repeats_three_times() {
    let mut board = Board::from_fen(START).unwrap();
    for _ in 0..2 {
        assert!(board.push(mv(Square::G1, Square::F3)).is_ok());
        assert!(board.push(mv(Square::G8, Square::F6)).is_ok());
        assert!(board.push(mv(Square::F3, Square::G1)).is_ok());
        assert!(board.push(mv(Square::F6, Square::G8)).is_ok());
    }
    assert_eq!(board.get_num_repetitions(), 3);
    assert!(board.is_repetition(2));
    assert!(board.is_threefold_repetition());
    assert_eq!(board.result(), GameResult::Draw);
    assert!(board.is_draw());
    assert!(board.is_game_over());
    assert_eq!(board.get_num_moves(), 8);
    assert_eq!(board.get_all_stack_moves().len(), 8);
    assert!(!board.stack_contains_null_move());
    board.pop();
    assert_eq!(board.get_num_repetitions(), 2);
    assert_eq!(board.result(), GameResult::InProgress);
}

#[test]
fn fools_mate_is_won_by_black() {
    let mut board = Board::from_fen(START).unwrap();
    assert!(board.push(mv(Square::F2, Square::F3)).is_ok());
    assert!(board.push(mv(Square::E7, Square::E5)).is_ok());
    assert!(board.push(mv(Square::G2, Square::G4)).is_ok());
    assert!(board.push(mv(Square::D8, Square::H4)).is_ok());
    let result = board.result();
    assert_eq!(result, GameResult::Win(Color::Black));
    assert!(result.is_win());
    assert!(!result.is_draw());
    assert!(!result.is_in_progress());
    assert_eq!(result.winner(), Some(Color::Black));
    assert!(board.is_game_over());
    assert!(!board.is_draw());
}

#[test]
fn stalemate_and_bare_kings_are_draws() {
    let board = Board::from_fen("7k/5Q2/6K1/8/8/8/8/8 b - - 0 1").unwrap();
    assert_eq!(board.result(), GameResult::Draw);
    assert!(board.is_draw());
    let board = Board::from_fen("7k/8/6K1/8/8/8/8/8 b - - 0 1").unwrap();
    assert_eq!(board.result(), GameResult::Draw);
    let board = Board::from_fen("7k/8/6K1/8/8/8/8/8 b - - 100 80").unwrap();
    assert!(board.is_other_draw());
    assert_eq!(GameResult::InProgress.winner(), None);
    assert!(GameResult::InProgress.is_in_progress());
    assert!(GameResult::Draw.is_draw());
}

#[test]
fn illegal_moves_are_refused() {
    let mut board = Board::from_fen(START).unwrap();
    // no legal move from e3
    assert!(matches!(board.push(mv(Square::E3, Square::E4)), Err(TimecatError::IllegalMove { .. })));
    // the knight on g1 has moves, but e2 holds a white pawn
    assert!(matches!(board.push(mv(Square::G1, Square::E2)), Err(TimecatError::IllegalMove { .. })));
    assert_eq!(board.get_ply(), 0);
    // a null move is played when not in check
    assert!(board.push(None).is_ok());
    assert!(board.stack_contains_null_move());
    assert_eq!(board.get_mini_board().turn(), Color::Black);
    assert_eq!(board.pop(), None);
    let mut checked = Board::from_fen("4k3/8/8/8/8/8/4r3/4K3 w - - 0 1").unwrap();
    assert!(matches!(checked.push(None), Err(TimecatError::NullMoveInCheck { .. })));
}

#[test]
fn promotion_and_flips() {
    let mut board = Board::from_fen("4k3/P7/8/8/8/8/8/4K3 w - - 0 1").unwrap();
    assert!(board.push(Some(Move::new(Square::A7, Square::A8, Some(PieceType::Queen)))).is_ok());
    assert_eq!(board.get_mini_board().get_fen(), "Q3k3/8/8/8/8/8/8/4K3 b - - 0 1");
    board.flip_vertical();
    assert_eq!(board.get_ply(), 0);
    assert_eq!(board.get_mini_board().get_fen(), "4K3/8/8/8/8/8/8/Q3k3 b - - 0 1");
    board.flip_horizontal();
    assert_eq!(board.get_mini_board().get_fen(), "3K4/8/8/8/8/8/8/3k3Q b - - 0 1");
    assert!(board.set_fen(START).is_ok());
    assert_eq!(board.get_mini_board().get_fen(), START);
    assert!(board.set_fen("bad").is_err());
    assert_eq!(board.get_mini_board().get_fen(), START);
}
