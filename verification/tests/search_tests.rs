use std::sync::atomic::AtomicBool;
use std::sync::Arc;
use timecat::board::Board;
use timecat::engine_properties::EngineProperties;
use timecat::moves::Move;
use timecat::position::BoardPosition;
use timecat::search::{MaterialEvaluation, PositionEvaluation, Searcher, CHECKMATE_SCORE, INFINITY};
use timecat::error::TimecatError;
use timecat::timer::Timer;

fn searcher(fen: &str, draw_score: i16, stop: bool) -> Searcher<MaterialEvaluation> {
    let board = Board::from_fen(fen).unwrap();
    let timer = Timer::new_dummy(Arc::new(AtomicBool::new(stop)));
    Searcher::new(board, MaterialEvaluation, timer, EngineProperties::new(), draw_score)
}

#[test]
fn search_finds_back_rank_mate() {
    let mut s = searcher("6k1/5ppp/8/8/8/8/8/R5K1 w - - 0 1", 0, false);
    let (best, score) = s.search_root(2).unwrap();
    assert_eq!(best, Some(Move::from_str("a1a8").unwrap()));
    assert_eq!(score, CHECKMATE_SCORE - 1);
    assert_eq!(s.ply, 0);
    assert_eq!(s.board.get_mini_board().get_fen(), "6k1/5ppp/8/8/8/8/8/R5K1 w - - 0 1");
}

#[test]
fn search_scores_mated_side() {
    let mut s = searcher("R5k1/5ppp/8/8/8/8/8/6K1 b - - 1 1", 0, false);
    assert_eq!(s.alpha_beta(1, -INFINITY, INFINITY), Some(-CHECKMATE_SCORE));
    assert_eq!(s.search_root(1), Some((None, -CHECKMATE_SCORE)));
}

#[test]
fn search_scores_stalemate_as_draw() {
    let mut s = searcher("7k/5Q2/6K1/8/8/8/8/8 b - - 0 1", 7, false);
    assert_eq!(s.alpha_beta(2, -INFINITY, INFINITY), Some(7));
    assert_eq!(s.search_root(2), Some((None, 7)));
}

#[test]
fn search_scores_insufficient_material_as_draw() {
    let mut s = searcher("8/8/8/4k3/8/8/8/4K3 w - - 0 1", -3, false);
    assert_eq!(s.alpha_beta(3, -INFINITY, INFINITY), Some(-3));
}

#[test]
fn search_stops_when_told() {
    let mut s = searcher("6k1/5ppp/8/8/8/8/8/R5K1 w - - 0 1", 0, true);
    assert_eq!(s.alpha_beta(2, -INFINITY, INFINITY), None);
    assert!(s.stopped);
}

#[test]
fn search_at_depth_zero_evaluates() {
    let mut s = searcher("rnbqkbnr/pppppppp/8/8/8/8/PPPPPPPP/RNBQKBNR w KQkq - 0 1", 0, false);
    assert_eq!(s.alpha_beta(0, -INFINITY, INFINITY), Some(0));
    assert_eq!(s.search_root(2).map(|(_, score)| score), Some(0));
}

#[test]
fn quiescence_takes_hanging_queen() {
    let fen = "4k3/8/8/3q4/4P3/8/8/4K3 w - - 0 1";
    let board = Board::from_fen(fen).unwrap();
    let timer = Timer::new_dummy(Arc::new(AtomicBool::new(false)));
    let mut s = Searcher::new(board, MaterialEvaluation, timer, EngineProperties::new(), 0);
    assert_eq!(s.quiescence(-INFINITY, INFINITY), 100);
    assert_eq!(s.alpha_beta(0, -INFINITY, INFINITY), Some(100));
    assert_eq!(s.search_root(1), Some((Some(Move::from_str("e4d5").unwrap()), 100)));
    assert_eq!(s.board.get_mini_board().get_fen(), fen);
}

#[test]
fn quiescence_stands_pat_at_beta() {
    let board = Board::from_fen("4k3/8/8/3q4/4P3/8/8/4K3 b - - 0 1").unwrap();
    let timer = Timer::new_dummy(Arc::new(AtomicBool::new(false)));
    let mut s = Searcher::new(board, MaterialEvaluation, timer, EngineProperties::new(), 0);
    assert_eq!(s.quiescence(-INFINITY, 500), 500);
}

#[test]
fn null_move_holds_beta() {
    let board = Board::from_fen("4k3/8/8/8/8/8/8/3QK3 w - - 0 1").unwrap();
    let timer = Timer::new_dummy(Arc::new(AtomicBool::new(false)));
    let mut s = Searcher::new(board, MaterialEvaluation, timer, EngineProperties::new(), 0);
    assert_eq!(s.alpha_beta(2, -INFINITY, 100), Some(100));
    assert_eq!(s.board.get_mini_board().get_fen(), "4k3/8/8/8/8/8/8/3QK3 w - - 0 1");
}

#[test]
fn material_evaluation_scores_side_to_move() {
    let white = BoardPosition::from_fen("4k3/8/8/3q4/4P3/8/8/4K3 w - - 0 1").unwrap();
    let black = BoardPosition::from_fen("4k3/8/8/3q4/4P3/8/8/4K3 b - - 0 1").unwrap();
    assert_eq!(MaterialEvaluation.evaluate_flipped(&white), -800);
    assert_eq!(MaterialEvaluation.evaluate_flipped(&black), 800);
}

#[test]
fn self_play_mates_and_restores_the_game() {
    let fen = "6k1/5ppp/8/8/8/8/8/R5K1 w - - 0 1";
    let mut s = searcher(fen, 0, false);
    let played = s.self_play(2, 10).unwrap();
    assert_eq!(played, vec![(Move::from_str("a1a8").unwrap(), CHECKMATE_SCORE - 1)]);
    assert_eq!(s.board.get_mini_board().get_fen(), fen);
    assert!(s.board.has_empty_stack());
}

#[test]
fn self_play_refuses_finished_game() {
    let mut s = searcher("R5k1/5ppp/8/8/8/8/8/6K1 b - - 1 1", 0, false);
    assert!(matches!(s.self_play(2, 10), Err(TimecatError::GameAlreadyOver)));
    assert_eq!(s.self_play(2, 0).unwrap(), vec![]);
}

#[test]
fn self_play_without_a_search_reports_no_best_move() {
    let mut s = searcher("6k1/5ppp/8/8/8/8/8/R5K1 w - - 0 1", 0, true);
    assert!(matches!(s.self_play(2, 10), Err(TimecatError::BestMoveNotFound { .. })));
}

#[test]
fn best_move_not_found_message() {
    let e = TimecatError::BestMoveNotFound { fen: "8/8/8/8/8/8/8/8 w - - 0 1".to_string() };
    assert_eq!(e.message(false), "Best move not found in position 8/8/8/8/8/8/8/8 w - - 0 1! Please try again!");
}

#[test]
fn iterative_deepening_finds_mate() {
    let fen = "6k1/5ppp/8/8/8/8/8/R5K1 w - - 0 1";
    let mut s = searcher(fen, 0, false);
    let (best, score, depth) = s.iterative_deepening(3);
    assert_eq!(best, Some(Move::from_str("a1a8").unwrap()));
    assert_eq!(score, CHECKMATE_SCORE - 1);
    assert_eq!(depth, 3);
    let mut stopped = searcher(fen, 0, true);
    assert_eq!(stopped.iterative_deepening(3), (None, 0, 0));
}
