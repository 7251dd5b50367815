use timecat::board_builder::BoardBuilder;
use timecat::builder::MiniBoardBuilder;
use timecat::castle::CastleRights;
use timecat::error::TimecatError;
use timecat::fen_check::is_good_fen;
use timecat::mini_board::MiniBoard;
use timecat::piece::{Piece, PieceType};
use timecat::position::BoardPosition;
use timecat::types::{Color, File, Square};

const START: &str = "rnbqkbnr/pppppppp/8/8/8/8/PPPPPPPP/RNBQKBNR w KQkq - 0 1";
const KIWIPETE: &str = "r3k2r/p1ppqpb1/bn2pnp1/3PN3/1p2P3/2N2Q1p/PPPBBPPP/R3K2R w KQkq - 0 1";
const AFTER_E4_D5_E5_F5: &str = "rnbqkbnr/ppp1p1pp/8/3pPp2/8/8/PPPP1PPP/RNBQKBNR w KQkq f6 0 3";

#[test]
fn builder_reads_start_position() {
    let b = MiniBoardBuilder::from_str(START).unwrap();
    assert_eq!(b.get_turn(), Color::White);
    assert_eq!(b.get_castle_rights(Color::White), CastleRights::Both);
    assert_eq!(b.get_castle_rights(Color::Black), CastleRights::Both);
    assert_eq!(b.get_en_passant(), None);
    assert_eq!(b.get_halfmove_clock(), 0);
    assert_eq!(b.get_fullmove_number(), 1);
    assert_eq!(b.get_piece(Square::E1), Some(Piece { type_: PieceType::King, color: Color::White }));
    assert_eq!(b.get_piece(Square::D8), Some(Piece { type_: PieceType::Queen, color: Color::Black }));
    assert_eq!(b.get_piece(Square::E4), None);
}

#[test]
fn builder_writes_back_what_it_read() {
    for fen in [START, KIWIPETE, AFTER_E4_D5_E5_F5, "8/8/8/8/8/8/8/8 b - - 99 300", "4k3/8/8/8/8/8/8/4K2R w K - 7 41"] {
        let b = MiniBoardBuilder::from_str(fen).unwrap();
        assert_eq!(b.to_string(), fen);
        let again = MiniBoardBuilder::from_str(&b.to_string()).unwrap();
        assert_eq!(again.to_string(), fen);
    }
}

#[test]
fn builder_en_passant_squares() {
    let b = MiniBoardBuilder::from_str(AFTER_E4_D5_E5_F5).unwrap();
    assert_eq!(b.get_en_passant(), Some(Square::F6));
    let old = BoardBuilder::from_str(AFTER_E4_D5_E5_F5).unwrap();
    assert_eq!(old.get_en_passant(), Some(Square::F5));
    assert_eq!(old.to_string(), AFTER_E4_D5_E5_F5);
}

#[test]
fn builder_missing_clocks_default() {
    let b = MiniBoardBuilder::from_str("8/8/8/8/8/8/8/8 w - -").unwrap();
    assert_eq!(b.get_halfmove_clock(), 0);
    assert_eq!(b.get_fullmove_number(), 1);
    let b = MiniBoardBuilder::from_str("8/8/8/8/8/8/8/8 w - - x y").unwrap();
    assert_eq!(b.get_halfmove_clock(), 0);
    assert_eq!(b.get_fullmove_number(), 1);
}

#[test]
fn builder_setters_and_getters() {
    let mut b = MiniBoardBuilder::new();
    b.add_piece(Square::E4, Piece { type_: PieceType::Knight, color: Color::Black });
    assert_eq!(b.get_piece(Square::E4), Some(Piece { type_: PieceType::Knight, color: Color::Black }));
    b.clear_square(Square::E4);
    assert_eq!(b.get_piece(Square::E4), None);
    b.turn(Color::Black);
    b.castle_rights(Color::White, CastleRights::QueenSide);
    b.ep_file(Some(File::C));
    b.halfmove_clock(12);
    b.fullmove_number(30);
    assert_eq!(b.get_turn(), Color::Black);
    assert_eq!(b.get_castle_rights(Color::White), CastleRights::QueenSide);
    assert_eq!(b.get_en_passant(), Some(Square::C3));
    assert_eq!(b.to_string(), "8/8/8/8/8/8/8/8 b Q c3 12 30");
}

#[test]
fn bad_fen_is_reported() {
    for fen in ["", "not a fen", "rnbqkbnr/pppppppp/8/8/8/8/PPPPPPPP/RNBQKBNR x KQkq - 0 1", "rnbqkbnr/ppppXppp/8/8/8/8/PPPPPPPP/RNBQKBNR w KQkq - 0 1", "8/8/8/8 w -"] {
        match MiniBoardBuilder::from_str(fen) {
            Err(TimecatError::BadFen { fen: f }) => assert_eq!(f, fen),
            other => panic!("expected a bad FEN error, got {:?}", other.is_ok()),
        }
        assert!(matches!(BoardPosition::from_fen(fen), Err(TimecatError::BadFen { .. })));
    }
}

#[test]
fn insane_position_is_refused() {
    // two white kings
    assert!(matches!(BoardPosition::from_fen("4k3/8/8/8/8/8/8/3KK3 w - - 0 1"), Err(TimecatError::InvalidBoardPosition { .. })));
    // no kings
    assert!(matches!(BoardPosition::from_fen("8/8/8/8/8/8/8/8 w - - 0 1"), Err(TimecatError::InvalidBoardPosition { .. })));
    // the side not to move is in check
    assert!(matches!(BoardPosition::from_fen("4k3/8/8/8/8/8/4R3/4K3 w - - 0 1"), Err(TimecatError::InvalidBoardPosition { .. })));
}

#[test]
fn position_fen_round_trip() {
    for fen in [START, KIWIPETE, AFTER_E4_D5_E5_F5, "4k3/8/8/8/8/8/8/4K2R b K - 7 41"] {
        let p = BoardPosition::from_fen(fen).unwrap();
        assert_eq!(p.get_fen(), fen);
        let q = BoardPosition::from_fen(&p.get_fen()).unwrap();
        assert_eq!(q.get_fen(), p.get_fen());
        assert_eq!(q.get_hash(), p.get_hash());
        assert_eq!(q.get_checkers(), p.get_checkers());
        assert_eq!(q.pinned(), p.pinned());
    }
}

#[test]
fn en_passant_without_taker_is_dropped() {
    // after 1. e4 there is no black pawn next to e4, so the en passant square is not kept
    let p = BoardPosition::from_fen("rnbqkbnr/pppppppp/8/8/4P3/8/PPPP1PPP/RNBQKBNR b KQkq e3 0 1").unwrap();
    assert_eq!(p.ep_square(), None);
    assert_eq!(p.get_fen(), "rnbqkbnr/pppppppp/8/8/4P3/8/PPPP1PPP/RNBQKBNR b KQkq - 0 1");
}

#[test]
fn good_fen_checks() {
    assert!(is_good_fen(START));
    assert!(BoardPosition::is_good_fen(START));
    assert!(MiniBoard::is_good_fen(KIWIPETE));
    assert!(is_good_fen("  rnbqkbnr/pppppppp/8/8/8/8/PPPPPPPP/RNBQKBNR   w KQkq - 0 1  "));
    assert!(is_good_fen("rnbqkbnr/pppppppp/8/8/8/8/PPPPPPPP/RNBQKBNR w KQkq -"));
    assert!(is_good_fen("rnbqkbnr/pppppppp/8/8/8/8/PPPPPPPP/RNBQKBNR w KQkq - -0 +1"));
    assert!(!is_good_fen("rnbqkbnr/pppppppp/8/8/8/8/PPPPPPPP/RNBQKBNR w KQkq - -1 1"));
    assert!(!is_good_fen("rnbqkbnr/pppppppp/8/8/8/8/PPPPPPPP/RNBQKBNR w KQkq - 0 1 extra"));
    assert!(!is_good_fen("rnbqkbnr/pppppppp/8/8/8/8/PPPPPPPP/RNBQKBNR w KQkq - 0 x"));
    assert!(!is_good_fen("4k3/8/8/8/8/8/8/3KK3 w - - 0 1"));
    assert!(!is_good_fen("garbage"));
}

#[test]
fn set_fen_replaces_or_keeps() {
    let mut p = BoardPosition::from_fen(START).unwrap();
    assert!(p.set_fen("  rnbqkbnr/pppppppp/8/8/8/8/PPPPPPPP/RNBQKBNR w KQkq - 0 1 ").is_ok());
    assert_eq!(p.get_fen(), START);
    assert!(p.set_fen(KIWIPETE).is_ok());
    assert_eq!(p.get_fen(), KIWIPETE);
    assert!(matches!(p.set_fen("bad"), Err(TimecatError::BadFen { .. })));
    assert_eq!(p.get_fen(), KIWIPETE);
    assert!(matches!(p.set_fen("8/8/8/8/8/8/8/8 w - - 0 1"), Err(TimecatError::InvalidBoardPosition { .. })));
    assert_eq!(p.get_fen(), KIWIPETE);
    let mut m = MiniBoard { position: BoardPosition::from_fen(START).unwrap() };
    assert!(m.set_fen(KIWIPETE).is_ok());
    assert_eq!(m.get_fen(), KIWIPETE);
}

#[test]
fn board_builder_setup_lists_pieces() {
    let pieces = vec![
        (Square::E1, Piece { type_: PieceType::King, color: Color::White }),
        (Square::E8, Piece { type_: PieceType::King, color: Color::Black }),
        (Square::E8, Piece { type_: PieceType::Queen, color: Color::Black }),
    ];
    let b = BoardBuilder::setup(&pieces, Color::Black, CastleRights::NoRights, CastleRights::NoRights, None, 3, 9);
    assert_eq!(b.get_side_to_move(), Color::Black);
    assert_eq!(b.to_string(), "4q3/8/8/8/8/8/8/4K3 b - - 3 9");
    let mut b = BoardBuilder::new();
    b.piece(Square::A1, Piece { type_: PieceType::Rook, color: Color::White });
    b.side_to_move(Color::Black);
    b.en_passant(Some(File::D));
    assert_eq!(b.get_en_passant(), Some(Square::D4));
    assert_eq!(b.to_string(), "8/8/8/8/8/8/8/R7 b - d3 0 1");
}
