use timecat::move_generator::MoveGenerator;
use timecat::position::BoardPosition;

const START: &str = "rnbqkbnr/pppppppp/8/8/8/8/PPPPPPPP/RNBQKBNR w KQkq - 0 1";
const KIWIPETE: &str = "r3k2r/p1ppqpb1/bn2pnp1/3PN3/1p2P3/2N2Q1p/PPPBBPPP/R3K2R w KQkq - 0 1";

#[test]
fn perft_start_position() {
    let position = BoardPosition::from_fen(START).unwrap();
    assert_eq!(MoveGenerator::perft_test(&position, 1), 20);
    assert_eq!(MoveGenerator::perft_test(&position, 2), 400);
    assert_eq!(MoveGenerator::perft_test(&position, 3), 8902);
}

#[test]
fn perft_kiwipete() {
    let position = BoardPosition::from_fen(KIWIPETE).unwrap();
    assert_eq!(MoveGenerator::perft_test(&position, 1), 48);
    assert_eq!(MoveGenerator::perft_test(&position, 2), 2039);
}

#[test]
fn fen_round_trip_start() {
    let position = BoardPosition::from_fen(START).unwrap();
    assert_eq!(position.get_fen(), START);
}

#[test]
fn generated_moves_are_distinct_and_legal() {
    // A position with promotions, an en passant capture and castling on both sides.
    let fens = [
        KIWIPETE,
        "r3k2r/1P6/8/3pP3/8/8/8/R3K2R w KQkq d6 0 1",
        START,
    ];
    for fen in fens {
        let position = BoardPosition::from_fen(fen).unwrap();
        let moves = MoveGenerator::new_legal(&position).iter();
        for i in 0..moves.len() {
            for j in (i + 1)..moves.len() {
                assert_ne!(moves[i], moves[j]);
            }
        }
        assert_eq!(moves.len(), MoveGenerator::perft_test(&position, 1));
    }
}
