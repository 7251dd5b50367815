use timecat::bitboard::BitBoard;
use timecat::castle::CastleRights;
use timecat::engine_properties::EngineProperties;
use timecat::error::TimecatError;
use timecat::mini_board::MiniBoard;
use timecat::move_gen::MoveGen;
use timecat::move_generator::MoveGenerator;
use timecat::moves::Move;
use timecat::piece::PieceType;
use timecat::polyglot::{move_to_polyglot_move_int, polyglot_move_int_to_move};
use timecat::position::BoardPosition;
use timecat::sort::{MoveSorter, WeightedMove, WeightedMoveListSorter};
use timecat::sub_board::SubBoard;
use timecat::timer::{time_up, Duration, SearchController, Timer, MAX_NANOS};
use timecat::types::{Color, Square};

const START: &str = "rnbqkbnr/pppppppp/8/8/8/8/PPPPPPPP/RNBQKBNR w KQkq - 0 1";
const KIWIPETE: &str = "r3k2r/p1ppqpb1/bn2pnp1/3PN3/1p2P3/2N2Q1p/PPPBBPPP/R3K2R w KQkq - 0 1";

#[test]
fn polyglot_codes() {
    let e2e4 = Move::new(Square::E2, Square::E4, None);
    assert_eq!(move_to_polyglot_move_int(e2e4).unwrap(), 12 * 64 + 28);
    assert_eq!(polyglot_move_int_to_move(12 * 64 + 28).unwrap(), e2e4);
    let promo = Move::new(Square::B7, Square::B8, Some(PieceType::Queen));
    let code = move_to_polyglot_move_int(promo).unwrap();
    assert_eq!(code, 4 * 4096 + 49 * 64 + 57);
    assert_eq!(polyglot_move_int_to_move(code).unwrap(), promo);
    let knight = Move::new(Square::B7, Square::A8, Some(PieceType::Knight));
    assert_eq!(polyglot_move_int_to_move(move_to_polyglot_move_int(knight).unwrap()).unwrap(), knight);
    assert!(matches!(move_to_polyglot_move_int(Move::new(Square::B7, Square::B8, Some(PieceType::King))), Err(TimecatError::PolyglotTableParseError)));
    assert!(matches!(polyglot_move_int_to_move(5 * 4096), Err(TimecatError::BadPolyglotFile)));
}

#[test]
fn sorter_hands_out_heaviest_first() {
    let m = |w: i64| WeightedMove::new(Move::new(Square::A2, Square::A3, None), w);
    let mut s = WeightedMoveListSorter::from_moves(vec![m(3), m(1), m(7), m(2)]);
    assert_eq!(s.len(), 4);
    assert!(!s.is_empty());
    let mut got = Vec::new();
    while let Some(x) = s.next() {
        got.push(x.weight);
    }
    assert_eq!(got, vec![7, 3, 2, 1]);
    let again: Vec<i64> = std::iter::from_fn(|| s.next()).map(|x| x.weight).collect();
    assert_eq!(again, vec![7, 3, 2, 1]);
    let weights: Vec<i64> = s.get_weighted_moves().iter().map(|x| x.weight).collect();
    assert_eq!(weights, vec![7, 3, 2, 1]);
    let mut t = WeightedMoveListSorter::from_moves(vec![m(5), m(5)]);
    assert_eq!(t.next().unwrap().weight, 5);
    assert_eq!(t.next().unwrap().weight, 5);
    assert!(t.next().is_none());
    assert!(WeightedMoveListSorter::from_moves(vec![]).is_empty());
}

#[test]
fn killer_moves_and_history() {
    let mut sorter = MoveSorter::new();
    let a = Move::new(Square::E2, Square::E4, None);
    let b = Move::new(Square::D2, Square::D4, None);
    let c = Move::new(Square::G1, Square::F3, None);
    let d = Move::new(Square::B1, Square::C3, None);
    assert!(!sorter.is_killer_move(a, 3));
    sorter.update_killer_moves(a, 3);
    sorter.update_killer_moves(b, 3);
    sorter.update_killer_moves(c, 3);
    assert!(sorter.is_killer_move(a, 3) && sorter.is_killer_move(b, 3) && sorter.is_killer_move(c, 3));
    assert!(!sorter.is_killer_move(a, 4));
    sorter.update_killer_moves(d, 3);
    assert!(!sorter.is_killer_move(a, 3));
    assert!(sorter.is_killer_move(d, 3));
    let p = BoardPosition::from_fen(START).unwrap();
    assert_eq!(sorter.get_history_score(c, &p), 0);
    sorter.add_history_move(c, &p, 3);
    sorter.add_history_move(c, &p, 2);
    assert_eq!(sorter.get_history_score(c, &p), 13);
    assert_eq!(sorter.get_history_score(d, &p), 0);
    assert!(!sorter.is_following_pv());
    sorter.follow_pv();
    assert!(sorter.is_following_pv());
    sorter.reset_variables();
    assert!(!sorter.is_following_pv());
    assert!(!sorter.is_killer_move(d, 3));
    assert_eq!(sorter.get_history_score(c, &p), 0);
}

#[test]
fn durations_and_time_limits() {
    assert_eq!(Duration::from_secs(2).as_nanos(), 2_000_000_000);
    assert_eq!(Duration::from_millis(3).as_nanos(), 3_000_000);
    assert_eq!(Duration::max_value().as_nanos(), MAX_NANOS);
    assert!(time_up(Duration::from_millis(900), Duration::from_millis(100), Duration::from_secs(1)));
    assert!(!time_up(Duration::from_millis(899), Duration::from_millis(100), Duration::from_secs(1)));
    assert!(!time_up(Duration::from_secs(1_000_000), Duration::zero(), Duration::max_value()));
    let mut c = SearchController::new();
    assert_eq!(c.get_move_overhead(), Duration::from_millis(200));
    assert!(!c.is_infinite_search());
    assert!(!c.is_time_up(Duration::from_secs(100)));
    c.set_max_time(Duration::from_secs(1));
    assert_eq!(c.max_time(), Duration::from_secs(1));
    assert!(c.is_time_up(Duration::from_millis(800)));
    assert!(!c.is_time_up(Duration::from_millis(700)));
    c.set_move_overhead(Duration::zero());
    assert!(!c.is_time_up(Duration::from_millis(999)));
    c.reset_variables();
    assert_eq!(c.max_time(), Duration::max_value());
    c.reset_start_time();
}

#[test]
fn timer_stops_on_limit() {
    let mut t = Timer::default();
    assert!(!t.is_time_up());
    assert!(!t.check_stop(true));
    t.set_max_time(Duration::zero());
    assert!(t.is_time_up());
    assert!(t.check_stop(true));
    assert!(!t.check_stop(false));
    t.reset_variables();
    assert_eq!(t.max_time(), Duration::max_value());
    let t = t.with_move_overhead(Duration::from_millis(5));
    assert_eq!(t.get_move_overhead(), Duration::from_millis(5));
    let mut d = Timer::new_dummy(std::sync::Arc::new(std::sync::atomic::AtomicBool::new(false)));
    d.set_max_time(Duration::zero());
    assert!(!d.check_stop(true));
    let stopper = std::sync::Arc::new(std::sync::atomic::AtomicBool::new(true));
    let mut s = Timer::new(stopper);
    assert!(s.check_stop(false));
    let mut u = Timer::default();
    u.update_max_time(12, 2000);
    assert!(!u.check_stop(true));
    let _ = u.time_elapsed();
    let _ = u.get_clock();
    u.reset_start_time();
}

#[test]
fn engine_properties_switches() {
    let mut e = EngineProperties::default();
    assert!(e.use_mate_distance_pruning() && e.clear_table_after_each_search() && e.use_lmr());
    e.set_using_mate_distance_pruning(false);
    e.set_clearing_table_after_each_search(false);
    e.set_using_lmr(false);
    assert!(!e.use_mate_distance_pruning() && !e.clear_table_after_each_search() && !e.use_lmr());
}

#[test]
fn mini_board_and_sub_board_agree_with_position() {
    let p = BoardPosition::from_fen(KIWIPETE).unwrap();
    let m = MiniBoard { position: p };
    let s = SubBoard { position: p };
    assert_eq!(m.get_fen(), KIWIPETE);
    assert_eq!(s.get_fen(), KIWIPETE);
    assert_eq!(m.occupied_co(Color::White), p.occupied_color(Color::White));
    assert_eq!(s.side_to_move(), Color::White);
    assert_eq!(s.king_square(Color::Black), Square::E8);
    assert_eq!(s.piece_on(Square::F3), Some(PieceType::Queen));
    assert_eq!(s.color_on(Square::F3), Some(Color::White));
    let (pieces, colors, turn, rights, ep) = m.transposition_key_components();
    assert_eq!(pieces[5], p.get_piece_mask(PieceType::King));
    assert_eq!(colors[1], p.get_black_occupied());
    assert_eq!(turn, Color::White);
    assert_eq!(rights, [CastleRights::Both, CastleRights::Both]);
    assert_eq!(ep, None);
    assert_eq!(m.get_attackers_mask(Square::E5, Color::Black), p.get_attackers_mask(Square::E5, Some(Color::Black)));
    let castle = Move::new(Square::E1, Square::G1, None);
    let after = m.make_move_new(castle);
    assert_eq!(after.get_fen(), "r3k2r/p1ppqpb1/bn2pnp1/3PN3/1p2P3/2N2Q1p/PPPBBPPP/R4RK1 b kq - 1 1");
    let mut s2 = s;
    s2.make_move(castle);
    assert_eq!(s2.get_fen(), after.get_fen());
    assert!(s.null_move().is_some());
    assert_eq!(MoveGen::perft_test(&s, 1), 48);
    let mut g = MoveGen::new_legal(&s);
    assert_eq!(g.len(), 48);
    assert!(g.remove_move(castle));
    assert_eq!(g.len(), 47);
    assert!(!g.remove_move(Move::new(Square::A3, Square::A4, None)));
    g.remove_mask(BitBoard(1u64 << 6));
    g.set_iterator_mask(p.get_black_occupied());
    assert_eq!(g.len(), 8);
    assert!(MoveGen::legal_quick(&s, Move::new(Square::E1, Square::D1, None)));
    let gen = MoveGenerator::new_legal(&p);
    assert_eq!(gen.len(), 48);
}

#[test]
fn null_moves_and_flips_compose() {
    let p = BoardPosition::from_fen(KIWIPETE).unwrap();
    let twice = p.null_move_unchecked().null_move_unchecked();
    assert_eq!(twice.get_fen(), "r3k2r/p1ppqpb1/bn2pnp1/3PN3/1p2P3/2N2Q1p/PPPBBPPP/R3K2R w KQkq - 2 3");
    assert_eq!(twice.get_hash(), p.get_hash());
    let mut f = p;
    f.flip_vertical();
    f.flip_vertical();
    assert_eq!(f.get_fen(), "r3k2r/p1ppqpb1/bn2pnp1/3PN3/1p2P3/2N2Q1p/PPPBBPPP/R3K2R w - - 0 1");
    let mut h = p;
    h.flip_horizontal();
    h.flip_horizontal();
    assert_eq!(h.get_fen(), f.get_fen());
    assert_eq!(Square::C2.horizontal_mirror().horizontal_mirror(), Square::C2);
    assert_eq!(Square::C2.vertical_mirror(), Square::F2);
    assert_eq!(Square::C2.horizontal_mirror(), Square::C7);
    assert_eq!(Color::White.flip().flip(), Color::White);
    let bb = BitBoard(0x0000_0000_0000_ff01);
    assert_eq!(bb.flip_vertical().flip_vertical(), bb);
    assert_eq!(bb.flip_vertical(), BitBoard(0x01ff_0000_0000_0000));
    assert_eq!(bb.flip_horizontal(), BitBoard(0x0000_0000_0000_ff80));
}

#[test]
fn same_position_same_hash() {
    let a = BoardPosition::from_fen("4k3/8/8/8/8/8/8/R3K3 w Q - 0 1").unwrap();
    let b = BoardPosition::from_fen("4k3/8/8/8/8/8/8/R3K3 w Q - 30 70").unwrap();
    assert_eq!(a.get_hash(), b.get_hash());
    let c = BoardPosition::from_fen("4k3/8/8/8/8/8/8/R3K3 b Q - 0 1").unwrap();
    assert_ne!(a.get_hash(), c.get_hash());
    assert_eq!(CastleRights::Both.remove(CastleRights::KingSide), CastleRights::QueenSide);
    assert_eq!(CastleRights::QueenSide.add(CastleRights::KingSide).remove(CastleRights::KingSide), CastleRights::QueenSide);
    assert_eq!(CastleRights::from_index(CastleRights::KingSide.to_index()), CastleRights::KingSide);
}

#[test]
fn legal_moves_leave_king_safe() {
    let p = BoardPosition::from_fen(KIWIPETE).unwrap();
    let gen = MoveGenerator::new_legal(&p);
    for m in gen.iter() {
        let after = p.make_move_new(m);
        let king = after.get_king_square(Color::White);
        assert!(!after.is_attacked_by(king, Color::Black));
    }
}

#[test]
fn len_counts_what_iteration_yields() {
    let p = BoardPosition::from_fen(START).unwrap();
    let mut gen = MoveGenerator::new_legal(&p);
    // the knights only, whose groups come after those of the pawns
    gen.set_iterator_masks(BitBoard((1u64 << 1) | (1u64 << 6)), BitBoard(u64::MAX));
    assert_eq!(gen.iter().len(), 4);
    assert_eq!(gen.len(), 4);
}

#[test]
fn error_messages() {
    assert_eq!(TimecatError::NoInput.message(false), "No input! Please try again!");
    assert_eq!(TimecatError::UnknownCommand.message(true), "Unknown UCI Command!\nPlease try again!");
    assert_eq!(TimecatError::UnknownCommand.message(false), "Unknown Console Command!\nPlease try again!");
    assert_eq!(TimecatError::InvalidDepth { depth: -128 }.message(false), "Invalid depth -128! Please try again!");
    assert_eq!(TimecatError::InvalidDepth { depth: 7 }.message(false), "Invalid depth 7! Please try again!");
    assert_eq!(
        TimecatError::InvalidPromotion { move_: Move::new(Square::E7, Square::E8, Some(PieceType::Queen)) }.message(false),
        "Invalid promotion for the move e7e8q!"
    );
    assert_eq!(
        TimecatError::FeatureNotEnabled { s: "colored".to_string() }.message(false),
        "The feature \"colored\" is not enabled. Please recompile the chess engine with this feature enabled!"
    );
    assert_eq!(
        TimecatError::IllegalMove { valid_or_null_move: None, board_fen: "8/8 w".to_string() }.message(false),
        "Illegal move -- in position 8/8 w! Please try again!"
    );
}

#[test]
fn masked_material_matches_material_scores() {
    let p = BoardPosition::from_fen(KIWIPETE).unwrap();
    let m = MiniBoard { position: p };
    let white = m.get_masked_material_score_abs(m.occupied_co(Color::White));
    let black = m.get_masked_material_score_abs(m.occupied_co(Color::Black));
    assert_eq!(white, m.get_white_material_score());
    assert_eq!(black, m.get_black_material_score());
    assert_eq!(m.get_masked_material_score_abs(BitBoard(u64::MAX)), white + black);
    assert_eq!(white, 8 * 100 + 2 * 320 + 2 * 330 + 2 * 500 + 900);
}

#[test]
fn legal_moves_keep_sanity_and_read_back_from_fen() {
    for fen in [START, KIWIPETE, "4k3/8/8/3q4/4P3/8/8/4K3 w - - 0 1", "r3k2r/8/8/8/3pP3/8/8/R3K2R b KQkq e3 0 1"] {
        let p = BoardPosition::from_fen(fen).unwrap();
        for m in MoveGenerator::new_legal(&p).iter() {
            let r = p.make_move_new(m);
            assert!(MiniBoard { position: r }.is_sane());
            let f = BoardPosition::from_fen(&r.get_fen()).unwrap();
            assert_eq!(f.get_hash(), r.get_hash());
            assert_eq!(f.get_pawn_hash(), r.get_pawn_hash());
            assert_eq!(f.get_white_material_score(), r.get_white_material_score());
            assert_eq!(f.get_black_material_score(), r.get_black_material_score());
            assert_eq!(f.get_checkers(), r.get_checkers());
            assert_eq!(f.pinned(), r.pinned());
        }
    }
}
