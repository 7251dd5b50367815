use timecat::board::Board;
use timecat::error::TimecatError;
use timecat::moves::Move;
use timecat::polyglot::move_to_polyglot_move_int;
use timecat::polyglot_book::PolyglotBookHashMap;
use timecat::polyglot_reader::PolyglotBookMemoryMappedReader;
use timecat::types::Square;

const START: &str = "rnbqkbnr/pppppppp/8/8/8/8/PPPPPPPP/RNBQKBNR w KQkq - 0 1";

fn record(hash: u64, m: Move, weight: u16, learn: u32) -> Vec<u8> {
    let mut v = hash.to_be_bytes().to_vec();
    v.extend_from_slice(&move_to_polyglot_move_int(m).unwrap().to_be_bytes());
    v.extend_from_slice(&weight.to_be_bytes());
    v.extend_from_slice(&learn.to_be_bytes());
    v
}

#[test]
fn book_reads_writes_and_sorts() {
    let board = Board::from_fen(START).unwrap();
    let h = board.get_mini_board().get_hash();
    let e4 = Move::new(Square::E2, Square::E4, None);
    let d4 = Move::new(Square::D2, Square::D4, None);
    let c4 = Move::new(Square::C2, Square::C4, None);
    let mut bytes = record(h, d4, 10, 0);
    bytes.extend(record(5, c4, 1, 7));
    bytes.extend(record(h, e4, 30, 0));
    let mut book = PolyglotBookHashMap::from_bytes(&bytes).unwrap();
    assert_eq!(book.len(), 2);
    assert!(!book.is_empty());
    let moves = book.get_all_weighted_moves(&board);
    assert_eq!(moves.len(), 2);
    assert_eq!(moves[0].move_, d4);
    assert_eq!(moves[0].weight, 10);
    book.sort_book();
    let best = book.get_best_weighted_move(&board).unwrap();
    assert_eq!(best.move_, e4);
    assert_eq!(best.weight, 30);
    let all = book.get_all_weighted_moves_with_hashes();
    assert_eq!(all.len(), 2);
    assert_eq!(all[&5][0].move_, c4);
    let out = book.to_bytes().unwrap();
    assert_eq!(out.len(), 48);
    let mut expected = record(5, c4, 1, 7);
    let (first, second) = if h < 5 { (record(h, e4, 30, 0), record(h, d4, 10, 0)) } else { (record(h, e4, 30, 0), record(h, d4, 10, 0)) };
    if h < 5 {
        let mut e = first;
        e.extend(second);
        e.extend(expected);
        expected = e;
    } else {
        expected.extend(first);
        expected.extend(second);
    }
    assert_eq!(out, expected);
    let again = PolyglotBookHashMap::from_bytes(&out).unwrap();
    assert_eq!(again.len(), 2);
    assert_eq!(again.get_best_weighted_move(&board).unwrap().move_, e4);
}

#[test]
fn empty_and_bad_books() {
    let book = PolyglotBookHashMap::from_bytes(&[]).unwrap();
    assert!(book.is_empty());
    assert_eq!(book.to_bytes().unwrap().len(), 0);
    let board = Board::from_fen(START).unwrap();
    assert!(book.get_best_weighted_move(&board).is_none());
    assert!(book.get_all_weighted_moves(&board).is_empty());
    let mut bad = 1u64.to_be_bytes().to_vec();
    bad.extend_from_slice(&(5u16 * 4096).to_be_bytes());
    bad.extend_from_slice(&[0, 1, 0, 0, 0, 0]);
    assert!(matches!(PolyglotBookHashMap::from_bytes(&bad), Err(TimecatError::BadPolyglotFile)));
}

#[test]
fn reading_a_sorted_book_in_place() {
    let board = Board::from_fen(START).unwrap();
    let h = board.get_mini_board().get_hash();
    assert!(h > 1 && h < u64::MAX);
    let e4 = Move::new(Square::E2, Square::E4, None);
    let d4 = Move::new(Square::D2, Square::D4, None);
    let c4 = Move::new(Square::C2, Square::C4, None);
    let mut bytes = record(1, c4, 5, 0);
    bytes.extend(record(h, e4, 30, 0));
    bytes.extend(record(h, d4, 10, 0));
    bytes.extend(record(u64::MAX, c4, 1, 0));
    let reader = PolyglotBookMemoryMappedReader::new(bytes.clone());
    assert_eq!(reader.get_bytes().len(), 64);
    assert_eq!(reader.find_first_matching_index(h).unwrap(), Some(1));
    assert_eq!(reader.find_first_matching_index(h - 1).unwrap(), None);
    // a hash at or below the first record's makes the search fail
    assert!(matches!(reader.find_first_matching_index(1), Err(TimecatError::BadPolyglotFile)));
    assert!(matches!(reader.find_first_matching_index(0), Err(TimecatError::BadPolyglotFile)));
    let moves = reader.get_all_weighted_moves(&board).unwrap();
    assert_eq!(moves.len(), 2);
    assert_eq!(moves[0].move_, e4);
    assert_eq!(moves[0].weight, 30);
    assert_eq!(moves[1].move_, d4);
    let best = reader.get_best_weighted_move(&board).unwrap();
    assert_eq!(best.move_, e4);
    let book = reader.to_polyglot_hashmap().unwrap();
    assert_eq!(book.len(), 3);
    let empty = PolyglotBookMemoryMappedReader::new(Vec::new());
    assert!(matches!(empty.find_first_matching_index(h), Err(TimecatError::BadPolyglotFile)));
    assert!(empty.get_best_weighted_move(&board).is_none());
}
