//! Searching an opening book in place, in the bytes of its file: the records are taken to be
//! ordered by position hash, and the first record of a hash is found by bisection.
use vstd::prelude::*;
use crate::board::Board;
use crate::error::TimecatError;
use crate::polyglot::polyglot_move_int_to_move;
use crate::polyglot_book::{read_be, record_entry, record_hash, weighted, PolyglotBookHashMap, book_upto};
use crate::sort::WeightedMove;

verus! {

/// The number of whole records of the book bytes `b`.
pub open spec fn record_count(b: Seq<u8>) -> int {
    (b.len() / 16) as int
}

/// The bisection for the first record of hash `target` among records `start..=end`, with
/// `found` the first such record seen so far: the middle record is compared with the target,
/// and the half it leaves open is searched; going below the first record fails (`None`).
pub open spec fn first_match_from(b: Seq<u8>, target: u64, start: int, end: int, found: Option<int>) -> Option<Option<int>>
    decreases end - start + 1,
{
    if start > end {
        Some(found)
    } else {
        let mid = start + (end - start) / 2;
        let h = record_hash(b, mid);
        if h == target {
            if mid == 0 { None } else { first_match_from(b, target, start, mid - 1, Some(mid)) }
        } else if h < target {
            first_match_from(b, target, mid + 1, end, found)
        } else {
            if mid == 0 { None } else { first_match_from(b, target, start, mid - 1, found) }
        }
    }
}

/// The bisection over all the records of `b` (see `first_match_from`); a book without a
/// whole record fails.
pub open spec fn find_first_spec(b: Seq<u8>, target: u64) -> Option<Option<int>> {
    if record_count(b) == 0 {
        None
    } else {
        first_match_from(b, target, 0, record_count(b) - 1, None)
    }
}

/// The weighted moves of the records of hash `target` from record `i` on, up to the first
/// record of another hash, after those of `acc`; `None` when a move code names no move.
pub open spec fn gather_from(b: Seq<u8>, target: u64, i: int, acc: Seq<WeightedMove>) -> Option<Seq<WeightedMove>>
    decreases record_count(b) - i,
{
    if i < 0 || i >= record_count(b) || record_hash(b, i) != target {
        Some(acc)
    } else {
        match record_entry(b, i) {
            None => None,
            Some(e) => gather_from(b, target, i + 1, acc.push(weighted(e))),
        }
    }
}

/// The first record of hash `target` among records `i..` of `b`.
pub open spec fn first_with(b: Seq<u8>, target: u64, i: int) -> Option<int>
    decreases record_count(b) - i,
{
    if i < 0 || i >= record_count(b) {
        None
    } else if record_hash(b, i) == target {
        Some(i)
    } else {
        first_with(b, target, i + 1)
    }
}

/// The records of `b` are in order of hash.
pub open spec fn sorted_by_hash(b: Seq<u8>) -> bool {
    forall|i: int, j: int| 0 <= i <= j < record_count(b) ==> record_hash(b, i) <= record_hash(b, j)
}

pub open spec fn option_int(o: Option<u64>) -> Option<int> {
    match o {
        Some(k) => Some(k as int),
        None => None,
    }
}

/// An opening book held as the bytes of its file, read in place.
#[derive(Clone, Debug)]
pub struct PolyglotBookMemoryMappedReader {
    pub bytes: Vec<u8>,
}

impl PolyglotBookMemoryMappedReader {
    /// A reader of the book bytes `bytes`.
    pub fn new(bytes: Vec<u8>) -> (r: PolyglotBookMemoryMappedReader)
        ensures
            r.bytes@ == bytes@,
    {
        PolyglotBookMemoryMappedReader { bytes }
    }

    /// The bytes of the book.
    pub fn get_bytes(&self) -> (r: &Vec<u8>)
        ensures
            r@ == self.bytes@,
    {
        &self.bytes
    }

    /// The first record of hash `target` by bisection (see `find_first_spec`); a failed search
    /// is a bad book.
    pub fn find_first_matching_index(&self, target: u64) -> (r: Result<Option<u64>, TimecatError>)
        ensures
            match find_first_spec(self.bytes@, target) {
                None => r matches Err(TimecatError::BadPolyglotFile),
                Some(o) => r matches Ok(x) && option_int(x) == o,
            },
    {
        let ghost b = self.bytes@;
        let len = self.bytes.len();
        let n: usize = len / 16;
        if n == 0 {
            return Err(TimecatError::BadPolyglotFile);
        }
        let mut start: usize = 0;
        let mut end: usize = n - 1;
        let mut found: Option<u64> = None;
        while start <= end
            invariant
                b == self.bytes@,
                len == b.len(),
                n == record_count(b),
                end < n,
                start <= end + 1,
                find_first_spec(b, target) == first_match_from(b, target, start as int, end as int, option_int(found)),
            decreases end + 1 - start,
        {
            let mid = start + (end - start) / 2;
            assert(16 * mid + 16 <= b.len()) by (nonlinear_arith)
                requires
                    mid < n,
                    n == b.len() / 16,
            ;
            let h = read_be(self.bytes.as_slice(), 16 * mid, 8);
            assert(h == record_hash(b, mid as int));
            if h == target {
                if mid == 0 {
                    return Err(TimecatError::BadPolyglotFile);
                }
                found = Some(mid as u64);
                end = mid - 1;
            } else if h < target {
                start = mid + 1;
            } else {
                if mid == 0 {
                    return Err(TimecatError::BadPolyglotFile);
                }
                end = mid - 1;
            }
        }
        Ok(found)
    }

    /// The moves the book has for the current position of `board`, with their weights: those
    /// of the records of its hash from the first the bisection finds on (see `gather_from`).
    pub fn get_all_weighted_moves(&self, board: &Board) -> (r: Result<Vec<WeightedMove>, TimecatError>)
        ensures
            ({
                let t = board.current().position.hash_spec();
                match find_first_spec(self.bytes@, t) {
                    None => r matches Err(TimecatError::BadPolyglotFile),
                    Some(None) => r matches Ok(v) && v@.len() == 0,
                    Some(Some(k)) => match gather_from(self.bytes@, t, k, Seq::empty()) {
                        None => r matches Err(TimecatError::BadPolyglotFile),
                        Some(ms) => r matches Ok(v) && v@ == ms,
                    },
                }
            }),
    {
        let ghost b = self.bytes@;
        let target = board.get_mini_board().get_hash();
        let mut moves: Vec<WeightedMove> = Vec::new();
        let first = match self.find_first_matching_index(target) {
            Err(e) => return Err(e),
            Ok(None) => return Ok(moves),
            Ok(Some(k)) => k,
        };
        let len = self.bytes.len();
        let n: usize = len / 16;
        proof {
            lemma_found_in_range(b, target);
        }
        let mut idx: usize = first as usize;
        while idx < n
            invariant
                b == self.bytes@,
                len == b.len(),
                target == board.current().position.hash_spec(),
                n == record_count(b),
                first as int <= idx,
                find_first_spec(b, target) == Some(Some(first as int)),
                gather_from(b, target, first as int, Seq::empty()) == gather_from(b, target, idx as int, moves@),
            decreases n - idx,
        {
            assert(16 * idx + 16 <= b.len()) by (nonlinear_arith)
                requires
                    idx < n,
                    n == b.len() / 16,
            ;
            let at = 16 * idx;
            let hash = read_be(self.bytes.as_slice(), at, 8);
            if hash != target {
                return Ok(moves);
            }
            proof {
                crate::polyglot_book::lemma_be_small(b, 16 * idx + 8, 2);
                crate::polyglot_book::lemma_be_small(b, 16 * idx + 10, 2);
            }
            let move_int = read_be(self.bytes.as_slice(), at + 8, 2) as u16;
            let weight = read_be(self.bytes.as_slice(), at + 10, 2) as u16;
            match polyglot_move_int_to_move(move_int) {
                Err(e) => return Err(e),
                Ok(m) => {
                    moves.push(WeightedMove::new(m, weight as i64));
                },
            }
            idx = idx + 1;
        }
        Ok(moves)
    }

    /// The first move the book has for the current position of `board`: that of the first
    /// record of its hash the bisection finds, when the search succeeds and its move code
    /// names a move.
    pub fn get_best_weighted_move(&self, board: &Board) -> (r: Option<WeightedMove>)
        ensures
            r == match find_first_spec(self.bytes@, board.current().position.hash_spec()) {
                Some(Some(k)) => match record_entry(self.bytes@, k) {
                    Some(e) => Some(weighted(e)),
                    None => None,
                },
                _ => None,
            },
    {
        let ghost b = self.bytes@;
        let target = board.get_mini_board().get_hash();
        let k = match self.find_first_matching_index(target) {
            Ok(Some(k)) => k,
            _ => return None,
        };
        proof {
            assert(k < record_count(b)) by {
                lemma_found_in_range(b, target);
            }
        }
        let len = self.bytes.len();
        let n: usize = len / 16;
        let ku = k as usize;
        assert(16 * ku + 16 <= b.len()) by (nonlinear_arith)
            requires
                ku < n,
                n == b.len() / 16,
        ;
        let at = 16 * ku;
        proof {
            crate::polyglot_book::lemma_be_small(b, 16 * ku + 8, 2);
            crate::polyglot_book::lemma_be_small(b, 16 * ku + 10, 2);
        }
        let move_int = read_be(self.bytes.as_slice(), at + 8, 2) as u16;
        let weight = read_be(self.bytes.as_slice(), at + 10, 2) as u16;
        match polyglot_move_int_to_move(move_int) {
            Ok(m) => Some(WeightedMove::new(m, weight as i64)),
            Err(_) => None,
        }
    }

    /// The whole book, record by record (see `PolyglotBookHashMap::from_bytes`).
    pub fn to_polyglot_hashmap(&self) -> (r: Result<PolyglotBookHashMap, TimecatError>)
        requires
            self.bytes@.len() % 16 == 0,
        ensures
            match book_upto(self.bytes@, (self.bytes@.len() / 16) as int) {
                Some(m) => r matches Ok(h) && h.wf() && h.book() == m,
                None => r matches Err(TimecatError::BadPolyglotFile),
            },
    {
        PolyglotBookHashMap::from_bytes(self.bytes.as_slice())
    }
}

/// A record the bisection finds is one of the book's.
proof fn lemma_found_in_range(b: Seq<u8>, target: u64)
    ensures
        find_first_spec(b, target) matches Some(Some(k)) ==> 0 <= k < record_count(b),
{
    if record_count(b) > 0 {
        lemma_match_in_range(b, target, 0, record_count(b) - 1, None);
    }
}

proof fn lemma_match_in_range(b: Seq<u8>, target: u64, start: int, end: int, found: Option<int>)
    requires
        0 <= start,
        end < record_count(b),
        found matches Some(k) ==> 0 <= k < record_count(b),
    ensures
        first_match_from(b, target, start, end, found) matches Some(Some(k)) ==> 0 <= k < record_count(b),
    decreases end - start + 1,
{
    if start <= end {
        let mid = start + (end - start) / 2;
        if mid > 0 {
            lemma_match_in_range(b, target, start, mid - 1, Some(mid));
            lemma_match_in_range(b, target, start, mid - 1, found);
        }
        lemma_match_in_range(b, target, mid + 1, end, found);
    }
}

/// In a book in order of hash, a search from the first record for a hash no greater than the
/// first record's fails.
proof fn lemma_search_low(b: Seq<u8>, target: u64, end: int, found: Option<int>)
    requires
        sorted_by_hash(b),
        0 <= end < record_count(b),
        target <= record_hash(b, 0),
    ensures
        first_match_from(b, target, 0, end, found) is None,
    decreases end,
{
    let mid = end / 2;
    assert(record_hash(b, 0) <= record_hash(b, mid));
    if mid > 0 {
        lemma_search_low(b, target, mid - 1, Some(mid));
        lemma_search_low(b, target, mid - 1, found);
    }
}

/// Skipping records of other hashes does not change the first record of a hash.
proof fn lemma_first_with_skip(b: Seq<u8>, target: u64, j: int, s: int)
    requires
        0 <= j <= s,
        forall|i: int| j <= i < s ==> record_hash(b, i) != target,
    ensures
        first_with(b, target, j) == first_with(b, target, s),
    decreases s - j,
{
    if j < s {
        lemma_first_with_skip(b, target, j + 1, s);
    }
}

/// With no record of a hash from `j` on, there is no first one.
proof fn lemma_first_with_none(b: Seq<u8>, target: u64, j: int)
    requires
        0 <= j,
        forall|i: int| j <= i < record_count(b) ==> record_hash(b, i) != target,
    ensures
        first_with(b, target, j) is None,
    decreases record_count(b) - j,
{
    if j < record_count(b) {
        lemma_first_with_none(b, target, j + 1);
    }
}

/// In a book in order of hash, a search for a hash greater than the first record's finds
/// the first record of that hash, keeping what it has learnt: the records before `start`
/// are below the target, those after `end` above it unless `found` is the record right
/// after `end`, which holds the target.
proof fn lemma_search_high(b: Seq<u8>, target: u64, start: int, end: int, found: Option<int>)
    requires
        sorted_by_hash(b),
        record_count(b) >= 1,
        record_hash(b, 0) < target,
        0 <= start <= end + 1,
        end < record_count(b),
        start == 0 || record_hash(b, start - 1) < target,
        found is None ==> (end + 1 == record_count(b) || record_hash(b, end + 1) > target),
        found matches Some(k) ==> k == end + 1 && k < record_count(b) && record_hash(b, k) == target,
    ensures
        first_match_from(b, target, start, end, found) == Some(first_with(b, target, 0)),
    decreases end - start + 1,
{
    if start > end {
        assert forall|i: int| 0 <= i < start implies record_hash(b, i) != target by {
            assert(record_hash(b, i) <= record_hash(b, start - 1));
        }
        lemma_first_with_skip(b, target, 0, start);
        match found {
            Some(k) => {
                assert(first_with(b, target, start) == Some(start));
            },
            None => {
                assert forall|i: int| start <= i < record_count(b) implies record_hash(b, i) != target by {
                    assert(record_hash(b, end + 1) <= record_hash(b, i));
                }
                lemma_first_with_none(b, target, start);
            },
        }
    } else {
        let mid = start + (end - start) / 2;
        let h = record_hash(b, mid);
        assert(record_hash(b, 0) <= h);
        if h == target {
            lemma_search_high(b, target, start, mid - 1, Some(mid));
        } else if h < target {
            lemma_search_high(b, target, mid + 1, end, found);
        } else {
            if let Some(k) = found {
                assert(h <= record_hash(b, k));
            }
            lemma_search_high(b, target, start, mid - 1, found);
        }
    }
}

/// In a book whose records are in order of hash, the bisection fails exactly when the hash
/// sought is no greater than the first record's; otherwise it finds the first record of that
/// hash, or none when the book has none.
pub proof fn law_sorted_book_search(b: Seq<u8>, target: u64)
    requires
        record_count(b) >= 1,
        sorted_by_hash(b),
    ensures
        find_first_spec(b, target) == if target <= record_hash(b, 0) {
            None
        } else {
            Some(first_with(b, target, 0))
        },
{
    if target <= record_hash(b, 0) {
        lemma_search_low(b, target, record_count(b) - 1, None);
    } else {
        lemma_search_high(b, target, 0, record_count(b) - 1, None);
    }
}

} // verus!
