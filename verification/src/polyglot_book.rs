//! Opening books in the polyglot format: records of sixteen bytes, each a position hash, a
//! move, a weight and a learn value, all big-endian; kept as the entries of each hash.
use vstd::prelude::*;
use std::cmp::Reverse;
use std::collections::HashMap;
use crate::board::Board;
use crate::error::TimecatError;
use crate::moves::Move;
use crate::polyglot::{move_to_polyglot_move_int, polyglot_code, polyglot_move_int_to_move, polyglot_promotion};
use crate::sort::WeightedMove;
use crate::types::square_at;

verus! {

broadcast use vstd::std_specs::hash::group_hash_axioms, vstd::seq_lib::group_to_multiset_ensures;

/// One move of a book: the move, its weight, and the learn value the format carries along.
#[derive(Clone, Copy, PartialEq, Eq, Debug, Structural)]
pub struct PolyglotBookEntry {
    pub move_: Move,
    pub weight: u16,
    pub learn: u32,
}

impl PolyglotBookEntry {
    /// The move with its weight.
    pub fn get_weighted_move(&self) -> (r: WeightedMove)
        ensures
            r == weighted(*self),
    {
        WeightedMove::new(self.move_, self.weight as i64)
    }
}

/// The move of an entry, with the entry's weight.
pub open spec fn weighted(e: PolyglotBookEntry) -> WeightedMove {
    WeightedMove { move_: e.move_, weight: e.weight as i64 }
}

/// The number the `n` bytes of `b` from `start` on write, most significant first.
pub open spec fn be_value(b: Seq<u8>, start: int, n: int) -> int
    decreases n,
{
    if n <= 0 {
        0
    } else {
        be_value(b, start, n - 1) * 256 + b[start + n - 1]
    }
}

/// 256 to the power `n`.
pub open spec fn pow256(n: nat) -> int
    decreases n,
{
    if n == 0 {
        1
    } else {
        256 * pow256((n - 1) as nat)
    }
}

proof fn lemma_be_bound(b: Seq<u8>, start: int, n: nat)
    ensures
        0 <= be_value(b, start, n as int) < pow256(n),
    decreases n,
{
    if n > 0 {
        lemma_be_bound(b, start, (n - 1) as nat);
        let v = be_value(b, start, n - 1);
        let x = b[start + n - 1];
        assert(v * 256 + x < pow256(n)) by (nonlinear_arith)
            requires
                0 <= v < pow256((n - 1) as nat),
                0 <= x < 256,
                pow256(n) == 256 * pow256((n - 1) as nat),
        ;
        assert(v * 256 + x >= 0) by (nonlinear_arith)
            requires
                0 <= v,
                0 <= x,
        ;
    }
}

/// The number the `n` bytes of `b` from `start` on write, most significant first.
pub(crate) fn read_be(b: &[u8], start: usize, n: usize) -> (r: u64)
    requires
        start + n <= b@.len(),
        n <= 8,
    ensures
        r == be_value(b@, start as int, n as int),
{
    assert(pow256(8) == 18446744073709551616) by {
        reveal_with_fuel(pow256, 9);
    }
    let len = b.len();
    let mut v: u64 = 0;
    let mut k: usize = 0;
    while k < n
        invariant
            k <= n,
            n <= 8,
            len == b@.len(),
            start + n <= b@.len(),
            v == be_value(b@, start as int, k as int),
            pow256(8) == 18446744073709551616,
        decreases n - k,
    {
        proof {
            lemma_be_bound(b@, start as int, (k + 1) as nat);
            lemma_pow256_mono((k + 1) as nat, 8);
        }
        v = v * 256 + b[start + k] as u64;
        k = k + 1;
    }
    v
}

/// Two bytes write a number below 65536.
pub(crate) proof fn lemma_be_small(b: Seq<u8>, start: int, n: int)
    requires
        n == 2,
    ensures
        0 <= be_value(b, start, n) < 65536,
{
    lemma_be_bound(b, start, 2);
    assert(pow256(2) == 65536) by {
        reveal_with_fuel(pow256, 3);
    }
}

proof fn lemma_pow256_mono(a: nat, c: nat)
    requires
        a <= c,
    ensures
        pow256(a) <= pow256(c),
    decreases c,
{
    if a < c {
        lemma_pow256_mono(a, (c - 1) as nat);
        assert(pow256((c - 1) as nat) >= 1) by {
            lemma_pow256_pos((c - 1) as nat);
        }
    }
}

proof fn lemma_pow256_pos(a: nat)
    ensures
        pow256(a) >= 1,
    decreases a,
{
    if a > 0 {
        lemma_pow256_pos((a - 1) as nat);
    }
}

/// The hash of record `i` of the book bytes `b`.
pub open spec fn record_hash(b: Seq<u8>, i: int) -> u64 {
    be_value(b, 16 * i, 8) as u64
}

/// The entry of record `i` of the book bytes `b`, when its move code is one.
pub open spec fn record_entry(b: Seq<u8>, i: int) -> Option<PolyglotBookEntry> {
    let code = be_value(b, 16 * i + 8, 2);
    if code / 4096 > 4 {
        None
    } else {
        Some(
            PolyglotBookEntry {
                move_: Move {
                    source: square_at((code / 64) % 64),
                    dest: square_at(code % 64),
                    promotion: polyglot_promotion(code / 4096),
                },
                weight: be_value(b, 16 * i + 10, 2) as u16,
                learn: be_value(b, 16 * i + 12, 4) as u32,
            },
        )
    }
}

/// The entries of each hash after the first `n` records of `b`, in the order read; nothing
/// when a record's move code is none.
pub open spec fn book_upto(b: Seq<u8>, n: int) -> Option<Map<u64, Seq<PolyglotBookEntry>>>
    decreases n,
{
    if n <= 0 {
        Some(Map::empty())
    } else {
        match book_upto(b, n - 1) {
            None => None,
            Some(m) => match record_entry(b, n - 1) {
                None => None,
                Some(e) => {
                    let h = record_hash(b, n - 1);
                    Some(m.insert(h, (if m.contains_key(h) { m[h] } else { Seq::empty() }).push(e)))
                },
            },
        }
    }
}

/// An opening book: the entries of each position hash, and the hashes in the order first
/// read.
#[derive(Clone, Debug)]
pub struct PolyglotBookHashMap {
    entries_map: HashMap<u64, Vec<PolyglotBookEntry>>,
    keys: Vec<u64>,
}

impl PolyglotBookHashMap {
    /// The entries of each hash.
    pub closed spec fn book(self) -> Map<u64, Seq<PolyglotBookEntry>> {
        Map::new(|k: u64| self.entries_map@.contains_key(k), |k: u64| self.entries_map@[k]@)
    }

    /// The hashes are listed once each, exactly those of the book.
    pub closed spec fn wf(self) -> bool {
        &&& self.keys@.no_duplicates()
        &&& forall|k: u64| self.entries_map@.contains_key(k) <==> self.keys@.contains(k)
    }

    /// The book the bytes `value` hold, record by record; a record whose move code names no
    /// move makes the book bad.
    pub fn from_bytes(value: &[u8]) -> (r: Result<PolyglotBookHashMap, TimecatError>)
        requires
            value@.len() % 16 == 0,
        ensures
            match book_upto(value@, (value@.len() / 16) as int) {
                Some(m) => r matches Ok(b) && b.wf() && b.book() == m,
                None => r matches Err(TimecatError::BadPolyglotFile),
            },
    {
        let total = value.len();
        let n = total / 16;
        let mut entries_map: HashMap<u64, Vec<PolyglotBookEntry>> = HashMap::new();
        let mut keys: Vec<u64> = Vec::new();
        let mut k: usize = 0;
        while k < n
            invariant
                k <= n,
                total == value@.len(),
                n == value@.len() / 16,
                value@.len() % 16 == 0,
                book_upto(value@, k as int) is Some,
                Map::new(|h: u64| entries_map@.contains_key(h), |h: u64| entries_map@[h]@) == book_upto(value@, k as int)->0,
                keys@.no_duplicates(),
                forall|h: u64| entries_map@.contains_key(h) <==> keys@.contains(h),
            decreases n - k,
        {
            assert(16 * k + 16 <= value@.len()) by (nonlinear_arith)
                requires
                    k < n,
                    n == value@.len() / 16,
                    value@.len() % 16 == 0,
            ;
            let at = 16 * k;
            let hash = read_be(value, at, 8);
            let code = read_be(value, at + 8, 2) as u16;
            let weight = read_be(value, at + 10, 2) as u16;
            let learn = read_be(value, at + 12, 4) as u32;
            proof {
                lemma_be_bound(value@, at + 8, 2);
                lemma_be_bound(value@, at + 10, 2);
                lemma_be_bound(value@, at + 12, 4);
                reveal_with_fuel(pow256, 5);
                assert(pow256(2) == 65536);
                assert(pow256(4) == 4294967296);
            }
            let move_ = match polyglot_move_int_to_move(code) {
                Ok(m) => m,
                Err(e) => {
                    proof {
                        assert(record_entry(value@, k as int) is None);
                        lemma_book_upto_none(value@, k as int + 1, n as int);
                    }
                    return Err(e);
                },
            };
            let entry = PolyglotBookEntry { move_, weight, learn };
            let ghost before = Map::new(|h: u64| entries_map@.contains_key(h), |h: u64| entries_map@[h]@);
            proof {
                assert(record_entry(value@, k as int) == Some(entry));
                assert(record_hash(value@, k as int) == hash);
            }
            let ghost old_keys = keys@;
            let ghost old_map = entries_map@;
            match entries_map.remove(&hash) {
                Some(list) => {
                    let mut list = list;
                    let ghost l0 = list@;
                    list.push(entry);
                    entries_map.insert(hash, list);
                    proof {
                        assert(old_map.contains_key(hash) && old_map[hash]@ == l0);
                        assert(entries_map@ == old_map.insert(hash, list));
                    }
                },
                None => {
                    let single = vec![entry];
                    entries_map.insert(hash, single);
                    proof {
                        assert(!old_map.contains_key(hash));
                        assert(!keys@.contains(hash));
                        assert(entries_map@ == old_map.insert(hash, single));
                    }
                    keys.push(hash);
                    proof {
                        assert(keys@ == old_keys.push(hash));
                        assert forall|h: u64| entries_map@.contains_key(h) <==> keys@.contains(h) by {
                            if h != hash {
                                if old_keys.contains(h) {
                                    let i = choose|i: int| 0 <= i < old_keys.len() && old_keys[i] == h;
                                    assert(keys@[i] == h);
                                }
                                if keys@.contains(h) {
                                    let i = choose|i: int| 0 <= i < keys@.len() && keys@[i] == h;
                                    assert(i < old_keys.len());
                                    assert(old_keys[i] == h);
                                }
                            } else {
                                assert(keys@[old_keys.len() as int] == hash);
                            }
                        }
                    }
                },
            }
            proof {
                let after = Map::new(|h: u64| entries_map@.contains_key(h), |h: u64| entries_map@[h]@);
                let expected = before.insert(hash, (if before.contains_key(hash) { before[hash] } else { Seq::empty() }).push(entry));
                assert forall|h: u64| #[trigger] after.contains_key(h) == expected.contains_key(h) by {}
                assert forall|h: u64| after.contains_key(h) implies #[trigger] after[h] == expected[h] by {
                    if h == hash {
                        if before.contains_key(hash) {
                            assert(after[h] == before[hash].push(entry));
                        } else {
                            assert(after[h] =~= seq![entry]);
                            assert(Seq::<PolyglotBookEntry>::empty().push(entry) =~= seq![entry]);
                        }
                    }
                }
                assert(after =~= expected);
            }
            k = k + 1;
        }
        Ok(PolyglotBookHashMap { entries_map, keys })
    }

    /// The hashes of the book, each once, in the order first read.
    pub closed spec fn hashes(self) -> Seq<u64> {
        self.keys@
    }

    /// The number of positions the book has moves for.
    pub fn len(&self) -> (r: usize)
        requires
            self.wf(),
        ensures
            r == self.hashes().len(),
    {
        self.keys.len()
    }

    /// Does the book have no position?
    pub fn is_empty(&self) -> (r: bool)
        requires
            self.wf(),
        ensures
            r == (self.hashes().len() == 0),
    {
        self.keys.len() == 0
    }

    /// Order the entries of each position by weight, heaviest first.
    pub fn sort_book(&mut self)
        requires
            old(self).wf(),
        ensures
            final(self).wf(),
            final(self).hashes() == old(self).hashes(),
            final(self).book().dom() == old(self).book().dom(),
            forall|h: u64| #[trigger] final(self).book().contains_key(h) ==> final(self).book()[h].to_multiset()
                == old(self).book()[h].to_multiset() && heaviest_first(final(self).book()[h]),
    {
        let ghost start = self.book();
        let mut k: usize = 0;
        while k < self.keys.len()
            invariant
                k <= self.keys@.len(),
                self.wf(),
                self.keys@ == old(self).keys@,
                self.book().dom() == start.dom(),
                forall|h: u64| #[trigger] self.book().contains_key(h) ==> self.book()[h].to_multiset() == start[h].to_multiset(),
                forall|i: int| 0 <= i < k ==> heaviest_first(#[trigger] self.book()[self.keys@[i]]),
                forall|h: u64| self.book().contains_key(h) && !self.keys@.take(k as int).contains(h) ==> #[trigger] self.book()[h]
                    == start[h],
            decreases self.keys.len() - k,
        {
            let hash = self.keys[k];
            let ghost before = self.book();
            proof {
                assert(self.keys@.contains(hash));
            }
            proof {
                assert(self.entries_map@.contains_key(hash));
            }
            match self.entries_map.remove(&hash) {
                Some(list) => {
                    let mut list = list;
                    sort_by_weight(&mut list);
                    self.entries_map.insert(hash, list);
                    proof {
                        assert(self.book()[hash] == list@);
                        assert(heaviest_first(self.book()[hash]));
                    }
                },
                None => {},
            }
            proof {
                let after = self.book();
                assert(after.dom() =~= before.dom());
                assert forall|h: u64| after.contains_key(h) && h != hash implies #[trigger] after[h] == before[h] by {}
                assert forall|i: int| 0 <= i < k + 1 implies heaviest_first(#[trigger] after[self.keys@[i]]) by {
                    if i < k {
                        assert(self.keys@[i] != hash) by {
                            assert(self.keys@.no_duplicates());
                        }
                        assert(self.keys@.contains(self.keys@[i]));
                        assert(before.contains_key(self.keys@[i]));
                        assert(after[self.keys@[i]] == before[self.keys@[i]]);
                    }
                }
                assert forall|h: u64| after.contains_key(h) && !self.keys@.take(k + 1).contains(h) implies #[trigger] after[h]
                    == start[h] by {
                    assert(self.keys@.take(k + 1)[k as int] == hash);
                    if self.keys@.take(k as int).contains(h) {
                        let i = choose|i: int| 0 <= i < k && self.keys@.take(k as int)[i] == h;
                        assert(self.keys@.take(k + 1)[i] == h);
                    }
                }
            }
            k = k + 1;
        }
        proof {
            assert forall|h: u64| #[trigger] self.book().contains_key(h) implies heaviest_first(self.book()[h]) by {
                assert(self.keys@.contains(h));
                let i = choose|i: int| 0 <= i < self.keys@.len() && self.keys@[i] == h;
                assert(heaviest_first(self.book()[self.keys@[i]]));
            }
        }
    }

    /// The moves of each position with their weights.
    pub fn get_all_weighted_moves_with_hashes(&self) -> (r: HashMap<u64, Vec<WeightedMove>>)
        requires
            self.wf(),
        ensures
            forall|h: u64| #[trigger] r@.contains_key(h) == self.book().contains_key(h),
            forall|h: u64| #[trigger] r@.contains_key(h) ==> r@[h]@ == self.book()[h].map_values(|e: PolyglotBookEntry| weighted(e)),
    {
        let mut r: HashMap<u64, Vec<WeightedMove>> = HashMap::new();
        let mut k: usize = 0;
        while k < self.keys.len()
            invariant
                k <= self.keys@.len(),
                self.wf(),
                forall|h: u64| #[trigger] r@.contains_key(h) == self.keys@.take(k as int).contains(h),
                forall|h: u64| #[trigger] r@.contains_key(h) ==> r@[h]@ == self.book()[h].map_values(|e: PolyglotBookEntry| weighted(e)),
            decreases self.keys.len() - k,
        {
            let hash = self.keys[k];
            proof {
                assert(self.keys@.contains(hash));
            }
            let moves = match self.entries_map.get(&hash) {
                Some(list) => weighted_moves(list),
                None => Vec::new(),
            };
            r.insert(hash, moves);
            proof {
                assert forall|h: u64| #[trigger] r@.contains_key(h) == self.keys@.take(k + 1).contains(h) by {
                    assert(self.keys@.take(k + 1)[k as int] == hash);
                    if self.keys@.take(k as int).contains(h) {
                        let i = choose|i: int| 0 <= i < k && self.keys@.take(k as int)[i] == h;
                        assert(self.keys@.take(k + 1)[i] == h);
                    }
                    if self.keys@.take(k + 1).contains(h) && h != hash {
                        let i = choose|i: int| 0 <= i < k + 1 && #[trigger] self.keys@.take(k + 1)[i] == h;
                        assert(self.keys@.take(k as int)[i] == h);
                    }
                }
            }
            k = k + 1;
        }
        proof {
            assert(self.keys@.take(self.keys@.len() as int) =~= self.keys@);
        }
        r
    }


    /// The records of the book, hash by hash in the order first read.
    pub closed spec fn records(self) -> Seq<(u64, PolyglotBookEntry)> {
        records_upto(self.keys@, self.book(), self.keys@.len() as int)
    }

    /// The book written as polyglot bytes: the records by hash, and for one hash heaviest
    /// first; an entry whose move has no polyglot code (a promotion to a pawn or a king) is an
    /// error.
    pub fn to_bytes(&self) -> (r: Result<Vec<u8>, TimecatError>)
        requires
            self.wf(),
        ensures
            r is Err <==> exists|i: int| 0 <= i < self.records().len() && polyglot_code(
                (#[trigger] self.records()[i]).1.move_.promotion,
            ) is None,
            r matches Err(e) ==> e is PolyglotTableParseError,
            r matches Ok(bytes) ==> exists|recs: Seq<(u64, PolyglotBookEntry)>| #[trigger] records_in_order(recs)
                && recs.to_multiset() == self.records().to_multiset() && bytes@ == records_bytes(recs),
    {
        let mut recs: Vec<(u64, PolyglotBookEntry)> = Vec::new();
        let mut k: usize = 0;
        while k < self.keys.len()
            invariant
                k <= self.keys@.len(),
                self.wf(),
                recs@ == records_upto(self.keys@, self.book(), k as int),
            decreases self.keys.len() - k,
        {
            let hash = self.keys[k];
            proof {
                assert(self.keys@.contains(hash));
            }
            match self.entries_map.get(&hash) {
                Some(list) => {
                    let ghost base = recs@;
                    let mut j: usize = 0;
                    while j < list.len()
                        invariant
                            j <= list@.len(),
                            recs@ == base + list@.take(j as int).map_values(|e: PolyglotBookEntry| (hash, e)),
                        decreases list.len() - j,
                    {
                        recs.push((hash, list[j]));
                        proof {
                            assert(list@.take(j + 1).map_values(|e: PolyglotBookEntry| (hash, e)) =~= list@.take(j as int).map_values(
                                |e: PolyglotBookEntry| (hash, e),
                            ).push((hash, list@[j as int])));
                        }
                        j = j + 1;
                    }
                    proof {
                        assert(list@.take(list@.len() as int) =~= list@);
                        assert(self.book()[hash] == list@);
                    }
                },
                None => {},
            }
            k = k + 1;
        }
        let ghost all = recs@;
        sort_records(&mut recs);
        let mut out: Vec<u8> = Vec::new();
        let mut i: usize = 0;
        while i < recs.len()
            invariant
                i <= recs@.len(),
                out@ == records_bytes(recs@.take(i as int)),
                forall|j: int| 0 <= j < i ==> polyglot_code((#[trigger] recs@[j]).1.move_.promotion) is Some,
                recs@.to_multiset() == all.to_multiset(),
                all == self.records(),
                records_in_order(recs@),
            decreases recs.len() - i,
        {
            let (hash, entry) = recs[i];
            let code = match move_to_polyglot_move_int(entry.move_) {
                Ok(c) => c,
                Err(e) => {
                    proof {
                        assert(recs@.contains(recs@[i as int]));
                        assert(all.to_multiset().count(recs@[i as int]) > 0);
                        assert(all.contains(recs@[i as int]));
                        let j = choose|j: int| 0 <= j < all.len() && all[j] == recs@[i as int];
                        assert(polyglot_code(all[j].1.move_.promotion) is None);
                    }
                    return Err(e);
                },
            };
            push_be(&mut out, hash, 8);
            push_be(&mut out, code as u64, 2);
            push_be(&mut out, entry.weight as u64, 2);
            push_be(&mut out, entry.learn as u64, 4);
            proof {
                assert(recs@.take(i + 1).drop_last() =~= recs@.take(i as int));
                assert(code == entry_code(entry));
            }
            i = i + 1;
        }
        proof {
            assert(recs@.take(recs@.len() as int) =~= recs@);
            if exists|j: int| 0 <= j < all.len() && polyglot_code((#[trigger] all[j]).1.move_.promotion) is None {
                let j = choose|j: int| 0 <= j < all.len() && polyglot_code((#[trigger] all[j]).1.move_.promotion) is None;
                assert(all.contains(all[j]));
                assert(recs@.to_multiset().count(all[j]) > 0);
                assert(recs@.contains(all[j]));
                let l = choose|l: int| 0 <= l < recs@.len() && recs@[l] == all[j];
                assert(polyglot_code(recs@[l].1.move_.promotion) is Some);
            }
        }
        Ok(out)
    }

    /// The moves the book has for the current position of `board`, with their weights.
    pub fn get_all_weighted_moves(&self, board: &Board) -> (r: Vec<WeightedMove>)
        ensures
            r@ == if self.book().contains_key(board.current().position.hash_spec()) {
                self.book()[board.current().position.hash_spec()].map_values(|e: PolyglotBookEntry| weighted(e))
            } else {
                Seq::empty()
            },
    {
        let hash = board.get_mini_board().position.get_hash();
        match self.entries_map.get(&hash) {
            Some(list) => weighted_moves(list),
            None => Vec::new(),
        }
    }

    /// The first move the book has for the current position of `board`, with its weight.
    pub fn get_best_weighted_move(&self, board: &Board) -> (r: Option<WeightedMove>)
        ensures
            r == if self.book().contains_key(board.current().position.hash_spec()) && self.book()[board.current().position.hash_spec()].len() > 0 {
                Some(weighted(self.book()[board.current().position.hash_spec()][0]))
            } else {
                None
            },
    {
        let hash = board.get_mini_board().position.get_hash();
        match self.entries_map.get(&hash) {
            Some(list) => {
                if list.len() > 0 {
                    Some(list[0].get_weighted_move())
                } else {
                    None
                }
            },
            None => None,
        }
    }
}

/// The weights of `s` never increase.
pub open spec fn heaviest_first(s: Seq<PolyglotBookEntry>) -> bool {
    forall|i: int, j: int| 0 <= i < j < s.len() ==> #[trigger] s[i].weight >= #[trigger] s[j].weight
}

/// Calls `slice::sort_unstable_by_key` with the key `Reverse(entry.weight)`, which rearranges
/// the entries so that their weights never increase; the order of entries of equal weight is
/// left open.
#[verifier::external_body]
fn sort_by_weight(v: &mut Vec<PolyglotBookEntry>)
    ensures
        final(v)@.to_multiset() == old(v)@.to_multiset(),
        heaviest_first(final(v)@),
{
    v.sort_unstable_by_key(|entry| Reverse(entry.weight));
}

/// The `n` bytes of `v`, most significant first.
pub open spec fn be_bytes(v: int, n: nat) -> Seq<u8>
    decreases n,
{
    if n == 0 {
        Seq::empty()
    } else {
        be_bytes(v / 256, (n - 1) as nat).push((v % 256) as u8)
    }
}

/// The polyglot code of the move of an entry that has one.
pub open spec fn entry_code(e: PolyglotBookEntry) -> int {
    polyglot_code(e.move_.promotion)->0 * 4096 + e.move_.source.index() * 64 + e.move_.dest.index()
}

/// The sixteen bytes of the record of `e` under hash `h`.
pub open spec fn record_bytes(h: u64, e: PolyglotBookEntry) -> Seq<u8> {
    be_bytes(h as int, 8) + be_bytes(entry_code(e), 2) + be_bytes(e.weight as int, 2) + be_bytes(e.learn as int, 4)
}

/// The bytes of the records `recs`, one after the other.
pub open spec fn records_bytes(recs: Seq<(u64, PolyglotBookEntry)>) -> Seq<u8>
    decreases recs.len(),
{
    if recs.len() == 0 {
        Seq::empty()
    } else {
        records_bytes(recs.drop_last()) + record_bytes(recs.last().0, recs.last().1)
    }
}

/// The records come by hash, and for one hash heaviest first.
pub open spec fn records_in_order(recs: Seq<(u64, PolyglotBookEntry)>) -> bool {
    forall|i: int, j: int| 0 <= i < j < recs.len() ==> #[trigger] recs[i].0 < #[trigger] recs[j].0 || (recs[i].0 == recs[j].0
        && recs[i].1.weight >= recs[j].1.weight)
}

/// The records of the entries of the first `n` hashes of `keys` in `book`.
pub open spec fn records_upto(keys: Seq<u64>, book: Map<u64, Seq<PolyglotBookEntry>>, n: int) -> Seq<(u64, PolyglotBookEntry)>
    decreases n,
{
    if n <= 0 {
        Seq::empty()
    } else {
        records_upto(keys, book, n - 1) + book[keys[n - 1]].map_values(|e: PolyglotBookEntry| (keys[n - 1], e))
    }
}

/// Calls `slice::sort_unstable_by_key` with the key `(hash, Reverse(entry.weight))`, which
/// rearranges the records by hash, and for one hash heaviest first; the order of records
/// with the same key is left open.
#[verifier::external_body]
fn sort_records(v: &mut Vec<(u64, PolyglotBookEntry)>)
    ensures
        final(v)@.to_multiset() == old(v)@.to_multiset(),
        records_in_order(final(v)@),
{
    v.sort_unstable_by_key(|record| (record.0, Reverse(record.1.weight)));
}

/// Append the `n` bytes of `v`, most significant first.
fn push_be(out: &mut Vec<u8>, v: u64, n: usize)
    ensures
        final(out)@ == old(out)@ + be_bytes(v as int, n as nat),
    decreases n,
{
    if n > 0 {
        push_be(out, v / 256, n - 1);
        out.push((v % 256) as u8);
        proof {
            assert(old(out)@ + be_bytes(v as int, n as nat) =~= old(out)@ + be_bytes((v / 256) as int, (n - 1) as nat) + seq![(v % 256) as u8]);
        }
    } else {
        proof {
            assert(old(out)@ + be_bytes(v as int, 0) =~= old(out)@);
        }
    }
}

/// The moves of `list` with their weights, in order.
fn weighted_moves(list: &Vec<PolyglotBookEntry>) -> (r: Vec<WeightedMove>)
    ensures
        r@ == list@.map_values(|e: PolyglotBookEntry| weighted(e)),
{
    let mut r: Vec<WeightedMove> = Vec::new();
    let mut k: usize = 0;
    while k < list.len()
        invariant
            k <= list@.len(),
            r@ == list@.take(k as int).map_values(|e: PolyglotBookEntry| weighted(e)),
        decreases list.len() - k,
    {
        r.push(list[k].get_weighted_move());
        proof {
            assert(list@.take(k + 1).map_values(|e: PolyglotBookEntry| weighted(e)) =~= list@.take(k as int).map_values(
                |e: PolyglotBookEntry| weighted(e),
            ).push(weighted(list@[k as int])));
        }
        k = k + 1;
    }
    proof {
        assert(list@.take(list@.len() as int) =~= list@);
    }
    r
}

proof fn lemma_book_upto_none(b: Seq<u8>, k: int, n: int)
    requires
        1 <= k <= n,
        book_upto(b, k) is None,
    ensures
        book_upto(b, n) is None,
    decreases n - k,
{
    if k < n {
        lemma_book_upto_none(b, k + 1, n);
    }
}

} // verus!
