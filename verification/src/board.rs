//! A game: the current board, the boards and moves that led to it, and how often each
//! position has occurred.
use vstd::prelude::*;
use vstd::multiset::Multiset;
use crate::bits::popcount;
use crate::builder::{ep_rank_of, fen_model, fen_text};
use crate::error::TimecatError;
use crate::fen_check::{simplify_fen, simplify_fen_spec};
use crate::game::GameResult;
use crate::mini_board::MiniBoard;
use crate::moves::Move;
use crate::position::{BoardPosition, BoardStatus};
use crate::text::chars_to_string;

verus! {

broadcast use vstd::seq_lib::group_to_multiset_ensures;

/// How often each position hash has occurred.
#[derive(Clone, Debug)]
pub struct RepetitionTable {
    hashes: Vec<u64>,
}

impl RepetitionTable {
    /// The hashes recorded, each as often as it occurred.
    pub closed spec fn counts(self) -> Multiset<u64> {
        self.hashes@.to_multiset()
    }

    pub fn new() -> (r: RepetitionTable)
        ensures
            r.counts() == Multiset::<u64>::empty(),
    {
        let r = RepetitionTable { hashes: Vec::new() };
        proof {
            assert(r.hashes@ =~= Seq::<u64>::empty());
            assert(Seq::<u64>::empty().to_multiset() =~= Multiset::<u64>::empty());
        }
        r
    }

    /// Forget every hash.
    pub fn clear(&mut self)
        ensures
            final(self).counts() == Multiset::<u64>::empty(),
    {
        *self = RepetitionTable::new();
    }

    /// Record one more occurrence of `hash`.
    pub fn insert(&mut self, hash: u64)
        ensures
            final(self).counts() == old(self).counts().insert(hash),
    {
        self.hashes.push(hash);
    }

    /// Take back one occurrence of `hash`, if there is one.
    pub fn remove(&mut self, hash: u64)
        ensures
            final(self).counts() == old(self).counts().remove(hash),
    {
        let mut k: usize = 0;
        while k < self.hashes.len()
            invariant
                k <= self.hashes@.len(),
                self.hashes@ == old(self).hashes@,
                forall|j: int| 0 <= j < k ==> #[trigger] self.hashes@[j] != hash,
            decreases self.hashes.len() - k,
        {
            if self.hashes[k] == hash {
                let ghost before = self.hashes@;
                self.hashes.remove(k);
                proof {
                    assert(self.hashes@ == before.remove(k as int));
                }
                return;
            }
            k = k + 1;
        }
        proof {
            assert(!self.hashes@.contains(hash));
            assert(old(self).counts().count(hash) == 0);
            assert(old(self).counts().remove(hash) =~= old(self).counts());
        }
    }

    /// How often `hash` has occurred, counted up to 255.
    pub fn get_repetition(&self, hash: u64) -> (r: u8)
        ensures
            r == if self.counts().count(hash) > 255 { 255 } else { self.counts().count(hash) },
    {
        let mut n: u8 = 0;
        let mut k: usize = 0;
        while k < self.hashes.len()
            invariant
                k <= self.hashes@.len(),
                n == if self.hashes@.take(k as int).to_multiset().count(hash) > 255 {
                    255
                } else {
                    self.hashes@.take(k as int).to_multiset().count(hash)
                },
            decreases self.hashes.len() - k,
        {
            proof {
                assert(self.hashes@.take(k as int + 1) =~= self.hashes@.take(k as int).push(self.hashes@[k as int]));
            }
            if self.hashes[k] == hash && n < 255 {
                n = n + 1;
            }
            k = k + 1;
        }
        proof {
            assert(self.hashes@.take(self.hashes@.len() as int) =~= self.hashes@);
        }
        n
    }
}

/// The hashes of the boards of `stack`, in order.
pub open spec fn stack_hashes(stack: Seq<(MiniBoard, Option<Move>)>) -> Seq<u64> {
    Seq::new(stack.len(), |i: int| stack[i].0.position.hash_spec())
}

/// What a board of the game must be: well formed, with its checkers and pinned pieces.
pub open spec fn board_ok(b: MiniBoard) -> bool {
    b.position.wf() && b.position.info_ok()
}

/// The board after `m` from `b`: the position the move makes, or for no move (a null move)
/// the position with the other side to move.
pub open spec fn after_spec(b: MiniBoard, m: Option<Move>, r: MiniBoard) -> bool {
    match m {
        Some(mv) => r.position == b.position.after_move(mv),
        None => board_ok(r) && r.position.same_placement(b.position) && r.position.turn_ == b.position.turn_.other()
            && r.position.ep is None && r.position.white_castle_rights == b.position.white_castle_rights
            && r.position.black_castle_rights == b.position.black_castle_rights && r.position.halfmove_clock
            == b.position.halfmove_clock + 1 && r.position.fullmove_number == b.position.fullmove_number + 1,
    }
}

/// `m` can be played on `b`: a move whose pieces can be moved, or a null move, with room on
/// the move clocks.
pub open spec fn playable(b: MiniBoard, m: Option<Move>) -> bool {
    match m {
        Some(mv) => b.position.move_ok(mv),
        None => b.position.halfmove_clock < 255 && b.position.fullmove_number < 65535,
    }
}

/// The game is drawn by rule, whatever the moves: fifty moves without a capture or pawn move,
/// a third occurrence of the position, or too little material to mate.
pub open spec fn other_draw_spec(p: BoardPosition, repetitions: int) -> bool {
    p.halfmove_clock >= 100 || repetitions >= 3 || p.insufficient_material_spec()
}

/// How the game stands, given how often the current position has occurred.
pub open spec fn result_spec(p: BoardPosition, repetitions: int) -> GameResult {
    if other_draw_spec(p, repetitions) {
        GameResult::Draw
    } else {
        match p.status_spec() {
            BoardStatus::Checkmate => GameResult::Win(p.turn_.other()),
            BoardStatus::Stalemate => GameResult::Draw,
            BoardStatus::Ongoing => GameResult::InProgress,
        }
    }
}

/// A game: the current board, the boards before each move with the moves played (no move for
/// a null move), and the occurrences of every position of the game.
#[derive(Clone, Debug)]
pub struct Board {
    mini_board: MiniBoard,
    stack: Vec<(MiniBoard, Option<Move>)>,
    repetition_table: RepetitionTable,
}

impl Board {
    /// The current board.
    pub closed spec fn current(self) -> MiniBoard {
        self.mini_board
    }

    /// The boards before each move, and the moves, oldest first.
    pub closed spec fn history(self) -> Seq<(MiniBoard, Option<Move>)> {
        self.stack@
    }

    /// The occurrences of each position hash.
    pub closed spec fn occurrences(self) -> Multiset<u64> {
        self.repetition_table.counts()
    }

    /// How often the current position has occurred, counted up to 255.
    pub open spec fn repetitions(self) -> int {
        let n = self.occurrences().count(self.current().position.hash_spec());
        if n > 255 { 255 } else { n as int }
    }

    /// Every board of the game is well formed, and the occurrences are those of the boards of
    /// the history and the current board.
    pub open spec fn wf(self) -> bool {
        &&& board_ok(self.current())
        &&& forall|i: int| 0 <= i < self.history().len() ==> board_ok(#[trigger] self.history()[i].0)
        &&& self.occurrences() == stack_hashes(self.history()).push(self.current().position.hash_spec()).to_multiset()
    }

    /// A game starting from `mini_board`.
    pub fn from_mini_board(mini_board: MiniBoard) -> (r: Board)
        requires
            board_ok(mini_board),
        ensures
            r.wf(),
            r.current() == mini_board,
            r.history().len() == 0,
    {
        let mut table = RepetitionTable::new();
        table.insert(mini_board.position.get_hash());
        let r = Board { mini_board, stack: Vec::new(), repetition_table: table };
        proof {
            assert(stack_hashes(r.history()) =~= Seq::<u64>::empty());
            assert(Seq::<u64>::empty().push(mini_board.position.hash_spec()) =~= seq![mini_board.position.hash_spec()]);
            assert(Seq::<u64>::empty().to_multiset() =~= Multiset::<u64>::empty());
            assert(Seq::<u64>::empty().push(mini_board.position.hash_spec()).to_multiset() =~= Multiset::<u64>::empty().insert(
                mini_board.position.hash_spec(),
            ));
        }
        r
    }

    /// The game starting from the position the FEN text `fen` describes, its spaces tidied.
    pub fn from_fen(fen: &str) -> (r: Result<Board, TimecatError>)
        ensures
            match fen_model(simplify_fen_spec(fen@)) {
                None => r matches Err(e) && e is BadFen,
                Some(m) => {
                    &&& r matches Ok(b) ==> b.wf() && b.history().len() == 0 && b.current().position.describes(m)
                        && b.current().position.sane_spec()
                    &&& r is Err ==> (r matches Err(e) && e is InvalidBoardPosition) && forall|p: BoardPosition|
                        p.wf() && #[trigger] p.describes(m) ==> !p.sane_spec()
                },
            },
    {
        let chars = simplify_fen(fen);
        let text = chars_to_string(&chars);
        match BoardPosition::from_fen(text.as_str()) {
            Ok(p) => Ok(Board::from_mini_board(MiniBoard { position: p })),
            Err(e) => Err(e),
        }
    }

    /// The current board.
    pub fn get_mini_board(&self) -> (r: &MiniBoard)
        ensures
            *r == self.current(),
    {
        &self.mini_board
    }

    /// The number of moves played, as a 16-bit count (wrapping past 65535).
    pub fn get_num_moves(&self) -> (r: u16)
        ensures
            r == self.history().len() % 65536,
    {
        let n = self.stack.len();
        (n % 65536) as u16
    }

    /// Count the occurrences afresh from the boards of the game.
    pub fn update_repetition_table(&mut self)
        requires
            board_ok(old(self).current()),
            forall|i: int| 0 <= i < old(self).history().len() ==> board_ok(#[trigger] old(self).history()[i].0),
        ensures
            final(self).wf(),
            final(self).current() == old(self).current(),
            final(self).history() == old(self).history(),
    {
        let mut table = RepetitionTable::new();
        let mut k: usize = 0;
        proof {
            assert(Seq::<u64>::empty().to_multiset() =~= Multiset::<u64>::empty());
            assert(stack_hashes(self.history()).take(0) =~= Seq::<u64>::empty());
        }
        while k < self.stack.len()
            invariant
                k <= self.stack@.len(),
                table.counts() == stack_hashes(self.stack@).take(k as int).to_multiset(),
                forall|i: int| 0 <= i < self.stack@.len() ==> board_ok(#[trigger] self.stack@[i].0),
            decreases self.stack.len() - k,
        {
            let h = self.stack[k].0.position.get_hash();
            table.insert(h);
            proof {
                assert(stack_hashes(self.stack@).take(k as int + 1) =~= stack_hashes(self.stack@).take(k as int).push(h));
            }
            k = k + 1;
        }
        proof {
            assert(stack_hashes(self.stack@).take(self.stack@.len() as int) =~= stack_hashes(self.stack@));
        }
        table.insert(self.mini_board.position.get_hash());
        self.repetition_table = table;
    }

    /// How often the current position has occurred, counted up to 255.
    pub fn get_num_repetitions(&self) -> (r: u8)
        requires
            self.wf(),
        ensures
            r == self.repetitions(),
    {
        self.repetition_table.get_repetition(self.mini_board.position.get_hash())
    }

    /// Has the current position occurred at least `n_times` times?
    pub fn is_repetition(&self, n_times: usize) -> (r: bool)
        requires
            self.wf(),
        ensures
            r == (self.repetitions() >= n_times),
    {
        self.get_num_repetitions() as usize >= n_times
    }

    /// Has the current position occurred three times?
    pub fn is_threefold_repetition(&self) -> (r: bool)
        requires
            self.wf(),
        ensures
            r == (self.repetitions() >= 3),
    {
        self.is_repetition(3)
    }

    /// Is the game drawn by rule (see `other_draw_spec`)?
    pub fn is_other_draw(&self) -> (r: bool)
        requires
            self.wf(),
        ensures
            r == other_draw_spec(self.current().position, self.repetitions()),
    {
        self.mini_board.position.is_fifty_moves() || self.is_threefold_repetition()
            || self.mini_board.position.is_insufficient_material()
    }

    /// How the game stands (see `result_spec`).
    pub fn result(&self) -> (r: GameResult)
        requires
            self.wf(),
            popcount(self.current().position.color_mask(self.current().position.turn_)) <= 16,
        ensures
            r == result_spec(self.current().position, self.repetitions()),
    {
        if self.is_other_draw() {
            return GameResult::Draw;
        }
        match self.mini_board.position.status() {
            BoardStatus::Checkmate => GameResult::Win(self.mini_board.position.turn().flip()),
            BoardStatus::Stalemate => GameResult::Draw,
            BoardStatus::Ongoing => GameResult::InProgress,
        }
    }

    /// Is the game drawn: by rule, or by stalemate?
    pub fn is_draw(&self) -> (r: bool)
        requires
            self.wf(),
            popcount(self.current().position.color_mask(self.current().position.turn_)) <= 16,
        ensures
            r == (other_draw_spec(self.current().position, self.repetitions()) || self.current().position.status_spec()
                == BoardStatus::Stalemate),
    {
        self.is_other_draw() || self.mini_board.position.is_stalemate()
    }

    /// Is the game over: drawn by rule, or no legal move left?
    pub fn is_game_over(&self) -> (r: bool)
        requires
            self.wf(),
            popcount(self.current().position.color_mask(self.current().position.turn_)) <= 16,
        ensures
            r == (other_draw_spec(self.current().position, self.repetitions()) || self.current().position.status_spec()
                != BoardStatus::Ongoing),
    {
        self.is_other_draw() || self.mini_board.position.status() != BoardStatus::Ongoing
    }

    /// Play `m` (a null move when none) without checking it: the current board goes on the
    /// history with the move, and the new position is counted once more.
    pub fn push_unchecked(&mut self, m: Option<Move>)
        requires
            old(self).wf(),
            playable(old(self).current(), m),
        ensures
            final(self).wf(),
            after_spec(old(self).current(), m, final(self).current()),
            m matches Some(mv) ==> old(self).current().position.made(mv, final(self).current().position),
            final(self).history() == old(self).history().push((old(self).current(), m)),
            final(self).occurrences() == old(self).occurrences().insert(final(self).current().position.hash_spec()),
    {
        let copy = self.mini_board;
        let next = match m {
            Some(mv) => self.mini_board.position.make_move_new(mv),
            None => self.mini_board.position.null_move_unchecked(),
        };
        self.mini_board = MiniBoard { position: next };
        self.repetition_table.insert(next.get_hash());
        self.stack.push((copy, m));
        proof {
            let old_hashes = stack_hashes(old(self).history());
            assert(stack_hashes(self.stack@) =~= old_hashes.push(copy.position.hash_spec()));
            assert(stack_hashes(self.stack@).push(next.hash_spec()) =~= old_hashes.push(copy.position.hash_spec()).push(
                next.hash_spec(),
            ));
        }
    }

    /// Play `m` when it is legal: a move of a square that has legal moves which can be made,
    /// or a null move when not in check.
    pub fn push(&mut self, m: Option<Move>) -> (r: Result<(), TimecatError>)
        requires
            old(self).wf(),
            popcount(old(self).current().position.color_mask(old(self).current().position.turn_)) <= 16,
            old(self).current().position.halfmove_clock < 255,
            old(self).current().position.fullmove_number < 65535,
        ensures
            final(self).wf(),
            r is Ok ==> after_spec(old(self).current(), m, final(self).current()) && final(self).history()
                == old(self).history().push((old(self).current(), m)),
            r is Err ==> *final(self) == *old(self),
            m is None ==> (r is Ok <==> old(self).current().position.checkers_bb.0 == 0),
            m matches Some(mv) ==> (r is Ok <==> (old(self).current().position.move_fits(mv) && exists|k: int|
                0 <= k < old(self).current().position.all_entries().len() && (#[trigger] old(
                self,
            ).current().position.all_entries()[k]).square == mv.source)),
    {
        match m {
            Some(mv) => {
                if !self.mini_board.position.is_legal(&mv) || !self.mini_board.position.move_fits_exec(mv) {
                    return Err(
                        TimecatError::IllegalMove { valid_or_null_move: m, board_fen: self.mini_board.position.get_fen() },
                    );
                }
                self.push_unchecked(m);
                Ok(())
            },
            None => {
                if self.mini_board.position.is_check() {
                    return Err(TimecatError::NullMoveInCheck { fen: self.mini_board.position.get_fen() });
                }
                self.push_unchecked(m);
                Ok(())
            },
        }
    }

    /// Take back the last move: the board before it comes back, the position left is counted
    /// once less, and the move is returned.
    pub fn pop(&mut self) -> (r: Option<Move>)
        requires
            old(self).wf(),
            old(self).history().len() > 0,
        ensures
            final(self).wf(),
            final(self).current() == old(self).history().last().0,
            final(self).history() == old(self).history().drop_last(),
            final(self).occurrences() == old(self).occurrences().remove(old(self).current().position.hash_spec()),
            r == old(self).history().last().1,
    {
        let (board, m) = match self.stack.pop() {
            Some(entry) => entry,
            None => (self.mini_board, None),
        };
        self.repetition_table.remove(self.mini_board.position.get_hash());
        self.mini_board = board;
        proof {
            let s = old(self).history();
            let hs = stack_hashes(s);
            let cur = old(self).current().position.hash_spec();
            assert(stack_hashes(self.stack@) =~= hs.drop_last());
            assert(hs.push(cur) =~= hs.drop_last().push(board.position.hash_spec()).push(cur));
            assert(hs.push(cur).to_multiset().remove(cur) =~= hs.drop_last().push(board.position.hash_spec()).to_multiset());
        }
        m
    }

    /// Mirror the board top to bottom (see `BoardPosition::flip_vertical`), forgetting the
    /// moves played.
    pub fn flip_vertical(&mut self)
        requires
            old(self).wf(),
        ensures
            final(self).wf(),
            final(self).history().len() == 0,
            forall|i: int| 0 <= i < 64 ==> #[trigger] final(self).current().position.piece_at(i)
                == old(self).current().position.piece_at(crate::position_status::mirror_square(i, true)),
            final(self).current().position.turn_ == old(self).current().position.turn_,
    {
        self.mini_board.flip_vertical();
        self.stack.clear();
        self.update_repetition_table();
    }

    /// Mirror the board left to right (see `BoardPosition::flip_horizontal`), forgetting the
    /// moves played.
    pub fn flip_horizontal(&mut self)
        requires
            old(self).wf(),
        ensures
            final(self).wf(),
            final(self).history().len() == 0,
            forall|i: int| 0 <= i < 64 ==> #[trigger] final(self).current().position.piece_at(i)
                == old(self).current().position.piece_at(crate::position_status::mirror_square(i, false)),
            final(self).current().position.turn_ == old(self).current().position.turn_,
    {
        self.mini_board.flip_horizontal();
        self.stack.clear();
        self.update_repetition_table();
    }

    /// Set the game to start from the position the FEN text `fen` describes (see
    /// `BoardPosition::set_fen`); on an error the game stays as it was.
    pub fn set_fen(&mut self, fen: &str) -> (r: Result<(), TimecatError>)
        requires
            old(self).wf(),
        ensures
            final(self).wf(),
            r is Ok ==> final(self).history().len() == 0,
            r is Err ==> *final(self) == *old(self),
            simplify_fen_spec(fen@) == fen_text(old(self).current().position.builder_model(), ep_rank_of(old(self).current().position.turn_))
                ==> r is Ok && final(self).current() == old(self).current(),
            simplify_fen_spec(fen@) != fen_text(old(self).current().position.builder_model(), ep_rank_of(old(self).current().position.turn_))
                ==> match fen_model(simplify_fen_spec(fen@)) {
                None => r matches Err(e) && e is BadFen,
                Some(m) => {
                    &&& r is Ok ==> final(self).current().position.describes(m) && final(self).current().position.sane_spec()
                    &&& r is Err ==> (r matches Err(e) && e is InvalidBoardPosition) && forall|p: BoardPosition|
                        p.wf() && #[trigger] p.describes(m) ==> !p.sane_spec()
                },
            },
    {
        let mut board = self.mini_board;
        match board.set_fen(fen) {
            Ok(()) => {
                self.mini_board = board;
                self.stack.clear();
                self.update_repetition_table();
                Ok(())
            },
            Err(e) => Err(e),
        }
    }

    /// The moves played, oldest first.
    pub fn get_all_stack_moves(&self) -> (r: Vec<Option<Move>>)
        ensures
            r@ == Seq::new(self.history().len(), |i: int| self.history()[i].1),
    {
        let mut r: Vec<Option<Move>> = Vec::new();
        let mut k: usize = 0;
        while k < self.stack.len()
            invariant
                k <= self.stack@.len(),
                r@ == Seq::new(k as nat, |i: int| self.stack@[i].1),
            decreases self.stack.len() - k,
        {
            r.push(self.stack[k].1);
            proof {
                assert(r@ =~= Seq::new((k + 1) as nat, |i: int| self.stack@[i].1));
            }
            k = k + 1;
        }
        r
    }

    /// The last move played, if any.
    pub fn get_last_stack_move(&self) -> (r: Option<Option<Move>>)
        ensures
            r == if self.history().len() > 0 { Some(self.history().last().1) } else { None },
    {
        if self.stack.len() == 0 {
            None
        } else {
            Some(self.stack[self.stack.len() - 1].1)
        }
    }

    /// Was a null move played?
    pub fn stack_contains_null_move(&self) -> (r: bool)
        ensures
            r == exists|i: int| 0 <= i < self.history().len() && (#[trigger] self.history()[i]).1 is None,
    {
        let mut k: usize = 0;
        while k < self.stack.len()
            invariant
                k <= self.stack@.len(),
                forall|i: int| 0 <= i < k ==> (#[trigger] self.stack@[i]).1 is Some,
            decreases self.stack.len() - k,
        {
            if self.stack[k].1.is_none() {
                proof {
                    assert(self.stack@[k as int].1 is None);
                }
                return true;
            }
            k = k + 1;
        }
        false
    }

    /// The number of moves played.
    pub fn get_ply(&self) -> (r: usize)
        ensures
            r == self.history().len(),
    {
        self.stack.len()
    }

    pub fn has_empty_stack(&self) -> (r: bool)
        ensures
            r == (self.history().len() == 0),
    {
        self.stack.len() == 0
    }
}

/// The game state a push leaves behind (see `push_unchecked`).
pub open spec fn pushed_state(
    state: (MiniBoard, Seq<(MiniBoard, Option<Move>)>, Multiset<u64>),
    m: Option<Move>,
    next: MiniBoard,
) -> (MiniBoard, Seq<(MiniBoard, Option<Move>)>, Multiset<u64>) {
    (next, state.1.push((state.0, m)), state.2.insert(next.position.hash_spec()))
}

/// The game state a pop leaves behind (see `pop`), and the move it returns.
pub open spec fn popped_state(state: (MiniBoard, Seq<(MiniBoard, Option<Move>)>, Multiset<u64>)) -> (
    (MiniBoard, Seq<(MiniBoard, Option<Move>)>, Multiset<u64>),
    Option<Move>,
) {
    ((state.1.last().0, state.1.drop_last(), state.2.remove(state.0.position.hash_spec())), state.1.last().1)
}

/// Taking back a move just played gives back the game as it was, and the move.
pub proof fn law_pop_undoes_push(
    state: (MiniBoard, Seq<(MiniBoard, Option<Move>)>, Multiset<u64>),
    m: Option<Move>,
    next: MiniBoard,
)
    ensures
        popped_state(pushed_state(state, m, next)) == (state, m),
{
    let p = pushed_state(state, m, next);
    assert(p.1.drop_last() =~= state.1);
    assert(p.2.remove(next.position.hash_spec()) =~= state.2);
}

/// How a game stands: it is won exactly when the side to move has no legal move, is in check
/// and the game is not drawn by rule, and then the winner is the side that is not to move; it
/// is drawn exactly when it is drawn by rule or the side to move has no legal move and is not
/// in check; otherwise it goes on.
pub proof fn law_result_names_winner(p: BoardPosition, repetitions: int)
    ensures
        (result_spec(p, repetitions) is Win) == (!other_draw_spec(p, repetitions) && !p.has_legal_move_spec()
            && p.checkers_bb.0 != 0),
        result_spec(p, repetitions) matches GameResult::Win(c) ==> c == p.turn_.other() && c != p.turn_,
        (result_spec(p, repetitions) is Draw) == (other_draw_spec(p, repetitions) || (!p.has_legal_move_spec()
            && p.checkers_bb.0 == 0)),
        (result_spec(p, repetitions) is InProgress) == (!other_draw_spec(p, repetitions) && p.has_legal_move_spec()),
{
}

} // verus!
