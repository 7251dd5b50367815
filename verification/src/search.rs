//! The engine's search: a principal-variation alpha-beta search over the legal moves of the
//! game, with null-move and futility pruning, killer and history moves, and a search of
//! captures at its leaves. It scores a position by the evaluation the engine is given, mates
//! by their distance from the root, and draws by rule or stalemate by a fixed draw score; it
//! stops when its timer says so.
use vstd::prelude::*;
use vstd::multiset::Multiset;
use crate::board::Board;
use crate::engine_properties::{EngineProperties, DISABLE_ALL_PRUNINGS};
use crate::mini_board::MiniBoard;
use crate::move_generator::MoveGenerator;
use crate::moves::Move;
use crate::position::BoardPosition;
use crate::sort::{MoveSorter, MAX_PLY};
use crate::timer::Timer;
use crate::types::Color;
use crate::error::TimecatError;
use crate::search_value::{
    deepening, lemma_deepening_step, root_value, game_over_spec, line_end, line_played, ab_value, child_value, killers_of, lemma_null_position, moves_value, null_depth, null_value, q_child_value,
    q_moves_value, q_value,
};

verus! {

/// The score of being mated at the root.
pub const CHECKMATE_SCORE: i16 = 25_000;

/// A bound beyond every score of the search.
pub const INFINITY: i16 = 26_020;

/// The least depth at which a null move is tried.
pub const NULL_MOVE_MIN_DEPTH: i8 = 2;

/// How the engine scores positions, from the point of view of the side to move: a score
/// that depends on the position alone and lies within the scores of mates.
pub trait PositionEvaluation {
    /// The score of `position`.
    spec fn value(position: BoardPosition) -> int;

    fn evaluate_flipped(&mut self, position: &BoardPosition) -> (r: i16)
        ensures
            r == Self::value(*position),
            -CHECKMATE_SCORE <= r <= CHECKMATE_SCORE,
    ;
}

/// `x` kept within the scores of mates.
pub open spec fn within_mates(x: int) -> int {
    if x < -CHECKMATE_SCORE {
        -CHECKMATE_SCORE as int
    } else if x > CHECKMATE_SCORE {
        CHECKMATE_SCORE as int
    } else {
        x
    }
}

/// Scores a position by material alone: the material of the side to move less the other
/// side's, kept within the scores of mates.
pub struct MaterialEvaluation;

impl PositionEvaluation for MaterialEvaluation {
    open spec fn value(position: BoardPosition) -> int {
        let balance = position.white_material - position.black_material;
        within_mates(if position.turn_ == Color::White { balance } else { -balance })
    }

    fn evaluate_flipped(&mut self, position: &BoardPosition) -> (r: i16) {
        let balance = position.white_material as i64 - position.black_material as i64;
        let own = match position.turn_ {
            Color::White => balance,
            Color::Black => -balance,
        };
        if own < -(CHECKMATE_SCORE as i64) {
            -CHECKMATE_SCORE
        } else if own > CHECKMATE_SCORE as i64 {
            CHECKMATE_SCORE
        } else {
            own as i16
        }
    }
}

/// The state of a game a search keeps unchanged when it finishes: the current board, the
/// boards and moves before it, and the occurrences of positions.
pub open spec fn game_of(b: Board) -> (MiniBoard, Seq<(MiniBoard, Option<Move>)>, Multiset<u64>) {
    (b.current(), b.history(), b.occurrences())
}

/// A searcher: the game it searches, its evaluation, how many moves deep it stands, its
/// clock, the killer and history moves it keeps, its switches, the score of a draw, the nodes it has
/// searched, and whether it has stopped.
pub struct Searcher<P: PositionEvaluation> {
    pub board: Board,
    pub evaluator: P,
    pub ply: usize,
    pub timer: Timer,
    pub move_sorter: MoveSorter,
    pub properties: EngineProperties,
    pub draw_score: i16,
    pub num_nodes_searched: usize,
    pub stopped: bool,
}

impl<P: PositionEvaluation> Searcher<P> {
    /// The game is well formed, the searcher stands above the deepest ply, the killer tables
    /// have their sizes, the clock's overhead is a span, and the draw score lies within the
    /// scores of mates.
    pub open spec fn wf(self) -> bool {
        &&& self.board.wf()
        &&& self.ply < MAX_PLY
        &&& self.move_sorter.wf()
        &&& self.timer.move_overhead.wf()
        &&& -CHECKMATE_SCORE <= self.draw_score <= CHECKMATE_SCORE
    }

    /// The score of mating at the current ply.
    pub open spec fn mate_score(self) -> int {
        CHECKMATE_SCORE - self.ply
    }

    /// The position searched.
    pub open spec fn position(self) -> BoardPosition {
        self.board.current().position
    }

    /// Whether mate distance pruning is on, and the draw score.
    pub open spec fn rules(self) -> (bool, int) {
        (self.properties.use_mate_distance_pruning_ && !DISABLE_ALL_PRUNINGS, self.draw_score as int)
    }

    /// The killer moves of every ply.
    pub open spec fn killers(self) -> Seq<Seq<Option<Move>>> {
        killers_of(self.move_sorter)
    }

    /// The score a search `depth` plies deep within `alpha..beta` computes from here, and the
    /// killer moves it leaves (see `ab_value`).
    pub open spec fn value_of(self, depth: int, alpha: int, beta: int) -> (int, Seq<Seq<Option<Move>>>) {
        ab_value::<P>(self.rules(), self.board.occurrences(), self.position(), self.ply as int, self.killers(), depth, alpha, beta)
    }

    /// The full move number has room for a move at every ply still below the deepest.
    pub open spec fn clock_room(self) -> bool {
        self.position().fullmove_number + (MAX_PLY - self.ply) < 65536
    }

    /// A searcher of the game `board` at its root, with the evaluation `evaluator`, the clock
    /// `timer`, the switches `properties` and the draw score `draw_score`, nothing searched
    /// and no killer moves.
    pub fn new(board: Board, evaluator: P, timer: Timer, properties: EngineProperties, draw_score: i16) -> (r: Searcher<P>)
        requires
            board.wf(),
            timer.move_overhead.wf(),
            -CHECKMATE_SCORE <= draw_score <= CHECKMATE_SCORE,
        ensures
            r.wf(),
            r.board == board,
            r.ply == 0,
            r.properties == properties,
            r.draw_score == draw_score,
            r.num_nodes_searched == 0,
            !r.stopped,
    {
        Searcher {
            board,
            evaluator,
            ply: 0,
            timer,
            move_sorter: MoveSorter::new(),
            properties,
            draw_score,
            num_nodes_searched: 0,
            stopped: false,
        }
    }

    /// The search of the root to `depth` plies: the best move found with its score, or `None`
    /// when the search was told to stop. A game drawn by rule scores the draw score and a
    /// position with no legal move scores its mate or stalemate, with no move; otherwise the
    /// legal moves are searched with the full window and the move is the last that raised it
    /// (none when none did).
    pub fn search_root(&mut self, depth: i8) -> (r: Option<(Option<Move>, i16)>)
        requires
            old(self).wf(),
            depth >= 1,
            old(self).ply < MAX_PLY - 1,
            old(self).position().perft_ok(depth as int),
            old(self).clock_room(),
        ensures
            final(self).wf(),
            final(self).draw_score == old(self).draw_score,
            final(self).properties == old(self).properties,
            r is Some ==> game_of(final(self).board) == game_of(old(self).board) && final(self).ply == old(self).ply,
            r is None ==> final(self).stopped,
            r matches Some((mv, s)) ==> -INFINITY <= s <= INFINITY && (mv matches Some(m)
                ==> old(self).position().legal_moves_seq().contains(m)),
            crate::board::other_draw_spec(old(self).position(), old(self).board.repetitions()) ==> r == Some(
                (None::<Move>, old(self).draw_score),
            ),
            ({
                let p = old(self).position();
                (p.legal_moves_seq().len() == 0 && !crate::board::other_draw_spec(p, old(self).board.repetitions()))
                    ==> r == Some(
                    (
                        None::<Move>,
                        (if p.checkers_bb.0 != 0 { -old(self).mate_score() } else { old(self).draw_score as int }) as i16,
                    ),
                )
            }),
            r matches Some((mv, s)) ==> ({
                let v = root_value::<P>(
                    old(self).rules(),
                    old(self).board.occurrences(),
                    old(self).position(),
                    old(self).ply as int,
                    old(self).killers(),
                    depth as int,
                );
                mv == v.0 && s == v.1 && final(self).killers() == v.2
            }),
            r matches Some((mv, s)) ==> ({
                let p = old(self).position();
                let n = p.legal_moves_seq().len() as int;
                let v = moves_value::<P>(
                    old(self).rules(),
                    old(self).board.occurrences(),
                    p,
                    old(self).ply as int,
                    old(self).killers(),
                    depth as int,
                    0,
                    -INFINITY as int,
                    INFINITY as int,
                    false,
                    n,
                );
                (!crate::board::other_draw_spec(p, old(self).board.repetitions()) && n > 0) ==> (s == v.0 && mv == (if v.1
                    < n {
                    Some(p.legal_moves_seq()[v.1])
                } else {
                    None
                }) && final(self).killers() == v.2)
            }),
    {
        if self.board.is_other_draw() {
            return Some((None, self.draw_score));
        }
        let position = self.board.get_mini_board().position;
        let moves = MoveGenerator::new_legal(&position).iter();
        if moves.len() == 0 {
            let mate_score: i16 = CHECKMATE_SCORE - self.ply as i16;
            return if position.is_check() { Some((None, -mate_score)) } else { Some((None, self.draw_score)) };
        }
        match self.search_moves(&moves, depth, -INFINITY, INFINITY, false) {
            Some((score, k)) => {
                if k < moves.len() {
                    proof {
                        assert(moves@[k as int] == moves@[k as int]);
                        assert(position.legal_moves_seq().contains(moves@[k as int]));
                    }
                    Some((Some(moves[k]), score))
                } else {
                    Some((None, score))
                }
            },
            None => None,
        }
    }

    /// Search the root one ply deeper at a time, from one ply up to `max_depth`, until a
    /// search is stopped: the last move found (kept when a deeper search finds none), the last
    /// score, and the depth last completed.
    pub fn iterative_deepening(&mut self, max_depth: i8) -> (r: (Option<Move>, i16, i8))
        requires
            old(self).wf(),
            0 <= max_depth,
            old(self).ply < MAX_PLY - 1,
            old(self).position().perft_ok(max_depth as int),
            old(self).clock_room(),
        ensures
            final(self).wf(),
            0 <= r.2 <= max_depth,
            r.2 < max_depth ==> final(self).stopped,
            game_of(final(self).board) == game_of(old(self).board) || final(self).stopped,
            ({
                let v = deepening::<P>(
                    old(self).rules(),
                    old(self).board.occurrences(),
                    old(self).position(),
                    old(self).ply as int,
                    old(self).killers(),
                    1,
                    r.2 as int,
                    None,
                    0,
                );
                r.0 == v.0 && r.1 == v.1
            }),
    {
        let ghost c = old(self).rules();
        let ghost occ = old(self).board.occurrences();
        let ghost pos = old(self).position();
        let ghost ply = old(self).ply as int;
        let ghost k0 = old(self).killers();
        let ghost game = game_of(old(self).board);
        let mut best: Option<Move> = None;
        let mut score: i16 = 0;
        let mut completed: i8 = 0;
        while completed < max_depth
            invariant
                self.wf(),
                0 <= completed <= max_depth,
                game_of(self.board) == game,
                self.position() == pos,
                self.board.occurrences() == occ,
                self.ply == ply,
                self.rules() == c,
                pos.perft_ok(max_depth as int),
                self.clock_room(),
                ply < MAX_PLY - 1,
                c == old(self).rules(),
                occ == old(self).board.occurrences(),
                pos == old(self).position(),
                ply == old(self).ply,
                k0 == old(self).killers(),
                game == game_of(old(self).board),
                deepening::<P>(c, occ, pos, ply, k0, 1, completed as int, None, 0) == (best, score as int, self.killers()),
            decreases max_depth - completed,
        {
            let depth = completed + 1;
            match self.search_root(depth) {
                Some((mv, s)) => {
                    proof {
                        lemma_deepening_step::<P>(c, occ, pos, ply, k0, 1, completed as int, None, 0);
                    }
                    score = s;
                    if mv.is_some() {
                        best = mv;
                    }
                    completed = depth;
                },
                None => {
                    return (best, score, completed);
                },
            }
        }
        (best, score, completed)
    }

    /// Search the root `depth` plies deep and play the best move found, returning it with
    /// its score; `BestMoveNotFound` when the search stops or finds no move.
    fn play_best_move(&mut self, depth: i8) -> (r: Result<(Move, i16), TimecatError>)
        requires
            old(self).wf(),
            old(self).ply == 0,
            depth >= 1,
            old(self).position().perft_ok(0),
            old(self).position().fullmove_number + 1 + MAX_PLY + depth < 65536,
            !game_over_spec(old(self).position(), old(self).board.occurrences()),
        ensures
            final(self).wf(),
            r matches Err(e) ==> e is BestMoveNotFound,
            r matches Ok((m, s)) ==> {
                &&& old(self).position().legal_moves_seq().contains(m)
                &&& final(self).position() == old(self).position().after_move(m)
                &&& final(self).board.occurrences() == old(self).board.occurrences().insert(
                    final(self).position().hash_spec(),
                )
                &&& final(self).board.history() == old(self).board.history().push((old(self).board.current(), Some(m)))
                &&& final(self).ply == 0
                &&& final(self).position().perft_ok(0)
                &&& final(self).position().fullmove_number <= old(self).position().fullmove_number + 1
            },
    {
        let ghost before = self.position();
        proof {
            assert(before.halfmove_clock < 100);
            assert(before.perft_ok(depth as int));
        }
        let found = self.search_root(depth);
        let (mv, score) = match found {
            Some(x) => x,
            None => {
                return Err(TimecatError::BestMoveNotFound { fen: self.board.get_mini_board().position.get_fen() });
            },
        };
        let m = match mv {
            Some(m) => m,
            None => {
                return Err(TimecatError::BestMoveNotFound { fen: self.board.get_mini_board().position.get_fen() });
            },
        };
        proof {
            before.lemma_listed_move_legal(m);
            assert(before.move_fits(m));
            assert(before.perft_ok(1));
        }
        self.board.push_unchecked(Some(m));
        proof {
            before.lemma_perft_ok_after(m, 1);
        }
        Ok((m, score))
    }

    /// Play the engine against itself from the current game, each move the best that
    /// `search_root` finds `depth` plies deep, until the game is over or `move_limit` moves
    /// are played; then take the moves back. The moves are returned with their scores. With
    /// no moves allowed nothing is played; a game already over is refused; a search that
    /// stops or finds no move ends it with `BestMoveNotFound`, leaving the game where that
    /// search left it.
    pub fn self_play(&mut self, depth: i8, move_limit: u16) -> (r: Result<Vec<(Move, i16)>, TimecatError>)
        requires
            old(self).wf(),
            old(self).ply == 0,
            depth >= 1,
            old(self).position().perft_ok(0),
            old(self).position().fullmove_number + move_limit + MAX_PLY + depth < 65536,
        ensures
            final(self).wf(),
            move_limit == 0 ==> (r matches Ok(v) && v.len() == 0),
            move_limit > 0 && game_over_spec(old(self).position(), old(self).board.occurrences()) ==> (r matches Err(
                e,
            ) && e is GameAlreadyOver),
            r matches Err(e) ==> (e is GameAlreadyOver && game_over_spec(old(self).position(), old(self).board.occurrences()))
                || e is BestMoveNotFound,
            r matches Ok(v) ==> ({
                let ms = Seq::new(v.len() as nat, |i: int| v@[i].0);
                let e = line_end(old(self).position(), old(self).board.occurrences(), ms);
                &&& game_of(final(self).board) == game_of(old(self).board)
                &&& v.len() <= move_limit
                &&& line_played(old(self).position(), old(self).board.occurrences(), ms)
                &&& (v.len() == move_limit || game_over_spec(e.0, e.1))
            }),
    {
        if move_limit == 0 {
            return Ok(Vec::new());
        }
        if self.board.is_game_over() {
            return Err(TimecatError::GameAlreadyOver);
        }
        let ghost p0 = old(self).position();
        let ghost o0 = old(self).board.occurrences();
        let ghost h0 = old(self).board.history();
        let ghost c0 = old(self).board.current();
        let ghost mut pushed: Seq<(MiniBoard, Option<Move>)> = Seq::empty();
        let mut played: Vec<(Move, i16)> = Vec::new();
        while played.len() < move_limit as usize && !self.board.is_game_over()
            invariant
                self.wf(),
                self.ply == 0,
                depth >= 1,
                played.len() <= move_limit,
                self.position().perft_ok(0),
                self.position().fullmove_number + (move_limit - played.len()) + MAX_PLY + depth < 65536,
                pushed.len() == played.len(),
                self.board.history() == h0 + pushed,
                pushed.len() > 0 ==> pushed[0].0 == c0,
                pushed.len() == 0 ==> self.board.current() == c0,
                line_played(p0, o0, Seq::new(played.len() as nat, |i: int| played@[i].0)),
                line_end(p0, o0, Seq::new(played.len() as nat, |i: int| played@[i].0)) == (
                    self.position(),
                    self.board.occurrences(),
                ),
                p0 == old(self).position(),
                o0 == old(self).board.occurrences(),
                h0 == old(self).board.history(),
                c0 == old(self).board.current(),
                !game_over_spec(p0, o0),
            decreases move_limit - played.len(),
        {
            let ghost ms = Seq::new(played.len() as nat, |i: int| played@[i].0);
            let ghost cur = self.board.current();
            let (m, score) = self.play_best_move(depth)?;
            proof {
                pushed = pushed.push((cur, Some(m)));
            }
            played.push((m, score));
            proof {
                let ms2 = Seq::new(played.len() as nat, |i: int| played@[i].0);
                assert(ms2.drop_last() =~= ms);
                assert(ms2.last() == m);
                assert(self.board.history() =~= h0 + pushed);
            }
        }
        let mut j: usize = played.len();
        while j > 0
            invariant
                self.wf(),
                j <= pushed.len(),
                self.board.history() == h0 + pushed.take(j as int),
                j < pushed.len() ==> self.board.current() == pushed[j as int].0,
                pushed.len() > 0 ==> pushed[0].0 == c0,
                pushed.len() == 0 ==> self.board.current() == c0,
            decreases j,
        {
            self.board.pop();
            proof {
                assert((h0 + pushed.take(j as int)).drop_last() =~= h0 + pushed.take(j - 1));
                assert((h0 + pushed.take(j as int)).last() == pushed[j - 1]);
            }
            j = j - 1;
        }
        proof {
            assert(self.board.history() =~= h0);
        }
        Ok(played)
    }

    /// The score of the position to `depth` plies within the window `alpha..beta`, from the
    /// side to move's point of view; `None` when the search was told to stop, which leaves
    /// the game where it stood. Draws by rule score the draw score; with mate distance
    /// pruning, a window entirely beyond mating here scores that mate; at the deepest ply the
    /// evaluation scores, and at depth zero the captures are played out (see `quiescence`).
    /// Out of check, when the evaluation reaches `beta` at depth two or more with pieces
    /// other than pawns on the board, a null move is searched at a reduced depth and scores
    /// `beta` when it holds there; at depth below four, an evaluation too far below `alpha`
    /// marks the quiet moves for futility pruning. With no legal move, a mate scores the mate
    /// at this ply against the side to move and a stalemate the draw score. Otherwise the
    /// moves are searched in the order generated, the first with the full window and the
    /// others with a null window first; a move at or above `beta` cuts the search off,
    /// scoring `beta` and, when it captures nothing, becoming a killer move of this ply.
    pub fn alpha_beta(&mut self, depth: i8, alpha: i16, beta: i16) -> (r: Option<i16>)
        requires
            old(self).wf(),
            0 <= depth,
            -INFINITY <= alpha < beta <= INFINITY,
            old(self).position().perft_ok(depth as int),
            old(self).clock_room(),
        ensures
            final(self).wf(),
            final(self).draw_score == old(self).draw_score,
            final(self).properties == old(self).properties,
            r is Some ==> game_of(final(self).board) == game_of(old(self).board) && final(self).ply == old(self).ply,
            r matches Some(s) ==> -INFINITY <= s <= INFINITY,
            r matches Some(s) ==> (-CHECKMATE_SCORE <= alpha && beta <= CHECKMATE_SCORE ==> -CHECKMATE_SCORE <= s
                <= CHECKMATE_SCORE),
            r is None ==> final(self).stopped,
            crate::board::other_draw_spec(old(self).position(), old(self).board.repetitions()) ==> r == Some(
                old(self).draw_score,
            ),
            ({
                let p = old(self).position();
                let mated_here = p.legal_moves_seq().len() == 0 && p.checkers_bb.0 != 0;
                let pruned = old(self).properties.use_mate_distance_pruning_ && old(self).mate_score() < beta
                    && alpha >= old(self).mate_score();
                (mated_here && depth > 0 && old(self).ply < MAX_PLY - 1 && !crate::board::other_draw_spec(
                    p,
                    old(self).board.repetitions(),
                ) && !pruned) ==> (r == Some((-old(self).mate_score()) as i16) || r is None)
            }),
            ({
                let p = old(self).position();
                let stalemate = p.legal_moves_seq().len() == 0 && p.checkers_bb.0 == 0;
                let pruned = old(self).properties.use_mate_distance_pruning_ && old(self).mate_score() < beta
                    && alpha >= old(self).mate_score();
                let lowered = if old(self).properties.use_mate_distance_pruning_ && old(self).mate_score() < beta {
                    old(self).mate_score()
                } else {
                    beta as int
                };
                (stalemate && depth > 0 && old(self).ply < MAX_PLY - 1 && !pruned) ==> (r == Some(old(self).draw_score)
                    || r is None || (depth >= NULL_MOVE_MIN_DEPTH && p.pawns.0 ^ p.kings.0 != p.occupied_bb.0 && r
                    == Some(lowered as i16)))
            }),
            r matches Some(s) ==> s == old(self).value_of(depth as int, alpha as int, beta as int).0
                && final(self).killers() == old(self).value_of(depth as int, alpha as int, beta as int).1,
        decreases depth, 2int,
    {
        let mut alpha = alpha;
        let mut beta = beta;
        let mate_score: i16 = CHECKMATE_SCORE - self.ply as i16;
        if self.board.is_other_draw() {
            return Some(self.draw_score);
        }
        if self.properties.use_mate_distance_pruning() {
            if mate_score < beta {
                beta = mate_score;
                if alpha >= mate_score {
                    return Some(mate_score);
                }
            }
        }
        let position = self.board.get_mini_board().position;
        if self.ply == MAX_PLY - 1 {
            return Some(self.evaluator.evaluate_flipped(&position));
        }
        if self.timer.check_stop(true) {
            self.stopped = true;
            return None;
        }
        if depth == 0 {
            return Some(self.quiescence(alpha, beta));
        }
        self.num_nodes_searched = self.num_nodes_searched.wrapping_add(1);
        let not_in_check = !position.is_check();
        let mut futility_pruning = false;
        if not_in_check && !DISABLE_ALL_PRUNINGS {
            let static_evaluation = self.evaluator.evaluate_flipped(&position);
            if depth >= NULL_MOVE_MIN_DEPTH && static_evaluation >= beta && position.has_non_pawn_material() {
                let reduction: u32 = 1920 + (depth as u32) * 2368;
                let reduced_depth = (((depth as u32) * 4096 - reduction) / 4096) as i8;
                match self.search_null_move(reduced_depth, beta) {
                    Some(score) => {
                        if score >= beta {
                            return Some(beta);
                        }
                    },
                    None => {
                        return None;
                    },
                }
            }
            if depth < 4 && alpha < mate_score {
                let futility_margin: i32 = if depth == 1 {
                    100
                } else if depth == 2 {
                    320
                } else {
                    500
                };
                futility_pruning = static_evaluation as i32 + futility_margin <= alpha as i32;
            }
        }
        let moves = MoveGenerator::new_legal(&position).iter();
        if moves.len() == 0 {
            return if not_in_check { Some(self.draw_score) } else { Some(-mate_score) };
        }
        match self.search_moves(&moves, depth, alpha, beta, futility_pruning && not_in_check) {
            Some((score, _)) => Some(score),
            None => None,
        }
    }

    /// The moves `moves`, the legal moves of the position in the order generated, searched
    /// in turn within the window `alpha..beta`, which narrows as they score; a move scoring
    /// `beta` or more ends the search with `beta` and, when it captures nothing, becomes a
    /// killer move of this ply; a quiet move that raises the window has its history score
    /// raised by the square of the depth, as long as that stays within an `i64`. With
    /// `futility`, every move but the first that captures
    /// nothing, promotes to nothing and is no killer move of this ply is passed over. With no
    /// cut, the best score above `alpha`, or `alpha`. Beside
    /// the score, the index of the last move that raised the window, or the number of moves
    /// when none did.
    #[verifier::rlimit(60)]
    fn search_moves(&mut self, moves: &Vec<Move>, depth: i8, alpha: i16, beta: i16, futility: bool) -> (r: Option<(i16, usize)>)
        requires
            old(self).wf(),
            depth >= 1,
            -INFINITY <= alpha < beta <= INFINITY,
            old(self).position().perft_ok(depth as int),
            old(self).clock_room(),
            moves@ == old(self).position().legal_moves_seq(),
            old(self).ply < MAX_PLY - 1,
        ensures
            final(self).wf(),
            final(self).draw_score == old(self).draw_score,
            final(self).properties == old(self).properties,
            r is Some ==> game_of(final(self).board) == game_of(old(self).board) && final(self).ply == old(self).ply,
            r matches Some((s, k)) ==> -INFINITY <= s <= INFINITY && k <= moves.len(),
            r matches Some((s, k)) ==> (-CHECKMATE_SCORE <= alpha && beta <= CHECKMATE_SCORE ==> -CHECKMATE_SCORE <= s
                <= CHECKMATE_SCORE),
            r is None ==> final(self).stopped,
            r matches Some((s, k)) ==> ({
                let v = moves_value::<P>(
                    old(self).rules(),
                    old(self).board.occurrences(),
                    old(self).position(),
                    old(self).ply as int,
                    old(self).killers(),
                    depth as int,
                    0,
                    alpha as int,
                    beta as int,
                    futility,
                    moves.len() as int,
                );
                s == v.0 && k == v.1 && final(self).killers() == v.2
            }),
        decreases depth, 1int,
    {
        let ghost position = old(self).position();
        let ghost game = game_of(old(self).board);
        let ghost ply = old(self).ply;
        let ghost draw_score = old(self).draw_score;
        let ghost properties = old(self).properties;
        let ghost rules = old(self).rules();
        let ghost occ = old(self).board.occurrences();
        let ghost target = moves_value::<P>(
            rules,
            occ,
            position,
            ply as int,
            old(self).killers(),
            depth as int,
            0,
            alpha as int,
            beta as int,
            futility,
            moves.len() as int,
        );
        let ghost bounded = -CHECKMATE_SCORE <= alpha && beta <= CHECKMATE_SCORE;
        let mut a = alpha;
        let mut best: usize = moves.len();
        let mut i: usize = 0;
        while i < moves.len()
            invariant
                self.wf(),
                i <= moves.len(),
                best <= moves.len(),
                moves@ == position.legal_moves_seq(),
                self.position() == position,
                position.perft_ok(depth as int),
                self.clock_room(),
                depth >= 1,
                game_of(self.board) == game,
                self.ply == ply,
                ply < MAX_PLY - 1,
                -INFINITY <= a < beta <= INFINITY,
                self.draw_score == draw_score,
                self.properties == properties,
                bounded ==> -CHECKMATE_SCORE <= a && beta <= CHECKMATE_SCORE,
                bounded == (-CHECKMATE_SCORE <= alpha && beta <= CHECKMATE_SCORE),
                position == old(self).position(),
                game == game_of(old(self).board),
                ply == old(self).ply,
                draw_score == old(self).draw_score,
                properties == old(self).properties,
                rules == self.rules(),
                occ == self.board.occurrences(),
                target == moves_value::<P>(
                    old(self).rules(),
                    old(self).board.occurrences(),
                    old(self).position(),
                    old(self).ply as int,
                    old(self).killers(),
                    depth as int,
                    0,
                    alpha as int,
                    beta as int,
                    futility,
                    moves.len() as int,
                ),
                moves_value::<P>(
                    rules,
                    occ,
                    position,
                    ply as int,
                    self.killers(),
                    depth as int,
                    i as int,
                    a as int,
                    beta as int,
                    futility,
                    best as int,
                ) == target,
            decreases moves.len() - i,
        {
            let m = moves[i];
            let ghost k0 = self.killers();
            proof {
                assert(position.legal_moves_seq()[i as int] == m);
                assert(k0[ply as int] == self.move_sorter.killers(ply as int));
            }
            let not_capture_move = !self.board.get_mini_board().position.is_capture(m);
            if i != 0 && futility && not_capture_move && m.promotion.is_none() && !self.move_sorter.is_killer_move(
                m,
                self.ply,
            ) {
                i = i + 1;
                continue;
            }
            let score = match self.search_child(m, depth, a, beta, i == 0) {
                Some(s) => s,
                None => {
                    return None;
                },
            };
            let ghost k1 = self.killers();
            if score > a {
                a = score;
                best = i;
                if not_capture_move {
                    let current = self.board.get_mini_board().position;
                    proof {
                        position.lemma_listed_move_legal(m);
                        assert(position.move_fits(m));
                    }
                    let history = self.move_sorter.get_history_score(m, &current);
                    let d = depth as i64;
                    assert(1 <= d * d <= 16129) by (nonlinear_arith)
                        requires
                            1 <= d <= 127,
                    ;
                    if history <= i64::MAX - d * d {
                        self.move_sorter.add_history_move(m, &current, depth);
                    }
                    assert(self.killers() =~= k1);
                }
                if score >= beta {
                    if not_capture_move {
                        self.move_sorter.update_killer_moves(m, self.ply);
                        assert(self.killers() =~= k1.update(ply as int, crate::sort::killers_after(k1[ply as int], m)));
                    }
                    return Some((beta, i));
                }
            }
            i = i + 1;
        }
        Some((a, best))
    }

    /// The score of the position once the captures are played out, within the window
    /// `alpha..beta`: at the deepest ply the evaluation, in a game drawn by rule the draw
    /// score; otherwise the evaluation stands (scoring `beta` when it reaches `beta`) and
    /// raises `alpha`, and the legal captures are searched in the order generated, each a
    /// ply deeper from the other side's point of view: one reaching `beta` scores `beta`, one
    /// above the window raises it, and once a capture scores below the window by more than a
    /// queen (and the value a promotion adds) the window's lower end is returned.
    pub fn quiescence(&mut self, alpha: i16, beta: i16) -> (r: i16)
        requires
            old(self).wf(),
            -INFINITY <= alpha < beta <= INFINITY,
            old(self).position().perft_ok(0),
            old(self).clock_room(),
        ensures
            final(self).wf(),
            game_of(final(self).board) == game_of(old(self).board),
            final(self).ply == old(self).ply,
            final(self).draw_score == old(self).draw_score,
            final(self).properties == old(self).properties,
            final(self).stopped == old(self).stopped,
            -INFINITY <= r <= INFINITY,
            -CHECKMATE_SCORE <= alpha && beta <= CHECKMATE_SCORE ==> -CHECKMATE_SCORE <= r <= CHECKMATE_SCORE,
            old(self).ply < MAX_PLY - 1 && crate::board::other_draw_spec(old(self).position(), old(self).board.repetitions())
                ==> r == old(self).draw_score,
            final(self).move_sorter == old(self).move_sorter,
            r == q_value::<P>(
                old(self).rules(),
                old(self).board.occurrences(),
                old(self).position(),
                old(self).ply as int,
                alpha as int,
                beta as int,
            ),
        decreases MAX_PLY - old(self).ply, 2int,
    {
        let position = self.board.get_mini_board().position;
        if self.ply == MAX_PLY - 1 {
            return self.evaluator.evaluate_flipped(&position);
        }
        if self.board.is_other_draw() {
            return self.draw_score;
        }
        self.num_nodes_searched = self.num_nodes_searched.wrapping_add(1);
        let evaluation = self.evaluator.evaluate_flipped(&position);
        if evaluation >= beta {
            return beta;
        }
        let a = if evaluation > alpha { evaluation } else { alpha };
        let moves = MoveGenerator::new_legal(&position).iter();
        self.quiescence_moves(&moves, a, beta)
    }

    /// The captures among `moves`, the legal moves of the position in the order generated,
    /// played out in turn within the window `alpha..beta` (see `quiescence`).
    #[verifier::rlimit(60)]
    fn quiescence_moves(&mut self, moves: &Vec<Move>, alpha: i16, beta: i16) -> (r: i16)
        requires
            old(self).wf(),
            old(self).ply < MAX_PLY - 1,
            -INFINITY <= alpha < beta <= INFINITY,
            moves@ == old(self).position().legal_moves_seq(),
            old(self).position().perft_ok(0),
            old(self).position().halfmove_clock < 100,
            old(self).clock_room(),
        ensures
            final(self).wf(),
            game_of(final(self).board) == game_of(old(self).board),
            final(self).ply == old(self).ply,
            final(self).draw_score == old(self).draw_score,
            final(self).properties == old(self).properties,
            final(self).stopped == old(self).stopped,
            -INFINITY <= r <= INFINITY,
            -CHECKMATE_SCORE <= alpha && beta <= CHECKMATE_SCORE ==> -CHECKMATE_SCORE <= r <= CHECKMATE_SCORE,
            final(self).move_sorter == old(self).move_sorter,
            r == q_moves_value::<P>(
                old(self).rules(),
                old(self).board.occurrences(),
                old(self).position(),
                old(self).ply as int,
                0,
                alpha as int,
                beta as int,
            ),
        decreases MAX_PLY - old(self).ply, 1int,
    {
        let ghost position = old(self).position();
        let ghost game = game_of(old(self).board);
        let ghost bounded = -CHECKMATE_SCORE <= alpha && beta <= CHECKMATE_SCORE;
        let ghost rules = old(self).rules();
        let ghost occ = old(self).board.occurrences();
        let ghost sorter = old(self).move_sorter;
        let ghost target = q_moves_value::<P>(rules, occ, position, old(self).ply as int, 0, alpha as int, beta as int);
        let mut a = alpha;
        let mut i: usize = 0;
        while i < moves.len()
            invariant
                self.wf(),
                i <= moves.len(),
                moves@ == position.legal_moves_seq(),
                self.position() == position,
                position.perft_ok(0),
                position.halfmove_clock < 100,
                self.clock_room(),
                game_of(self.board) == game,
                self.ply < MAX_PLY - 1,
                -INFINITY <= a < beta <= INFINITY,
                bounded ==> -CHECKMATE_SCORE <= a && beta <= CHECKMATE_SCORE,
                bounded == (-CHECKMATE_SCORE <= alpha && beta <= CHECKMATE_SCORE),
                position == old(self).position(),
                game == game_of(old(self).board),
                self.ply == old(self).ply,
                self.draw_score == old(self).draw_score,
                self.properties == old(self).properties,
                self.stopped == old(self).stopped,
                rules == old(self).rules(),
                rules == self.rules(),
                occ == old(self).board.occurrences(),
                self.move_sorter == sorter,
                sorter == old(self).move_sorter,
                target == q_moves_value::<P>(rules, occ, position, old(self).ply as int, 0, alpha as int, beta as int),
                q_moves_value::<P>(rules, occ, position, self.ply as int, i as int, a as int, beta as int) == target,
            decreases moves.len() - i,
        {
            let m = moves[i];
            proof {
                assert(position.legal_moves_seq()[i as int] == m);
            }
            if self.board.get_mini_board().position.is_capture(m) {
                let score = self.quiescence_child(m, a, beta);
                if score >= beta {
                    return beta;
                }
                if score > a {
                    a = score;
                }
                let mut delta: i32 = 900;
                match m.promotion {
                    Some(pt) => {
                        delta = delta + pt.evaluate() as i32 - 100;
                    },
                    None => {},
                }
                if (score as i32) + delta < (a as i32) {
                    return a;
                }
            }
            i = i + 1;
        }
        a
    }

    /// The score of the capture `m` within the window `alpha..beta`: the move is played, its
    /// captures played out from the other side's point of view, and the move taken back.
    fn quiescence_child(&mut self, m: Move, alpha: i16, beta: i16) -> (r: i16)
        requires
            old(self).wf(),
            old(self).ply < MAX_PLY - 1,
            -INFINITY <= alpha < beta <= INFINITY,
            old(self).position().legal_moves_seq().contains(m),
            old(self).position().perft_ok(0),
            old(self).position().halfmove_clock < 100,
            old(self).clock_room(),
        ensures
            final(self).wf(),
            game_of(final(self).board) == game_of(old(self).board),
            final(self).ply == old(self).ply,
            final(self).draw_score == old(self).draw_score,
            final(self).properties == old(self).properties,
            final(self).stopped == old(self).stopped,
            -INFINITY <= r <= INFINITY,
            -CHECKMATE_SCORE <= alpha && beta <= CHECKMATE_SCORE ==> -CHECKMATE_SCORE <= r <= CHECKMATE_SCORE,
            final(self).move_sorter == old(self).move_sorter,
            r == q_child_value::<P>(
                old(self).rules(),
                old(self).board.occurrences(),
                old(self).position(),
                old(self).ply as int,
                m,
                alpha as int,
                beta as int,
            ),
        decreases MAX_PLY - old(self).ply, 0int,
    {
        let ghost position = old(self).position();
        let ghost game = game_of(old(self).board);
        proof {
            position.lemma_listed_move_legal(m);
            assert(position.move_fits(m));
            assert(position.perft_ok(1));
        }
        self.board.push_unchecked(Some(m));
        proof {
            position.lemma_perft_ok_after(m, 1);
        }
        self.ply = self.ply + 1;
        assert(self.clock_room());
        let t = self.quiescence(-beta, -alpha);
        self.ply = self.ply - 1;
        self.board.pop();
        proof {
            assert(game_of(self.board).2 =~= game.2);
        }
        -t
    }

    /// The score of passing the move to the other side, searched `depth` plies deep with the
    /// null window just below `beta` from the other side's point of view; the pass is taken
    /// back.
    fn search_null_move(&mut self, depth: i8, beta: i16) -> (r: Option<i16>)
        requires
            old(self).wf(),
            0 <= depth,
            -INFINITY < beta <= INFINITY,
            old(self).position().perft_ok(depth + 1),
            old(self).position().halfmove_clock < 100,
            old(self).clock_room(),
            old(self).ply < MAX_PLY - 1,
        ensures
            final(self).wf(),
            final(self).draw_score == old(self).draw_score,
            final(self).properties == old(self).properties,
            r is Some ==> game_of(final(self).board) == game_of(old(self).board) && final(self).ply == old(self).ply,
            r matches Some(s) ==> -INFINITY <= s <= INFINITY,
            r is None ==> final(self).stopped,
            r matches Some(s) ==> ({
                let v = null_value::<P>(
                    old(self).rules(),
                    old(self).board.occurrences(),
                    old(self).position(),
                    old(self).ply as int,
                    old(self).killers(),
                    depth as int,
                    beta as int,
                );
                s == v.0 && final(self).killers() == v.1
            }),
        decreases depth + 1, 0int,
    {
        let ghost position = old(self).position();
        let ghost game = game_of(old(self).board);
        self.board.push_unchecked(None);
        proof {
            lemma_null_position(old(self).board.current(), self.board.current());
        }
        self.ply = self.ply + 1;
        assert(self.position().perft_ok(depth as int));
        assert(self.clock_room());
        let score = match self.alpha_beta(depth, -beta, -beta + 1) {
            Some(t) => -t,
            None => {
                return None;
            },
        };
        self.ply = self.ply - 1;
        self.board.pop();
        proof {
            assert(game_of(self.board).2 =~= game.2);
        }
        Some(score)
    }

    /// The score of move `m` to `depth` plies within the window `alpha..beta`: the move is
    /// played, the position after it searched one ply less deep from the other side's point
    /// of view (for a move but the first, with a null window first and again with the full
    /// window when that score falls inside it), and the move taken back.
    fn search_child(&mut self, m: Move, depth: i8, alpha: i16, beta: i16, first: bool) -> (r: Option<i16>)
        requires
            old(self).wf(),
            depth >= 1,
            -INFINITY <= alpha < beta <= INFINITY,
            old(self).position().perft_ok(depth as int),
            old(self).clock_room(),
            old(self).position().legal_moves_seq().contains(m),
            old(self).ply < MAX_PLY - 1,
        ensures
            final(self).wf(),
            final(self).draw_score == old(self).draw_score,
            final(self).properties == old(self).properties,
            r is Some ==> game_of(final(self).board) == game_of(old(self).board) && final(self).ply == old(self).ply,
            r matches Some(s) ==> -INFINITY <= s <= INFINITY,
            r matches Some(s) ==> (-CHECKMATE_SCORE <= alpha && beta <= CHECKMATE_SCORE ==> -CHECKMATE_SCORE <= s
                <= CHECKMATE_SCORE),
            r is None ==> final(self).stopped,
            r matches Some(s) ==> ({
                let v = child_value::<P>(
                    old(self).rules(),
                    old(self).board.occurrences(),
                    old(self).position(),
                    old(self).ply as int,
                    old(self).killers(),
                    m,
                    depth as int,
                    alpha as int,
                    beta as int,
                    first,
                );
                s == v.0 && final(self).killers() == v.1
            }),
        decreases depth, 0int,
    {
        let ghost position = old(self).position();
        let ghost game = game_of(old(self).board);
        proof {
            position.lemma_listed_move_legal(m);
            assert(position.move_fits(m));
        }
        self.board.push_unchecked(Some(m));
        proof {
            position.lemma_perft_ok_after(m, depth as int);
        }
        self.ply = self.ply + 1;
        assert(self.clock_room());
        let score: i16;
        if first {
            match self.alpha_beta(depth - 1, -beta, -alpha) {
                Some(t) => {
                    score = -t;
                },
                None => {
                    return None;
                },
            }
        } else {
            let mut s: i16;
            match self.alpha_beta(depth - 1, -alpha - 1, -alpha) {
                Some(t) => {
                    s = -t;
                },
                None => {
                    return None;
                },
            }
            if s > alpha && s < beta {
                match self.alpha_beta(depth - 1, -beta, -alpha) {
                    Some(t) => {
                        s = -t;
                    },
                    None => {
                        return None;
                    },
                }
            }
            score = s;
        }
        self.ply = self.ply - 1;
        self.board.pop();
        proof {
            assert(game_of(self.board).2 =~= game.2);
        }
        Some(score)
    }
}

} // verus!
