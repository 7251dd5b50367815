//! The value the search computes, written as recursive functions over the game: the
//! occurrences of positions so far, the position, the ply, the killer moves of every ply and
//! the depth and window left. The killer moves are threaded through, as the search both reads
//! and updates them; the evaluation is the one the engine is given.
use vstd::prelude::*;
use vstd::multiset::Multiset;
use crate::board::{after_spec, other_draw_spec};
use crate::mini_board::MiniBoard;
use crate::moves::Move;
use crate::piece::piece_value;
use crate::position::{BoardPosition, BoardStatus};
use crate::position_move::lemma_position_ext;
use crate::search::{PositionEvaluation, CHECKMATE_SCORE, INFINITY, NULL_MOVE_MIN_DEPTH};
use crate::sort::{killers_after, MoveSorter, MAX_PLY};

verus! {

/// The killer moves of every ply of `s`.
pub open spec fn killers_of(s: MoveSorter) -> Seq<Seq<Option<Move>>> {
    Seq::new(MAX_PLY as nat, |p: int| s.killers(p))
}

/// How often `pos` has occurred, counted up to 255.
pub open spec fn repetitions_in(occ: Multiset<u64>, pos: BoardPosition) -> int {
    let n = occ.count(pos.hash_spec());
    if n > 255 {
        255
    } else {
        n as int
    }
}

/// The position after passing the move.
pub open spec fn null_position(pos: BoardPosition) -> BoardPosition {
    (choose|r: MiniBoard| after_spec(MiniBoard { position: pos }, None, r)).position
}

/// The depth a null move is searched to from `depth`.
pub open spec fn null_depth(depth: int) -> int {
    (depth * 4096 - (1920 + depth * 2368)) / 4096
}

/// How far below `alpha` the evaluation may stand before quiet moves are pruned at `depth`.
pub open spec fn futility_margin(depth: int) -> int {
    if depth == 1 {
        100
    } else if depth == 2 {
        320
    } else {
        500
    }
}

/// A null move from depth two or more is searched less deep, and not below zero.
pub proof fn lemma_null_depth(depth: int)
    requires
        depth >= 2,
    ensures
        0 <= null_depth(depth) < depth,
{
    assert(depth * 4096 - (1920 + depth * 2368) == 1728 * depth - 1920);
    assert(0 <= (1728 * depth - 1920) / 4096 < depth) by (nonlinear_arith)
        requires
            depth >= 2,
    ;
}

/// Passing the move from a well-formed board gives `null_position`.
pub proof fn lemma_null_position(b: MiniBoard, r: MiniBoard)
    requires
        after_spec(b, None, r),
    ensures
        r.position == null_position(b.position),
{
    assert(MiniBoard { position: b.position } == b);
    let c = choose|x: MiniBoard| after_spec(MiniBoard { position: b.position }, None, x);
    assert(after_spec(b, None, c));
    assert forall|i: int| #[trigger] r.position.piece_at(i) == c.position.piece_at(i) by {}
    lemma_position_ext(r.position, c.position);
}

/// The score of the search from `pos` at `ply`, `depth` plies deep within `alpha..beta`, with
/// the rules `c` (whether mate distance pruning is on, and the draw score), with the killer
/// moves `k` it starts from and those it leaves.
pub open spec fn ab_value<P: PositionEvaluation>(
    c: (bool, int),
    occ: Multiset<u64>,
    pos: BoardPosition,
    ply: int,
    k: Seq<Seq<Option<Move>>>,
    depth: int,
    alpha: int,
    beta: int,
) -> (int, Seq<Seq<Option<Move>>>)
    decreases depth, 3int, 0int,
{
    let mate = CHECKMATE_SCORE - ply;
    let b = if c.0 && mate < beta {
        mate
    } else {
        beta
    };
    if other_draw_spec(pos, repetitions_in(occ, pos)) {
        (c.1, k)
    } else if c.0 && mate < beta && alpha >= mate {
        (mate, k)
    } else if ply == MAX_PLY - 1 {
        (P::value(pos), k)
    } else if depth <= 0 {
        (q_value::<P>(c, occ, pos, ply, alpha, b), k)
    } else {
        let quiet_side = pos.checkers_bb.0 == 0;
        let ev = P::value(pos);
        let tries_null = quiet_side && depth >= NULL_MOVE_MIN_DEPTH && ev >= b && pos.pawns.0 ^ pos.kings.0
            != pos.occupied_bb.0;
        let null = if tries_null {
            proof {
                lemma_null_depth(depth);
            }
            null_value::<P>(c, occ, pos, ply, k, null_depth(depth), b)
        } else {
            (0int, k)
        };
        if tries_null && null.0 >= b {
            (b, null.1)
        } else if pos.legal_moves_seq().len() == 0 {
            (
                if quiet_side {
                    c.1
                } else {
                    -mate
                },
                null.1,
            )
        } else {
            let fut = quiet_side && depth < 4 && alpha < mate && ev + futility_margin(depth) <= alpha;
            let r = moves_value::<P>(c, occ, pos, ply, null.1, depth, 0, alpha, b, fut, pos.legal_moves_seq().len() as int);
            (r.0, r.2)
        }
    }
}

/// The legal moves of `pos` from the `i`-th on, searched in turn within `a..beta`: the score,
/// the index of the last move that raised the window (`best` when none did from here), and
/// the killer moves left.
pub open spec fn moves_value<P: PositionEvaluation>(
    c: (bool, int),
    occ: Multiset<u64>,
    pos: BoardPosition,
    ply: int,
    k: Seq<Seq<Option<Move>>>,
    depth: int,
    i: int,
    a: int,
    beta: int,
    fut: bool,
    best: int,
) -> (int, int, Seq<Seq<Option<Move>>>)
    decreases depth, 2int, pos.legal_moves_seq().len() - i,
{
    let moves = pos.legal_moves_seq();
    if i < 0 || i >= moves.len() {
        (a, best, k)
    } else {
        let m = moves[i];
        let quiet = !pos.capture_spec(m);
        if i != 0 && fut && quiet && m.promotion is None && !k[ply].contains(Some(m)) {
            moves_value::<P>(c, occ, pos, ply, k, depth, i + 1, a, beta, fut, best)
        } else {
            let child = child_value::<P>(c, occ, pos, ply, k, m, depth, a, beta, i == 0);
            if child.0 > a && child.0 >= beta {
                (
                    beta,
                    i,
                    if quiet {
                        child.1.update(ply, killers_after(child.1[ply], m))
                    } else {
                        child.1
                    },
                )
            } else if child.0 > a {
                moves_value::<P>(c, occ, pos, ply, child.1, depth, i + 1, child.0, beta, fut, i)
            } else {
                moves_value::<P>(c, occ, pos, ply, child.1, depth, i + 1, a, beta, fut, best)
            }
        }
    }
}

/// The score of move `m` from `pos` within `a..beta` (the first move with the full window,
/// another with a null window and, when it lands inside, again with the full window), with
/// the killer moves left.
pub open spec fn child_value<P: PositionEvaluation>(
    c: (bool, int),
    occ: Multiset<u64>,
    pos: BoardPosition,
    ply: int,
    k: Seq<Seq<Option<Move>>>,
    m: Move,
    depth: int,
    a: int,
    beta: int,
    first: bool,
) -> (int, Seq<Seq<Option<Move>>>)
    decreases depth, 1int, 0int,
{
    let child = pos.after_move(m);
    let occ1 = occ.insert(child.hash_spec());
    if depth <= 0 {
        (a, k)
    } else if first {
        let t = ab_value::<P>(c, occ1, child, ply + 1, k, depth - 1, -beta, -a);
        (-t.0, t.1)
    } else {
        let t = ab_value::<P>(c, occ1, child, ply + 1, k, depth - 1, -a - 1, -a);
        if -t.0 > a && -t.0 < beta {
            let t2 = ab_value::<P>(c, occ1, child, ply + 1, t.1, depth - 1, -beta, -a);
            (-t2.0, t2.1)
        } else {
            (-t.0, t.1)
        }
    }
}

/// The score of passing the move at `pos`, searched `reduced` plies deep with the null
/// window just below `beta`, with the killer moves left.
pub open spec fn null_value<P: PositionEvaluation>(
    c: (bool, int),
    occ: Multiset<u64>,
    pos: BoardPosition,
    ply: int,
    k: Seq<Seq<Option<Move>>>,
    reduced: int,
    beta: int,
) -> (int, Seq<Seq<Option<Move>>>)
    decreases reduced + 1, 0int, 0int,
{
    if reduced < 0 {
        (0, k)
    } else {
        let child = null_position(pos);
        let t = ab_value::<P>(c, occ.insert(child.hash_spec()), child, ply + 1, k, reduced, -beta, -beta + 1);
        (-t.0, t.1)
    }
}

/// The score of playing out the captures from `pos` at `ply` within `alpha..beta`.
pub open spec fn q_value<P: PositionEvaluation>(
    c: (bool, int),
    occ: Multiset<u64>,
    pos: BoardPosition,
    ply: int,
    alpha: int,
    beta: int,
) -> int
    decreases MAX_PLY - ply, 2int, 0int,
{
    if ply >= MAX_PLY - 1 {
        P::value(pos)
    } else if other_draw_spec(pos, repetitions_in(occ, pos)) {
        c.1
    } else {
        let ev = P::value(pos);
        if ev >= beta {
            beta
        } else {
            q_moves_value::<P>(
                c,
                occ,
                pos,
                ply,
                0,
                if ev > alpha {
                    ev
                } else {
                    alpha
                },
                beta,
            )
        }
    }
}

/// The captures among the legal moves of `pos` from the `i`-th on, played out in turn within
/// `a..beta`.
pub open spec fn q_moves_value<P: PositionEvaluation>(
    c: (bool, int),
    occ: Multiset<u64>,
    pos: BoardPosition,
    ply: int,
    i: int,
    a: int,
    beta: int,
) -> int
    decreases MAX_PLY - ply, 1int, pos.legal_moves_seq().len() - i,
{
    let moves = pos.legal_moves_seq();
    if i < 0 || i >= moves.len() {
        a
    } else {
        let m = moves[i];
        if pos.capture_spec(m) {
            let score = q_child_value::<P>(c, occ, pos, ply, m, a, beta);
            if score >= beta {
                beta
            } else {
                let a1 = if score > a {
                    score
                } else {
                    a
                };
                let delta = 900 + match m.promotion {
                    Some(pt) => piece_value(pt) - 100,
                    None => 0,
                };
                if score + delta < a1 {
                    a1
                } else {
                    q_moves_value::<P>(c, occ, pos, ply, i + 1, a1, beta)
                }
            }
        } else {
            q_moves_value::<P>(c, occ, pos, ply, i + 1, a, beta)
        }
    }
}

/// The score of the capture `m` from `pos` within `a..beta`, its captures played out.
pub open spec fn q_child_value<P: PositionEvaluation>(
    c: (bool, int),
    occ: Multiset<u64>,
    pos: BoardPosition,
    ply: int,
    m: Move,
    a: int,
    beta: int,
) -> int
    decreases MAX_PLY - ply, 0int, 0int,
{
    if ply >= MAX_PLY - 1 {
        0
    } else {
        let child = pos.after_move(m);
        -q_value::<P>(c, occ.insert(child.hash_spec()), child, ply + 1, -beta, -a)
    }
}

/// Is the game over at `pos`, given the occurrences `occ`: drawn by rule, or without a legal
/// move?
pub open spec fn game_over_spec(pos: BoardPosition, occ: Multiset<u64>) -> bool {
    other_draw_spec(pos, repetitions_in(occ, pos)) || pos.status_spec() != BoardStatus::Ongoing
}

/// The position and occurrences after playing `ms` from `pos` with the occurrences `occ`.
pub open spec fn line_end(pos: BoardPosition, occ: Multiset<u64>, ms: Seq<Move>) -> (BoardPosition, Multiset<u64>)
    decreases ms.len(),
{
    if ms.len() == 0 {
        (pos, occ)
    } else {
        let e = line_end(pos, occ, ms.drop_last());
        let n = e.0.after_move(ms.last());
        (n, e.1.insert(n.hash_spec()))
    }
}

/// Each move of `ms` is legal where it is played, in a game not yet over there.
pub open spec fn line_played(pos: BoardPosition, occ: Multiset<u64>, ms: Seq<Move>) -> bool
    decreases ms.len(),
{
    ms.len() == 0 || (line_played(pos, occ, ms.drop_last()) && {
        let e = line_end(pos, occ, ms.drop_last());
        !game_over_spec(e.0, e.1) && e.0.legal_moves_seq().contains(ms.last())
    })
}

/// The best move and score of a search of the root `depth` plies deep with the full window,
/// and the killer moves left: no move for a game drawn by rule or without legal moves.
pub open spec fn root_value<P: PositionEvaluation>(
    c: (bool, int),
    occ: Multiset<u64>,
    pos: BoardPosition,
    ply: int,
    k: Seq<Seq<Option<Move>>>,
    depth: int,
) -> (Option<Move>, int, Seq<Seq<Option<Move>>>) {
    let n = pos.legal_moves_seq().len() as int;
    if other_draw_spec(pos, repetitions_in(occ, pos)) {
        (None, c.1, k)
    } else if n == 0 {
        (
            None,
            if pos.checkers_bb.0 != 0 {
                -(CHECKMATE_SCORE - ply)
            } else {
                c.1
            },
            k,
        )
    } else {
        let v = moves_value::<P>(c, occ, pos, ply, k, depth, 0, -INFINITY as int, INFINITY as int, false, n);
        (
            if v.1 < n {
                Some(pos.legal_moves_seq()[v.1])
            } else {
                None
            },
            v.0,
            v.2,
        )
    }
}

/// Searching the root one ply deeper at a time from `d` to `last`: the last move found, the
/// last score and the killer moves left, starting from `best` and `score`.
pub open spec fn deepening<P: PositionEvaluation>(
    c: (bool, int),
    occ: Multiset<u64>,
    pos: BoardPosition,
    ply: int,
    k: Seq<Seq<Option<Move>>>,
    d: int,
    last: int,
    best: Option<Move>,
    score: int,
) -> (Option<Move>, int, Seq<Seq<Option<Move>>>)
    decreases last - d + 1,
{
    if d > last {
        (best, score, k)
    } else {
        let r = root_value::<P>(c, occ, pos, ply, k, d);
        deepening::<P>(
            c,
            occ,
            pos,
            ply,
            r.2,
            d + 1,
            last,
            if r.0 is Some {
                r.0
            } else {
                best
            },
            r.1,
        )
    }
}

/// One more ply of deepening searches the root once more from where the shallower ones left
/// off.
pub proof fn lemma_deepening_step<P: PositionEvaluation>(
    c: (bool, int),
    occ: Multiset<u64>,
    pos: BoardPosition,
    ply: int,
    k: Seq<Seq<Option<Move>>>,
    d: int,
    last: int,
    best: Option<Move>,
    score: int,
)
    requires
        d <= last + 1,
    ensures
        ({
            let prev = deepening::<P>(c, occ, pos, ply, k, d, last, best, score);
            let r = root_value::<P>(c, occ, pos, ply, prev.2, last + 1);
            deepening::<P>(c, occ, pos, ply, k, d, last + 1, best, score) == (
                if r.0 is Some {
                    r.0
                } else {
                    prev.0
                },
                r.1,
                r.2,
            )
        }),
    decreases last - d + 1,
{
    if d > last {
        let r = root_value::<P>(c, occ, pos, ply, k, d);
        let nb = if r.0 is Some {
            r.0
        } else {
            best
        };
        assert(deepening::<P>(c, occ, pos, ply, r.2, d + 1, last + 1, nb, r.1) == (nb, r.1, r.2));
    } else {
        let r = root_value::<P>(c, occ, pos, ply, k, d);
        lemma_deepening_step::<P>(
            c,
            occ,
            pos,
            ply,
            r.2,
            d + 1,
            last,
            if r.0 is Some {
                r.0
            } else {
                best
            },
            r.1,
        );
    }
}

} // verus!
