//! Reading back what is written: the FEN text of a board description reads as that
//! description.
use vstd::prelude::*;
use crate::fen::{
    all_digits, decimal, digit_char, digits_value, fen_piece, fen_square, parse_uint, piece_letter, place_step, place_upto,
    placement_text, placement_upto, split_spaces, split_upto, PlaceState,
};
use crate::piece::{Piece, PieceType};
use crate::builder::{ep_rank_of, fen_ep_clocks, fen_model, fen_side, fen_tail, fen_text, rights_from, side_from, BuilderModel};
use crate::castle::{castle_rights_chars, CastleRights};
use crate::fen::{parse_square, square_text};
use crate::types::{square_at, Color, Square};
use crate::position::{lemma_piece_at_facts, BoardPosition};
use crate::position_move::lemma_position_ext;

verus! {

/// `s` has no space in it.
pub open spec fn no_space(s: Seq<char>) -> bool {
    forall|i: int| 0 <= i < s.len() ==> #[trigger] s[i] != ' '
}

proof fn lemma_split_prefix(s: Seq<char>, a: Seq<char>, n: int)
    requires
        no_space(a),
        0 <= n <= a.len(),
        a.len() <= s.len(),
        forall|i: int| 0 <= i < a.len() ==> #[trigger] s[i] == a[i],
    ensures
        split_upto(s, n) == (Seq::<Seq<char>>::empty(), a.take(n)),
    decreases n,
{
    if n > 0 {
        lemma_split_prefix(s, a, n - 1);
        assert(s[n - 1] == a[n - 1]);
        assert(a.take(n - 1).push(a[n - 1]) =~= a.take(n));
    }
}

proof fn lemma_split_after(a: Seq<char>, b: Seq<char>, k: int)
    requires
        no_space(a),
        0 <= k <= b.len(),
    ensures
        split_upto(a + seq![' '] + b, a.len() + 1 + k) == (seq![a] + split_upto(b, k).0, split_upto(b, k).1),
    decreases k,
{
    let s = a + seq![' '] + b;
    if k == 0 {
        lemma_split_prefix(s, a, a.len() as int);
        assert(a.take(a.len() as int) =~= a);
        assert(s[a.len() as int] == ' ');
        assert(seq![a] =~= Seq::<Seq<char>>::empty().push(a));
    } else {
        lemma_split_after(a, b, k - 1);
        assert(s[a.len() + k] == b[k - 1]);
        let (d0, c0) = split_upto(b, k - 1);
        if b[k - 1] == ' ' {
            assert((seq![a] + d0).push(c0) =~= seq![a] + d0.push(c0));
        }
    }
}

/// Splitting `a`, a space, and `b`: the field `a`, then the fields of `b`.
pub proof fn lemma_split_cons(a: Seq<char>, b: Seq<char>)
    requires
        no_space(a),
    ensures
        split_spaces(a + seq![' '] + b) == seq![a] + split_spaces(b),
{
    lemma_split_after(a, b, b.len() as int);
    let s = a + seq![' '] + b;
    assert(s.len() == a.len() + 1 + b.len());
    let (d, c) = split_upto(b, b.len() as int);
    assert((seq![a] + d).push(c) =~= seq![a] + d.push(c));
}

/// Text with no space is a single field.
pub proof fn lemma_split_single(a: Seq<char>)
    requires
        no_space(a),
    ensures
        split_spaces(a) == seq![a],
{
    lemma_split_prefix(a, a, a.len() as int);
    assert(a.take(a.len() as int) =~= a);
    assert(Seq::<Seq<char>>::empty().push(a) =~= seq![a]);
}

/// Six fields joined by single spaces split back into those six fields.
pub proof fn lemma_split_six(p: Seq<char>, s: Seq<char>, c: Seq<char>, e: Seq<char>, h: Seq<char>, f: Seq<char>)
    requires
        no_space(p),
        no_space(s),
        no_space(c),
        no_space(e),
        no_space(h),
        no_space(f),
    ensures
        split_spaces(p + seq![' '] + (s + seq![' '] + (c + seq![' '] + (e + seq![' '] + (h + seq![' '] + f)))))
            == seq![p, s, c, e, h, f],
{
    lemma_split_single(f);
    lemma_split_cons(h, f);
    lemma_split_cons(e, h + seq![' '] + f);
    lemma_split_cons(c, e + seq![' '] + (h + seq![' '] + f));
    lemma_split_cons(s, c + seq![' '] + (e + seq![' '] + (h + seq![' '] + f)));
    lemma_split_cons(p, s + seq![' '] + (c + seq![' '] + (e + seq![' '] + (h + seq![' '] + f))));
    assert(seq![h] + seq![f] =~= seq![h, f]);
    assert(seq![e] + seq![h, f] =~= seq![e, h, f]);
    assert(seq![c] + seq![e, h, f] =~= seq![c, e, h, f]);
    assert(seq![s] + seq![c, e, h, f] =~= seq![s, c, e, h, f]);
    assert(seq![p] + seq![s, c, e, h, f] =~= seq![p, s, c, e, h, f]);
}

proof fn lemma_digits_value_prefix(a: Seq<char>, b: Seq<char>, n: int)
    requires
        0 <= n <= a.len(),
        n <= b.len(),
        forall|i: int| 0 <= i < n ==> #[trigger] a[i] == b[i],
    ensures
        digits_value(a, n) == digits_value(b, n),
    decreases n,
{
    if n > 0 {
        lemma_digits_value_prefix(a, b, n - 1);
    }
}

proof fn lemma_digit_char(d: int)
    requires
        0 <= d < 10,
    ensures
        digit_char(d) as int - '0' as int == d,
        '0' <= digit_char(d) <= '9',
{
}

/// The decimal digits of `n` are digits, at least one, with value `n`.
pub proof fn lemma_decimal(n: nat)
    ensures
        decimal(n).len() > 0,
        all_digits(decimal(n)),
        no_space(decimal(n)),
        decimal(n)[0] != '+',
        digits_value(decimal(n), decimal(n).len() as int) == n,
    decreases n,
{
    if n < 10 {
        lemma_digit_char(n as int);
        assert(digits_value(decimal(n), 0) == 0);
    } else {
        lemma_decimal(n / 10);
        lemma_digit_char((n % 10) as int);
        let t = decimal(n / 10);
        let s = decimal(n);
        assert(s == t.push(digit_char((n % 10) as int)));
        lemma_digits_value_prefix(s, t, t.len() as int);
        assert(s[0] == t[0]);
        assert(s[s.len() - 1] == digit_char((n % 10) as int));
        assert(digits_value(s, s.len() as int) == digits_value(s, t.len() as int) * 10 + (n % 10));
        assert((n / 10) * 10 + n % 10 == n);
    }
}

/// A number written in decimal reads back as itself.
pub proof fn lemma_parse_decimal(n: nat, max: int)
    requires
        n <= max,
    ensures
        parse_uint(decimal(n), max) == Some(n as int),
{
    lemma_decimal(n);
}

/// Reading all of `s` as a piece placement.
pub open spec fn place_all(s: Seq<char>) -> Option<PlaceState> {
    place_upto(s, s.len() as int)
}

proof fn lemma_place_prefix(a: Seq<char>, b: Seq<char>, n: int)
    requires
        0 <= n <= a.len(),
        n <= b.len(),
        forall|i: int| 0 <= i < n ==> #[trigger] a[i] == b[i],
    ensures
        place_upto(a, n) == place_upto(b, n),
    decreases n,
{
    if n > 0 {
        lemma_place_prefix(a, b, n - 1);
    }
}

proof fn lemma_place_push(a: Seq<char>, c: char)
    ensures
        place_all(a.push(c)) == match place_all(a) {
            Some(st) => place_step(st, c),
            None => None,
        },
{
    lemma_place_prefix(a.push(c), a, a.len() as int);
    assert(a.push(c)[a.len() as int] == c);
}

/// The letter of a piece reads back as the piece.
pub proof fn lemma_piece_letter(p: Piece)
    ensures
        fen_piece(piece_letter(p)) == Some(p),
        piece_letter(p) != ' ',
        piece_letter(p) != '/',
        !('1' <= piece_letter(p) <= '8'),
{
    match p.type_ {
        PieceType::Pawn => {},
        PieceType::Knight => {},
        PieceType::Bishop => {},
        PieceType::Rook => {},
        PieceType::Queen => {},
        PieceType::King => {},
    }
}

/// A FEN placement square index mirrored back: `fen_square` is its own inverse.
proof fn lemma_fen_square(k: int)
    requires
        0 <= k < 64,
    ensures
        0 <= fen_square(k) < 64,
        fen_square(fen_square(k)) == k,
{
}

/// The board after reading the placement text of the first `n` squares in FEN order: the
/// pieces of those squares, nothing elsewhere.
#[verifier::opaque]
pub open spec fn board_upto(pieces: Seq<Option<Piece>>, n: int) -> Seq<Option<Piece>> {
    Seq::new(64, |i: int| if fen_square(i) < n { pieces[i] } else { None })
}

/// Where reading stands after the first `n` squares with `cnt` empty squares not yet
/// written.
pub open spec fn read_state(pieces: Seq<Option<Piece>>, n: int, cnt: int) -> PlaceState {
    (
        if n == 64 { 0 } else { 7 - n / 8 },
        if n % 8 == 0 { 0 } else { n % 8 - cnt },
        board_upto(pieces, n),
    )
}

proof fn lemma_place_digit(st: PlaceState, d: int)
    requires
        1 <= d <= 8,
    ensures
        place_step(st, digit_char(d)) == Some((st.0, (st.1 + d) % 8, st.2)),
        digit_char(d) != ' ',
{
    lemma_digit_char(d);
}

/// The text written for the `k`-th square in FEN order after `out`, with `cnt` empty squares
/// pending, and the new count.
pub open spec fn square_step(pieces: Seq<Option<Piece>>, k: int, out: Seq<char>, cnt: int) -> (Seq<char>, int) {
    match pieces[fen_square(k)] {
        Some(p) => (out + (if cnt != 0 { seq![digit_char(cnt)] } else { Seq::empty() }) + seq![piece_letter(p)], 0int),
        None => (out, cnt + 1),
    }
}

/// The text written at the end of a rank.
pub open spec fn rank_end(k: int, out: Seq<char>, cnt: int) -> Seq<char> {
    out + (if cnt != 0 { seq![digit_char(cnt)] } else { Seq::empty() }) + (if k != 63 { seq!['/'] } else { Seq::empty() })
}

proof fn lemma_board_step(pieces: Seq<Option<Piece>>, k: int)
    requires
        pieces.len() == 64,
        0 <= k < 64,
    ensures
        board_upto(pieces, k + 1) == board_upto(pieces, k).update(fen_square(k), pieces[fen_square(k)]),
        board_upto(pieces, k).len() == 64,
        board_upto(pieces, k)[fen_square(k)] is None,
{
    reveal(board_upto);
    lemma_fen_square(k);
    assert forall|i: int| 0 <= i < 64 implies #[trigger] board_upto(pieces, k + 1)[i] == board_upto(pieces, k).update(
        fen_square(k),
        pieces[fen_square(k)],
    )[i] by {
        lemma_fen_square(i);
    }
    assert(board_upto(pieces, k + 1) =~= board_upto(pieces, k).update(fen_square(k), pieces[fen_square(k)]));
}

proof fn lemma_square_read(pieces: Seq<Option<Piece>>, k: int, out: Seq<char>, cnt: int)
    requires
        pieces.len() == 64,
        0 <= k < 64,
        no_space(out),
        0 <= cnt <= k % 8,
        place_all(out) == Some(read_state(pieces, k, cnt)),
    ensures
        no_space(square_step(pieces, k, out, cnt).0),
        square_step(pieces, k, out, cnt).1 == if pieces[fen_square(k)] is Some { 0 } else { cnt + 1 },
        place_all(square_step(pieces, k, out, cnt).0) == Some(
            (
                7 - k / 8,
                if pieces[fen_square(k)] is Some { (k % 8 + 1) % 8 } else { k % 8 - cnt },
                board_upto(pieces, k + 1),
            ),
        ),
{
    lemma_fen_square(k);
    lemma_board_step(pieces, k);
    let st = read_state(pieces, k, cnt);
    let sq = fen_square(k);
    let out2 = square_step(pieces, k, out, cnt).0;
    match pieces[sq] {
        Some(p) => {
            lemma_piece_letter(p);
            if cnt != 0 {
                lemma_place_digit(st, cnt);
                lemma_place_push(out, digit_char(cnt));
                let o1 = out.push(digit_char(cnt));
                lemma_place_push(o1, piece_letter(p));
                assert(out2 =~= o1.push(piece_letter(p)));
            } else {
                lemma_place_push(out, piece_letter(p));
                assert(out2 =~= out.push(piece_letter(p)));
            }
        },
        None => {
            assert(board_upto(pieces, k).update(sq, None) =~= board_upto(pieces, k));
        },
    }
}

proof fn lemma_rank_end_read(pieces: Seq<Option<Piece>>, k: int, out: Seq<char>, cnt: int)
    requires
        pieces.len() == 64,
        0 <= k < 64,
        k % 8 == 7,
        no_space(out),
        0 <= cnt <= 8,
        place_all(out) == Some((7 - k / 8, (8 - cnt) % 8, board_upto(pieces, k + 1))),
    ensures
        no_space(rank_end(k, out, cnt)),
        place_all(rank_end(k, out, cnt)) == Some(read_state(pieces, k + 1, 0)),
{
    let r = 7 - k / 8;
    let st3: PlaceState = (r, 0, board_upto(pieces, k + 1));
    let o2 = if cnt != 0 { out.push(digit_char(cnt)) } else { out };
    if cnt != 0 {
        lemma_place_digit((r, (8 - cnt) % 8, board_upto(pieces, k + 1)), cnt);
        lemma_place_push(out, digit_char(cnt));
    }
    assert(place_all(o2) == Some(st3));
    if k != 63 {
        lemma_place_push(o2, '/');
        assert(rank_end(k, out, cnt) =~= o2.push('/'));
    } else {
        assert(rank_end(k, out, cnt) =~= o2);
    }
}

proof fn lemma_placement_unfold(pieces: Seq<Option<Piece>>, n: int)
    requires
        0 < n,
    ensures
        placement_upto(pieces, n) == ({
            let k = n - 1;
            let (out, cnt) = placement_upto(pieces, k);
            let (out2, cnt2) = square_step(pieces, k, out, cnt);
            if k % 8 == 7 {
                (rank_end(k, out2, cnt2), 0int)
            } else {
                (out2, cnt2)
            }
        }),
{
}

/// Reading the placement text of the first `n` squares puts their pieces on the board.
#[verifier::spinoff_prover]
#[verifier::rlimit(30)]
proof fn lemma_placement_read(pieces: Seq<Option<Piece>>, n: int)
    requires
        pieces.len() == 64,
        0 <= n <= 64,
    ensures
        no_space(placement_upto(pieces, n).0),
        0 <= placement_upto(pieces, n).1 <= n % 8,
        place_all(placement_upto(pieces, n).0) == Some(read_state(pieces, n, placement_upto(pieces, n).1)),
    decreases n,
{
    if n == 0 {
        reveal(board_upto);
        assert(board_upto(pieces, 0) =~= crate::fen::empty_pieces());
    } else {
        let k = n - 1;
        lemma_placement_read(pieces, k);
        let (out, cnt) = placement_upto(pieces, k);
        lemma_square_read(pieces, k, out, cnt);
        let (out2, cnt2) = square_step(pieces, k, out, cnt);
        lemma_placement_unfold(pieces, n);
        if k % 8 == 7 {
            lemma_rank_end_read(pieces, k, out2, cnt2);
        }
    }
}

/// The side-to-move field written for `turn`.
pub open spec fn side_field(turn: Color) -> Seq<char> {
    if turn == Color::White { seq!['w'] } else { seq!['b'] }
}

/// The castling field written for `white` and `black`.
pub open spec fn castle_field(white: CastleRights, black: CastleRights) -> Seq<char> {
    castle_rights_chars(white, Color::White) + castle_rights_chars(black, Color::Black) + (if white == CastleRights::NoRights
        && black == CastleRights::NoRights {
        seq!['-']
    } else {
        Seq::empty()
    })
}

/// The en passant field written for `ep`.
pub open spec fn ep_field(ep: Option<Square>) -> Seq<char> {
    match ep {
        Some(sq) => square_text(sq.index()),
        None => seq!['-'],
    }
}

proof fn lemma_side_field(turn: Color)
    ensures
        no_space(side_field(turn)),
        side_from(side_field(turn)) == Some(turn),
{
    if turn == Color::White {
        assert(side_field(turn) =~= seq!['w']);
    } else {
        assert(side_field(turn) =~= seq!['b']);
        assert(side_field(turn)[0] != seq!['w'][0]);
        assert(side_field(turn)[0] != seq!['W'][0]);
    }
}

/// The castling field gives each side its rights back.
proof fn lemma_castle_field(white: CastleRights, black: CastleRights)
    ensures
        no_space(castle_field(white, black)),
        rights_from(castle_field(white, black), 'K', 'Q') == white,
        rights_from(castle_field(white, black), 'k', 'q') == black,
{
    let c = castle_field(white, black);
    let w = castle_rights_chars(white, Color::White);
    let b = castle_rights_chars(black, Color::Black);
    assert(forall|i: int| 0 <= i < w.len() ==> w[i] == 'K' || w[i] == 'Q');
    assert(forall|i: int| 0 <= i < b.len() ==> b[i] == 'k' || b[i] == 'q');
    assert(w.contains('K') == white.kingside()) by {
        if white.kingside() {
            assert(w[0] == 'K');
        }
    }
    assert(w.contains('Q') == white.queenside()) by {
        if white == CastleRights::QueenSide {
            assert(w[0] == 'Q');
        } else if white == CastleRights::Both {
            assert(w[1] == 'Q');
        }
    }
    assert(b.contains('k') == black.kingside()) by {
        if black.kingside() {
            assert(b[0] == 'k');
        }
    }
    assert(b.contains('q') == black.queenside()) by {
        if black == CastleRights::QueenSide {
            assert(b[0] == 'q');
        } else if black == CastleRights::Both {
            assert(b[1] == 'q');
        }
    }
    assert forall|x: char| #[trigger] c.contains(x) == (w.contains(x) || b.contains(x) || (white == CastleRights::NoRights
        && black == CastleRights::NoRights && x == '-')) by {
        if c.contains(x) {
            let i = choose|i: int| 0 <= i < c.len() && c[i] == x;
            if i < w.len() {
                assert(w[i] == x);
            } else if i < w.len() + b.len() {
                assert(b[i - w.len()] == x);
            }
        }
        if w.contains(x) {
            let i = choose|i: int| 0 <= i < w.len() && w[i] == x;
            assert(c[i] == x);
        }
        if b.contains(x) {
            let i = choose|i: int| 0 <= i < b.len() && b[i] == x;
            assert(c[(w.len() + i) as int] == x);
        }
        if white == CastleRights::NoRights && black == CastleRights::NoRights && x == '-' {
            assert(c[(w.len() + b.len()) as int] == '-');
        }
    }
}

/// The en passant field of a square on rank `rank` and file `f` gives the file back.
proof fn lemma_ep_field(rank: int, file: Option<int>)
    requires
        0 <= rank < 8,
        file matches Some(f) ==> 0 <= f < 8,
    ensures
        ({
            let e = ep_field(
                match file {
                    Some(f) => Some(square_at(rank * 8 + f)),
                    None => None,
                },
            );
            &&& no_space(e)
            &&& match parse_square(e) {
                Some(sq) => Some(sq.file()),
                None => None,
            } == file
        }),
{
    if let Some(f) = file {
        let i = rank * 8 + f;
        crate::types::lemma_square_at_range(i);
        square_at(i).lemma_square_at_index();
        assert(square_at(i).index() == i);
        assert(parse_square(square_text(i)) == Some(square_at(i)));
        assert(square_at(i).file() == f);
    }
}

proof fn lemma_fen_side_fields(turn: Color, white: CastleRights, black: CastleRights)
    ensures
        fen_side(turn, white, black) == seq![' '] + (side_field(turn) + (seq![' '] + castle_field(white, black))),
{
    reveal(fen_side);
    assert(fen_side(turn, white, black) =~= seq![' '] + (side_field(turn) + (seq![' '] + castle_field(white, black))));
}

proof fn lemma_fen_ep_fields(ep: Option<Square>, halfmove: u8, fullmove: u16)
    ensures
        fen_ep_clocks(ep, halfmove, fullmove) == seq![' '] + (ep_field(ep) + (seq![' '] + (decimal(halfmove as nat) + (
        seq![' '] + decimal(fullmove as nat))))),
{
    reveal(fen_ep_clocks);
    assert(fen_ep_clocks(ep, halfmove, fullmove) =~= seq![' '] + (ep_field(ep) + (seq![' '] + (decimal(halfmove as nat) + (
    seq![' '] + decimal(fullmove as nat))))));
}

proof fn lemma_fields_assoc(p: Seq<char>, s: Seq<char>, c: Seq<char>, e: Seq<char>, h: Seq<char>, f: Seq<char>)
    ensures
        p + ((seq![' '] + (s + (seq![' '] + c))) + (seq![' '] + (e + (seq![' '] + (h + (seq![' '] + f)))))) == p + seq![
            ' ',
        ] + (s + seq![' '] + (c + seq![' '] + (e + seq![' '] + (h + seq![' '] + f)))),
{
    assert(p + ((seq![' '] + (s + (seq![' '] + c))) + (seq![' '] + (e + (seq![' '] + (h + (seq![' '] + f))))))
        =~= p + seq![' '] + (s + seq![' '] + (c + seq![' '] + (e + seq![' '] + (h + seq![' '] + f)))));
}

/// The FEN text of a description, field by field.
proof fn lemma_fen_text_fields(m: BuilderModel)
    ensures
        fen_text(m, ep_rank_of(m.1)) == placement_text(m.0) + seq![' '] + (side_field(m.1) + seq![' '] + (castle_field(
            m.2,
            m.3,
        ) + seq![' '] + (ep_field(
            match m.4 {
                Some(f) => Some(square_at(ep_rank_of(m.1) * 8 + f)),
                None => None,
            },
        ) + seq![' '] + (decimal(m.5 as nat) + seq![' '] + decimal(m.6 as nat))))),
{
    let ep = match m.4 {
        Some(f) => Some(square_at(ep_rank_of(m.1) * 8 + f)),
        None => None,
    };
    lemma_fen_side_fields(m.1, m.2, m.3);
    lemma_fen_ep_fields(ep, m.5, m.6);
    lemma_fields_assoc(
        placement_text(m.0),
        side_field(m.1),
        castle_field(m.2, m.3),
        ep_field(ep),
        decimal(m.5 as nat),
        decimal(m.6 as nat),
    );
}

/// Writing a board description as FEN text and reading the text back gives the description:
/// the same piece on every square, side to move, castle rights, en passant file and move
/// clocks.
#[verifier::spinoff_prover]
pub proof fn law_fen_round_trip(m: BuilderModel)
    requires
        m.0.len() == 64,
        m.4 matches Some(f) ==> 0 <= f < 8,
    ensures
        fen_model(fen_text(m, ep_rank_of(m.1))) == Some(m),
{
    let p = placement_text(m.0);
    lemma_placement_read(m.0, 64);
    assert(board_upto(m.0, 64) =~= m.0) by {
        reveal(board_upto);
    }
    let ep = match m.4 {
        Some(f) => Some(square_at(ep_rank_of(m.1) * 8 + f)),
        None => None,
    };
    lemma_side_field(m.1);
    lemma_castle_field(m.2, m.3);
    lemma_ep_field(ep_rank_of(m.1), m.4);
    lemma_parse_decimal(m.5 as nat, 255);
    lemma_parse_decimal(m.6 as nat, 65535);
    lemma_decimal(m.5 as nat);
    lemma_decimal(m.6 as nat);
    lemma_fen_text_fields(m);
    lemma_split_six(p, side_field(m.1), castle_field(m.2, m.3), ep_field(ep), decimal(m.5 as nat), decimal(m.6 as nat));
}

/// Reading back the FEN text of a sane position gives the position itself, whenever its en
/// passant square is one the text can describe (on the third rank of the side that just moved,
/// next to a pawn that can take): the text reads, the position is one it describes, and any
/// well-formed position it describes is this one.
pub proof fn law_position_fen_round_trip(p: BoardPosition, q: BoardPosition)
    requires
        p.wf(),
        p.info_ok(),
        p.sane_spec(),
        p.ep == p.ep_from_builder(p.builder_model()),
        q.wf(),
        q.info_ok(),
        q.describes(p.builder_model()),
    ensures
        fen_model(fen_text(p.builder_model(), ep_rank_of(p.turn_))) == Some(p.builder_model()),
        p.describes(p.builder_model()),
        q == p,
{
    let m = p.builder_model();
    if let Some(sq) = p.ep {
        sq.lemma_index_range();
    }
    law_fen_round_trip(m);
    assert forall|i: int| #[trigger] q.piece_at(i) == p.piece_at(i) by {
        lemma_piece_at_facts(p, i);
        lemma_piece_at_facts(q, i);
        if 0 <= i < 64 {
            assert(q.piece_at(i) == m.0[i]);
        }
    }
    if let Some(f) = m.4 {
        let pawn = Piece { type_: PieceType::Pawn, color: m.1 };
        let r = if m.1 == Color::White { 4int } else { 3int };
        if exists|j: int| #[trigger] q.piece_at(j) == Some(pawn) && crate::attacks::rk(j) == r && (crate::attacks::fl(j)
            == f + 1 || crate::attacks::fl(j) == f - 1) {
            let j = choose|j: int| #[trigger] q.piece_at(j) == Some(pawn) && crate::attacks::rk(j) == r && (
            crate::attacks::fl(j) == f + 1 || crate::attacks::fl(j) == f - 1);
            assert(p.piece_at(j) == Some(pawn));
        }
        if exists|j: int| #[trigger] p.piece_at(j) == Some(pawn) && crate::attacks::rk(j) == r && (crate::attacks::fl(j)
            == f + 1 || crate::attacks::fl(j) == f - 1) {
            let j = choose|j: int| #[trigger] p.piece_at(j) == Some(pawn) && crate::attacks::rk(j) == r && (
            crate::attacks::fl(j) == f + 1 || crate::attacks::fl(j) == f - 1);
            assert(q.piece_at(j) == Some(pawn));
        }
    }
    assert(q.ep_from_builder(m) == p.ep_from_builder(m));
    lemma_position_ext(p, q);
}

} // verus!
