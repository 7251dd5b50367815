//! A free-form description of a position, square by square, that FEN text is read into and
//! written from.
use vstd::prelude::*;
use crate::castle::CastleRights;
use crate::error::TimecatError;
use crate::castle::castle_rights_chars;
use crate::fen::{
    decimal, fen_piece, parse_number, parse_square, parse_uint, place_step, place_upto, placement_text, push_decimal,
    push_placement, split_fields, split_spaces, square_from_chars, square_text, PlaceState,
};
use crate::piece::{Piece, PieceType};
use crate::types::{square_at, Color, File, Rank, Square};

verus! {

/// What a builder describes: the piece on each square, the side to move, the castle rights of
/// white and black, the en passant file, and the two move clocks.
pub type BuilderModel = (Seq<Option<Piece>>, Color, CastleRights, CastleRights, Option<int>, u8, u16);

/// The rights a castling field gives one side: `kingside` and `queenside` are that side's
/// letters.
pub open spec fn rights_from(field: Seq<char>, kingside: char, queenside: char) -> CastleRights {
    if field.contains(kingside) && field.contains(queenside) {
        CastleRights::Both
    } else if field.contains(kingside) {
        CastleRights::KingSide
    } else if field.contains(queenside) {
        CastleRights::QueenSide
    } else {
        CastleRights::NoRights
    }
}

/// The side a side-to-move field names.
pub open spec fn side_from(field: Seq<char>) -> Option<Color> {
    if field == seq!['w'] || field == seq!['W'] {
        Some(Color::White)
    } else if field == seq!['b'] || field == seq!['B'] {
        Some(Color::Black)
    } else {
        None
    }
}

/// What the FEN text `s` describes, if it reads: at least four fields separated by single
/// spaces; a piece placement; a side to move; castle rights taken from the letters of the
/// third field; the file of the en passant square when the fourth field starts with a square;
/// and the move clocks of the fifth and sixth fields, zero and one when missing or unreadable.
pub open spec fn fen_model(s: Seq<char>) -> Option<BuilderModel> {
    let t = split_spaces(s);
    if t.len() < 4 {
        None
    } else {
        match place_upto(t[0], t[0].len() as int) {
            None => None,
            Some(st) => match side_from(t[1]) {
                None => None,
                Some(turn) => Some(
                    (
                        st.2,
                        turn,
                        rights_from(t[2], 'K', 'Q'),
                        rights_from(t[2], 'k', 'q'),
                        match parse_square(t[3]) {
                            Some(sq) => Some(sq.file()),
                            None => None,
                        },
                        if t.len() > 4 {
                            match parse_uint(t[4], 255) {
                                Some(v) => v as u8,
                                None => 0u8,
                            }
                        } else {
                            0u8
                        },
                        if t.len() > 5 {
                            match parse_uint(t[5], 65535) {
                                Some(v) => v as u16,
                                None => 1u16,
                            }
                        } else {
                            1u16
                        },
                    ),
                ),
            },
        }
    }
}

/// A position described square by square, with the side to move, castle rights, the file of
/// the en passant square and the move clocks, none of them checked.
#[derive(Clone, Debug)]
pub struct MiniBoardBuilder {
    pieces: Vec<Option<Piece>>,
    turn: Color,
    white_castle_rights: CastleRights,
    black_castle_rights: CastleRights,
    ep_file: Option<File>,
    halfmove_clock: u8,
    fullmove_number: u16,
}

impl MiniBoardBuilder {
    /// The board has its 64 squares.
    pub open spec fn wf(self) -> bool {
        &&& self.model().0.len() == 64
        &&& self.model().4 matches Some(f) ==> 0 <= f < 8
    }

    /// What the builder describes.
    pub closed spec fn model(self) -> BuilderModel {
        (
            self.pieces@,
            self.turn,
            self.white_castle_rights,
            self.black_castle_rights,
            match self.ep_file {
                Some(f) => Some(f.index()),
                None => None,
            },
            self.halfmove_clock,
            self.fullmove_number,
        )
    }

    /// An empty board with white to move, no castle rights, no en passant file, and move
    /// clocks zero and one.
    pub fn new() -> (r: MiniBoardBuilder)
        ensures
            r.model() == (crate::fen::empty_pieces(), Color::White, CastleRights::NoRights, CastleRights::NoRights, None::<int>, 0u8, 1u16),
    {
        let mut pieces: Vec<Option<Piece>> = Vec::new();
        let mut k: usize = 0;
        while k < 64
            invariant
                k <= 64,
                pieces@.len() == k,
                forall|i: int| 0 <= i < k ==> pieces@[i] is None,
            decreases 64 - k,
        {
            pieces.push(None);
            k = k + 1;
        }
        proof {
            assert(pieces@ =~= crate::fen::empty_pieces());
        }
        MiniBoardBuilder {
            pieces,
            turn: Color::White,
            white_castle_rights: CastleRights::NoRights,
            black_castle_rights: CastleRights::NoRights,
            ep_file: None,
            halfmove_clock: 0,
            fullmove_number: 1,
        }
    }

    /// The piece on `square`, if any.
    pub fn get_piece(&self, square: Square) -> (r: Option<Piece>)
        requires
            self.wf(),
        ensures
            r == self.model().0[square.index()],
    {
        self.pieces[square.to_index()]
    }

    pub fn get_turn(&self) -> (r: Color)
        ensures
            r == self.model().1,
    {
        self.turn
    }

    pub fn get_castle_rights(&self, color: Color) -> (r: CastleRights)
        ensures
            r == if color == Color::White { self.model().2 } else { self.model().3 },
    {
        match color {
            Color::White => self.white_castle_rights,
            Color::Black => self.black_castle_rights,
        }
    }

    /// The en passant square: on the en passant file, on the third rank of the side that
    /// just moved.
    pub fn get_en_passant(&self) -> (r: Option<Square>)
        ensures
            r == match self.model().4 {
                Some(f) => Some(square_at((if self.model().1 == Color::White { 5int } else { 2int }) * 8 + f)),
                None => None,
            },
    {
        match self.ep_file {
            Some(f) => Some(Square::from_rank_and_file(self.turn.flip().to_third_rank(), f)),
            None => None,
        }
    }

    pub fn get_halfmove_clock(&self) -> (r: u8)
        ensures
            r == self.model().5,
    {
        self.halfmove_clock
    }

    pub fn get_fullmove_number(&self) -> (r: u16)
        ensures
            r == self.model().6,
    {
        self.fullmove_number
    }

    pub fn turn(&mut self, color: Color)
        ensures
            final(self).model() == (old(self).model().0, color, old(self).model().2, old(self).model().3, old(self).model().4, old(self).model().5, old(self).model().6),
    {
        self.turn = color;
    }

    pub fn castle_rights(&mut self, color: Color, castle_rights: CastleRights)
        ensures
            final(self).model() == if color == Color::White {
                (old(self).model().0, old(self).model().1, castle_rights, old(self).model().3, old(self).model().4, old(self).model().5, old(self).model().6)
            } else {
                (old(self).model().0, old(self).model().1, old(self).model().2, castle_rights, old(self).model().4, old(self).model().5, old(self).model().6)
            },
    {
        match color {
            Color::White => self.white_castle_rights = castle_rights,
            Color::Black => self.black_castle_rights = castle_rights,
        }
    }

    /// Put `piece` on `square`, replacing what was there.
    pub fn add_piece(&mut self, square: Square, piece: Piece)
        requires
            old(self).wf(),
        ensures
            final(self).model() == (old(self).model().0.update(square.index(), Some(piece)), old(self).model().1, old(self).model().2, old(self).model().3, old(self).model().4, old(self).model().5, old(self).model().6),
    {
        self.pieces.set(square.to_index(), Some(piece));
    }

    /// Empty `square`.
    pub fn clear_square(&mut self, square: Square)
        requires
            old(self).wf(),
        ensures
            final(self).model() == (old(self).model().0.update(square.index(), None), old(self).model().1, old(self).model().2, old(self).model().3, old(self).model().4, old(self).model().5, old(self).model().6),
    {
        self.pieces.set(square.to_index(), None);
    }

    pub fn ep_file(&mut self, file: Option<File>)
        ensures
            final(self).model() == (old(self).model().0, old(self).model().1, old(self).model().2, old(self).model().3, match file {
                Some(f) => Some(f.index()),
                None => None,
            }, old(self).model().5, old(self).model().6),
    {
        self.ep_file = file;
    }

    pub fn halfmove_clock(&mut self, halfmove_clock: u8)
        ensures
            final(self).model() == (old(self).model().0, old(self).model().1, old(self).model().2, old(self).model().3, old(self).model().4, halfmove_clock, old(self).model().6),
    {
        self.halfmove_clock = halfmove_clock;
    }

    pub fn fullmove_number(&mut self, fullmove_number: u16)
        ensures
            final(self).model() == (old(self).model().0, old(self).model().1, old(self).model().2, old(self).model().3, old(self).model().4, old(self).model().5, fullmove_number),
    {
        self.fullmove_number = fullmove_number;
    }
}

/// Does `v` hold `c`?
fn chars_contain(v: &Vec<char>, c: char) -> (r: bool)
    ensures
        r == v@.contains(c),
{
    let mut k: usize = 0;
    while k < v.len()
        invariant
            k <= v.len(),
            forall|i: int| 0 <= i < k ==> v@[i] != c,
        decreases v.len() - k,
    {
        if v[k] == c {
            proof {
                assert(v@[k as int] == c);
            }
            return true;
        }
        k = k + 1;
    }
    false
}

/// The rights a castling field gives one side (see `rights_from`).
fn rights_of_field(field: &Vec<char>, kingside: char, queenside: char) -> (r: CastleRights)
    ensures
        r == rights_from(field@, kingside, queenside),
{
    let k = chars_contain(field, kingside);
    let q = chars_contain(field, queenside);
    if k && q {
        CastleRights::Both
    } else if k {
        CastleRights::KingSide
    } else if q {
        CastleRights::QueenSide
    } else {
        CastleRights::NoRights
    }
}

/// The piece a FEN letter names (see `fen_piece`).
fn piece_of_char(c: char) -> (r: Option<Piece>)
    ensures
        r == fen_piece(c),
{
    let t = if c == 'P' || c == 'p' {
        PieceType::Pawn
    } else if c == 'N' || c == 'n' {
        PieceType::Knight
    } else if c == 'B' || c == 'b' {
        PieceType::Bishop
    } else if c == 'R' || c == 'r' {
        PieceType::Rook
    } else if c == 'Q' || c == 'q' {
        PieceType::Queen
    } else if c == 'K' || c == 'k' {
        PieceType::King
    } else {
        return None;
    };
    let color = if 'A' <= c && c <= 'Z' { Color::White } else { Color::Black };
    Some(Piece::new(t, color))
}

impl MiniBoardBuilder {
    /// Read the piece placement `field` onto the empty board of `self`.
    fn read_placement(&mut self, field: &Vec<char>) -> (ok: bool)
        requires
            old(self).wf(),
            old(self).model().0 == crate::fen::empty_pieces(),
        ensures
            final(self).wf(),
            ok == place_upto(field@, field@.len() as int) is Some,
            ok ==> final(self).model().0 == place_upto(field@, field@.len() as int).unwrap().2,
            final(self).model().1 == old(self).model().1,
            final(self).model().2 == old(self).model().2,
            final(self).model().3 == old(self).model().3,
            final(self).model().4 == old(self).model().4,
            final(self).model().5 == old(self).model().5,
            final(self).model().6 == old(self).model().6,
    {
        let mut rank: usize = 7;
        let mut file: usize = 0;
        let mut k: usize = 0;
        while k < field.len()
            invariant
                k <= field.len(),
                self.wf(),
                rank < 8,
                file < 8,
                place_upto(field@, k as int) == Some((rank as int, file as int, self.model().0)),
                self.model().1 == old(self).model().1,
                self.model().2 == old(self).model().2,
                self.model().3 == old(self).model().3,
                self.model().4 == old(self).model().4,
                self.model().5 == old(self).model().5,
                self.model().6 == old(self).model().6,
            decreases field.len() - k,
        {
            let c = field[k];
            if c == '/' {
                rank = (rank + 7) % 8;
                file = 0;
            } else if '1' <= c && c <= '8' {
                let d = (c as u32 - '0' as u32) as usize;
                file = (file + d) % 8;
            } else {
                match piece_of_char(c) {
                    Some(p) => {
                        let sq = Square::from_index(rank * 8 + file);
                        self.add_piece(sq, p);
                        file = (file + 1) % 8;
                    },
                    None => {
                        proof {
                            lemma_place_fails(field@, k as int + 1, field@.len() as int);
                        }
                        return false;
                    },
                }
            }
            k = k + 1;
        }
        true
    }

    /// Read the FEN text `value` (see `fen_model`); text that does not read is a bad FEN.
    pub fn from_str(value: &str) -> (r: Result<MiniBoardBuilder, TimecatError>)
        ensures
            match fen_model(value@) {
                Some(m) => r matches Ok(b) && b.wf() && b.model() == m,
                None => r matches Err(e) && e matches TimecatError::BadFen { fen } && fen@ == value@,
            },
    {
        let chars = crate::text::str_chars(value);
        let tokens = split_fields(&chars);
        if tokens.len() < 4 {
            return Err(TimecatError::BadFen { fen: value.to_owned() });
        }
        let ghost t = split_spaces(value@);
        proof {
            assert(tokens@[0]@ == t[0]);
            assert(tokens@[1]@ == t[1]);
            assert(tokens@[2]@ == t[2]);
            assert(tokens@[3]@ == t[3]);
        }
        let mut builder = MiniBoardBuilder::new();
        if !builder.read_placement(&tokens[0]) {
            return Err(TimecatError::BadFen { fen: value.to_owned() });
        }
        let side = &tokens[1];
        let turn = if side.len() == 1 && (side[0] == 'w' || side[0] == 'W') {
            proof {
                assert(side@ =~= seq![side@[0]]);
            }
            Color::White
        } else if side.len() == 1 && (side[0] == 'b' || side[0] == 'B') {
            proof {
                assert(side@ =~= seq![side@[0]]);
            }
            Color::Black
        } else {
            proof {
                assert(side_from(t[1]) is None) by {
                    if t[1] == seq!['w'] || t[1] == seq!['W'] || t[1] == seq!['b'] || t[1] == seq!['B'] {
                        assert(side@.len() == 1);
                        assert(side@[0] == t[1][0]);
                    }
                }
            }
            return Err(TimecatError::BadFen { fen: value.to_owned() });
        };
        builder.turn(turn);
        builder.castle_rights(Color::White, rights_of_field(&tokens[2], 'K', 'Q'));
        builder.castle_rights(Color::Black, rights_of_field(&tokens[2], 'k', 'q'));
        match square_from_chars(&tokens[3]) {
            Some(sq) => builder.ep_file(Some(sq.get_file())),
            None => {},
        }
        let halfmove: u8 = if tokens.len() > 4 {
            proof {
                assert(tokens@[4]@ == t[4]);
            }
            match parse_number(&tokens[4], 255) {
                Some(v) => v as u8,
                None => 0,
            }
        } else {
            0
        };
        let fullmove: u16 = if tokens.len() > 5 {
            proof {
                assert(tokens@[5]@ == t[5]);
            }
            match parse_number(&tokens[5], 65535) {
                Some(v) => v as u16,
                None => 1,
            }
        } else {
            1
        };
        builder.halfmove_clock(halfmove);
        builder.fullmove_number(fullmove);
        Ok(builder)
    }
}

/// Once reading a placement fails, it stays failed.
proof fn lemma_place_fails(chars: Seq<char>, k: int, n: int)
    requires
        0 < k <= n,
        place_upto(chars, k) is None,
    ensures
        place_upto(chars, n) is None,
    decreases n - k,
{
    if n > k {
        lemma_place_fails(chars, k, n - 1);
    }
}

/// The FEN text of what a builder describes, with the en passant square on rank index
/// `ep_rank` (counted from zero) of the en passant file.
pub open spec fn fen_text(m: BuilderModel, ep_rank: int) -> Seq<char> {
    placement_text(m.0) + fen_tail(m.1, m.2, m.3, match m.4 {
        Some(f) => Some(square_at(ep_rank * 8 + f)),
        None => None,
    }, m.5, m.6)
}

/// The rank index of the en passant square a builder writes: the third rank of the side that
/// just moved.
pub open spec fn ep_rank_of(turn: Color) -> int {
    if turn == Color::White { 5 } else { 2 }
}

/// Append the characters of `w`.
fn push_all(v: &mut Vec<char>, w: &Vec<char>)
    ensures
        final(v)@ == old(v)@ + w@,
{
    let ghost v0 = v@;
    let mut k: usize = 0;
    while k < w.len()
        invariant
            k <= w.len(),
            v@ == v0 + w@.subrange(0, k as int),
        decreases w.len() - k,
    {
        v.push(w[k]);
        proof {
            assert(w@.subrange(0, k as int + 1) =~= w@.subrange(0, k as int).push(w@[k as int]));
        }
        k = k + 1;
    }
    proof {
        assert(w@.subrange(0, w@.len() as int) =~= w@);
    }
}

/// The text after the placement: side to move, castle rights, en passant square and clocks.
pub open spec fn fen_tail(turn: Color, white: CastleRights, black: CastleRights, ep: Option<Square>, halfmove: u8, fullmove: u16) -> Seq<char> {
    fen_side(turn, white, black) + fen_ep_clocks(ep, halfmove, fullmove)
}

/// The side to move and the castle rights, `-` when neither side has any.
#[verifier::opaque]
pub open spec fn fen_side(turn: Color, white: CastleRights, black: CastleRights) -> Seq<char> {
    seq![' '] + (if turn == Color::White { seq!['w', ' '] } else { seq!['b', ' '] }) + castle_rights_chars(white, Color::White)
        + castle_rights_chars(black, Color::Black) + (if white == CastleRights::NoRights && black == CastleRights::NoRights {
        seq!['-']
    } else {
        Seq::empty()
    })
}

/// The en passant square, `-` when there is none, and the two move clocks.
#[verifier::opaque]
pub open spec fn fen_ep_clocks(ep: Option<Square>, halfmove: u8, fullmove: u16) -> Seq<char> {
    seq![' '] + match ep {
        Some(sq) => square_text(sq.index()),
        None => seq!['-'],
    } + seq![' '] + decimal(halfmove as nat) + seq![' '] + decimal(fullmove as nat)
}

/// Append the side to move and the castle rights.
fn push_side_and_rights(v: &mut Vec<char>, turn: Color, white: CastleRights, black: CastleRights)
    ensures
        final(v)@ == old(v)@ + fen_side(turn, white, black),
{
    reveal(fen_side);
    let ghost v0 = v@;
    v.push(' ');
    match turn {
        Color::White => {
            v.push('w');
            v.push(' ');
        },
        Color::Black => {
            v.push('b');
            v.push(' ');
        },
    }
    let ghost v1 = v@;
    push_all(v, &white.to_chars(Color::White));
    let ghost v2 = v@;
    push_all(v, &black.to_chars(Color::Black));
    let ghost v3 = v@;
    if white == CastleRights::NoRights && black == CastleRights::NoRights {
        v.push('-');
        proof {
            assert(v@ =~= v3 + seq!['-']);
        }
    } else {
        proof {
            assert(v@ =~= v3 + Seq::<char>::empty());
        }
    }
    proof {
        assert(v1 =~= v0 + seq![' '] + (if turn == Color::White { seq!['w', ' '] } else { seq!['b', ' '] }));
    }
}

/// Append the en passant square and the move clocks.
fn push_ep_and_clocks(v: &mut Vec<char>, ep: Option<Square>, halfmove: u8, fullmove: u16)
    ensures
        final(v)@ == old(v)@ + fen_ep_clocks(ep, halfmove, fullmove),
{
    reveal(fen_ep_clocks);
    let ghost v0 = v@;
    v.push(' ');
    match ep {
        Some(sq) => {
            let i = sq.to_index();
            v.push(file_letter(i % 8));
            v.push(rank_digit(i / 8));
        },
        None => {
            v.push('-');
        },
    }
    let ghost v1 = v@;
    v.push(' ');
    push_decimal(v, halfmove as u32);
    v.push(' ');
    push_decimal(v, fullmove as u32);
    proof {
        let t = match ep {
            Some(sq) => square_text(sq.index()),
            None => seq!['-'],
        };
        assert(v1 =~= v0 + seq![' '] + t);
    }
}

/// Append the FEN text of the builder parts given.
pub fn push_fen(
    v: &mut Vec<char>,
    pieces: &Vec<Option<Piece>>,
    turn: Color,
    white: CastleRights,
    black: CastleRights,
    ep: Option<Square>,
    halfmove: u8,
    fullmove: u16,
)
    requires
        pieces@.len() == 64,
    ensures
        final(v)@ == old(v)@ + placement_text(pieces@) + fen_tail(turn, white, black, ep, halfmove, fullmove),
{
    let ghost v0 = v@;
    push_placement(v, pieces);
    let ghost v1 = v@;
    push_side_and_rights(v, turn, white, black);
    let ghost v2 = v@;
    push_ep_and_clocks(v, ep, halfmove, fullmove);
    proof {
        assert(v@ =~= v0 + placement_text(pieces@) + (fen_side(turn, white, black) + fen_ep_clocks(ep, halfmove, fullmove)));
    }
}

/// The letter of file `f`.
fn file_letter(f: usize) -> (c: char)
    requires
        f < 8,
    ensures
        c == ('a' as int + f) as char,
{
    match f {
        0 => 'a',
        1 => 'b',
        2 => 'c',
        3 => 'd',
        4 => 'e',
        5 => 'f',
        6 => 'g',
        _ => 'h',
    }
}

/// The digit of rank `r`.
fn rank_digit(r: usize) -> (c: char)
    requires
        r < 8,
    ensures
        c == ('1' as int + r) as char,
{
    match r {
        0 => '1',
        1 => '2',
        2 => '3',
        3 => '4',
        4 => '5',
        5 => '6',
        6 => '7',
        _ => '8',
    }
}

impl MiniBoardBuilder {
    /// The FEN text of the builder, with the en passant square on the third rank of the side
    /// that just moved.
    pub fn to_string(&self) -> (r: String)
        requires
            self.wf(),
        ensures
            r@ == fen_text(self.model(), ep_rank_of(self.model().1)),
    {
        let mut v: Vec<char> = Vec::new();
        let ep = self.get_en_passant();
        push_fen(&mut v, &self.pieces, self.turn, self.white_castle_rights, self.black_castle_rights, ep, self.halfmove_clock, self.fullmove_number);
        proof {
            let m = self.model();
            assert(ep == match m.4 {
                Some(f) => Some(square_at(ep_rank_of(m.1) * 8 + f)),
                None => None::<Square>,
            });
        }
        crate::text::chars_to_string(&v)
    }
}

/// `base` with each piece of `list` put on its square, later ones replacing earlier ones.
pub open spec fn with_pieces(base: Seq<Option<Piece>>, list: Seq<(Square, Piece)>) -> Seq<Option<Piece>>
    decreases list.len(),
{
    if list.len() == 0 {
        base
    } else {
        with_pieces(base, list.drop_last()).update(list.last().0.index(), Some(list.last().1))
    }
}

impl MiniBoardBuilder {
    /// A builder with the pieces of `pieces` (later ones replacing earlier ones on the same
    /// square) and the rest as given.
    pub fn setup(
        pieces: &Vec<(Square, Piece)>,
        turn: Color,
        white_castle_rights: CastleRights,
        black_castle_rights: CastleRights,
        ep_file: Option<File>,
        halfmove_clock: u8,
        fullmove_number: u16,
    ) -> (r: MiniBoardBuilder)
        ensures
            r.wf(),
            r.model() == (with_pieces(crate::fen::empty_pieces(), pieces@), turn, white_castle_rights, black_castle_rights, match ep_file {
                Some(f) => Some(f.index()),
                None => None,
            }, halfmove_clock, fullmove_number),
    {
        let mut result = MiniBoardBuilder::new();
        result.turn = turn;
        result.white_castle_rights = white_castle_rights;
        result.black_castle_rights = black_castle_rights;
        result.ep_file = ep_file;
        result.halfmove_clock = halfmove_clock;
        result.fullmove_number = fullmove_number;
        let mut k: usize = 0;
        while k < pieces.len()
            invariant
                k <= pieces.len(),
                result.wf(),
                result.model() == (with_pieces(crate::fen::empty_pieces(), pieces@.subrange(0, k as int)), turn, white_castle_rights, black_castle_rights, match ep_file {
                    Some(f) => Some(f.index()),
                    None => None,
                }, halfmove_clock, fullmove_number),
            decreases pieces.len() - k,
        {
            let (sq, piece) = pieces[k];
            result.add_piece(sq, piece);
            proof {
                let l = pieces@.subrange(0, k as int + 1);
                assert(l.drop_last() =~= pieces@.subrange(0, k as int));
                assert(l.last() == pieces@[k as int]);
            }
            k = k + 1;
        }
        proof {
            assert(pieces@.subrange(0, pieces@.len() as int) =~= pieces@);
        }
        result
    }
}

} // verus!
