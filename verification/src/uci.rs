//! Squares and moves written as text, as UCI writes them: `e4`, `e2e4`, `e7e8q`.
use vstd::prelude::*;
use crate::error::{ChessError, TimecatError};
use crate::fen::{parse_square, square_from_chars, square_text};
use crate::moves::Move;
use crate::piece::PieceType;
use crate::text::{chars_to_string, str_chars};
use crate::types::{square_at, Square};

verus! {

/// The promotion a UCI promotion letter names.
pub open spec fn promotion_of_char(c: char) -> Option<PieceType> {
    if c == 'q' {
        Some(PieceType::Queen)
    } else if c == 'r' {
        Some(PieceType::Rook)
    } else if c == 'n' {
        Some(PieceType::Knight)
    } else if c == 'b' {
        Some(PieceType::Bishop)
    } else {
        None
    }
}

/// The lower-case letter of a piece type.
pub open spec fn piece_type_letter(t: PieceType) -> char {
    crate::piece::piece_type_char(t)
}

/// The UCI text of a move: the two squares, then the promotion letter if any.
pub open spec fn move_text(m: Move) -> Seq<char> {
    square_text(m.source.index()) + square_text(m.dest.index()) + match m.promotion {
        Some(t) => seq![piece_type_letter(t)],
        None => Seq::empty(),
    }
}

/// What the UCI text `s` names: two squares, and when there are exactly five characters a
/// promotion letter; a bad square or promotion letter gives nothing.
pub open spec fn uci_move(s: Seq<char>) -> Option<Move> {
    if s.len() < 4 {
        None
    } else {
        match (parse_square(s.subrange(0, 2)), parse_square(s.subrange(2, 4))) {
            (Some(a), Some(b)) => if s.len() == 5 {
                match promotion_of_char(s[4]) {
                    Some(t) => Some(Move { source: a, dest: b, promotion: Some(t) }),
                    None => None,
                }
            } else {
                Some(Move { source: a, dest: b, promotion: None })
            },
            _ => None,
        }
    }
}

impl Square {
    /// The square `s` names: a file letter and a rank digit, possibly followed by more text.
    pub fn from_str(s: &str) -> (r: Result<Square, ChessError>)
        ensures
            match parse_square(s@) {
                Some(sq) => r == Ok::<Square, ChessError>(sq),
                None => r == Err::<Square, ChessError>(ChessError::InvalidSquare),
            },
    {
        let chars = str_chars(s);
        match square_from_chars(&chars) {
            Some(sq) => Ok(sq),
            None => Err(ChessError::InvalidSquare),
        }
    }

    /// The name of the square: its file letter and rank digit.
    pub fn to_string(&self) -> (r: String)
        ensures
            r@ == square_text(self.index()),
    {
        let v = square_chars(*self);
        chars_to_string(&v)
    }
}

fn square_chars(sq: Square) -> (r: Vec<char>)
    ensures
        r@ == square_text(sq.index()),
{
    let i = sq.to_index();
    let f = (('a' as u8) + ((i % 8) as u8)) as char;
    let k = (('1' as u8) + ((i / 8) as u8)) as char;
    let v = vec![f, k];
    proof {
        assert(v@ =~= square_text(sq.index()));
    }
    v
}

fn promotion_from_char(c: char) -> (r: Option<PieceType>)
    ensures
        r == promotion_of_char(c),
{
    if c == 'q' {
        Some(PieceType::Queen)
    } else if c == 'r' {
        Some(PieceType::Rook)
    } else if c == 'n' {
        Some(PieceType::Knight)
    } else if c == 'b' {
        Some(PieceType::Bishop)
    } else {
        None
    }
}

impl Move {
    /// The move the UCI text `s` names (see `uci_move`); text that names none is an invalid
    /// move string.
    pub fn from_str(s: &str) -> (r: Result<Move, TimecatError>)
        ensures
            match uci_move(s@) {
                Some(m) => r == Ok::<Move, TimecatError>(m),
                None => r matches Err(TimecatError::InvalidUciMoveString { s: t }) && t@ == s@,
            },
    {
        let chars = str_chars(s);
        if chars.len() < 4 {
            return Err(TimecatError::InvalidUciMoveString { s: s.to_owned() });
        }
        let a = vec![chars[0], chars[1]];
        let b = vec![chars[2], chars[3]];
        proof {
            assert(a@ =~= s@.subrange(0, 2));
            assert(b@ =~= s@.subrange(2, 4));
        }
        let source = match square_from_chars(&a) {
            Some(sq) => sq,
            None => return Err(TimecatError::InvalidUciMoveString { s: s.to_owned() }),
        };
        let dest = match square_from_chars(&b) {
            Some(sq) => sq,
            None => return Err(TimecatError::InvalidUciMoveString { s: s.to_owned() }),
        };
        if chars.len() == 5 {
            match promotion_from_char(chars[4]) {
                Some(t) => Ok(Move::new(source, dest, Some(t))),
                None => Err(TimecatError::InvalidUciMoveString { s: s.to_owned() }),
            }
        } else {
            Ok(Move::new(source, dest, None))
        }
    }

    /// The UCI text of the move (see `move_text`).
    pub fn to_string(&self) -> (r: String)
        ensures
            r@ == move_text(*self),
    {
        let mut v = square_chars(self.source);
        let d = square_chars(self.dest);
        v.push(d[0]);
        v.push(d[1]);
        match self.promotion {
            Some(t) => {
                v.push(t.to_char(crate::types::Color::Black));
            },
            None => {},
        }
        proof {
            assert(v@ =~= move_text(*self));
        }
        chars_to_string(&v)
    }
}

/// Reading back the UCI text of a move gives the move, when it promotes to a queen, rook,
/// knight or bishop or not at all.
pub proof fn law_uci_round_trip(m: Move)
    requires
        m.promotion is None || m.promotion == Some(PieceType::Queen) || m.promotion == Some(PieceType::Rook)
            || m.promotion == Some(PieceType::Knight) || m.promotion == Some(PieceType::Bishop),
    ensures
        uci_move(move_text(m)) == Some(m),
{
    let t = move_text(m);
    m.source.lemma_index_range();
    m.dest.lemma_index_range();
    m.source.lemma_square_at_index();
    m.dest.lemma_square_at_index();
    assert(t.subrange(0, 2) =~= square_text(m.source.index()));
    assert(t.subrange(2, 4) =~= square_text(m.dest.index()));
}

} // verus!
