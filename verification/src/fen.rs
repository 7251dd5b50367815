//! Reading FEN text: splitting it into fields, the piece placement, numbers and squares.
use vstd::prelude::*;
use crate::piece::{Piece, PieceType};
use crate::types::{square_at, Color, File, Rank, Square};

verus! {

/// The piece a FEN letter names.
pub open spec fn fen_piece(c: char) -> Option<Piece> {
    let t = if c == 'P' || c == 'p' {
        Some(PieceType::Pawn)
    } else if c == 'N' || c == 'n' {
        Some(PieceType::Knight)
    } else if c == 'B' || c == 'b' {
        Some(PieceType::Bishop)
    } else if c == 'R' || c == 'r' {
        Some(PieceType::Rook)
    } else if c == 'Q' || c == 'q' {
        Some(PieceType::Queen)
    } else if c == 'K' || c == 'k' {
        Some(PieceType::King)
    } else {
        None
    };
    match t {
        Some(t) => Some(Piece { type_: t, color: if 'A' <= c <= 'Z' { Color::White } else { Color::Black } }),
        None => None,
    }
}

/// The state of reading a piece placement: rank and file of the next square, and the
/// pieces so far, square by square.
pub type PlaceState = (int, int, Seq<Option<Piece>>);

/// An empty board.
pub open spec fn empty_pieces() -> Seq<Option<Piece>> {
    Seq::new(64, |i: int| None)
}

/// Reading one character of a piece placement: `/` goes down a rank to the a-file, a digit
/// skips that many files, a piece letter puts the piece on the next square and moves right;
/// ranks and files wrap around. Anything else is an error.
pub open spec fn place_step(st: PlaceState, c: char) -> Option<PlaceState> {
    if c == '/' {
        Some(((st.0 + 7) % 8, 0, st.2))
    } else if '1' <= c && c <= '8' {
        Some((st.0, (st.1 + (c as int - '0' as int)) % 8, st.2))
    } else {
        match fen_piece(c) {
            Some(p) => Some((st.0, (st.1 + 1) % 8, st.2.update(st.0 * 8 + st.1, Some(p)))),
            None => None,
        }
    }
}

/// Reading the first `n` characters of a piece placement, from a8 on an empty board.
pub open spec fn place_upto(chars: Seq<char>, n: int) -> Option<PlaceState>
    decreases n,
{
    if n <= 0 {
        Some((7, 0, empty_pieces()))
    } else {
        match place_upto(chars, n - 1) {
            Some(st) => place_step(st, chars[n - 1]),
            None => None,
        }
    }
}

/// Splitting the first `n` characters of `s` at each space: the fields completed so far and
/// the one being read.
pub open spec fn split_upto(s: Seq<char>, n: int) -> (Seq<Seq<char>>, Seq<char>)
    decreases n,
{
    if n <= 0 {
        (Seq::empty(), Seq::empty())
    } else {
        let (done, cur) = split_upto(s, n - 1);
        if s[n - 1] == ' ' {
            (done.push(cur), Seq::empty())
        } else {
            (done, cur.push(s[n - 1]))
        }
    }
}

/// The fields of `s` between single spaces (two spaces in a row give an empty field).
pub open spec fn split_spaces(s: Seq<char>) -> Seq<Seq<char>> {
    let (done, cur) = split_upto(s, s.len() as int);
    done.push(cur)
}

/// The value of the decimal digits of the first `n` characters of `s`.
pub open spec fn digits_value(s: Seq<char>, n: int) -> int
    decreases n,
{
    if n <= 0 {
        0
    } else {
        digits_value(s, n - 1) * 10 + (s[n - 1] as int - '0' as int)
    }
}

/// Every character of `s` is a decimal digit.
pub open spec fn all_digits(s: Seq<char>) -> bool {
    forall|i: int| 0 <= i < s.len() ==> '0' <= #[trigger] s[i] && s[i] <= '9'
}

/// An unsigned number no greater than `max`, written as decimal digits after an optional `+`.
pub open spec fn parse_uint(s: Seq<char>, max: int) -> Option<int> {
    let d = if s.len() > 0 && s[0] == '+' { s.drop_first() } else { s };
    if d.len() > 0 && all_digits(d) && digits_value(d, d.len() as int) <= max {
        Some(digits_value(d, d.len() as int))
    } else {
        None
    }
}

/// A square written as a file letter and a rank digit, possibly followed by more text.
pub open spec fn parse_square(s: Seq<char>) -> Option<Square> {
    if s.len() >= 2 && 'a' <= s[0] && s[0] <= 'h' && '1' <= s[1] && s[1] <= '8' {
        Some(square_at((s[1] as int - '1' as int) * 8 + (s[0] as int - 'a' as int)))
    } else {
        None
    }
}

/// The fields of `s` between single spaces.
pub fn split_fields(s: &Vec<char>) -> (r: Vec<Vec<char>>)
    ensures
        r@.len() == split_spaces(s@).len(),
        forall|i: int| 0 <= i < r@.len() ==> #[trigger] r@[i]@ == split_spaces(s@)[i],
{
    let mut done: Vec<Vec<char>> = Vec::new();
    let mut cur: Vec<char> = Vec::new();
    let mut k: usize = 0;
    while k < s.len()
        invariant
            k <= s.len(),
            done@.len() == split_upto(s@, k as int).0.len(),
            forall|i: int| 0 <= i < done@.len() ==> #[trigger] done@[i]@ == split_upto(s@, k as int).0[i],
            cur@ == split_upto(s@, k as int).1,
        decreases s.len() - k,
    {
        let c = s[k];
        if c == ' ' {
            let finished = cur;
            cur = Vec::new();
            done.push(finished);
        } else {
            cur.push(c);
        }
        k = k + 1;
    }
    done.push(cur);
    done
}

/// The number `s` writes, if it is one no greater than `max` (see `parse_uint`).
pub fn parse_number(s: &Vec<char>, max: u32) -> (r: Option<u32>)
    ensures
        r matches Some(v) ==> parse_uint(s@, max as int) == Some(v as int),
        r is None ==> parse_uint(s@, max as int) is None,
{
    let start: usize = if s.len() > 0 && s[0] == '+' { 1 } else { 0 };
    let ghost d = if s@.len() > 0 && s@[0] == '+' { s@.drop_first() } else { s@ };
    proof {
        assert(d =~= s@.subrange(start as int, s@.len() as int));
        assert(parse_uint(s@, max as int) == (if d.len() > 0 && all_digits(d) && digits_value(d, d.len() as int) <= max as int {
            Some(digits_value(d, d.len() as int))
        } else {
            None
        }));
    }
    if start >= s.len() {
        return None;
    }
    let mut value: u32 = 0;
    let mut k: usize = start;
    while k < s.len()
        invariant
            start <= k <= s.len(),
            start == s@.len() - d.len(),
            d == s@.subrange(start as int, s@.len() as int),
            value <= max,
            value == digits_value(d, k - start),
            forall|i: int| 0 <= i < k - start ==> '0' <= #[trigger] d[i] && d[i] <= '9',
            parse_uint(s@, max as int) == (if d.len() > 0 && all_digits(d) && digits_value(d, d.len() as int) <= max as int {
                Some(digits_value(d, d.len() as int))
            } else {
                None
            }),
        decreases s.len() - k,
    {
        let c = s[k];
        let ghost j = k - start;
        proof {
            assert(d[j] == c);
        }
        if c < '0' || c > '9' {
            proof {
                assert(!all_digits(d)) by {
                    assert(!('0' <= d[j] && d[j] <= '9'));
                }
            }
            return None;
        }
        let digit = (c as u32) - ('0' as u32);
        if digit > max || value > (max - digit) / 10 {
            proof {
                assert(value * 10 + digit > max) by (nonlinear_arith)
                    requires
                        digit > max || value > (max - digit) / 10,
                        digit <= 9,
                {
                }
                assert(digits_value(d, j + 1) == value * 10 + digit);
                if all_digits(d) {
                    lemma_digits_grow(d, j + 1, d.len() as int);
                    assert(digits_value(d, d.len() as int) > max);
                }
                assert(parse_uint(s@, max as int) is None);
            }
            return None;
        }
        proof {
            assert(value * 10 + digit <= max) by (nonlinear_arith)
                requires
                    value <= (max - digit) / 10,
                    digit <= max,
            {
            }
        }
        value = value * 10 + digit;
        k = k + 1;
    }
    Some(value)
}

/// Appending digits never makes a number smaller.
proof fn lemma_digits_grow(d: Seq<char>, k: int, n: int)
    requires
        0 <= k <= n <= d.len(),
        all_digits(d),
    ensures
        digits_value(d, k) <= digits_value(d, n),
    decreases n - k,
{
    if k < n {
        lemma_digits_grow(d, k, n - 1);
        lemma_digits_nonneg(d, n - 1);
    }
}

proof fn lemma_digits_nonneg(d: Seq<char>, n: int)
    requires
        0 <= n <= d.len(),
        all_digits(d),
    ensures
        digits_value(d, n) >= 0,
    decreases n,
{
    if n > 0 {
        lemma_digits_nonneg(d, n - 1);
    }
}

/// The square `s` writes, if it starts with one (see `parse_square`).
pub fn square_from_chars(s: &Vec<char>) -> (r: Option<Square>)
    ensures
        r == parse_square(s@),
{
    if s.len() < 2 {
        return None;
    }
    let f = s[0];
    let r = s[1];
    if f < 'a' || f > 'h' || r < '1' || r > '8' {
        return None;
    }
    let fi = (f as u32 - 'a' as u32) as usize;
    let ri = (r as u32 - '1' as u32) as usize;
    Some(Square::from_index(ri * 8 + fi))
}

/// The digit character of `d`.
pub open spec fn digit_char(d: int) -> char {
    ('0' as int + d) as char
}

/// The decimal digits of `n`.
pub open spec fn decimal(n: nat) -> Seq<char>
    decreases n,
{
    if n < 10 {
        seq![digit_char(n as int)]
    } else {
        decimal(n / 10).push(digit_char((n % 10) as int))
    }
}

/// The square the `k`-th square of a FEN placement is: a8 to h8, then a7 to h7, down to h1.
pub open spec fn fen_square(k: int) -> int {
    (7 - k / 8) * 8 + k % 8
}

/// The FEN letter of a piece.
pub open spec fn piece_letter(p: Piece) -> char {
    crate::piece::piece_char(p.type_, p.color)
}

/// The placement text of the first `n` squares in FEN order, and the count of empty squares
/// not yet written.
pub open spec fn placement_upto(pieces: Seq<Option<Piece>>, n: int) -> (Seq<char>, int)
    decreases n,
{
    if n <= 0 {
        (Seq::empty(), 0)
    } else {
        let (out, count) = placement_upto(pieces, n - 1);
        let k = n - 1;
        let (out2, count2) = match pieces[fen_square(k)] {
            Some(p) => (out + (if count != 0 { seq![digit_char(count)] } else { Seq::empty() }) + seq![piece_letter(p)], 0int),
            None => (out, count + 1),
        };
        if k % 8 == 7 {
            (out2 + (if count2 != 0 { seq![digit_char(count2)] } else { Seq::empty() }) + (if k != 63 { seq!['/'] } else { Seq::empty() }), 0int)
        } else {
            (out2, count2)
        }
    }
}

/// The FEN placement text of `pieces`: ranks from the eighth down, separated by `/`, pieces
/// by their letters and runs of empty squares by their length.
pub open spec fn placement_text(pieces: Seq<Option<Piece>>) -> Seq<char> {
    placement_upto(pieces, 64).0
}

/// The name of square `i`: its file letter and rank digit.
pub open spec fn square_text(i: int) -> Seq<char> {
    seq![('a' as int + i % 8) as char, ('1' as int + i / 8) as char]
}

/// Append the decimal digits of `n`.
pub fn push_decimal(v: &mut Vec<char>, n: u32)
    ensures
        final(v)@ == old(v)@ + decimal(n as nat),
    decreases n,
{
    if n >= 10 {
        push_decimal(v, n / 10);
    }
    let d = n % 10;
    v.push(char_of_digit(d));
    proof {
        assert(digit_char(d as int) == char_of_digit_spec(d));
        if n >= 10 {
            assert(old(v)@ + decimal(n as nat) =~= old(v)@ + decimal((n / 10) as nat) + seq![digit_char(d as int)]);
        } else {
            assert(decimal(n as nat) == seq![digit_char(n as int)]);
        }
    }
}

spec fn char_of_digit_spec(d: u32) -> char {
    digit_char(d as int)
}

/// The digit character of `d`, below ten.
fn char_of_digit(d: u32) -> (c: char)
    requires
        d < 10,
    ensures
        c == digit_char(d as int),
{
    match d {
        0 => '0',
        1 => '1',
        2 => '2',
        3 => '3',
        4 => '4',
        5 => '5',
        6 => '6',
        7 => '7',
        8 => '8',
        _ => '9',
    }
}

/// Append the FEN placement text of `pieces` (see `placement_text`).
pub fn push_placement(v: &mut Vec<char>, pieces: &Vec<Option<Piece>>)
    requires
        pieces@.len() == 64,
    ensures
        final(v)@ == old(v)@ + placement_text(pieces@),
{
    let ghost v0 = v@;
    let mut count: u32 = 0;
    let mut k: usize = 0;
    while k < 64
        invariant
            k <= 64,
            pieces@.len() == 64,
            placement_upto(pieces@, k as int) == (v@.subrange(v0.len() as int, v@.len() as int), count as int),
            v@.subrange(0, v0.len() as int) == v0,
            v0.len() <= v@.len(),
            count <= 8,
            count <= k % 8 || (k % 8 == 0 && count == 0),
        decreases 64 - k,
    {
        let ghost before = v@;
        let sq = (7 - k / 8) * 8 + k % 8;
        match pieces[sq] {
            Some(p) => {
                if count != 0 {
                    v.push(char_of_digit(count));
                }
                v.push(p.type_.to_char(p.color));
                count = 0;
            },
            None => {
                count = count + 1;
            },
        }
        if k % 8 == 7 {
            if count != 0 {
                v.push(char_of_digit(count));
            }
            if k != 63 {
                v.push('/');
            }
            count = 0;
        }
        proof {
            assert(v@.subrange(0, v0.len() as int) =~= v0);
            assert(v@.subrange(v0.len() as int, v@.len() as int) =~= placement_upto(pieces@, k as int + 1).0);
        }
        k = k + 1;
    }
    proof {
        assert(v@ =~= v0 + v@.subrange(v0.len() as int, v@.len() as int));
    }
}

} // verus!
