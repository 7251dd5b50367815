//! Checking and setting FEN text: spaces tidied, the move clocks checked as signed numbers,
//! and the position it describes read.
use vstd::prelude::*;
use crate::builder::{ep_rank_of, fen_model, fen_text};
use crate::error::TimecatError;
use crate::fen::{all_digits, digits_value, parse_number, parse_uint, split_fields, split_spaces};
use crate::mini_board::MiniBoard;
use crate::position::BoardPosition;
use crate::text::{chars_to_string, str_chars};

verus! {

/// Tidying the spaces of the first `n` characters of `s`: the text so far, and whether a
/// space is owed before the next character.
pub open spec fn tidy_upto(s: Seq<char>, n: int) -> (Seq<char>, bool)
    decreases n,
{
    if n <= 0 {
        (Seq::empty(), false)
    } else {
        let (out, owed) = tidy_upto(s, n - 1);
        let c = s[n - 1];
        if c == ' ' {
            (out, out.len() > 0)
        } else if owed {
            (out.push(' ').push(c), false)
        } else {
            (out.push(c), false)
        }
    }
}

/// `s` without spaces at either end, and with every run of spaces inside made one space.
pub open spec fn simplify_fen_spec(s: Seq<char>) -> Seq<char> {
    tidy_upto(s, s.len() as int).0
}

/// A field that reads as a signed 32-bit number no less than zero: digits after an optional
/// `+` (at most 2147483647), or zeros after a `-`.
pub open spec fn nonnegative_field(f: Seq<char>) -> bool {
    ||| parse_uint(f, 2147483647) is Some
    ||| (f.len() >= 2 && f[0] == '-' && all_digits(f.drop_first()) && digits_value(f.drop_first(), f.len() - 1) == 0)
}

/// The clock fields of the FEN fields `t` are numbers no less than zero, and there are at most
/// six fields.
pub open spec fn good_fen_fields(t: Seq<Seq<char>>) -> bool {
    &&& (t.len() <= 4 || nonnegative_field(t[4]))
    &&& (t.len() <= 5 || nonnegative_field(t[5]))
    &&& t.len() <= 6
}

/// The text `s` describes a position that could arise in a game.
pub open spec fn describes_sane(s: Seq<char>) -> bool {
    fen_model(s) matches Some(m) && exists|p: BoardPosition| p.wf() && #[trigger] p.describes(m) && p.sane_spec()
}

/// The characters of `s` with its spaces tidied (see `simplify_fen_spec`).
pub fn simplify_fen(s: &str) -> (r: Vec<char>)
    ensures
        r@ == simplify_fen_spec(s@),
{
    let chars = str_chars(s);
    let mut out: Vec<char> = Vec::new();
    let mut owed = false;
    let mut k: usize = 0;
    while k < chars.len()
        invariant
            k <= chars.len(),
            chars@ == s@,
            (out@, owed) == tidy_upto(s@, k as int),
        decreases chars.len() - k,
    {
        let c = chars[k];
        if c == ' ' {
            owed = out.len() > 0;
        } else {
            if owed {
                out.push(' ');
            }
            out.push(c);
            owed = false;
        }
        k = k + 1;
    }
    out
}

/// Is `f` a signed 32-bit number no less than zero (see `nonnegative_field`)?
fn is_nonnegative_field(f: &Vec<char>) -> (r: bool)
    ensures
        r == nonnegative_field(f@),
{
    if parse_number(f, 2147483647).is_some() {
        return true;
    }
    if f.len() < 2 || f[0] != '-' {
        return false;
    }
    let ghost d = f@.drop_first();
    let mut k: usize = 1;
    while k < f.len()
        invariant
            1 <= k <= f.len(),
            f@.len() >= 2,
            d == f@.drop_first(),
            f@[0] == '-',
            parse_uint(f@, 2147483647) is None,
            forall|i: int| 0 <= i < k - 1 ==> #[trigger] d[i] == '0',
        decreases f.len() - k,
    {
        if f[k] != '0' {
            proof {
                assert(d[k - 1] == f@[k as int]);
                if all_digits(d) && digits_value(d, d.len() as int) == 0 {
                    lemma_zero_value_all_zeros(d, d.len() as int, k - 1);
                }
                assert(d.len() == f@.len() - 1);
                assert(!(all_digits(d) && digits_value(d, d.len() as int) == 0));
                assert(parse_uint(f@, 2147483647) is None);
            }
            return false;
        }
        k = k + 1;
    }
    proof {
        lemma_all_zeros_value(d, d.len() as int);
    }
    true
}

proof fn lemma_all_zeros_value(d: Seq<char>, n: int)
    requires
        0 <= n <= d.len(),
        forall|i: int| 0 <= i < n ==> #[trigger] d[i] == '0',
    ensures
        digits_value(d, n) == 0,
    decreases n,
{
    if n > 0 {
        lemma_all_zeros_value(d, n - 1);
    }
}

proof fn lemma_digits_value_nonneg(d: Seq<char>, n: int)
    requires
        0 <= n <= d.len(),
        forall|i: int| 0 <= i < n ==> '0' <= #[trigger] d[i] && d[i] <= '9',
    ensures
        digits_value(d, n) >= 0,
    decreases n,
{
    if n > 0 {
        lemma_digits_value_nonneg(d, n - 1);
    }
}

proof fn lemma_zero_value_all_zeros(d: Seq<char>, n: int, j: int)
    requires
        0 <= j < n <= d.len(),
        all_digits(d),
        digits_value(d, n) == 0,
    ensures
        d[j] == '0',
    decreases n,
{
    lemma_digits_value_nonneg(d, n - 1);
    if j < n - 1 {
        lemma_zero_value_all_zeros(d, n - 1, j);
    }
}

/// Is `fen` good FEN text: once its spaces are tidied, at most six fields, move clocks that
/// read as numbers no less than zero, and a position that could arise in a game?
pub fn is_good_fen(fen: &str) -> (r: bool)
    ensures
        r == (good_fen_fields(split_spaces(simplify_fen_spec(fen@))) && describes_sane(simplify_fen_spec(fen@))),
{
    let chars = simplify_fen(fen);
    let tokens = split_fields(&chars);
    let ghost t = split_spaces(chars@);
    if tokens.len() > 4 && !is_nonnegative_field(&tokens[4]) {
        return false;
    }
    if tokens.len() > 5 && !is_nonnegative_field(&tokens[5]) {
        return false;
    }
    if tokens.len() > 6 {
        return false;
    }
    proof {
        if t.len() > 4 {
            assert(tokens@[4]@ == t[4]);
        }
        if t.len() > 5 {
            assert(tokens@[5]@ == t[5]);
        }
    }
    let text = chars_to_string(&chars);
    match BoardPosition::from_fen(text.as_str()) {
        Ok(p) => {
            proof {
                assert(p.describes(fen_model(chars@)->0));
            }
            true
        },
        Err(_) => false,
    }
}

impl BoardPosition {
    /// Is `fen` good FEN text (see `is_good_fen`)?
    pub fn is_good_fen(fen: &str) -> (r: bool)
        ensures
            r == (good_fen_fields(split_spaces(simplify_fen_spec(fen@))) && describes_sane(simplify_fen_spec(fen@))),
    {
        is_good_fen(fen)
    }

    /// Set the position to the one `fen` describes, its spaces tidied; text that is already the
    /// position's FEN leaves it as it is, and on an error the position stays.
    pub fn set_fen(&mut self, fen: &str) -> (r: Result<(), TimecatError>)
        requires
            old(self).wf(),
        ensures
            simplify_fen_spec(fen@) == fen_text(old(self).builder_model(), ep_rank_of(old(self).turn_)) ==> r is Ok
                && *final(self) == *old(self),
            simplify_fen_spec(fen@) != fen_text(old(self).builder_model(), ep_rank_of(old(self).turn_)) ==> match fen_model(
                simplify_fen_spec(fen@),
            ) {
                None => r matches Err(e) && e is BadFen && *final(self) == *old(self),
                Some(m) => {
                    &&& r is Ok ==> final(self).wf() && final(self).info_ok() && final(self).describes(m)
                        && final(self).sane_spec()
                    &&& r is Err ==> (r matches Err(e) && e is InvalidBoardPosition) && *final(self) == *old(self)
                        && forall|p: BoardPosition| p.wf() && #[trigger] p.describes(m) ==> !p.sane_spec()
                },
            },
    {
        let chars = simplify_fen(fen);
        let text = chars_to_string(&chars);
        if text == self.get_fen() {
            return Ok(());
        }
        match BoardPosition::from_fen(text.as_str()) {
            Ok(p) => {
                *self = p;
                Ok(())
            },
            Err(e) => Err(e),
        }
    }
}

impl MiniBoard {
    /// Is `fen` good FEN text (see `is_good_fen`)?
    pub fn is_good_fen(fen: &str) -> (r: bool)
        ensures
            r == (good_fen_fields(split_spaces(simplify_fen_spec(fen@))) && describes_sane(simplify_fen_spec(fen@))),
    {
        is_good_fen(fen)
    }

    /// Set the board to the one `fen` describes (see `BoardPosition::set_fen`).
    pub fn set_fen(&mut self, fen: &str) -> (r: Result<(), TimecatError>)
        requires
            old(self).position.wf(),
        ensures
            simplify_fen_spec(fen@) == fen_text(old(self).position.builder_model(), ep_rank_of(old(self).position.turn_))
                ==> r is Ok && *final(self) == *old(self),
            simplify_fen_spec(fen@) != fen_text(old(self).position.builder_model(), ep_rank_of(old(self).position.turn_))
                ==> match fen_model(simplify_fen_spec(fen@)) {
                None => r matches Err(e) && e is BadFen && *final(self) == *old(self),
                Some(m) => {
                    &&& r is Ok ==> final(self).position.wf() && final(self).position.info_ok()
                        && final(self).position.describes(m) && final(self).position.sane_spec()
                    &&& r is Err ==> (r matches Err(e) && e is InvalidBoardPosition) && *final(self) == *old(self)
                        && forall|p: BoardPosition| p.wf() && #[trigger] p.describes(m) ==> !p.sane_spec()
                },
            },
    {
        self.position.set_fen(fen)
    }
}

} // verus!
