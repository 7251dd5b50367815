//! Reading the text of a command: white space, lower case, splitting into words and parts,
//! and numbers.
use vstd::prelude::*;
use crate::text::str_chars;

verus! {

/// Is `c` white space (a character with the Unicode `White_Space` property)?
pub open spec fn is_ws(c: char) -> bool {
    ||| ('\u{9}' <= c && c <= '\u{d}')
    ||| c == ' '
    ||| c == '\u{85}'
    ||| c == '\u{a0}'
    ||| c == '\u{1680}'
    ||| ('\u{2000}' <= c && c <= '\u{200a}')
    ||| c == '\u{2028}'
    ||| c == '\u{2029}'
    ||| c == '\u{202f}'
    ||| c == '\u{205f}'
    ||| c == '\u{3000}'
}

/// Is `c` white space (see `is_ws`)?
pub fn is_white_space(c: char) -> (r: bool)
    ensures
        r == is_ws(c),
{
    ('\u{9}' <= c && c <= '\u{d}') || c == ' ' || c == '\u{85}' || c == '\u{a0}' || c == '\u{1680}' || ('\u{2000}'
        <= c && c <= '\u{200a}') || c == '\u{2028}' || c == '\u{2029}' || c == '\u{202f}' || c == '\u{205f}' || c
        == '\u{3000}'
}

/// `s` without its leading white space.
pub open spec fn trim_start(s: Seq<char>) -> Seq<char>
    decreases s.len(),
{
    if s.len() > 0 && is_ws(s[0]) {
        trim_start(s.drop_first())
    } else {
        s
    }
}

/// `s` without its trailing white space.
pub open spec fn trim_end(s: Seq<char>) -> Seq<char>
    decreases s.len(),
{
    if s.len() > 0 && is_ws(s.last()) {
        trim_end(s.drop_last())
    } else {
        s
    }
}

/// `s` without white space at either end.
pub open spec fn trim(s: Seq<char>) -> Seq<char> {
    trim_end(trim_start(s))
}

/// `s` without white space at either end.
pub fn trim_chars(s: &Vec<char>) -> (r: Vec<char>)
    ensures
        r@ == trim(s@),
{
    let n = s.len();
    let mut i: usize = 0;
    assert(s@.subrange(0, n as int) =~= s@);
    while i < n && is_white_space(s[i])
        invariant
            i <= n == s.len(),
            trim_start(s@) == trim_start(s@.subrange(i as int, n as int)),
        decreases n - i,
    {
        proof {
            assert(s@.subrange(i as int, n as int).drop_first() =~= s@.subrange(i as int + 1, n as int));
        }
        i = i + 1;
    }
    let ghost rest = s@.subrange(i as int, n as int);
    assert(trim_start(s@) == rest);
    let mut j: usize = n;
    while j > i && is_white_space(s[j - 1])
        invariant
            i <= j <= n == s.len(),
            rest == s@.subrange(i as int, n as int),
            trim_end(rest) == trim_end(s@.subrange(i as int, j as int)),
        decreases j,
    {
        proof {
            assert(s@.subrange(i as int, j as int).drop_last() =~= s@.subrange(i as int, j as int - 1));
        }
        j = j - 1;
    }
    let mut r: Vec<char> = Vec::new();
    let mut k: usize = i;
    while k < j
        invariant
            i <= k <= j <= n == s.len(),
            r@ == s@.subrange(i as int, k as int),
        decreases j - k,
    {
        r.push(s[k]);
        proof {
            assert(r@ =~= s@.subrange(i as int, k as int + 1));
        }
        k = k + 1;
    }
    r
}

/// `c` in lower case, for the letters A to Z.
pub open spec fn ascii_lower(c: char) -> char {
    if 'A' <= c && c <= 'Z' {
        ((c as u32) + 32) as char
    } else {
        c
    }
}

/// `s` with the letters A to Z in lower case.
pub open spec fn lower(s: Seq<char>) -> Seq<char> {
    s.map_values(|c: char| ascii_lower(c))
}

/// `s` with the letters A to Z in lower case.
pub fn lower_chars(s: &Vec<char>) -> (r: Vec<char>)
    ensures
        r@ == lower(s@),
{
    let mut r: Vec<char> = Vec::new();
    let mut i: usize = 0;
    while i < s.len()
        invariant
            i <= s.len(),
            r@ == lower(s@.subrange(0, i as int)),
        decreases s.len() - i,
    {
        let c = s[i];
        let d = if 'A' <= c && c <= 'Z' {
            let code = ((c as u32) + 32) as u8;
            code as char
        } else {
            c
        };
        proof {
            assert(d == ascii_lower(c));
        }
        r.push(d);
        proof {
            assert(r@ =~= lower(s@.subrange(0, i as int + 1)));
        }
        i = i + 1;
    }
    proof {
        assert(s@.subrange(0, s@.len() as int) =~= s@);
    }
    r
}

/// Do the characters of `a` spell `b`?
pub fn same_text(a: &Vec<char>, b: &str) -> (r: bool)
    ensures
        r == (a@ == b@),
{
    let bc = str_chars(b);
    if a.len() != bc.len() {
        return false;
    }
    let mut i: usize = 0;
    while i < a.len()
        invariant
            i <= a.len() == bc.len(),
            bc@ == b@,
            forall|k: int| 0 <= k < i ==> a@[k] == bc@[k],
        decreases a.len() - i,
    {
        if a[i] != bc[i] {
            return false;
        }
        i = i + 1;
    }
    assert(a@ =~= bc@);
    true
}

/// The parts of `s` between the occurrences of `&&`, taken from the left: the parts of the
/// text from position `i` on, with `cur` the part begun and `acc` the parts finished.
pub open spec fn split_amp_from(s: Seq<char>, i: int, cur: Seq<char>, acc: Seq<Seq<char>>) -> Seq<Seq<char>>
    decreases s.len() - i,
{
    if i >= s.len() {
        acc.push(cur)
    } else if i + 1 < s.len() && s[i] == '&' && s[i + 1] == '&' {
        split_amp_from(s, i + 2, Seq::empty(), acc.push(cur))
    } else {
        split_amp_from(s, i + 1, cur.push(s[i]), acc)
    }
}

/// The parts of `s` between the occurrences of `&&`, taken from the left.
pub open spec fn split_amp(s: Seq<char>) -> Seq<Seq<char>> {
    split_amp_from(s, 0, Seq::empty(), Seq::empty())
}

/// The parts of `s` between the occurrences of `&&` (see `split_amp`).
pub fn split_amp_chars(s: &Vec<char>) -> (r: Vec<Vec<char>>)
    ensures
        r@.map_values(|p: Vec<char>| p@) == split_amp(s@),
{
    let mut acc: Vec<Vec<char>> = Vec::new();
    let mut cur: Vec<char> = Vec::new();
    let mut i: usize = 0;
    assert(acc@.map_values(|p: Vec<char>| p@) =~= Seq::<Seq<char>>::empty());
    assert(cur@ =~= Seq::<char>::empty());
    while i < s.len()
        invariant
            i <= s.len() + 1,
            split_amp(s@) == split_amp_from(s@, i as int, cur@, acc@.map_values(|p: Vec<char>| p@)),
        decreases s.len() + 1 - i,
    {
        if i + 1 < s.len() && s[i] == '&' && s[i + 1] == '&' {
            let ghost before = acc@.map_values(|p: Vec<char>| p@);
            let done = cur;
            acc.push(done);
            cur = Vec::new();
            proof {
                assert(acc@.map_values(|p: Vec<char>| p@) =~= before.push(done@));
                assert(cur@ =~= Seq::<char>::empty());
            }
            i = i + 2;
        } else {
            cur.push(s[i]);
            i = i + 1;
        }
    }
    let ghost before = acc@.map_values(|p: Vec<char>| p@);
    let ghost last = cur@;
    acc.push(cur);
    proof {
        assert(acc@.map_values(|p: Vec<char>| p@) =~= before.push(last));
    }
    acc
}

/// The words of `s`, the runs of characters other than white space: those from position `i`
/// on, with `cur` the word begun and `acc` the words finished.
pub open spec fn words_from(s: Seq<char>, i: int, cur: Seq<char>, acc: Seq<Seq<char>>) -> Seq<Seq<char>>
    decreases s.len() - i,
{
    if i >= s.len() {
        if cur.len() > 0 { acc.push(cur) } else { acc }
    } else if is_ws(s[i]) {
        words_from(s, i + 1, Seq::empty(), if cur.len() > 0 { acc.push(cur) } else { acc })
    } else {
        words_from(s, i + 1, cur.push(s[i]), acc)
    }
}

/// The words of `s`: the runs of characters other than white space, in order.
pub open spec fn words(s: Seq<char>) -> Seq<Seq<char>> {
    words_from(s, 0, Seq::empty(), Seq::empty())
}

/// The words of `s` (see `words`).
pub fn words_of(s: &Vec<char>) -> (r: Vec<Vec<char>>)
    ensures
        r@.map_values(|p: Vec<char>| p@) == words(s@),
{
    let mut acc: Vec<Vec<char>> = Vec::new();
    let mut cur: Vec<char> = Vec::new();
    let mut i: usize = 0;
    assert(acc@.map_values(|p: Vec<char>| p@) =~= Seq::<Seq<char>>::empty());
    assert(cur@ =~= Seq::<char>::empty());
    while i < s.len()
        invariant
            i <= s.len(),
            words(s@) == words_from(s@, i as int, cur@, acc@.map_values(|p: Vec<char>| p@)),
        decreases s.len() - i,
    {
        if is_white_space(s[i]) {
            if cur.len() > 0 {
                let ghost before = acc@.map_values(|p: Vec<char>| p@);
                let done = cur;
                acc.push(done);
                cur = Vec::new();
                proof {
                    assert(acc@.map_values(|p: Vec<char>| p@) =~= before.push(done@));
                    assert(cur@ =~= Seq::<char>::empty());
                }
            } else {
                assert(cur@ =~= Seq::<char>::empty());
            }
        } else {
            cur.push(s[i]);
        }
        i = i + 1;
    }
    if cur.len() > 0 {
        let ghost before = acc@.map_values(|p: Vec<char>| p@);
        let ghost last = cur@;
        acc.push(cur);
        proof {
            assert(acc@.map_values(|p: Vec<char>| p@) =~= before.push(last));
        }
    }
    acc
}

/// The words of `ws` joined by single spaces.
pub open spec fn join_words(ws: Seq<Seq<char>>) -> Seq<char>
    decreases ws.len(),
{
    if ws.len() == 0 {
        Seq::empty()
    } else if ws.len() == 1 {
        ws[0]
    } else {
        join_words(ws.drop_last()) + seq![' '] + ws.last()
    }
}

/// The words `ws[from..to]` joined by single spaces.
pub fn join_range(ws: &Vec<Vec<char>>, from: usize, to: usize) -> (r: Vec<char>)
    requires
        from <= to <= ws.len(),
    ensures
        r@ == join_words(ws@.map_values(|p: Vec<char>| p@).subrange(from as int, to as int)),
{
    let ghost all = ws@.map_values(|p: Vec<char>| p@);
    let mut r: Vec<char> = Vec::new();
    let mut i: usize = from;
    while i < to
        invariant
            from <= i <= to <= ws.len(),
            all == ws@.map_values(|p: Vec<char>| p@),
            r@ == join_words(all.subrange(from as int, i as int)),
        decreases to - i,
    {
        let ghost before = r@;
        if i > from {
            r.push(' ');
        }
        let w = &ws[i];
        let mut k: usize = 0;
        while k < w.len()
            invariant
                k <= w.len(),
                r@ == (if i > from { before + seq![' '] } else { before }) + w@.subrange(0, k as int),
            decreases w.len() - k,
        {
            r.push(w[k]);
            proof {
                assert(r@ =~= (if i > from { before + seq![' '] } else { before }) + w@.subrange(0, k as int + 1));
            }
            k = k + 1;
        }
        proof {
            let part = all.subrange(from as int, i as int + 1);
            assert(part.drop_last() =~= all.subrange(from as int, i as int));
            assert(part.last() == w@);
            assert(w@.subrange(0, w@.len() as int) =~= w@);
            if i == from {
                assert(part.len() == 1);
                assert(before =~= Seq::<char>::empty());
                assert(r@ =~= w@);
            }
        }
        i = i + 1;
    }
    r
}

/// Why a number could not be read.
#[derive(Clone, Copy, Debug, PartialEq, Eq, Structural)]
pub enum IntErrorKind {
    Empty,
    InvalidDigit,
    PosOverflow,
    NegOverflow,
}

pub open spec fn is_digit(c: char) -> bool {
    '0' <= c && c <= '9'
}

/// Reading the digits of `s` from position `i` on into the number begun as `acc`, towards
/// the negative when `neg`, within `min..=max`: a character that is not a digit is an error,
/// and so is going past either bound.
pub open spec fn digits_from(s: Seq<char>, i: int, acc: int, neg: bool, min: int, max: int) -> Result<int, IntErrorKind>
    decreases s.len() - i,
{
    if i >= s.len() {
        Ok(acc)
    } else if !is_digit(s[i]) {
        Err(IntErrorKind::InvalidDigit)
    } else {
        let v = if neg { acc * 10 - (s[i] as int - '0' as int) } else { acc * 10 + (s[i] as int - '0' as int) };
        if v > max {
            Err(IntErrorKind::PosOverflow)
        } else if v < min {
            Err(IntErrorKind::NegOverflow)
        } else {
            digits_from(s, i + 1, v, neg, min, max)
        }
    }
}

/// The integer `s` writes, in `min..=max`: decimal digits after an optional `+`, or after a
/// `-` when negative numbers are allowed; an empty text, a lone sign, a character that is
/// not a digit, and going out of range are errors, found reading from the left.
pub open spec fn parse_int(s: Seq<char>, min: int, max: int) -> Result<int, IntErrorKind> {
    if s.len() == 0 {
        Err(IntErrorKind::Empty)
    } else if (s[0] == '+' || s[0] == '-') && s.len() == 1 {
        Err(IntErrorKind::InvalidDigit)
    } else if s[0] == '+' {
        digits_from(s, 1, 0, false, min, max)
    } else if s[0] == '-' && min < 0 {
        digits_from(s, 1, 0, true, min, max)
    } else {
        digits_from(s, 0, 0, false, min, max)
    }
}

/// The integer `s` writes, in `min..=max` (see `parse_int`).
pub fn parse_int_chars(s: &Vec<char>, min: i128, max: i128) -> (r: Result<i128, IntErrorKind>)
    requires
        -0x1_0000_0000_0000_0000 <= min <= 0 <= max <= 0x1_0000_0000_0000_0000,
    ensures
        match r {
            Ok(v) => parse_int(s@, min as int, max as int) == Ok::<int, IntErrorKind>(v as int),
            Err(e) => parse_int(s@, min as int, max as int) == Err::<int, IntErrorKind>(e),
        },
{
    let n = s.len();
    if n == 0 {
        return Err(IntErrorKind::Empty);
    }
    if (s[0] == '+' || s[0] == '-') && n == 1 {
        return Err(IntErrorKind::InvalidDigit);
    }
    let (start, neg): (usize, bool) = if s[0] == '+' {
        (1, false)
    } else if s[0] == '-' && min < 0 {
        (1, true)
    } else {
        (0, false)
    };
    let ghost total = parse_int(s@, min as int, max as int);
    let mut acc: i128 = 0;
    let mut i: usize = start;
    while i < n
        invariant
            start <= i <= n == s.len(),
            -0x1_0000_0000_0000_0000 <= min <= 0 <= max <= 0x1_0000_0000_0000_0000,
            min <= acc <= max,
            total == parse_int(s@, min as int, max as int),
            total == digits_from(s@, i as int, acc as int, neg, min as int, max as int),
        decreases n - i,
    {
        let c = s[i];
        if !('0' <= c && c <= '9') {
            assert(total == Err::<int, IntErrorKind>(IntErrorKind::InvalidDigit));
            return Err(IntErrorKind::InvalidDigit);
        }
        let d = (c as u32 - '0' as u32) as i128;
        assert(d == s@[i as int] as int - '0' as int);
        let v = if neg { acc * 10 - d } else { acc * 10 + d };
        if v > max {
            assert(total == Err::<int, IntErrorKind>(IntErrorKind::PosOverflow));
            return Err(IntErrorKind::PosOverflow);
        }
        if v < min {
            assert(total == Err::<int, IntErrorKind>(IntErrorKind::NegOverflow));
            return Err(IntErrorKind::NegOverflow);
        }
        acc = v;
        i = i + 1;
    }
    Ok(acc)
}

/// Reading digits stays within the bounds it was given.
proof fn lemma_digits_range(s: Seq<char>, i: int, acc: int, neg: bool, min: int, max: int)
    requires
        min <= acc <= max,
    ensures
        digits_from(s, i, acc, neg, min, max) matches Ok(v) ==> min <= v <= max,
    decreases s.len() - i,
{
    if i < s.len() && is_digit(s[i]) {
        let v = if neg { acc * 10 - (s[i] as int - '0' as int) } else { acc * 10 + (s[i] as int - '0' as int) };
        if min <= v <= max {
            lemma_digits_range(s, i + 1, v, neg, min, max);
        }
    }
}

/// A number read is within the bounds it was read with.
pub proof fn lemma_parse_int_range(s: Seq<char>, min: int, max: int)
    requires
        min <= 0 <= max,
    ensures
        parse_int(s, min, max) matches Ok(v) ==> min <= v <= max,
{
    lemma_digits_range(s, 0, 0, false, min, max);
    lemma_digits_range(s, 1, 0, false, min, max);
    lemma_digits_range(s, 1, 0, true, min, max);
}

} // verus!
