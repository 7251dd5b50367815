//! The state of the game in a position: legal moves, check, mate and stalemate, null moves,
//! and moves that give check.
use vstd::prelude::*;
use crate::bitboard::BitBoard;
use crate::bits::{bit, group_bit_facts, lemma_mask_of, popcount};
use crate::error::TimecatError;
use crate::move_generator::{lists, MoveGenerator};
use crate::move_list::SquareAndBitBoard;
use crate::moves::Move;
use crate::piece::{Piece, PieceType};
use crate::position::{lemma_piece_at_facts, piece_attack, piece_attacks, BoardPosition, BoardStatus};
use crate::castle::CastleRights;
use crate::types::{group_square_facts, square_at, Color, Square};

verus! {

broadcast use group_bit_facts, group_square_facts;

impl BoardPosition {
    /// The side to move has a legal move.
    pub open spec fn has_legal_move_spec(self) -> bool {
        exists|m: Move| #[trigger] self.legal_spec(m)
    }

    /// Whether the game goes on, or ends in stalemate or checkmate.
    pub open spec fn status_spec(self) -> BoardStatus {
        if self.has_legal_move_spec() {
            BoardStatus::Ongoing
        } else if self.checkers_bb.0 == 0 {
            BoardStatus::Stalemate
        } else {
            BoardStatus::Checkmate
        }
    }

    /// Each group lists some move.
    pub proof fn lemma_entry_lists_a_move(self, e: SquareAndBitBoard) -> (m: Move)
        requires
            self.wf(),
            self.all_entries().contains(e),
        ensures
            lists(e, m),
    {
        self.lemma_all_entries_contains(e);
        let d: int = if exists|t: int| #[trigger] self.has_group(t) && e == self.entry_at(t) {
            let t = choose|t: int| #[trigger] self.has_group(t) && e == self.entry_at(t);
            crate::bits::lemma_zero_iff_no_bits(self.entry_mask(t));
            choose|x: int| bit(self.entry_mask(t), x)
        } else {
            let left = self.ep_group(true).contains(e);
            assert(self.ep_group(left).contains(e));
            assert(e == self.ep_group(left)[0]);
            self.ep.unwrap().index()
        };
        Move { source: e.square, dest: square_at(d), promotion: if e.promotion { Some(PieceType::Queen) } else { None } }
    }

    /// A position has a group of moves exactly when it has a legal move.
    pub proof fn lemma_entries_nonempty(self)
        requires
            self.wf(),
        ensures
            (self.all_entries().len() > 0) == self.has_legal_move_spec(),
    {
        if self.all_entries().len() > 0 {
            let e = self.all_entries()[0];
            assert(self.all_entries().contains(e));
            let m = self.lemma_entry_lists_a_move(e);
            assert(self.generated(m));
            self.lemma_generated_is_legal(m);
        }
        if self.has_legal_move_spec() {
            let m = choose|m: Move| #[trigger] self.legal_spec(m);
            self.lemma_legal_is_generated(m);
        }
    }

    /// Does the side to move have a legal move?
    pub fn has_legal_moves(&self) -> (r: bool)
        requires
            self.wf(),
            popcount(self.color_mask(self.turn_)) <= 16,
        ensures
            r == self.has_legal_move_spec(),
    {
        proof {
            self.lemma_entries_nonempty();
        }
        MoveGenerator::has_legal_moves(self)
    }
}

impl BoardPosition {
    /// Whether the game goes on, or ends in stalemate or checkmate.
    pub fn status(&self) -> (r: BoardStatus)
        requires
            self.wf(),
            popcount(self.color_mask(self.turn_)) <= 16,
        ensures
            r == self.status_spec(),
    {
        if self.has_legal_moves() {
            BoardStatus::Ongoing
        } else if self.checkers_bb.0 == 0 {
            BoardStatus::Stalemate
        } else {
            BoardStatus::Checkmate
        }
    }

    /// Is the side to move checkmated?
    pub fn is_checkmate(&self) -> (r: bool)
        requires
            self.wf(),
            popcount(self.color_mask(self.turn_)) <= 16,
        ensures
            r == (self.status_spec() == BoardStatus::Checkmate),
    {
        self.status() == BoardStatus::Checkmate
    }

    /// Is the side to move stalemated?
    pub fn is_stalemate(&self) -> (r: bool)
        requires
            self.wf(),
            popcount(self.color_mask(self.turn_)) <= 16,
        ensures
            r == (self.status_spec() == BoardStatus::Stalemate),
    {
        self.status() == BoardStatus::Stalemate
    }

    /// Does `move_` leave the other side in check?
    pub fn gives_check(&self, move_: Move) -> (r: bool)
        requires
            self.wf(),
            self.move_ok(move_),
        ensures
            r == (self.after_move(move_).checkers_bb.0 != 0),
    {
        self.make_move_new(move_).is_check()
    }

    /// Does `move_` checkmate the other side?
    pub fn gives_checkmate(&self, move_: Move) -> (r: bool)
        requires
            self.wf(),
            self.move_ok(move_),
            popcount(self.color_mask(self.turn_.other())) <= 16,
        ensures
            r == (self.after_move(move_).status_spec() == BoardStatus::Checkmate),
    {
        let after = self.make_move_new(move_);
        proof {
            lemma_mask_of(|i: int| self.moved_piece_at(move_, i) matches Some(p) && p.color == self.turn_.other(), 64);
            assert forall|i: int| #[trigger] bit(after.color_mask(after.turn_), i) implies bit(self.color_mask(self.turn_.other()), i) by {
                lemma_piece_at_facts(after, i);
                lemma_piece_at_facts(*self, i);
            }
            crate::bits::lemma_count_bits_subset(after.color_mask(after.turn_), self.color_mask(self.turn_.other()), 64);
        }
        after.status() == BoardStatus::Checkmate
    }

    /// Is `move_` quiet: neither a capture nor a move that gives check?
    pub fn is_quiet(&self, move_: Move) -> (r: bool)
        requires
            self.wf(),
            self.move_ok(move_),
        ensures
            r == !(((move_.source != move_.dest && (bit(self.color_mask(self.turn_.other()), move_.source.index()) || bit(
                self.color_mask(self.turn_.other()),
                move_.dest.index(),
            ))) || (self.ep == Some(move_.dest) && bit(self.pawns.0, move_.source.index()) && (crate::attacks::abs(
                move_.dest.index() - move_.source.index(),
            ) == 7 || crate::attacks::abs(move_.dest.index() - move_.source.index()) == 9) && !bit(
                self.occupied_bb.0,
                move_.dest.index(),
            ))) || self.after_move(move_).checkers_bb.0 != 0),
    {
        !(self.is_capture(move_) || self.gives_check(move_))
    }

    /// The position with the other side to move and no en passant square, the clocks counted
    /// on, and the checkers and pinned pieces of the new side to move.
    pub fn null_move_unchecked(&self) -> (r: BoardPosition)
        requires
            self.wf(),
            self.halfmove_clock < 255,
            self.fullmove_number < 65535,
        ensures
            r.wf(),
            r.info_ok(),
            r.same_placement(*self),
            r.turn_ == self.turn_.other(),
            r.ep is None,
            r.white_castle_rights == self.white_castle_rights,
            r.black_castle_rights == self.black_castle_rights,
            r.halfmove_clock == self.halfmove_clock + 1,
            r.fullmove_number == self.fullmove_number + 1,
    {
        let mut result = *self;
        result.flip_turn_unchecked();
        result.remove_ep();
        result.halfmove_clock = result.halfmove_clock + 1;
        result.fullmove_number = result.fullmove_number + 1;
        proof {
            crate::position_move::lemma_same_placement_wf(*self, result);
        }
        result.update_pin_and_checkers_info();
        result
    }

    /// `null_move_unchecked`, unless the side to move is in check.
    pub fn null_move(&self) -> (r: Result<BoardPosition, TimecatError>)
        requires
            self.wf(),
            self.halfmove_clock < 255,
            self.fullmove_number < 65535,
        ensures
            self.checkers_bb.0 == 0 ==> (r matches Ok(p) && p.wf() && p.info_ok() && p.same_placement(*self) && p.turn_
                == self.turn_.other() && p.ep is None && p.white_castle_rights == self.white_castle_rights
                && p.black_castle_rights == self.black_castle_rights && p.halfmove_clock == self.halfmove_clock + 1
                && p.fullmove_number == self.fullmove_number + 1),
            self.checkers_bb.0 != 0 ==> (r matches Err(e) && e matches TimecatError::NullMoveInCheck { fen } && fen@ == crate::builder::fen_text(
                self.builder_model(),
                crate::builder::ep_rank_of(self.turn_),
            )),
    {
        if self.checkers_bb.0 == 0 {
            Ok(self.null_move_unchecked())
        } else {
            Err(TimecatError::NullMoveInCheck { fen: self.get_fen() })
        }
    }

    /// The legal moves from the squares of `from_bitboard` to those of `to_bitboard`.
    pub fn generate_masked_legal_moves(&self, from_bitboard: BitBoard, to_bitboard: BitBoard) -> (r: MoveGenerator)
        requires
            self.wf(),
            popcount(self.color_mask(self.turn_)) <= 16,
        ensures
            r.gen_wf(),
            crate::move_generator::reorganized(self.all_entries(), r.items(), to_bitboard.0),
            r.from_mask() == from_bitboard.0,
            r.to_mask() == to_bitboard.0,
            r.promotion_at() == 0,
            r.at() == 0,
            r.last_at() == usize::MAX,
    {
        let mut moves = self.generate_legal_moves();
        moves.set_iterator_masks(from_bitboard, to_bitboard);
        moves
    }

    /// The legal moves that capture: onto pieces of the other side or the en passant square.
    pub fn generate_legal_captures(&self) -> (r: MoveGenerator)
        requires
            self.wf(),
            popcount(self.color_mask(self.turn_)) <= 16,
        ensures
            r.gen_wf(),
            crate::move_generator::reorganized(self.all_entries(), r.items(), r.to_mask()),
            r.from_mask() == u64::MAX,
            r.to_mask() == match self.ep {
                Some(sq) => self.color_mask(self.turn_.other()) ^ (1u64 << (sq.index() as u64)),
                None => self.color_mask(self.turn_.other()),
            },
            r.promotion_at() == 0,
            r.at() == 0,
            r.last_at() == usize::MAX,
    {
        let mut targets = self.opponent_occupied();
        match self.ep {
            Some(sq) => {
                targets = targets.xor(sq.to_bitboard());
            },
            None => {},
        }
        let mut moves = self.generate_legal_moves();
        moves.set_to_bitboard_iterator_mask(targets);
        moves
    }

    /// Is there a group of legal moves from the source of `move_`?
    pub fn is_legal(&self, move_: &Move) -> (r: bool)
        requires
            self.wf(),
            popcount(self.color_mask(self.turn_)) <= 16,
        ensures
            r == exists|k: int| 0 <= k < self.all_entries().len() && (#[trigger] self.all_entries()[k]).square == move_.source,
    {
        self.generate_legal_moves().contains(move_)
    }
}

impl BoardPosition {
    /// The squares not of the side to move attacked by a piece of one of `attacker_piece_types`
    /// and of one of `colors` standing on `attackers_mask`.
    pub fn get_custom_attacked_squares_bb(&self, attacker_piece_types: &Vec<PieceType>, colors: &Vec<Color>, attackers_mask: BitBoard) -> (r: BitBoard)
        requires
            self.wf(),
        ensures
            forall|d: int| #[trigger] r.has(d) == ((exists|s: int| #[trigger] self.custom_attack(attacker_piece_types@, colors@, attackers_mask.0, s, d)) && !bit(self.color_mask(self.turn_), d)),
    {
        let mut attacked: u64 = 0;
        let mut i: usize = 0;
        while i < 64
            invariant
                self.wf(),
                i <= 64,
                forall|d: int| #[trigger] bit(attacked, d) == exists|s: int| 0 <= s < i && #[trigger] self.custom_attack(attacker_piece_types@, colors@, attackers_mask.0, s, d),
            decreases 64 - i,
        {
            let sq = Square::from_index(i);
            let ghost si = i as int;
            proof {
                lemma_piece_at_facts(*self, si);
            }
            match self.get_piece_at(sq) {
                Some(p) => {
                    if attackers_mask.contains(sq) && vec_contains_type(attacker_piece_types, p.type_) && vec_contains_color(colors, p.color) {
                        let a = piece_attacks(p.type_, p.color, sq, self.occupied_bb);
                        let ghost before = attacked;
                        attacked = attacked | a.0;
                        proof {
                            assert forall|d: int| #[trigger] bit(attacked, d) == exists|s: int| 0 <= s < i + 1 && #[trigger] self.custom_attack(attacker_piece_types@, colors@, attackers_mask.0, s, d) by {
                                if a.has(d) {
                                    assert(self.custom_attack(attacker_piece_types@, colors@, attackers_mask.0, si, d));
                                }
                                if exists|s: int| 0 <= s < i + 1 && #[trigger] self.custom_attack(attacker_piece_types@, colors@, attackers_mask.0, s, d) {
                                    let s = choose|s: int| 0 <= s < i + 1 && #[trigger] self.custom_attack(attacker_piece_types@, colors@, attackers_mask.0, s, d);
                                    if s == si {
                                        assert(a.has(d));
                                    }
                                }
                            }
                        }
                    } else {
                        proof {
                            assert(forall|d: int| !#[trigger] self.custom_attack(attacker_piece_types@, colors@, attackers_mask.0, si, d));
                        }
                    }
                },
                None => {
                    proof {
                        assert(forall|d: int| !#[trigger] self.custom_attack(attacker_piece_types@, colors@, attackers_mask.0, si, d));
                    }
                },
            }
            i = i + 1;
        }
        proof {
            assert forall|d: int| #[trigger] bit(attacked, d) == exists|s: int| #[trigger] self.custom_attack(attacker_piece_types@, colors@, attackers_mask.0, s, d) by {
                if exists|s: int| #[trigger] self.custom_attack(attacker_piece_types@, colors@, attackers_mask.0, s, d) {
                    let s = choose|s: int| #[trigger] self.custom_attack(attacker_piece_types@, colors@, attackers_mask.0, s, d);
                    lemma_piece_at_facts(*self, s);
                }
            }
        }
        BitBoard(attacked).and_not(self.self_occupied())
    }

    /// The piece on `s` is of one of `types` and `colors`, stands on `mask`, and attacks `d`.
    pub open spec fn custom_attack(self, types: Seq<PieceType>, colors: Seq<Color>, mask: u64, s: int, d: int) -> bool {
        match self.piece_at(s) {
            Some(p) => types.contains(p.type_) && colors.contains(p.color) && bit(mask, s) && piece_attack(p.type_, p.color, s, d, self.occupied_bb.0),
            None => false,
        }
    }

    /// A piece of either side on `s` attacks `d`.
    pub open spec fn attacks_from_any(self, s: int, d: int) -> bool {
        self.attacks_from(s, d, Color::White) || self.attacks_from(s, d, Color::Black)
    }

    /// The squares not of the side to move that some piece attacks.
    pub fn get_attacked_squares_bb(&self) -> (r: BitBoard)
        requires
            self.wf(),
        ensures
            forall|d: int| #[trigger] r.has(d) == ((exists|s: int| #[trigger] self.attacks_from_any(s, d)) && !bit(self.color_mask(self.turn_), d)),
    {
        let types = crate::piece::all_piece_types();
        let colors = crate::types::all_colors();
        let all = BitBoard(0xffff_ffff_ffff_ffff);
        let r = self.get_custom_attacked_squares_bb(&types, &colors, all);
        proof {
            assert forall|d: int| #[trigger] r.has(d) == ((exists|s: int| #[trigger] self.attacks_from_any(s, d)) && !bit(self.color_mask(self.turn_), d)) by {
                assert(r.has(d) == ((exists|s: int| #[trigger] self.custom_attack(types@, colors@, all.0, s, d)) && !bit(self.color_mask(self.turn_), d)));
                self.lemma_all_custom_attacks(types@, colors@, all.0, d);
            }
        }
        r
    }
}

impl BoardPosition {
    proof fn lemma_all_custom_attacks(self, types: Seq<PieceType>, colors: Seq<Color>, all: u64, d: int)
        requires
            self.wf(),
            types == seq![PieceType::Pawn, PieceType::Knight, PieceType::Bishop, PieceType::Rook, PieceType::Queen, PieceType::King],
            colors == seq![Color::White, Color::Black],
            all == 0xffff_ffff_ffff_ffffu64,
        ensures
            (exists|s: int| #[trigger] self.custom_attack(types, colors, all, s, d)) == (exists|s: int| #[trigger] self.attacks_from_any(s, d)),
    {
        if exists|s: int| #[trigger] self.custom_attack(types, colors, all, s, d) {
            let s = choose|s: int| #[trigger] self.custom_attack(types, colors, all, s, d);
            let p = self.piece_at(s).unwrap();
            assert(self.attacks_from(s, d, p.color));
            assert(self.attacks_from_any(s, d));
        }
        if exists|s: int| #[trigger] self.attacks_from_any(s, d) {
            let s = choose|s: int| #[trigger] self.attacks_from_any(s, d);
            lemma_piece_at_facts(self, s);
            assert(self.piece_at(s) is Some);
            assert(bit(self.occupied_bb.0, s));
            assert(0 <= s < 64);
            let p = self.piece_at(s).unwrap();
            crate::bits::lemma_bit_all(s);
            assert(types.contains(p.type_)) by {
                assert(types[p.type_.index()] == p.type_);
            }
            assert(colors.contains(p.color)) by {
                assert(colors[p.color.index()] == p.color);
            }
            assert(self.custom_attack(types, colors, all, s, d));
        }
    }
}

/// Does `v` hold `t`?
fn vec_contains_type(v: &Vec<PieceType>, t: PieceType) -> (r: bool)
    ensures
        r == v@.contains(t),
{
    let mut k: usize = 0;
    while k < v.len()
        invariant
            k <= v.len(),
            forall|i: int| 0 <= i < k ==> v@[i] != t,
        decreases v.len() - k,
    {
        if v[k] == t {
            proof {
                assert(v@[k as int] == t);
            }
            return true;
        }
        k = k + 1;
    }
    false
}

/// Does `v` hold `c`?
fn vec_contains_color(v: &Vec<Color>, c: Color) -> (r: bool)
    ensures
        r == v@.contains(c),
{
    let mut k: usize = 0;
    while k < v.len()
        invariant
            k <= v.len(),
            forall|i: int| 0 <= i < k ==> v@[i] != c,
        decreases v.len() - k,
    {
        if v[k] == c {
            proof {
                assert(v@[k as int] == c);
            }
            return true;
        }
        k = k + 1;
    }
    false
}

/// The unicode symbol of a piece of `color` and type `t`, white drawn hollow.
pub open spec fn unicode_symbol(t: PieceType, color: Color) -> char {
    match (color, t) {
        (Color::White, PieceType::Pawn) => '♙',
        (Color::White, PieceType::Knight) => '♘',
        (Color::White, PieceType::Bishop) => '♗',
        (Color::White, PieceType::Rook) => '♖',
        (Color::White, PieceType::Queen) => '♕',
        (Color::White, PieceType::King) => '♔',
        (Color::Black, PieceType::Pawn) => '♟',
        (Color::Black, PieceType::Knight) => '♞',
        (Color::Black, PieceType::Bishop) => '♝',
        (Color::Black, PieceType::Rook) => '♜',
        (Color::Black, PieceType::Queen) => '♛',
        (Color::Black, PieceType::King) => '♚',
    }
}

fn unicode_symbol_exec(t: PieceType, color: Color) -> (c: char)
    ensures
        c == unicode_symbol(t, color),
{
    match (color, t) {
        (Color::White, PieceType::Pawn) => '♙',
        (Color::White, PieceType::Knight) => '♘',
        (Color::White, PieceType::Bishop) => '♗',
        (Color::White, PieceType::Rook) => '♖',
        (Color::White, PieceType::Queen) => '♕',
        (Color::White, PieceType::King) => '♔',
        (Color::Black, PieceType::Pawn) => '♟',
        (Color::Black, PieceType::Knight) => '♞',
        (Color::Black, PieceType::Bishop) => '♝',
        (Color::Black, PieceType::Rook) => '♜',
        (Color::Black, PieceType::Queen) => '♛',
        (Color::Black, PieceType::King) => '♚',
    }
}

/// The pieces of type `t` and color `c` on the squares of `mask` below `n`, in order.
pub open spec fn pieces_of(p: BoardPosition, t: PieceType, c: Color, mask: u64, n: int) -> Seq<(Piece, Square)>
    decreases n,
{
    if n <= 0 {
        Seq::empty()
    } else if bit(p.mask_of(t) & p.color_mask(c) & mask, n - 1) {
        pieces_of(p, t, c, mask, n - 1).push((Piece { type_: t, color: c }, square_at(n - 1)))
    } else {
        pieces_of(p, t, c, mask, n - 1)
    }
}

/// The pieces of type `t` of the first `n` colors of `colors` on `mask`.
pub open spec fn pieces_of_colors(p: BoardPosition, t: PieceType, colors: Seq<Color>, mask: u64, n: int) -> Seq<(Piece, Square)>
    decreases n,
{
    if n <= 0 {
        Seq::empty()
    } else {
        pieces_of_colors(p, t, colors, mask, n - 1) + pieces_of(p, t, colors[n - 1], mask, 64)
    }
}

/// The pieces of the first `n` types of `types` and the colors of `colors` on `mask`, by type,
/// then color, then square.
pub open spec fn pieces_of_types(p: BoardPosition, types: Seq<PieceType>, colors: Seq<Color>, mask: u64, n: int) -> Seq<(Piece, Square)>
    decreases n,
{
    if n <= 0 {
        Seq::empty()
    } else {
        pieces_of_types(p, types, colors, mask, n - 1) + pieces_of_colors(p, types[n - 1], colors, mask, colors.len() as int)
    }
}

impl BoardPosition {
    /// The letter of the piece on `square`, or a space.
    pub fn piece_symbol_at(&self, square: Square) -> (r: String)
        ensures
            r@ == match self.piece_at(square.index()) {
                Some(p) => seq![crate::piece::piece_char(p.type_, p.color)],
                None => seq![' '],
            },
    {
        match self.get_piece_at(square) {
            Some(p) => p.to_string(),
            None => {
                let mut v: Vec<char> = Vec::new();
                v.push(' ');
                proof {
                    assert(v@ =~= seq![' ']);
                }
                crate::text::chars_to_string(&v)
            },
        }
    }

    /// The unicode symbol of the piece on `square` (with the colors swapped when `flip_color`
    /// says so), or a space.
    pub fn piece_unicode_symbol_at(&self, square: Square, flip_color: bool) -> (r: String)
        ensures
            r@ == match self.piece_at(square.index()) {
                Some(p) => seq![unicode_symbol(p.type_, if flip_color { p.color.other() } else { p.color })],
                None => seq![' '],
            },
    {
        let mut v: Vec<char> = Vec::new();
        match self.get_piece_at(square) {
            Some(p) => {
                let color = if flip_color { p.color.flip() } else { p.color };
                v.push(unicode_symbol_exec(p.type_, color));
            },
            None => {
                v.push(' ');
            },
        }
        crate::text::chars_to_string(&v)
    }

    /// The pieces of `piece_types` and `colors` on `mask`, with their squares: by type in the
    /// order given, then by color in the order given, then by square.
    pub fn custom_iter(&self, piece_types: &Vec<PieceType>, colors: &Vec<Color>, mask: BitBoard) -> (r: Vec<(Piece, Square)>)
        ensures
            r@ == pieces_of_types(*self, piece_types@, colors@, mask.0, piece_types@.len() as int),
    {
        let mut v: Vec<(Piece, Square)> = Vec::new();
        let mut i: usize = 0;
        while i < piece_types.len()
            invariant
                i <= piece_types.len(),
                v@ == pieces_of_types(*self, piece_types@, colors@, mask.0, i as int),
            decreases piece_types.len() - i,
        {
            let t = piece_types[i];
            let ghost vi = v@;
            let mut j: usize = 0;
            while j < colors.len()
                invariant
                    j <= colors.len(),
                    i < piece_types.len(),
                    t == piece_types@[i as int],
                    v@ == vi + pieces_of_colors(*self, t, colors@, mask.0, j as int),
                decreases colors.len() - j,
            {
                let c = colors[j];
                let squares = self.get_piece_mask(t).and(self.occupied_color(c)).and(mask);
                let ghost vj = v@;
                let mut k: usize = 0;
                while k < 64
                    invariant
                        k <= 64,
                        j < colors.len(),
                        c == colors@[j as int],
                        squares.0 == self.mask_of(t) & self.color_mask(c) & mask.0,
                        v@ == vj + pieces_of(*self, t, c, mask.0, k as int),
                    decreases 64 - k,
                {
                    let sq = Square::from_index(k);
                    if squares.contains(sq) {
                        v.push((Piece::new(t, c), sq));
                        proof {
                            assert(v@ =~= vj + pieces_of(*self, t, c, mask.0, k as int + 1));
                        }
                    }
                    k = k + 1;
                }
                proof {
                    assert(v@ =~= vi + pieces_of_colors(*self, t, colors@, mask.0, j as int + 1));
                }
                j = j + 1;
            }
            proof {
                assert(v@ =~= pieces_of_types(*self, piece_types@, colors@, mask.0, i as int + 1));
            }
            i = i + 1;
        }
        v
    }

    /// All the pieces with their squares: by type, then color, then square.
    pub fn iter(&self) -> (r: Vec<(Piece, Square)>)
        ensures
            r@ == pieces_of_types(
                *self,
                seq![PieceType::Pawn, PieceType::Knight, PieceType::Bishop, PieceType::Rook, PieceType::Queen, PieceType::King],
                seq![Color::White, Color::Black],
                0xffff_ffff_ffff_ffffu64,
                6,
            ),
    {
        let types = crate::piece::all_piece_types();
        let colors = crate::types::all_colors();
        self.custom_iter(&types, &colors, BitBoard(0xffff_ffff_ffff_ffff))
    }
}

/// The square mirrored across the middle of the board: ranks swapped when `ranks`, files
/// swapped otherwise.
pub open spec fn mirror_square(i: int, ranks: bool) -> int {
    if ranks { 8 * (7 - i / 8) + i % 8 } else { 8 * (i / 8) + 7 - i % 8 }
}

impl BoardPosition {
    /// The position with the pieces mirrored (ranks swapped when `ranks`, files otherwise),
    /// the en passant square mirrored alike, no castle rights, and the rest kept.
    fn mirrored(&self, ranks: bool) -> (r: BoardPosition)
        requires
            self.wf(),
        ensures
            r.wf(),
            r.info_ok(),
            forall|i: int| 0 <= i < 64 ==> #[trigger] r.piece_at(i) == self.piece_at(mirror_square(i, ranks)),
            r.turn_ == self.turn_,
            r.white_castle_rights == CastleRights::NoRights,
            r.black_castle_rights == CastleRights::NoRights,
            r.ep == match self.ep {
                Some(sq) => Some(square_at(mirror_square(sq.index(), ranks))),
                None => None,
            },
            r.halfmove_clock == self.halfmove_clock,
            r.fullmove_number == self.fullmove_number,
    {
        let mut result = BoardPosition::new_empty();
        let mut i: usize = 0;
        while i < 64
            invariant
                i <= 64,
                self.wf(),
                result.wf(),
                forall|j: int| 0 <= j < i ==> #[trigger] result.piece_at(j) == self.piece_at(mirror_square(j, ranks)),
                forall|j: int| i <= j ==> #[trigger] result.piece_at(j) is None,
                result.turn_ == Color::White,
                result.white_castle_rights == CastleRights::NoRights,
                result.black_castle_rights == CastleRights::NoRights,
                result.ep is None,
                result.halfmove_clock == 0,
                result.fullmove_number == 1,
            decreases 64 - i,
        {
            let from = if ranks { 8 * (7 - i / 8) + i % 8 } else { 8 * (i / 8) + 7 - i % 8 };
            match self.get_piece_at(Square::from_index(from)) {
                Some(p) => {
                    result.xor(p.type_, Square::from_index(i), p.color);
                },
                None => {},
            }
            i = i + 1;
        }
        let ghost placed = result;
        result.turn_ = self.turn_;
        result.halfmove_clock = self.halfmove_clock;
        result.fullmove_number = self.fullmove_number;
        result.ep = match self.ep {
            Some(sq) => Some(if ranks { sq.horizontal_mirror() } else { sq.vertical_mirror() }),
            None => None,
        };
        proof {
            match self.ep {
                Some(sq) => {
                    crate::types::lemma_square_at_range(mirror_square(sq.index(), ranks));
                },
                None => {},
            }
        }
        proof {
            crate::position_move::lemma_same_placement_wf(placed, result);
        }
        let ghost before_info = result;
        result.update_pin_and_checkers_info();
        proof {
            crate::position_move::lemma_same_placement_wf(before_info, result);
        }
        result
    }

    /// Mirror the board top to bottom (ranks swapped), dropping the castle rights; the side
    /// to move stays.
    pub fn flip_vertical(&mut self)
        requires
            old(self).wf(),
        ensures
            final(self).wf(),
            final(self).info_ok(),
            forall|i: int| 0 <= i < 64 ==> #[trigger] final(self).piece_at(i) == old(self).piece_at(mirror_square(i, true)),
            final(self).turn_ == old(self).turn_,
            final(self).white_castle_rights == CastleRights::NoRights,
            final(self).black_castle_rights == CastleRights::NoRights,
            final(self).ep == match old(self).ep {
                Some(sq) => Some(square_at(mirror_square(sq.index(), true))),
                None => None,
            },
            final(self).halfmove_clock == old(self).halfmove_clock,
            final(self).fullmove_number == old(self).fullmove_number,
    {
        *self = self.mirrored(true);
    }

    /// Mirror the board left to right (files swapped), dropping the castle rights.
    pub fn flip_horizontal(&mut self)
        requires
            old(self).wf(),
        ensures
            final(self).wf(),
            final(self).info_ok(),
            forall|i: int| 0 <= i < 64 ==> #[trigger] final(self).piece_at(i) == old(self).piece_at(mirror_square(i, false)),
            final(self).turn_ == old(self).turn_,
            final(self).white_castle_rights == CastleRights::NoRights,
            final(self).black_castle_rights == CastleRights::NoRights,
            final(self).ep == match old(self).ep {
                Some(sq) => Some(square_at(mirror_square(sq.index(), false))),
                None => None,
            },
            final(self).halfmove_clock == old(self).halfmove_clock,
            final(self).fullmove_number == old(self).fullmove_number,
    {
        *self = self.mirrored(false);
    }

    /// `flip_vertical`, then hand the move to the other side (the checkers and pinned pieces
    /// stay those of the side that had the move).
    pub fn flip_vertical_and_flip_turn_unchecked(&mut self)
        requires
            old(self).wf(),
        ensures
            final(self).wf(),
            forall|i: int| 0 <= i < 64 ==> #[trigger] final(self).piece_at(i) == old(self).piece_at(mirror_square(i, true)),
            final(self).turn_ == old(self).turn_.other(),
            final(self).white_castle_rights == CastleRights::NoRights,
            final(self).black_castle_rights == CastleRights::NoRights,
            final(self).ep == match old(self).ep {
                Some(sq) => Some(square_at(mirror_square(sq.index(), true))),
                None => None,
            },
            final(self).halfmove_clock == old(self).halfmove_clock,
            final(self).fullmove_number == old(self).fullmove_number,
    {
        self.flip_vertical();
        let ghost before = *self;
        self.flip_turn_unchecked();
        proof {
            crate::position_move::lemma_same_placement_wf(before, *self);
        }
    }
}

} // verus!
