//! The chess board: piece placement as bitboards, side to move, castling
//! rights, en passant square and move counters.
use crate::chess::{bit, Bitboard, Castles, Color, Piece, Role, Square};
use crate::zobrist::{self, castling_spec, en_passant_spec, psq_spec, turn_spec, Zobrist};
use vstd::prelude::*;

verus! {

/// One if `b` holds, else zero.
pub open spec fn ind(b: bool) -> int {
    if b {
        1
    } else {
        0
    }
}

/// The chess board.
#[derive(Clone, Debug, PartialEq, Eq, Hash)]
pub struct Board {
    /// Squares occupied by each role, indexed by [`Role::index`].
    pub roles: [Bitboard; 6],
    /// Squares occupied by each color, indexed by [`Color::index`].
    pub colors: [Bitboard; 2],
    pub turn: Color,
    pub castles: Castles,
    pub en_passant: Option<Square>,
    pub halfmoves: u8,
    pub fullmoves: u32,
}

impl Default for Board {
    /// The standard starting position.
    fn default() -> (r: Board)
        ensures
            r == Board::startpos_spec(),
            r.wf(),
    {
        Board::startpos()
    }
}

impl Board {
    /// How many role bitboards hold `sq`.
    pub open spec fn role_count(self, sq: int) -> int {
        ind(self.roles[0].has(sq)) + ind(self.roles[1].has(sq)) + ind(self.roles[2].has(sq))
            + ind(self.roles[3].has(sq)) + ind(self.roles[4].has(sq)) + ind(self.roles[5].has(sq))
    }

    /// At most one role and one color hold `sq`, and a role does iff a color does.
    pub open spec fn square_ok(self, sq: int) -> bool {
        &&& self.role_count(sq) <= 1
        &&& !(self.colors[0].has(sq) && self.colors[1].has(sq))
        &&& (self.role_count(sq) == 1) == (self.colors[0].has(sq) || self.colors[1].has(sq))
    }

    /// Each occupied square holds exactly one role and one color.
    pub open spec fn wf(self) -> bool {
        &&& forall|sq: int| 0 <= sq < 64 ==> #[trigger] self.square_ok(sq)
        &&& self.castles.wf()
        &&& match self.en_passant {
            Some(sq) => sq.wf(),
            None => true,
        }
    }

    /// The color of the piece on `sq`.
    pub open spec fn color_at(self, sq: int) -> Option<Color> {
        if self.colors[0].has(sq) {
            Some(Color::White)
        } else if self.colors[1].has(sq) {
            Some(Color::Black)
        } else {
            None
        }
    }

    /// The role of the piece on `sq`.
    pub open spec fn role_at(self, sq: int) -> Option<Role> {
        if self.roles[0].has(sq) {
            Some(Role::Pawn)
        } else if self.roles[1].has(sq) {
            Some(Role::Knight)
        } else if self.roles[2].has(sq) {
            Some(Role::Bishop)
        } else if self.roles[3].has(sq) {
            Some(Role::Rook)
        } else if self.roles[4].has(sq) {
            Some(Role::Queen)
        } else if self.roles[5].has(sq) {
            Some(Role::King)
        } else {
            None
        }
    }

    /// The piece on `sq`.
    pub open spec fn piece_at(self, sq: int) -> Option<Piece> {
        match (self.role_at(sq), self.color_at(sq)) {
            (Some(role), Some(color)) => Some(Piece { role, color }),
            _ => None,
        }
    }

    /// The Zobrist contribution of square `sq`.
    pub open spec fn square_hash(self, sq: int) -> u64 {
        match self.piece_at(sq) {
            Some(p) => psq_spec(p, sq),
            None => 0,
        }
    }

    /// The XOR of the piece-square keys of the squares below `n`.
    pub open spec fn pieces_hash(self, n: int) -> u64
        decreases n,
    {
        if n <= 0 {
            0
        } else {
            self.pieces_hash(n - 1) ^ self.square_hash(n - 1)
        }
    }

    /// The Zobrist hash: the castling key, the keys of all pieces, the turn
    /// key when Black is to move, and the key of the en passant file.
    pub open spec fn zobrist_spec(self) -> u64 {
        let base = castling_spec(self.castles.0 as int) ^ self.pieces_hash(64);
        let turned = if self.turn == Color::Black {
            base ^ turn_spec()
        } else {
            base
        };
        match self.en_passant {
            Some(ep) => turned ^ en_passant_spec((ep.0 % 8) as int),
            None => turned,
        }
    }

    /// The pieces and their squares with index below `n`, where index `k`
    /// stands for the piece `k / 64` on square `k % 64`.
    pub open spec fn pieces_upto(self, n: int) -> Seq<(Piece, Square)>
        decreases n,
    {
        if n <= 0 {
            Seq::empty()
        } else {
            let p = Piece::from_idx((n - 1) / 64);
            let sq = (n - 1) % 64;
            let rest = self.pieces_upto(n - 1);
            if self.piece_at(sq) == Some(p) {
                rest.push((p, Square(sq as u8)))
            } else {
                rest
            }
        }
    }

    /// All pieces on the board, piece by piece, each by ascending square.
    pub open spec fn pieces(self) -> Seq<(Piece, Square)> {
        self.pieces_upto(768)
    }

    /// The board of the standard starting position.
    pub open spec fn startpos_spec() -> Board {
        Board {
            roles: [
                Bitboard(0x00FF00000000FF00u64),
                Bitboard(0x4200000000000042u64),
                Bitboard(0x2400000000000024u64),
                Bitboard(0x8100000000000081u64),
                Bitboard(0x0800000000000008u64),
                Bitboard(0x1000000000000010u64),
            ],
            colors: [Bitboard(0x000000000000FFFFu64), Bitboard(0xFFFF000000000000u64)],
            turn: Color::White,
            castles: Castles(15),
            en_passant: None,
            halfmoves: 0,
            fullmoves: 1,
        }
    }

    /// The board of the standard starting position.
    pub fn startpos() -> (r: Board)
        ensures
            r == Board::startpos_spec(),
            r.wf(),
            r.roles[0].0 == 0x00FF00000000FF00u64,
            r.roles[1].0 == 0x4200000000000042u64,
            r.roles[2].0 == 0x2400000000000024u64,
            r.roles[3].0 == 0x8100000000000081u64,
            r.roles[4].0 == 0x0800000000000008u64,
            r.roles[5].0 == 0x1000000000000010u64,
            r.colors[0].0 == 0x000000000000FFFFu64,
            r.colors[1].0 == 0xFFFF000000000000u64,
            r.turn == Color::White,
            r.castles.0 == 15,
            r.en_passant.is_none(),
            r.halfmoves == 0,
            r.fullmoves == 1,
    {
        let b = Board {
            roles: [
                Bitboard(0x00FF00000000FF00u64),
                Bitboard(0x4200000000000042u64),
                Bitboard(0x2400000000000024u64),
                Bitboard(0x8100000000000081u64),
                Bitboard(0x0800000000000008u64),
                Bitboard(0x1000000000000010u64),
            ],
            colors: [Bitboard(0x000000000000FFFFu64), Bitboard(0xFFFF000000000000u64)],
            turn: Color::White,
            castles: Castles::all(),
            en_passant: None,
            halfmoves: 0,
            fullmoves: 1,
        };
        proof {
            assert forall|sq: int| 0 <= sq < 64 implies #[trigger] b.square_ok(sq) by {
                lemma_startpos_square(sq as u64);
            }
        }
        b
    }

    /// Squares occupied by pieces of color `c`.
    pub fn by_color(&self, c: Color) -> (r: Bitboard)
        ensures
            r == self.colors[c.idx()],
    {
        self.colors[c.index()]
    }

    /// Squares occupied by pieces of role `r`.
    pub fn by_role(&self, role: Role) -> (r: Bitboard)
        ensures
            r == self.roles[role.idx()],
    {
        self.roles[role.index()]
    }

    /// Squares occupied by the piece `p`.
    pub fn by_piece(&self, p: Piece) -> (r: Bitboard)
        requires
            self.wf(),
        ensures
            r.0 == self.colors[p.color.idx()].0 & self.roles[p.role.idx()].0,
            forall|i: int| 0 <= i < 64 ==> #[trigger] r.has(i) == (self.piece_at(i) == Some(p)),
    {
        let r = self.by_color(p.color()).intersection(self.by_role(p.role()));
        proof {
            assert forall|i: int| 0 <= i < 64 implies #[trigger] r.has(i) == (self.piece_at(i)
                == Some(p)) by {
                self.lemma_piece_at(i);
            }
        }
        r
    }

    /// The role and color of the piece on `sq` each follow from the one
    /// bitboard of their kind that holds `sq`.
    pub proof fn lemma_piece_at(self, sq: int)
        requires
            self.wf(),
            0 <= sq < 64,
        ensures
            forall|k: int| 0 <= k < 6 ==> (#[trigger] self.roles[k].has(sq) <==> self.role_at(sq)
                == Some(Role::from_idx(k))),
            forall|k: int| 0 <= k < 2 ==> (#[trigger] self.colors[k].has(sq) <==> self.color_at(sq)
                == Some(Color::from_idx(k))),
            self.role_at(sq).is_some() <==> self.color_at(sq).is_some(),
            self.role_at(sq) is Some ==> self.role_at(sq)->0.idx() < 6 && self.roles[self.role_at(sq)->0.idx()].has(sq),
            self.color_at(sq) is Some ==> self.colors[self.color_at(sq)->0.idx()].has(sq),
            forall|p: Piece| (#[trigger] self.piece_at(sq) == Some(p)) <==> (self.roles[p.role.idx()].has(sq) && self.colors[p.color.idx()].has(sq)),
    {
        assert(self.square_ok(sq));
        assert forall|p: Piece| (#[trigger] self.piece_at(sq) == Some(p)) <==> (
        self.roles[p.role.idx()].has(sq) && self.colors[p.color.idx()].has(sq)) by {
            assert(self.roles[p.role.idx()].has(sq) ==> self.role_at(sq) == Some(
                Role::from_idx(p.role.idx()),
            ));
        }
    }

    /// The color of the piece on `sq`, if any.
    pub fn color_on(&self, sq: Square) -> (r: Option<Color>)
        requires
            sq.wf(),
        ensures
            r == self.color_at(sq.0 as int),
    {
        if self.colors[0].contains(sq) {
            Some(Color::White)
        } else if self.colors[1].contains(sq) {
            Some(Color::Black)
        } else {
            None
        }
    }

    /// The role of the piece on `sq`, if any.
    pub fn role_on(&self, sq: Square) -> (r: Option<Role>)
        requires
            sq.wf(),
        ensures
            r == self.role_at(sq.0 as int),
    {
        let mut k: usize = 0;
        while k < 6
            invariant
                0 <= k <= 6,
                sq.wf(),
                forall|j: int| 0 <= j < k ==> !self.roles[j].has(sq.0 as int),
            decreases 6 - k,
        {
            if self.roles[k].contains(sq) {
                return Some(Role::from_index(k));
            }
            k = k + 1;
        }
        None
    }

    /// The piece on `sq`, if any.
    pub fn piece_on(&self, sq: Square) -> (r: Option<Piece>)
        requires
            sq.wf(),
        ensures
            r == self.piece_at(sq.0 as int),
    {
        match (self.role_on(sq), self.color_on(sq)) {
            (Some(role), Some(color)) => Some(Piece::new(role, color)),
            _ => None,
        }
    }

    /// The square of the king of `side`, the lowest one if there are several.
    pub fn king(&self, side: Color) -> (r: Option<Square>)
        requires
            self.wf(),
        ensures
            match r {
                Some(sq) => sq.wf() && self.piece_at(sq.0 as int) == Some(
                    Piece { role: Role::King, color: side },
                ) && forall|t: int|
                    0 <= t < sq.0 ==> self.piece_at(t) != Some(
                        Piece { role: Role::King, color: side },
                    ),
                None => forall|t: int|
                    0 <= t < 64 ==> self.piece_at(t) != Some(
                        Piece { role: Role::King, color: side },
                    ),
            },
    {
        let piece = Piece::new(Role::King, side);
        let kings = self.by_piece(piece);
        let mut i: u8 = 0;
        while i < 64
            invariant
                0 <= i <= 64,
                piece == (Piece { role: Role::King, color: side }),
                forall|j: int| 0 <= j < 64 ==> #[trigger] kings.has(j) == (self.piece_at(j) == Some(piece)),
                forall|t: int| 0 <= t < i ==> self.piece_at(t) != Some(piece),
            decreases 64 - i,
        {
            if kings.contains(Square(i)) {
                return Some(Square(i));
            }
            i = i + 1;
        }
        None
    }

    /// All pieces on the board with their squares, piece by piece, each by
    /// ascending square.
    pub fn iter(&self) -> (r: Vec<(Piece, Square)>)
        requires
            self.wf(),
        ensures
            r@ == self.pieces(),
            forall|k: int|
                0 <= k < r@.len() ==> (#[trigger] r@[k]).1.wf() && self.piece_at(r@[k].1.0 as int)
                    == Some(r@[k].0),
    {
        let mut r: Vec<(Piece, Square)> = Vec::new();
        let mut k: usize = 0;
        while k < 768
            invariant
                0 <= k <= 768,
                self.wf(),
                r@ == self.pieces_upto(k as int),
                forall|j: int|
                    0 <= j < r@.len() ==> (#[trigger] r@[j]).1.wf() && self.piece_at(r@[j].1.0 as int)
                        == Some(r@[j].0),
            decreases 768 - k,
        {
            let p = Piece::from_index(k / 64);
            let sq = Square((k % 64) as u8);
            let ghost old_r = r;
            let here = match self.piece_on(sq) {
                Some(q) => q == p,
                None => false,
            };
            if here {
                r.push((p, sq));
                proof {
                    assert forall|j: int| 0 <= j < r@.len() implies (#[trigger] r@[j]).1.wf()
                        && self.piece_at(r@[j].1.0 as int) == Some(r@[j].0) by {
                        if j < r@.len() - 1 {
                            assert(r@[j] == old_r@[j]);
                        }
                    }
                }
            }
            k = k + 1;
        }
        r
    }

    /// Places `p` on `sq` if the square is empty, removes it if it is there.
    pub fn toggle(&mut self, p: Piece, sq: Square)
        requires
            old(self).wf(),
            sq.wf(),
            old(self).piece_at(sq.0 as int) is None || old(self).piece_at(sq.0 as int) == Some(p),
        ensures
            final(self).wf(),
            final(self).piece_at(sq.0 as int) == (if old(self).piece_at(sq.0 as int) is None {
                Some(p)
            } else {
                None
            }),
            forall|t: int|
                0 <= t < 64 && t != sq.0 ==> #[trigger] final(self).piece_at(t) == old(self).piece_at(t),
            final(self).turn == old(self).turn,
            final(self).castles == old(self).castles,
            final(self).en_passant == old(self).en_passant,
            final(self).halfmoves == old(self).halfmoves,
            final(self).fullmoves == old(self).fullmoves,
            final(self).zobrist_spec() == old(self).zobrist_spec() ^ psq_spec(p, sq.0 as int),
    {
        let ghost before = *self;
        let c = p.color().index();
        let r = p.role().index();
        self.colors[c] = self.colors[c].toggled(sq);
        self.roles[r] = self.roles[r].toggled(sq);
        proof {
            let after = *self;
            let s = sq.0 as int;
            assert(after.roles@ =~= before.roles@.update(r as int, after.roles[r as int]));
            assert(after.colors@ =~= before.colors@.update(c as int, after.colors[c as int]));
            assert forall|t: int| 0 <= t < 64 && t != s implies #[trigger] after.square_ok(t)
                && after.piece_at(t) == before.piece_at(t) && after.square_hash(t)
                == before.square_hash(t) by {
                lemma_toggle_other(before, after, r as int, c as int, s, t);
            }
            lemma_toggle_here(before, after, p, s);
            lemma_pieces_hash_toggle(before, after, s, psq_spec(p, s), 64);
            lemma_zobrist_toggle(before, after, psq_spec(p, s));
        }
    }

    /// Whether this board is well formed: each occupied square holds one
    /// role and one color, and the castling rights and en passant square
    /// are in range.
    pub fn is_valid(&self) -> (r: bool)
        ensures
            r == self.wf(),
    {
        if self.castles.0 >= 16 {
            return false;
        }
        match self.en_passant {
            Some(sq) => {
                if sq.0 >= 64 {
                    return false;
                }
            },
            None => {},
        }
        let mut i: u8 = 0;
        while i < 64
            invariant
                0 <= i <= 64,
                self.castles.wf(),
                match self.en_passant {
                    Some(sq) => sq.wf(),
                    None => true,
                },
                forall|t: int| 0 <= t < i ==> #[trigger] self.square_ok(t),
            decreases 64 - i,
        {
            let sq = Square(i);
            let mut n: u8 = 0;
            let mut k: usize = 0;
            while k < 6
                invariant
                    k <= 6,
                    i < 64,
                    sq == Square(i),
                    n as int == ind(self.roles[0].has(i as int)) * ind(0 < k)
                        + ind(self.roles[1].has(i as int)) * ind(1 < k)
                        + ind(self.roles[2].has(i as int)) * ind(2 < k)
                        + ind(self.roles[3].has(i as int)) * ind(3 < k)
                        + ind(self.roles[4].has(i as int)) * ind(4 < k)
                        + ind(self.roles[5].has(i as int)) * ind(5 < k),
                decreases 6 - k,
            {
                if self.roles[k].contains(sq) {
                    n = n + 1;
                }
                k = k + 1;
            }
            let w = self.colors[0].contains(sq);
            let b = self.colors[1].contains(sq);
            assert(n as int == self.role_count(i as int));
            if n > 1 || (w && b) || ((n == 1) != (w || b)) {
                assert(!self.square_ok(i as int));
                return false;
            }
            i = i + 1;
        }
        true
    }

    /// Computes the Zobrist hash.
    pub fn zobrist(&self) -> (z: Zobrist)
        requires
            self.wf(),
        ensures
            z == self.zobrist_spec(),
    {
        let mut h: u64 = 0;
        let mut i: u8 = 0;
        while i < 64
            invariant
                0 <= i <= 64,
                h == self.pieces_hash(i as int),
            decreases 64 - i,
        {
            let sq = Square(i);
            match self.piece_on(sq) {
                Some(p) => {
                    h = h ^ zobrist::psq(p.color(), p.role(), sq);
                },
                None => {
                    h = h ^ 0;
                },
            }
            i = i + 1;
        }
        let mut z = zobrist::castling(self.castles.0) ^ h;
        if self.turn == Color::Black {
            z = z ^ zobrist::turn();
        }
        if let Some(ep) = self.en_passant {
            z = z ^ zobrist::en_passant(ep.file());
        }
        z
    }
}

/// A toggle on one square leaves every other square as it was.
proof fn lemma_toggle_other(before: Board, after: Board, r: int, c: int, s: int, t: int)
    requires
        before.square_ok(t),
        0 <= r < 6,
        0 <= c < 2,
        0 <= t < 64,
        t != s,
        after.roles@ == before.roles@.update(r, after.roles[r]),
        after.colors@ == before.colors@.update(c, after.colors[c]),
        after.roles[r].has(t) == before.roles[r].has(t),
        after.colors[c].has(t) == before.colors[c].has(t),
    ensures
        after.square_ok(t),
        after.piece_at(t) == before.piece_at(t),
        after.square_hash(t) == before.square_hash(t),
{
    assert forall|k: int| 0 <= k < 6 implies after.roles[k].has(t) == before.roles[k].has(t) by {
        if k != r {
            assert(after.roles[k] == before.roles@.update(r, after.roles[r])[k]);
        }
    }
    assert forall|k: int| 0 <= k < 2 implies after.colors[k].has(t) == before.colors[k].has(t) by {
        if k != c {
            assert(after.colors[k] == before.colors@.update(c, after.colors[c])[k]);
        }
    }
}

/// A toggle of `p` on `s` puts `p` on an empty square and empties a square
/// that holds `p`.
proof fn lemma_toggle_here(before: Board, after: Board, p: Piece, s: int)
    requires
        before.wf(),
        0 <= s < 64,
        before.piece_at(s) is None || before.piece_at(s) == Some(p),
        after.roles@ == before.roles@.update(p.role.idx(), after.roles[p.role.idx()]),
        after.colors@ == before.colors@.update(p.color.idx(), after.colors[p.color.idx()]),
        after.roles[p.role.idx()].has(s) == !before.roles[p.role.idx()].has(s),
        after.colors[p.color.idx()].has(s) == !before.colors[p.color.idx()].has(s),
    ensures
        after.square_ok(s),
        after.piece_at(s) == (if before.piece_at(s) is None {
            Some(p)
        } else {
            None
        }),
        after.square_hash(s) == before.square_hash(s) ^ psq_spec(p, s),
{
    let r = p.role.idx();
    let c = p.color.idx();
    before.lemma_piece_at(s);
    assert forall|k: int| 0 <= k < 6 && k != r implies after.roles[k].has(s) == before.roles[k].has(s) by {
        assert(after.roles[k] == before.roles@.update(r, after.roles[r])[k]);
    }
    assert forall|k: int| 0 <= k < 2 && k != c implies after.colors[k].has(s) == before.colors[k].has(s) by {
        assert(after.colors[k] == before.colors@.update(c, after.colors[c])[k]);
    }
    let k = psq_spec(p, s);
    if before.piece_at(s) is None {
        assert(!before.roles[r].has(s) || !before.colors[c].has(s));
        assert(before.role_at(s) is None);
        assert(0u64 ^ k == k) by (bit_vector);
    } else {
        assert(k ^ k == 0u64) by (bit_vector);
    }
}

/// The Zobrist hash moves by `k` when the piece-square part moves by `k`
/// and nothing else changes.
proof fn lemma_zobrist_toggle(before: Board, after: Board, k: u64)
    requires
        after.pieces_hash(64) == before.pieces_hash(64) ^ k,
        after.turn == before.turn,
        after.castles == before.castles,
        after.en_passant == before.en_passant,
    ensures
        after.zobrist_spec() == before.zobrist_spec() ^ k,
{
    let a = castling_spec(before.castles.0 as int);
    let h = before.pieces_hash(64);
    let t = turn_spec();
    assert(a ^ (h ^ k) == (a ^ h) ^ k) by (bit_vector);
    assert(((a ^ h) ^ k) ^ t == ((a ^ h) ^ t) ^ k) by (bit_vector);
    if let Some(ep) = before.en_passant {
        let e = en_passant_spec((ep.0 % 8) as int);
        let x = if before.turn == Color::Black {
            (a ^ h) ^ t
        } else {
            a ^ h
        };
        assert((x ^ k) ^ e == (x ^ e) ^ k) by (bit_vector);
    }
}

/// The placement of the starting position holds one role and one color on
/// each occupied square.
proof fn lemma_startpos_square(t: u64)
    requires
        t < 64,
    ensures
        !(bit(0x00FF00000000FF00u64, t as int) && bit(0x4200000000000042u64, t as int)),
        !(bit(0x00FF00000000FF00u64, t as int) && bit(0x2400000000000024u64, t as int)),
        !(bit(0x00FF00000000FF00u64, t as int) && bit(0x8100000000000081u64, t as int)),
        !(bit(0x00FF00000000FF00u64, t as int) && bit(0x0800000000000008u64, t as int)),
        !(bit(0x00FF00000000FF00u64, t as int) && bit(0x1000000000000010u64, t as int)),
        !(bit(0x4200000000000042u64, t as int) && bit(0x2400000000000024u64, t as int)),
        !(bit(0x4200000000000042u64, t as int) && bit(0x8100000000000081u64, t as int)),
        !(bit(0x4200000000000042u64, t as int) && bit(0x0800000000000008u64, t as int)),
        !(bit(0x4200000000000042u64, t as int) && bit(0x1000000000000010u64, t as int)),
        !(bit(0x2400000000000024u64, t as int) && bit(0x8100000000000081u64, t as int)),
        !(bit(0x2400000000000024u64, t as int) && bit(0x0800000000000008u64, t as int)),
        !(bit(0x2400000000000024u64, t as int) && bit(0x1000000000000010u64, t as int)),
        !(bit(0x8100000000000081u64, t as int) && bit(0x0800000000000008u64, t as int)),
        !(bit(0x8100000000000081u64, t as int) && bit(0x1000000000000010u64, t as int)),
        !(bit(0x0800000000000008u64, t as int) && bit(0x1000000000000010u64, t as int)),
        !(bit(0x000000000000FFFFu64, t as int) && bit(0xFFFF000000000000u64, t as int)),
        (bit(0x00FF00000000FF00u64, t as int) || bit(0x4200000000000042u64, t as int) || bit(0x2400000000000024u64, t as int) || bit(0x8100000000000081u64, t as int) || bit(0x0800000000000008u64, t as int) || bit(0x1000000000000010u64, t as int)) == (bit(0x000000000000FFFFu64, t as int) || bit(0xFFFF000000000000u64, t as int)),
{
    assert(!(((0x00FF00000000FF00u64 >> t) & 1u64 == 1u64) && ((0x4200000000000042u64 >> t) & 1u64 == 1u64)) &&
        !(((0x00FF00000000FF00u64 >> t) & 1u64 == 1u64) && ((0x2400000000000024u64 >> t) & 1u64 == 1u64)) &&
        !(((0x00FF00000000FF00u64 >> t) & 1u64 == 1u64) && ((0x8100000000000081u64 >> t) & 1u64 == 1u64)) &&
        !(((0x00FF00000000FF00u64 >> t) & 1u64 == 1u64) && ((0x0800000000000008u64 >> t) & 1u64 == 1u64)) &&
        !(((0x00FF00000000FF00u64 >> t) & 1u64 == 1u64) && ((0x1000000000000010u64 >> t) & 1u64 == 1u64)) &&
        !(((0x4200000000000042u64 >> t) & 1u64 == 1u64) && ((0x2400000000000024u64 >> t) & 1u64 == 1u64)) &&
        !(((0x4200000000000042u64 >> t) & 1u64 == 1u64) && ((0x8100000000000081u64 >> t) & 1u64 == 1u64)) &&
        !(((0x4200000000000042u64 >> t) & 1u64 == 1u64) && ((0x0800000000000008u64 >> t) & 1u64 == 1u64)) &&
        !(((0x4200000000000042u64 >> t) & 1u64 == 1u64) && ((0x1000000000000010u64 >> t) & 1u64 == 1u64)) &&
        !(((0x2400000000000024u64 >> t) & 1u64 == 1u64) && ((0x8100000000000081u64 >> t) & 1u64 == 1u64)) &&
        !(((0x2400000000000024u64 >> t) & 1u64 == 1u64) && ((0x0800000000000008u64 >> t) & 1u64 == 1u64)) &&
        !(((0x2400000000000024u64 >> t) & 1u64 == 1u64) && ((0x1000000000000010u64 >> t) & 1u64 == 1u64)) &&
        !(((0x8100000000000081u64 >> t) & 1u64 == 1u64) && ((0x0800000000000008u64 >> t) & 1u64 == 1u64)) &&
        !(((0x8100000000000081u64 >> t) & 1u64 == 1u64) && ((0x1000000000000010u64 >> t) & 1u64 == 1u64)) &&
        !(((0x0800000000000008u64 >> t) & 1u64 == 1u64) && ((0x1000000000000010u64 >> t) & 1u64 == 1u64)) &&
        !(((0x000000000000FFFFu64 >> t) & 1u64 == 1u64) && ((0xFFFF000000000000u64 >> t) & 1u64 == 1u64)) &&
        (((0x00FF00000000FF00u64 >> t) & 1u64 == 1u64) || ((0x4200000000000042u64 >> t) & 1u64 == 1u64) || ((0x2400000000000024u64 >> t) & 1u64 == 1u64) || ((0x8100000000000081u64 >> t) & 1u64 == 1u64) || ((0x0800000000000008u64 >> t) & 1u64 == 1u64) || ((0x1000000000000010u64 >> t) & 1u64 == 1u64)) == (((0x000000000000FFFFu64 >> t) & 1u64 == 1u64) || ((0xFFFF000000000000u64 >> t) & 1u64 == 1u64))) by (bit_vector)
        requires
            t < 64,
    ;
}

/// Changing one square's Zobrist contribution by `k` changes the hash of
/// every prefix that covers the square by `k`.
proof fn lemma_pieces_hash_toggle(before: Board, after: Board, s: int, k: u64, n: int)
    requires
        0 <= s < 64,
        forall|t: int| 0 <= t < 64 && t != s ==> #[trigger] after.square_hash(t) == before.square_hash(t),
        after.square_hash(s) == before.square_hash(s) ^ k,
        0 <= n <= 64,
    ensures
        after.pieces_hash(n) == if n > s {
            before.pieces_hash(n) ^ k
        } else {
            before.pieces_hash(n)
        },
    decreases n,
{
    if n > 0 {
        lemma_pieces_hash_toggle(before, after, s, k, n - 1);
        let x = before.pieces_hash(n - 1);
        let y = before.square_hash(n - 1);
        if n - 1 == s {
            assert(x ^ (y ^ k) == (x ^ y) ^ k) by (bit_vector);
        } else if n - 1 > s {
            assert((x ^ k) ^ y == (x ^ y) ^ k) by (bit_vector);
        }
    }
}

} // verus!
