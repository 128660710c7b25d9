//! Chess domain types: colors, roles, pieces, squares, bitboards, castling rights.
use vstd::prelude::*;

verus! {

/// The side of a piece or of the player to move.
#[derive(Clone, Copy, Debug, PartialEq, Eq, Hash, Structural)]
pub enum Color {
    White,
    Black,
}

impl Color {
    pub open spec fn idx(self) -> int {
        match self {
            Color::White => 0,
            Color::Black => 1,
        }
    }

    /// Index of this color, in `0..2`.
    pub fn index(self) -> (r: usize)
        ensures
            r as int == self.idx(),
    {
        match self {
            Color::White => 0,
            Color::Black => 1,
        }
    }

    pub open spec fn from_idx(i: int) -> Color {
        if i == 0 {
            Color::White
        } else {
            Color::Black
        }
    }

    /// The color with index `i`.
    pub fn from_index(i: usize) -> (r: Color)
        requires
            i < 2,
        ensures
            r == Color::from_idx(i as int),
            r.idx() == i,
    {
        if i == 0 {
            Color::White
        } else {
            Color::Black
        }
    }
}

/// The kind of a piece.
#[derive(Clone, Copy, Debug, PartialEq, Eq, Hash, Structural)]
pub enum Role {
    Pawn,
    Knight,
    Bishop,
    Rook,
    Queen,
    King,
}

impl Role {
    pub open spec fn idx(self) -> int {
        match self {
            Role::Pawn => 0,
            Role::Knight => 1,
            Role::Bishop => 2,
            Role::Rook => 3,
            Role::Queen => 4,
            Role::King => 5,
        }
    }

    /// Index of this role, in `0..6`.
    pub fn index(self) -> (r: usize)
        ensures
            r as int == self.idx(),
    {
        match self {
            Role::Pawn => 0,
            Role::Knight => 1,
            Role::Bishop => 2,
            Role::Rook => 3,
            Role::Queen => 4,
            Role::King => 5,
        }
    }

    pub open spec fn from_idx(i: int) -> Role {
        if i == 0 {
            Role::Pawn
        } else if i == 1 {
            Role::Knight
        } else if i == 2 {
            Role::Bishop
        } else if i == 3 {
            Role::Rook
        } else if i == 4 {
            Role::Queen
        } else {
            Role::King
        }
    }

    /// The role with index `i`.
    pub fn from_index(i: usize) -> (r: Role)
        requires
            i < 6,
        ensures
            r == Role::from_idx(i as int),
            r.idx() == i,
    {
        if i == 0 {
            Role::Pawn
        } else if i == 1 {
            Role::Knight
        } else if i == 2 {
            Role::Bishop
        } else if i == 3 {
            Role::Rook
        } else if i == 4 {
            Role::Queen
        } else {
            Role::King
        }
    }
}

/// A piece: a role of a color.
#[derive(Clone, Copy, Debug, PartialEq, Eq, Hash, Structural)]
pub struct Piece {
    pub role: Role,
    pub color: Color,
}

impl Piece {
    /// The piece of role `role` and color `color`.
    pub fn new(role: Role, color: Color) -> (r: Piece)
        ensures
            r == (Piece { role, color }),
    {
        Piece { role, color }
    }

    pub fn role(self) -> (r: Role)
        ensures
            r == self.role,
    {
        self.role
    }

    pub fn color(self) -> (r: Color)
        ensures
            r == self.color,
    {
        self.color
    }

    /// Index of this piece in `0..12`: white pieces first, then by role.
    pub open spec fn idx(self) -> int {
        self.color.idx() * 6 + self.role.idx()
    }

    pub open spec fn from_idx(i: int) -> Piece {
        Piece { role: Role::from_idx(i % 6), color: Color::from_idx(i / 6) }
    }

    /// The piece with index `i`.
    pub fn from_index(i: usize) -> (r: Piece)
        requires
            i < 12,
        ensures
            r == Piece::from_idx(i as int),
            r.idx() == i,
    {
        Piece { role: Role::from_index(i % 6), color: Color::from_index(i / 6) }
    }
}

/// A square of the board, `0` for A1 up to `63` for H8, rank by rank.
#[derive(Clone, Copy, Debug, PartialEq, Eq, Hash, Structural)]
pub struct Square(pub u8);

impl Square {
    pub open spec fn wf(self) -> bool {
        self.0 < 64
    }

    /// The square with index `i`.
    pub fn new(i: u8) -> (r: Square)
        requires
            i < 64,
        ensures
            r.0 == i,
            r.wf(),
    {
        Square(i)
    }

    /// The square on file `file` and rank `rank`.
    pub fn from_coords(file: u8, rank: u8) -> (r: Square)
        requires
            file < 8,
            rank < 8,
        ensures
            r.0 == rank * 8 + file,
            r.wf(),
    {
        Square(rank * 8 + file)
    }

    /// The file, `0` for the A file.
    pub fn file(self) -> (r: u8)
        requires
            self.wf(),
        ensures
            r == self.0 % 8,
            r < 8,
    {
        self.0 % 8
    }

    /// The rank, `0` for the first rank.
    pub fn rank(self) -> (r: u8)
        requires
            self.wf(),
        ensures
            r == self.0 / 8,
            r < 8,
    {
        self.0 / 8
    }

    /// The square mirrored vertically.
    pub fn flip(self) -> (r: Square)
        requires
            self.wf(),
        ensures
            r.wf(),
            r.0 % 8 == self.0 % 8,
            r.0 / 8 == 7 - self.0 / 8,
    {
        Square((7 - self.0 / 8) * 8 + self.0 % 8)
    }
}

/// Whether bit `i` of `b` is set.
pub open spec fn bit(b: u64, i: int) -> bool {
    (b >> (i as u64)) & 1u64 == 1u64
}

/// A set of squares, bit `n` standing for square `n`.
#[derive(Clone, Copy, Debug, PartialEq, Eq, Hash, Structural)]
pub struct Bitboard(pub u64);

impl Bitboard {
    pub open spec fn has(self, i: int) -> bool {
        bit(self.0, i)
    }

    pub fn empty() -> (r: Bitboard)
        ensures
            r.0 == 0,
            forall|i: int| 0 <= i < 64 ==> !r.has(i),
    {
        proof {
            assert forall|i: int| 0 <= i < 64 implies !bit(0u64, i) by {
                let k = i as u64;
                assert((0u64 >> k) & 1u64 != 1u64) by (bit_vector);
            }
        }
        Bitboard(0)
    }

    /// Whether `sq` is in this set.
    pub fn contains(self, sq: Square) -> (r: bool)
        requires
            sq.wf(),
        ensures
            r == self.has(sq.0 as int),
    {
        (self.0 >> sq.0) & 1 == 1
    }

    /// The squares in both sets.
    pub fn intersection(self, o: Bitboard) -> (r: Bitboard)
        ensures
            r.0 == self.0 & o.0,
            forall|i: int| 0 <= i < 64 ==> #[trigger] r.has(i) == (self.has(i) && o.has(i)),
    {
        proof {
            assert forall|i: int| 0 <= i < 64 implies #[trigger] bit(self.0 & o.0, i) == (bit(
                self.0,
                i,
            ) && bit(o.0, i)) by {
                lemma_bit_and(self.0, o.0, i as u64);
            }
        }
        Bitboard(self.0 & o.0)
    }

    /// The set with `sq` added if it was absent and removed if it was present.
    pub fn toggled(self, sq: Square) -> (r: Bitboard)
        requires
            sq.wf(),
        ensures
            r.0 == self.0 ^ (1u64 << sq.0),
            forall|i: int| 0 <= i < 64 ==> #[trigger] r.has(i) == (if i == sq.0 {
                !self.has(i)
            } else {
                self.has(i)
            }),
    {
        let r = Bitboard(self.0 ^ (1u64 << sq.0));
        proof {
            assert forall|i: int| 0 <= i < 64 implies #[trigger] r.has(i) == (if i == sq.0 {
                !self.has(i)
            } else {
                self.has(i)
            }) by {
                lemma_bit_toggle(self.0, sq.0 as u64, i as u64);
            }
        }
        r
    }
}

pub proof fn lemma_bit_and(a: u64, b: u64, i: u64)
    requires
        i < 64,
    ensures
        bit(a & b, i as int) == (bit(a, i as int) && bit(b, i as int)),
{
    assert(((a & b) >> i) & 1u64 == 1u64 <==> ((a >> i) & 1u64 == 1u64 && (b >> i) & 1u64 == 1u64))
        by (bit_vector)
        requires
            i < 64,
    ;
}

pub proof fn lemma_bit_toggle(a: u64, s: u64, i: u64)
    requires
        s < 64,
        i < 64,
    ensures
        bit(a ^ (1u64 << s), i as int) == (if i == s {
            !bit(a, i as int)
        } else {
            bit(a, i as int)
        }),
{
    assert(((a ^ (1u64 << s)) >> i) & 1u64 == 1u64 <==> (if i == s {
        !((a >> i) & 1u64 == 1u64)
    } else {
        (a >> i) & 1u64 == 1u64
    })) by (bit_vector)
        requires
            s < 64,
            i < 64,
    ;
}

/// No bit of zero is set.
pub proof fn lemma_bit_zero(i: u64)
    requires
        i < 64,
    ensures
        !bit(0u64, i as int),
{
    assert((0u64 >> i) & 1u64 != 1u64) by (bit_vector);
}

/// Two words with the same bits are equal.
pub proof fn lemma_bits_equal(a: u64, b: u64)
    requires
        forall|i: int| 0 <= i < 64 ==> #[trigger] bit(a, i) == bit(b, i),
    ensures
        a == b,
{
    assert(bit(a, 0) == bit(b, 0));
    assert(bit(a, 1) == bit(b, 1));
    assert(bit(a, 2) == bit(b, 2));
    assert(bit(a, 3) == bit(b, 3));
    assert(bit(a, 4) == bit(b, 4));
    assert(bit(a, 5) == bit(b, 5));
    assert(bit(a, 6) == bit(b, 6));
    assert(bit(a, 7) == bit(b, 7));
    assert(bit(a, 8) == bit(b, 8));
    assert(bit(a, 9) == bit(b, 9));
    assert(bit(a, 10) == bit(b, 10));
    assert(bit(a, 11) == bit(b, 11));
    assert(bit(a, 12) == bit(b, 12));
    assert(bit(a, 13) == bit(b, 13));
    assert(bit(a, 14) == bit(b, 14));
    assert(bit(a, 15) == bit(b, 15));
    assert(bit(a, 16) == bit(b, 16));
    assert(bit(a, 17) == bit(b, 17));
    assert(bit(a, 18) == bit(b, 18));
    assert(bit(a, 19) == bit(b, 19));
    assert(bit(a, 20) == bit(b, 20));
    assert(bit(a, 21) == bit(b, 21));
    assert(bit(a, 22) == bit(b, 22));
    assert(bit(a, 23) == bit(b, 23));
    assert(bit(a, 24) == bit(b, 24));
    assert(bit(a, 25) == bit(b, 25));
    assert(bit(a, 26) == bit(b, 26));
    assert(bit(a, 27) == bit(b, 27));
    assert(bit(a, 28) == bit(b, 28));
    assert(bit(a, 29) == bit(b, 29));
    assert(bit(a, 30) == bit(b, 30));
    assert(bit(a, 31) == bit(b, 31));
    assert(bit(a, 32) == bit(b, 32));
    assert(bit(a, 33) == bit(b, 33));
    assert(bit(a, 34) == bit(b, 34));
    assert(bit(a, 35) == bit(b, 35));
    assert(bit(a, 36) == bit(b, 36));
    assert(bit(a, 37) == bit(b, 37));
    assert(bit(a, 38) == bit(b, 38));
    assert(bit(a, 39) == bit(b, 39));
    assert(bit(a, 40) == bit(b, 40));
    assert(bit(a, 41) == bit(b, 41));
    assert(bit(a, 42) == bit(b, 42));
    assert(bit(a, 43) == bit(b, 43));
    assert(bit(a, 44) == bit(b, 44));
    assert(bit(a, 45) == bit(b, 45));
    assert(bit(a, 46) == bit(b, 46));
    assert(bit(a, 47) == bit(b, 47));
    assert(bit(a, 48) == bit(b, 48));
    assert(bit(a, 49) == bit(b, 49));
    assert(bit(a, 50) == bit(b, 50));
    assert(bit(a, 51) == bit(b, 51));
    assert(bit(a, 52) == bit(b, 52));
    assert(bit(a, 53) == bit(b, 53));
    assert(bit(a, 54) == bit(b, 54));
    assert(bit(a, 55) == bit(b, 55));
    assert(bit(a, 56) == bit(b, 56));
    assert(bit(a, 57) == bit(b, 57));
    assert(bit(a, 58) == bit(b, 58));
    assert(bit(a, 59) == bit(b, 59));
    assert(bit(a, 60) == bit(b, 60));
    assert(bit(a, 61) == bit(b, 61));
    assert(bit(a, 62) == bit(b, 62));
    assert(bit(a, 63) == bit(b, 63));
    assert(a == b) by (bit_vector)
        requires
            ((a >> 0u64) & 1u64 == 1u64) == ((b >> 0u64) & 1u64 == 1u64) &&
            ((a >> 1u64) & 1u64 == 1u64) == ((b >> 1u64) & 1u64 == 1u64) &&
            ((a >> 2u64) & 1u64 == 1u64) == ((b >> 2u64) & 1u64 == 1u64) &&
            ((a >> 3u64) & 1u64 == 1u64) == ((b >> 3u64) & 1u64 == 1u64) &&
            ((a >> 4u64) & 1u64 == 1u64) == ((b >> 4u64) & 1u64 == 1u64) &&
            ((a >> 5u64) & 1u64 == 1u64) == ((b >> 5u64) & 1u64 == 1u64) &&
            ((a >> 6u64) & 1u64 == 1u64) == ((b >> 6u64) & 1u64 == 1u64) &&
            ((a >> 7u64) & 1u64 == 1u64) == ((b >> 7u64) & 1u64 == 1u64) &&
            ((a >> 8u64) & 1u64 == 1u64) == ((b >> 8u64) & 1u64 == 1u64) &&
            ((a >> 9u64) & 1u64 == 1u64) == ((b >> 9u64) & 1u64 == 1u64) &&
            ((a >> 10u64) & 1u64 == 1u64) == ((b >> 10u64) & 1u64 == 1u64) &&
            ((a >> 11u64) & 1u64 == 1u64) == ((b >> 11u64) & 1u64 == 1u64) &&
            ((a >> 12u64) & 1u64 == 1u64) == ((b >> 12u64) & 1u64 == 1u64) &&
            ((a >> 13u64) & 1u64 == 1u64) == ((b >> 13u64) & 1u64 == 1u64) &&
            ((a >> 14u64) & 1u64 == 1u64) == ((b >> 14u64) & 1u64 == 1u64) &&
            ((a >> 15u64) & 1u64 == 1u64) == ((b >> 15u64) & 1u64 == 1u64) &&
            ((a >> 16u64) & 1u64 == 1u64) == ((b >> 16u64) & 1u64 == 1u64) &&
            ((a >> 17u64) & 1u64 == 1u64) == ((b >> 17u64) & 1u64 == 1u64) &&
            ((a >> 18u64) & 1u64 == 1u64) == ((b >> 18u64) & 1u64 == 1u64) &&
            ((a >> 19u64) & 1u64 == 1u64) == ((b >> 19u64) & 1u64 == 1u64) &&
            ((a >> 20u64) & 1u64 == 1u64) == ((b >> 20u64) & 1u64 == 1u64) &&
            ((a >> 21u64) & 1u64 == 1u64) == ((b >> 21u64) & 1u64 == 1u64) &&
            ((a >> 22u64) & 1u64 == 1u64) == ((b >> 22u64) & 1u64 == 1u64) &&
            ((a >> 23u64) & 1u64 == 1u64) == ((b >> 23u64) & 1u64 == 1u64) &&
            ((a >> 24u64) & 1u64 == 1u64) == ((b >> 24u64) & 1u64 == 1u64) &&
            ((a >> 25u64) & 1u64 == 1u64) == ((b >> 25u64) & 1u64 == 1u64) &&
            ((a >> 26u64) & 1u64 == 1u64) == ((b >> 26u64) & 1u64 == 1u64) &&
            ((a >> 27u64) & 1u64 == 1u64) == ((b >> 27u64) & 1u64 == 1u64) &&
            ((a >> 28u64) & 1u64 == 1u64) == ((b >> 28u64) & 1u64 == 1u64) &&
            ((a >> 29u64) & 1u64 == 1u64) == ((b >> 29u64) & 1u64 == 1u64) &&
            ((a >> 30u64) & 1u64 == 1u64) == ((b >> 30u64) & 1u64 == 1u64) &&
            ((a >> 31u64) & 1u64 == 1u64) == ((b >> 31u64) & 1u64 == 1u64) &&
            ((a >> 32u64) & 1u64 == 1u64) == ((b >> 32u64) & 1u64 == 1u64) &&
            ((a >> 33u64) & 1u64 == 1u64) == ((b >> 33u64) & 1u64 == 1u64) &&
            ((a >> 34u64) & 1u64 == 1u64) == ((b >> 34u64) & 1u64 == 1u64) &&
            ((a >> 35u64) & 1u64 == 1u64) == ((b >> 35u64) & 1u64 == 1u64) &&
            ((a >> 36u64) & 1u64 == 1u64) == ((b >> 36u64) & 1u64 == 1u64) &&
            ((a >> 37u64) & 1u64 == 1u64) == ((b >> 37u64) & 1u64 == 1u64) &&
            ((a >> 38u64) & 1u64 == 1u64) == ((b >> 38u64) & 1u64 == 1u64) &&
            ((a >> 39u64) & 1u64 == 1u64) == ((b >> 39u64) & 1u64 == 1u64) &&
            ((a >> 40u64) & 1u64 == 1u64) == ((b >> 40u64) & 1u64 == 1u64) &&
            ((a >> 41u64) & 1u64 == 1u64) == ((b >> 41u64) & 1u64 == 1u64) &&
            ((a >> 42u64) & 1u64 == 1u64) == ((b >> 42u64) & 1u64 == 1u64) &&
            ((a >> 43u64) & 1u64 == 1u64) == ((b >> 43u64) & 1u64 == 1u64) &&
            ((a >> 44u64) & 1u64 == 1u64) == ((b >> 44u64) & 1u64 == 1u64) &&
            ((a >> 45u64) & 1u64 == 1u64) == ((b >> 45u64) & 1u64 == 1u64) &&
            ((a >> 46u64) & 1u64 == 1u64) == ((b >> 46u64) & 1u64 == 1u64) &&
            ((a >> 47u64) & 1u64 == 1u64) == ((b >> 47u64) & 1u64 == 1u64) &&
            ((a >> 48u64) & 1u64 == 1u64) == ((b >> 48u64) & 1u64 == 1u64) &&
            ((a >> 49u64) & 1u64 == 1u64) == ((b >> 49u64) & 1u64 == 1u64) &&
            ((a >> 50u64) & 1u64 == 1u64) == ((b >> 50u64) & 1u64 == 1u64) &&
            ((a >> 51u64) & 1u64 == 1u64) == ((b >> 51u64) & 1u64 == 1u64) &&
            ((a >> 52u64) & 1u64 == 1u64) == ((b >> 52u64) & 1u64 == 1u64) &&
            ((a >> 53u64) & 1u64 == 1u64) == ((b >> 53u64) & 1u64 == 1u64) &&
            ((a >> 54u64) & 1u64 == 1u64) == ((b >> 54u64) & 1u64 == 1u64) &&
            ((a >> 55u64) & 1u64 == 1u64) == ((b >> 55u64) & 1u64 == 1u64) &&
            ((a >> 56u64) & 1u64 == 1u64) == ((b >> 56u64) & 1u64 == 1u64) &&
            ((a >> 57u64) & 1u64 == 1u64) == ((b >> 57u64) & 1u64 == 1u64) &&
            ((a >> 58u64) & 1u64 == 1u64) == ((b >> 58u64) & 1u64 == 1u64) &&
            ((a >> 59u64) & 1u64 == 1u64) == ((b >> 59u64) & 1u64 == 1u64) &&
            ((a >> 60u64) & 1u64 == 1u64) == ((b >> 60u64) & 1u64 == 1u64) &&
            ((a >> 61u64) & 1u64 == 1u64) == ((b >> 61u64) & 1u64 == 1u64) &&
            ((a >> 62u64) & 1u64 == 1u64) == ((b >> 62u64) & 1u64 == 1u64) &&
            ((a >> 63u64) & 1u64 == 1u64) == ((b >> 63u64) & 1u64 == 1u64),
    ;
}

/// Castling rights, one bit per corner: white king side, white queen side,
/// black king side, black queen side.
#[derive(Clone, Copy, Debug, PartialEq, Eq, Hash, Structural)]
pub struct Castles(pub u8);

impl Castles {
    pub open spec fn wf(self) -> bool {
        self.0 < 16
    }

    pub fn none() -> (r: Castles)
        ensures
            r.0 == 0,
    {
        Castles(0)
    }

    pub fn all() -> (r: Castles)
        ensures
            r.0 == 15,
    {
        Castles(15)
    }
}

} // verus!
