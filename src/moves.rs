//! Moves: origin and destination squares with an optional promotion, their
//! 15-bit binary form and their coordinate notation (`e2e4`, `e7e8q`).
use crate::chess::{Role, Square};
use crate::text::{ascii_string, ascii_chars};
use vstd::prelude::*;

verus! {

/// A chess move.
#[derive(Clone, Copy, Debug, PartialEq, Eq, Hash, Structural)]
pub struct Move {
    pub whence: Square,
    pub whither: Square,
    pub promotion: Option<Role>,
}

/// The reason why decoding a [`Move`] failed.
#[derive(Clone, Copy, Debug, PartialEq, Eq, Hash, Structural)]
pub struct DecodeMoveError;

/// The code of a promotion in the binary form, `0` for none.
pub open spec fn promotion_code(p: Option<Role>) -> int {
    match p {
        None => 0,
        Some(Role::Knight) => 1,
        Some(Role::Bishop) => 2,
        Some(Role::Rook) => 3,
        Some(Role::Queen) => 4,
        _ => 5,
    }
}

/// The promotion of a binary code in `0..5`.
pub open spec fn promotion_of(code: int) -> Option<Role> {
    if code == 1 {
        Some(Role::Knight)
    } else if code == 2 {
        Some(Role::Bishop)
    } else if code == 3 {
        Some(Role::Rook)
    } else if code == 4 {
        Some(Role::Queen)
    } else {
        None
    }
}

/// The letter of a promotion in coordinate notation.
pub open spec fn promotion_letter(r: Role) -> u8 {
    match r {
        Role::Knight => 110u8,
        Role::Bishop => 98u8,
        Role::Rook => 114u8,
        _ => 113u8,
    }
}

impl Move {
    /// A move leaves one square for another, promoting to at most a queen.
    pub open spec fn wf(self) -> bool {
        &&& self.whence.wf()
        &&& self.whither.wf()
        &&& self.whence != self.whither
        &&& promotion_code(self.promotion) < 5
    }

    /// The 15-bit binary form: origin, destination, promotion code.
    pub open spec fn bits(self) -> u64 {
        ((self.whence.0 as u64) << 9u64) | ((self.whither.0 as u64) << 3u64) | (promotion_code(
            self.promotion,
        ) as u64)
    }

    /// The move that the 15-bit word `b` stands for, if any.
    pub open spec fn from_bits(b: u64) -> Result<Move, DecodeMoveError> {
        let whence = ((b >> 9u64) & 63u64) as u8;
        let whither = ((b >> 3u64) & 63u64) as u8;
        let code = (b & 7u64) as int;
        if code > 4 || whence == whither {
            Err(DecodeMoveError)
        } else {
            Ok(Move { whence: Square(whence), whither: Square(whither), promotion: promotion_of(code) })
        }
    }

    /// The coordinate notation: origin, destination, promotion letter.
    pub open spec fn uci(self) -> Seq<u8> {
        let base: Seq<u8> = seq![
            (97 + self.whence.0 % 8) as u8,
            (49 + self.whence.0 / 8) as u8,
            (97 + self.whither.0 % 8) as u8,
            (49 + self.whither.0 / 8) as u8,
        ];
        match self.promotion {
            Some(r) => base.push(promotion_letter(r)),
            None => base,
        }
    }

    /// The move with `whence`, `whither` and `promotion`.
    pub fn new(whence: Square, whither: Square, promotion: Option<Role>) -> (r: Move)
        ensures
            r == (Move { whence, whither, promotion }),
    {
        Move { whence, whither, promotion }
    }

    /// The origin square.
    pub fn whence(&self) -> (r: Square)
        ensures
            r == self.whence,
    {
        self.whence
    }

    /// The destination square.
    pub fn whither(&self) -> (r: Square)
        ensures
            r == self.whither,
    {
        self.whither
    }

    /// The role promoted to, if any.
    pub fn promotion(&self) -> (r: Option<Role>)
        ensures
            r == self.promotion,
    {
        self.promotion
    }

    /// Encodes into 15 bits.
    pub fn encode(&self) -> (r: u64)
        requires
            self.wf(),
        ensures
            r == self.bits(),
            0 < r < 0x8000,
    {
        let code: u64 = match self.promotion {
            None => 0,
            Some(Role::Knight) => 1,
            Some(Role::Bishop) => 2,
            Some(Role::Rook) => 3,
            Some(_) => 4,
        };
        let a = self.whence.0 as u64;
        let b = self.whither.0 as u64;
        let r = (a << 9u64) | (b << 3u64) | code;
        proof {
            assert(a < 64 && b < 64 && code < 5 && a != b ==> 0 < ((a << 9u64) | (b << 3u64) | code)
                < 0x8000) by (bit_vector);
        }
        r
    }

    /// Decodes the low 15 bits of `b`.
    pub fn decode(b: u64) -> (r: Result<Move, DecodeMoveError>)
        ensures
            r == Move::from_bits(b),
            r matches Ok(m) ==> m.wf(),
    {
        let whence = ((b >> 9u64) & 63u64) as u8;
        let whither = ((b >> 3u64) & 63u64) as u8;
        let code = b & 7u64;
        proof {
            assert((b >> 9u64) & 63u64 < 64) by (bit_vector);
            assert((b >> 3u64) & 63u64 < 64) by (bit_vector);
            assert(b & 7u64 < 8) by (bit_vector);
        }
        if code > 4 || whence == whither {
            Err(DecodeMoveError)
        } else {
            let promotion = if code == 1 {
                Some(Role::Knight)
            } else if code == 2 {
                Some(Role::Bishop)
            } else if code == 3 {
                Some(Role::Rook)
            } else if code == 4 {
                Some(Role::Queen)
            } else {
                None
            };
            Ok(Move { whence: Square(whence), whither: Square(whither), promotion })
        }
    }

    /// The coordinate notation as bytes.
    pub fn uci_bytes(&self) -> (r: Vec<u8>)
        requires
            self.wf(),
        ensures
            r@ == self.uci(),
    {
        let mut r: Vec<u8> = Vec::new();
        r.push(97u8 + self.whence.0 % 8);
        r.push(49u8 + self.whence.0 / 8);
        r.push(97u8 + self.whither.0 % 8);
        r.push(49u8 + self.whither.0 / 8);
        match self.promotion {
            Some(Role::Knight) => r.push(110u8),
            Some(Role::Bishop) => r.push(98u8),
            Some(Role::Rook) => r.push(114u8),
            Some(_) => r.push(113u8),
            None => {},
        }
        assert(r@ =~= self.uci());
        r
    }

    /// The coordinate notation, such as `e2e4` or `e7e8q`.
    pub fn to_uci(&self) -> (r: String)
        requires
            self.wf(),
        ensures
            r@ == ascii_chars(self.uci()),
    {
        let b = self.uci_bytes();
        ascii_string(b)
    }
}

/// The square written as file letter and rank digit at `i` in `s`.
pub open spec fn square_at(s: Seq<u8>, i: int) -> Option<Square> {
    if 97 <= s[i] <= 104 && 49 <= s[i + 1] <= 56 {
        Some(Square(((s[i + 1] - 49) * 8 + (s[i] - 97)) as u8))
    } else {
        None
    }
}

/// The promotion that a letter names.
pub open spec fn promotion_named(c: u8) -> Option<Role> {
    if c == 110 {
        Some(Role::Knight)
    } else if c == 98 {
        Some(Role::Bishop)
    } else if c == 114 {
        Some(Role::Rook)
    } else if c == 113 {
        Some(Role::Queen)
    } else {
        None
    }
}

/// The move written in coordinate notation as `s`, if `s` is one.
pub open spec fn parse_uci_spec(s: Seq<u8>) -> Option<Move> {
    if s.len() != 4 && s.len() != 5 {
        None
    } else {
        match (square_at(s, 0), square_at(s, 2)) {
            (Some(a), Some(b)) => if a == b {
                None
            } else if s.len() == 4 {
                Some(Move { whence: a, whither: b, promotion: None })
            } else {
                match promotion_named(s[4]) {
                    Some(r) => Some(Move { whence: a, whither: b, promotion: Some(r) }),
                    None => None,
                }
            },
            _ => None,
        }
    }
}

pub(crate) fn parse_square(s: &[u8], i: usize) -> (r: Option<Square>)
    requires
        i + 2 <= s@.len(),
    ensures
        r == square_at(s@, i as int),
        r matches Some(sq) ==> sq.wf(),
{
    let f = s[i];
    let k = s[i + 1];
    if 97 <= f && f <= 104 && 49 <= k && k <= 56 {
        Some(Square((k - 49) * 8 + (f - 97)))
    } else {
        None
    }
}

/// Parses a move in coordinate notation.
pub fn parse_uci(s: &[u8]) -> (r: Option<Move>)
    ensures
        r == parse_uci_spec(s@),
        r matches Some(m) ==> m.wf(),
{
    if s.len() != 4 && s.len() != 5 {
        return None;
    }
    match (parse_square(s, 0), parse_square(s, 2)) {
        (Some(a), Some(b)) => {
            if a.0 == b.0 {
                None
            } else if s.len() == 4 {
                Some(Move { whence: a, whither: b, promotion: None })
            } else {
                let c = s[4];
                let p = if c == 110 {
                    Some(Role::Knight)
                } else if c == 98 {
                    Some(Role::Bishop)
                } else if c == 114 {
                    Some(Role::Rook)
                } else if c == 113 {
                    Some(Role::Queen)
                } else {
                    None
                };
                match p {
                    Some(r) => Some(Move { whence: a, whither: b, promotion: Some(r) }),
                    None => None,
                }
            }
        },
        _ => None,
    }
}

/// Decoding the binary form of a move gives the move back.
pub proof fn lemma_move_bits_round_trip(m: Move)
    requires
        m.wf(),
    ensures
        Move::from_bits(m.bits()) == Ok::<Move, DecodeMoveError>(m),
{
    let a = m.whence.0 as u64;
    let b = m.whither.0 as u64;
    let c = promotion_code(m.promotion) as u64;
    assert(a < 64 && b < 64 && c < 8 ==> ((((a << 9u64) | (b << 3u64) | c) >> 9u64) & 63u64) == a
        && ((((a << 9u64) | (b << 3u64) | c) >> 3u64) & 63u64) == b && (((a << 9u64) | (b << 3u64)
        | c) & 7u64) == c) by (bit_vector);
}

/// Parsing the coordinate notation of a move gives the move back.
pub proof fn lemma_uci_round_trip(m: Move)
    requires
        m.wf(),
    ensures
        parse_uci_spec(m.uci()) == Some(m),
{
    let s = m.uci();
    assert(square_at(s, 0) == Some(m.whence));
    assert(square_at(s, 2) == Some(m.whither));
}

} // verus!
