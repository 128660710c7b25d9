//! Forsyth-Edwards Notation: printing and parsing a [`Board`].
use crate::board::Board;
use crate::chess::{Bitboard, Castles, Color, Piece, Role, Square};
use crate::moves::square_at;
use crate::text::{ascii_chars, ascii_string};
use vstd::prelude::*;
use vstd::string::StringSliceAdditionalSpecFns;

verus! {

/// The reason why parsing the FEN string failed.
#[derive(Clone, Copy, Debug, PartialEq, Eq, Hash, Structural)]
pub enum ParseFenError {
    InvalidPlacement,
    InvalidSideToMove,
    InvalidCastlingRights,
    InvalidEnPassantSquare,
    InvalidHalfmoveClock,
    InvalidFullmoveNumber,
    InvalidSyntax,
}

/// ASCII whitespace: space, tab, line feed, form feed, carriage return.
pub open spec fn is_ws(c: u8) -> bool {
    c == 32 || c == 9 || c == 10 || c == 12 || c == 13
}

pub open spec fn is_digit(c: u8) -> bool {
    48 <= c <= 57
}

/// The tokens of `s` from position `i`, `cur` being the token under way and
/// `acc` those already complete.
pub open spec fn split_from(s: Seq<u8>, i: int, cur: Seq<u8>, acc: Seq<Seq<u8>>) -> Seq<Seq<u8>>
    decreases s.len() - i,
{
    if i >= s.len() {
        if cur.len() > 0 {
            acc.push(cur)
        } else {
            acc
        }
    } else if is_ws(s[i]) {
        split_from(s, i + 1, Seq::empty(), if cur.len() > 0 { acc.push(cur) } else { acc })
    } else {
        split_from(s, i + 1, cur.push(s[i]), acc)
    }
}

/// The maximal runs of non-whitespace bytes of `s`, in order.
pub open spec fn tokens(s: Seq<u8>) -> Seq<Seq<u8>> {
    split_from(s, 0, Seq::empty(), Seq::empty())
}

/// The FEN letter of a piece: upper case for White.
pub open spec fn piece_letter(p: Piece) -> u8 {
    let lower: u8 = match p.role {
        Role::Pawn => 112,
        Role::Knight => 110,
        Role::Bishop => 98,
        Role::Rook => 114,
        Role::Queen => 113,
        Role::King => 107,
    };
    if p.color == Color::White {
        (lower - 32) as u8
    } else {
        lower
    }
}

/// The piece that a FEN letter names.
pub open spec fn piece_of_letter(c: u8) -> Option<Piece> {
    let color = if c < 97 {
        Color::White
    } else {
        Color::Black
    };
    let l = if c < 97 {
        c + 32
    } else {
        c as int
    };
    if l == 112 {
        Some(Piece { role: Role::Pawn, color })
    } else if l == 110 {
        Some(Piece { role: Role::Knight, color })
    } else if l == 98 {
        Some(Piece { role: Role::Bishop, color })
    } else if l == 114 {
        Some(Piece { role: Role::Rook, color })
    } else if l == 113 {
        Some(Piece { role: Role::Queen, color })
    } else if l == 107 {
        Some(Piece { role: Role::King, color })
    } else {
        None
    }
}

/// Role words then color words with `p` toggled on `sq`.
pub open spec fn place(w: Seq<u64>, p: Piece, sq: int) -> Seq<u64> {
    let r = p.role.idx();
    let c = 6 + p.color.idx();
    let m = 1u64 << (sq as u64);
    w.update(r, w[r] ^ m).update(c, w[c] ^ m)
}

/// The number of `c` bytes in `t`.
pub open spec fn count(t: Seq<u8>, c: u8) -> int
    decreases t.len(),
{
    if t.len() == 0 {
        0
    } else {
        count(t.drop_last(), c) + if t.last() == c {
            1int
        } else {
            0
        }
    }
}

/// The placement read from position `i` of `t`, on rank `rank` at file
/// `file`, with the pieces read so far in `w`.
pub open spec fn placement_from(t: Seq<u8>, i: int, rank: int, file: int, w: Seq<u64>) -> Option<
    Seq<u64>,
>
    decreases t.len() - i,
{
    if i >= t.len() || i < 0 {
        Some(w)
    } else if t[i] == 47 {
        placement_from(t, i + 1, rank - 1, 0, w)
    } else if file >= 8 || rank >= 8 || rank < 0 {
        None
    } else if is_digit(t[i]) {
        placement_from(t, i + 1, rank, file + t[i] - 48, w)
    } else {
        match piece_of_letter(t[i]) {
            Some(p) => placement_from(t, i + 1, rank, file + 1, place(w, p, rank * 8 + file)),
            None => None,
        }
    }
}

/// The role and color words of a placement field. Ranks are separated by
/// `/` and the last one is the first rank; a digit skips that many files.
pub open spec fn placement(t: Seq<u8>) -> Option<Seq<u64>> {
    placement_from(t, 0, count(t, 47), 0, seq![0u64, 0, 0, 0, 0, 0, 0, 0])
}

/// The castling rights `m` with the right that the letter `c` among `KQkq`
/// names added: bit 1, 2, 4 or 8.
pub open spec fn add_castle(m: int, c: u8) -> Option<int> {
    if c == 75 {
        Some(if m % 2 == 1 { m } else { m + 1 })
    } else if c == 81 {
        Some(if (m / 2) % 2 == 1 { m } else { m + 2 })
    } else if c == 107 {
        Some(if (m / 4) % 2 == 1 { m } else { m + 4 })
    } else if c == 113 {
        Some(if (m / 8) % 2 == 1 { m } else { m + 8 })
    } else {
        None
    }
}

/// The castling rights of the first `n` letters of `t`.
pub open spec fn castle_mask(t: Seq<u8>, n: int) -> Option<int>
    decreases n,
{
    if n <= 0 {
        Some(0)
    } else {
        match castle_mask(t, n - 1) {
            Some(m) => add_castle(m, t[n - 1]),
            None => None,
        }
    }
}

/// The castling rights field: `-` or letters among `KQkq`.
pub open spec fn castles_field(t: Seq<u8>) -> Option<Castles> {
    if t == seq![45u8] {
        Some(Castles(0))
    } else if t.len() == 0 {
        None
    } else {
        match castle_mask(t, t.len() as int) {
            Some(m) => Some(Castles(m as u8)),
            None => None,
        }
    }
}

/// The en passant field: `-` or a square.
pub open spec fn en_passant_field(t: Seq<u8>) -> Option<Option<Square>> {
    if t == seq![45u8] {
        Some(None)
    } else if t.len() == 2 {
        match square_at(t, 0) {
            Some(sq) => Some(Some(sq)),
            None => None,
        }
    } else {
        None
    }
}

/// The value of the decimal digits of `d`.
pub open spec fn digits_value(d: Seq<u8>) -> int
    decreases d.len(),
{
    if d.len() == 0 {
        0
    } else {
        digits_value(d.drop_last()) * 10 + (d.last() - 48)
    }
}

/// Every byte is a decimal digit.
pub open spec fn all_digits(d: Seq<u8>) -> bool {
    forall|i: int| 0 <= i < d.len() ==> is_digit(#[trigger] d[i])
}

/// The bytes after an optional leading `+`.
pub open spec fn unsigned_digits(t: Seq<u8>) -> Seq<u8> {
    if t.len() > 0 && t[0] == 43 {
        t.drop_first()
    } else {
        t
    }
}

/// An unsigned decimal number not above `max`, with an optional leading `+`.
pub open spec fn number_field(t: Seq<u8>, max: int) -> Option<int> {
    let d = unsigned_digits(t);
    if d.len() > 0 && all_digits(d) && digits_value(d) <= max {
        Some(digits_value(d))
    } else {
        None
    }
}

/// The board that the FEN string `s` describes, or why it describes none.
pub open spec fn parse_fen(s: Seq<u8>) -> Result<Board, ParseFenError> {
    let t = tokens(s);
    if t.len() < 1 || placement(t[0]) is None {
        Err(ParseFenError::InvalidPlacement)
    } else if t.len() < 2 || (t[1] != seq![119u8] && t[1] != seq![98u8]) {
        Err(ParseFenError::InvalidSideToMove)
    } else if t.len() < 3 || castles_field(t[2]) is None {
        Err(ParseFenError::InvalidCastlingRights)
    } else if t.len() < 4 || en_passant_field(t[3]) is None {
        Err(ParseFenError::InvalidEnPassantSquare)
    } else if t.len() < 5 || number_field(t[4], 255) is None {
        Err(ParseFenError::InvalidHalfmoveClock)
    } else if t.len() < 6 || number_field(t[5], 0xFFFF_FFFF) is None {
        Err(ParseFenError::InvalidFullmoveNumber)
    } else if t.len() > 6 {
        Err(ParseFenError::InvalidSyntax)
    } else {
        let w = placement(t[0])->0;
        Ok(
            Board {
                roles: [
                    Bitboard(w[0]),
                    Bitboard(w[1]),
                    Bitboard(w[2]),
                    Bitboard(w[3]),
                    Bitboard(w[4]),
                    Bitboard(w[5]),
                ],
                colors: [Bitboard(w[6]), Bitboard(w[7])],
                turn: if t[1] == seq![119u8] {
                    Color::White
                } else {
                    Color::Black
                },
                castles: castles_field(t[2])->0,
                en_passant: en_passant_field(t[3])->0,
                halfmoves: number_field(t[4], 255)->0 as u8,
                fullmoves: number_field(t[5], 0xFFFF_FFFF)->0 as u32,
            },
        )
    }
}

/// The decimal digits of `n`.
pub open spec fn decimal(n: nat) -> Seq<u8>
    decreases n,
{
    if n < 10 {
        seq![(48 + n) as u8]
    } else {
        decimal(n / 10).push((48 + n % 10) as u8)
    }
}

/// The FEN of one rank from `file` on, after `skip` empty squares.
pub open spec fn rank_text(b: Board, rank: int, file: int, skip: int) -> Seq<u8>
    decreases 8 - file,
{
    if file >= 8 {
        if skip > 0 {
            seq![(48 + skip) as u8]
        } else {
            Seq::empty()
        }
    } else {
        match b.piece_at(rank * 8 + file) {
            None => rank_text(b, rank, file + 1, skip + 1),
            Some(p) => (if skip > 0 {
                seq![(48 + skip) as u8]
            } else {
                Seq::empty()
            }).push(piece_letter(p)) + rank_text(b, rank, file + 1, 0),
        }
    }
}

/// The FEN of the ranks from `rank` down to the first, separated by `/`.
pub open spec fn ranks_text(b: Board, rank: int) -> Seq<u8>
    decreases rank,
{
    if rank <= 0 {
        rank_text(b, 0, 0, 0)
    } else {
        rank_text(b, rank, 0, 0).push(47u8) + ranks_text(b, rank - 1)
    }
}

/// The castling rights in FEN: `-` or the letters among `KQkq` held.
pub open spec fn castles_text(c: Castles) -> Seq<u8> {
    if c.0 == 0 {
        seq![45u8]
    } else {
        (if c.0 % 2 == 1 { seq![75u8] } else { Seq::empty() }) + (if (c.0 / 2) % 2 == 1 {
            seq![81u8]
        } else {
            Seq::empty()
        }) + (if (c.0 / 4) % 2 == 1 { seq![107u8] } else { Seq::empty() }) + (if (c.0 / 8) % 2
            == 1 {
            seq![113u8]
        } else {
            Seq::empty()
        })
    }
}

/// The en passant square in FEN: `-` or the square.
pub open spec fn en_passant_text(ep: Option<Square>) -> Seq<u8> {
    match ep {
        None => seq![45u8],
        Some(sq) => seq![(97 + sq.0 % 8) as u8, (49 + sq.0 / 8) as u8],
    }
}

/// The FEN of a board: placement, side to move, castling rights, en
/// passant square, halfmove clock and fullmove number, separated by spaces.
pub open spec fn fen_text(b: Board) -> Seq<u8> {
    ranks_text(b, 7).push(32u8) + (if b.turn == Color::White {
        seq![119u8]
    } else {
        seq![98u8]
    }).push(32u8) + castles_text(b.castles).push(32u8) + en_passant_text(b.en_passant).push(32u8)
        + decimal(b.halfmoves as nat).push(32u8) + decimal(b.fullmoves as nat)
}

fn letter_of(p: Piece) -> (r: u8)
    ensures
        r == piece_letter(p),
        r < 128,
{
    let lower: u8 = match p.role {
        Role::Pawn => 112,
        Role::Knight => 110,
        Role::Bishop => 98,
        Role::Rook => 114,
        Role::Queen => 113,
        Role::King => 107,
    };
    match p.color {
        Color::White => lower - 32,
        Color::Black => lower,
    }
}

/// Appends the decimal digits of `n`.
pub fn push_decimal(out: &mut Vec<u8>, n: u128)
    requires
        ascii(old(out)@),
    ensures
        final(out)@ == old(out)@ + decimal(n as nat),
        ascii(final(out)@),
    decreases n,
{
    let ghost start = out@;
    if n < 10 {
        push_ascii(out, 48 + n as u8);
        assert(out@ =~= start + decimal(n as nat));
    } else {
        push_decimal(out, n / 10);
        push_ascii(out, 48 + (n % 10) as u8);
        assert(out@ =~= start + decimal(n as nat));
    }
}

/// Every byte is ASCII.
pub open spec fn ascii(b: Seq<u8>) -> bool {
    forall|k: int| 0 <= k < b.len() ==> #[trigger] b[k] < 128
}

/// Appends an ASCII byte.
pub fn push_ascii(out: &mut Vec<u8>, c: u8)
    requires
        ascii(old(out)@),
        c < 128,
    ensures
        final(out)@ == old(out)@.push(c),
        ascii(final(out)@),
{
    out.push(c);
}

fn push_castles(out: &mut Vec<u8>, c: Castles)
    requires
        ascii(old(out)@),
    ensures
        final(out)@ == old(out)@ + castles_text(c),
        ascii(final(out)@),
{
    let ghost start = out@;
    if c.0 == 0 {
        push_ascii(out, 45);
    } else {
        if c.0 % 2 == 1 {
            push_ascii(out, 75);
        }
        if (c.0 / 2) % 2 == 1 {
            push_ascii(out, 81);
        }
        if (c.0 / 4) % 2 == 1 {
            push_ascii(out, 107);
        }
        if (c.0 / 8) % 2 == 1 {
            push_ascii(out, 113);
        }
    }
    assert(out@ =~= start + castles_text(c));
}

impl Board {
    fn push_rank(&self, out: &mut Vec<u8>, rank: u8)
        requires
            self.wf(),
            rank < 8,
            ascii(old(out)@),
        ensures
            final(out)@ == old(out)@ + rank_text(*self, rank as int, 0, 0),
            ascii(final(out)@),
    {
        let ghost start = out@;
        let mut file: u8 = 0;
        let mut skip: u8 = 0;
        while file < 8
            invariant
                file <= 8,
                skip <= file,
                rank < 8,
                self.wf(),
                ascii(out@),
                out@ + rank_text(*self, rank as int, file as int, skip as int) == start + rank_text(
                    *self,
                    rank as int,
                    0,
                    0,
                ),
            decreases 8 - file,
        {
            let ghost before = out@;
            let ghost rest = rank_text(*self, rank as int, file as int, skip as int);
            match self.piece_on(Square(rank * 8 + file)) {
                None => {
                    skip = skip + 1;
                },
                Some(p) => {
                    if skip > 0 {
                        push_ascii(out, 48 + skip);
                    }
                    push_ascii(out, letter_of(p));
                    proof {
                        let head = if skip > 0 {
                            seq![(48 + skip) as u8]
                        } else {
                            Seq::<u8>::empty()
                        };
                        assert(out@ =~= before + head.push(piece_letter(p)));
                        assert(rest == head.push(piece_letter(p)) + rank_text(
                            *self,
                            rank as int,
                            file + 1,
                            0,
                        ));
                        assert(out@ + rank_text(*self, rank as int, file + 1, 0) =~= before + rest);
                    }
                    skip = 0;
                },
            }
            file = file + 1;
        }
        if skip > 0 {
            push_ascii(out, 48 + skip);
        }
        assert(out@ =~= start + rank_text(*self, rank as int, 0, 0));
    }

    fn push_placement(&self, out: &mut Vec<u8>)
        requires
            self.wf(),
            ascii(old(out)@),
        ensures
            final(out)@ == old(out)@ + ranks_text(*self, 7),
            ascii(final(out)@),
    {
        let ghost start = out@;
        let mut rank: u8 = 8;
        while rank > 0
            invariant
                rank <= 8,
                self.wf(),
                ascii(out@),
                rank == 8 ==> out@ == start,
                rank >= 1 ==> out@ + ranks_text(*self, rank - 1) == start + ranks_text(*self, 7),
                rank == 0 ==> out@ == start + ranks_text(*self, 7),
            decreases rank,
        {
            rank = rank - 1;
            let ghost before = out@;
            self.push_rank(out, rank);
            if rank > 0 {
                push_ascii(out, 47);
                assert(out@ + ranks_text(*self, rank - 1) =~= before + ranks_text(*self, rank as int));
            } else {
                assert(out@ =~= before + ranks_text(*self, 0));
            }
        }
    }

    /// The FEN of this board as bytes.
    pub fn fen_bytes(&self) -> (r: Vec<u8>)
        requires
            self.wf(),
        ensures
            r@ == fen_text(*self),
            ascii(r@),
    {
        let mut out: Vec<u8> = Vec::new();
        self.push_placement(&mut out);
        push_ascii(&mut out, 32);
        match self.turn {
            Color::White => push_ascii(&mut out, 119),
            Color::Black => push_ascii(&mut out, 98),
        }
        push_ascii(&mut out, 32);
        push_castles(&mut out, self.castles);
        push_ascii(&mut out, 32);
        match self.en_passant {
            None => push_ascii(&mut out, 45),
            Some(sq) => {
                push_ascii(&mut out, 97 + sq.0 % 8);
                push_ascii(&mut out, 49 + sq.0 / 8);
            },
        }
        push_ascii(&mut out, 32);
        push_decimal(&mut out, self.halfmoves as u128);
        push_ascii(&mut out, 32);
        push_decimal(&mut out, self.fullmoves as u128);
        assert(out@ =~= fen_text(*self));
        out
    }

    /// The FEN of this board.
    pub fn to_fen(&self) -> (r: String)
        requires
            self.wf(),
        ensures
            r@ == ascii_chars(fen_text(*self)),
    {
        ascii_string(self.fen_bytes())
    }
}

} // verus!

verus! {

/// The views of a sequence of byte vectors.
pub open spec fn views(v: Seq<Vec<u8>>) -> Seq<Seq<u8>> {
    v.map_values(|x: Vec<u8>| x@)
}

fn is_ws_byte(c: u8) -> (r: bool)
    ensures
        r == is_ws(c),
{
    c == 32 || c == 9 || c == 10 || c == 12 || c == 13
}

/// Splits `s` at ASCII whitespace, dropping empty tokens.
pub fn split_tokens(s: &[u8]) -> (r: Vec<Vec<u8>>)
    ensures
        views(r@) == tokens(s@),
{
    let mut acc: Vec<Vec<u8>> = Vec::new();
    let mut cur: Vec<u8> = Vec::new();
    let mut i: usize = 0;
    assert(views(acc@) =~= Seq::<Seq<u8>>::empty());
    assert(cur@ =~= Seq::<u8>::empty());
    while i < s.len()
        invariant
            i <= s@.len(),
            split_from(s@, i as int, cur@, views(acc@)) == tokens(s@),
        decreases s@.len() - i,
    {
        if is_ws_byte(s[i]) {
            if cur.len() > 0 {
                let ghost before = views(acc@);
                let ghost c = cur@;
                acc.push(cur);
                assert(views(acc@) =~= before.push(c));
                cur = Vec::new();
            } else {
                assert(cur@ =~= Seq::<u8>::empty());
            }
        } else {
            cur.push(s[i]);
        }
        i = i + 1;
    }
    if cur.len() > 0 {
        let ghost before = views(acc@);
        let ghost c = cur@;
        acc.push(cur);
        assert(views(acc@) =~= before.push(c));
    }
    acc
}

fn piece_of_byte(c: u8) -> (r: Option<Piece>)
    ensures
        r == piece_of_letter(c),
{
    let color = if c < 97 {
        Color::White
    } else {
        Color::Black
    };
    let l: u16 = if c < 97 {
        c as u16 + 32
    } else {
        c as u16
    };
    if l == 112 {
        Some(Piece { role: Role::Pawn, color })
    } else if l == 110 {
        Some(Piece { role: Role::Knight, color })
    } else if l == 98 {
        Some(Piece { role: Role::Bishop, color })
    } else if l == 114 {
        Some(Piece { role: Role::Rook, color })
    } else if l == 113 {
        Some(Piece { role: Role::Queen, color })
    } else if l == 107 {
        Some(Piece { role: Role::King, color })
    } else {
        None
    }
}

proof fn lemma_count_prefix(t: Seq<u8>, c: u8, i: int, j: int)
    requires
        0 <= i <= j <= t.len(),
    ensures
        count(t.subrange(0, i), c) <= count(t.subrange(0, j), c),
    decreases j - i,
{
    if i < j {
        lemma_count_prefix(t, c, i, j - 1);
        assert(t.subrange(0, j).drop_last() =~= t.subrange(0, j - 1));
    }
}

fn count_byte(t: &[u8], c: u8) -> (r: usize)
    ensures
        r == count(t@, c),
{
    let mut n: usize = 0;
    let mut i: usize = 0;
    while i < t.len()
        invariant
            i <= t@.len(),
            n == count(t@.subrange(0, i as int), c),
            n <= i,
        decreases t@.len() - i,
    {
        assert(t@.subrange(0, i + 1).drop_last() =~= t@.subrange(0, i as int));
        if t[i] == c {
            n = n + 1;
        }
        i = i + 1;
    }
    assert(t@.subrange(0, t@.len() as int) =~= t@);
    n
}

/// Reads a placement field into six role words and two color words.
pub fn parse_placement(t: &[u8]) -> (r: Option<Vec<u64>>)
    ensures
        match r {
            Some(w) => placement(t@) == Some(w@),
            None => placement(t@) is None,
        },
        r matches Some(w) ==> w@.len() == 8,
{
    let total = count_byte(t, 47);
    let mut w: Vec<u64> = vec![0u64, 0, 0, 0, 0, 0, 0, 0];
    assert(w@ =~= seq![0u64, 0, 0, 0, 0, 0, 0, 0]);
    let mut rank: usize = total;
    let mut file: usize = 0;
    let mut i: usize = 0;
    while i < t.len()
        invariant
            i <= t@.len(),
            total == count(t@, 47),
            rank + count(t@.subrange(0, i as int), 47) == total,
            file <= 17,
            w@.len() == 8,
            placement_from(t@, i as int, rank as int, file as int, w@) == placement(t@),
        decreases t@.len() - i,
    {
        let c = t[i];
        assert(t@.subrange(0, i + 1).drop_last() =~= t@.subrange(0, i as int));
        if c == 47 {
            proof {
                lemma_count_prefix(t@, 47, i + 1, t@.len() as int);
                assert(t@.subrange(0, t@.len() as int) =~= t@);
            }
            rank = rank - 1;
            file = 0;
        } else if file >= 8 || rank >= 8 {
            return None;
        } else if 48 <= c && c <= 57 {
            file = file + (c - 48) as usize;
        } else {
            match piece_of_byte(c) {
                Some(p) => {
                    let sq = (rank * 8 + file) as u64;
                    let m = 1u64 << sq;
                    let ri = p.role().index();
                    let ci = 6 + p.color().index();
                    let a = w[ri] ^ m;
                    w.set(ri, a);
                    let b = w[ci] ^ m;
                    w.set(ci, b);
                    file = file + 1;
                },
                None => {
                    return None;
                },
            }
        }
        i = i + 1;
    }
    Some(w)
}

fn add_castle_of(m: u8, c: u8) -> (r: Option<u8>)
    requires
        m < 16,
    ensures
        match r {
            Some(v) => add_castle(m as int, c) == Some(v as int) && v < 16,
            None => add_castle(m as int, c) is None,
        },
{
    if c == 75 {
        Some(if m % 2 == 1 { m } else { m + 1 })
    } else if c == 81 {
        Some(if (m / 2) % 2 == 1 { m } else { m + 2 })
    } else if c == 107 {
        Some(if (m / 4) % 2 == 1 { m } else { m + 4 })
    } else if c == 113 {
        Some(if (m / 8) % 2 == 1 { m } else { m + 8 })
    } else {
        None
    }
}

proof fn lemma_castle_mask_none(t: Seq<u8>, i: int, n: int)
    requires
        0 <= i <= n,
        castle_mask(t, i) is None,
    ensures
        castle_mask(t, n) is None,
    decreases n - i,
{
    if i < n {
        lemma_castle_mask_none(t, i, n - 1);
    }
}

/// Reads a castling rights field.
pub fn parse_castles(t: &[u8]) -> (r: Option<Castles>)
    ensures
        r == castles_field(t@),
        r matches Some(c) ==> c.wf(),
{
    if t.len() == 1 && t[0] == 45 {
        assert(t@ =~= seq![45u8]);
        return Some(Castles(0));
    }
    if t.len() == 0 {
        return None;
    }
    assert(t@ != seq![45u8]) by {
        if t@.len() == 1 {
            assert(seq![45u8][0] == 45u8);
        }
    }
    let mut m: u8 = 0;
    let mut i: usize = 0;
    while i < t.len()
        invariant
            i <= t@.len(),
            t@ != seq![45u8],
            t@.len() > 0,
            castle_mask(t@, i as int) == Some(m as int),
            m < 16,
        decreases t@.len() - i,
    {
        match add_castle_of(m, t[i]) {
            Some(v) => {
                m = v;
            },
            None => {
                proof {
                    assert(castle_mask(t@, i + 1) is None);
                    lemma_castle_mask_none(t@, i + 1, t@.len() as int);
                }
                return None;
            },
        }
        i = i + 1;
    }
    Some(Castles(m))
}

/// Reads an en passant field.
pub fn parse_en_passant(t: &[u8]) -> (r: Option<Option<Square>>)
    ensures
        r == en_passant_field(t@),
        r matches Some(Some(sq)) ==> sq.wf(),
{
    if t.len() == 1 && t[0] == 45 {
        assert(t@ =~= seq![45u8]);
        return Some(None);
    }
    if t.len() != 2 {
        return None;
    }
    match crate::moves::parse_square(t, 0) {
        Some(sq) => Some(Some(sq)),
        None => None,
    }
}

proof fn lemma_digits_grow(d: Seq<u8>, i: int, j: int)
    requires
        0 <= i <= j <= d.len(),
        forall|k: int| 0 <= k < j ==> is_digit(#[trigger] d[k]),
    ensures
        digits_value(d.subrange(0, i)) <= digits_value(d.subrange(0, j)),
        0 <= digits_value(d.subrange(0, i)),
    decreases j - i,
{
    if i < j {
        lemma_digits_grow(d, i, j - 1);
        assert(d.subrange(0, j).drop_last() =~= d.subrange(0, j - 1));
    } else {
        lemma_digits_nonneg(d.subrange(0, i));
    }
}

proof fn lemma_digits_nonneg(d: Seq<u8>)
    requires
        forall|k: int| 0 <= k < d.len() ==> is_digit(#[trigger] d[k]),
    ensures
        0 <= digits_value(d),
    decreases d.len(),
{
    if d.len() > 0 {
        lemma_digits_nonneg(d.drop_last());
    }
}

proof fn lemma_number_not_digit(t: Seq<u8>, max: int, k: int)
    requires
        0 <= k < unsigned_digits(t).len(),
        !is_digit(unsigned_digits(t)[k]),
    ensures
        number_field(t, max) is None,
{
}

/// Reads an unsigned decimal number not above `max`.
pub fn parse_number(t: &[u8], max: u64) -> (r: Option<u64>)
    ensures
        match r {
            Some(v) => number_field(t@, max as int) == Some(v as int),
            None => number_field(t@, max as int) is None,
        },
{
    let start: usize = if t.len() > 0 && t[0] == 43 {
        1
    } else {
        0
    };
    let ghost d = unsigned_digits(t@);
    assert(d =~= t@.subrange(start as int, t@.len() as int));
    if t.len() == start {
        assert(d.len() == 0);
        return None;
    }
    let mut acc: u64 = 0;
    let mut i: usize = start;
    while i < t.len()
        invariant
            start <= i <= t@.len(),
            d =~= t@.subrange(start as int, t@.len() as int),
            d == unsigned_digits(t@),
            forall|k: int| 0 <= k < i - start ==> is_digit(#[trigger] d[k]),
            acc == digits_value(d.subrange(0, i - start)),
            acc <= max,
        decreases t@.len() - i,
    {
        let c = t[i];
        if c < 48 || c > 57 {
            assert(d[i - start] == c);
            assert(!is_digit(d[i - start]));
            proof {
                lemma_number_not_digit(t@, max as int, i - start);
            }
            return None;
        }
        assert(d.subrange(0, i - start + 1).drop_last() =~= d.subrange(0, i - start));
        let dd = (c - 48) as u64;
        let too_big = if acc > max / 10 {
            proof {
                assert(acc * 10 + dd > max) by (nonlinear_arith)
                    requires
                        acc > max / 10,
                        dd >= 0,
                ;
            }
            true
        } else {
            proof {
                assert(acc * 10 <= max) by (nonlinear_arith)
                    requires
                        acc <= max / 10,
                ;
            }
            dd > max - acc * 10
        };
        if too_big {
            proof {
                if all_digits(d) {
                    lemma_digits_grow(d, i - start + 1, d.len() as int);
                    assert(d.subrange(0, d.len() as int) =~= d);
                }
            }
            return None;
        }
        acc = acc * 10 + dd;
        i = i + 1;
    }
    assert(d.subrange(0, d.len() as int) =~= d);
    Some(acc)
}

impl Board {
    /// Parses a FEN string given as bytes.
    pub fn from_fen(s: &[u8]) -> (r: Result<Board, ParseFenError>)
        ensures
            r == parse_fen(s@),
    {
        let t = split_tokens(s);
        proof {
            assert(views(t@).len() == t@.len());
        }
        if t.len() < 1 {
            return Err(ParseFenError::InvalidPlacement);
        }
        assert(t@[0]@ == tokens(s@)[0]);
        let w = match parse_placement(t[0].as_slice()) {
            Some(w) => w,
            None => {
                return Err(ParseFenError::InvalidPlacement);
            },
        };
        if t.len() < 2 {
            return Err(ParseFenError::InvalidSideToMove);
        }
        assert(t@[1]@ == tokens(s@)[1]);
        let side = t[1].as_slice();
        let turn = if side.len() == 1 && side[0] == 119 {
            assert(side@ =~= seq![119u8]);
            Color::White
        } else if side.len() == 1 && side[0] == 98 {
            assert(side@ =~= seq![98u8]);
            Color::Black
        } else {
            assert(side@ != seq![119u8] && side@ != seq![98u8]) by {
                if side@.len() == 1 {
                    assert(seq![119u8][0] == 119u8);
                    assert(seq![98u8][0] == 98u8);
                }
            }
            return Err(ParseFenError::InvalidSideToMove);
        };
        if t.len() < 3 {
            return Err(ParseFenError::InvalidCastlingRights);
        }
        assert(t@[2]@ == tokens(s@)[2]);
        let castles = match parse_castles(t[2].as_slice()) {
            Some(c) => c,
            None => {
                return Err(ParseFenError::InvalidCastlingRights);
            },
        };
        if t.len() < 4 {
            return Err(ParseFenError::InvalidEnPassantSquare);
        }
        assert(t@[3]@ == tokens(s@)[3]);
        let en_passant = match parse_en_passant(t[3].as_slice()) {
            Some(ep) => ep,
            None => {
                return Err(ParseFenError::InvalidEnPassantSquare);
            },
        };
        if t.len() < 5 {
            return Err(ParseFenError::InvalidHalfmoveClock);
        }
        assert(t@[4]@ == tokens(s@)[4]);
        let halfmoves = match parse_number(t[4].as_slice(), 255) {
            Some(h) => h as u8,
            None => {
                return Err(ParseFenError::InvalidHalfmoveClock);
            },
        };
        if t.len() < 6 {
            return Err(ParseFenError::InvalidFullmoveNumber);
        }
        assert(t@[5]@ == tokens(s@)[5]);
        let fullmoves = match parse_number(t[5].as_slice(), 0xFFFF_FFFF) {
            Some(f) => f as u32,
            None => {
                return Err(ParseFenError::InvalidFullmoveNumber);
            },
        };
        if t.len() > 6 {
            return Err(ParseFenError::InvalidSyntax);
        }
        let b = Board {
            roles: [
                Bitboard(w[0]),
                Bitboard(w[1]),
                Bitboard(w[2]),
                Bitboard(w[3]),
                Bitboard(w[4]),
                Bitboard(w[5]),
            ],
            colors: [Bitboard(w[6]), Bitboard(w[7])],
            turn,
            castles,
            en_passant,
            halfmoves,
            fullmoves,
        };
        Ok(b)
    }

    /// Parses a FEN string.
    pub fn from_str(s: &str) -> (r: Result<Board, ParseFenError>)
        ensures
            r == parse_fen(s.spec_bytes()),
    {
        Board::from_fen(s.as_bytes())
    }
}

} // verus!
