//! Partial search results and their 64-bit encoding together with a
//! 26-bit signature.
use crate::moves::{lemma_move_bits_round_trip, DecodeMoveError, Move};
use vstd::prelude::*;

verus! {

/// How the score of a [`Transposition`] bounds the exact score.
#[derive(Clone, Copy, Debug, PartialEq, Eq, Hash, Structural)]
pub enum Kind {
    Lower,
    Upper,
    Exact,
}

impl Kind {
    /// The rank of the kind: `Lower < Upper < Exact`.
    pub open spec fn idx(self) -> int {
        match self {
            Kind::Lower => 0,
            Kind::Upper => 1,
            Kind::Exact => 2,
        }
    }
}

/// A partial search result.
#[derive(Clone, Copy, Debug, PartialEq, Eq, Hash, Structural)]
pub struct Transposition {
    pub kind: Kind,
    pub depth: u8,
    pub score: i16,
    pub best: Move,
}

/// The deepest depth that a [`Transposition`] can record.
pub const MAX_DEPTH: u8 = 31;

/// The 26-bit verification signature of a hash.
pub type Signature = u32;

/// An optional [`Transposition`] with its signature, the content of a slot.
pub type OptionalSignedTransposition = Option<(Transposition, Signature)>;

/// The reason why decoding a [`Transposition`] from binary failed.
#[derive(Clone, Copy, Debug, PartialEq, Eq, Hash, Structural)]
pub struct DecodeTranspositionError;

impl Transposition {
    /// The depth fits in five bits and the best move is a move.
    pub open spec fn wf(self) -> bool {
        self.depth <= MAX_DEPTH && self.best.wf()
    }

    /// Whether `self` ranks strictly above `other`: by depth, then by kind.
    pub open spec fn outranks(self, other: Transposition) -> bool {
        self.depth > other.depth || (self.depth == other.depth && self.kind.idx()
            > other.kind.idx())
    }

    fn new(kind: Kind, score: i16, depth: u8, best: Move) -> (r: Transposition)
        requires
            depth <= MAX_DEPTH,
        ensures
            r == (Transposition { kind, depth, score, best }),
    {
        Transposition { kind, depth, score, best }
    }

    /// A lower bound `score` found at `depth` with best move `best`.
    pub fn lower(score: i16, depth: u8, best: Move) -> (r: Transposition)
        requires
            depth <= MAX_DEPTH,
        ensures
            r == (Transposition { kind: Kind::Lower, depth, score, best }),
    {
        Transposition::new(Kind::Lower, score, depth, best)
    }

    /// An upper bound `score` found at `depth` with best move `best`.
    pub fn upper(score: i16, depth: u8, best: Move) -> (r: Transposition)
        requires
            depth <= MAX_DEPTH,
        ensures
            r == (Transposition { kind: Kind::Upper, depth, score, best }),
    {
        Transposition::new(Kind::Upper, score, depth, best)
    }

    /// The exact `score` found at `depth` with best move `best`.
    pub fn exact(score: i16, depth: u8, best: Move) -> (r: Transposition)
        requires
            depth <= MAX_DEPTH,
        ensures
            r == (Transposition { kind: Kind::Exact, depth, score, best }),
    {
        Transposition::new(Kind::Exact, score, depth, best)
    }

    /// The inclusive bounds of the exact score.
    pub fn bounds(&self) -> (r: (i16, i16))
        ensures
            r == match self.kind {
                Kind::Lower => (self.score, i16::MAX),
                Kind::Upper => (i16::MIN, self.score),
                Kind::Exact => (self.score, self.score),
            },
            r.0 <= self.score <= r.1,
    {
        match self.kind {
            Kind::Lower => (self.score, i16::MAX),
            Kind::Upper => (i16::MIN, self.score),
            Kind::Exact => (self.score, self.score),
        }
    }

    /// Depth searched.
    pub fn depth(&self) -> (r: u8)
        ensures
            r == self.depth,
    {
        self.depth
    }

    /// Partial score.
    pub fn score(&self) -> (r: i16)
        ensures
            r == self.score,
    {
        self.score
    }

    /// Best move at this depth.
    pub fn best(&self) -> (r: Move)
        ensures
            r == self.best,
    {
        self.best
    }

    /// The kind of bound.
    pub fn kind(&self) -> (r: Kind)
        ensures
            r == self.kind,
    {
        self.kind
    }

    /// Whether `self` ranks strictly above `other`: by depth, then by kind.
    pub fn is_greater(&self, other: &Transposition) -> (r: bool)
        ensures
            r == self.outranks(*other),
    {
        self.depth > other.depth || (self.depth == other.depth && kind_index(self.kind)
            > kind_index(other.kind))
    }
}

fn kind_index(k: Kind) -> (r: u8)
    ensures
        r as int == k.idx(),
{
    match k {
        Kind::Lower => 0,
        Kind::Upper => 1,
        Kind::Exact => 2,
    }
}

/// The kind with code `c`, if any.
pub open spec fn kind_of(c: u64) -> Option<Kind> {
    if c == 0 {
        Some(Kind::Lower)
    } else if c == 1 {
        Some(Kind::Upper)
    } else if c == 2 {
        Some(Kind::Exact)
    } else {
        None
    }
}

/// An entry with its signature can be encoded.
pub open spec fn valid_entry(o: OptionalSignedTransposition) -> bool {
    match o {
        None => true,
        Some((t, sig)) => t.wf() && sig < 0x400_0000,
    }
}

/// The encoding: signature in the top 26 bits, then the best move in 15,
/// the score in 16, the depth in 5 and the kind in the low 2.
pub open spec fn encode_spec(o: OptionalSignedTransposition) -> u64 {
    match o {
        None => 0,
        Some((t, sig)) => ((sig as u64) << 38u64) | (t.best.bits() << 23u64) | ((#[verifier::truncate] (t.score as u16)
            as u64) << 7u64) | ((t.depth as u64) << 2u64) | (t.kind.idx() as u64),
    }
}

/// The entry that the word `b` encodes.
pub open spec fn decode_spec(b: u64) -> Result<OptionalSignedTransposition, DecodeTranspositionError> {
    if b == 0 {
        Ok(None)
    } else {
        match (kind_of(b & 3u64), Move::from_bits((b >> 23u64) & 0x7FFFu64)) {
            (Some(kind), Ok(best)) => Ok(
                Some(
                    (
                        Transposition {
                            kind,
                            depth: ((b >> 2u64) & 31u64) as u8,
                            score: #[verifier::truncate] ((((b >> 7u64) & 0xFFFFu64) as u16) as i16),
                            best,
                        },
                        (b >> 38u64) as u32,
                    ),
                ),
            ),
            _ => Err(DecodeTranspositionError),
        }
    }
}

impl DecodeTranspositionError {
    /// Any move decoding failure is a transposition decoding failure.
    pub fn from(_e: DecodeMoveError) -> (r: DecodeTranspositionError) {
        DecodeTranspositionError
    }
}

/// Encodes an optional entry and its signature; all zero stands for none.
pub fn encode(o: &OptionalSignedTransposition) -> (r: u64)
    requires
        valid_entry(*o),
    ensures
        r == encode_spec(*o),
        o.is_some() ==> r != 0,
{
    match o {
        None => 0,
        Some((t, sig)) => {
            let m = t.best.encode();
            let s = *sig as u64;
            let sc = (#[verifier::truncate] (t.score as u16)) as u64;
            let d = t.depth as u64;
            let k = kind_index(t.kind) as u64;
            let r = (s << 38u64) | (m << 23u64) | (sc << 7u64) | (d << 2u64) | k;
            proof {
                assert(m != 0 ==> (s << 38u64) | (m << 23u64) | (sc << 7u64) | (d << 2u64) | k
                    != 0 || m >= 0x8000) by (bit_vector);
            }
            r
        },
    }
}

/// Decodes an optional entry and its signature.
pub fn decode(b: u64) -> (r: Result<OptionalSignedTransposition, DecodeTranspositionError>)
    ensures
        r == decode_spec(b),
        r matches Ok(o) ==> valid_entry(o),
{
    if b == 0 {
        return Ok(None);
    }
    let kind = match b & 3u64 {
        0 => Kind::Lower,
        1 => Kind::Upper,
        2 => Kind::Exact,
        _ => {
            return Err(DecodeTranspositionError);
        },
    };
    let best = match Move::decode((b >> 23u64) & 0x7FFFu64) {
        Ok(m) => m,
        Err(e) => {
            return Err(DecodeTranspositionError::from(e));
        },
    };
    proof {
        assert((b >> 2u64) & 31u64 <= 31) by (bit_vector);
        assert(b >> 38u64 < 0x400_0000) by (bit_vector);
    }
    let t = Transposition {
        kind,
        depth: ((b >> 2u64) & 31u64) as u8,
        score: #[verifier::truncate] ((((b >> 7u64) & 0xFFFFu64) as u16) as i16),
        best,
    };
    Ok(Some((t, (b >> 38u64) as u32)))
}

/// The fields of an encoded word read back as they were written.
proof fn lemma_fields(s: u64, m: u64, sc: u64, d: u64, k: u64)
    requires
        s < 0x400_0000,
        0 < m < 0x8000,
        sc < 0x10000,
        d < 32,
        k < 3,
    ensures
        ((s << 38u64) | (m << 23u64) | (sc << 7u64) | (d << 2u64) | k) != 0,
        ((s << 38u64) | (m << 23u64) | (sc << 7u64) | (d << 2u64) | k) & 3u64 == k,
        (((s << 38u64) | (m << 23u64) | (sc << 7u64) | (d << 2u64) | k) >> 2u64) & 31u64 == d,
        (((s << 38u64) | (m << 23u64) | (sc << 7u64) | (d << 2u64) | k) >> 7u64) & 0xFFFFu64 == sc,
        (((s << 38u64) | (m << 23u64) | (sc << 7u64) | (d << 2u64) | k) >> 23u64) & 0x7FFFu64 == m,
        ((s << 38u64) | (m << 23u64) | (sc << 7u64) | (d << 2u64) | k) >> 38u64 == s,
{
    assert(s < 0x400_0000 && 0 < m && m < 0x8000 && sc < 0x10000 && d < 32 && k < 3 ==> ((s << 38u64) | (m << 23u64) | (sc << 7u64) | (d << 2u64) | k) != 0
        && ((s << 38u64) | (m << 23u64) | (sc << 7u64) | (d << 2u64) | k) & 3u64 == k && (((s << 38u64) | (m << 23u64) | (sc << 7u64) | (d << 2u64) | k) >> 2u64) & 31u64 == d && (((s << 38u64) | (m << 23u64) | (sc << 7u64) | (d << 2u64) | k) >> 7u64) & 0xFFFFu64 == sc
        && (((s << 38u64) | (m << 23u64) | (sc << 7u64) | (d << 2u64) | k) >> 23u64) & 0x7FFFu64 == m && ((s << 38u64) | (m << 23u64) | (sc << 7u64) | (d << 2u64) | k) >> 38u64 == s) by (bit_vector);
}

/// Decoding the encoding of a valid entry gives the entry back, and the all
/// zero word decodes to no entry.
pub proof fn lemma_encoding_round_trip(o: OptionalSignedTransposition)
    requires
        valid_entry(o),
    ensures
        decode_spec(encode_spec(o)) == Ok::<OptionalSignedTransposition, DecodeTranspositionError>(o),
        decode_spec(0) == Ok::<OptionalSignedTransposition, DecodeTranspositionError>(None),
{
    if let Some((t, sig)) = o {
        let s = sig as u64;
        let m = t.best.bits();
        let sc = (#[verifier::truncate] (t.score as u16)) as u64;
        let d = t.depth as u64;
        let k = t.kind.idx() as u64;
        lemma_move_bits_round_trip(t.best);
        assert(m < 0x8000 && 0 < m) by {
            let a = t.best.whence.0 as u64;
            let w = t.best.whither.0 as u64;
            let c = crate::moves::promotion_code(t.best.promotion) as u64;
            assert(a < 64 && w < 64 && c < 5 && a != w ==> 0 < ((a << 9u64) | (w << 3u64) | c)
                < 0x8000) by (bit_vector);
        }
        lemma_fields(s, m, sc, d, k);
        let x = t.score;
        assert(#[verifier::truncate] (((#[verifier::truncate] (x as u16)) as u64 as u16) as i16) == x) by (bit_vector);
    }
}

} // verus!
