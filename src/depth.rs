//! Search depth, saturating within `0..=31` and encoded in five bits.
use vstd::prelude::*;

verus! {

/// The bounds of a [`Depth`].
#[derive(Clone, Copy, Debug, PartialEq, Eq, Hash, Structural)]
pub struct DepthBounds;

/// The least depth.
pub const DEPTH_LOWER: u8 = 0;

/// The greatest depth.
pub const DEPTH_UPPER: u8 = 31;

/// A search depth in `DEPTH_LOWER..=DEPTH_UPPER`.
#[derive(Clone, Copy, Debug, PartialEq, Eq, Hash, Structural)]
pub struct Depth(pub u8);

impl View for Depth {
    type V = int;

    open spec fn view(&self) -> int {
        self.0 as int
    }
}

impl Depth {
    pub open spec fn wf(self) -> bool {
        self.0 <= DEPTH_UPPER
    }

    /// The depth `d`.
    pub fn new(d: u8) -> (r: Depth)
        requires
            d <= DEPTH_UPPER,
        ensures
            r@ == d,
            r.wf(),
    {
        Depth(d)
    }

    /// The depth nearest to `i` within the bounds.
    pub fn saturate(i: i64) -> (r: Depth)
        ensures
            r.wf(),
            r@ == if i < DEPTH_LOWER {
                DEPTH_LOWER as int
            } else if i > DEPTH_UPPER {
                DEPTH_UPPER as int
            } else {
                i as int
            },
    {
        if i < DEPTH_LOWER as i64 {
            Depth(DEPTH_LOWER)
        } else if i > DEPTH_UPPER as i64 {
            Depth(DEPTH_UPPER)
        } else {
            Depth(i as u8)
        }
    }

    /// The depth as an integer.
    pub fn get(&self) -> (r: u8)
        ensures
            r == self@,
    {
        self.0
    }

    /// Encodes into five bits.
    pub fn encode(&self) -> (r: u8)
        requires
            self.wf(),
        ensures
            r == self@,
            r < 32,
    {
        self.0
    }

    /// Decodes five bits.
    pub fn decode(bits: u8) -> (r: Depth)
        requires
            bits < 32,
        ensures
            r@ == bits,
            r.wf(),
    {
        Depth::new(bits)
    }
}

/// Decoding an encoded depth gives the depth back.
pub proof fn lemma_depth_round_trip(d: Depth)
    requires
        d.wf(),
    ensures
        d@ < 32,
        Depth(d@ as u8) == d,
{
}

} // verus!
