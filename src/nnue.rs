//! The weights of the evaluator and their little-endian byte layout.
use crate::hidden::Hidden;
use vstd::prelude::*;

verus! {

/// The signed 8-bit value of byte `o` of `b`.
pub open spec fn le_i8(b: Seq<u8>, o: int) -> i8 {
    #[verifier::truncate]
    (b[o] as i8)
}

/// The signed 16-bit little-endian value at byte `o` of `b`.
pub open spec fn le_i16(b: Seq<u8>, o: int) -> i16 {
    #[verifier::truncate]
    ((b[o] + 256 * b[o + 1]) as u16 as i16)
}

/// The signed 32-bit little-endian value at byte `o` of `b`.
pub open spec fn le_i32(b: Seq<u8>, o: int) -> i32 {
    #[verifier::truncate]
    ((b[o] + 256 * b[o + 1] + 65536 * b[o + 2] + 16777216 * b[o + 3]) as u32 as i32)
}

/// The dimensions of a network.
#[derive(Clone, Copy, Debug, PartialEq, Eq, Hash, Structural)]
pub struct Layout {
    /// Length of each accumulator half.
    pub positional: usize,
    /// Number of game phases, each with a material weight and a hidden layer.
    pub material: usize,
    /// Number of input features.
    pub features: usize,
}

impl Layout {
    /// Byte offset of the feature transformer weights.
    pub open spec fn ft_weight_at(self) -> int {
        2 * self.positional
    }

    /// Byte offset of the material weights.
    pub open spec fn psqt_at(self) -> int {
        self.ft_weight_at() + 2 * (self.features * self.positional)
    }

    /// Byte offset of the hidden layers.
    pub open spec fn hidden_at(self) -> int {
        self.psqt_at() + 4 * (self.features * self.material)
    }

    /// Bytes taken by one hidden layer: its bias and two weight rows.
    pub open spec fn hidden_len(self) -> int {
        4 + 2 * self.positional
    }

    /// Bytes taken by the whole network.
    pub open spec fn total(self) -> int {
        self.hidden_at() + self.material * self.hidden_len()
    }
}

/// The reason why loading a network failed.
#[derive(Clone, Copy, Debug, PartialEq, Eq, Hash, Structural)]
pub enum LoadError {
    /// The stream ended before the last weight.
    Truncated,
    /// Bytes follow the last weight.
    Trailing,
}

/// The first layer: a bias and feature-major weights.
#[derive(Clone, Debug)]
pub struct Affine {
    pub bias: Vec<i16>,
    pub weight: Vec<i16>,
}

/// The material weights, feature-major.
#[derive(Clone, Debug)]
pub struct Linear {
    pub weight: Vec<i32>,
}

/// The weights of an Efficiently Updatable Neural Network.
#[derive(Clone, Debug)]
pub struct Nnue {
    pub ft: Affine,
    pub psqt: Linear,
    pub hidden: Vec<Hidden>,
}

/// The hidden layer of phase `k` as the stream `b` lays it out.
pub open spec fn hidden_in(b: Seq<u8>, l: Layout, h: Hidden, k: int) -> bool {
    let o = l.hidden_at() + k * l.hidden_len();
    &&& h.bias == le_i32(b, o)
    &&& h.weight[0]@.len() == l.positional
    &&& h.weight[1]@.len() == l.positional
    &&& forall|i: int| 0 <= i < l.positional ==> #[trigger] h.weight[0]@[i] == le_i8(b, o + 4 + i)
    &&& forall|i: int|
        0 <= i < l.positional ==> #[trigger] h.weight[1]@[i] == le_i8(b, o + 4 + l.positional + i)
}

/// The network `n` is the one that the stream `b` lays out for `l`.
pub open spec fn laid_out(b: Seq<u8>, l: Layout, n: Nnue) -> bool {
    &&& n.ft.bias@.len() == l.positional
    &&& forall|i: int| 0 <= i < l.positional ==> #[trigger] n.ft.bias@[i] == le_i16(b, 2 * i)
    &&& n.ft.weight@.len() == l.features * l.positional
    &&& forall|i: int|
        0 <= i < l.features * l.positional ==> #[trigger] n.ft.weight@[i] == le_i16(
            b,
            l.ft_weight_at() + 2 * i,
        )
    &&& n.psqt.weight@.len() == l.features * l.material
    &&& forall|i: int|
        0 <= i < l.features * l.material ==> #[trigger] n.psqt.weight@[i] == le_i32(
            b,
            l.psqt_at() + 4 * i,
        )
    &&& n.hidden@.len() == l.material
    &&& forall|k: int| 0 <= k < l.material ==> #[trigger] hidden_in(b, l, n.hidden@[k], k)
}

fn read_i16s(b: &[u8], at: usize, n: usize) -> (r: Vec<i16>)
    requires
        at + 2 * n <= b@.len(),
    ensures
        r@.len() == n,
        forall|i: int| 0 <= i < n ==> #[trigger] r@[i] == le_i16(b@, at + 2 * i),
{
    let mut r: Vec<i16> = Vec::new();
    let len = b.len();
    let mut i: usize = 0;
    while i < n
        invariant
            i <= n,
            len == b@.len(),
            at + 2 * n <= b@.len(),
            r@.len() == i,
            forall|j: int| 0 <= j < i ==> #[trigger] r@[j] == le_i16(b@, at + 2 * j),
        decreases n - i,
    {
        let o = at + 2 * i;
        let v = #[verifier::truncate] ((b[o] as u16 + 256 * (b[o + 1] as u16)) as i16);
        r.push(v);
        i = i + 1;
    }
    r
}

fn read_i32(b: &[u8], o: usize) -> (r: i32)
    requires
        o + 4 <= b@.len(),
    ensures
        r == le_i32(b@, o as int),
{
    #[verifier::truncate]
    ((b[o] as u32 + 256 * (b[o + 1] as u32) + 65536 * (b[o + 2] as u32) + 16777216 * (b[o
        + 3] as u32)) as i32)
}

fn read_i32s(b: &[u8], at: usize, n: usize) -> (r: Vec<i32>)
    requires
        at + 4 * n <= b@.len(),
    ensures
        r@.len() == n,
        forall|i: int| 0 <= i < n ==> #[trigger] r@[i] == le_i32(b@, at + 4 * i),
{
    let mut r: Vec<i32> = Vec::new();
    let len = b.len();
    let mut i: usize = 0;
    while i < n
        invariant
            i <= n,
            len == b@.len(),
            at + 4 * n <= b@.len(),
            r@.len() == i,
            forall|j: int| 0 <= j < i ==> #[trigger] r@[j] == le_i32(b@, at + 4 * j),
        decreases n - i,
    {
        r.push(read_i32(b, at + 4 * i));
        i = i + 1;
    }
    r
}

fn read_i8s(b: &[u8], at: usize, n: usize) -> (r: Vec<i8>)
    requires
        at + n <= b@.len(),
    ensures
        r@.len() == n,
        forall|i: int| 0 <= i < n ==> #[trigger] r@[i] == le_i8(b@, at + i),
{
    let mut r: Vec<i8> = Vec::new();
    let len = b.len();
    let mut i: usize = 0;
    while i < n
        invariant
            i <= n,
            len == b@.len(),
            at + n <= b@.len(),
            r@.len() == i,
            forall|j: int| 0 <= j < i ==> #[trigger] r@[j] == le_i8(b@, at + j),
        decreases n - i,
    {
        r.push(#[verifier::truncate] (b[at + i] as i8));
        i = i + 1;
    }
    r
}

impl Nnue {
    /// Reads a network from a decompressed little-endian stream: the
    /// transformer bias and feature-major weights as 16-bit integers, the
    /// feature-major material weights as 32-bit integers, then for each
    /// phase a 32-bit bias and two rows of 8-bit weights. The stream must
    /// end right after the last weight.
    pub fn load(b: &[u8], l: Layout) -> (r: Result<Nnue, LoadError>)
        requires
            l.total() <= usize::MAX,
        ensures
            match r {
                Ok(n) => b@.len() == l.total() && laid_out(b@, l, n),
                Err(LoadError::Truncated) => b@.len() < l.total(),
                Err(LoadError::Trailing) => b@.len() > l.total(),
            },
    {
        proof {
            assert(0 <= l.features * l.positional) by (nonlinear_arith);
            assert(0 <= l.features * l.material) by (nonlinear_arith);
            assert(0 <= l.material * l.hidden_len()) by (nonlinear_arith);
            assert(l.material * (4 + 2 * l.positional) == l.material * l.hidden_len());
            assert(l.total() == 2 * l.positional + 2 * (l.features * l.positional) + 4 * (l.features
                * l.material) + l.material * l.hidden_len());
        }
        let fp = l.features * l.positional;
        let fm = l.features * l.material;
        let wat = 2 * l.positional;
        let pat = wat + 2 * fp;
        let hat = pat + 4 * fm;
        let total = if l.material == 0 {
            hat
        } else {
            proof {
                assert(l.hidden_len() <= l.material * l.hidden_len()) by (nonlinear_arith)
                    requires
                        l.material >= 1,
                        l.hidden_len() >= 0,
                ;
            }
            hat + l.material * (4 + 2 * l.positional)
        };
        if b.len() < total {
            return Err(LoadError::Truncated);
        }
        if b.len() > total {
            return Err(LoadError::Trailing);
        }
        let bias = read_i16s(b, 0, l.positional);
        let weight = read_i16s(b, wat, fp);
        let psqt = read_i32s(b, pat, fm);
        let mut hidden: Vec<Hidden> = Vec::new();
        let mut k: usize = 0;
        while k < l.material
            invariant
                k <= l.material,
                l.total() <= usize::MAX,
                0 <= l.material * l.hidden_len(),
                l.total() == l.hidden_at() + l.material * l.hidden_len(),
                b@.len() == l.total(),
                hat == l.hidden_at(),
                hidden@.len() == k,
                forall|j: int| 0 <= j < k ==> #[trigger] hidden_in(b@, l, hidden@[j], j),
            decreases l.material - k,
        {
            proof {
                assert(k * l.hidden_len() + l.hidden_len() <= l.material * l.hidden_len())
                    by (nonlinear_arith)
                    requires
                        k < l.material,
                ;
                assert((k + 1) * l.hidden_len() == k * l.hidden_len() + l.hidden_len())
                    by (nonlinear_arith);
            }
            let hl = 4 + 2 * l.positional;
            let o = hat + k * hl;
            let us = read_i8s(b, o + 4, l.positional);
            let them = read_i8s(b, o + 4 + l.positional, l.positional);
            let h = Hidden { bias: read_i32(b, o), weight: [us, them] };
            hidden.push(h);
            proof {
                assert forall|j: int| 0 <= j < k + 1 implies #[trigger] hidden_in(
                    b@,
                    l,
                    hidden@[j],
                    j,
                ) by {
                    if j == k {
                        assert(hidden@[j] == h);
                    }
                }
            }
            k = k + 1;
        }
        Ok(Nnue { ft: Affine { bias, weight }, psqt: Linear { weight: psqt }, hidden })
    }

    /// The material weights.
    pub fn psqt(&self) -> (r: &Linear)
        ensures
            *r == self.psqt,
    {
        &self.psqt
    }

    /// The feature transformer.
    pub fn ft(&self) -> (r: &Affine)
        ensures
            *r == self.ft,
    {
        &self.ft
    }

    /// The hidden layer of `phase`.
    pub fn hidden(&self, phase: usize) -> (r: &Hidden)
        requires
            phase < self.hidden@.len(),
        ensures
            *r == self.hidden@[phase as int],
    {
        &self.hidden[phase]
    }
}

} // verus!
