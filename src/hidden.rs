//! The hidden layer of the evaluator: a squared clipped ReLU of both
//! accumulator halves followed by a dot product with 8-bit weights.
use vstd::prelude::*;

verus! {

/// The largest magnitude of one weighted activation: `128 * 127`.
pub const TERM_BOUND: i32 = 16256;

/// Clips `x` to `0..=255`.
pub open spec fn clip(x: int) -> int {
    if x < 0 {
        0
    } else if x > 255 {
        255
    } else {
        x
    }
}

/// The squared clipped ReLU in Q15: `((clip(x) << 3)^2 + 16384) >> 15`.
pub open spec fn activation(x: int) -> int {
    (clip(x) * 8 * (clip(x) * 8) + 16384) / 32768
}

/// The dot product of the first `n` weights with the activations of the
/// first `n` inputs.
pub open spec fn dot(w: Seq<i8>, x: Seq<i16>, n: int) -> int
    decreases n,
{
    if n <= 0 {
        0
    } else {
        dot(w, x, n - 1) + w[n - 1] * activation(x[n - 1] as int)
    }
}

/// The hidden layer.
#[derive(Clone, Debug)]
pub struct Hidden {
    pub bias: i32,
    /// The weights of the side to move, then of the other side.
    pub weight: [Vec<i8>; 2],
}

impl Hidden {
    /// The output for the accumulator halves `us` and `them`.
    pub open spec fn forward_spec(&self, us: Seq<i16>, them: Seq<i16>) -> int {
        self.bias + dot(self.weight[0]@, us, us.len() as int) + dot(
            self.weight[1]@,
            them,
            them.len() as int,
        )
    }

    /// Both halves have as many inputs as weights, and no sum can overflow.
    pub open spec fn accepts(&self, us: Seq<i16>, them: Seq<i16>) -> bool {
        &&& us.len() == self.weight[0]@.len()
        &&& them.len() == self.weight[1]@.len()
        &&& us.len() == them.len()
        &&& (if self.bias < 0 {
            -self.bias
        } else {
            self.bias as int
        }) + 2 * us.len() * TERM_BOUND <= i32::MAX
    }

    /// Computes the hidden layer one input at a time.
    pub fn scalar(&self, us: &[i16], them: &[i16]) -> (r: i32)
        requires
            self.accepts(us@, them@),
        ensures
            r == self.forward_spec(us@, them@),
    {
        let n = us.len();
        let ghost b = if self.bias < 0 {
            -self.bias
        } else {
            self.bias as int
        };
        let mut y: i32 = self.bias;
        let mut i: usize = 0;
        while i < n
            invariant
                i <= n,
                n == us@.len(),
                self.accepts(us@, them@),
                b + 2 * n * TERM_BOUND <= i32::MAX,
                b == (if self.bias < 0 { -self.bias } else { self.bias as int }),
                y == self.bias + dot(self.weight[0]@, us@, i as int),
                -(i * TERM_BOUND) <= dot(self.weight[0]@, us@, i as int) <= i * TERM_BOUND,
            decreases n - i,
        {
            let t = weighted(self.weight[0][i], us[i]);
            proof {
                assert(i * TERM_BOUND + TERM_BOUND == (i + 1) * TERM_BOUND) by (nonlinear_arith);
                assert((i + 1) * TERM_BOUND <= n * TERM_BOUND) by (nonlinear_arith)
                    requires
                        i + 1 <= n,
                ;
            }
            y = y + t;
            i = i + 1;
        }
        let mut j: usize = 0;
        while j < n
            invariant
                j <= n,
                n == us@.len(),
                n == them@.len(),
                self.accepts(us@, them@),
                b + 2 * n * TERM_BOUND <= i32::MAX,
                b == (if self.bias < 0 { -self.bias } else { self.bias as int }),
                -(n * TERM_BOUND) <= dot(self.weight[0]@, us@, n as int) <= n * TERM_BOUND,
                y == self.bias + dot(self.weight[0]@, us@, n as int) + dot(
                    self.weight[1]@,
                    them@,
                    j as int,
                ),
                -(j * TERM_BOUND) <= dot(self.weight[1]@, them@, j as int) <= j * TERM_BOUND,
            decreases n - j,
        {
            let t = weighted(self.weight[1][j], them[j]);
            proof {
                assert(j * TERM_BOUND + TERM_BOUND == (j + 1) * TERM_BOUND) by (nonlinear_arith);
                assert((j + 1) * TERM_BOUND <= n * TERM_BOUND) by (nonlinear_arith)
                    requires
                        j + 1 <= n,
                ;
            }
            y = y + t;
            j = j + 1;
        }
        y
    }

    /// Transforms the accumulator halves; this build runs the portable backend.
    pub fn forward(&self, us: &[i16], them: &[i16]) -> (r: i32)
        requires
            self.accepts(us@, them@),
        ensures
            r == self.forward_spec(us@, them@),
    {
        self.scalar(us, them)
    }
}

/// The squared clipped ReLU of `x` in Q15.
fn activate(x: i16) -> (r: i32)
    ensures
        r == activation(x as int),
        0 <= r <= 127,
{
    let c: i32 = if x < 0 {
        0
    } else if x > 255 {
        255
    } else {
        x as i32
    };
    let s = c * 8;
    proof {
        assert(0 <= s * s <= 2040 * 2040) by (nonlinear_arith)
            requires
                0 <= s <= 2040,
        ;
    }
    (s * s + 16384) / 32768
}

/// One weighted activation.
fn weighted(a: i8, x: i16) -> (r: i32)
    ensures
        r == a * activation(x as int),
        -TERM_BOUND <= r <= TERM_BOUND,
{
    let q = activate(x);
    proof {
        assert(-16256 <= a * q <= 16256) by (nonlinear_arith)
            requires
                -128 <= a <= 127,
                0 <= q <= 127,
        ;
    }
    (a as i32) * q
}

} // verus!
