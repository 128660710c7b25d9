//! Damping of neuron activations: each output divided by a fixed scale.
use vstd::prelude::*;

verus! {

/// Division rounding toward zero, as Rust's integer `/` does.
pub open spec fn div_toward_zero(a: int, b: int) -> int {
    let q = (if a < 0 { -a } else { a }) / (if b < 0 { -b } else { b });
    if (a < 0) != (b < 0) {
        -q
    } else {
        q
    }
}

/// Divides each activation by `scale`.
#[derive(Clone, Copy, Debug, PartialEq, Eq, Hash, Structural)]
pub struct Damp {
    pub scale: i8,
}

impl Damp {
    /// Each value of `input` divided by the scale, rounding toward zero.
    /// The one quotient that does not fit, `i32::MIN / -1`, is excluded.
    pub fn forward(&self, input: &[i32]) -> (r: Vec<i32>)
        requires
            self.scale != 0,
            self.scale == -1 ==> forall|i: int| 0 <= i < input@.len() ==> #[trigger] input@[i] != i32::MIN,
        ensures
            r@.len() == input@.len(),
            forall|i: int|
                0 <= i < input@.len() ==> #[trigger] r@[i] == div_toward_zero(
                    input@[i] as int,
                    self.scale as int,
                ),
    {
        let s = self.scale as i64;
        let ms: i64 = if s < 0 {
            -s
        } else {
            s
        };
        let mut r: Vec<i32> = Vec::new();
        let mut i: usize = 0;
        while i < input.len()
            invariant
                i <= input@.len(),
                s == self.scale,
                s != 0,
                ms == (if s < 0 { -s } else { s as int }),
                self.scale == -1 ==> forall|j: int| 0 <= j < input@.len() ==> #[trigger] input@[j] != i32::MIN,
                r@.len() == i,
                forall|j: int|
                    0 <= j < i ==> #[trigger] r@[j] == div_toward_zero(input@[j] as int, s as int),
            decreases input@.len() - i,
        {
            let v = input[i] as i64;
            let mv: i64 = if v < 0 {
                -v
            } else {
                v
            };
            proof {
                assert(0 <= (mv as int) / (ms as int) <= mv) by (nonlinear_arith)
                    requires
                        mv >= 0,
                        ms >= 1,
                ;
                if ms >= 2 {
                    assert((mv as int) / (ms as int) <= (mv as int) / 2) by (nonlinear_arith)
                        requires
                            mv >= 0,
                            ms >= 2,
                    ;
                }
            }
            let q = mv / ms;
            let d: i64 = if (v < 0) != (s < 0) {
                -q
            } else {
                q
            };
            r.push(d as i32);
            i = i + 1;
        }
        r
    }
}

} // verus!
