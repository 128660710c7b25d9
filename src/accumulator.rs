//! The accumulator: the first-layer activations of one perspective, kept
//! up to date as features are added and removed.
use crate::board::Board;
use crate::chess::{Color, Piece, Role, Square};
use crate::nnue::Affine;
use vstd::arithmetic::div_mod::{lemma_fundamental_div_mod, lemma_mod_multiples_vanish};
use vstd::prelude::*;

verus! {

/// `x` wrapped into the range of `i16`.
pub open spec fn wrap16(x: int) -> int {
    (x + 32768) % 65536 - 32768
}

/// The sum of column `i` of the weights of the features `feats`, for
/// accumulators of `n` values.
pub open spec fn features_sum(w: Seq<i16>, n: int, feats: Seq<usize>, i: int) -> int
    decreases feats.len(),
{
    if feats.len() == 0 {
        0
    } else {
        features_sum(w, n, feats.drop_last(), i) + w[feats.last() * n + i]
    }
}

/// Value `i` of the accumulator of the features `feats`, computed afresh.
pub open spec fn fresh(ft: Affine, feats: Seq<usize>, i: int) -> int {
    wrap16(ft.bias@[i] + features_sum(ft.weight@, ft.bias@.len() as int, feats, i))
}

/// Feature `f` has a column of weights in `ft`.
pub open spec fn has_feature(ft: Affine, f: usize) -> bool {
    (f + 1) * ft.bias@.len() <= ft.weight@.len()
}

/// The first-layer activations of one perspective.
#[derive(Clone, Debug, PartialEq, Eq)]
pub struct Accumulator {
    pub values: Vec<i16>,
}

proof fn lemma_wrap_is_wrapping_add(x: i16, y: i16)
    ensures
        vstd::wrapping::i16_specs::wrapping_add(x, y) as int == wrap16(x + y),
        vstd::wrapping::i16_specs::wrapping_sub(x, y) as int == wrap16(x - y),
{
}

/// Wrapping an inner sum first does not change the wrapped total.
pub proof fn lemma_wrap_absorbs(a: int, b: int)
    ensures
        wrap16(wrap16(a) + b) == wrap16(a + b),
{
    let q = (a + 32768) / 65536;
    lemma_fundamental_div_mod(a + 32768, 65536);
    assert(wrap16(a) == a - 65536 * q);
    lemma_mod_multiples_vanish(-q, a + b + 32768, 65536);
    assert(65536 * (-q) + (a + b + 32768) == wrap16(a) + b + 32768);
}

fn column_index(n: usize, f: usize, i: usize) -> (r: usize)
    requires
        i < n,
        (f + 1) * n <= usize::MAX,
    ensures
        r == f * n + i,
        r < (f + 1) * n,
{
    proof {
        assert(f * n + n == (f + 1) * n) by (nonlinear_arith);
    }
    f * n + i
}

impl Accumulator {
    /// Value `i` is the bias plus the column `i` of every feature's weights,
    /// wrapped into `i16`.
    pub fn refresh(ft: &Affine, feats: &[usize]) -> (r: Accumulator)
        requires
            forall|k: int| 0 <= k < feats@.len() ==> has_feature(*ft, #[trigger] feats@[k]),
        ensures
            r.values@.len() == ft.bias@.len(),
            forall|i: int| 0 <= i < ft.bias@.len() ==> #[trigger] r.values@[i] == fresh(*ft, feats@, i),
    {
        let mut acc = Accumulator { values: Vec::new() };
        let n = ft.bias.len();
        let mut i: usize = 0;
        while i < n
            invariant
                i <= n,
                n == ft.bias@.len(),
                acc.values@.len() == i,
                forall|j: int| 0 <= j < i ==> #[trigger] acc.values@[j] == wrap16(ft.bias@[j] as int),
            decreases n - i,
        {
            acc.values.push(ft.bias[i]);
            i = i + 1;
        }
        let mut k: usize = 0;
        while k < feats.len()
            invariant
                k <= feats@.len(),
                n == ft.bias@.len(),
                acc.values@.len() == n,
                forall|j: int| 0 <= j < feats@.len() ==> has_feature(*ft, #[trigger] feats@[j]),
                forall|j: int|
                    0 <= j < n ==> #[trigger] acc.values@[j] == fresh(*ft, feats@.subrange(0, k as int), j),
            decreases feats@.len() - k,
        {
            let ghost before = acc;
            assert(has_feature(*ft, feats@[k as int]));
            acc.add(ft, feats[k]);
            proof {
                let f = feats@[k as int];
                assert(feats@.subrange(0, k + 1).drop_last() =~= feats@.subrange(0, k as int));
                assert forall|j: int| 0 <= j < n implies #[trigger] acc.values@[j] == fresh(
                    *ft,
                    feats@.subrange(0, k + 1),
                    j,
                ) by {
                    lemma_wrap_absorbs(
                        ft.bias@[j] + features_sum(ft.weight@, n as int, feats@.subrange(0, k as int), j),
                        ft.weight@[f * n + j] as int,
                    );
                }
            }
            k = k + 1;
        }
        proof {
            assert(feats@.subrange(0, feats@.len() as int) =~= feats@);
            assert forall|j: int| 0 <= j < n implies #[trigger] acc.values@[j] == fresh(*ft, feats@, j) by {
                assert(acc.values@[j] == fresh(*ft, feats@.subrange(0, feats@.len() as int), j));
            }
        }
        acc
    }

    /// Adds the weights of feature `f`, wrapping.
    pub fn add(&mut self, ft: &Affine, f: usize)
        requires
            old(self).values@.len() == ft.bias@.len(),
            has_feature(*ft, f),
        ensures
            final(self).values@.len() == old(self).values@.len(),
            forall|i: int|
                0 <= i < ft.bias@.len() ==> #[trigger] final(self).values@[i] == wrap16(
                    old(self).values@[i] + ft.weight@[f * ft.bias@.len() + i],
                ),
    {
        let n = self.values.len();
        let wl = ft.weight.len();
        let mut i: usize = 0;
        while i < n
            invariant
                i <= n,
                wl == ft.weight@.len(),
                n == ft.bias@.len(),
                self.values@.len() == n,
                has_feature(*ft, f),
                (f + 1) * n <= ft.weight@.len(),
                forall|j: int|
                    0 <= j < i ==> #[trigger] self.values@[j] == wrap16(
                        old(self).values@[j] + ft.weight@[f * n + j],
                    ),
                forall|j: int| i <= j < n ==> #[trigger] self.values@[j] == old(self).values@[j],
            decreases n - i,
        {
            let c = column_index(n, f, i);
            let v = self.values[i].wrapping_add(ft.weight[c]);
            proof {
                lemma_wrap_is_wrapping_add(self.values@[i as int], ft.weight@[c as int]);
            }
            self.values.set(i, v);
            i = i + 1;
        }
    }

    /// Subtracts the weights of feature `f`, wrapping.
    pub fn remove(&mut self, ft: &Affine, f: usize)
        requires
            old(self).values@.len() == ft.bias@.len(),
            has_feature(*ft, f),
        ensures
            final(self).values@.len() == old(self).values@.len(),
            forall|i: int|
                0 <= i < ft.bias@.len() ==> #[trigger] final(self).values@[i] == wrap16(
                    old(self).values@[i] - ft.weight@[f * ft.bias@.len() + i],
                ),
    {
        let n = self.values.len();
        let wl = ft.weight.len();
        let mut i: usize = 0;
        while i < n
            invariant
                i <= n,
                wl == ft.weight@.len(),
                n == ft.bias@.len(),
                self.values@.len() == n,
                has_feature(*ft, f),
                (f + 1) * n <= ft.weight@.len(),
                forall|j: int|
                    0 <= j < i ==> #[trigger] self.values@[j] == wrap16(
                        old(self).values@[j] - ft.weight@[f * n + j],
                    ),
                forall|j: int| i <= j < n ==> #[trigger] self.values@[j] == old(self).values@[j],
            decreases n - i,
        {
            let c = column_index(n, f, i);
            let v = self.values[i].wrapping_sub(ft.weight[c]);
            proof {
                lemma_wrap_is_wrapping_add(self.values@[i as int], ft.weight@[c as int]);
            }
            self.values.set(i, v);
            i = i + 1;
        }
    }
}

proof fn lemma_sum_remove(w: Seq<i16>, n: int, feats: Seq<usize>, j: int, i: int)
    requires
        0 <= j < feats.len(),
    ensures
        features_sum(w, n, feats, i) == features_sum(w, n, feats.remove(j), i) + w[feats[j] * n + i],
    decreases feats.len(),
{
    if j < feats.len() - 1 {
        lemma_sum_remove(w, n, feats.drop_last(), j, i);
        assert(feats.remove(j).drop_last() =~= feats.drop_last().remove(j));
        assert(feats.remove(j).last() == feats.last());
    } else {
        assert(feats.remove(j) =~= feats.drop_last());
    }
}

/// Updating an accumulator incrementally gives what computing it afresh
/// gives: adding feature `f` to the features `feats`, or removing the
/// feature at position `j` of `feats`.
pub proof fn lemma_incremental_matches_fresh(ft: Affine, feats: Seq<usize>, f: usize, j: int, i: int)
    requires
        0 <= i < ft.bias@.len(),
        0 <= j < feats.len(),
    ensures
        wrap16(fresh(ft, feats, i) + ft.weight@[f * ft.bias@.len() + i]) == fresh(ft, feats.push(f), i),
        wrap16(fresh(ft, feats, i) - ft.weight@[feats[j] * ft.bias@.len() + i]) == fresh(
            ft,
            feats.remove(j),
            i,
        ),
{
    let n = ft.bias@.len() as int;
    let s = ft.bias@[i] + features_sum(ft.weight@, n, feats, i);
    assert(feats.push(f).drop_last() =~= feats);
    lemma_wrap_absorbs(s, ft.weight@[f * n + i] as int);
    lemma_sum_remove(ft.weight@, n, feats, j, i);
    lemma_wrap_absorbs(s, -(ft.weight@[feats[j] * n + i] as int));
}

} // verus!

verus! {

/// Number of features: a king square, one of twelve pieces relative to the
/// perspective, and a square.
pub const FEATURES: usize = 49152;

/// `sq` as the perspective `persp` sees it: mirrored vertically for Black.
pub open spec fn relative(persp: Color, sq: int) -> int {
    if persp == Color::White {
        sq
    } else {
        (7 - sq / 8) * 8 + sq % 8
    }
}

/// The feature of piece `p` on `sq` for the perspective `persp` whose king
/// stands on `ksq`; the pieces of `persp` come first.
pub open spec fn feature_of(persp: Color, ksq: int, p: Piece, sq: int) -> int {
    let rel = if p.color == persp {
        0int
    } else {
        6int
    };
    relative(persp, ksq) * 768 + (rel + p.role.idx()) * 64 + relative(persp, sq)
}

/// Column `i` of the weights of the feature on square `sq` of `b`, if a
/// piece other than a king stands there.
pub open spec fn square_term(ft: Affine, b: Board, persp: Color, ksq: int, sq: int, i: int) -> int {
    match b.piece_at(sq) {
        Some(p) => if p.role == Role::King {
            0
        } else {
            ft.weight@[feature_of(persp, ksq, p, sq) * ft.bias@.len() + i] as int
        },
        None => 0,
    }
}

/// The sum of [`square_term`] over the squares below `m`.
pub open spec fn board_sum(ft: Affine, b: Board, persp: Color, ksq: int, m: int, i: int) -> int
    decreases m,
{
    if m <= 0 {
        0
    } else {
        board_sum(ft, b, persp, ksq, m - 1, i) + square_term(ft, b, persp, ksq, m - 1, i)
    }
}

/// Value `i` of the accumulator of `b` for `persp`, computed afresh.
pub open spec fn fresh_board(ft: Affine, b: Board, persp: Color, ksq: int, i: int) -> int {
    wrap16(ft.bias@[i] + board_sum(ft, b, persp, ksq, 64, i))
}

/// The weights hold a column for every feature.
pub open spec fn covers_features(ft: Affine) -> bool {
    FEATURES * ft.bias@.len() <= ft.weight@.len()
}

/// The feature of piece `p` on `sq` for `persp` with its king on `ksq`.
pub fn feature(persp: Color, ksq: Square, p: Piece, sq: Square) -> (r: usize)
    requires
        ksq.wf(),
        sq.wf(),
    ensures
        r == feature_of(persp, ksq.0 as int, p, sq.0 as int),
        r < FEATURES,
{
    let (k, s) = match persp {
        Color::White => (ksq.0 as usize, sq.0 as usize),
        Color::Black => (ksq.flip().0 as usize, sq.flip().0 as usize),
    };
    let rel: usize = if p.color() == persp {
        0
    } else {
        6
    };
    k * 768 + (rel + p.role().index()) * 64 + s
}

impl Accumulator {
    /// The accumulator of the board `b` for the perspective `persp` whose
    /// king stands on `ksq`: the bias plus the weights of the feature of
    /// every piece other than a king, wrapped into `i16`.
    pub fn from_board(ft: &Affine, b: &Board, persp: Color, ksq: Square) -> (r: Accumulator)
        requires
            b.wf(),
            ksq.wf(),
            covers_features(*ft),
        ensures
            r.values@.len() == ft.bias@.len(),
            forall|i: int|
                0 <= i < ft.bias@.len() ==> #[trigger] r.values@[i] == fresh_board(
                    *ft,
                    *b,
                    persp,
                    ksq.0 as int,
                    i,
                ),
    {
        let mut acc = Accumulator::refresh(ft, &[]);
        let n = ft.bias.len();
        proof {
            assert forall|j: int| 0 <= j < n implies #[trigger] acc.values@[j] == wrap16(
                ft.bias@[j] + board_sum(*ft, *b, persp, ksq.0 as int, 0, j),
            ) by {
                assert(acc.values@[j] == fresh(*ft, Seq::<usize>::empty(), j));
            }
        }
        let mut s: u8 = 0;
        while s < 64
            invariant
                s <= 64,
                n == ft.bias@.len(),
                b.wf(),
                ksq.wf(),
                covers_features(*ft),
                acc.values@.len() == n,
                forall|j: int|
                    0 <= j < n ==> #[trigger] acc.values@[j] == wrap16(
                        ft.bias@[j] + board_sum(*ft, *b, persp, ksq.0 as int, s as int, j),
                    ),
            decreases 64 - s,
        {
            let sq = Square(s);
            let ghost before = acc;
            match b.piece_on(sq) {
                Some(p) => {
                    if p.role() != Role::King {
                        let f = feature(persp, ksq, p, sq);
                        proof {
                            assert((f + 1) * n <= FEATURES * n) by (nonlinear_arith)
                                requires
                                    f < FEATURES,
                            ;
                        }
                        acc.add(ft, f);
                        proof {
                            assert forall|j: int| 0 <= j < n implies #[trigger] acc.values@[j]
                                == wrap16(
                                ft.bias@[j] + board_sum(*ft, *b, persp, ksq.0 as int, s + 1, j),
                            ) by {
                                lemma_wrap_absorbs(
                                    ft.bias@[j] + board_sum(*ft, *b, persp, ksq.0 as int, s as int, j),
                                    ft.weight@[f * n + j] as int,
                                );
                            }
                        }
                    }
                },
                None => {},
            }
            s = s + 1;
        }
        acc
    }
}

/// Changing one square's term by `d` changes the sum over every prefix that
/// covers the square by `d`.
proof fn lemma_board_sum_toggle(
    ft: Affine,
    before: Board,
    after: Board,
    persp: Color,
    ksq: int,
    s: int,
    d: int,
    m: int,
    i: int,
)
    requires
        0 <= s < 64,
        0 <= m <= 64,
        forall|t: int|
            0 <= t < 64 && t != s ==> #[trigger] square_term(ft, after, persp, ksq, t, i)
                == square_term(ft, before, persp, ksq, t, i),
        square_term(ft, after, persp, ksq, s, i) == square_term(ft, before, persp, ksq, s, i) + d,
    ensures
        board_sum(ft, after, persp, ksq, m, i) == board_sum(ft, before, persp, ksq, m, i) + if m > s {
            d
        } else {
            0
        },
    decreases m,
{
    if m > 0 {
        lemma_board_sum_toggle(ft, before, after, persp, ksq, s, d, m - 1, i);
    }
}

/// Toggling a piece other than a king on a board, as `Board::toggle` does,
/// changes its accumulator exactly as adding (when the square was empty) or
/// removing (when it held the piece) that piece's feature does.
pub proof fn lemma_toggle_matches_fresh(
    ft: Affine,
    before: Board,
    after: Board,
    persp: Color,
    ksq: int,
    p: Piece,
    s: int,
    i: int,
)
    requires
        0 <= s < 64,
        0 <= i < ft.bias@.len(),
        p.role != Role::King,
        before.piece_at(s) is None || before.piece_at(s) == Some(p),
        after.piece_at(s) == (if before.piece_at(s) is None {
            Some(p)
        } else {
            None
        }),
        forall|t: int| 0 <= t < 64 && t != s ==> #[trigger] after.piece_at(t) == before.piece_at(t),
    ensures
        fresh_board(ft, after, persp, ksq, i) == wrap16(
            fresh_board(ft, before, persp, ksq, i) + if before.piece_at(s) is None {
                ft.weight@[feature_of(persp, ksq, p, s) * ft.bias@.len() + i] as int
            } else {
                -(ft.weight@[feature_of(persp, ksq, p, s) * ft.bias@.len() + i] as int)
            },
        ),
{
    let w = ft.weight@[feature_of(persp, ksq, p, s) * ft.bias@.len() + i] as int;
    let d = if before.piece_at(s) is None {
        w
    } else {
        -w
    };
    assert forall|t: int| 0 <= t < 64 && t != s implies #[trigger] square_term(
        ft,
        after,
        persp,
        ksq,
        t,
        i,
    ) == square_term(ft, before, persp, ksq, t, i) by {
        assert(after.piece_at(t) == before.piece_at(t));
    }
    lemma_board_sum_toggle(ft, before, after, persp, ksq, s, d, 64, i);
    let total = ft.bias@[i] + board_sum(ft, before, persp, ksq, 64, i);
    lemma_wrap_absorbs(total, d);
}

} // verus!
