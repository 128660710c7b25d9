//! Printing a board as FEN and parsing the text gives the board back.
use crate::board::Board;
use crate::chess::{
    bit, lemma_bit_toggle, lemma_bit_zero, lemma_bits_equal, Castles, Color, Piece, Role, Square,
};
use crate::fen::{
    all_digits, castle_mask, castles_field, castles_text, count, decimal, digits_value,
    en_passant_field, en_passant_text, fen_text, is_ws, number_field, parse_fen,
    piece_letter, piece_of_letter, place, placement, placement_from, rank_text, ranks_text,
    split_from, tokens, ParseFenError,
};
use vstd::prelude::*;

verus! {

/// No byte is whitespace.
pub open spec fn no_ws(s: Seq<u8>) -> bool {
    forall|k: int| 0 <= k < s.len() ==> !is_ws(#[trigger] s[k])
}

/// Tokenizing a suffix does not depend on what precedes it.
proof fn lemma_split_shift(p: Seq<u8>, r: Seq<u8>, j: int, cur: Seq<u8>, acc: Seq<Seq<u8>>)
    requires
        0 <= j <= r.len(),
    ensures
        split_from(p + r, p.len() + j, cur, acc) == split_from(r, j, cur, acc),
    decreases r.len() - j,
{
    if j < r.len() {
        assert((p + r)[p.len() + j] == r[j]);
        if is_ws(r[j]) {
            lemma_split_shift(p, r, j + 1, Seq::empty(), if cur.len() > 0 { acc.push(cur) } else { acc });
        } else {
            lemma_split_shift(p, r, j + 1, cur.push(r[j]), acc);
        }
    }
}

/// A run of `n` non-whitespace bytes extends the token under way.
proof fn lemma_split_run(s: Seq<u8>, i: int, n: int, cur: Seq<u8>, acc: Seq<Seq<u8>>)
    requires
        0 <= i,
        0 <= n,
        i + n <= s.len(),
        forall|k: int| i <= k < i + n ==> !is_ws(#[trigger] s[k]),
    ensures
        split_from(s, i, cur, acc) == split_from(s, i + n, cur + s.subrange(i, i + n), acc),
    decreases n,
{
    if n == 0 {
        assert(cur + s.subrange(i, i) =~= cur);
    } else {
        assert(!is_ws(s[i]));
        lemma_split_run(s, i + 1, n - 1, cur.push(s[i]), acc);
        assert(cur.push(s[i]) + s.subrange(i + 1, i + n) =~= cur + s.subrange(i, i + n));
    }
}

/// A field followed by a space becomes one token.
proof fn lemma_split_field(x: Seq<u8>, r: Seq<u8>, acc: Seq<Seq<u8>>)
    requires
        x.len() > 0,
        no_ws(x),
    ensures
        split_from(x.push(32u8) + r, 0, Seq::empty(), acc) == split_from(r, 0, Seq::empty(), acc.push(x)),
{
    let s = x.push(32u8) + r;
    assert forall|k: int| 0 <= k < x.len() implies !is_ws(#[trigger] s[k]) by {
        assert(s[k] == x[k]);
    }
    lemma_split_run(s, 0, x.len() as int, Seq::empty(), acc);
    assert(Seq::<u8>::empty() + s.subrange(0, x.len() as int) =~= x);
    assert(s[x.len() as int] == 32u8);
    lemma_split_shift(x.push(32u8), r, 0, Seq::empty(), acc.push(x));
}

/// The last field becomes the last token.
proof fn lemma_split_last(x: Seq<u8>, acc: Seq<Seq<u8>>)
    requires
        x.len() > 0,
        no_ws(x),
    ensures
        split_from(x, 0, Seq::empty(), acc) == acc.push(x),
{
    lemma_split_run(x, 0, x.len() as int, Seq::empty(), acc);
    assert(Seq::<u8>::empty() + x.subrange(0, x.len() as int) =~= x);
}

proof fn lemma_decimal(n: nat)
    ensures
        decimal(n).len() > 0,
        no_ws(decimal(n)),
        all_digits(decimal(n)),
        digits_value(decimal(n)) == n,
        decimal(n)[0] != 43,
    decreases n,
{
    if n >= 10 {
        lemma_decimal(n / 10);
        let d = decimal(n);
        assert(d.drop_last() =~= decimal(n / 10));
        assert(d[0] == decimal(n / 10)[0]);
        assert(d.last() == 48 + n % 10);
        assert((n / 10) * 10 + n % 10 == n);
    } else {
        assert(decimal(n).drop_last() =~= Seq::<u8>::empty());
        assert(digits_value(Seq::<u8>::empty()) == 0);
    }
}

proof fn lemma_number_round_trip(n: nat, max: int)
    requires
        n <= max,
    ensures
        number_field(decimal(n), max) == Some(n as int),
{
    lemma_decimal(n);
}

#[verifier::rlimit(60)]
proof fn lemma_castles_round_trip(c: Castles)
    requires
        c.wf(),
    ensures
        castles_field(castles_text(c)) == Some(c),
        castles_text(c).len() > 0,
        no_ws(castles_text(c)),
{
    reveal_with_fuel(castle_mask, 5);
    let t = castles_text(c);
    if c.0 == 0 {
    } else {
        let v = c.0;
        if v == 1 {
            assert(t =~= seq![75u8]);
        } else if v == 2 {
            assert(t =~= seq![81u8]);
        } else if v == 3 {
            assert(t =~= seq![75u8, 81]);
        } else if v == 4 {
            assert(t =~= seq![107u8]);
        } else if v == 5 {
            assert(t =~= seq![75u8, 107]);
        } else if v == 6 {
            assert(t =~= seq![81u8, 107]);
        } else if v == 7 {
            assert(t =~= seq![75u8, 81, 107]);
        } else if v == 8 {
            assert(t =~= seq![113u8]);
        } else if v == 9 {
            assert(t =~= seq![75u8, 113]);
        } else if v == 10 {
            assert(t =~= seq![81u8, 113]);
        } else if v == 11 {
            assert(t =~= seq![75u8, 81, 113]);
        } else if v == 12 {
            assert(t =~= seq![107u8, 113]);
        } else if v == 13 {
            assert(t =~= seq![75u8, 107, 113]);
        } else if v == 14 {
            assert(t =~= seq![81u8, 107, 113]);
        } else {
            assert(t =~= seq![75u8, 81, 107, 113]);
        }
        assert(t != seq![45u8]) by {
            if t.len() == 1 {
                assert(t[0] != 45);
            }
        }
    }
}

proof fn lemma_en_passant_round_trip(ep: Option<Square>)
    requires
        ep matches Some(sq) ==> sq.wf(),
    ensures
        en_passant_field(en_passant_text(ep)) == Some(ep),
        en_passant_text(ep).len() > 0,
        no_ws(en_passant_text(ep)),
{
    if let Some(sq) = ep {
        let t = en_passant_text(ep);
        assert(t.len() == 2);
        assert(t != seq![45u8]);
        assert(crate::moves::square_at(t, 0) == Some(sq));
    }
}

} // verus!

verus! {

/// The words `w` with the pieces on rank `r` from file `f` on toggled in.
pub open spec fn place_rank(w: Seq<u64>, b: Board, r: int, f: int) -> Seq<u64>
    decreases 8 - f,
{
    if f >= 8 {
        w
    } else {
        let sq = r * 8 + f;
        place_rank(
            match b.piece_at(sq) {
                Some(p) => place(w, p, sq),
                None => w,
            },
            b,
            r,
            f + 1,
        )
    }
}

/// The words `w` with the pieces on ranks `r` down to the first toggled in.
pub open spec fn place_ranks(w: Seq<u64>, b: Board, r: int) -> Seq<u64>
    decreases r,
{
    if r <= 0 {
        place_rank(w, b, 0, 0)
    } else {
        place_ranks(place_rank(w, b, r, 0), b, r - 1)
    }
}

proof fn lemma_letter_round_trip(p: Piece)
    ensures
        piece_of_letter(piece_letter(p)) == Some(p),
        66 <= piece_letter(p) <= 114,
{
}

/// The bytes of a rank are skip digits and piece letters.
proof fn lemma_rank_bytes(b: Board, r: int, f: int, skip: int)
    requires
        0 <= skip <= 8,
        skip <= f || f >= 8,
    ensures
        forall|k: int|
            0 <= k < rank_text(b, r, f, skip).len() ==> 49 <= #[trigger] rank_text(b, r, f, skip)[k]
                <= 114,
    decreases 8 - f,
{
    let rt = rank_text(b, r, f, skip);
    if f < 8 {
        match b.piece_at(r * 8 + f) {
            None => {
                assert(rt == rank_text(b, r, f + 1, skip + 1));
                lemma_rank_bytes(b, r, f + 1, skip + 1);
            },
            Some(p) => {
                let head = if skip > 0 {
                    seq![(48 + skip) as u8]
                } else {
                    Seq::<u8>::empty()
                };
                let rest = rank_text(b, r, f + 1, 0);
                assert(rt == head.push(piece_letter(p)) + rest);
                lemma_rank_bytes(b, r, f + 1, 0);
                lemma_letter_round_trip(p);
                assert forall|k: int| 0 <= k < rt.len() implies 49 <= #[trigger] rt[k] <= 114 by {
                    let h = head.len() as int;
                    if k < h {
                        assert(rt[k] == head[k]);
                    } else if k == h {
                        assert(rt[k] == piece_letter(p));
                    } else {
                        assert(rt[k] == rest[k - h - 1]);
                    }
                }
            },
        }
    } else if skip > 0 {
        assert(rt == seq![(48 + skip) as u8]);
    }
}

proof fn lemma_count_concat(a: Seq<u8>, x: Seq<u8>, c: u8)
    ensures
        count(a + x, c) == count(a, c) + count(x, c),
    decreases x.len(),
{
    if x.len() > 0 {
        lemma_count_concat(a, x.drop_last(), c);
        assert((a + x).drop_last() =~= a + x.drop_last());
    } else {
        assert(a + x =~= a);
    }
}

proof fn lemma_count_none(x: Seq<u8>, c: u8)
    requires
        forall|k: int| 0 <= k < x.len() ==> #[trigger] x[k] != c,
    ensures
        count(x, c) == 0,
    decreases x.len(),
{
    if x.len() > 0 {
        lemma_count_none(x.drop_last(), c);
    }
}

/// The placement text has one `/` between ranks and no whitespace.
proof fn lemma_ranks_bytes(b: Board, r: int)
    requires
        0 <= r < 8,
    ensures
        count(ranks_text(b, r), 47) == r,
        forall|k: int| 0 <= k < ranks_text(b, r).len() ==> 47 <= #[trigger] ranks_text(b, r)[k],
        ranks_text(b, r).len() > 0,
    decreases r,
{
    let rt = rank_text(b, r, 0, 0);
    lemma_rank_bytes(b, r, 0, 0);
    lemma_count_none(rt, 47);
    if r == 0 {
        assert(rt.len() > 0) by {
            lemma_rank_nonempty(b, 0, 0, 0);
        }
    } else {
        lemma_ranks_bytes(b, r - 1);
        lemma_count_concat(rt.push(47u8), ranks_text(b, r - 1), 47);
        assert(rt.push(47u8).drop_last() =~= rt);
        let whole = ranks_text(b, r);
        assert forall|k: int| 0 <= k < whole.len() implies 47 <= #[trigger] whole[k] by {
            if k < rt.len() {
                assert(whole[k] == rt[k]);
            } else if k > rt.len() {
                assert(whole[k] == ranks_text(b, r - 1)[k - rt.len() - 1]);
            }
        }
    }
}

proof fn lemma_rank_nonempty(b: Board, r: int, f: int, skip: int)
    requires
        0 <= f <= 8,
        0 <= skip,
        skip > 0 || f < 8,
    ensures
        rank_text(b, r, f, skip).len() > 0,
    decreases 8 - f,
{
    if f < 8 {
        if b.piece_at(r * 8 + f) is None {
            lemma_rank_nonempty(b, r, f + 1, skip + 1);
        }
    }
}

/// Parsing the text of a rank from file `f - skip` toggles in its pieces
/// and ends past the last file.
proof fn lemma_parse_rank(s: Seq<u8>, i: int, b: Board, r: int, f: int, skip: int, w: Seq<u64>)
    requires
        0 <= r < 8,
        0 <= skip <= f <= 8,
        0 <= i,
        i + rank_text(b, r, f, skip).len() <= s.len(),
        s.subrange(i, i + rank_text(b, r, f, skip).len()) == rank_text(b, r, f, skip),
    ensures
        placement_from(s, i, r, f - skip, w) == placement_from(
            s,
            i + rank_text(b, r, f, skip).len(),
            r,
            8,
            place_rank(w, b, r, f),
        ),
    decreases 8 - f,
{
    let rt = rank_text(b, r, f, skip);
    if f >= 8 {
        if skip > 0 {
            assert(s[i] == rt[0]);
        }
    } else {
        let sq = r * 8 + f;
        match b.piece_at(sq) {
            None => {
                lemma_parse_rank(s, i, b, r, f + 1, skip + 1, w);
            },
            Some(p) => {
                let head = if skip > 0 {
                    seq![(48 + skip) as u8]
                } else {
                    Seq::<u8>::empty()
                };
                let h = head.len() as int;
                let rest = rank_text(b, r, f + 1, 0);
                assert(rt == head.push(piece_letter(p)) + rest);
                lemma_letter_round_trip(p);
                if skip > 0 {
                    assert(s[i] == rt[0]);
                }
                assert(s[i + h] == rt[h]);
                assert(rt[h] == piece_letter(p));
                assert(placement_from(s, i, r, f - skip, w) == placement_from(s, i + h, r, f, w));
                assert(rt.len() == h + 1 + rest.len());
                assert(s.subrange(i + h + 1, i + h + 1 + rest.len()) =~= rest) by {
                    assert forall|k: int| 0 <= k < rest.len() implies #[trigger] s.subrange(
                        i + h + 1,
                        i + h + 1 + rest.len(),
                    )[k] == rest[k] by {
                        assert(s.subrange(i, i + rt.len())[h + 1 + k] == rt[h + 1 + k]);
                        assert(rt[h + 1 + k] == rest[k]);
                    }
                }
                lemma_parse_rank(s, i + h + 1, b, r, f + 1, 0, place(w, p, sq));
            },
        }
    }
}

/// Parsing the text of ranks `r` down to the first toggles in their pieces.
proof fn lemma_parse_ranks(s: Seq<u8>, i: int, b: Board, r: int, w: Seq<u64>)
    requires
        0 <= r < 8,
        0 <= i,
        i + ranks_text(b, r).len() <= s.len(),
        s.subrange(i, i + ranks_text(b, r).len()) == ranks_text(b, r),
    ensures
        placement_from(s, i, r, 0, w) == placement_from(
            s,
            i + ranks_text(b, r).len(),
            0,
            8,
            place_ranks(w, b, r),
        ),
    decreases r,
{
    let rt = rank_text(b, r, 0, 0);
    if r == 0 {
        lemma_parse_rank(s, i, b, 0, 0, 0, w);
    } else {
        let whole = ranks_text(b, r);
        let rest = ranks_text(b, r - 1);
        assert(whole == rt.push(47u8) + rest);
        assert(s.subrange(i, i + rt.len()) =~= rt) by {
            assert forall|k: int| 0 <= k < rt.len() implies #[trigger] s[i + k] == rt[k] by {
                assert(s[i + k] == s.subrange(i, i + whole.len())[k]);
                assert(whole[k] == rt[k]);
            }
        }
        lemma_parse_rank(s, i, b, r, 0, 0, w);
        let w1 = place_rank(w, b, r, 0);
        assert(s[i + rt.len()] == whole[rt.len() as int]);
        assert(placement_from(s, i + rt.len(), r, 8, w1) == placement_from(
            s,
            i + rt.len() + 1,
            r - 1,
            0,
            w1,
        ));
        assert(whole.len() == rt.len() + 1 + rest.len());
        assert(s.subrange(i + rt.len() + 1, i + rt.len() + 1 + rest.len()) =~= rest) by {
            assert forall|k: int| 0 <= k < rest.len() implies #[trigger] s.subrange(
                i + rt.len() + 1,
                i + rt.len() + 1 + rest.len(),
            )[k] == rest[k] by {
                assert(s.subrange(i, i + whole.len())[rt.len() + 1 + k] == whole[rt.len() + 1 + k]);
                assert(whole[rt.len() + 1 + k] == rest[k]);
            }
        }
        lemma_parse_ranks(s, i + rt.len() + 1, b, r - 1, w1);
    }
}

} // verus!

verus! {

/// Role words then color words of `b`.
pub open spec fn word_of(b: Board, k: int) -> u64 {
    if k < 6 {
        b.roles[k].0
    } else {
        b.colors[k - 6].0
    }
}

/// Whether square `t` comes before rank `r`, file `f` in FEN order.
pub open spec fn done(r: int, f: int, t: int) -> bool {
    t / 8 > r || (t / 8 == r && t % 8 < f)
}

/// The words `w` hold the bits of `b` on the squares before rank `r`, file
/// `f` and nothing else.
pub open spec fn agrees(w: Seq<u64>, b: Board, r: int, f: int) -> bool {
    &&& w.len() == 8
    &&& forall|k: int, t: int|
        0 <= k < 8 && 0 <= t < 64 ==> #[trigger] bit(w[k], t) == (done(r, f, t) && bit(
            word_of(b, k),
            t,
        ))
}

proof fn lemma_agree_square(w: Seq<u64>, b: Board, r: int, f: int)
    requires
        b.wf(),
        0 <= r < 8,
        0 <= f < 8,
        agrees(w, b, r, f),
    ensures
        agrees(
            match b.piece_at(r * 8 + f) {
                Some(p) => place(w, p, r * 8 + f),
                None => w,
            },
            b,
            r,
            f + 1,
        ),
{
    let sq = r * 8 + f;
    let w1 = match b.piece_at(sq) {
        Some(p) => place(w, p, sq),
        None => w,
    };
    b.lemma_piece_at(sq);
    assert forall|k: int, t: int| 0 <= k < 8 && 0 <= t < 64 implies #[trigger] bit(w1[k], t) == (
    done(r, f + 1, t) && bit(word_of(b, k), t)) by {
        assert(bit(w[k], t) == (done(r, f, t) && bit(word_of(b, k), t)));
        assert(t == (t / 8) * 8 + t % 8);
        match b.piece_at(sq) {
            Some(p) => {
                let ri = p.role.idx();
                let ci = 6 + p.color.idx();
                lemma_bit_toggle(w[k], sq as u64, t as u64);
                if k == ri || k == ci {
                    assert(w1[k] == w[k] ^ (1u64 << (sq as u64)));
                } else {
                    assert(w1[k] == w[k]);
                }
                if t == sq {
                    if k < 6 {
                        assert(b.roles[k].has(sq) <==> b.role_at(sq) == Some(Role::from_idx(k)));
                    } else {
                        assert(b.colors[k - 6].has(sq) <==> b.color_at(sq) == Some(
                            Color::from_idx(k - 6),
                        ));
                    }
                }
            },
            None => {
                if t == sq {
                    if k < 6 {
                        assert(b.roles[k].has(sq) <==> b.role_at(sq) == Some(Role::from_idx(k)));
                    } else {
                        assert(b.colors[k - 6].has(sq) <==> b.color_at(sq) == Some(
                            Color::from_idx(k - 6),
                        ));
                    }
                }
            },
        }
    }
}

proof fn lemma_agree_rank(w: Seq<u64>, b: Board, r: int, f: int)
    requires
        b.wf(),
        0 <= r < 8,
        0 <= f <= 8,
        agrees(w, b, r, f),
    ensures
        agrees(place_rank(w, b, r, f), b, r, 8),
    decreases 8 - f,
{
    if f < 8 {
        lemma_agree_square(w, b, r, f);
        let w1 = match b.piece_at(r * 8 + f) {
            Some(p) => place(w, p, r * 8 + f),
            None => w,
        };
        lemma_agree_rank(w1, b, r, f + 1);
    }
}

proof fn lemma_agree_ranks(w: Seq<u64>, b: Board, r: int)
    requires
        b.wf(),
        0 <= r < 8,
        agrees(w, b, r, 0),
    ensures
        agrees(place_ranks(w, b, r), b, 0, 8),
    decreases r,
{
    lemma_agree_rank(w, b, r, 0);
    if r > 0 {
        let w1 = place_rank(w, b, r, 0);
        assert forall|k: int, t: int| 0 <= k < 8 && 0 <= t < 64 implies #[trigger] bit(w1[k], t)
            == (done(r - 1, 0, t) && bit(word_of(b, k), t)) by {
            assert(bit(w1[k], t) == (done(r, 8, t) && bit(word_of(b, k), t)));
        }
        lemma_agree_ranks(w1, b, r - 1);
    }
}

/// The placement text of a board parses to the board's role and color words.
proof fn lemma_placement_round_trip(b: Board)
    requires
        b.wf(),
    ensures
        placement(ranks_text(b, 7)) == Some(
            seq![
                b.roles[0].0,
                b.roles[1].0,
                b.roles[2].0,
                b.roles[3].0,
                b.roles[4].0,
                b.roles[5].0,
                b.colors[0].0,
                b.colors[1].0,
            ],
        ),
{
    let t = ranks_text(b, 7);
    let zeros = seq![0u64, 0, 0, 0, 0, 0, 0, 0];
    lemma_ranks_bytes(b, 7);
    assert(t.subrange(0, t.len() as int) =~= t);
    lemma_parse_ranks(t, 0, b, 7, zeros);
    let w = place_ranks(zeros, b, 7);
    assert forall|k: int, u: int| 0 <= k < 8 && 0 <= u < 64 implies #[trigger] bit(zeros[k], u)
        == (done(7, 0, u) && bit(word_of(b, k), u)) by {
        lemma_bit_zero(u as u64);
    }
    lemma_agree_ranks(zeros, b, 7);
    let expected = seq![
        b.roles[0].0,
        b.roles[1].0,
        b.roles[2].0,
        b.roles[3].0,
        b.roles[4].0,
        b.roles[5].0,
        b.colors[0].0,
        b.colors[1].0,
    ];
    assert forall|k: int| 0 <= k < 8 implies w[k] == expected[k] by {
        assert forall|u: int| 0 <= u < 64 implies #[trigger] bit(w[k], u) == bit(word_of(b, k), u)
            by {
            assert(bit(w[k], u) == (done(0, 8, u) && bit(word_of(b, k), u)));
        }
        lemma_bits_equal(w[k], word_of(b, k));
    }
    assert(w =~= expected);
}

/// Parsing the FEN of a well-formed board gives the board back.
pub proof fn lemma_fen_round_trip(b: Board)
    requires
        b.wf(),
    ensures
        parse_fen(fen_text(b)) == Ok::<Board, ParseFenError>(b),
{
    let p = ranks_text(b, 7);
    let t = if b.turn == Color::White {
        seq![119u8]
    } else {
        seq![98u8]
    };
    let c = castles_text(b.castles);
    let e = en_passant_text(b.en_passant);
    let h = decimal(b.halfmoves as nat);
    let f = decimal(b.fullmoves as nat);
    lemma_ranks_bytes(b, 7);
    lemma_castles_round_trip(b.castles);
    lemma_en_passant_round_trip(b.en_passant);
    lemma_decimal(b.halfmoves as nat);
    lemma_decimal(b.fullmoves as nat);
    lemma_number_round_trip(b.halfmoves as nat, 255);
    lemma_number_round_trip(b.fullmoves as nat, 0xFFFF_FFFF);
    lemma_placement_round_trip(b);
    let s = fen_text(b);
    let r5 = h.push(32u8) + f;
    let r4 = e.push(32u8) + r5;
    let r3 = c.push(32u8) + r4;
    let r2 = t.push(32u8) + r3;
    assert(s =~= p.push(32u8) + r2);
    let e0 = Seq::<Seq<u8>>::empty();
    lemma_split_field(p, r2, e0);
    lemma_split_field(t, r3, e0.push(p));
    lemma_split_field(c, r4, e0.push(p).push(t));
    lemma_split_field(e, r5, e0.push(p).push(t).push(c));
    lemma_split_field(h, f, e0.push(p).push(t).push(c).push(e));
    lemma_split_last(f, e0.push(p).push(t).push(c).push(e).push(h));
    let toks = tokens(s);
    assert(toks == e0.push(p).push(t).push(c).push(e).push(h).push(f));
    assert(toks[0] == p && toks[1] == t && toks[2] == c && toks[3] == e && toks[4] == h && toks[5]
        == f);
    assert(t == seq![119u8] ==> b.turn == Color::White);
    let parsed = parse_fen(s)->Ok_0;
    assert(parsed.roles =~= b.roles);
    assert(parsed.colors =~= b.colors);
}

} // verus!
