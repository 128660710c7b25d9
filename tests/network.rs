use cinder::damp::Damp;
use cinder::depth::Depth;
use cinder::hidden::Hidden;
use cinder::nnue::{Layout, LoadError, Nnue};

#[test]
fn scalar_squares_the_clipped_inputs() {
    let h = Hidden { bias: 5, weight: [vec![2, -3], vec![1, 4]] };
    assert_eq!(h.scalar(&[300, 10], &[-5, 100]), 339);
    assert_eq!(h.forward(&[300, 10], &[-5, 100]), 339);
}

#[test]
fn scalar_of_zero_inputs_is_the_bias() {
    let h = Hidden { bias: -77, weight: [vec![127; 128], vec![-128; 128]] };
    assert_eq!(h.scalar(&[0; 128], &[0; 128]), -77);
}

#[test]
fn scalar_of_saturated_inputs() {
    let h = Hidden { bias: 0, weight: [vec![127; 128], vec![-128; 128]] };
    let us = [i16::MAX; 128];
    let them = [255i16; 128];
    assert_eq!(h.scalar(&us, &them), 128 * 127 * 127 - 128 * 128 * 127);
}

#[test]
fn damp_scales() {
    let d = Damp { scale: 8 };
    assert_eq!(d.forward(&[17, -17, 8, -8, 7, 0, i32::MIN]), vec![2, -2, 1, -1, 0, 0, i32::MIN / 8]);
}

#[test]
fn damp_scales_by_a_negative_scale() {
    let d = Damp { scale: -3 };
    assert_eq!(d.forward(&[7, -7, 0, i32::MIN, i32::MAX]), vec![-2, 2, 0, 715827882, -715827882]);
    let n = Damp { scale: -1 };
    assert_eq!(n.forward(&[5, -5, i32::MAX]), vec![-5, 5, -i32::MAX]);
}

#[test]
fn depth_saturates_and_round_trips() {
    assert_eq!(Depth::saturate(-3).get(), 0);
    assert_eq!(Depth::saturate(40).get(), 31);
    assert_eq!(Depth::saturate(12).get(), 12);
    for d in 0..=31u8 {
        assert_eq!(Depth::decode(Depth::new(d).encode()), Depth::new(d));
    }
}

fn blob() -> Vec<u8> {
    vec![
        0x01, 0x00, 0xFF, 0xFF, // transformer bias
        0x00, 0x80, 0x34, 0x12, // transformer weights
        0x78, 0x56, 0x34, 0x12, // material weight
        0xFE, 0xFF, 0xFF, 0xFF, // hidden bias
        0x7F, 0x80, 0x01, 0xFF, // hidden weights
    ]
}

const LAYOUT: Layout = Layout { positional: 2, material: 1, features: 1 };

#[test]
fn load_reads_the_little_endian_layout() {
    let n = Nnue::load(&blob(), LAYOUT).unwrap();
    assert_eq!(n.ft().bias, vec![1, -1]);
    assert_eq!(n.ft().weight, vec![-32768, 0x1234]);
    assert_eq!(n.psqt().weight, vec![0x12345678]);
    assert_eq!(n.hidden(0).bias, -2);
    assert_eq!(n.hidden(0).weight, [vec![127, -128], vec![1, -1]]);
}

#[test]
fn load_rejects_short_and_long_streams() {
    let b = blob();
    assert_eq!(Nnue::load(&b[..19], LAYOUT).err(), Some(LoadError::Truncated));
    let mut long = b.clone();
    long.push(0);
    assert_eq!(Nnue::load(&long, LAYOUT).err(), Some(LoadError::Trailing));
}

use cinder::accumulator::Accumulator;
use cinder::nnue::Affine;

fn transformer() -> Affine {
    Affine {
        bias: vec![10, -20, 32767],
        weight: vec![
            1, 2, 3, // feature 0
            -4, 5, -6, // feature 1
            100, 200, 1, // feature 2
        ],
    }
}

#[test]
fn refresh_sums_bias_and_feature_columns() {
    let ft = transformer();
    let a = Accumulator::refresh(&ft, &[0, 2]);
    assert_eq!(a.values, vec![111, 182, i16::MIN + 3]);
    assert_eq!(Accumulator::refresh(&ft, &[]).values, ft.bias);
}

#[test]
fn incremental_updates_match_refresh() {
    let ft = transformer();
    let mut a = Accumulator::refresh(&ft, &[0, 1]);
    a.add(&ft, 2);
    assert_eq!(a, Accumulator::refresh(&ft, &[0, 1, 2]));
    a.remove(&ft, 0);
    assert_eq!(a, Accumulator::refresh(&ft, &[1, 2]));
    a.remove(&ft, 2);
    a.remove(&ft, 1);
    assert_eq!(a, Accumulator::refresh(&ft, &[]));
}

use cinder::accumulator::{feature, FEATURES};
use cinder::board::Board;
use cinder::chess::{Color, Piece, Role, Square};

fn wide_transformer() -> Affine {
    let n = 2;
    let weight = (0..FEATURES * n).map(|i| ((i * 7919) % 601) as i16 - 300).collect();
    Affine { bias: vec![5, -9], weight }
}

#[test]
fn board_accumulator_follows_toggles() {
    let ft = wide_transformer();
    for persp in [Color::White, Color::Black] {
        let mut b = Board::startpos();
        let ksq = b.king(persp).unwrap();
        let mut acc = Accumulator::from_board(&ft, &b, persp, ksq);
        let knight = Piece::new(Role::Knight, Color::White);
        let f3 = Square::new(21);
        b.toggle(knight, f3);
        acc.add(&ft, feature(persp, ksq, knight, f3));
        assert_eq!(acc, Accumulator::from_board(&ft, &b, persp, ksq));
        let pawn = Piece::new(Role::Pawn, Color::Black);
        let e7 = Square::new(52);
        b.toggle(pawn, e7);
        acc.remove(&ft, feature(persp, ksq, pawn, e7));
        assert_eq!(acc, Accumulator::from_board(&ft, &b, persp, ksq));
    }
}

#[test]
fn features_mirror_for_black() {
    let p = Piece::new(Role::Pawn, Color::White);
    let e1 = Square::new(4);
    let e2 = Square::new(12);
    assert_eq!(feature(Color::White, e1, p, e2), 4 * 768 + 12);
    assert_eq!(feature(Color::Black, Square::new(60), Piece::new(Role::Pawn, Color::Black), Square::new(52)), 4 * 768 + 12);
    assert_eq!(feature(Color::Black, e1, p, e2), 60 * 768 + 6 * 64 + 52);
}
