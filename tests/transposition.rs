use cinder::chess::{Role, Square};
use cinder::moves::{parse_uci, Move};
use cinder::table::Table;
use cinder::transposition::{decode, encode, Kind, Transposition, DecodeTranspositionError};

fn mv(a: u8, b: u8) -> Move {
    Move::new(Square::new(a), Square::new(b), None)
}

#[test]
fn constructors_set_kind_and_fields() {
    let m = mv(12, 28);
    let l = Transposition::lower(-5, 3, m);
    assert_eq!(l.kind(), Kind::Lower);
    assert_eq!(l.score(), -5);
    assert_eq!(l.depth(), 3);
    assert_eq!(l.best(), m);
    assert_eq!(Transposition::upper(7, 31, m).kind(), Kind::Upper);
    assert_eq!(Transposition::exact(0, 0, m).kind(), Kind::Exact);
}

#[test]
fn bounds_contain_the_score() {
    let m = mv(1, 2);
    assert_eq!(Transposition::lower(10, 1, m).bounds(), (10, i16::MAX));
    assert_eq!(Transposition::upper(10, 1, m).bounds(), (i16::MIN, 10));
    assert_eq!(Transposition::exact(10, 1, m).bounds(), (10, 10));
}

#[test]
fn ordering_is_by_depth_then_kind() {
    let m = mv(1, 2);
    assert!(Transposition::lower(0, 4, m).is_greater(&Transposition::exact(0, 3, m)));
    assert!(Transposition::exact(0, 3, m).is_greater(&Transposition::upper(0, 3, m)));
    assert!(Transposition::upper(0, 3, m).is_greater(&Transposition::lower(0, 3, m)));
    assert!(!Transposition::lower(9, 3, m).is_greater(&Transposition::lower(-9, 3, m)));
}

#[test]
fn decoding_encoded_transposition_is_an_identity() {
    let cases = [
        Some((Transposition::exact(-32768, 31, Move::new(Square::new(63), Square::new(0), Some(Role::Queen))), (1u32 << 26) - 1)),
        Some((Transposition::lower(12345, 0, mv(12, 28)), 0)),
        Some((Transposition::upper(-1, 17, Move::new(Square::new(52), Square::new(60), Some(Role::Knight))), 77)),
        None,
    ];
    for o in cases {
        assert_eq!(decode(encode(&o)), Ok(o));
    }
    assert_eq!(encode(&None), 0);
    assert_eq!(decode(0), Ok(None));
}

#[test]
fn encoding_packs_fields() {
    let t = Transposition::exact(-1, 5, mv(12, 28));
    let bits = encode(&Some((t, 3)));
    assert_eq!(bits >> 38, 3);
    assert_eq!((bits >> 23) & 0x7FFF, (12 << 9) | (28 << 3));
    assert_eq!((bits >> 7) & 0xFFFF, 0xFFFF);
    assert_eq!((bits >> 2) & 31, 5);
    assert_eq!(bits & 3, 2);
}

#[test]
fn decoding_fails_on_invalid_kind_or_move() {
    assert_eq!(decode(3), Err(DecodeTranspositionError));
    assert_eq!(decode(1 << 2), Err(DecodeTranspositionError));
    assert_eq!(decode(((12 << 9 | 28 << 3 | 7) << 23) | 1), Err(DecodeTranspositionError));
}

#[test]
fn moves_print_and_parse_in_coordinate_notation() {
    let e2e4 = mv(12, 28);
    assert_eq!(e2e4.to_uci(), "e2e4");
    let promo = Move::new(Square::new(52), Square::new(60), Some(Role::Queen));
    assert_eq!(promo.to_uci(), "e7e8q");
    assert_eq!(parse_uci(b"e2e4"), Some(e2e4));
    assert_eq!(parse_uci(b"e7e8q"), Some(promo));
    assert_eq!(parse_uci(b"e7e8k"), None);
    assert_eq!(parse_uci(b"e2e2"), None);
    assert_eq!(parse_uci(b"i2e4"), None);
    assert_eq!(parse_uci(b"e2e"), None);
    for m in [e2e4, promo, Move::new(Square::new(9), Square::new(0), Some(Role::Bishop))] {
        assert_eq!(parse_uci(m.to_uci().as_bytes()), Some(m));
        assert_eq!(Move::decode(m.encode()), Ok(m));
    }
}

#[test]
fn table_size_is_the_largest_power_of_two_that_fits() {
    assert_eq!(Table::new(1024).capacity(), 128);
    assert_eq!(Table::new(1024).size(), 1024);
    assert_eq!(Table::new(1000).capacity(), 64);
    assert_eq!(Table::new(8).capacity(), 1);
    assert_eq!(Table::new(0).capacity(), 1);
    assert_eq!(Table::new(15).capacity(), 1);
    assert_eq!(Table::new(16).capacity(), 2);
}

#[test]
fn get_returns_the_entry_set_under_the_key() {
    let mut tt = Table::new(1024);
    let h: u64 = 0x1234_5678_9ABC_DABC;
    let e = Transposition::exact(42, 7, mv(12, 28));
    assert_eq!(tt.get(h), None);
    tt.set(h, e);
    assert_eq!(tt.get(h), Some(e));
    for bit in 38..64 {
        assert_eq!(tt.get(h ^ (1u64 << bit)), None);
    }
}

#[test]
fn set_keeps_the_entry_that_ranks_strictly_above() {
    let mut tt = Table::new(64);
    let h: u64 = 0xDEAD_BEEF_0000_0005;
    let deep = Transposition::upper(1, 9, mv(1, 2));
    let shallow = Transposition::exact(2, 8, mv(3, 4));
    tt.set(h, deep);
    tt.set(h, shallow);
    assert_eq!(tt.get(h), Some(deep));
    let same = Transposition::exact(3, 9, mv(5, 6));
    tt.set(h, same);
    assert_eq!(tt.get(h), Some(same));
    let equal = Transposition::exact(4, 9, mv(7, 8));
    tt.set(h, equal);
    assert_eq!(tt.get(h), Some(equal));
}

#[test]
fn set_ignores_the_signature_mismatch() {
    let mut tt = Table::new(64);
    let h: u64 = 0x0000_0040_0000_0003;
    let other = h ^ (1u64 << 63);
    let shallow = Transposition::exact(1, 2, mv(1, 2));
    let deep = Transposition::lower(2, 3, mv(3, 4));
    tt.set(other, shallow);
    assert_eq!(tt.get(h), None);
    tt.set(h, deep);
    assert_eq!(tt.get(h), Some(deep));
    assert_eq!(tt.get(other), None);
}

#[test]
fn set_replaces_a_deeper_entry_with_another_signature() {
    let mut tt = Table::new(64);
    let h: u64 = 0x0000_0040_0000_0003;
    let deep = Transposition::exact(1, 20, mv(1, 2));
    let shallow = Transposition::lower(2, 1, mv(3, 4));
    for bit in 38..64 {
        let other = h ^ (1u64 << bit);
        tt.set(other, deep);
        assert_eq!(tt.get(other), Some(deep));
        tt.set(h, shallow);
        assert_eq!(tt.get(h), Some(shallow));
        assert_eq!(tt.get(other), None);
    }
}

#[test]
fn unset_and_clear_erase_entries() {
    let mut tt = Table::new(256);
    let a: u64 = 0x0123_4567_89AB_CDEF;
    let b: u64 = 0xFEDC_BA98_7654_3210;
    tt.set(a, Transposition::exact(1, 1, mv(1, 2)));
    tt.set(b, Transposition::exact(1, 1, mv(1, 2)));
    tt.unset(a);
    assert_eq!(tt.get(a), None);
    assert!(tt.get(b).is_some());
    tt.clear();
    assert_eq!(tt.get(b), None);
    assert_eq!(tt.capacity(), 32);
}
