use cinder::board::Board;
use cinder::chess::{Bitboard, Castles, Color, Piece, Role, Square};
use cinder::fen::ParseFenError;
use cinder::zobrist;

const KIWIPETE: &str = "r3k2r/p1ppqpb1/bn2pnp1/3PN3/1p2P3/2N2Q1p/PPPBBPPP/R3K2R w KQkq - 0 1";

fn sq(name: &str) -> Square {
    let b = name.as_bytes();
    Square::from_coords(b[0] - b'a', b[1] - b'1')
}

#[test]
fn startpos_has_pieces_on_their_squares() {
    let b = Board::startpos();
    assert!(b.is_valid());
    assert_eq!(b.piece_on(sq("e1")), Some(Piece::new(Role::King, Color::White)));
    assert_eq!(b.piece_on(sq("d8")), Some(Piece::new(Role::Queen, Color::Black)));
    assert_eq!(b.piece_on(sq("g7")), Some(Piece::new(Role::Pawn, Color::Black)));
    assert_eq!(b.piece_on(sq("e4")), None);
    assert_eq!(b.role_on(sq("b1")), Some(Role::Knight));
    assert_eq!(b.color_on(sq("b1")), Some(Color::White));
    assert_eq!(b.color_on(sq("c5")), None);
}

#[test]
fn by_color_by_role_and_by_piece() {
    let b = Board::startpos();
    assert_eq!(b.by_color(Color::White), Bitboard(0x000000000000FFFF));
    assert_eq!(b.by_role(Role::Rook), Bitboard(0x8100000000000081));
    assert_eq!(
        b.by_piece(Piece::new(Role::Rook, Color::Black)),
        Bitboard(0x8100000000000000)
    );
}

#[test]
fn king_returns_square_occupied_by_a_king() {
    let b = Board::startpos();
    assert_eq!(b.king(Color::White), Some(sq("e1")));
    assert_eq!(b.king(Color::Black), Some(sq("e8")));
    let mut e = b.clone();
    e.toggle(Piece::new(Role::King, Color::Black), sq("e8"));
    assert_eq!(e.king(Color::Black), None);
}

#[test]
fn iter_returns_pieces_and_squares() {
    let b = Board::startpos();
    let all = b.iter();
    assert_eq!(all.len(), 32);
    for (p, s) in &all {
        assert_eq!(b.piece_on(*s), Some(*p));
    }
    assert_eq!(all[0], (Piece::new(Role::Pawn, Color::White), sq("a2")));
    assert_eq!(all[31], (Piece::new(Role::King, Color::Black), sq("e8")));
}

#[test]
fn toggle_places_and_removes_a_piece() {
    let mut b = Board::startpos();
    let n = Piece::new(Role::Knight, Color::White);
    b.toggle(n, sq("f3"));
    assert_eq!(b.piece_on(sq("f3")), Some(n));
    assert!(b.is_valid());
    b.toggle(n, sq("f3"));
    assert_eq!(b.piece_on(sq("f3")), None);
    assert_eq!(b, Board::startpos());
}

#[test]
fn toggle_changes_zobrist_by_the_piece_square_key() {
    let mut b = Board::startpos();
    let before = b.zobrist();
    b.toggle(Piece::new(Role::Queen, Color::Black), sq("d4"));
    let key = zobrist::psq(Color::Black, Role::Queen, sq("d4"));
    assert_eq!(b.zobrist(), before ^ key);
    assert_ne!(key, 0);
}

#[test]
fn zobrist_after_four_moves_equals_zobrist_of_the_fen() {
    let mut b = Board::startpos();
    let moves = [
        (Role::Pawn, Color::White, "e2", "e4"),
        (Role::Pawn, Color::Black, "e7", "e5"),
        (Role::Knight, Color::White, "g1", "f3"),
        (Role::Knight, Color::Black, "b8", "c6"),
    ];
    for (r, c, from, to) in moves {
        let p = Piece::new(r, c);
        b.toggle(p, sq(from));
        b.toggle(p, sq(to));
    }
    b.halfmoves = 2;
    b.fullmoves = 3;
    let fen = "r1bqkbnr/pppp1ppp/2n5/4p3/4P3/5N2/PPPP1PPP/RNBQKB1R w KQkq - 2 3";
    let parsed = Board::from_str(fen).unwrap();
    assert_eq!(b.zobrist(), parsed.zobrist());
    assert_eq!(b, parsed);
    assert_eq!(b.to_fen(), fen);
}

#[test]
fn zobrist_counts_turn_en_passant_and_castling() {
    let b = Board::startpos();
    let mut t = b.clone();
    t.turn = Color::Black;
    assert_eq!(t.zobrist(), b.zobrist() ^ zobrist::turn());
    let mut e = b.clone();
    e.en_passant = Some(sq("e3"));
    assert_eq!(e.zobrist(), b.zobrist() ^ zobrist::en_passant(4));
    let mut c = b.clone();
    c.castles = Castles::none();
    assert_eq!(
        c.zobrist(),
        b.zobrist() ^ zobrist::castling(15) ^ zobrist::castling(0)
    );
}

#[test]
fn startpos_prints_its_fen() {
    assert_eq!(
        Board::startpos().to_fen(),
        "rnbqkbnr/pppppppp/8/8/8/8/PPPPPPPP/RNBQKBNR w KQkq - 0 1"
    );
}

#[test]
fn parsing_printed_board_is_an_identity() {
    for fen in [
        "rnbqkbnr/pppppppp/8/8/8/8/PPPPPPPP/RNBQKBNR w KQkq - 0 1",
        KIWIPETE,
        "6k1/5ppp/8/8/8/8/5PPP/R5K1 w - - 0 1",
        "8/8/8/3pP3/8/8/8/4K2k w Kq d6 57 4294967295",
        "r2qk2r/2bn4/8/ppppp2p/P2PP2p/2B3p1/N4P2/R2Q2KR b kq - 57 61",
    ] {
        let b = Board::from_str(fen).unwrap();
        assert!(b.is_valid());
        assert_eq!(b.to_fen(), fen);
        assert_eq!(Board::from_str(&b.to_fen()), Ok(b.clone()));
    }
}

#[test]
fn parsing_startpos_gives_the_start_board() {
    let b = Board::from_str("rnbqkbnr/pppppppp/8/8/8/8/PPPPPPPP/RNBQKBNR w KQkq - 0 1").unwrap();
    assert_eq!(b, Board::startpos());
}

#[test]
fn parsing_accepts_extra_whitespace_and_signs() {
    let b = Board::from_str("  8/8/8/8/8/8/8/4K2k \t b - -  +7\n 12 ").unwrap();
    assert_eq!(b.turn, Color::Black);
    assert_eq!(b.halfmoves, 7);
    assert_eq!(b.fullmoves, 12);
    assert_eq!(b.castles, Castles::none());
}

#[test]
fn parsing_fails_with_each_error() {
    let cases = [
        ("", ParseFenError::InvalidPlacement),
        ("99/8/8/8/8/8/8/8 w - - 0 1", ParseFenError::InvalidPlacement),
        ("8/8/8/8/8/8/8/7x w - - 0 1", ParseFenError::InvalidPlacement),
        ("8/8/8/8/8/8/8/8/p7 w - - 0 1", ParseFenError::InvalidPlacement),
        ("8/8/8/8/8/8/8/8 x - - 0 1", ParseFenError::InvalidSideToMove),
        ("8/8/8/8/8/8/8/8", ParseFenError::InvalidSideToMove),
        ("8/8/8/8/8/8/8/8 w KX - 0 1", ParseFenError::InvalidCastlingRights),
        ("8/8/8/8/8/8/8/8 w", ParseFenError::InvalidCastlingRights),
        ("8/8/8/8/8/8/8/8 w - e9 0 1", ParseFenError::InvalidEnPassantSquare),
        ("8/8/8/8/8/8/8/8 w - - 256 1", ParseFenError::InvalidHalfmoveClock),
        ("8/8/8/8/8/8/8/8 w - - -1 1", ParseFenError::InvalidHalfmoveClock),
        ("8/8/8/8/8/8/8/8 w - - 0 4294967296", ParseFenError::InvalidFullmoveNumber),
        ("8/8/8/8/8/8/8/8 w - - 0", ParseFenError::InvalidFullmoveNumber),
        ("8/8/8/8/8/8/8/8 w - - 0 1 x", ParseFenError::InvalidSyntax),
    ];
    for (fen, e) in cases {
        assert_eq!(Board::from_str(fen), Err(e), "{fen}");
    }
}

#[test]
fn square_accessors() {
    let s = sq("g3");
    assert_eq!(s.0, 22);
    assert_eq!(s.file(), 6);
    assert_eq!(s.rank(), 2);
    assert_eq!(s.flip(), sq("g6"));
}
