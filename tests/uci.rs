use cinder::chess::Color;
use cinder::chess::{Role, Square};
use cinder::moves::Move;
use cinder::uci::{
    bestmove_line, depth_line, handshake, info_line, limits, mate_moves, mate_plies, nodes_line,
    parse_command, set_option, value_line, Command, GoParams, Limits, Options, MATE_SCORE,
};

fn go(line: &str) -> GoParams {
    match parse_command(line.as_bytes()) {
        Command::Go(p) => p,
        c => panic!("not a go: {c:?}"),
    }
}

fn words(ws: &[&str]) -> Vec<Vec<u8>> {
    ws.iter().map(|w| w.as_bytes().to_vec()).collect()
}

#[test]
fn handshake_ends_with_uciok() {
    let lines = handshake();
    assert_eq!(lines.last().map(|s| s.as_str()), Some("uciok"));
    assert!(lines[0].starts_with("id name "));
    assert!(lines[1].starts_with("id author "));
    assert!(lines[2].starts_with("option name Hash type spin"));
    assert!(lines[3].starts_with("option name Threads type spin"));
    let mut out = String::new();
    for l in &lines {
        out.push_str(l);
        out.push('\n');
    }
    assert!(out.ends_with("uciok\n"));
}

#[test]
fn parses_simple_commands() {
    assert_eq!(parse_command(b"uci"), Command::Uci);
    assert_eq!(parse_command(b"  isready \r\n"), Command::IsReady);
    assert_eq!(parse_command(b"ucinewgame"), Command::UciNewGame);
    assert_eq!(parse_command(b"quit"), Command::Quit);
    assert_eq!(parse_command(b"stop"), Command::Stop);
    assert_eq!(parse_command(b"eval"), Command::Eval);
    assert_eq!(parse_command(b"uci now"), Command::Unknown);
    assert_eq!(parse_command(b""), Command::Unknown);
    assert_eq!(parse_command(b"hello"), Command::Unknown);
    assert_eq!(parse_command(b"perft 5"), Command::Perft(5));
    assert_eq!(parse_command(b"perft"), Command::Unknown);
    assert_eq!(
        parse_command(b"setoption name Hash value 64"),
        Command::SetOption(b"Hash".to_vec(), b"64".to_vec())
    );
    assert_eq!(parse_command(b"setoption name Hash"), Command::Unknown);
}

#[test]
fn parses_position_commands() {
    assert_eq!(
        parse_command(b"position startpos"),
        Command::Position(None, vec![])
    );
    assert_eq!(
        parse_command(b"position startpos moves e2e4 e7e5"),
        Command::Position(None, words(&["e2e4", "e7e5"]))
    );
    assert_eq!(
        parse_command(b"position fen 6k1/5ppp/8/8/8/8/5PPP/R5K1 w - - 0 1 moves a1a8"),
        Command::Position(
            Some(words(&["6k1/5ppp/8/8/8/8/5PPP/R5K1", "w", "-", "-", "0", "1"])),
            words(&["a1a8"])
        )
    );
    assert_eq!(parse_command(b"position fen 8/8/8/8/8/8/8/8 w - -"), Command::Unknown);
    assert_eq!(parse_command(b"position startpos e2e4"), Command::Unknown);
}

#[test]
fn go_limits_follow_precedence() {
    let p = go("go wtime 1000 btime 2000 winc 10 movetime 50 nodes 7 depth 3");
    assert_eq!(limits(Color::White, &p), Limits::Clock(1000, 10));
    assert_eq!(limits(Color::Black, &p), Limits::Clock(2000, 0));
    let q = go("go movetime 500 nodes 10 depth 2");
    assert_eq!(limits(Color::White, &q), Limits::Time(500));
    assert_eq!(limits(Color::Black, &go("go btime 9 nodes 10")), Limits::Clock(9, 0));
    assert_eq!(limits(Color::White, &go("go btime 9 nodes 10")), Limits::Nodes(10));
    assert_eq!(limits(Color::White, &go("go depth 2 mate 3 movestogo 4")), Limits::Depth(2));
    assert_eq!(limits(Color::White, &go("go depth 40")), Limits::Depth(31));
    assert_eq!(limits(Color::White, &go("go infinite")), Limits::Unbounded);
    assert_eq!(limits(Color::White, &go("go")), Limits::Unbounded);
    assert!(go("go infinite").infinite);
    assert_eq!(parse_command(b"go depth"), Command::Unknown);
    assert_eq!(parse_command(b"go depth x"), Command::Unknown);
    assert_eq!(parse_command(b"go later"), Command::Unknown);
}

#[test]
fn mate_distance_in_moves() {
    assert_eq!(mate_moves(1), 1);
    assert_eq!(mate_moves(2), 1);
    assert_eq!(mate_moves(3), 2);
    assert_eq!(mate_moves(-1), -1);
    assert_eq!(mate_moves(-2), -1);
    assert_eq!(mate_moves(-3), -2);
    assert_eq!(mate_moves(0), 0);
}

fn mv(a: u8, b: u8) -> Move {
    Move::new(Square::new(a), Square::new(b), None)
}

#[test]
fn info_line_reports_centipawns() {
    let pv = [mv(12, 28), mv(52, 36)];
    assert_eq!(info_line(5, 31, &pv), "info depth 5 score cp 31 pv e2e4 e7e5");
    assert_eq!(info_line(1, -120, &[]), "info depth 1 score cp -120 pv");
}

#[test]
fn info_line_reports_mate_in_moves() {
    let a1a8 = mv(0, 56);
    assert_eq!(info_line(2, MATE_SCORE - 1, &[a1a8]), "info depth 2 score mate 1 pv a1a8");
    assert_eq!(bestmove_line(&a1a8), "bestmove a1a8");
    assert_eq!(info_line(4, -MATE_SCORE + 2, &[]), "info depth 4 score mate -1 pv");
    assert_eq!(info_line(0, -MATE_SCORE, &[]), "info depth 0 score mate 0 pv");
    let promo = Move::new(Square::new(52), Square::new(60), Some(Role::Queen));
    assert_eq!(info_line(3, MATE_SCORE - 3, &[promo]), "info depth 3 score mate 2 pv e7e8q");
}

#[test]
fn mate_plies_reads_both_ends_of_the_range() {
    assert_eq!(mate_plies(MATE_SCORE), Some(0));
    assert_eq!(mate_plies(MATE_SCORE - 5), Some(5));
    assert_eq!(mate_plies(-MATE_SCORE + 4), Some(-4));
    assert_eq!(mate_plies(0), None);
    assert_eq!(mate_plies(1000), None);
}

#[test]
fn bench_and_perft_lines() {
    assert_eq!(nodes_line(250, 197281), "info time 250 nodes 197281 nps 789124");
    assert_eq!(nodes_line(0, 20), "info time 0 nodes 20 nps 20000");
    assert_eq!(
        nodes_line(1, u64::MAX),
        format!("info time 1 nodes {} nps {}", u64::MAX, u64::MAX as u128 * 1000)
    );
    assert_eq!(depth_line(17, 9), "info time 17 depth 9");
}

#[test]
fn value_line_is_signed() {
    assert_eq!(value_line(35), "info value +35");
    assert_eq!(value_line(0), "info value +0");
    assert_eq!(value_line(-7), "info value -7");
    assert_eq!(value_line(i16::MIN), "info value -32768");
}

#[test]
fn go_reads_64_bit_and_signed_values() {
    let p = go("go nodes 5000000000 wtime 18446744073709551615 mate -3 movestogo -5");
    assert_eq!(p.nodes, Some(5_000_000_000));
    assert_eq!(p.wtime, Some(u64::MAX));
    assert_eq!(p.mate, Some(-3));
    assert_eq!(p.movestogo, Some(-5));
    assert_eq!(go("go mate -9223372036854775808").mate, Some(i64::MIN));
    assert_eq!(go("go mate +7").mate, Some(7));
    assert_eq!(parse_command(b"go nodes 18446744073709551616"), Command::Unknown);
    assert_eq!(parse_command(b"go nodes -1"), Command::Unknown);
    assert_eq!(parse_command(b"go mate -9223372036854775809"), Command::Unknown);
    assert_eq!(parse_command(b"go mate -+3"), Command::Unknown);
    assert_eq!(parse_command(b"go mate -"), Command::Unknown);
}

#[test]
fn setoption_rounds_hash_and_bounds_threads() {
    let o = Options::new();
    assert_eq!(o, Options { hash: 16, threads: 1 });
    assert_eq!(set_option(o, b"Hash", b"100").hash, 64);
    assert_eq!(set_option(o, b"hash", b"64").hash, 64);
    assert_eq!(set_option(o, b"HASH", b"1").hash, 1);
    assert_eq!(set_option(o, b"Hash", b"1000000").hash, 32768);
    assert_eq!(set_option(o, b"Hash", b"0"), o);
    assert_eq!(set_option(o, b"Hash", b"x"), o);
    assert_eq!(set_option(o, b"Threads", b"8"), Options { hash: 16, threads: 8 });
    assert_eq!(set_option(o, b"threads", b"100000").threads, 512);
    assert_eq!(set_option(o, b"Threads", b"0"), o);
    assert_eq!(set_option(o, b"Ponder", b"1"), o);
}
