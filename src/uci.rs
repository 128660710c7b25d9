//! The decisions of the UCI front end: reading command lines, choosing the
//! search limits of `go`, and the text of replies.
use crate::chess::Color;
use crate::depth::{Depth, DEPTH_UPPER};
use crate::fen::{
    all_digits, ascii, decimal, digits_value, is_digit, number_field, parse_number, unsigned_digits, push_ascii, push_decimal, split_tokens, tokens, views,
};
use crate::moves::Move;
use crate::text::{ascii_chars, ascii_string};
use vstd::prelude::*;

verus! {

/// The budget of a search.
#[derive(Clone, Copy, Debug, PartialEq, Eq, Hash, Structural)]
pub enum Limits {
    /// Unbounded: the search stops when told to.
    Unbounded,
    /// Stop after completing this depth.
    Depth(u8),
    /// Stop once this many nodes were visited.
    Nodes(u64),
    /// Stop once this many milliseconds passed.
    Time(u64),
    /// Remaining clock time and increment, in milliseconds.
    Clock(u64, u64),
}

/// The parameters of a `go` command.
#[derive(Clone, Copy, Debug, PartialEq, Eq, Hash, Structural)]
pub struct GoParams {
    pub wtime: Option<u64>,
    pub winc: Option<u64>,
    pub btime: Option<u64>,
    pub binc: Option<u64>,
    pub movetime: Option<u64>,
    pub nodes: Option<u64>,
    pub depth: Option<u64>,
    pub mate: Option<i64>,
    pub movestogo: Option<i64>,
    pub infinite: bool,
}

/// A command line of the UCI protocol.
#[derive(Clone, Debug, PartialEq, Eq)]
pub enum Command {
    Uci,
    IsReady,
    UciNewGame,
    Quit,
    Stop,
    Eval,
    /// `position`: the six FEN fields, or none for the starting position,
    /// and the moves to play.
    Position(Option<Vec<Vec<u8>>>, Vec<Vec<u8>>),
    Go(GoParams),
    Perft(u32),
    /// `setoption`: the option name and its value.
    SetOption(Vec<u8>, Vec<u8>),
    /// Anything else, or a command with malformed arguments.
    Unknown,
}

pub open spec fn unwrap_or_zero(o: Option<u64>) -> u64 {
    match o {
        Some(v) => v,
        None => 0,
    }
}

/// The limits of a `go`: the clock of the side to move first, then
/// `movetime`, `nodes`, `depth` (at most the deepest depth), else none.
pub open spec fn limits_spec(turn: Color, p: GoParams) -> Limits {
    if turn == Color::White && p.wtime is Some {
        Limits::Clock(p.wtime->0, unwrap_or_zero(p.winc))
    } else if turn == Color::Black && p.btime is Some {
        Limits::Clock(p.btime->0, unwrap_or_zero(p.binc))
    } else if p.movetime is Some {
        Limits::Time(p.movetime->0)
    } else if p.nodes is Some {
        Limits::Nodes(p.nodes->0)
    } else if p.depth is Some {
        Limits::Depth(
            if p.depth->0 > DEPTH_UPPER {
                DEPTH_UPPER
            } else {
                p.depth->0 as u8
            },
        )
    } else {
        Limits::Unbounded
    }
}

/// Chooses the limits of a `go` for the side `turn`.
pub fn limits(turn: Color, p: &GoParams) -> (r: Limits)
    ensures
        r == limits_spec(turn, *p),
{
    match (turn, p.wtime, p.btime) {
        (Color::White, Some(clock), _) => Limits::Clock(clock, p.winc.unwrap_or(0)),
        (Color::Black, _, Some(clock)) => Limits::Clock(clock, p.binc.unwrap_or(0)),
        _ => {
            if let Some(t) = p.movetime {
                Limits::Time(t)
            } else if let Some(n) = p.nodes {
                Limits::Nodes(n)
            } else if let Some(d) = p.depth {
                let d = if d > DEPTH_UPPER as u64 {
                    DEPTH_UPPER as i64
                } else {
                    d as i64
                };
                Limits::Depth(Depth::saturate(d).get())
            } else {
                Limits::Unbounded
            }
        },
    }
}

/// The word `w` of the protocol as bytes.
pub open spec fn word(w: int) -> Seq<u8> {
    if w == 0 {
        seq![119u8, 116, 105, 109, 101]
    } else if w == 1 {
        seq![119u8, 105, 110, 99]
    } else if w == 2 {
        seq![98u8, 116, 105, 109, 101]
    } else if w == 3 {
        seq![98u8, 105, 110, 99]
    } else if w == 4 {
        seq![109u8, 111, 118, 101, 116, 105, 109, 101]
    } else if w == 5 {
        seq![110u8, 111, 100, 101, 115]
    } else if w == 6 {
        seq![100u8, 101, 112, 116, 104]
    } else if w == 7 {
        seq![109u8, 97, 116, 101]
    } else if w == 8 {
        seq![109u8, 111, 118, 101, 115, 116, 111, 103, 111]
    } else if w == 9 {
        seq![105u8, 110, 102, 105, 110, 105, 116, 101]
    } else if w == 10 {
        seq![117u8, 99, 105]
    } else if w == 11 {
        seq![105u8, 115, 114, 101, 97, 100, 121]
    } else if w == 12 {
        seq![117u8, 99, 105, 110, 101, 119, 103, 97, 109, 101]
    } else if w == 13 {
        seq![113u8, 117, 105, 116]
    } else if w == 14 {
        seq![115u8, 116, 111, 112]
    } else if w == 15 {
        seq![101u8, 118, 97, 108]
    } else if w == 16 {
        seq![112u8, 111, 115, 105, 116, 105, 111, 110]
    } else if w == 17 {
        seq![103u8, 111]
    } else if w == 18 {
        seq![112u8, 101, 114, 102, 116]
    } else if w == 19 {
        seq![115u8, 101, 116, 111, 112, 116, 105, 111, 110]
    } else if w == 20 {
        seq![115u8, 116, 97, 114, 116, 112, 111, 115]
    } else if w == 21 {
        seq![102u8, 101, 110]
    } else if w == 22 {
        seq![109u8, 111, 118, 101, 115]
    } else if w == 23 {
        seq![110u8, 97, 109, 101]
    } else {
        seq![118u8, 97, 108, 117, 101]
    }
}

/// Words of the protocol, by the number that [`word`] gives them.
pub const WTIME: usize = 0;
pub const WINC: usize = 1;
pub const BTIME: usize = 2;
pub const BINC: usize = 3;
pub const MOVETIME: usize = 4;
pub const NODES: usize = 5;
pub const DEPTH: usize = 6;
pub const MATE: usize = 7;
pub const MOVESTOGO: usize = 8;
pub const INFINITE: usize = 9;
pub const UCI: usize = 10;
pub const ISREADY: usize = 11;
pub const UCINEWGAME: usize = 12;
pub const QUIT: usize = 13;
pub const STOP: usize = 14;
pub const EVAL: usize = 15;
pub const POSITION: usize = 16;
pub const GO: usize = 17;
pub const PERFT: usize = 18;
pub const SETOPTION: usize = 19;
pub const STARTPOS: usize = 20;
pub const FEN: usize = 21;
pub const MOVES: usize = 22;
pub const NAME: usize = 23;
pub const VALUE: usize = 24;

fn word_bytes(w: usize) -> (r: Vec<u8>)
    requires
        w <= 24,
    ensures
        r@ == word(w as int),
{
    let r = if w == 0 {
        vec![119u8, 116, 105, 109, 101]
    } else if w == 1 {
        vec![119u8, 105, 110, 99]
    } else if w == 2 {
        vec![98u8, 116, 105, 109, 101]
    } else if w == 3 {
        vec![98u8, 105, 110, 99]
    } else if w == 4 {
        vec![109u8, 111, 118, 101, 116, 105, 109, 101]
    } else if w == 5 {
        vec![110u8, 111, 100, 101, 115]
    } else if w == 6 {
        vec![100u8, 101, 112, 116, 104]
    } else if w == 7 {
        vec![109u8, 97, 116, 101]
    } else if w == 8 {
        vec![109u8, 111, 118, 101, 115, 116, 111, 103, 111]
    } else if w == 9 {
        vec![105u8, 110, 102, 105, 110, 105, 116, 101]
    } else if w == 10 {
        vec![117u8, 99, 105]
    } else if w == 11 {
        vec![105u8, 115, 114, 101, 97, 100, 121]
    } else if w == 12 {
        vec![117u8, 99, 105, 110, 101, 119, 103, 97, 109, 101]
    } else if w == 13 {
        vec![113u8, 117, 105, 116]
    } else if w == 14 {
        vec![115u8, 116, 111, 112]
    } else if w == 15 {
        vec![101u8, 118, 97, 108]
    } else if w == 16 {
        vec![112u8, 111, 115, 105, 116, 105, 111, 110]
    } else if w == 17 {
        vec![103u8, 111]
    } else if w == 18 {
        vec![112u8, 101, 114, 102, 116]
    } else if w == 19 {
        vec![115u8, 101, 116, 111, 112, 116, 105, 111, 110]
    } else if w == 20 {
        vec![115u8, 116, 97, 114, 116, 112, 111, 115]
    } else if w == 21 {
        vec![102u8, 101, 110]
    } else if w == 22 {
        vec![109u8, 111, 118, 101, 115]
    } else if w == 23 {
        vec![110u8, 97, 109, 101]
    } else {
        vec![118u8, 97, 108, 117, 101]
    };
    assert(r@ =~= word(w as int));
    r
}

/// Whether `t` is the word `w`.
fn is_word(t: &Vec<u8>, w: usize) -> (r: bool)
    requires
        w <= 24,
    ensures
        r == (t@ == word(w as int)),
{
    let k = word_bytes(w);
    if t.len() != k.len() {
        assert(t@.len() != k@.len());
        return false;
    }
    let mut i: usize = 0;
    while i < t.len()
        invariant
            i <= t@.len(),
            t@.len() == k@.len(),
            k@ == word(w as int),
            forall|j: int| 0 <= j < i ==> t@[j] == k@[j],
        decreases t@.len() - i,
    {
        if t[i] != k[i] {
            assert(t@[i as int] != k@[i as int]);
            return false;
        }
        i = i + 1;
    }
    assert(t@ =~= k@);
    true
}

/// The number of a `go` key: `wtime` to `movestogo` are `0..9`.
pub open spec fn go_key(t: Seq<u8>) -> Option<int> {
    if t == word(0) {
        Some(0)
    } else if t == word(1) {
        Some(1)
    } else if t == word(2) {
        Some(2)
    } else if t == word(3) {
        Some(3)
    } else if t == word(4) {
        Some(4)
    } else if t == word(5) {
        Some(5)
    } else if t == word(6) {
        Some(6)
    } else if t == word(7) {
        Some(7)
    } else if t == word(8) {
        Some(8)
    } else {
        None
    }
}

/// `p` with the parameter of key `k` set to `v`.
pub open spec fn with_param(p: GoParams, k: int, v: int) -> GoParams {
    if k == 0 {
        GoParams { wtime: Some(v as u64), ..p }
    } else if k == 1 {
        GoParams { winc: Some(v as u64), ..p }
    } else if k == 2 {
        GoParams { btime: Some(v as u64), ..p }
    } else if k == 3 {
        GoParams { binc: Some(v as u64), ..p }
    } else if k == 4 {
        GoParams { movetime: Some(v as u64), ..p }
    } else if k == 5 {
        GoParams { nodes: Some(v as u64), ..p }
    } else if k == 6 {
        GoParams { depth: Some(v as u64), ..p }
    } else if k == 7 {
        GoParams { mate: Some(v as i64), ..p }
    } else {
        GoParams { movestogo: Some(v as i64), ..p }
    }
}

/// A signed decimal number of `i64`: an optional `-` or `+`, then digits.
pub open spec fn signed_field(t: Seq<u8>) -> Option<int> {
    if t.len() > 0 && t[0] == 45 {
        let d = t.drop_first();
        if d.len() > 0 && all_digits(d) && digits_value(d) <= 0x8000_0000_0000_0000 {
            Some(-digits_value(d))
        } else {
            None
        }
    } else {
        number_field(t, 0x7FFF_FFFF_FFFF_FFFF)
    }
}

/// The value of a `go` key `k` written as `t`: `mate` and `movestogo` are
/// signed, the others unsigned, each within its 64-bit range.
pub open spec fn go_value(k: int, t: Seq<u8>) -> Option<int> {
    if k >= 7 {
        signed_field(t)
    } else {
        number_field(t, 0xFFFF_FFFF_FFFF_FFFF)
    }
}

/// The parameters read from token `i` of `t` on, over `p`: `infinite`, or
/// a key followed by a number; a key given twice keeps its last value.
pub open spec fn go_from(t: Seq<Seq<u8>>, i: int, p: GoParams) -> Option<GoParams>
    decreases t.len() - i,
{
    if i >= t.len() || i < 0 {
        Some(p)
    } else if t[i] == word(9) {
        go_from(t, i + 1, GoParams { infinite: true, ..p })
    } else {
        match go_key(t[i]) {
            Some(k) => if i + 1 < t.len() && go_value(k, t[i + 1]) is Some {
                go_from(t, i + 2, with_param(p, k, go_value(k, t[i + 1])->0))
            } else {
                None
            },
            None => None,
        }
    }
}

pub open spec fn no_params() -> GoParams {
    GoParams {
        wtime: None,
        winc: None,
        btime: None,
        binc: None,
        movetime: None,
        nodes: None,
        depth: None,
        mate: None,
        movestogo: None,
        infinite: false,
    }
}

fn key_of(t: &Vec<u8>) -> (r: Option<usize>)
    ensures
        match r {
            Some(k) => go_key(t@) == Some(k as int),
            None => go_key(t@) is None,
        },
{
    let mut k: usize = 0;
    while k < 9
        invariant
            k <= 9,
            forall|j: int| 0 <= j < k ==> t@ != word(j),
        decreases 9 - k,
    {
        if is_word(t, k) {
            return Some(k);
        }
        k = k + 1;
    }
    None
}

fn set_param(p: &mut GoParams, k: usize, v: i128)
    requires
        k < 9,
        k < 7 ==> 0 <= v <= 0xFFFF_FFFF_FFFF_FFFF,
        k >= 7 ==> -0x8000_0000_0000_0000 <= v <= 0x7FFF_FFFF_FFFF_FFFF,
    ensures
        *final(p) == with_param(*old(p), k as int, v as int),
{
    if k == 0 {
        p.wtime = Some(v as u64);
    } else if k == 1 {
        p.winc = Some(v as u64);
    } else if k == 2 {
        p.btime = Some(v as u64);
    } else if k == 3 {
        p.binc = Some(v as u64);
    } else if k == 4 {
        p.movetime = Some(v as u64);
    } else if k == 5 {
        p.nodes = Some(v as u64);
    } else if k == 6 {
        p.depth = Some(v as u64);
    } else if k == 7 {
        p.mate = Some(v as i64);
    } else {
        p.movestogo = Some(v as i64);
    }
}

/// Reads a signed decimal number of `i64`.
pub fn parse_signed(t: &[u8]) -> (r: Option<i64>)
    ensures
        match r {
            Some(v) => signed_field(t@) == Some(v as int),
            None => signed_field(t@) is None,
        },
{
    if t.len() > 0 && t[0] == 45 {
        let mut rest: Vec<u8> = Vec::new();
        let mut i: usize = 1;
        while i < t.len()
            invariant
                1 <= i <= t@.len(),
                rest@ == t@.subrange(1, i as int),
            decreases t@.len() - i,
        {
            rest.push(t[i]);
            assert(t@.subrange(1, i + 1) =~= t@.subrange(1, i as int).push(t@[i as int]));
            i = i + 1;
        }
        assert(rest@ =~= t@.drop_first());
        if rest.len() > 0 && rest[0] == 43 {
            assert(!is_digit(rest@[0]));
            return None;
        }
        assert(unsigned_digits(rest@) == rest@);
        match parse_number(rest.as_slice(), 0x8000_0000_0000_0000) {
            Some(v) => {
                let r: i64 = if v == 0x8000_0000_0000_0000 {
                    i64::MIN
                } else {
                    -(v as i64)
                };
                Some(r)
            },
            None => None,
        }
    } else {
        match parse_number(t, 0x7FFF_FFFF_FFFF_FFFF) {
            Some(v) => Some(v as i64),
            None => None,
        }
    }
}

fn parse_value(k: usize, t: &[u8]) -> (r: Option<i128>)
    requires
        k < 9,
    ensures
        match r {
            Some(v) => go_value(k as int, t@) == Some(v as int) && (k < 7 ==> 0 <= v
                <= 0xFFFF_FFFF_FFFF_FFFF) && (k >= 7 ==> -0x8000_0000_0000_0000 <= v
                <= 0x7FFF_FFFF_FFFF_FFFF),
            None => go_value(k as int, t@) is None,
        },
{
    if k >= 7 {
        match parse_signed(t) {
            Some(v) => Some(v as i128),
            None => None,
        }
    } else {
        match parse_number(t, 0xFFFF_FFFF_FFFF_FFFF) {
            Some(v) => Some(v as i128),
            None => None,
        }
    }
}

/// Reads the parameters of a `go` from the tokens after `go`, starting at
/// token `start`.
pub fn parse_go(t: &Vec<Vec<u8>>, start: usize) -> (r: Option<GoParams>)
    ensures
        r == go_from(views(t@), start as int, no_params()),
{
    let mut p = GoParams {
        wtime: None,
        winc: None,
        btime: None,
        binc: None,
        movetime: None,
        nodes: None,
        depth: None,
        mate: None,
        movestogo: None,
        infinite: false,
    };
    let mut i: usize = start;
    while i < t.len()
        invariant
            go_from(views(t@), i as int, p) == go_from(views(t@), start as int, no_params()),
        decreases t@.len() - i,
    {
        assert(views(t@)[i as int] == t@[i as int]@);
        if is_word(&t[i], INFINITE) {
            p.infinite = true;
            i = i + 1;
        } else {
            match key_of(&t[i]) {
                Some(k) => {
                    if i + 1 >= t.len() {
                        return None;
                    }
                    assert(views(t@)[i + 1] == t@[i + 1]@);
                    match parse_value(k, t[i + 1].as_slice()) {
                        Some(v) => {
                            set_param(&mut p, k, v);
                            i = i + 2;
                        },
                        None => {
                            return None;
                        },
                    }
                },
                None => {
                    return None;
                },
            }
        }
    }
    Some(p)
}

/// The UCI mate distance in moves of a mate in `plies`: half the plies,
/// rounded away from zero, keeping the sign.
pub open spec fn mate_moves_spec(plies: int) -> int {
    if plies > 0 {
        (plies + 1) / 2
    } else {
        -((-plies + 1) / 2)
    }
}

/// The UCI mate distance in moves of a mate in `plies`.
pub fn mate_moves(plies: i16) -> (r: i16)
    ensures
        r == mate_moves_spec(plies as int),
{
    if plies > 0 {
        ((plies as i32 + 1) / 2) as i16
    } else {
        (-((-(plies as i32) + 1) / 2)) as i16
    }
}

/// The command that the tokens `t` of a line make, by its first word.
pub open spec fn command_word(t: Seq<Seq<u8>>) -> Option<int> {
    if t.len() == 0 {
        None
    } else if t[0] == word(10) {
        Some(10)
    } else if t[0] == word(11) {
        Some(11)
    } else if t[0] == word(12) {
        Some(12)
    } else if t[0] == word(13) {
        Some(13)
    } else if t[0] == word(14) {
        Some(14)
    } else if t[0] == word(15) {
        Some(15)
    } else if t[0] == word(16) {
        Some(16)
    } else if t[0] == word(17) {
        Some(17)
    } else if t[0] == word(18) {
        Some(18)
    } else if t[0] == word(19) {
        Some(19)
    } else {
        None
    }
}

/// The index of the first token from `i` on that is `moves`, or the length.
pub open spec fn moves_at(t: Seq<Seq<u8>>, i: int) -> int
    decreases t.len() - i,
{
    if i >= t.len() || i < 0 {
        t.len() as int
    } else if t[i] == word(22) {
        i
    } else {
        moves_at(t, i + 1)
    }
}

fn first_moves(t: &Vec<Vec<u8>>, from: usize) -> (r: usize)
    requires
        from <= t@.len(),
    ensures
        r == moves_at(views(t@), from as int),
        from <= r <= t@.len(),
{
    let mut i = from;
    while i < t.len()
        invariant
            from <= i <= t@.len(),
            moves_at(views(t@), i as int) == moves_at(views(t@), from as int),
        decreases t@.len() - i,
    {
        assert(views(t@)[i as int] == t@[i as int]@);
        if is_word(&t[i], MOVES) {
            return i;
        }
        i = i + 1;
    }
    i
}

fn copy_range(t: &Vec<Vec<u8>>, from: usize, to: usize) -> (r: Vec<Vec<u8>>)
    requires
        from <= to <= t@.len(),
    ensures
        views(r@) == views(t@).subrange(from as int, to as int),
{
    let mut r: Vec<Vec<u8>> = Vec::new();
    let mut i = from;
    while i < to
        invariant
            from <= i <= to,
            to <= t@.len(),
            views(r@) == views(t@).subrange(from as int, i as int),
        decreases to - i,
    {
        let ghost before = views(r@);
        r.push(t[i].clone());
        assert(views(r@) =~= before.push(t@[i as int]@));
        assert(views(t@).subrange(from as int, i + 1) =~= views(t@).subrange(from as int, i as int).push(views(t@)[i as int]));
        i = i + 1;
    }
    r
}

fn command_of(t: &Vec<u8>) -> (r: Option<usize>)
    ensures
        match r {
            Some(w) => UCI <= w <= SETOPTION && t@ == word(w as int) && forall|j: int|
                UCI <= j < w ==> t@ != word(j),
            None => forall|j: int| UCI <= j <= SETOPTION ==> t@ != word(j),
        },
{
    let mut w: usize = UCI;
    while w <= SETOPTION
        invariant
            UCI <= w <= SETOPTION + 1,
            forall|j: int| UCI <= j < w ==> t@ != word(j),
        decreases SETOPTION + 1 - w,
    {
        if is_word(t, w) {
            return Some(w);
        }
        w = w + 1;
    }
    None
}

/// Reads a command line.
///
/// `position` takes `startpos`, or `fen` and exactly six fields, then
/// optionally `moves` and the moves; `go` takes its parameters; `perft` a
/// depth; `setoption` takes `name <N> value <V>`. The commands without
/// arguments take none.
pub fn parse_command(line: &[u8]) -> (r: Command)
    ensures
        ({
            let t = tokens(line@);
            match command_word(t) {
                None => r == Command::Unknown,
                Some(w) => if 10 <= w <= 15 {
                    r == (if t.len() != 1 {
                        Command::Unknown
                    } else if w == 10 {
                        Command::Uci
                    } else if w == 11 {
                        Command::IsReady
                    } else if w == 12 {
                        Command::UciNewGame
                    } else if w == 13 {
                        Command::Quit
                    } else if w == 14 {
                        Command::Stop
                    } else {
                        Command::Eval
                    })
                } else if w == 17 {
                    r == match go_from(t, 1, no_params()) {
                        Some(p) => Command::Go(p),
                        None => Command::Unknown,
                    }
                } else if w == 18 {
                    r == if t.len() == 2 && number_field(t[1], 0xFFFF_FFFF) is Some {
                        Command::Perft(number_field(t[1], 0xFFFF_FFFF)->0 as u32)
                    } else {
                        Command::Unknown
                    }
                } else if w == 19 {
                    if t.len() == 5 && t[1] == word(23) && t[3] == word(24) {
                        r matches Command::SetOption(n, v) && n@ == t[2] && v@ == t[4]
                    } else {
                        r == Command::Unknown
                    }
                } else {
                    let m = moves_at(t, 1);
                    let well = m == t.len() || m + 1 <= t.len();
                    if t.len() >= 2 && t[1] == word(20) && m == 2 {
                        r matches Command::Position(None, mv) && views(mv@) == t.subrange(
                            if t.len() >= 3 { 3 } else { t.len() as int },
                            t.len() as int,
                        )
                    } else if t.len() >= 8 && t[1] == word(21) && m == 8 {
                        r matches Command::Position(Some(f), mv) && views(f@) == t.subrange(2, 8)
                            && views(mv@) == t.subrange(
                            if t.len() >= 9 { 9 } else { t.len() as int },
                            t.len() as int,
                        )
                    } else {
                        r == Command::Unknown
                    }
                },
            }
        }),
{
    let t = split_tokens(line);
    let ghost tv = views(t@);
    assert(tv.len() == t@.len());
    if t.len() == 0 {
        return Command::Unknown;
    }
    assert(tv[0] == t@[0]@);
    let w = match command_of(&t[0]) {
        Some(w) => w,
        None => {
            return Command::Unknown;
        },
    };
    assert(command_word(tv) == Some(w as int));
    if w <= EVAL {
        if t.len() != 1 {
            return Command::Unknown;
        }
        return if w == UCI {
            Command::Uci
        } else if w == ISREADY {
            Command::IsReady
        } else if w == UCINEWGAME {
            Command::UciNewGame
        } else if w == QUIT {
            Command::Quit
        } else if w == STOP {
            Command::Stop
        } else {
            Command::Eval
        };
    }
    if w == GO {
        return match parse_go(&t, 1) {
            Some(p) => Command::Go(p),
            None => Command::Unknown,
        };
    }
    if w == PERFT {
        if t.len() != 2 {
            return Command::Unknown;
        }
        assert(tv[1] == t@[1]@);
        return match parse_number(t[1].as_slice(), 0xFFFF_FFFF) {
            Some(d) => Command::Perft(d as u32),
            None => Command::Unknown,
        };
    }
    if w == SETOPTION {
        if t.len() != 5 {
            return Command::Unknown;
        }
        assert(tv[1] == t@[1]@ && tv[2] == t@[2]@ && tv[3] == t@[3]@ && tv[4] == t@[4]@);
        if is_word(&t[1], NAME) && is_word(&t[3], VALUE) {
            return Command::SetOption(t[2].clone(), t[4].clone());
        }
        return Command::Unknown;
    }
    let m = first_moves(&t, 1);
    if t.len() >= 2 && is_word(&t[1], STARTPOS) && m == 2 {
        assert(tv[1] == t@[1]@);
        let mv = if t.len() >= 3 {
            copy_range(&t, 3, t.len())
        } else {
            Vec::new()
        };
        proof {
            if t.len() < 3 {
                assert(views(mv@) =~= tv.subrange(tv.len() as int, tv.len() as int));
            }
        }
        return Command::Position(None, mv);
    }
    assert(t.len() >= 2 ==> tv[1] == t@[1]@);
    if t.len() >= 8 && is_word(&t[1], FEN) && m == 8 {
        let f = copy_range(&t, 2, 8);
        let start = if t.len() >= 9 {
            9
        } else {
            t.len()
        };
        let mv = copy_range(&t, start, t.len());
        return Command::Position(Some(f), mv);
    }
    Command::Unknown
}

/// The lines of the reply to `uci`: name, author, the `Hash` and `Threads`
/// options, then `uciok`.
pub open spec fn handshake_text() -> Seq<Seq<u8>> {
    seq![
        seq![105u8, 100, 32, 110, 97, 109, 101, 32, 67, 105, 110, 100, 101, 114, 32, 48, 46, 49, 46, 48],
        seq![105u8, 100, 32, 97, 117, 116, 104, 111, 114, 32, 66, 114, 117, 110, 111, 32, 68, 117, 116, 114, 97],
        seq![111u8, 112, 116, 105, 111, 110, 32, 110, 97, 109, 101, 32, 72, 97, 115, 104, 32, 116, 121, 112, 101, 32, 115, 112, 105, 110, 32, 100, 101, 102, 97, 117, 108, 116, 32, 49, 54, 32, 109, 105, 110, 32, 49, 32, 109, 97, 120, 32, 51, 50, 55, 54, 56],
        seq![111u8, 112, 116, 105, 111, 110, 32, 110, 97, 109, 101, 32, 84, 104, 114, 101, 97, 100, 115, 32, 116, 121, 112, 101, 32, 115, 112, 105, 110, 32, 100, 101, 102, 97, 117, 108, 116, 32, 49, 32, 109, 105, 110, 32, 49, 32, 109, 97, 120, 32, 53, 49, 50],
        seq![117u8, 99, 105, 111, 107],
    ]
}

/// The reply to `uci`: identification, the options, then `uciok`.
pub fn handshake() -> (r: Vec<String>)
    ensures
        r@.len() == handshake_text().len(),
        forall|i: int| 0 <= i < r@.len() ==> #[trigger] r@[i]@ == ascii_chars(handshake_text()[i]),
        r@[4]@ == ascii_chars(seq![117u8, 99, 105, 111, 107]),
{
    let mut r: Vec<String> = Vec::new();
    let l0 = vec![105u8, 100, 32, 110, 97, 109, 101, 32, 67, 105, 110, 100, 101, 114, 32, 48, 46, 49, 46, 48];
    assert(l0@ =~= handshake_text()[0]);
    r.push(line_of(l0));
    let l1 = vec![105u8, 100, 32, 97, 117, 116, 104, 111, 114, 32, 66, 114, 117, 110, 111, 32, 68, 117, 116, 114, 97];
    assert(l1@ =~= handshake_text()[1]);
    r.push(line_of(l1));
    let l2 = vec![111u8, 112, 116, 105, 111, 110, 32, 110, 97, 109, 101, 32, 72, 97, 115, 104, 32, 116, 121, 112, 101, 32, 115, 112, 105, 110, 32, 100, 101, 102, 97, 117, 108, 116, 32, 49, 54, 32, 109, 105, 110, 32, 49, 32, 109, 97, 120, 32, 51, 50, 55, 54, 56];
    assert(l2@ =~= handshake_text()[2]);
    r.push(line_of(l2));
    let l3 = vec![111u8, 112, 116, 105, 111, 110, 32, 110, 97, 109, 101, 32, 84, 104, 114, 101, 97, 100, 115, 32, 116, 121, 112, 101, 32, 115, 112, 105, 110, 32, 100, 101, 102, 97, 117, 108, 116, 32, 49, 32, 109, 105, 110, 32, 49, 32, 109, 97, 120, 32, 53, 49, 50];
    assert(l3@ =~= handshake_text()[3]);
    r.push(line_of(l3));
    let l4 = vec![117u8, 99, 105, 111, 107];
    assert(l4@ =~= handshake_text()[4]);
    r.push(line_of(l4));
    assert(handshake_text()[4] =~= seq![117u8, 99, 105, 111, 107]);
    r
}

fn line_of(b: Vec<u8>) -> (r: String)
    requires
        forall|i: int| 0 <= i < b@.len() ==> b@[i] < 128,
    ensures
        r@ == ascii_chars(b@),
{
    ascii_string(b)
}

} // verus!

verus! {

/// The score of a forced mate for the side to move in zero plies.
pub const MATE_SCORE: i16 = 32767;

/// The longest mate distance in plies that a score can carry.
pub const MAX_PLY: i16 = 128;

/// The distance in plies of the mate that `score` announces, positive when
/// the side to move mates: `MATE_SCORE - k` is a mate in `k`, `-MATE_SCORE + k` being
/// mated in `k`.
pub open spec fn mate_plies_spec(score: int) -> Option<int> {
    if score > MATE_SCORE - MAX_PLY {
        Some(MATE_SCORE - score)
    } else if score < -(MATE_SCORE - MAX_PLY) {
        Some(-(score + MATE_SCORE))
    } else {
        None
    }
}

/// The distance in plies of the mate that `score` announces, if any.
pub fn mate_plies(score: i16) -> (r: Option<i16>)
    ensures
        match r {
            Some(p) => mate_plies_spec(score as int) == Some(p as int),
            None => mate_plies_spec(score as int) is None,
        },
{
    if score > MATE_SCORE - MAX_PLY {
        Some(MATE_SCORE - score)
    } else if score < -(MATE_SCORE - MAX_PLY) {
        Some(-(score + MATE_SCORE))
    } else {
        None
    }
}

/// `v` in decimal, with a leading `-` when negative.
pub open spec fn signed_decimal(v: int) -> Seq<u8> {
    if v < 0 {
        seq![45u8] + decimal((-v) as nat)
    } else {
        decimal(v as nat)
    }
}

/// The moves in coordinate notation, each after a space.
pub open spec fn moves_text(pv: Seq<Move>) -> Seq<u8>
    decreases pv.len(),
{
    if pv.len() == 0 {
        Seq::empty()
    } else {
        moves_text(pv.drop_last()).push(32u8) + pv.last().uci()
    }
}

/// The line reporting a finished search: `info depth D score cp V pv ...`,
/// or `score mate M` with `M` the mate distance in moves.
pub open spec fn info_text(depth: u8, score: i16, pv: Seq<Move>) -> Seq<u8> {
    word_text(26) + decimal(depth as nat) + match mate_plies_spec(score as int) {
        None => word_text(27) + signed_decimal(score as int),
        Some(p) => word_text(28) + signed_decimal(mate_moves_spec(p)),
    } + word_text(29) + moves_text(pv)
}

/// Fixed pieces of the replies.
pub open spec fn word_text(w: int) -> Seq<u8> {
    if w == 26 {
        seq![105u8, 110, 102, 111, 32, 100, 101, 112, 116, 104, 32]
    } else if w == 27 {
        seq![32u8, 115, 99, 111, 114, 101, 32, 99, 112, 32]
    } else if w == 28 {
        seq![32u8, 115, 99, 111, 114, 101, 32, 109, 97, 116, 101, 32]
    } else if w == 29 {
        seq![32u8, 112, 118]
    } else if w == 30 {
        seq![98u8, 101, 115, 116, 109, 111, 118, 101, 32]
    } else if w == 31 {
        seq![105u8, 110, 102, 111, 32, 116, 105, 109, 101, 32]
    } else if w == 32 {
        seq![32u8, 110, 111, 100, 101, 115, 32]
    } else if w == 33 {
        seq![32u8, 110, 112, 115, 32]
    } else if w == 34 {
        seq![32u8, 100, 101, 112, 116, 104, 32]
    } else {
        seq![105u8, 110, 102, 111, 32, 118, 97, 108, 117, 101, 32]
    }
}

fn push_word(out: &mut Vec<u8>, w: usize)
    requires
        26 <= w <= 35,
        ascii(old(out)@),
    ensures
        final(out)@ == old(out)@ + word_text(w as int),
        ascii(final(out)@),
{
    let b = if w == 26 {
        vec![105u8, 110, 102, 111, 32, 100, 101, 112, 116, 104, 32]
    } else if w == 27 {
        vec![32u8, 115, 99, 111, 114, 101, 32, 99, 112, 32]
    } else if w == 28 {
        vec![32u8, 115, 99, 111, 114, 101, 32, 109, 97, 116, 101, 32]
    } else if w == 29 {
        vec![32u8, 112, 118]
    } else if w == 30 {
        vec![98u8, 101, 115, 116, 109, 111, 118, 101, 32]
    } else if w == 31 {
        vec![105u8, 110, 102, 111, 32, 116, 105, 109, 101, 32]
    } else if w == 32 {
        vec![32u8, 110, 111, 100, 101, 115, 32]
    } else if w == 33 {
        vec![32u8, 110, 112, 115, 32]
    } else if w == 34 {
        vec![32u8, 100, 101, 112, 116, 104, 32]
    } else {
        vec![105u8, 110, 102, 111, 32, 118, 97, 108, 117, 101, 32]
    };
    assert(b@ =~= word_text(w as int));
    push_all(out, &b);
}

fn push_all(out: &mut Vec<u8>, b: &Vec<u8>)
    requires
        ascii(old(out)@),
        ascii(b@),
    ensures
        final(out)@ == old(out)@ + b@,
        ascii(final(out)@),
{
    let ghost start = out@;
    let mut i: usize = 0;
    while i < b.len()
        invariant
            i <= b@.len(),
            ascii(b@),
            ascii(out@),
            out@ == start + b@.subrange(0, i as int),
        decreases b@.len() - i,
    {
        push_ascii(out, b[i]);
        assert(b@.subrange(0, i + 1) =~= b@.subrange(0, i as int).push(b@[i as int]));
        i = i + 1;
    }
    assert(b@.subrange(0, b@.len() as int) =~= b@);
}

fn push_signed(out: &mut Vec<u8>, v: i32)
    requires
        ascii(old(out)@),
    ensures
        final(out)@ == old(out)@ + signed_decimal(v as int),
        ascii(final(out)@),
{
    let ghost start = out@;
    if v < 0 {
        push_ascii(out, 45);
        push_decimal(out, (-(v as i64)) as u128);
        assert(out@ =~= start + signed_decimal(v as int));
    } else {
        push_decimal(out, v as u128);
    }
}

/// The line reporting a finished search of `depth` with `score` and the
/// principal variation `pv`.
pub fn info_line(depth: u8, score: i16, pv: &[Move]) -> (r: String)
    requires
        forall|i: int| 0 <= i < pv@.len() ==> (#[trigger] pv@[i]).wf(),
    ensures
        r@ == ascii_chars(info_text(depth, score, pv@)),
{
    let mut out: Vec<u8> = Vec::new();
    push_word(&mut out, 26);
    push_decimal(&mut out, depth as u128);
    let ghost head = out@;
    match mate_plies(score) {
        None => {
            push_word(&mut out, 27);
            push_signed(&mut out, score as i32);
        },
        Some(p) => {
            push_word(&mut out, 28);
            push_signed(&mut out, mate_moves(p) as i32);
        },
    }
    let ghost scored = out@;
    push_word(&mut out, 29);
    let ghost before_moves = out@;
    let mut i: usize = 0;
    while i < pv.len()
        invariant
            i <= pv@.len(),
            forall|j: int| 0 <= j < pv@.len() ==> (#[trigger] pv@[j]).wf(),
            ascii(out@),
            out@ == before_moves + moves_text(pv@.subrange(0, i as int)),
        decreases pv@.len() - i,
    {
        let ghost prev = out@;
        push_ascii(&mut out, 32);
        let m = pv[i].uci_bytes();
        proof {
            assert forall|k: int| 0 <= k < m@.len() implies #[trigger] m@[k] < 128 by {
                assert(m@ == pv@[i as int].uci());
            }
        }
        push_all(&mut out, &m);
        proof {
            let s = pv@.subrange(0, i + 1);
            assert(s.drop_last() =~= pv@.subrange(0, i as int));
            assert(out@ =~= before_moves + moves_text(s));
        }
        i = i + 1;
    }
    assert(pv@.subrange(0, pv@.len() as int) =~= pv@);
    assert(out@ =~= info_text(depth, score, pv@));
    ascii_string(out)
}

/// The line naming the move to play: `bestmove M`.
pub fn bestmove_line(m: &Move) -> (r: String)
    requires
        m.wf(),
    ensures
        r@ == ascii_chars(word_text(30) + m.uci()),
{
    let mut out: Vec<u8> = Vec::new();
    push_word(&mut out, 30);
    let b = m.uci_bytes();
    push_all(&mut out, &b);
    ascii_string(out)
}

/// Nodes per second: `nodes * 1000 / max(millis, 1)`.
pub open spec fn nps_spec(nodes: int, millis: int) -> int {
    nodes * 1000 / if millis < 1 {
        1
    } else {
        millis
    }
}

/// The line reporting a node count: `info time T nodes N nps R`.
pub fn nodes_line(millis: u64, nodes: u64) -> (r: String)
    ensures
        r@ == ascii_chars(
            word_text(31) + decimal(millis as nat) + word_text(32) + decimal(nodes as nat)
                + word_text(33) + decimal(nps_spec(nodes as int, millis as int) as nat),
        ),
{
    let d: u128 = if millis < 1 {
        1
    } else {
        millis as u128
    };
    proof {
        assert(0 <= (nodes as int) * 1000 <= 0xFFFF_FFFF_FFFF_FFFF * 1000) by (nonlinear_arith)
            requires
                0 <= nodes <= 0xFFFF_FFFF_FFFF_FFFF,
        ;
        assert(0 <= ((nodes as int) * 1000) / (d as int)) by (nonlinear_arith)
            requires
                d >= 1,
                nodes >= 0,
        ;
    }
    let nps = (nodes as u128) * 1000 / d;
    let mut out: Vec<u8> = Vec::new();
    push_word(&mut out, 31);
    push_decimal(&mut out, millis as u128);
    push_word(&mut out, 32);
    push_decimal(&mut out, nodes as u128);
    push_word(&mut out, 33);
    push_decimal(&mut out, nps);
    assert(out@ =~= word_text(31) + decimal(millis as nat) + word_text(32) + decimal(nodes as nat)
        + word_text(33) + decimal(nps_spec(nodes as int, millis as int) as nat));
    ascii_string(out)
}

/// The line reporting a search to a depth: `info time T depth D`.
pub fn depth_line(millis: u64, depth: u8) -> (r: String)
    ensures
        r@ == ascii_chars(word_text(31) + decimal(millis as nat) + word_text(34) + decimal(depth as nat)),
{
    let mut out: Vec<u8> = Vec::new();
    push_word(&mut out, 31);
    push_decimal(&mut out, millis as u128);
    push_word(&mut out, 34);
    push_decimal(&mut out, depth as u128);
    assert(out@ =~= word_text(31) + decimal(millis as nat) + word_text(34) + decimal(depth as nat));
    ascii_string(out)
}

/// The line reporting a static evaluation: `info value V`, with its sign.
pub fn value_line(value: i16) -> (r: String)
    ensures
        r@ == ascii_chars(word_text(35) + if value < 0 {
            seq![45u8] + decimal((-value) as nat)
        } else {
            seq![43u8] + decimal(value as nat)
        }),
{
    let mut out: Vec<u8> = Vec::new();
    push_word(&mut out, 35);
    let ghost start = out@;
    if value < 0 {
        push_ascii(&mut out, 45);
        push_decimal(&mut out, (-(value as i32)) as u128);
    } else {
        push_ascii(&mut out, 43);
        push_decimal(&mut out, value as u128);
    }
    assert(out@ =~= word_text(35) + if value < 0 {
        seq![45u8] + decimal((-value) as nat)
    } else {
        seq![43u8] + decimal(value as nat)
    });
    ascii_string(out)
}

} // verus!

verus! {

/// The default, least and greatest size of the transposition table, in MiB.
pub const HASH_DEFAULT: u64 = 16;
pub const HASH_MIN: u64 = 1;
pub const HASH_MAX: u64 = 32768;

/// The default, least and greatest number of search threads.
pub const THREADS_DEFAULT: u64 = 1;
pub const THREADS_MIN: u64 = 1;
pub const THREADS_MAX: u64 = 512;

/// The options that `setoption` changes.
#[derive(Clone, Copy, Debug, PartialEq, Eq, Hash, Structural)]
pub struct Options {
    /// Size of the transposition table in MiB, a power of two.
    pub hash: u64,
    /// Number of search threads.
    pub threads: u64,
}

impl Options {
    /// The options before any `setoption`.
    pub fn new() -> (r: Options)
        ensures
            r == (Options { hash: HASH_DEFAULT, threads: THREADS_DEFAULT }),
    {
        Options { hash: HASH_DEFAULT, threads: THREADS_DEFAULT }
    }
}

/// `c` with ASCII upper case made lower case.
pub open spec fn lower(c: u8) -> u8 {
    if 65 <= c <= 90 {
        (c + 32) as u8
    } else {
        c
    }
}

/// Whether `t` is the lower-case word `w`, ignoring ASCII case.
pub open spec fn same_word(t: Seq<u8>, w: Seq<u8>) -> bool {
    t.len() == w.len() && forall|i: int| 0 <= i < t.len() ==> #[trigger] lower(t[i]) == w[i]
}

/// `hash` and `threads` in lower case.
pub open spec fn hash_word() -> Seq<u8> {
    seq![104u8, 97, 115, 104]
}

pub open spec fn threads_word() -> Seq<u8> {
    seq![116u8, 104, 114, 101, 97, 100, 115]
}

/// The greatest power of two not above `v`, for `v >= 1`.
pub open spec fn is_floor_pow2(r: int, v: int) -> bool {
    crate::table::power_of_two(r) && r <= v < 2 * r
}

/// The options after `setoption name <name> value <value>`: `Hash` takes a
/// size in MiB, brought within `HASH_MIN..=HASH_MAX` and rounded down to a
/// power of two; `Threads` takes a count brought within
/// `THREADS_MIN..=THREADS_MAX`. The name is matched ignoring case. A value
/// that is not a positive number, or an unknown name, leaves the options
/// as they were.
pub open spec fn set_option_spec(o: Options, name: Seq<u8>, value: Seq<u8>, hash: int) -> bool {
    let v = number_field(value, 0xFFFF_FFFF_FFFF_FFFF);
    if same_word(name, hash_word()) && v is Some && v->0 >= 1 {
        let c = if v->0 > HASH_MAX { HASH_MAX as int } else { v->0 };
        is_floor_pow2(hash, c)
    } else {
        hash == o.hash
    }
}

pub open spec fn threads_after(o: Options, name: Seq<u8>, value: Seq<u8>) -> u64 {
    let v = number_field(value, 0xFFFF_FFFF_FFFF_FFFF);
    if same_word(name, threads_word()) && v is Some && v->0 >= 1 {
        if v->0 > THREADS_MAX {
            THREADS_MAX
        } else {
            v->0 as u64
        }
    } else {
        o.threads
    }
}

fn same_word_of(t: &[u8], w: &Vec<u8>) -> (r: bool)
    ensures
        r == same_word(t@, w@),
{
    if t.len() != w.len() {
        return false;
    }
    let mut i: usize = 0;
    while i < t.len()
        invariant
            i <= t@.len(),
            t@.len() == w@.len(),
            forall|j: int| 0 <= j < i ==> #[trigger] lower(t@[j]) == w@[j],
        decreases t@.len() - i,
    {
        let c = t[i];
        let l = if 65 <= c && c <= 90 {
            c + 32
        } else {
            c
        };
        if l != w[i] {
            assert(lower(t@[i as int]) != w@[i as int]);
            return false;
        }
        i = i + 1;
    }
    true
}

fn floor_pow2(v: u64) -> (r: u64)
    requires
        v >= 1,
    ensures
        is_floor_pow2(r as int, v as int),
{
    let mut p: u64 = 1;
    let ghost mut k: nat = 0;
    proof {
        vstd::arithmetic::power2::lemma2_to64();
    }
    while p <= v / 2
        invariant
            1 <= p <= v,
            vstd::arithmetic::power2::pow2(k) == p,
        decreases v - p,
    {
        proof {
            vstd::arithmetic::power2::lemma_pow2_unfold(k + 1);
        }
        p = p * 2;
        proof {
            k = k + 1;
        }
    }
    p
}

/// Applies `setoption name <name> value <value>` to `o`.
pub fn set_option(o: Options, name: &[u8], value: &[u8]) -> (r: Options)
    ensures
        set_option_spec(o, name@, value@, r.hash as int),
        r.threads == threads_after(o, name@, value@),
{
    let hash_w = vec![104u8, 97, 115, 104];
    let threads_w = vec![116u8, 104, 114, 101, 97, 100, 115];
    assert(hash_w@ =~= hash_word());
    assert(threads_w@ =~= threads_word());
    let v = parse_number(value, 0xFFFF_FFFF_FFFF_FFFF);
    let mut r = o;
    match v {
        Some(n) => {
            if n >= 1 {
                if same_word_of(name, &hash_w) {
                    let c = if n > HASH_MAX {
                        HASH_MAX
                    } else {
                        n
                    };
                    r.hash = floor_pow2(c);
                }
                if same_word_of(name, &threads_w) {
                    r.threads = if n > THREADS_MAX {
                        THREADS_MAX
                    } else {
                        n
                    };
                }
            }
        },
        None => {},
    }
    r
}

} // verus!
