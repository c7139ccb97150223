//! The text of the UCI conversation with a Stockfish process: the commands
//! that are sent and what is read from its replies.
use vstd::prelude::*;
use vstd::string::StringExecFns;

use crate::text::{
    decimal_string, decimal_text, parse_unsigned, parse_unsigned_text, split_words, starts_with_text, str_equals,
    text_starts_with, words,
};

verus! {

/// The minimum `UCI_Elo` assumed until Stockfish announces its own.
pub const DEFAULT_MIN_ELO: u32 = 1320;

/// The index of the first `word` in `ws`, or the length of `ws` when there is none.
pub open spec fn first_index_of(ws: Seq<Seq<char>>, word: Seq<char>) -> nat
    decreases ws.len(),
{
    if ws.len() == 0 {
        0
    } else if ws[0] == word {
        0
    } else {
        1 + first_index_of(ws.drop_first(), word)
    }
}

/// The minimum Elo that one line of Stockfish's reply to `uci` announces: on
/// a line that begins with `option name UCI_Elo`, the number written as the
/// word after the first word `min`.
pub open spec fn announced_min_elo(line: Seq<char>) -> Option<nat> {
    if starts_with_text(line, "option name UCI_Elo"@) {
        let ws = words(line);
        let k = first_index_of(ws, "min"@);
        if k + 1 < ws.len() {
            parse_unsigned(ws[(k + 1) as int], u32::MAX as nat)
        } else {
            None
        }
    } else {
        None
    }
}

proof fn lemma_first_index_step(ws: Seq<Seq<char>>, word: Seq<char>, k: int)
    requires
        0 <= k < ws.len(),
        forall|j: int| 0 <= j < k ==> ws[j] != word,
    ensures
        ws[k] == word ==> first_index_of(ws, word) == k,
        ws[k] != word ==> first_index_of(ws, word) > k,
    decreases k,
{
    if k > 0 {
        lemma_first_index_step(ws.drop_first(), word, k - 1);
    }
}

proof fn lemma_first_index_absent(ws: Seq<Seq<char>>, word: Seq<char>)
    requires
        forall|j: int| 0 <= j < ws.len() ==> ws[j] != word,
    ensures
        first_index_of(ws, word) == ws.len(),
    decreases ws.len(),
{
    if ws.len() > 0 {
        lemma_first_index_absent(ws.drop_first(), word);
    }
}

/// The minimum Elo that `line` announces, if it announces one.
pub fn min_elo_of_line(line: &str) -> (r: Option<u32>)
    ensures
        match announced_min_elo(line@) {
            Some(v) => r == Some(v as u32),
            None => r is None,
        },
{
    if !text_starts_with(line, "option name UCI_Elo") {
        return None;
    }
    let ws = split_words(line);
    let ghost wv = words(line@);
    let mut k: usize = 0;
    while k < ws.len() && !str_equals(ws[k].as_str(), "min")
        invariant
            k <= ws.len(),
            ws.len() == wv.len(),
            forall|j: int| 0 <= j < ws.len() ==> #[trigger] ws[j]@ == wv[j],
            forall|j: int| 0 <= j < k ==> wv[j] != "min"@,
        decreases ws.len() - k,
    {
        k = k + 1;
    }
    proof {
        if k < ws.len() {
            lemma_first_index_step(wv, "min"@, k as int);
        } else {
            lemma_first_index_absent(wv, "min"@);
        }
    }
    if k < ws.len() && k + 1 < ws.len() {
        match parse_unsigned_text(ws[k + 1].as_str(), 0xFFFF_FFFF) {
            Some(v) => Some(v as u32),
            None => None,
        }
    } else {
        None
    }
}

/// Reads one line of Stockfish's reply to `uci`: the minimum Elo known after
/// it, and whether the line ends the reply.
pub fn handshake_step(min_elo: u32, line: &str) -> (r: (u32, bool))
    ensures
        r.0 == (match announced_min_elo(line@) {
            Some(v) => v as u32,
            None => min_elo,
        }),
        r.1 == (line@ == "uciok"@),
{
    let next = match min_elo_of_line(line) {
        Some(v) => v,
        None => min_elo,
    };
    (next, str_equals(line, "uciok"))
}

/// The Elo that Stockfish is set to when `elo` is asked for: never below its
/// minimum.
pub fn clamped_elo(elo: u32, min_elo: u32) -> (r: u32)
    ensures
        r == (if elo >= min_elo { elo } else { min_elo }),
{
    if elo >= min_elo {
        elo
    } else {
        min_elo
    }
}

/// The commands that set Stockfish's strength to `elo` (raised to `min_elo`
/// if it is lower), and the Elo they set: limit the strength, set `UCI_Elo`,
/// and ask whether it is ready.
pub fn strength_commands(elo: u32, min_elo: u32) -> (r: (Vec<String>, u32))
    ensures
        r.1 == (if elo >= min_elo { elo } else { min_elo }),
        r.0.len() == 3,
        r.0[0]@ == "setoption name UCI_LimitStrength value true"@,
        r.0[1]@ == "setoption name UCI_Elo value "@ + decimal_text(r.1 as nat),
        r.0[2]@ == "isready"@,
{
    let clamped = clamped_elo(elo, min_elo);
    let mut commands: Vec<String> = Vec::new();
    commands.push(String::from_str("setoption name UCI_LimitStrength value true"));
    commands.push(String::from_str("setoption name UCI_Elo value ").concat(decimal_string(clamped as u64).as_str()));
    commands.push(String::from_str("isready"));
    (commands, clamped)
}

/// The command that sets up the game from the starting position followed by
/// `moves`, the moves so far in UCI notation separated by spaces.
pub fn position_command(moves: &str) -> (r: String)
    ensures
        r@ == "position startpos moves "@ + moves@,
{
    String::from_str("position startpos moves ").concat(moves)
}

/// The command that asks for a move within `time_limit_ms` milliseconds.
pub fn go_command(time_limit_ms: u64) -> (r: String)
    ensures
        r@ == "go movetime "@ + decimal_text(time_limit_ms as nat),
{
    String::from_str("go movetime ").concat(decimal_string(time_limit_ms).as_str())
}

/// What a line of Stockfish's reply to `go` says about its move.
#[derive(Debug)]
pub enum BestMoveLine {
    /// The line does not begin with `bestmove`.
    NotBestMove,
    /// The move, the second word of a `bestmove` line.
    Move(String),
    /// A `bestmove` line with no second word.
    MissingMove,
}

/// Reads a line of Stockfish's reply to `go`: a line that begins with
/// `bestmove` gives its second word as the move.
pub fn best_move_of_line(line: &str) -> (r: BestMoveLine)
    ensures
        !starts_with_text(line@, "bestmove"@) <==> r is NotBestMove,
        starts_with_text(line@, "bestmove"@) && words(line@).len() >= 2 ==> (r matches BestMoveLine::Move(m)
            && m@ == words(line@)[1]),
        starts_with_text(line@, "bestmove"@) && words(line@).len() < 2 ==> r is MissingMove,
{
    if !text_starts_with(line, "bestmove") {
        return BestMoveLine::NotBestMove;
    }
    let mut ws = split_words(line);
    if ws.len() < 2 {
        return BestMoveLine::MissingMove;
    }
    let second = ws.remove(1);
    BestMoveLine::Move(second)
}

} // verus!
