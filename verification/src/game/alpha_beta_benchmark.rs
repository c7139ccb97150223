//! The positions of the alpha-beta benchmark, which of them a filter
//! selects, and number formatting for its reports.
use vstd::prelude::*;
use vstd::string::StringExecFns;

use crate::text::{
    ascii_lowered, ascii_lowered_contains, contains_text, lowercase_text, parse_unsigned, parse_unsigned_text,
    to_lowercase,
};

verus! {

/// The decimal digit `d`.
pub open spec fn digit_char(d: int) -> char {
    if d == 0 {
        '0'
    } else if d == 1 {
        '1'
    } else if d == 2 {
        '2'
    } else if d == 3 {
        '3'
    } else if d == 4 {
        '4'
    } else if d == 5 {
        '5'
    } else if d == 6 {
        '6'
    } else if d == 7 {
        '7'
    } else if d == 8 {
        '8'
    } else {
        '9'
    }
}

/// The decimal text of `n` with a comma between groups of three digits,
/// counting from the right; `position` is how many digits stand right of
/// the lowest digit of `n`.
pub open spec fn grouped_digits(n: nat, position: nat) -> Seq<char>
    decreases n,
{
    let lowest = seq![digit_char((n % 10) as int)] + if position > 0 && position % 3 == 0 {
        seq![',']
    } else {
        seq![]
    };
    if n < 10 {
        lowest
    } else {
        grouped_digits(n / 10, position + 1) + lowest
    }
}

pub(crate) fn digit_str(d: usize) -> (r: &'static str)
    requires
        d < 10,
    ensures
        r@ == seq![digit_char(d as int)],
{
    if d == 0 {
        proof { reveal_strlit("0"); }
        "0"
    } else if d == 1 {
        proof { reveal_strlit("1"); }
        "1"
    } else if d == 2 {
        proof { reveal_strlit("2"); }
        "2"
    } else if d == 3 {
        proof { reveal_strlit("3"); }
        "3"
    } else if d == 4 {
        proof { reveal_strlit("4"); }
        "4"
    } else if d == 5 {
        proof { reveal_strlit("5"); }
        "5"
    } else if d == 6 {
        proof { reveal_strlit("6"); }
        "6"
    } else if d == 7 {
        proof { reveal_strlit("7"); }
        "7"
    } else if d == 8 {
        proof { reveal_strlit("8"); }
        "8"
    } else {
        proof { reveal_strlit("9"); }
        "9"
    }
}

/// `n` in decimal with commas between groups of three digits, as in "1,234,567".
pub fn format_number(n: usize) -> (r: String)
    ensures
        r@ == grouped_digits(n as nat, 0),
{
    let mut result = String::new();
    let mut m = n;
    // The position of the lowest digit of `m`, kept as "past the first digit"
    // and the position modulo three.
    let ghost mut position: nat = 0;
    let mut started = false;
    let mut phase: u8 = 0;
    loop
        invariant
            grouped_digits(n as nat, 0) == grouped_digits(m as nat, position) + result@,
            started == (position > 0),
            phase == position % 3,
        ensures
            result@ == grouped_digits(n as nat, 0),
        decreases m,
    {
        proof { reveal_strlit(","); }
        let digit = String::from_str(digit_str(m % 10));
        let lowest = if started && phase == 0 {
            digit.concat(",")
        } else {
            digit
        };
        result = lowest.concat(result.as_str());
        if m < 10 {
            return result;
        }
        proof {
            assert(grouped_digits(m as nat, position) =~= grouped_digits((m / 10) as nat, position + 1) + lowest@);
            position = position + 1;
        }
        m = m / 10;
        started = true;
        phase = if phase == 2 { 0 } else { phase + 1 };
    }
}

/// The number of benchmark positions.
pub const BENCHMARK_POSITION_COUNT: usize = 8;

/// The name of benchmark position `i`.
pub open spec fn spec_benchmark_name(i: int) -> Seq<char> {
    if i == 0 {
        "Starting Position"@
    } else if i == 1 {
        "Sicilian Defense"@
    } else if i == 2 {
        "Middlegame Tactics"@
    } else if i == 3 {
        "Tactical Position"@
    } else if i == 4 {
        "King Safety"@
    } else if i == 5 {
        "Endgame Pattern"@
    } else if i == 6 {
        "Queen Endgame"@
    } else {
        "Rook Endgame"@
    }
}

/// The name of benchmark position `index`.
pub fn benchmark_position_name(index: usize) -> (r: &'static str)
    requires
        index < BENCHMARK_POSITION_COUNT,
    ensures
        r@ == spec_benchmark_name(index as int),
{
    if index == 0 {
        "Starting Position"
    } else if index == 1 {
        "Sicilian Defense"
    } else if index == 2 {
        "Middlegame Tactics"
    } else if index == 3 {
        "Tactical Position"
    } else if index == 4 {
        "King Safety"
    } else if index == 5 {
        "Endgame Pattern"
    } else if index == 6 {
        "Queen Endgame"
    } else {
        "Rook Endgame"
    }
}

/// The FEN of benchmark position `i`.
pub open spec fn spec_benchmark_fen(i: int) -> Seq<char> {
    if i == 0 {
        "rnbqkbnr/pppppppp/8/8/8/8/PPPPPPPP/RNBQKBNR w KQkq - 0 1"@
    } else if i == 1 {
        "rnbqkbnr/pp1ppppp/8/2p5/4P3/5N2/PPPP1PPP/RNBQKB1R b KQkq - 1 2"@
    } else if i == 2 {
        "r1bqkb1r/pppp1ppp/2n2n2/4p3/2B1P3/5N2/PPPP1PPP/RNBQK2R w KQkq - 4 4"@
    } else if i == 3 {
        "r1bqk2r/pppp1ppp/2n2n2/2b1p3/2B1P3/3P1N2/PPP2PPP/RNBQK2R w KQkq - 0 5"@
    } else if i == 4 {
        "rnbqk2r/ppp2ppp/3b1n2/3pp3/3PP3/3B1N2/PPP2PPP/RNBQK2R w KQkq - 0 6"@
    } else if i == 5 {
        "4k3/8/8/8/8/8/4P3/4K3 w - - 0 1"@
    } else if i == 6 {
        "4k3/8/8/8/8/8/8/4K2Q w - - 0 1"@
    } else {
        "4k3/8/8/8/8/8/R7/4K3 w - - 0 1"@
    }
}

/// The FEN of benchmark position `index`.
pub fn benchmark_position_fen(index: usize) -> (r: &'static str)
    requires
        index < BENCHMARK_POSITION_COUNT,
    ensures
        r@ == spec_benchmark_fen(index as int),
{
    if index == 0 {
        "rnbqkbnr/pppppppp/8/8/8/8/PPPPPPPP/RNBQKBNR w KQkq - 0 1"
    } else if index == 1 {
        "rnbqkbnr/pp1ppppp/8/2p5/4P3/5N2/PPPP1PPP/RNBQKB1R b KQkq - 1 2"
    } else if index == 2 {
        "r1bqkb1r/pppp1ppp/2n2n2/4p3/2B1P3/5N2/PPPP1PPP/RNBQK2R w KQkq - 4 4"
    } else if index == 3 {
        "r1bqk2r/pppp1ppp/2n2n2/2b1p3/2B1P3/3P1N2/PPP2PPP/RNBQK2R w KQkq - 0 5"
    } else if index == 4 {
        "rnbqk2r/ppp2ppp/3b1n2/3pp3/3PP3/3B1N2/PPP2PPP/RNBQK2R w KQkq - 0 6"
    } else if index == 5 {
        "4k3/8/8/8/8/8/4P3/4K3 w - - 0 1"
    } else if index == 6 {
        "4k3/8/8/8/8/8/8/4K2Q w - - 0 1"
    } else {
        "4k3/8/8/8/8/8/R7/4K3 w - - 0 1"
    }
}

/// Why a filter selects no benchmark position.
#[derive(Clone, Copy, Debug, PartialEq, Eq, Structural)]
pub enum PositionFilterError {
    /// The filter is a number, but no position has that index.
    IndexOutOfRange(usize),
    /// No position's name contains the filter.
    NoMatch,
}

/// Whether the name of position `i`, in lowercase, contains `lower_filter`.
/// The names are ASCII, so their lowercase is their ASCII lowercase.
pub open spec fn name_matches(i: int, lower_filter: Seq<char>) -> bool {
    contains_text(ascii_lowered(spec_benchmark_name(i)), lower_filter)
}

/// The indices below `n` of the positions whose names match `lower_filter`,
/// in increasing order.
pub open spec fn matching_positions(n: nat, lower_filter: Seq<char>) -> Seq<usize>
    decreases n,
{
    if n == 0 {
        seq![]
    } else {
        matching_positions((n - 1) as nat, lower_filter) + if name_matches(n - 1, lower_filter) {
            seq![(n - 1) as usize]
        } else {
            seq![]
        }
    }
}

/// The positions that a lowercase name filter selects, or `NoMatch`.
pub open spec fn spec_positions_named(lower_filter: Seq<char>) -> Result<Seq<usize>, PositionFilterError> {
    let found = matching_positions(BENCHMARK_POSITION_COUNT as nat, lower_filter);
    if found.len() == 0 {
        Err(PositionFilterError::NoMatch)
    } else {
        Ok(found)
    }
}

/// The indices of the positions whose names, in lowercase, contain
/// `lower_filter`, in order; `NoMatch` when there are none.
pub fn positions_named(lower_filter: &str) -> (r: Result<Vec<usize>, PositionFilterError>)
    ensures
        match spec_positions_named(lower_filter@) {
            Ok(found) => r matches Ok(v) && v@ == found,
            Err(e) => r == Err::<Vec<usize>, PositionFilterError>(e),
        },
{
    let mut found: Vec<usize> = Vec::new();
    let mut i: usize = 0;
    while i < BENCHMARK_POSITION_COUNT
        invariant
            i <= BENCHMARK_POSITION_COUNT,
            found@ == matching_positions(i as nat, lower_filter@),
        decreases BENCHMARK_POSITION_COUNT - i,
    {
        if ascii_lowered_contains(benchmark_position_name(i), lower_filter) {
            found.push(i);
        }
        proof {
            let before = matching_positions(i as nat, lower_filter@);
            assert(matching_positions((i + 1) as nat, lower_filter@) =~= before + if name_matches(
                i as int,
                lower_filter@,
            ) {
                seq![i]
            } else {
                seq![]
            });
        }
        i = i + 1;
    }
    if found.len() == 0 {
        Err(PositionFilterError::NoMatch)
    } else {
        Ok(found)
    }
}

/// The indices of all the positions, in order.
pub open spec fn all_positions() -> Seq<usize> {
    Seq::new(BENCHMARK_POSITION_COUNT as nat, |i: int| i as usize)
}

/// The positions that `filter` selects: all of them without a filter; the
/// one with that index when the filter reads as a number; otherwise those
/// whose lowercase names contain the lowercase filter.
pub open spec fn spec_select_positions(filter: Option<Seq<char>>) -> Result<Seq<usize>, PositionFilterError> {
    match filter {
        None => Ok(all_positions()),
        Some(f) => match parse_unsigned(f, usize::MAX as nat) {
            Some(index) => if index < BENCHMARK_POSITION_COUNT {
                Ok(seq![index as usize])
            } else {
                Err(PositionFilterError::IndexOutOfRange(index as usize))
            },
            None => spec_positions_named(lowercase_text(f)),
        },
    }
}

/// The benchmark positions that `filter` selects, by index.
pub fn select_positions(filter: Option<&str>) -> (r: Result<Vec<usize>, PositionFilterError>)
    ensures
        match spec_select_positions(
            match filter {
                Some(f) => Some(f@),
                None => None,
            },
        ) {
            Ok(found) => r matches Ok(v) && v@ == found,
            Err(e) => r == Err::<Vec<usize>, PositionFilterError>(e),
        },
{
    match filter {
        None => {
            let mut all: Vec<usize> = Vec::new();
            let mut i: usize = 0;
            while i < BENCHMARK_POSITION_COUNT
                invariant
                    i <= BENCHMARK_POSITION_COUNT,
                    all@ =~= Seq::new(i as nat, |j: int| j as usize),
                decreases BENCHMARK_POSITION_COUNT - i,
            {
                all.push(i);
                i = i + 1;
            }
            Ok(all)
        },
        Some(f) => match parse_unsigned_text(f, usize::MAX as u64) {
            Some(index) => {
                let index = index as usize;
                if index < BENCHMARK_POSITION_COUNT {
                    Ok(vec![index])
                } else {
                    Err(PositionFilterError::IndexOutOfRange(index))
                }
            },
            None => {
                let lower = to_lowercase(f);
                positions_named(lower.as_str())
            },
        },
    }
}

} // verus!
