//! Reading a move typed as its two squares, as in "e2e4".
use vstd::prelude::*;
use vstd::string::StringExecFns;

use crate::game::command::MakeMove;

verus! {

/// What searching `haystack` for the regular expression `pattern` gives:
/// `None` when the pattern does not compile, `Some(None)` when nothing
/// matches, else the text of each capture group of the first match (group 0
/// being the whole match), `None` for a group that took no part in it.
pub uninterp spec fn regex_captures_of(pattern: Seq<char>, haystack: Seq<char>) -> Option<Option<Seq<Option<Seq<char>>>>>;

/// Whether `s` is two squares written one after the other: a file letter
/// from "a" to "h" and a rank digit from "1" to "8", twice, and nothing else.
pub open spec fn two_squares_text(s: Seq<char>) -> bool {
    &&& s.len() == 4
    &&& 'a' <= s[0] && s[0] <= 'h'
    &&& '1' <= s[1] && s[1] <= '8'
    &&& 'a' <= s[2] && s[2] <= 'h'
    &&& '1' <= s[3] && s[3] <= '8'
}

/// What a search of `haystack` for `move_pattern()` gives: the pattern
/// compiles; it matches exactly when the text is two squares, and then the
/// groups are the whole text and its two squares.
pub open spec fn move_pattern_captures(captures: Option<Option<Seq<Option<Seq<char>>>>>, haystack: Seq<char>) -> bool {
    match captures {
        Some(Some(groups)) => two_squares_text(haystack) && groups.len() == 3 && groups[0] == Some(haystack)
            && groups[1] == Some(haystack.subrange(0, 2)) && groups[2] == Some(haystack.subrange(2, 4)),
        Some(None) => !two_squares_text(haystack),
        None => false,
    }
}

/// Compiles `pattern` with `regex::Regex::new` and searches `haystack` with
/// `Regex::captures`, returning the text of every capture group. Trusted:
/// the result is what `regex_captures_of` names for these two texts; of the
/// one pattern the library uses, `move_pattern()`, it states what the regex
/// syntax documents: `^` and `$` anchor at the start and end of the text,
/// `[a-h]` and `[1-8]` match one character of those ranges, and the two
/// groups hold the texts they matched. Nothing more of the engine is stated.
#[verifier::external_body]
fn regex_captures(pattern: &str, haystack: &str) -> (r: Option<Option<Vec<Option<String>>>>)
    ensures
        r.deep_view() == regex_captures_of(pattern@, haystack@),
        pattern@ == move_pattern() ==> move_pattern_captures(r.deep_view(), haystack@),
{
    match regex::Regex::new(pattern) {
        Err(_) => None,
        Ok(re) => Some(
            re.captures(haystack).map(|caps| caps.iter().map(|m| m.map(|m| m.as_str().to_string())).collect()),
        ),
    }
}

/// The pattern of a move typed as two squares.
pub open spec fn move_pattern() -> Seq<char> {
    "^([a-h][1-8])([a-h][1-8])$"@
}

/// The error for text that is not a move.
pub open spec fn invalid_input(raw: Seq<char>) -> Seq<char> {
    "invalid input: "@ + raw
}

/// The command the search result `captures` of `raw` gives: the move between
/// the first two groups' squares, or an error naming the input when the
/// search found no such groups.
pub open spec fn command_of_captures(raw: Seq<char>, captures: Option<Option<Seq<Option<Seq<char>>>>>) -> Result<
    (Seq<char>, Seq<char>),
    Seq<char>,
> {
    match captures {
        Some(Some(groups)) => if groups.len() >= 3 && groups[1] is Some && groups[2] is Some {
            Ok((groups[1].unwrap(), groups[2].unwrap()))
        } else {
            Err(invalid_input(raw))
        },
        _ => Err(invalid_input(raw)),
    }
}

/// Whether a command result is the one `command_of_captures` describes.
pub open spec fn command_matches(r: Result<MakeMove, String>, expected: Result<(Seq<char>, Seq<char>), Seq<char>>) -> bool {
    match (r, expected) {
        (Ok(MakeMove::Coordinate { from_square, to_square }), Ok((from, to))) => from_square@ == from && to_square@
            == to,
        (Err(e), Err(message)) => e@ == message,
        _ => false,
    }
}

/// Turns the capture groups a search of `raw` found into a command.
pub fn command_from_captures(raw: &str, captures: Option<Option<Vec<Option<String>>>>) -> (r: Result<MakeMove, String>)
    ensures
        command_matches(r, command_of_captures(raw@, captures.deep_view())),
{
    proof { reveal_strlit("invalid input: "); }
    let invalid = String::from_str("invalid input: ").concat(raw);
    match captures {
        Some(Some(groups)) => {
            if groups.len() >= 3 {
                let from = &groups[1];
                let to = &groups[2];
                match (from, to) {
                    (Some(f), Some(t)) => {
                        let from_square = f.clone();
                        let to_square = t.clone();
                        proof {
                            assert(groups.deep_view()[1] == from.deep_view());
                            assert(groups.deep_view()[2] == to.deep_view());
                        }
                        Ok(MakeMove::Coordinate { from_square, to_square })
                    },
                    _ => {
                        proof {
                            assert(groups.deep_view()[1] == from.deep_view());
                            assert(groups.deep_view()[2] == to.deep_view());
                        }
                        Err(invalid)
                    },
                }
            } else {
                Err(invalid)
            }
        },
        _ => Err(invalid),
    }
}

/// Parses a move typed as its two squares ("e2e4"): the text must be exactly
/// two squares, files a to h and ranks 1 to 8.
pub fn parse_command(raw: &str) -> (r: Result<MakeMove, String>)
    ensures
        command_matches(r, command_of_captures(raw@, regex_captures_of(move_pattern(), raw@))),
        two_squares_text(raw@) ==> (r matches Ok(MakeMove::Coordinate { from_square, to_square })
            && from_square@ == raw@.subrange(0, 2) && to_square@ == raw@.subrange(2, 4)),
        !two_squares_text(raw@) ==> (r matches Err(e) && e@ == invalid_input(raw@)),
{
    let captures = regex_captures("^([a-h][1-8])([a-h][1-8])$", raw);
    command_from_captures(raw, captures)
}

} // verus!
