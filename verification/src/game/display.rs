//! The text frame that shows the board, whose turn it is, the last move and
//! search statistics.
use vstd::prelude::*;
use vstd::string::StringExecFns;

use crate::board::{Board, BoardModel};
use crate::chess_move::chess_move::ChessMove;
use crate::piece::{color_name, piece_glyph, Color};
use crate::square::{rank_char, rank_str, Square};
use crate::text::decimal_text;

verus! {

/// Moves the terminal cursor to `column` and `row` (counting from 1) with the
/// escape sequence of `termion::cursor::Goto`. Trusted: its `Display` writes
/// ESC, "[", the row, ";", the column and "H".
#[verifier::external_body]
fn cursor_goto(column: u16, row: u16) -> (r: String)
    requires
        !(column == 0 && row == 0),
    ensures
        r@ == "\x1B["@ + decimal_text(row as nat) + ";"@ + decimal_text(column as nat) + "H"@,
{
    format!("{}", termion::cursor::Goto(column, row))
}

/// Clears the terminal with the escape sequence of `termion::clear::All`.
/// Trusted: its `Display` writes ESC, "[" and "2J".
#[verifier::external_body]
fn clear_all() -> (r: String)
    ensures
        r@ == "\x1B[2J"@,
{
    format!("{}", termion::clear::All)
}

/// The text that clears the screen: the cursor to the top left, then clear.
pub open spec fn clear_text() -> Seq<char> {
    "\x1B["@ + decimal_text(1) + ";"@ + decimal_text(1) + "H"@ + "\x1B[2J"@
}

/// The file letters above and below the board.
pub open spec fn files_line() -> Seq<char> {
    "    a   b   c   d   e   f   g   h\n"@
}

pub open spec fn top_border() -> Seq<char> {
    "  ┌───┬───┬───┬───┬───┬───┬───┬───┐\n"@
}

pub open spec fn middle_border() -> Seq<char> {
    "  ├───┼───┼───┼───┼───┼───┼───┼───┤\n"@
}

pub open spec fn bottom_border() -> Seq<char> {
    "  └───┴───┴───┴───┴───┴───┴───┴───┘\n"@
}

/// What a square shows: the symbol of its piece, or a blank on a dark square
/// and a dot on a light one.
pub open spec fn square_text(m: BoardModel, rank: int, file: int) -> Seq<char> {
    match m.piece_at(rank * 8 + file) {
        Some((piece, color)) => seq![piece_glyph(piece, color)],
        None => if (rank + file) % 2 == 0 {
            " "@
        } else {
            "·"@
        },
    }
}

/// The first `k` squares of a rank, each between a blank and a bar.
pub open spec fn cells_text(m: BoardModel, rank: int, k: int) -> Seq<char>
    decreases k,
{
    if k <= 0 {
        seq![]
    } else {
        cells_text(m, rank, k - 1) + " "@ + square_text(m, rank, k - 1) + " │"@
    }
}

/// One rank: its number, its squares, its number again, and the border below it.
pub open spec fn rank_text(m: BoardModel, rank: int) -> Seq<char> {
    seq![rank_char(rank)] + " │"@ + cells_text(m, rank, 8) + " "@ + seq![rank_char(rank)] + "\n"@ + if rank > 0 {
        middle_border()
    } else {
        bottom_border()
    }
}

/// The top `k` ranks, from the eighth down.
pub open spec fn ranks_text(m: BoardModel, k: int) -> Seq<char>
    decreases k,
{
    if k <= 0 {
        seq![]
    } else {
        ranks_text(m, k - 1) + rank_text(m, 8 - k)
    }
}

/// The whole frame: clear the screen, the board, whose turn it is, the last
/// move's notation and the statistics, if any.
pub open spec fn frame_text(m: BoardModel, turn: Color, last_move: Option<Seq<char>>, stats: Option<Seq<char>>) -> Seq<
    char,
> {
    clear_text() + files_line() + top_border() + ranks_text(m, 8) + files_line() + "\n"@ + "Turn: "@ + color_name(turn)
        + "\n"@ + match last_move {
        Some(notation) => "Last move: "@ + notation + "\n"@,
        None => seq![],
    } + match stats {
        Some(s) => "\n"@ + s + "\n"@,
        None => seq![],
    }
}

/// Builds the text frame of the game in a buffer.
pub struct GameDisplay {
    buffer: String,
}

impl GameDisplay {
    /// The text in the buffer.
    pub closed spec fn spec_buffer(&self) -> Seq<char> {
        self.buffer@
    }

    /// An empty display.
    pub fn new() -> (r: Self)
        ensures
            r.spec_buffer() == Seq::<char>::empty(),
    {
        Self { buffer: String::new() }
    }

    /// Starts a new frame: the buffer holds the text that clears the screen.
    pub fn clear(&mut self)
        ensures
            final(self).spec_buffer() == clear_text(),
    {
        let mut text = cursor_goto(1, 1);
        let clear = clear_all();
        text.append(clear.as_str());
        self.buffer = text;
    }

    /// Builds the frame of the game: the board, whose turn it is, the last
    /// move's notation and the statistics, if any.
    pub fn render_game_state(
        &mut self,
        board: &Board,
        current_turn: Color,
        last_move: Option<(&ChessMove, &str)>,
        stats: Option<&str>,
    )
        ensures
            final(self).spec_buffer() == frame_text(
                board@,
                current_turn,
                match last_move {
                    Some((_mv, notation)) => Some(notation@),
                    None => None,
                },
                match stats {
                    Some(s) => Some(s@),
                    None => None,
                },
            ),
    {
        self.clear();
        proof {
            reveal_strlit("    a   b   c   d   e   f   g   h\n");
            reveal_strlit("  ┌───┬───┬───┬───┬───┬───┬───┬───┐\n");
            reveal_strlit("  ├───┼───┼───┼───┼───┼───┼───┼───┤\n");
            reveal_strlit("  └───┴───┴───┴───┴───┴───┴───┴───┘\n");
            reveal_strlit(" │");
            reveal_strlit(" ");
            reveal_strlit("·");
            reveal_strlit("\n");
        }
        self.buffer.append("    a   b   c   d   e   f   g   h\n");
        self.buffer.append("  ┌───┬───┬───┬───┬───┬───┬───┬───┐\n");
        let ghost before_ranks = self.buffer@;
        let mut rank: u8 = 8;
        while rank > 0
            invariant
                rank <= 8,
                self.buffer@ == before_ranks + ranks_text(board@, 8 - rank),
            decreases rank,
        {
            rank = rank - 1;
            let ghost before_rank = self.buffer@;
            let digit = rank_str(rank);
            self.buffer.append(digit);
            self.buffer.append(" │");
            let ghost before_cells = self.buffer@;
            let mut file: u8 = 0;
            while file < 8
                invariant
                    rank < 8,
                    file <= 8,
                    self.buffer@ == before_cells + cells_text(board@, rank as int, file as int),
                decreases 8 - file,
            {
                let square = Square::from_index(rank * 8 + file);
                self.buffer.append(" ");
                match board.get(square) {
                    Some((piece, color)) => self.buffer.append(piece.to_unicode_piece_str(color)),
                    None => if (rank + file) % 2 == 0 {
                        self.buffer.append(" ")
                    } else {
                        self.buffer.append("·")
                    },
                }
                self.buffer.append(" │");
                file = file + 1;
            }
            self.buffer.append(" ");
            self.buffer.append(digit);
            self.buffer.append("\n");
            if rank > 0 {
                self.buffer.append("  ├───┼───┼───┼───┼───┼───┼───┼───┤\n");
            } else {
                self.buffer.append("  └───┴───┴───┴───┴───┴───┴───┴───┘\n");
            }
            proof {
                assert(self.buffer@ =~= before_rank + rank_text(board@, rank as int));
                assert(ranks_text(board@, 8 - rank as int) == ranks_text(board@, 8 - (rank as int + 1)) + rank_text(
                    board@,
                    rank as int,
                ));
            }
        }
        self.buffer.append("    a   b   c   d   e   f   g   h\n");
        self.buffer.append("\n");
        proof {
            reveal_strlit("Turn: ");
            reveal_strlit("Last move: ");
        }
        self.buffer.append("Turn: ");
        self.buffer.append(current_turn.name());
        self.buffer.append("\n");
        if let Some((_mv, notation)) = last_move {
            self.buffer.append("Last move: ");
            self.buffer.append(notation);
            self.buffer.append("\n");
        }
        if let Some(stats) = stats {
            self.buffer.append("\n");
            self.buffer.append(stats);
            self.buffer.append("\n");
        }
        proof {
            assert(self.buffer@ =~= frame_text(
                board@,
                current_turn,
                match last_move {
                    Some((_mv, notation)) => Some(notation@),
                    None => None,
                },
                match stats {
                    Some(s) => Some(s@),
                    None => None,
                },
            ));
        }
    }

    /// The frame built so far.
    pub fn text(&self) -> (r: &str)
        ensures
            r@ == self.spec_buffer(),
    {
        self.buffer.as_str()
    }

    /// The buffer, giving up the display.
    pub fn buffer(self) -> (r: String)
        ensures
            r@ == self.spec_buffer(),
    {
        self.buffer
    }
}

} // verus!
