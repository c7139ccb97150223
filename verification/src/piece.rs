//! Piece kinds and colors.
use vstd::prelude::*;

verus! {

/// The kind of a chess piece. The order matches the rows of the evaluation tables.
#[derive(Clone, Copy, Debug, PartialEq, Eq, Structural)]
pub enum Piece {
    Pawn,
    Knight,
    Bishop,
    Rook,
    Queen,
    King,
}

/// All piece kinds, in table order.
pub open spec fn spec_piece_index(piece: Piece) -> nat {
    match piece {
        Piece::Pawn => 0,
        Piece::Knight => 1,
        Piece::Bishop => 2,
        Piece::Rook => 3,
        Piece::Queen => 4,
        Piece::King => 5,
    }
}

impl Piece {
    /// The row of this kind in the evaluation tables.
    pub fn index(&self) -> (r: usize)
        ensures
            r == spec_piece_index(*self),
    {
        match self {
            Piece::Pawn => 0,
            Piece::Knight => 1,
            Piece::Bishop => 2,
            Piece::Rook => 3,
            Piece::Queen => 4,
            Piece::King => 5,
        }
    }
}

/// The side a piece belongs to.
#[derive(Clone, Copy, Debug, PartialEq, Eq, Structural)]
pub enum Color {
    White,
    Black,
}

impl Color {
    pub open spec fn spec_opposite(self) -> Color {
        match self {
            Color::White => Color::Black,
            Color::Black => Color::White,
        }
    }

    /// The other side.
    pub fn opposite(&self) -> (r: Color)
        ensures
            r == self.spec_opposite(),
    {
        match self {
            Color::White => Color::Black,
            Color::Black => Color::White,
        }
    }

    /// White maximizes the score, Black minimizes it.
    pub fn maximize_score(&self) -> (r: bool)
        ensures
            r == (*self == Color::White),
    {
        match self {
            Color::White => true,
            Color::Black => false,
        }
    }
}


/// The letter of a piece kind in algebraic notation; none for a pawn.
pub open spec fn piece_letter(piece: Piece) -> Seq<char> {
    match piece {
        Piece::Pawn => seq![],
        Piece::Knight => seq!['N'],
        Piece::Bishop => seq!['B'],
        Piece::Rook => seq!['R'],
        Piece::Queen => seq!['Q'],
        Piece::King => seq!['K'],
    }
}

impl Piece {
    /// The letter of the piece kind in algebraic notation ("" for a pawn).
    pub fn to_algebraic_str(&self) -> (r: &'static str)
        ensures
            r@ == piece_letter(*self),
    {
        match self {
            Piece::Pawn => {
                proof { reveal_strlit(""); }
                ""
            },
            Piece::Knight => {
                proof { reveal_strlit("N"); }
                "N"
            },
            Piece::Bishop => {
                proof { reveal_strlit("B"); }
                "B"
            },
            Piece::Rook => {
                proof { reveal_strlit("R"); }
                "R"
            },
            Piece::Queen => {
                proof { reveal_strlit("Q"); }
                "Q"
            },
            Piece::King => {
                proof { reveal_strlit("K"); }
                "K"
            },
        }
    }
}

/// Piece letters name the pieces: a pawn has none; every other piece has one
/// capital letter, one of N, B, R, Q and K, and no two kinds share a letter.
pub proof fn lemma_piece_letters_name_pieces(p: Piece, q: Piece)
    ensures
        piece_letter(p).len() == 0 <==> p == Piece::Pawn,
        p != Piece::Pawn ==> piece_letter(p).len() == 1 && seq!['N', 'B', 'R', 'Q', 'K'].contains(piece_letter(p)[0]),
        p != q ==> piece_letter(p) != piece_letter(q),
{
    assert(seq!['N', 'B', 'R', 'Q', 'K'][0] == 'N');
    assert(seq!['N', 'B', 'R', 'Q', 'K'][1] == 'B');
    assert(seq!['N', 'B', 'R', 'Q', 'K'][2] == 'R');
    assert(seq!['N', 'B', 'R', 'Q', 'K'][3] == 'Q');
    assert(seq!['N', 'B', 'R', 'Q', 'K'][4] == 'K');
    if p != q && piece_letter(p).len() > 0 && piece_letter(q).len() > 0 {
        assert(piece_letter(p)[0] != piece_letter(q)[0]);
    }
}


/// The chess symbol of a piece of `color`: outlined for White, filled for Black.
pub open spec fn piece_glyph(piece: Piece, color: Color) -> char {
    match (piece, color) {
        (Piece::Pawn, Color::White) => '♙',
        (Piece::Knight, Color::White) => '♘',
        (Piece::Bishop, Color::White) => '♗',
        (Piece::Rook, Color::White) => '♖',
        (Piece::Queen, Color::White) => '♕',
        (Piece::King, Color::White) => '♔',
        (Piece::Pawn, Color::Black) => '♟',
        (Piece::Knight, Color::Black) => '♞',
        (Piece::Bishop, Color::Black) => '♝',
        (Piece::Rook, Color::Black) => '♜',
        (Piece::Queen, Color::Black) => '♛',
        (Piece::King, Color::Black) => '♚',
    }
}

impl Piece {
    /// The chess symbol of this piece for `color`, as text.
    pub fn to_unicode_piece_str(&self, color: Color) -> (r: &'static str)
        ensures
            r@ == seq![piece_glyph(*self, color)],
    {
        match (*self, color) {
            (Piece::Pawn, Color::White) => {
                proof { reveal_strlit("♙"); }
                "♙"
            },
            (Piece::Knight, Color::White) => {
                proof { reveal_strlit("♘"); }
                "♘"
            },
            (Piece::Bishop, Color::White) => {
                proof { reveal_strlit("♗"); }
                "♗"
            },
            (Piece::Rook, Color::White) => {
                proof { reveal_strlit("♖"); }
                "♖"
            },
            (Piece::Queen, Color::White) => {
                proof { reveal_strlit("♕"); }
                "♕"
            },
            (Piece::King, Color::White) => {
                proof { reveal_strlit("♔"); }
                "♔"
            },
            (Piece::Pawn, Color::Black) => {
                proof { reveal_strlit("♟"); }
                "♟"
            },
            (Piece::Knight, Color::Black) => {
                proof { reveal_strlit("♞"); }
                "♞"
            },
            (Piece::Bishop, Color::Black) => {
                proof { reveal_strlit("♝"); }
                "♝"
            },
            (Piece::Rook, Color::Black) => {
                proof { reveal_strlit("♜"); }
                "♜"
            },
            (Piece::Queen, Color::Black) => {
                proof { reveal_strlit("♛"); }
                "♛"
            },
            (Piece::King, Color::Black) => {
                proof { reveal_strlit("♚"); }
                "♚"
            },
        }
    }
}

/// The name of a side.
pub open spec fn color_name(color: Color) -> Seq<char> {
    match color {
        Color::White => "White"@,
        Color::Black => "Black"@,
    }
}

impl Color {
    /// The name of the side, "White" or "Black".
    pub fn name(&self) -> (r: &'static str)
        ensures
            r@ == color_name(*self),
    {
        match self {
            Color::White => "White",
            Color::Black => "Black",
        }
    }
}

} // verus!
