//! Standard algebraic notation of moves, as in "Nf3", "exd5", "O-O" or "e8=Q+".
use vstd::prelude::*;
use vstd::string::StringExecFns;

use crate::board::{Board, BoardModel};
use crate::piece::{piece_letter, Piece};
use crate::square::{file_char, file_str, rank_char, rank_str, spec_algebraic, Square};

use super::castle::CastleChessMove;
use super::chess_move::ChessMove;
use super::chess_move_effect::ChessMoveEffect;

verus! {

/// The notation of a castle: "O-O" on the king's side, "O-O-O" on the queen's.
pub open spec fn castle_text(from: Square, to: Square) -> Seq<char> {
    if (from == Square::E1 && to == Square::G1) || (from == Square::E8 && to == Square::G8) {
        seq!['O', '-', 'O']
    } else {
        seq!['O', '-', 'O', '-', 'O']
    }
}

/// Whether a castle goes from a king's square to a castling square.
pub open spec fn is_castle_notation_move(from: Square, to: Square) -> bool {
    ||| from == Square::E1 && (to == Square::G1 || to == Square::C1)
    ||| from == Square::E8 && (to == Square::G8 || to == Square::C8)
}

/// The suffix of a checking move ("+") or a mating move ("#").
pub open spec fn check_text(effect: Option<ChessMoveEffect>) -> Seq<char> {
    match effect {
        Some(ChessMoveEffect::Check) => seq!['+'],
        Some(ChessMoveEffect::Checkmate) => seq!['#'],
        _ => seq![],
    }
}

/// The capture mark ("x") of a capturing move.
pub open spec fn capture_text(mv: ChessMove) -> Seq<char> {
    if mv.spec_captures() is Some {
        seq!['x']
    } else {
        seq![]
    }
}

/// The promotion suffix ("=" and the new piece's letter) of a promotion.
pub open spec fn promotion_text(mv: ChessMove) -> Seq<char> {
    match mv {
        ChessMove::PawnPromotion(p) => seq!['='] + piece_letter(p.spec_promote_to_piece()),
        _ => seq![],
    }
}

/// The kind of piece on the square a move leaves.
pub open spec fn moving_piece(m: BoardModel, mv: ChessMove) -> Piece {
    m.piece_at(mv.spec_from_square().spec_index() as int).unwrap().0
}

/// Another move of the same kind of piece onto the same square from elsewhere.
pub open spec fn is_ambiguous_with(m: BoardModel, mv: ChessMove, other: ChessMove) -> bool {
    &&& other.spec_from_square() != mv.spec_from_square()
    &&& other.spec_to_square() == mv.spec_to_square()
    &&& moving_piece(m, other) == moving_piece(m, mv)
}

pub open spec fn ambiguity_pred(m: BoardModel, mv: ChessMove) -> spec_fn(ChessMove) -> bool {
    |other: ChessMove| is_ambiguous_with(m, mv, other)
}

/// The candidate moves that notation has to tell `mv` apart from.
pub open spec fn spec_ambiguous_moves(m: BoardModel, mv: ChessMove, candidates: Seq<ChessMove>) -> Seq<ChessMove> {
    candidates.filter(ambiguity_pred(m, mv))
}

/// Whether one of `moves` leaves from the file of `from`.
pub open spec fn shares_file(moves: Seq<ChessMove>, from: Square) -> bool {
    exists|i: int| 0 <= i < moves.len() && #[trigger] moves[i].spec_from_square().spec_index() % 8 == from.spec_index() % 8
}

/// Whether one of `moves` leaves from the rank of `from`.
pub open spec fn shares_rank(moves: Seq<ChessMove>, from: Square) -> bool {
    exists|i: int| 0 <= i < moves.len() && #[trigger] moves[i].spec_from_square().spec_index() / 8 == from.spec_index() / 8
}

/// What tells a move apart from the ambiguous ones. A pawn capture names its
/// starting file. Otherwise nothing is needed when there are no ambiguous
/// moves; with some, the starting file is named if no other move starts on
/// it, else the starting rank if no other move starts on that, else the
/// whole starting square.
pub open spec fn disambiguation(piece: Piece, mv: ChessMove, ambiguous: Seq<ChessMove>) -> Seq<char> {
    let from = mv.spec_from_square();
    let file = seq![file_char(from.spec_index() as int % 8)];
    let rank = seq![rank_char(from.spec_index() as int / 8)];
    if piece == Piece::Pawn && mv.spec_captures() is Some {
        file
    } else {
        match (shares_file(ambiguous, from), shares_rank(ambiguous, from)) {
            (true, true) => spec_algebraic(from),
            (true, false) => rank,
            (false, true) => file,
            (false, false) => if ambiguous.len() == 0 {
                seq![]
            } else {
                file
            },
        }
    }
}

/// The algebraic notation of a move on board `m`, among the `candidates`.
pub open spec fn spec_algebraic_notation(m: BoardModel, mv: ChessMove, candidates: Seq<ChessMove>) -> Seq<char> {
    match mv {
        ChessMove::Castle(c) => castle_text(c.spec_from_square(), c.spec_to_square()) + check_text(mv.spec_effect()),
        _ => {
            let piece = moving_piece(m, mv);
            piece_letter(piece) + disambiguation(piece, mv, spec_ambiguous_moves(m, mv, candidates)) + capture_text(mv)
                + spec_algebraic(mv.spec_to_square()) + promotion_text(mv) + check_text(mv.spec_effect())
        },
    }
}

/// The notation of a move can be written: a castle goes between castling squares;
/// any other move leaves an occupied square, as do all the candidates.
pub open spec fn notation_defined(m: BoardModel, mv: ChessMove, candidates: Seq<ChessMove>) -> bool {
    match mv {
        ChessMove::Castle(c) => is_castle_notation_move(c.spec_from_square(), c.spec_to_square()),
        _ => {
            &&& m.piece_at(mv.spec_from_square().spec_index() as int) is Some
            &&& forall|i: int| 0 <= i < candidates.len() ==> (#[trigger] m.piece_at(
                candidates[i].spec_from_square().spec_index() as int,
            )) is Some
        },
    }
}

/// Lists the candidate moves of a position together with their algebraic notation.
pub fn enumerate_candidate_moves_with_algebraic_notation(board: &Board, candidate_moves: &Vec<ChessMove>) -> (r: Vec<
    (ChessMove, String),
>)
    requires
        forall|i: int| 0 <= i < candidate_moves.len() ==> notation_defined(board@, #[trigger] candidate_moves@[i], candidate_moves@),
    ensures
        r.len() == candidate_moves.len(),
        forall|i: int| 0 <= i < r.len() ==> (#[trigger] r@[i]).0 == candidate_moves@[i] && r@[i].1@ == spec_algebraic_notation(
            board@,
            candidate_moves@[i],
            candidate_moves@,
        ),
{
    let mut moves: Vec<(ChessMove, String)> = Vec::new();
    let mut i: usize = 0;
    while i < candidate_moves.len()
        invariant
            i <= candidate_moves.len(),
            moves.len() == i,
            forall|j: int| 0 <= j < candidate_moves.len() ==> notation_defined(board@, #[trigger] candidate_moves@[j], candidate_moves@),
            forall|j: int| 0 <= j < i ==> (#[trigger] moves@[j]).0 == candidate_moves@[j] && moves@[j].1@ == spec_algebraic_notation(
                board@,
                candidate_moves@[j],
                candidate_moves@,
            ),
        decreases candidate_moves.len() - i,
    {
        let chess_move = candidate_moves[i];
        let notation = match chess_move_to_algebraic_notation(&chess_move, board, candidate_moves) {
            Ok(s) => s,
            Err(s) => s,
        };
        moves.push((chess_move, notation));
        i = i + 1;
    }
    moves
}

/// The algebraic notation of `chess_move` on `board`, among `candidate_moves`.
pub fn chess_move_to_algebraic_notation(chess_move: &ChessMove, board: &Board, candidate_moves: &Vec<ChessMove>) -> (r:
    Result<String, String>)
    requires
        notation_defined(board@, *chess_move, candidate_moves@),
    ensures
        r matches Ok(s) && s@ == spec_algebraic_notation(board@, *chess_move, candidate_moves@),
{
    let check_or_checkmate_char = get_check_or_checkmate_char(chess_move);
    if let ChessMove::Castle(castle_move) = chess_move {
        let r = algebraic_castle(castle_move).concat(check_or_checkmate_char);
        return Ok(r);
    }
    let (piece, _) = match board.get(chess_move.from_square()) {
        Some(pc) => pc,
        None => {
            // `notation_defined` rules this out.
            return Ok(String::new());
        },
    };
    let ambiguous_moves = get_ambiguous_moves(chess_move, candidate_moves, board);
    let piece_char = piece.to_algebraic_str();
    let disambiguating_char = get_disambiguating_chars(piece, chess_move, &ambiguous_moves);
    let capture_char = get_capture_char(chess_move);
    let target_square_chars = chess_move.to_square().to_algebraic();
    let promotion_chars = get_promotion_chars(chess_move);
    let algebraic_move = String::from_str(piece_char).concat(disambiguating_char.as_str()).concat(capture_char).concat(
        target_square_chars.as_str(),
    ).concat(promotion_chars.as_str()).concat(check_or_checkmate_char);
    proof {
        assert(algebraic_move@ =~= spec_algebraic_notation(board@, *chess_move, candidate_moves@));
    }
    Ok(algebraic_move)
}

/// "O-O" for a castle on the king's side, "O-O-O" on the queen's.
pub fn algebraic_castle(castle_move: &CastleChessMove) -> (r: String)
    requires
        is_castle_notation_move(castle_move.spec_from_square(), castle_move.spec_to_square()),
    ensures
        r@ == castle_text(castle_move.spec_from_square(), castle_move.spec_to_square()),
{
    let from = castle_move.from_square();
    let to = castle_move.to_square();
    if (from == Square::E1 && to == Square::G1) || (from == Square::E8 && to == Square::G8) {
        proof { reveal_strlit("O-O"); }
        String::from_str("O-O")
    } else {
        proof { reveal_strlit("O-O-O"); }
        String::from_str("O-O-O")
    }
}

/// The file letter of a square.
pub fn get_file_char(from_square: Square) -> (r: char)
    ensures
        r == file_char(from_square.spec_index() as int % 8),
{
    let file = from_square.index() % 8;
    if file == 0 {
        'a'
    } else if file == 1 {
        'b'
    } else if file == 2 {
        'c'
    } else if file == 3 {
        'd'
    } else if file == 4 {
        'e'
    } else if file == 5 {
        'f'
    } else if file == 6 {
        'g'
    } else {
        'h'
    }
}

/// The rank digit of a square.
pub fn get_rank_char(from_square: Square) -> (r: char)
    ensures
        r == rank_char(from_square.spec_index() as int / 8),
{
    let rank = from_square.index() / 8;
    if rank == 0 {
        '1'
    } else if rank == 1 {
        '2'
    } else if rank == 2 {
        '3'
    } else if rank == 3 {
        '4'
    } else if rank == 4 {
        '5'
    } else if rank == 5 {
        '6'
    } else if rank == 6 {
        '7'
    } else {
        '8'
    }
}

/// The candidate moves of the same kind of piece onto the same square from
/// another square: those the notation of `chess_move` must tell it apart from.
pub fn get_ambiguous_moves(chess_move: &ChessMove, candidate_moves: &Vec<ChessMove>, board: &Board) -> (r: Vec<ChessMove>)
    requires
        board@.piece_at(chess_move.spec_from_square().spec_index() as int) is Some,
        forall|i: int| 0 <= i < candidate_moves.len() ==> (#[trigger] board@.piece_at(
            candidate_moves@[i].spec_from_square().spec_index() as int,
        )) is Some,
    ensures
        r@ == spec_ambiguous_moves(board@, *chess_move, candidate_moves@),
{
    let from_square = chess_move.from_square();
    let to_square = chess_move.to_square();
    let piece = match board.get(from_square) {
        Some((p, _)) => p,
        None => Piece::Pawn,
    };
    let ghost pred = ambiguity_pred(board@, *chess_move);
    let mut ambiguous_moves: Vec<ChessMove> = Vec::new();
    let mut i: usize = 0;
    while i < candidate_moves.len()
        invariant
            i <= candidate_moves.len(),
            pred == ambiguity_pred(board@, *chess_move),
            piece == moving_piece(board@, *chess_move),
            from_square == chess_move.spec_from_square(),
            to_square == chess_move.spec_to_square(),
            forall|j: int| 0 <= j < candidate_moves.len() ==> (#[trigger] board@.piece_at(
                candidate_moves@[j].spec_from_square().spec_index() as int,
            )) is Some,
            ambiguous_moves@ == candidate_moves@.subrange(0, i as int).filter(pred),
        decreases candidate_moves.len() - i,
    {
        let other_move = candidate_moves[i];
        let other_piece = match board.get(other_move.from_square()) {
            Some((p, _)) => p,
            None => Piece::Pawn,
        };
        proof {
            reveal(Seq::filter);
            assert(candidate_moves@.subrange(0, i as int + 1).drop_last() =~= candidate_moves@.subrange(0, i as int));
            assert(board@.piece_at(candidate_moves@[i as int].spec_from_square().spec_index() as int) is Some);
        }
        if other_move.from_square() != from_square && other_move.to_square() == to_square && other_piece == piece {
            ambiguous_moves.push(other_move);
        }
        i = i + 1;
    }
    proof { assert(candidate_moves@.subrange(0, i as int) =~= candidate_moves@); }
    ambiguous_moves
}

/// The characters that tell `chess_move` apart from `ambiguous_moves`, the
/// other moves of the same kind of piece to the same square.
///
/// A pawn capture always names the file it starts from. Otherwise, with no
/// ambiguous moves nothing is needed. With some, the starting file is named
/// if no other move starts on it; else the starting rank, if no other move
/// starts on that; else the whole starting square.
pub fn get_disambiguating_chars(piece: Piece, chess_move: &ChessMove, ambiguous_moves: &Vec<ChessMove>) -> (r: String)
    ensures
        r@ == disambiguation(piece, *chess_move, ambiguous_moves@),
{
    let from = chess_move.from_square();
    let index = from.index();
    let starting_file_char = get_file_char(from);
    let starting_rank_char = get_rank_char(from);
    let file = file_str(index % 8);
    let rank = rank_str(index / 8);

    // Pawn captures always name their file (as in "dxc3").
    if piece == Piece::Pawn && chess_move.captures().is_some() {
        return String::from_str(file);
    }
    let mut same_file = false;
    let mut same_rank = false;
    let mut i: usize = 0;
    while i < ambiguous_moves.len()
        invariant
            i <= ambiguous_moves.len(),
            from == chess_move.spec_from_square(),
            index == from.spec_index(),
            starting_file_char == file_char(index as int % 8),
            starting_rank_char == rank_char(index as int / 8),
            same_file <==> exists|j: int| 0 <= j < i && #[trigger] ambiguous_moves@[j].spec_from_square().spec_index() % 8
                == from.spec_index() % 8,
            same_rank <==> exists|j: int| 0 <= j < i && #[trigger] ambiguous_moves@[j].spec_from_square().spec_index() / 8
                == from.spec_index() / 8,
        decreases ambiguous_moves.len() - i,
    {
        let other = ambiguous_moves[i].from_square();
        proof {
            crate::square::lemma_index_bound(other);
            crate::square::lemma_index_bound(from);
        }
        if get_file_char(other) == starting_file_char {
            same_file = true;
        }
        if get_rank_char(other) == starting_rank_char {
            same_rank = true;
        }
        i = i + 1;
    }
    match (same_file, same_rank) {
        (true, true) => from.to_algebraic(),
        (true, false) => String::from_str(rank),
        (false, true) => String::from_str(file),
        (false, false) => if ambiguous_moves.len() == 0 {
            String::new()
        } else {
            String::from_str(file)
        },
    }
}

/// "+" for a checking move, "#" for a mating move, "" otherwise.
pub fn get_check_or_checkmate_char(chess_move: &ChessMove) -> (r: &'static str)
    ensures
        r@ == check_text(chess_move.spec_effect()),
{
    match chess_move.effect() {
        Some(ChessMoveEffect::Check) => {
            proof { reveal_strlit("+"); }
            "+"
        },
        Some(ChessMoveEffect::Checkmate) => {
            proof { reveal_strlit("#"); }
            "#"
        },
        _ => {
            proof { reveal_strlit(""); }
            ""
        },
    }
}

/// "x" for a capture, "" otherwise.
pub fn get_capture_char(chess_move: &ChessMove) -> (r: &'static str)
    ensures
        r@ == capture_text(*chess_move),
{
    if chess_move.captures().is_some() {
        proof { reveal_strlit("x"); }
        "x"
    } else {
        proof { reveal_strlit(""); }
        ""
    }
}

/// "=" and the new piece's letter for a promotion, "" otherwise.
pub fn get_promotion_chars(chess_move: &ChessMove) -> (r: String)
    ensures
        r@ == promotion_text(*chess_move),
{
    if let ChessMove::PawnPromotion(promotion_move) = chess_move {
        proof { reveal_strlit("="); }
        String::from_str("=").concat(promotion_move.promote_to_piece().to_algebraic_str())
    } else {
        String::new()
    }
}

/// The notation of a move of a piece other than a pawn (and not a castle)
/// begins with that piece's letter, a capital among N, B, R, Q and K, so
/// moves of different kinds of piece begin differently; the target square
/// follows somewhere after it.
pub proof fn lemma_notation_begins_with_piece_letter(m: BoardModel, mv: ChessMove, candidates: Seq<ChessMove>)
    requires
        !(mv is Castle),
        moving_piece(m, mv) != Piece::Pawn,
    ensures
        spec_algebraic_notation(m, mv, candidates).len() >= 3,
        seq!['N', 'B', 'R', 'Q', 'K'].contains(spec_algebraic_notation(m, mv, candidates)[0]),
        spec_algebraic_notation(m, mv, candidates)[0] == piece_letter(moving_piece(m, mv))[0],
{
    let piece = moving_piece(m, mv);
    crate::piece::lemma_piece_letters_name_pieces(piece, piece);
    let rest = disambiguation(piece, mv, spec_ambiguous_moves(m, mv, candidates)) + capture_text(mv)
        + spec_algebraic(mv.spec_to_square()) + promotion_text(mv) + check_text(mv.spec_effect());
    assert(spec_algebraic_notation(m, mv, candidates) == piece_letter(piece) + rest);
    assert((piece_letter(piece) + rest)[0] == piece_letter(piece)[0]);
}

/// The notation of any move ends in "+" exactly when the move gives check
/// and in "#" exactly when it mates; a castle's notation begins "O-O", and
/// on the queen's side "O-O-O".
pub proof fn lemma_notation_marks_check_and_castles(m: BoardModel, mv: ChessMove, candidates: Seq<ChessMove>)
    ensures
        spec_algebraic_notation(m, mv, candidates).len() > 0,
        (spec_algebraic_notation(m, mv, candidates).last() == '+') <==> mv.spec_effect() == Some(ChessMoveEffect::Check),
        (spec_algebraic_notation(m, mv, candidates).last() == '#') <==> mv.spec_effect() == Some(
            ChessMoveEffect::Checkmate,
        ),
        mv is Castle ==> spec_algebraic_notation(m, mv, candidates).take(3) == seq!['O', '-', 'O'],
        (mv is Castle && (mv.spec_to_square() == Square::C1 || mv.spec_to_square() == Square::C8)) ==> spec_algebraic_notation(
            m,
            mv,
            candidates,
        ).take(5) == seq!['O', '-', 'O', '-', 'O'],
{
    let n = spec_algebraic_notation(m, mv, candidates);
    let suffix = check_text(mv.spec_effect());
    match mv {
        ChessMove::Castle(c) => {
            let body = castle_text(c.spec_from_square(), c.spec_to_square());
            assert(n == body + suffix);
            assert(body.last() == 'O');
            if suffix.len() == 0 {
                assert(n =~= body);
            } else {
                assert(n.last() == suffix.last());
            }
            assert(n.take(3) =~= seq!['O', '-', 'O']);
            if mv.spec_to_square() == Square::C1 || mv.spec_to_square() == Square::C8 {
                assert(body.len() == 5);
                assert(n.take(5) =~= seq!['O', '-', 'O', '-', 'O']);
            }
        },
        _ => {
            let piece = moving_piece(m, mv);
            let head = piece_letter(piece) + disambiguation(piece, mv, spec_ambiguous_moves(m, mv, candidates))
                + capture_text(mv) + spec_algebraic(mv.spec_to_square());
            let body = head + promotion_text(mv);
            assert(n == body + suffix);
            crate::square::lemma_square_name_spells_file_and_rank(mv.spec_to_square());
            assert(head.last() == spec_algebraic(mv.spec_to_square())[1]);
            if promotion_text(mv).len() == 0 {
                assert(body =~= head);
            } else {
                assert(body.last() == promotion_text(mv).last());
                crate::piece::lemma_piece_letters_name_pieces(
                    mv->PawnPromotion_0.spec_promote_to_piece(),
                    mv->PawnPromotion_0.spec_promote_to_piece(),
                );
                assert(seq!['N', 'B', 'R', 'Q', 'K'][0] == 'N' && seq!['N', 'B', 'R', 'Q', 'K'][1] == 'B'
                    && seq!['N', 'B', 'R', 'Q', 'K'][2] == 'R' && seq!['N', 'B', 'R', 'Q', 'K'][3] == 'Q'
                    && seq!['N', 'B', 'R', 'Q', 'K'][4] == 'K');
            }
            assert(body.last() != '+' && body.last() != '#');
            if suffix.len() == 0 {
                assert(n =~= body);
            } else {
                assert(n.last() == suffix.last());
            }
        },
    }
}

} // verus!
