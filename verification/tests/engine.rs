use chess::chess_move::chess_move::ChessMove;
use chess::chess_move::chess_move_effect::ChessMoveEffect;
use chess::chess_move::pawn_promotion::PawnPromotionChessMove;
use chess::chess_move::standard::StandardChessMove;
use chess::game::engine::{
    contempt, find_equal_move, find_move_by_notation, find_move_by_squares, notation_for_move, MoveHistoryEntry,
    CONTEMPT_VALUE,
};
use chess::piece::{Color, Piece};
use chess::square::Square;

fn candidates() -> Vec<(ChessMove, String)> {
    let mut moves = vec![
        (ChessMove::Standard(StandardChessMove::new(Square::E2, Square::E4, None)), "e4".to_string()),
        (ChessMove::Standard(StandardChessMove::new(Square::G1, Square::F3, None)), "Nf3".to_string()),
    ];
    for piece in [Piece::Queen, Piece::Rook, Piece::Bishop, Piece::Knight] {
        let letter = match piece {
            Piece::Queen => "Q",
            Piece::Rook => "R",
            Piece::Bishop => "B",
            _ => "N",
        };
        moves.push((
            ChessMove::PawnPromotion(PawnPromotionChessMove::new(Square::B7, Square::B8, None, piece)),
            format!("b8={}", letter),
        ));
    }
    moves
}

#[test]
fn contempt_counts_draws_against_the_searching_side() {
    assert_eq!(CONTEMPT_VALUE, 25);
    assert_eq!(contempt(Color::White), -25);
    assert_eq!(contempt(Color::Black), 25);
}

#[test]
fn moves_are_found_by_their_squares() {
    let moves = candidates();
    assert_eq!(find_move_by_squares(&moves, Square::E2, Square::E4, None), Some(0));
    assert_eq!(find_move_by_squares(&moves, Square::G1, Square::F3, None), Some(1));
    assert_eq!(find_move_by_squares(&moves, Square::E2, Square::E3, None), None);
    // Without a piece the first promotion between the squares is taken.
    assert_eq!(find_move_by_squares(&moves, Square::B7, Square::B8, None), Some(2));
    assert_eq!(find_move_by_squares(&moves, Square::B7, Square::B8, Some(Piece::Knight)), Some(5));
    assert_eq!(find_move_by_squares(&moves, Square::B7, Square::B8, Some(Piece::Rook)), Some(3));
    // A piece asks for a promotion, which a standard move is not.
    assert_eq!(find_move_by_squares(&moves, Square::E2, Square::E4, Some(Piece::Queen)), None);
}

#[test]
fn moves_are_found_by_their_notation() {
    let moves = candidates();
    assert_eq!(find_move_by_notation(&moves, "Nf3"), Some(1));
    assert_eq!(find_move_by_notation(&moves, "b8=B"), Some(4));
    assert_eq!(find_move_by_notation(&moves, "nf3"), None);
    assert_eq!(find_move_by_notation(&moves, ""), None);
}

#[test]
fn a_chosen_move_is_written_with_the_notation_of_its_squares() {
    let moves = candidates();
    let mut best = ChessMove::Standard(StandardChessMove::new(Square::G1, Square::F3, None));
    best.set_effect(ChessMoveEffect::Check);
    assert_eq!(notation_for_move(&moves, best), Some("Nf3".to_string()));
    let other = ChessMove::Standard(StandardChessMove::new(Square::A2, Square::A4, None));
    assert_eq!(notation_for_move(&moves, other), None);
}

#[test]
fn the_last_move_is_found_by_equality() {
    let moves = candidates();
    let last = ChessMove::PawnPromotion(PawnPromotionChessMove::new(Square::B7, Square::B8, None, Piece::Bishop));
    assert_eq!(find_equal_move(&moves, &last), Some(4));
    let mut checking = ChessMove::Standard(StandardChessMove::new(Square::E2, Square::E4, None));
    checking.set_effect(ChessMoveEffect::Check);
    assert_eq!(find_equal_move(&moves, &checking), Some(0));
    let absent = ChessMove::Standard(StandardChessMove::new(Square::D2, Square::D4, None));
    assert_eq!(find_equal_move(&moves, &absent), None);
}

#[test]
fn history_entries_keep_move_notation_and_score() {
    let entry = MoveHistoryEntry {
        chess_move: ChessMove::Standard(StandardChessMove::new(Square::E2, Square::E4, None)),
        notation: "e4".to_string(),
        score: Some(12),
    };
    let copy = entry.clone();
    assert_eq!(copy.notation, "e4");
    assert_eq!(copy.score, Some(12));
    assert_eq!(copy.chess_move, entry.chess_move);
}
