use chess::board::Board;
use chess::chess_move::capture::Capture;
use chess::chess_move::castle::CastleChessMove;
use chess::chess_move::chess_move::ChessMove;
use chess::chess_move::chess_move_effect::ChessMoveEffect;
use chess::chess_move::en_passant::EnPassantChessMove;
use chess::chess_move::pawn_promotion::PawnPromotionChessMove;
use chess::chess_move::standard::StandardChessMove;
use chess::chess_search::history_table::HistoryTable;
use chess::chess_search::move_orderer::{
    clear_history, compare_piece_types, get_history_score, mvv_lva_score, record_history_cutoff, ChessMoveOrderer,
};
use chess::piece::{Color, Piece};
use chess::square::Square;

fn ordering_board(rows: [&str; 8]) -> Board {
    let mut board = Board::empty();
    for (i, row) in rows.iter().enumerate() {
        let rank = 7 - i as u8;
        for (file, c) in row.chars().enumerate() {
            let color = if c.is_ascii_uppercase() { Color::White } else { Color::Black };
            let piece = match c.to_ascii_lowercase() {
                'p' => Piece::Pawn,
                'n' => Piece::Knight,
                'b' => Piece::Bishop,
                'r' => Piece::Rook,
                'q' => Piece::Queen,
                'k' => Piece::King,
                _ => continue,
            };
            board.put(Square::from_index(rank * 8 + file as u8), piece, color).unwrap();
        }
    }
    board
}

fn create_test_board() -> Board {
    ordering_board(["r...k..r", "....p...", "..n.....", "...p....", "....P...", "..B..N..", "........", "R...QK.."])
}

fn quiet(from: Square, to: Square) -> ChessMove {
    let mut m = ChessMove::Standard(StandardChessMove::new(from, to, None));
    m.set_effect(ChessMoveEffect::NoCheck);
    m
}

fn capture(from: Square, to: Square, piece: Piece) -> ChessMove {
    let mut m = ChessMove::Standard(StandardChessMove::new(from, to, Some(Capture(piece))));
    m.set_effect(ChessMoveEffect::NoCheck);
    m
}

fn promotion(from: Square, to: Square, piece: Piece) -> ChessMove {
    let mut m = ChessMove::PawnPromotion(PawnPromotionChessMove::new(from, to, None, piece));
    m.set_effect(ChessMoveEffect::NoCheck);
    m
}

fn en_passant(from: Square, to: Square) -> ChessMove {
    let mut m = ChessMove::EnPassant(EnPassantChessMove::new(from, to));
    m.set_effect(ChessMoveEffect::NoCheck);
    m
}

fn castle_kingside(color: Color) -> ChessMove {
    let mut m = ChessMove::Castle(CastleChessMove::castle_kingside(color));
    m.set_effect(ChessMoveEffect::NoCheck);
    m
}

fn piece_moved(board: &Board, m: &ChessMove) -> Option<Piece> {
    match m {
        ChessMove::Standard(s) => board.get(s.from_square()).map(|(p, _)| p),
        _ => None,
    }
}

#[test]
fn test_sort_chess_moves() {
    let board = create_test_board();
    let history = HistoryTable::new();
    let mut moves = vec![
        quiet(Square::E4, Square::E5),
        capture(Square::E4, Square::D5, Piece::Pawn),
        capture(Square::D1, Square::D5, Piece::Pawn),
        capture(Square::D1, Square::E8, Piece::Queen),
        promotion(Square::E7, Square::E8, Piece::Queen),
        en_passant(Square::E5, Square::D6),
        castle_kingside(Color::White),
        quiet(Square::A1, Square::A3),
        quiet(Square::F3, Square::G5),
        quiet(Square::C3, Square::E5),
        quiet(Square::E2, Square::E4),
    ];
    ChessMoveOrderer.order_moves(&mut moves, &board, &history);
    assert!(moves[0].captures().is_some());
    assert!(moves[1].captures().is_some());
    assert!(moves[2].captures().is_some());
    assert!(matches!(moves[3], ChessMove::EnPassant(_)));
    assert!(matches!(moves[4], ChessMove::PawnPromotion(_)));
    assert_eq!(piece_moved(&board, &moves[5]), Some(Piece::Rook));
    assert_eq!(piece_moved(&board, &moves[6]), Some(Piece::Knight));
    assert_eq!(piece_moved(&board, &moves[7]), Some(Piece::Bishop));
    assert_eq!(piece_moved(&board, &moves[8]), Some(Piece::Pawn));
    assert!(matches!(moves[9], ChessMove::Castle(_)));
    assert!(matches!(moves[10], ChessMove::Standard(_)));
}

#[test]
fn test_sort_only_standard_moves() {
    let board = create_test_board();
    let history = HistoryTable::new();
    let mut moves = vec![
        quiet(Square::E4, Square::E5),
        quiet(Square::F3, Square::G5),
        quiet(Square::A1, Square::A3),
        quiet(Square::C3, Square::E5),
    ];
    ChessMoveOrderer.order_moves(&mut moves, &board, &history);
    assert_eq!(piece_moved(&board, &moves[0]), Some(Piece::Rook));
    assert_eq!(piece_moved(&board, &moves[1]), Some(Piece::Knight));
    assert_eq!(piece_moved(&board, &moves[2]), Some(Piece::Bishop));
    assert_eq!(piece_moved(&board, &moves[3]), Some(Piece::Pawn));
}

#[test]
fn test_sort_captures_mvv_lva() {
    let board = create_test_board();
    let history = HistoryTable::new();
    let mut moves = vec![
        capture(Square::F3, Square::D5, Piece::Pawn),
        capture(Square::E1, Square::D5, Piece::Pawn),
        capture(Square::E4, Square::D5, Piece::Pawn),
        quiet(Square::A1, Square::A3),
    ];
    ChessMoveOrderer.order_moves(&mut moves, &board, &history);
    assert!(moves[0].captures().is_some());
    assert!(moves[1].captures().is_some());
    assert!(moves[2].captures().is_some());
    assert_eq!(moves[0].from_square(), Square::E4);
    assert_eq!(moves[1].from_square(), Square::F3);
    assert_eq!(moves[2].from_square(), Square::E1);
    assert!(moves[3].captures().is_none());
}

#[test]
fn test_is_tactical_captures_and_promotions_only() {
    let board = Board::default();
    assert!(capture(Square::E4, Square::D5, Piece::Pawn).is_tactical(&board));
    assert!(promotion(Square::E7, Square::E8, Piece::Queen).is_tactical(&board));
    assert!(!quiet(Square::E2, Square::E4).is_tactical(&board));
    assert!(!castle_kingside(Color::White).is_tactical(&board));
}

#[test]
fn test_pick_next_selects_best_first() {
    let board = create_test_board();
    let history = HistoryTable::new();
    let mut moves = vec![
        quiet(Square::E4, Square::E5),
        quiet(Square::F3, Square::G5),
        capture(Square::E4, Square::D5, Piece::Pawn),
    ];
    let mut sorted = moves.clone();
    ChessMoveOrderer.order_moves(&mut sorted, &board, &history);
    ChessMoveOrderer.pick_next(&mut moves, 0, &board, &history);
    assert_eq!(moves[0], sorted[0], "pick_next should select the same best move as full sort");
}

#[test]
fn test_pick_next_incremental_equals_full_sort() {
    let board = create_test_board();
    let history = HistoryTable::new();
    let mut moves = vec![
        quiet(Square::E4, Square::E5),
        capture(Square::E4, Square::D5, Piece::Pawn),
        capture(Square::D1, Square::D5, Piece::Pawn),
        quiet(Square::A1, Square::A3),
        quiet(Square::F3, Square::G5),
        quiet(Square::C3, Square::E5),
    ];
    let mut sorted = moves.clone();
    ChessMoveOrderer.order_moves(&mut sorted, &board, &history);
    for i in 0..moves.len() {
        ChessMoveOrderer.pick_next(&mut moves, i, &board, &history);
    }
    for i in 0..sorted.len() {
        assert_eq!(moves[i], sorted[i], "Mismatch at index {i}: pick_next gave {:?}, sort gave {:?}", moves[i], sorted[i]);
    }
}

#[test]
fn test_pick_next_noop_on_last_element() {
    let board = create_test_board();
    let history = HistoryTable::new();
    let mut moves = vec![quiet(Square::E4, Square::E5)];
    let original = moves[0];
    ChessMoveOrderer.pick_next(&mut moves, 0, &board, &history);
    assert_eq!(moves[0], original, "Single element should be unchanged");
}

#[test]
fn history_breaks_ties_between_quiet_moves() {
    let board = create_test_board();
    let mut history = HistoryTable::new();
    record_history_cutoff(&mut history, Square::C3, Square::E5, 3);
    assert_eq!(get_history_score(&history, Square::C3, Square::E5), 16);
    let mut moves = vec![quiet(Square::A1, Square::A3), quiet(Square::C3, Square::E5)];
    ChessMoveOrderer.order_moves(&mut moves, &board, &history);
    // The bishop move caused a cutoff, so it comes before the rook move.
    assert_eq!(moves[0].from_square(), Square::C3);
    clear_history(&mut history);
    assert_eq!(get_history_score(&history, Square::C3, Square::E5), 0);
}

#[test]
fn record_cutoff_skips_tactical_moves() {
    let board = create_test_board();
    let mut history = HistoryTable::new();
    ChessMoveOrderer.record_cutoff(&capture(Square::E4, Square::D5, Piece::Pawn), &board, 5, &mut history);
    assert_eq!(get_history_score(&history, Square::E4, Square::D5), 0);
    ChessMoveOrderer.record_cutoff(&quiet(Square::A1, Square::A3), &board, 1, &mut history);
    assert_eq!(get_history_score(&history, Square::A1, Square::A3), 4);
}

#[test]
fn mvv_lva_prefers_cheap_attackers() {
    let board = create_test_board();
    // Pawn takes pawn: 100 * 10 - 100; queen (e1) takes pawn: 100 * 10 - 900.
    assert_eq!(mvv_lva_score(&capture(Square::E4, Square::D5, Piece::Pawn), &board), 900);
    assert_eq!(mvv_lva_score(&capture(Square::E1, Square::D5, Piece::Pawn), &board), 100);
    assert_eq!(compare_piece_types(Some(Piece::Rook), Some(Piece::Pawn)), std::cmp::Ordering::Less);
    assert_eq!(compare_piece_types(None, Some(Piece::King)), std::cmp::Ordering::Equal);
}

#[test]
fn quiet_checks_are_not_tactical() {
    let board = Board::default();
    let mut check = quiet(Square::D1, Square::H5);
    check.set_effect(chess::chess_move::chess_move_effect::ChessMoveEffect::Check);
    assert!(!check.is_tactical(&board));
    let mut mate = quiet(Square::D1, Square::F7);
    mate.set_effect(chess::chess_move::chess_move_effect::ChessMoveEffect::Checkmate);
    assert!(!mate.is_tactical(&board));
    let mut capturing_check = capture(Square::E4, Square::D5, Piece::Pawn);
    capturing_check.set_effect(chess::chess_move::chess_move_effect::ChessMoveEffect::Check);
    assert!(capturing_check.is_tactical(&board));
}
