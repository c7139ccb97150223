use chess::board::{Board, CastleRights};
use chess::chess_move::capture::Capture;
use chess::chess_move::castle::CastleChessMove;
use chess::chess_move::chess_move::ChessMove;
use chess::chess_move::chess_move_effect::ChessMoveEffect;
use chess::chess_move::en_passant::EnPassantChessMove;
use chess::chess_move::pawn_promotion::PawnPromotionChessMove;
use chess::chess_move::standard::StandardChessMove;
use chess::piece::{Color, Piece};
use chess::square::Square;

/// A board from a diagram: eight rows from rank 8 down to rank 1.
fn position(rows: [&str; 8]) -> Board {
    let mut board = Board::empty();
    for (i, row) in rows.iter().enumerate() {
        let rank = 7 - i as u8;
        for (file, c) in row.chars().enumerate() {
            let color = if c.is_ascii_uppercase() { Color::White } else { Color::Black };
            let piece = match c.to_ascii_lowercase() {
                'p' => Piece::Pawn,
                'n' => Piece::Knight,
                'b' => Piece::Bishop,
                'r' => Piece::Rook,
                'q' => Piece::Queen,
                'k' => Piece::King,
                _ => continue,
            };
            board.put(Square::from_index(rank * 8 + file as u8), piece, color).unwrap();
        }
    }
    board
}

/// Everything a board shows: each square, the side to move, the clocks,
/// the en passant target and the castle rights.
fn snapshot(board: &Board) -> (Vec<Option<(Piece, Color)>>, Color, u32, u32, Option<Square>, CastleRights) {
    let squares = (0..64u8).map(|i| board.get(Square::from_index(i))).collect();
    (
        squares,
        board.turn(),
        board.halfmove_clock(),
        board.fullmove_clock(),
        board.peek_en_passant_target(),
        board.peek_castle_rights(),
    )
}

fn std_move(from: Square, to: Square, captures: Option<Capture>) -> ChessMove {
    let mut chess_move = ChessMove::Standard(StandardChessMove::new(from, to, captures));
    chess_move.set_effect(ChessMoveEffect::NoCheck);
    chess_move
}

fn lacks(board: &Board, rights: CastleRights) -> bool {
    board.peek_castle_rights().intersection(rights) == CastleRights::none()
}

#[test]
fn test_apply_chess_move() {
    let mut board = Board::default();
    let moves = vec![
        (Square::E2, Square::E4, (Piece::Pawn, Color::White), None),
        (Square::E7, Square::E5, (Piece::Pawn, Color::Black), None),
        (Square::D2, Square::D4, (Piece::Pawn, Color::White), None),
        (Square::E5, Square::D4, (Piece::Pawn, Color::Black), Some(Capture(Piece::Pawn))),
    ];
    for (from_square, to_square, moved, expected_capture) in &moves {
        let chess_move = StandardChessMove::new(*from_square, *to_square, *expected_capture);
        chess_move.apply(&mut board).unwrap();
        assert_eq!(board.get(*to_square).unwrap(), *moved);
    }
}

#[test]
fn test_undo_pawn_move() {
    let mut board = Board::default();
    let before = snapshot(&board);
    let chess_move = std_move(Square::A2, Square::A4, None);
    chess_move.apply(&mut board).unwrap();
    chess_move.undo(&mut board).unwrap();
    assert_eq!(before, snapshot(&board));
}

#[test]
fn test_undo_knight_move() {
    let mut board = Board::default();
    let before = snapshot(&board);
    let chess_move = std_move(Square::B1, Square::C3, None);
    chess_move.apply(&mut board).unwrap();
    chess_move.undo(&mut board).unwrap();
    let chess_move_2 = std_move(Square::G1, Square::F3, None);
    chess_move_2.apply(&mut board).unwrap();
    chess_move_2.undo(&mut board).unwrap();
    assert_eq!(before, snapshot(&board));
}

#[test]
fn test_undo_capture() {
    let mut board = position([
        "........", "........", "........", "........", ".p......", "........", "N.......", "........",
    ]);
    let capture = std_move(Square::A2, Square::B4, Some(Capture(Piece::Pawn)));
    capture.apply(&mut board).unwrap();
    capture.undo(&mut board).unwrap();
    assert_eq!(Some((Piece::Knight, Color::White)), board.get(Square::A2));
    assert_eq!(Some((Piece::Pawn, Color::Black)), board.get(Square::B4));
}

#[test]
fn test_white_lose_kingside_castle_rights() {
    let mut board = position([
        "........", "........", "........", "........", "........", "........", "........", "....K..R",
    ]);
    assert!(!lacks(&board, CastleRights::white_kingside()));
    std_move(Square::H1, Square::H2, None).apply(&mut board).unwrap();
    assert!(lacks(&board, CastleRights::white_kingside()));
}

#[test]
fn test_white_lose_queenside_castle_rights() {
    let mut board = position([
        "........", "........", "........", "........", "........", "........", "........", "R...K...",
    ]);
    assert!(!lacks(&board, CastleRights::white_queenside()));
    std_move(Square::A1, Square::A2, None).apply(&mut board).unwrap();
    assert!(lacks(&board, CastleRights::white_queenside()));
}

#[test]
fn test_black_lose_kingside_castle_rights() {
    let mut board = position([
        "....k..r", "........", "........", "........", "........", "........", "........", "........",
    ]);
    assert!(!lacks(&board, CastleRights::black_kingside()));
    std_move(Square::H8, Square::H2, None).apply(&mut board).unwrap();
    assert!(lacks(&board, CastleRights::black_kingside()));
}

#[test]
fn test_black_lose_queenside_castle_rights() {
    let mut board = position([
        "r...k...", "........", "........", "........", "........", "........", "........", "........",
    ]);
    assert!(!lacks(&board, CastleRights::black_queenside()));
    std_move(Square::A8, Square::A2, None).apply(&mut board).unwrap();
    assert!(lacks(&board, CastleRights::black_queenside()));
}

#[test]
fn test_white_lose_queenside_castle_rights_from_capture() {
    let mut board = position([
        ".......b", "........", "........", "........", "........", "........", "........", "R...K..R",
    ]);
    assert!(!lacks(&board, CastleRights::white_queenside()));
    std_move(Square::H8, Square::A1, Some(Capture(Piece::Rook))).apply(&mut board).unwrap();
    assert!(lacks(&board, CastleRights::white_queenside()));
}

#[test]
fn test_white_lose_kingside_castle_rights_from_capture() {
    let mut board = position([
        "b.......", "........", "........", "........", "........", "........", "........", "R...K..R",
    ]);
    assert!(!lacks(&board, CastleRights::white_kingside()));
    std_move(Square::A8, Square::H1, Some(Capture(Piece::Rook))).apply(&mut board).unwrap();
    assert!(lacks(&board, CastleRights::white_kingside()));
}

#[test]
fn test_black_lose_queenside_castle_rights_from_capture() {
    let mut board = position([
        "r...k..r", "........", "........", "........", "........", "........", "........", ".......B",
    ]);
    assert!(!lacks(&board, CastleRights::black_queenside()));
    std_move(Square::H1, Square::A8, Some(Capture(Piece::Rook))).apply(&mut board).unwrap();
    assert!(lacks(&board, CastleRights::black_queenside()));
}

#[test]
fn test_black_lose_kingside_castle_rights_from_capture() {
    let mut board = position([
        "r...k..r", "........", "........", "........", "........", "........", "........", "B.......",
    ]);
    assert!(!lacks(&board, CastleRights::black_kingside()));
    std_move(Square::A1, Square::H8, Some(Capture(Piece::Rook))).apply(&mut board).unwrap();
    assert!(lacks(&board, CastleRights::black_kingside()));
}

#[test]
fn test_white_lose_all_castle_rights() {
    let mut board = position([
        "........", "........", "........", "........", "........", "........", "........", "R...K..R",
    ]);
    assert!(!lacks(&board, CastleRights::white_kingside()));
    assert!(!lacks(&board, CastleRights::white_queenside()));
    std_move(Square::E1, Square::E2, None).apply(&mut board).unwrap();
    assert!(lacks(&board, CastleRights::white_kingside()));
    assert!(lacks(&board, CastleRights::white_queenside()));
}

#[test]
fn test_black_lose_all_castle_rights() {
    let mut board = position([
        "r...k..r", "........", "........", "........", "........", "........", "........", "........",
    ]);
    assert!(!lacks(&board, CastleRights::black_kingside()));
    assert!(!lacks(&board, CastleRights::black_queenside()));
    std_move(Square::E8, Square::E7, None).apply(&mut board).unwrap();
    assert!(lacks(&board, CastleRights::black_kingside()));
    assert!(lacks(&board, CastleRights::black_queenside()));
}

#[test]
fn test_apply_and_undo_castle_white_kingside() {
    let mut board = position([
        "........", "........", "........", "........", "........", "........", "........", "....K..R",
    ]);
    let castle = ChessMove::Castle(CastleChessMove::castle_kingside(Color::White));
    castle.apply(&mut board).unwrap();
    assert_eq!(Some((Piece::King, Color::White)), board.get(Square::G1));
    assert_eq!(Some((Piece::Rook, Color::White)), board.get(Square::F1));
    castle.undo(&mut board).unwrap();
    assert_eq!(Some((Piece::King, Color::White)), board.get(Square::E1));
    assert_eq!(Some((Piece::Rook, Color::White)), board.get(Square::H1));
}

#[test]
fn test_apply_and_undo_castle_black_kingside() {
    let mut board = position([
        "....k..r", "........", "........", "........", "........", "........", "........", "........",
    ]);
    let castle = ChessMove::Castle(CastleChessMove::castle_kingside(Color::Black));
    castle.apply(&mut board).unwrap();
    assert_eq!(Some((Piece::King, Color::Black)), board.get(Square::G8));
    assert_eq!(Some((Piece::Rook, Color::Black)), board.get(Square::F8));
    castle.undo(&mut board).unwrap();
    assert_eq!(Some((Piece::King, Color::Black)), board.get(Square::E8));
    assert_eq!(Some((Piece::Rook, Color::Black)), board.get(Square::H8));
}

#[test]
fn test_apply_and_undo_castle_white_queenside() {
    let mut board = position([
        "........", "........", "........", "........", "........", "........", "........", "R...K...",
    ]);
    let castle = ChessMove::Castle(CastleChessMove::castle_queenside(Color::White));
    castle.apply(&mut board).unwrap();
    assert_eq!(Some((Piece::King, Color::White)), board.get(Square::C1));
    assert_eq!(Some((Piece::Rook, Color::White)), board.get(Square::D1));
    castle.undo(&mut board).unwrap();
    assert_eq!(Some((Piece::King, Color::White)), board.get(Square::E1));
    assert_eq!(Some((Piece::Rook, Color::White)), board.get(Square::A1));
}

#[test]
fn test_apply_and_undo_castle_black_queenside() {
    let mut board = position([
        "r...k...", "........", "........", "........", "........", "........", "........", "........",
    ]);
    let castle = ChessMove::Castle(CastleChessMove::castle_queenside(Color::Black));
    castle.apply(&mut board).unwrap();
    assert_eq!(Some((Piece::King, Color::Black)), board.get(Square::C8));
    assert_eq!(Some((Piece::Rook, Color::Black)), board.get(Square::D8));
    castle.undo(&mut board).unwrap();
    assert_eq!(Some((Piece::King, Color::Black)), board.get(Square::E8));
    assert_eq!(Some((Piece::Rook, Color::Black)), board.get(Square::A8));
}

#[test]
fn test_apply_and_undo_en_passant() {
    let mut board = position([
        "........", "........", "........", "........", "....p...", "........", "...P....", "........",
    ]);
    let standard_move_revealing_ep = std_move(Square::D2, Square::D4, None);
    standard_move_revealing_ep.apply(&mut board).unwrap();
    assert_eq!(Some((Piece::Pawn, Color::White)), board.get(Square::D4));
    assert_eq!(Some(Square::D3), board.peek_en_passant_target());

    let en_passant = ChessMove::EnPassant(EnPassantChessMove::new(Square::E4, Square::D3));
    en_passant.apply(&mut board).unwrap();
    assert_eq!(Some((Piece::Pawn, Color::Black)), board.get(Square::D3));
    assert_eq!(None, board.get(Square::D4));
    assert_eq!(None, board.peek_en_passant_target());

    en_passant.undo(&mut board).unwrap();
    assert_eq!(Some((Piece::Pawn, Color::White)), board.get(Square::D4));
    assert_eq!(Some((Piece::Pawn, Color::Black)), board.get(Square::E4));
    assert_eq!(Some(Square::D3), board.peek_en_passant_target());
}

#[test]
fn test_apply_and_undo_pawn_promotion() {
    let mut board = position([
        "........", "P.......", "........", "........", "........", "........", "........", "........",
    ]);
    let promotion = PawnPromotionChessMove::new(Square::A7, Square::A8, None, Piece::Queen);
    promotion.apply(&mut board).unwrap();
    assert_eq!(None, board.get(Square::A7));
    assert_eq!(Some((Piece::Queen, Color::White)), board.get(Square::A8));
    promotion.undo(&mut board).unwrap();
    assert_eq!(Some((Piece::Pawn, Color::White)), board.get(Square::A7));
    assert_eq!(None, board.get(Square::A8));
}

#[test]
fn test_apply_and_undo_pawn_promotion_with_capture() {
    let mut board = position([
        ".r......", "P.......", "........", "........", "........", "........", "........", "........",
    ]);
    let promotion = PawnPromotionChessMove::new(Square::A7, Square::B8, Some(Capture(Piece::Rook)), Piece::Queen);
    promotion.apply(&mut board).unwrap();
    assert_eq!(None, board.get(Square::A7));
    assert_eq!(Some((Piece::Queen, Color::White)), board.get(Square::B8));
    promotion.undo(&mut board).unwrap();
    assert_eq!(Some((Piece::Pawn, Color::White)), board.get(Square::A7));
    assert_eq!(Some((Piece::Rook, Color::Black)), board.get(Square::B8));
}
